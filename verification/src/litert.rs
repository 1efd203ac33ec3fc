//! Decisions around the LiteRT backends: which callback tables are accepted, what
//! a failed call reports, and which encoder layouts are usable.

use crate::error::{outcome, Error, ErrorView};
use crate::layout::{
    invalid_length_message, litert_cache_abi_from_i64, unsupported_abi_message, EncoderCacheAbi,
    EncoderLayout, LiteRtEncoderLayout,
};
use vstd::prelude::*;
use vstd::utf8::*;

verus! {

/// The version of the callback table that this library works with.
pub const LITERT_ENCODER_API_VERSION: u32 = 3;

/// Which callbacks a table provides.
#[derive(Clone, Copy, Debug, PartialEq, Eq, Structural)]
pub struct LiteRtEncoderApi {
    pub version: u32,
    pub create: bool,
    pub destroy: bool,
    pub run: bool,
    pub run_projected_layered: bool,
    pub get_encoder_layout: bool,
    pub create_decoder: bool,
    pub destroy_decoder: bool,
    pub run_decoder: bool,
}

impl LiteRtEncoderApi {
    /// The table has the right version and every callback.
    pub open spec fn is_complete(self) -> bool {
        &&& self.version == LITERT_ENCODER_API_VERSION
        &&& self.create && self.destroy && self.run && self.run_projected_layered
        &&& self.get_encoder_layout
        &&& self.create_decoder && self.destroy_decoder && self.run_decoder
    }
}

/// Offers a callback table, if there is one: what is registered afterwards, and
/// whether the offer was taken. A table that is not complete is not taken, and
/// what was registered before stays.
pub fn set_litert_encoder_api(
    registered: Option<LiteRtEncoderApi>,
    api: Option<LiteRtEncoderApi>,
) -> (r: (Option<LiteRtEncoderApi>, bool))
    ensures
        r.1 <==> (api is Some && api->0.is_complete()),
        r.0 == (if r.1 {
            api
        } else {
            registered
        }),
{
    match api {
        None => (registered, false),
        Some(table) => {
            if table.version != LITERT_ENCODER_API_VERSION || !table.create || !table.destroy
                || !table.run || !table.run_projected_layered || !table.get_encoder_layout
                || !table.create_decoder || !table.destroy_decoder || !table.run_decoder {
                (registered, false)
            } else {
                (Some(table), true)
            }
        },
    }
}

/// Bytes as text, with a replacement for what is not valid.
pub uninterp spec fn lossy_text(bytes: Seq<u8>) -> Seq<char>;

/// Calls `String::from_utf8_lossy`: the text of the bytes, which is their UTF-8
/// decoding where they are valid and otherwise a function of the bytes.
#[verifier::external_body]
fn from_utf8_lossy(bytes: &[u8]) -> (r: String)
    ensures
        r@ == lossy_text(bytes@),
        valid_utf8(bytes@) ==> r@ == decode_utf8(bytes@),
{
    String::from_utf8_lossy(bytes).into_owned()
}

/// The bytes before the first NUL, or all of them where there is none.
pub open spec fn before_nul(buffer: Seq<u8>) -> Seq<u8>
    decreases buffer.len(),
{
    if buffer.len() == 0 || buffer[0] == 0 {
        Seq::empty()
    } else {
        seq![buffer[0]] + before_nul(buffer.skip(1))
    }
}

proof fn lemma_before_nul(buffer: Seq<u8>, n: int)
    requires
        0 <= n <= buffer.len(),
        forall|i: int| 0 <= i < n ==> #[trigger] buffer[i] != 0,
        n < buffer.len() ==> buffer[n] == 0,
    ensures
        before_nul(buffer) == buffer.take(n),
    decreases n,
{
    if n > 0 {
        let rest = buffer.skip(1);
        assert forall|i: int| 0 <= i < n - 1 implies #[trigger] rest[i] != 0 by {
            assert(buffer[i + 1] != 0);
        }
        lemma_before_nul(rest, n - 1);
        assert(before_nul(buffer) =~= buffer.take(n));
    } else {
        assert(before_nul(buffer) =~= buffer.take(n));
    }
}

/// The text that a callback left in its error buffer.
pub fn read_c_error(buffer: &[u8]) -> (r: String)
    ensures
        r@ == lossy_text(before_nul(buffer@)),
        valid_utf8(before_nul(buffer@)) ==> r@ == decode_utf8(before_nul(buffer@)),
{
    let mut n: usize = 0;
    while n < buffer.len() && buffer[n] != 0
        invariant
            n <= buffer@.len(),
            forall|i: int| 0 <= i < n ==> #[trigger] buffer@[i] != 0,
        decreases buffer@.len() - n,
    {
        n += 1;
    }
    proof {
        lemma_before_nul(buffer@, n as int);
        assert(buffer@.take(n as int) =~= buffer@.subrange(0, n as int));
    }
    from_utf8_lossy(&buffer[0..n])
}

/// What a callback reports, or a stand-in where it reports nothing.
pub open spec fn reported(message: Seq<char>) -> Seq<char> {
    if message.len() == 0 {
        "unknown error"@
    } else {
        message
    }
}

/// The text of an error buffer, or a stand-in where it is empty.
pub fn reported_error(message: &str) -> (r: String)
    ensures
        r@ == reported(message@),
{
    if message.is_empty() {
        "unknown error".to_owned()
    } else {
        message.to_owned()
    }
}

/// A message about a failed call: what failed, and what was reported.
pub open spec fn failure_message(what: Seq<char>, message: Seq<char>) -> Seq<char> {
    what + reported(message)
}

fn failure(what: &str, message: &str) -> (r: Error)
    ensures
        r@ == ErrorView::Model(failure_message(what@, message@)),
{
    let mut m = what.to_owned();
    m.append(reported_error(message).as_str());
    Error::Model(m)
}

/// A backend that runs in LiteRT.
#[derive(Clone, Copy, Debug, PartialEq, Eq, Structural)]
pub enum LiteRtPart {
    Encoder,
    Decoder,
}

impl LiteRtPart {
    /// The part's name.
    pub open spec fn name_text(self) -> Seq<char> {
        match self {
            LiteRtPart::Encoder => "encoder"@,
            LiteRtPart::Decoder => "decoder"@,
        }
    }

    fn name(&self) -> (r: &'static str)
        ensures
            r@ == self.name_text(),
    {
        match self {
            LiteRtPart::Encoder => "encoder",
            LiteRtPart::Decoder => "decoder",
        }
    }
}

/// How the creation of a LiteRT backend goes on.
#[derive(Clone, Copy, Debug, PartialEq, Eq, Structural)]
pub enum LiteRtStart {
    /// There is no model for it.
    NoModel,
    /// There is no callback table.
    NoApi,
    /// The backend can be created.
    Create,
}

/// Whether a LiteRT backend is created: not without a model, and not without a
/// callback table. `has_create` says whether the table has the callback for it,
/// and `path_has_nul` whether the model's path holds a NUL.
pub fn start_litert(
    part: LiteRtPart,
    model_exists: bool,
    has_api: bool,
    has_create: bool,
    path_has_nul: bool,
) -> (r: Result<LiteRtStart, Error>)
    ensures
        !model_exists ==> r == Ok::<LiteRtStart, Error>(LiteRtStart::NoModel),
        model_exists && !has_api ==> r == Ok::<LiteRtStart, Error>(LiteRtStart::NoApi),
        model_exists && has_api && !has_create ==> outcome(r) == Err::<LiteRtStart, ErrorView>(
            ErrorView::Config("LiteRT "@ + part.name_text() + " create callback missing"@),
        ),
        model_exists && has_api && has_create && path_has_nul ==> outcome(r) == Err::<
            LiteRtStart,
            ErrorView,
        >(ErrorView::Config("LiteRT "@ + part.name_text() + " path contains NUL"@)),
        model_exists && has_api && has_create && !path_has_nul ==> r == Ok::<LiteRtStart, Error>(
            LiteRtStart::Create,
        ),
{
    if !model_exists {
        return Ok(LiteRtStart::NoModel);
    }
    if !has_api {
        return Ok(LiteRtStart::NoApi);
    }
    if !has_create {
        let mut m = "LiteRT ".to_owned();
        m.append(part.name());
        m.append(" create callback missing");
        return Err(Error::Config(m));
    }
    if path_has_nul {
        let mut m = "LiteRT ".to_owned();
        m.append(part.name());
        m.append(" path contains NUL");
        return Err(Error::Config(m));
    }
    Ok(LiteRtStart::Create)
}

/// What failed where a LiteRT backend could not be created.
pub open spec fn create_failure(part: LiteRtPart, path: Seq<char>) -> Seq<char> {
    "Failed to create LiteRT "@ + part.name_text() + " "@ + path + ": "@
}

/// Checks the handle of a new LiteRT backend. `message` is what the callback left
/// in its error buffer, and `path` the model's path as it is shown.
pub fn check_litert_handle(
    part: LiteRtPart,
    path: &str,
    handle_is_null: bool,
    message: &str,
) -> (r: Result<(), Error>)
    ensures
        r is Ok <==> !handle_is_null,
        r matches Err(e) ==> e@ == ErrorView::Model(
            failure_message(create_failure(part, path@), message@),
        ),
{
    if handle_is_null {
        let mut what = "Failed to create LiteRT ".to_owned();
        what.append(part.name());
        what.append(" ");
        what.append(path);
        what.append(": ");
        Err(failure(what.as_str(), message))
    } else {
        Ok(())
    }
}

/// What became of asking a LiteRT encoder for its layout.
pub enum LayoutReply<'a> {
    /// There is no callback for it.
    NoCallback,
    /// The call failed, and left that text in its error buffer.
    Failed(&'a str),
    /// The encoder reported this layout.
    Layout(LiteRtEncoderLayout),
}

/// A LiteRT encoder that is ready to run.
#[derive(Clone, Copy, Debug, PartialEq, Eq, Structural)]
pub struct LiteRtEncoder {
    pub layout: EncoderLayout,
    pub cache_abi: EncoderCacheAbi,
}

/// The kind of attention cache that a LiteRT encoder reports by number.
pub open spec fn reported_abi(value: i64) -> Option<EncoderCacheAbi> {
    if value == 0 {
        Some(EncoderCacheAbi::RawChannel)
    } else if value == 2 {
        Some(EncoderCacheAbi::ProjectedKvLayered)
    } else {
        None
    }
}

impl LiteRtEncoder {
    /// Accepts what a new LiteRT encoder reports of itself. Where this fails, the
    /// encoder's handle is to be destroyed.
    pub fn accept(reply: LayoutReply) -> (r: Result<LiteRtEncoder, Error>)
        ensures
            match reply {
                LayoutReply::NoCallback => outcome(r) == Err::<LiteRtEncoder, ErrorView>(
                    ErrorView::Config("LiteRT encoder layout callback missing"@),
                ),
                LayoutReply::Failed(message) => outcome(r) == Err::<LiteRtEncoder, ErrorView>(
                    ErrorView::Model(
                        failure_message("LiteRT encoder layout failed: "@, message@),
                    ),
                ),
                LayoutReply::Layout(raw) => {
                    &&& r is Ok <==> reported_abi(raw.cache_abi) is Some && raw.is_positive()
                    &&& r matches Ok(encoder) ==> encoder.layout == raw.unsigned()
                        && reported_abi(raw.cache_abi) == Some(encoder.cache_abi)
                    &&& reported_abi(raw.cache_abi) is None ==> outcome(r) == Err::<
                        LiteRtEncoder,
                        ErrorView,
                    >(ErrorView::Model(unsupported_abi_message(raw.cache_abi as int)))
                    &&& reported_abi(raw.cache_abi) is Some && !raw.is_positive() ==> exists|i: int|
                        #[trigger]
                        raw.is_first_invalid(i) && outcome(r) == Err::<LiteRtEncoder, ErrorView>(
                            ErrorView::Model(
                                invalid_length_message(raw.lengths()[i].0, raw.lengths()[i].1),
                            ),
                        )
                },
            },
    {
        match reply {
            LayoutReply::NoCallback => Err(
                Error::Config("LiteRT encoder layout callback missing".to_owned()),
            ),
            LayoutReply::Failed(message) => Err(failure("LiteRT encoder layout failed: ", message)),
            LayoutReply::Layout(raw) => {
                let cache_abi = match litert_cache_abi_from_i64(raw.cache_abi) {
                    Ok(cache_abi) => cache_abi,
                    Err(e) => {
                        return Err(e);
                    },
                };
                match EncoderLayout::try_from(raw) {
                    Ok(layout) => Ok(LiteRtEncoder { layout, cache_abi }),
                    Err(e) => Err(e),
                }
            },
        }
    }

    /// The layout of the encoder.
    pub fn encoder_layout(&self) -> (r: EncoderLayout)
        ensures
            r == self.layout,
    {
        self.layout
    }

    /// The kind of attention cache of the encoder.
    pub fn encoder_cache_abi(&self) -> (r: EncoderCacheAbi)
        ensures
            r == self.cache_abi,
    {
        self.cache_abi
    }
}

/// Checks the outcome of a LiteRT run. `message` is what the callback left in its
/// error buffer.
pub fn check_litert_run(part: LiteRtPart, ok: bool, message: &str) -> (r: Result<(), Error>)
    ensures
        r is Ok <==> ok,
        r matches Err(e) ==> e@ == ErrorView::Model(
            failure_message("LiteRT "@ + part.name_text() + " run failed: "@, message@),
        ),
{
    if ok {
        Ok(())
    } else {
        let mut what = "LiteRT ".to_owned();
        what.append(part.name());
        what.append(" run failed: ");
        Err(failure(what.as_str(), message))
    }
}

/// A LiteRT encoder never keeps stacked projected caches.
pub proof fn litert_encoders_are_never_stacked(value: i64)
    ensures
        reported_abi(value) != Some(EncoderCacheAbi::ProjectedKvStacked),
{
}

/// A callback table is taken exactly where it has version 3 and all eight callbacks; then
/// it is the one that is registered. Else what was registered before stays.
pub proof fn only_complete_tables_are_registered(
    registered: Option<LiteRtEncoderApi>,
    api: Option<LiteRtEncoderApi>,
    r: (Option<LiteRtEncoderApi>, bool),
)
    requires
        call_ensures(set_litert_encoder_api, (registered, api), r),
    ensures
        r.1 <==> api is Some && api->0.version == 3 && api->0.create && api->0.destroy
            && api->0.run && api->0.run_projected_layered && api->0.get_encoder_layout
            && api->0.create_decoder && api->0.destroy_decoder && api->0.run_decoder,
        r.1 ==> r.0 == api,
        !r.1 ==> r.0 == registered,
{
}

/// The text of an error buffer is that of the bytes before its first NUL, or of all where
/// there is none.
pub proof fn error_texts_end_at_the_first_nul(buffer: &[u8], n: int, r: String)
    requires
        call_ensures(read_c_error, (buffer,), r),
        0 <= n <= buffer@.len(),
        forall|i: int| 0 <= i < n ==> #[trigger] buffer@[i] != 0,
        n < buffer@.len() ==> buffer@[n] == 0,
    ensures
        r@ == lossy_text(buffer@.take(n)),
        valid_utf8(buffer@.take(n)) ==> r@ == decode_utf8(buffer@.take(n)),
{
    lemma_before_nul(buffer@, n);
}

/// What was reported is shown as it is; where nothing was, the error is unknown.
pub proof fn reports_are_shown_as_they_are(message: &str, r: String)
    requires
        call_ensures(reported_error, (message,), r),
    ensures
        message@.len() > 0 ==> r@ == message@,
        message@.len() == 0 ==> r@ == "unknown error"@,
{
}

/// A LiteRT encoder is accepted exactly where it reports a known kind of cache and eight
/// positive lengths, and then it has that kind and those lengths. The kind is checked
/// before the lengths.
pub proof fn accepted_encoders_are_as_reported(
    raw: LiteRtEncoderLayout,
    r: Result<LiteRtEncoder, Error>,
)
    requires
        call_ensures(LiteRtEncoder::accept, (LayoutReply::Layout(raw),), r),
    ensures
        r is Ok <==> (raw.cache_abi == 0 || raw.cache_abi == 2) && raw.batch > 0 && raw.n_mels > 0
            && raw.input_frames > 0 && raw.output_frames > 0 && raw.num_layers > 0
            && raw.cache_len > 0 && raw.hidden_size > 0 && raw.time_cache_len > 0,
        r matches Ok(encoder) ==> {
            &&& encoder.cache_abi == (if raw.cache_abi == 0 {
                EncoderCacheAbi::RawChannel
            } else {
                EncoderCacheAbi::ProjectedKvLayered
            })
            &&& encoder.layout.batch == raw.batch as usize
            &&& encoder.layout.n_mels == raw.n_mels as usize
            &&& encoder.layout.input_frames == raw.input_frames as usize
            &&& encoder.layout.output_frames == raw.output_frames as usize
            &&& encoder.layout.num_layers == raw.num_layers as usize
            &&& encoder.layout.cache_len == raw.cache_len as usize
            &&& encoder.layout.hidden_size == raw.hidden_size as usize
            &&& encoder.layout.time_cache_len == raw.time_cache_len as usize
        },
        raw.cache_abi != 0 && raw.cache_abi != 2 ==> r->Err_0@ == ErrorView::Model(
            unsupported_abi_message(raw.cache_abi as int),
        ),
{
    let all = raw.lengths();
    assert(all[0].1 == raw.batch && all[1].1 == raw.n_mels && all[2].1 == raw.input_frames
        && all[3].1 == raw.output_frames && all[4].1 == raw.num_layers && all[5].1 == raw.cache_len
        && all[6].1 == raw.hidden_size && all[7].1 == raw.time_cache_len);
    if raw.batch > 0 && raw.n_mels > 0 && raw.input_frames > 0 && raw.output_frames > 0
        && raw.num_layers > 0 && raw.cache_len > 0 && raw.hidden_size > 0 && raw.time_cache_len
        > 0 {
        assert forall|i: int| 0 <= i < all.len() implies (#[trigger] all[i]).1 > 0 by {}
    }
}

/// A backend is created only with a model and a callback table; without a callback to
/// create it, or with a NUL in its path, that is an error.
pub proof fn backends_start_with_a_model_and_a_table(
    part: LiteRtPart,
    model_exists: bool,
    has_api: bool,
    has_create: bool,
    path_has_nul: bool,
    r: Result<LiteRtStart, Error>,
)
    requires
        call_ensures(start_litert, (part, model_exists, has_api, has_create, path_has_nul), r),
    ensures
        r is Err <==> model_exists && has_api && (!has_create || path_has_nul),
        r matches Ok(start) ==> {
            &&& start == LiteRtStart::NoModel <==> !model_exists
            &&& start == LiteRtStart::NoApi <==> model_exists && !has_api
            &&& start == LiteRtStart::Create <==> model_exists && has_api && has_create
                && !path_has_nul
        },
        r matches Err(e) ==> e is Config,
{
}

/// A backend fails exactly where its handle is null, and a run exactly where its callback
/// says so; what was reported ends the message.
pub proof fn failures_end_with_the_report(
    part: LiteRtPart,
    path: &str,
    null: bool,
    message: &str,
    created: Result<(), Error>,
    ok: bool,
    ran: Result<(), Error>,
)
    requires
        call_ensures(check_litert_handle, (part, path, null, message), created),
        call_ensures(check_litert_run, (part, ok, message), ran),
        message@.len() > 0,
    ensures
        created is Err <==> null,
        ran is Err <==> !ok,
        created matches Err(e) ==> e is Model && e@.message() == "Failed to create LiteRT "@ + (
        if part == LiteRtPart::Encoder {
            "encoder"@
        } else {
            "decoder"@
        }) + " "@ + path@ + ": "@ + message@,
        ran matches Err(e) ==> e is Model && e@.message() == "LiteRT "@ + (if part
            == LiteRtPart::Encoder {
            "encoder"@
        } else {
            "decoder"@
        }) + " run failed: "@ + message@,
{
}

/// An encoder shows its layout and the kind of its cache as they were accepted.
pub proof fn encoders_show_what_was_accepted(
    encoder: &LiteRtEncoder,
    layout: EncoderLayout,
    abi: EncoderCacheAbi,
)
    requires
        call_ensures(LiteRtEncoder::encoder_layout, (encoder,), layout),
        call_ensures(LiteRtEncoder::encoder_cache_abi, (encoder,), abi),
    ensures
        layout == encoder.layout,
        abi == encoder.cache_abi,
{
}

/// An encoder without a callback for its layout, or whose callback fails, is refused, and
/// so is one whose layout is: with what the kind of its cache, or else its lengths, give.
pub proof fn refused_encoders_say_why(
    missing: Result<LiteRtEncoder, Error>,
    message: &str,
    failed: Result<LiteRtEncoder, Error>,
    raw: LiteRtEncoderLayout,
    abi: Result<EncoderCacheAbi, Error>,
    layout: Result<EncoderLayout, Error>,
    r: Result<LiteRtEncoder, Error>,
)
    requires
        call_ensures(LiteRtEncoder::accept, (LayoutReply::NoCallback,), missing),
        call_ensures(LiteRtEncoder::accept, (LayoutReply::Failed(message),), failed),
        call_ensures(LiteRtEncoder::accept, (LayoutReply::Layout(raw),), r),
        call_ensures(litert_cache_abi_from_i64, (raw.cache_abi,), abi),
        call_ensures(EncoderLayout::try_from, (raw,), layout),
    ensures
        missing matches Err(e) && e@ == ErrorView::Config(
            "LiteRT encoder layout callback missing"@,
        ),
        failed matches Err(e) && e@ == ErrorView::Model(
            "LiteRT encoder layout failed: "@ + (if message@.len() > 0 {
                message@
            } else {
                "unknown error"@
            }),
        ),
        abi is Err ==> r is Err && r->Err_0@ == abi->Err_0@,
        abi is Ok && layout is Err ==> r is Err && r->Err_0@ == layout->Err_0@,
        abi is Ok && layout is Ok ==> r is Ok && r->Ok_0.layout == layout->Ok_0 && r->Ok_0.cache_abi
            == abi->Ok_0,
{
    if layout is Err && r is Err {
        let i = choose|i: int| #[trigger]
            raw.is_first_invalid(i) && layout->Err_0@ == ErrorView::Model(
                invalid_length_message(raw.lengths()[i].0, raw.lengths()[i].1),
            );
        if abi is Ok {
            let j = choose|j: int| #[trigger]
                raw.is_first_invalid(j) && outcome(r) == Err::<LiteRtEncoder, ErrorView>(
                    ErrorView::Model(
                        invalid_length_message(raw.lengths()[j].0, raw.lengths()[j].1),
                    ),
                );
            assert(i == j) by {
                if i < j {
                    assert(raw.lengths()[i].1 > 0);
                }
                if j < i {
                    assert(raw.lengths()[j].1 > 0);
                }
            }
        }
    }
}

/// A backend that cannot be created is named, with what is missing or with what was
/// reported; where nothing was, the error is unknown.
pub proof fn backends_that_cannot_be_created_are_named(
    part: LiteRtPart,
    has_create: bool,
    path_has_nul: bool,
    started: Result<LiteRtStart, Error>,
    path: &str,
    created: Result<(), Error>,
    ran: Result<(), Error>,
    silent: &str,
)
    requires
        call_ensures(start_litert, (part, true, true, has_create, path_has_nul), started),
        call_ensures(check_litert_handle, (part, path, true, silent), created),
        call_ensures(check_litert_run, (part, false, silent), ran),
        silent@.len() == 0,
    ensures
        ({
            let name = if part is Encoder {
                "encoder"@
            } else {
                "decoder"@
            };
            &&& !has_create ==> started is Err && started->Err_0@ == ErrorView::Config(
                "LiteRT "@ + name + " create callback missing"@,
            )
            &&& has_create && path_has_nul ==> started is Err && started->Err_0@
                == ErrorView::Config("LiteRT "@ + name + " path contains NUL"@)
            &&& created is Err && created->Err_0@ == ErrorView::Model(
                "Failed to create LiteRT "@ + name + " "@ + path@ + ": "@ + "unknown error"@,
            )
            &&& ran is Err && ran->Err_0@ == ErrorView::Model(
                "LiteRT "@ + name + " run failed: "@ + "unknown error"@,
            )
        }),
{
}

} // verus!
