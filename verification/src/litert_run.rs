//! Runs of the LiteRT backends: what is checked before the callback is called, and
//! what becomes of the buffers that it filled.

use crate::cache::{copied_lengths, layer_moved_up, EncoderCache};
use crate::encoder_run::{encoder_state, EncoderState};
use crate::error::{outcome, Error, ErrorView};
use crate::layout::{EncoderCacheAbi, EncoderLayout};
use crate::litert::{check_litert_run, failure_message, LiteRtEncoder, LiteRtPart};
use crate::projected::{
    can_roll_slices, layers_move_up, roll_slices, rolled_slices, rolling_keeps_the_caches_shape,
    sliced, slices_accepted, Projected,
};
use crate::tensor::{Tensor, TensorView};
use vstd::prelude::*;

verus! {

/// The callback that runs a LiteRT encoder.
#[derive(Clone, Copy, Debug, PartialEq, Eq, Structural)]
pub enum LiteRtRun {
    /// The one for raw channel caches.
    Raw,
    /// The one for projected caches, layer by layer.
    Projected,
}

/// The first of the named tensors that is not laid out contiguously, as a message.
pub open spec fn first_scattered(tensors: Seq<(Seq<char>, TensorView)>) -> Option<Seq<char>>
    decreases tensors.len(),
{
    if tensors.len() == 0 {
        None
    } else if !tensors[0].1.standard {
        Some(tensors[0].0 + " is not contiguous"@)
    } else {
        first_scattered(tensors.skip(1))
    }
}

fn check_contiguous(tensors: &[(&str, &Tensor)]) -> (r: Result<(), Error>)
    ensures
        ({
            let named = Seq::new(
                tensors@.len(),
                |i: int| (tensors@[i].0@, tensors@[i].1@),
            );
            match first_scattered(named) {
                None => r is Ok,
                Some(message) => r is Err && r->Err_0@ == ErrorView::Model(message),
            }
        }),
{
    let ghost named = Seq::new(tensors@.len(), |i: int| (tensors@[i].0@, tensors@[i].1@));
    let mut i: usize = 0;
    assert(named.skip(0) =~= named);
    while i < tensors.len()
        invariant
            i <= tensors@.len(),
            named == Seq::new(tensors@.len(), |j: int| (tensors@[j].0@, tensors@[j].1@)),
            first_scattered(named) == first_scattered(named.skip(i as int)),
        decreases tensors@.len() - i,
    {
        let (name, tensor) = tensors[i];
        assert(named.skip(i as int)[0] == named[i as int]);
        assert(named.skip(i as int).skip(1) =~= named.skip(i + 1));
        if tensor.words().is_none() {
            let mut m = name.to_owned();
            m.append(" is not contiguous");
            return Err(Error::Model(m));
        }
        i += 1;
    }
    Ok(())
}

/// The tensors that every LiteRT encoder run works on.
pub open spec fn encoder_tensors(features: TensorView, s: EncoderState) -> Seq<
    (Seq<char>, TensorView),
> {
    seq![
        ("features"@, features),
        ("cache_last_channel"@, s.channel),
        ("cache_last_time"@, s.time),
        ("encoder_out"@, s.out),
    ]
}

/// The tensors that a run with projected caches works on besides.
pub open spec fn projected_tensors(
    s: EncoderState,
    current_key: TensorView,
    current_value: TensorView,
) -> Seq<(Seq<char>, TensorView)> {
    seq![
        ("cache_last_key"@, s.key),
        ("cache_last_value"@, s.value),
        ("projected_current_key"@, current_key),
        ("projected_current_value"@, current_value),
    ]
}

/// The callback that a run of the encoder calls, or why it calls none.
pub open spec fn encoder_run_plan(
    encoder: LiteRtEncoder,
    features: TensorView,
    s: EncoderState,
    current_key: TensorView,
    current_value: TensorView,
    has_run: bool,
    has_run_projected: bool,
) -> Result<LiteRtRun, ErrorView> {
    match first_scattered(encoder_tensors(features, s)) {
        Some(message) => Err(ErrorView::Model(message)),
        None => match encoder.cache_abi {
            EncoderCacheAbi::RawChannel => if has_run {
                Ok(LiteRtRun::Raw)
            } else {
                Err(ErrorView::Config("LiteRT encoder run callback missing"@))
            },
            EncoderCacheAbi::ProjectedKvLayered => if !has_run_projected {
                Err(ErrorView::Config("LiteRT projected encoder run callback missing"@))
            } else {
                match first_scattered(projected_tensors(s, current_key, current_value)) {
                    Some(message) => Err(ErrorView::Model(message)),
                    None => Ok(LiteRtRun::Projected),
                }
            },
            EncoderCacheAbi::ProjectedKvStacked => Err(
                ErrorView::Config("LiteRT stacked projected-cache ABI is not supported"@),
            ),
        },
    }
}

/// What a callback of a LiteRT encoder left in the buffers that it was given, and
/// what it reported.
pub struct LiteRtEncoderReply<'a> {
    pub ok: bool,
    /// The text of the error buffer.
    pub message: &'a str,
    pub encoded: &'a [u32],
    pub encoded_lengths: &'a [i64],
    pub channel: &'a [u32],
    pub time: &'a [u32],
    pub lengths: &'a [i64],
    /// The projected keys, where the encoder has projected caches.
    pub current_key: &'a [u32],
    /// The projected values, where the encoder has projected caches.
    pub current_value: &'a [u32],
}

/// The callback can have been called: the buffers it was given are laid out
/// contiguously, and they still have their sizes.
pub open spec fn reply_matches(
    encoder: LiteRtEncoder,
    s: EncoderState,
    current_key: TensorView,
    current_value: TensorView,
    reply: LiteRtEncoderReply,
) -> bool {
    &&& encoder.cache_abi != EncoderCacheAbi::ProjectedKvStacked
    &&& s.out.standard && s.out.words.len() == reply.encoded@.len()
    &&& s.channel.standard && s.channel.words.len() == reply.channel@.len()
    &&& s.time.standard && s.time.words.len() == reply.time@.len()
    &&& s.lengths.len() == reply.lengths@.len() == reply.encoded_lengths@.len()
    &&& encoder.cache_abi == EncoderCacheAbi::ProjectedKvLayered ==> {
        &&& current_key.standard && current_key.words.len() == reply.current_key@.len()
        &&& current_value.standard && current_value.words.len() == reply.current_value@.len()
    }
}

/// Where the run succeeded, rolling what it projected is defined, as far as it goes.
pub open spec fn reply_rolls(
    encoder: LiteRtEncoder,
    s: EncoderState,
    current_key: TensorView,
    current_value: TensorView,
    reply: LiteRtEncoderReply,
) -> bool {
    reply.ok && encoder.cache_abi == EncoderCacheAbi::ProjectedKvLayered ==> slices_accepted(
        s.key,
        s.value,
        encoder.layout,
        current_key.with_words(reply.current_key@),
        current_value.with_words(reply.current_value@),
    )
}

/// What a run of the encoder leaves behind: the buffers and caches, and what it
/// projected.
pub struct LiteRtOutcome {
    pub state: EncoderState,
    pub current_key: TensorView,
    pub current_value: TensorView,
    pub result: Result<usize, ErrorView>,
}

/// What a run of the encoder leaves behind. The callback writes in place, so its
/// buffers are taken over even where it fails. Projected keys and values are rolled
/// into their caches where it succeeds.
pub open spec fn after_litert_run(
    encoder: LiteRtEncoder,
    s: EncoderState,
    current_key: TensorView,
    current_value: TensorView,
    reply: LiteRtEncoderReply,
) -> LiteRtOutcome {
    let layered = encoder.cache_abi == EncoderCacheAbi::ProjectedKvLayered;
    let written = EncoderState {
        out: s.out.with_words(reply.encoded@),
        channel: s.channel.with_words(reply.channel@),
        time: s.time.with_words(reply.time@),
        lengths: reply.lengths@,
        ..s
    };
    let key = if layered {
        current_key.with_words(reply.current_key@)
    } else {
        current_key
    };
    let value = if layered {
        current_value.with_words(reply.current_value@)
    } else {
        current_value
    };
    let frames = (if reply.encoded_lengths@.len() > 0 {
        reply.encoded_lengths@[0]
    } else {
        reply.encoded@.len() as i64
    }) as usize;
    let rolled = if layered {
        rolled_slices(
            s.key,
            s.value,
            encoder.layout,
            key,
            value,
            encoder.layout.num_layers as nat,
        )
    } else {
        Projected { key: s.key, value: s.value, failure: None }
    };
    if !reply.ok {
        LiteRtOutcome {
            state: written,
            current_key: key,
            current_value: value,
            result: Err(
                ErrorView::Model(
                    failure_message(
                        "LiteRT "@ + LiteRtPart::Encoder.name_text() + " run failed: "@,
                        reply.message@,
                    ),
                ),
            ),
        }
    } else {
        LiteRtOutcome {
            state: EncoderState { key: rolled.key, value: rolled.value, ..written },
            current_key: key,
            current_value: value,
            result: match rolled.failure {
                Some(e) => Err(e),
                None => Ok(frames),
            },
        }
    }
}

/// Whether the tensor is laid out contiguously and has as many words.
fn has_room(t: &Tensor, words: &[u32]) -> (r: bool)
    ensures
        r == (t@.standard && t@.words.len() == words@.len()),
{
    match t.words() {
        None => false,
        Some(held) => held.len() == words.len(),
    }
}

impl LiteRtEncoder {
    /// Whether what the callback left in its buffers can be taken over: they still have
    /// their sizes, and rolling what was projected is defined.
    pub fn can_finish_run(
        &self,
        cache: &EncoderCache,
        out: &Tensor,
        current_key: &Tensor,
        current_value: &Tensor,
        reply: &LiteRtEncoderReply,
    ) -> (r: bool)
        ensures
            r == (reply_matches(
                *self,
                encoder_state(*out, *cache),
                current_key@,
                current_value@,
                *reply,
            ) && reply_rolls(
                *self,
                encoder_state(*out, *cache),
                current_key@,
                current_value@,
                *reply,
            )),
    {
        if self.cache_abi == EncoderCacheAbi::ProjectedKvStacked {
            return false;
        }
        let layered = self.cache_abi == EncoderCacheAbi::ProjectedKvLayered;
        if !(has_room(out, reply.encoded) && has_room(&cache.cache_last_channel, reply.channel)
            && has_room(&cache.cache_last_time, reply.time) && cache.cache_last_channel_len.len()
            == reply.lengths.len() && reply.lengths.len() == reply.encoded_lengths.len()) {
            return false;
        }
        if layered && !(has_room(current_key, reply.current_key) && has_room(
            current_value,
            reply.current_value,
        )) {
            return false;
        }
        !(reply.ok && layered) || can_roll_slices(
            &cache.cache_last_key,
            &cache.cache_last_value,
            self.layout,
            current_key,
            reply.current_key,
            current_value,
            reply.current_value,
        )
    }

    /// Checks that the encoder can be run on these tensors, and which callback runs it.
    /// The two flags say which callbacks there are.
    pub fn plan_run(
        &self,
        features: &Tensor,
        cache: &EncoderCache,
        out: &Tensor,
        current_key: &Tensor,
        current_value: &Tensor,
        has_run: bool,
        has_run_projected: bool,
    ) -> (r: Result<LiteRtRun, Error>)
        ensures
            outcome(r) == encoder_run_plan(
                *self,
                features@,
                encoder_state(*out, *cache),
                current_key@,
                current_value@,
                has_run,
                has_run_projected,
            ),
    {
        let ghost s = encoder_state(*out, *cache);
        let tensors = [
            ("features", features),
            ("cache_last_channel", &cache.cache_last_channel),
            ("cache_last_time", &cache.cache_last_time),
            ("encoder_out", out),
        ];
        proof {
            assert(Seq::new(tensors@.len(), |i: int| (tensors@[i].0@, tensors@[i].1@))
                =~= encoder_tensors(features@, s));
        }
        if let Err(e) = check_contiguous(&tensors) {
            return Err(e);
        }
        match self.cache_abi {
            EncoderCacheAbi::RawChannel => {
                if has_run {
                    Ok(LiteRtRun::Raw)
                } else {
                    Err(Error::Config("LiteRT encoder run callback missing".to_owned()))
                }
            },
            EncoderCacheAbi::ProjectedKvLayered => {
                if !has_run_projected {
                    return Err(
                        Error::Config("LiteRT projected encoder run callback missing".to_owned()),
                    );
                }
                let projected = [
                    ("cache_last_key", &cache.cache_last_key),
                    ("cache_last_value", &cache.cache_last_value),
                    ("projected_current_key", current_key),
                    ("projected_current_value", current_value),
                ];
                proof {
                    assert(Seq::new(projected@.len(), |i: int| (projected@[i].0@, projected@[i].1@))
                        =~= projected_tensors(s, current_key@, current_value@));
                }
                match check_contiguous(&projected) {
                    Ok(_) => Ok(LiteRtRun::Projected),
                    Err(e) => Err(e),
                }
            },
            EncoderCacheAbi::ProjectedKvStacked => Err(
                Error::Config("LiteRT stacked projected-cache ABI is not supported".to_owned()),
            ),
        }
    }

    /// Takes over what the callback left in its buffers, and gives the number of
    /// encoded frames.
    pub fn finish_run(
        &self,
        cache: &mut EncoderCache,
        out: &mut Tensor,
        current_key: &mut Tensor,
        current_value: &mut Tensor,
        reply: LiteRtEncoderReply,
    ) -> (r: Result<usize, Error>)
        requires
            reply_matches(
                *self,
                encoder_state(*old(out), *old(cache)),
                old(current_key)@,
                old(current_value)@,
                reply,
            ),
            reply_rolls(
                *self,
                encoder_state(*old(out), *old(cache)),
                old(current_key)@,
                old(current_value)@,
                reply,
            ),
        ensures
            ({
                let after = after_litert_run(
                    *self,
                    encoder_state(*old(out), *old(cache)),
                    old(current_key)@,
                    old(current_value)@,
                    reply,
                );
                &&& encoder_state(*final(out), *final(cache)) == after.state
                &&& final(current_key)@ == after.current_key
                &&& final(current_value)@ == after.current_value
                &&& outcome(r) == after.result
            }),
    {
        let layered = self.cache_abi == EncoderCacheAbi::ProjectedKvLayered;
        out.store(reply.encoded);
        cache.cache_last_channel.store(reply.channel);
        cache.cache_last_time.store(reply.time);
        cache.cache_last_channel_len = copied_lengths(reply.lengths);
        if layered {
            current_key.store(reply.current_key);
            current_value.store(reply.current_value);
        }
        if let Err(e) = check_litert_run(LiteRtPart::Encoder, reply.ok, reply.message) {
            return Err(e);
        }
        if layered {
            if let Err(e) = roll_slices(
                &mut cache.cache_last_key,
                &mut cache.cache_last_value,
                self.layout,
                current_key,
                current_value,
            ) {
                return Err(e);
            }
        }
        let frames: i64 = if reply.encoded_lengths.len() > 0 {
            reply.encoded_lengths[0]
        } else {
            reply.encoded.len() as i64
        };
        Ok(frames as usize)
    }
}

/// Buffers and caches that fit a layout still fit it after a LiteRT run.
pub proof fn litert_runs_keep_the_layout(
    encoder: LiteRtEncoder,
    layout: EncoderLayout,
    s: EncoderState,
    current_key: TensorView,
    current_value: TensorView,
    reply: LiteRtEncoderReply,
)
    requires
        s.fits(layout),
        reply_matches(encoder, s, current_key, current_value, reply),
    ensures
        after_litert_run(encoder, s, current_key, current_value, reply).state.fits(layout),
{
    rolling_keeps_the_caches_shape(
        Projected { key: s.key, value: s.value, failure: None },
        encoder.layout,
        sliced(current_key.with_words(reply.current_key@), encoder.layout),
        sliced(current_value.with_words(reply.current_value@), encoder.layout),
        encoder.layout.num_layers as nat,
    );
}

/// A LiteRT run that fails leaves the key and value caches as they were.
pub proof fn failed_litert_runs_leave_projected_caches(
    encoder: LiteRtEncoder,
    s: EncoderState,
    current_key: TensorView,
    current_value: TensorView,
    reply: LiteRtEncoderReply,
)
    requires
        !reply.ok,
    ensures
        ({
            let after = after_litert_run(encoder, s, current_key, current_value, reply);
            &&& after.result is Err
            &&& after.state.key == s.key
            &&& after.state.value == s.value
        }),
{
}

/// The tensors that a run of the LiteRT decoder works on.
pub open spec fn decoder_tensors(
    frame: TensorView,
    state_h: TensorView,
    state_c: TensorView,
    logits: TensorView,
    new_h: TensorView,
    new_c: TensorView,
) -> Seq<(Seq<char>, TensorView)> {
    seq![
        ("decoder encoder_frame"@, frame),
        ("decoder state_h"@, state_h),
        ("decoder state_c"@, state_c),
        ("decoder logits"@, logits),
        ("decoder new_h"@, new_h),
        ("decoder new_c"@, new_c),
    ]
}

/// Checks that the LiteRT decoder can be run on these tensors. `has_run` says
/// whether there is a callback for it.
pub fn plan_decoder_run(
    has_run: bool,
    frame: &Tensor,
    state_h: &Tensor,
    state_c: &Tensor,
    logits: &Tensor,
    new_h: &Tensor,
    new_c: &Tensor,
) -> (r: Result<(), Error>)
    ensures
        !has_run ==> outcome(r) == Err::<(), ErrorView>(
            ErrorView::Config("LiteRT decoder run callback missing"@),
        ),
        has_run ==> match first_scattered(
            decoder_tensors(frame@, state_h@, state_c@, logits@, new_h@, new_c@),
        ) {
            None => r is Ok,
            Some(message) => outcome(r) == Err::<(), ErrorView>(ErrorView::Model(message)),
        },
{
    if !has_run {
        return Err(Error::Config("LiteRT decoder run callback missing".to_owned()));
    }
    let tensors = [
        ("decoder encoder_frame", frame),
        ("decoder state_h", state_h),
        ("decoder state_c", state_c),
        ("decoder logits", logits),
        ("decoder new_h", new_h),
        ("decoder new_c", new_c),
    ];
    proof {
        assert(Seq::new(tensors@.len(), |i: int| (tensors@[i].0@, tensors@[i].1@))
            =~= decoder_tensors(frame@, state_h@, state_c@, logits@, new_h@, new_c@));
    }
    check_contiguous(&tensors)
}

/// The buffers and caches hold what the callback wrote into them, and the projected keys
/// and values are those that it wrote where the encoder projects any. The caches of keys
/// and values have moved up by them, layer by layer, where the run succeeded and all of
/// them could be rolled; without projected caches, or after a failed run, they are as they
/// were.
pub open spec fn reply_taken(
    encoder: LiteRtEncoder,
    before: EncoderState,
    before_key: TensorView,
    before_value: TensorView,
    reply: LiteRtEncoderReply,
    after: EncoderState,
    after_key: TensorView,
    after_value: TensorView,
    succeeded: bool,
) -> bool {
    let layered = encoder.cache_abi == EncoderCacheAbi::ProjectedKvLayered;
    let size = encoder.layout.batch * encoder.layout.cache_len * encoder.layout.hidden_size;
    let block = encoder.layout.batch * encoder.layout.output_frames * encoder.layout.hidden_size;
    &&& after.out.words == reply.encoded@ && after.out.shape == before.out.shape
    &&& after.channel.words == reply.channel@ && after.channel.shape == before.channel.shape
    &&& after.time.words == reply.time@ && after.time.shape == before.time.shape
    &&& after.lengths == reply.lengths@
    &&& layered ==> after_key.words == reply.current_key@ && after_value.words
        == reply.current_value@
    &&& !layered ==> after_key == before_key && after_value == before_value
    &&& !layered || !reply.ok ==> after.key == before.key && after.value == before.value
    &&& layered && succeeded ==> forall|layer: int|
        0 <= layer < encoder.layout.num_layers ==> {
            let from = #[trigger] (layer * block);
            &&& layer_moved_up(
                before.key.words,
                after.key.words,
                layer,
                size,
                reply.current_key@.subrange(from, from + block),
            )
            &&& layer_moved_up(
                before.value.words,
                after.value.words,
                layer,
                size,
                reply.current_value@.subrange(from, from + block),
            )
        }
}

/// A LiteRT run leaves exactly what its callback wrote, and gives the first encoded length,
/// or the size of the output where there is none.
pub proof fn litert_runs_leave_what_was_written(
    encoder: LiteRtEncoder,
    s: EncoderState,
    current_key: TensorView,
    current_value: TensorView,
    reply: LiteRtEncoderReply,
)
    ensures
        ({
            let after = after_litert_run(encoder, s, current_key, current_value, reply);
            &&& reply_taken(
                encoder,
                s,
                current_key,
                current_value,
                reply,
                after.state,
                after.current_key,
                after.current_value,
                after.result is Ok,
            )
            &&& !reply.ok ==> after.result is Err
            &&& reply.ok && encoder.cache_abi == EncoderCacheAbi::RawChannel ==> after.result is Ok
            &&& after.result matches Ok(frames) ==> frames == (if reply.encoded_lengths@.len() > 0 {
                reply.encoded_lengths@[0] as usize
            } else {
                (reply.encoded@.len() as i64) as usize
            })
        }),
{
    let after = after_litert_run(encoder, s, current_key, current_value, reply);
    let layout = encoder.layout;
    let n = layout.num_layers as nat;
    if encoder.cache_abi == EncoderCacheAbi::ProjectedKvLayered && after.result is Ok {
        let start = Projected { key: s.key, value: s.value, failure: None };
        let keys = sliced(after.current_key, layout);
        let values = sliced(after.current_value, layout);
        let block = layout.batch * layout.output_frames * layout.hidden_size;
        assert forall|layer: int| 0 <= layer < layout.num_layers implies {
            let size = layout.batch * layout.cache_len * layout.hidden_size;
            let from = #[trigger] (layer * block);
            &&& layer_moved_up(
                s.key.words,
                after.state.key.words,
                layer,
                size,
                reply.current_key@.subrange(from, from + block),
            )
            &&& layer_moved_up(
                s.value.words,
                after.state.value.words,
                layer,
                size,
                reply.current_value@.subrange(from, from + block),
            )
        } by {
            layers_move_up(start, layout, keys, values, n, layer as nat);
        }
    }
}

/// Taking over what a callback left in its buffers leaves exactly that in the output
/// buffer, the caches and the projected keys and values.
pub proof fn finished_runs_leave_what_was_written(
    encoder: &LiteRtEncoder,
    cache: &mut EncoderCache,
    out: &mut Tensor,
    current_key: &mut Tensor,
    current_value: &mut Tensor,
    reply: LiteRtEncoderReply,
    r: Result<usize, Error>,
)
    requires
        call_ensures(
            LiteRtEncoder::finish_run,
            (encoder, cache, out, current_key, current_value, reply),
            r,
        ),
    ensures
        final(out)@.words == reply.encoded@,
        final(cache).cache_last_channel@.words == reply.channel@,
        final(cache).cache_last_time@.words == reply.time@,
        final(cache).cache_last_channel_len@ == reply.lengths@,
        reply_taken(
            *encoder,
            encoder_state(*old(out), *old(cache)),
            old(current_key)@,
            old(current_value)@,
            reply,
            encoder_state(*final(out), *final(cache)),
            final(current_key)@,
            final(current_value)@,
            r is Ok,
        ),
        reply.ok && encoder.cache_abi == EncoderCacheAbi::RawChannel ==> r is Ok,
        r matches Ok(frames) ==> reply.ok && frames == (if reply.encoded_lengths@.len() > 0 {
            reply.encoded_lengths@[0] as usize
        } else {
            (reply.encoded@.len() as i64) as usize
        }),
        !reply.ok && reply.message@.len() > 0 ==> r is Err && r->Err_0@ == ErrorView::Model(
            "LiteRT "@ + "encoder"@ + " run failed: "@ + reply.message@,
        ),
        !reply.ok && reply.message@.len() == 0 ==> r is Err && r->Err_0@ == ErrorView::Model(
            "LiteRT "@ + "encoder"@ + " run failed: "@ + "unknown error"@,
        ),
{
    litert_runs_leave_what_was_written(
        *encoder,
        encoder_state(*old(out), *old(cache)),
        old(current_key)@,
        old(current_value)@,
        reply,
    );
}

proof fn lemma_first_scattered(tensors: Seq<(Seq<char>, TensorView)>)
    ensures
        first_scattered(tensors) is None <==> forall|i: int|
            0 <= i < tensors.len() ==> (#[trigger] tensors[i]).1.standard,
        forall|i: int|
            0 <= i < tensors.len() && !(#[trigger] tensors[i]).1.standard && (forall|j: int|
                0 <= j < i ==> (#[trigger] tensors[j]).1.standard) ==> first_scattered(tensors)
                == Some(tensors[i].0 + " is not contiguous"@),
    decreases tensors.len(),
{
    if tensors.len() > 0 && tensors[0].1.standard {
        let rest = tensors.skip(1);
        lemma_first_scattered(rest);
        assert forall|i: int| 0 <= i < rest.len() implies rest[i] == #[trigger] tensors[i + 1] by {}
        if first_scattered(rest) is None {
            assert forall|i: int| 0 <= i < tensors.len() implies (
            #[trigger] tensors[i]).1.standard by {
                if i > 0 {
                    assert(rest[i - 1].1.standard);
                }
            }
        } else {
            let i = choose|i: int| 0 <= i < rest.len() && !(#[trigger] rest[i]).1.standard;
            assert(!tensors[i + 1].1.standard);
        }
        assert forall|i: int|
            0 <= i < tensors.len() && !(#[trigger] tensors[i]).1.standard && (forall|j: int|
                0 <= j < i ==> (#[trigger] tensors[j]).1.standard) implies first_scattered(tensors)
            == Some(tensors[i].0 + " is not contiguous"@) by {
            assert(i > 0);
            assert(rest[i - 1] == tensors[i]);
            assert forall|j: int| 0 <= j < i - 1 implies (#[trigger] rest[j]).1.standard by {
                assert(tensors[j + 1].1.standard);
            }
        }
    }
}

/// A LiteRT encoder with raw caches is run by the one callback and one with projected
/// caches by the other, exactly where that callback is there and all tensors that it works
/// on are laid out contiguously; no other encoder is run.
pub proof fn runs_need_their_callback_and_contiguous_tensors(
    encoder: &LiteRtEncoder,
    features: &Tensor,
    cache: &EncoderCache,
    out: &Tensor,
    current_key: &Tensor,
    current_value: &Tensor,
    has_run: bool,
    has_run_projected: bool,
    r: Result<LiteRtRun, Error>,
)
    requires
        call_ensures(
            LiteRtEncoder::plan_run,
            (
                encoder,
                features,
                cache,
                out,
                current_key,
                current_value,
                has_run,
                has_run_projected,
            ),
            r,
        ),
    ensures
        ({
            let common = features@.standard && cache.cache_last_channel@.standard
                && cache.cache_last_time@.standard && out@.standard;
            let projected = cache.cache_last_key@.standard && cache.cache_last_value@.standard
                && current_key@.standard && current_value@.standard;
            &&& r == Ok::<LiteRtRun, Error>(LiteRtRun::Raw) <==> common && has_run
                && encoder.cache_abi == EncoderCacheAbi::RawChannel
            &&& r == Ok::<LiteRtRun, Error>(LiteRtRun::Projected) <==> common && projected
                && has_run_projected && encoder.cache_abi == EncoderCacheAbi::ProjectedKvLayered
            &&& common ==> match encoder.cache_abi {
                EncoderCacheAbi::RawChannel => !has_run ==> r is Err && r->Err_0@
                    == ErrorView::Config("LiteRT encoder run callback missing"@),
                EncoderCacheAbi::ProjectedKvLayered => !has_run_projected ==> r is Err && r->Err_0@
                    == ErrorView::Config("LiteRT projected encoder run callback missing"@),
                EncoderCacheAbi::ProjectedKvStacked => r is Err && r->Err_0@ == ErrorView::Config(
                    "LiteRT stacked projected-cache ABI is not supported"@,
                ),
            }
        }),
{
    let s = encoder_state(*out, *cache);
    let first = encoder_tensors(features@, s);
    let second = projected_tensors(s, current_key@, current_value@);
    lemma_first_scattered(first);
    lemma_first_scattered(second);
    assert(first[0].1 == features@ && first[1].1 == s.channel && first[2].1 == s.time
        && first[3].1 == s.out);
    assert(second[0].1 == s.key && second[1].1 == s.value && second[2].1 == current_key@
        && second[3].1 == current_value@);
}

/// The LiteRT decoder is run exactly where its callback is there and all six tensors that
/// it works on are laid out contiguously.
pub proof fn decoder_runs_need_their_callback_and_contiguous_tensors(
    has_run: bool,
    frame: &Tensor,
    state_h: &Tensor,
    state_c: &Tensor,
    logits: &Tensor,
    new_h: &Tensor,
    new_c: &Tensor,
    r: Result<(), Error>,
)
    requires
        call_ensures(plan_decoder_run, (has_run, frame, state_h, state_c, logits, new_h, new_c), r),
    ensures
        r is Ok <==> has_run && frame@.standard && state_h@.standard && state_c@.standard
            && logits@.standard && new_h@.standard && new_c@.standard,
        !has_run ==> r->Err_0@ == ErrorView::Config("LiteRT decoder run callback missing"@),
{
    let all = decoder_tensors(frame@, state_h@, state_c@, logits@, new_h@, new_c@);
    lemma_first_scattered(all);
    assert(all[0].1 == frame@ && all[1].1 == state_h@ && all[2].1 == state_c@ && all[3].1
        == logits@ && all[4].1 == new_h@ && all[5].1 == new_c@);
}

/// What a callback left can be taken over where every buffer is laid out contiguously and
/// still has its size, and where what was projected can be rolled in. No stacked cache can.
pub proof fn replies_can_be_taken_where_the_buffers_kept_their_sizes(
    encoder: &LiteRtEncoder,
    cache: &EncoderCache,
    out: &Tensor,
    current_key: &Tensor,
    current_value: &Tensor,
    reply: &LiteRtEncoderReply,
    rolls: bool,
    r: bool,
)
    requires
        call_ensures(
            LiteRtEncoder::can_finish_run,
            (encoder, cache, out, current_key, current_value, reply),
            r,
        ),
        call_ensures(
            can_roll_slices,
            (
                &cache.cache_last_key,
                &cache.cache_last_value,
                encoder.layout,
                current_key,
                reply.current_key,
                current_value,
                reply.current_value,
            ),
            rolls,
        ),
    ensures
        ({
            let same = |t: TensorView, words: Seq<u32>| t.standard && t.words.len() == words.len();
            let layered = encoder.cache_abi is ProjectedKvLayered;
            r <==> {
                &&& !(encoder.cache_abi is ProjectedKvStacked)
                &&& same(out@, reply.encoded@)
                &&& same(cache.cache_last_channel@, reply.channel@)
                &&& same(cache.cache_last_time@, reply.time@)
                &&& cache.cache_last_channel_len@.len() == reply.lengths@.len()
                &&& reply.lengths@.len() == reply.encoded_lengths@.len()
                &&& layered ==> same(current_key@, reply.current_key@)
                &&& layered ==> same(current_value@, reply.current_value@)
                &&& layered && reply.ok ==> rolls
            }
        }),
{
}

/// After a successful run of an encoder with projected caches, what it projected is rolled
/// in, and where that fails so does the run.
pub proof fn projected_runs_roll_what_they_projected(
    encoder: &LiteRtEncoder,
    cache: &mut EncoderCache,
    out: &mut Tensor,
    current_key: &mut Tensor,
    current_value: &mut Tensor,
    reply: LiteRtEncoderReply,
    key: &mut Tensor,
    value: &mut Tensor,
    new_key: &Tensor,
    new_value: &Tensor,
    rolled: Result<(), Error>,
    r: Result<usize, Error>,
)
    requires
        call_ensures(
            LiteRtEncoder::finish_run,
            (encoder, cache, out, current_key, current_value, reply),
            r,
        ),
        encoder.cache_abi is ProjectedKvLayered,
        reply.ok,
        call_ensures(roll_slices, (key, value, encoder.layout, new_key, new_value), rolled),
        old(key)@ == old(cache).cache_last_key@,
        old(value)@ == old(cache).cache_last_value@,
        new_key@ == final(current_key)@,
        new_value@ == final(current_value)@,
    ensures
        final(current_key)@.words == reply.current_key@,
        final(current_value)@.words == reply.current_value@,
        final(cache).cache_last_key@ == final(key)@,
        final(cache).cache_last_value@ == final(value)@,
        r is Ok <==> rolled is Ok,
        rolled is Err ==> r->Err_0@ == rolled->Err_0@,
{
}

/// The first tensor that is not laid out contiguously is named, in the order of the
/// callback's arguments.
pub proof fn the_first_scattered_tensor_is_named(
    encoder: &LiteRtEncoder,
    features: &Tensor,
    cache: &EncoderCache,
    out: &Tensor,
    current_key: &Tensor,
    current_value: &Tensor,
    has_run: bool,
    has_run_projected: bool,
    r: Result<LiteRtRun, Error>,
)
    requires
        call_ensures(
            LiteRtEncoder::plan_run,
            (
                encoder,
                features,
                cache,
                out,
                current_key,
                current_value,
                has_run,
                has_run_projected,
            ),
            r,
        ),
    ensures
        ({
            let f = features@.standard;
            let c = cache.cache_last_channel@.standard;
            let t = cache.cache_last_time@.standard;
            let o = out@.standard;
            let k = cache.cache_last_key@.standard;
            let v = cache.cache_last_value@.standard;
            let ck = current_key@.standard;
            let cv = current_value@.standard;
            let named = |name: Seq<char>|
                r is Err && r->Err_0@ == ErrorView::Model(name + " is not contiguous"@);
            let projected = f && c && t && o && encoder.cache_abi is ProjectedKvLayered
                && has_run_projected;
            &&& !f ==> named("features"@)
            &&& f && !c ==> named("cache_last_channel"@)
            &&& f && c && !t ==> named("cache_last_time"@)
            &&& f && c && t && !o ==> named("encoder_out"@)
            &&& projected && !k ==> named("cache_last_key"@)
            &&& projected && k && !v ==> named("cache_last_value"@)
            &&& projected && k && v && !ck ==> named("projected_current_key"@)
            &&& projected && k && v && ck && !cv ==> named("projected_current_value"@)
        }),
{
    let s = encoder_state(*out, *cache);
    let first = encoder_tensors(features@, s);
    let second = projected_tensors(s, current_key@, current_value@);
    lemma_first_scattered(first);
    lemma_first_scattered(second);
    assert(first[0] == ("features"@, features@) && first[1] == ("cache_last_channel"@, s.channel)
        && first[2] == ("cache_last_time"@, s.time) && first[3] == ("encoder_out"@, s.out));
    assert(second[0] == ("cache_last_key"@, s.key) && second[1] == ("cache_last_value"@, s.value)
        && second[2] == ("projected_current_key"@, current_key@) && second[3] == (
        "projected_current_value"@,
        current_value@,
    ));
}

/// The first tensor of the decoder that is not laid out contiguously is named.
pub proof fn the_first_scattered_decoder_tensor_is_named(
    frame: &Tensor,
    state_h: &Tensor,
    state_c: &Tensor,
    logits: &Tensor,
    new_h: &Tensor,
    new_c: &Tensor,
    r: Result<(), Error>,
)
    requires
        call_ensures(plan_decoder_run, (true, frame, state_h, state_c, logits, new_h, new_c), r),
    ensures
        ({
            let (f, h, c) = (frame@.standard, state_h@.standard, state_c@.standard);
            let (l, nh, nc) = (logits@.standard, new_h@.standard, new_c@.standard);
            let named = |name: Seq<char>|
                r is Err && r->Err_0@ == ErrorView::Model(name + " is not contiguous"@);
            &&& !f ==> named("decoder encoder_frame"@)
            &&& f && !h ==> named("decoder state_h"@)
            &&& f && h && !c ==> named("decoder state_c"@)
            &&& f && h && c && !l ==> named("decoder logits"@)
            &&& f && h && c && l && !nh ==> named("decoder new_h"@)
            &&& f && h && c && l && nh && !nc ==> named("decoder new_c"@)
        }),
{
    let all = decoder_tensors(frame@, state_h@, state_c@, logits@, new_h@, new_c@);
    lemma_first_scattered(all);
    assert(all[0] == ("decoder encoder_frame"@, frame@) && all[1] == ("decoder state_h"@, state_h@)
        && all[2] == ("decoder state_c"@, state_c@) && all[3] == ("decoder logits"@, logits@)
        && all[4] == ("decoder new_h"@, new_h@) && all[5] == ("decoder new_c"@, new_c@));
}

} // verus!
