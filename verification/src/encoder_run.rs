//! What becomes of the outputs of an encoder run: the encoded frames go to the
//! output buffer, and the new context goes to the caches.

use crate::cache::{copied_lengths, layer_moved_up, EncoderCache};
use crate::error::{outcome, Error, ErrorView};
use crate::layout::{EncoderCacheAbi, EncoderLayout};
use crate::outlets::EncoderIo;
use crate::projected::{
    extracted, foresee_outputs, layers_move_up, outputs_accepted, roll_outputs, rolled_outputs,
    rolling_keeps_the_caches_shape, Projected, TensorOutput,
};
use crate::tensor::{Tensor, TensorView};
use crate::text::{i64_values, list_text, show_i64s, show_usizes, usize_values};
use vstd::prelude::*;

verus! {

/// Lengths that a run gave, with their shape.
#[derive(Debug)]
pub struct LengthOutput {
    pub shape: Vec<i64>,
    pub data: Vec<i64>,
}

/// The outputs of an encoder run, each with the reason where it could not be taken
/// out. Those that the encoder does not have are absent.
#[derive(Debug)]
pub struct EncoderOutputs {
    /// `outputs`
    pub encoded: Result<TensorOutput, String>,
    /// `new_cache_last_time`
    pub time: Result<TensorOutput, String>,
    /// `new_cache_last_channel_len`
    pub lengths: Result<LengthOutput, String>,
    /// `new_cache_last_channel`
    pub channel: Option<Result<TensorOutput, String>>,
    /// `new_cache_last_key`
    pub key: Option<Result<TensorOutput, String>>,
    /// `new_cache_last_value`
    pub value: Option<Result<TensorOutput, String>>,
    /// `projected_current_key_layer_*`, in the order of the layers
    pub layer_keys: Vec<Result<TensorOutput, String>>,
    /// `projected_current_value_layer_*`, in the order of the layers
    pub layer_values: Vec<Result<TensorOutput, String>>,
}

/// What an encoder run works on: its output buffer and the caches.
#[verifier::ext_equal]
pub struct EncoderState {
    pub out: TensorView,
    pub channel: TensorView,
    pub key: TensorView,
    pub value: TensorView,
    pub time: TensorView,
    pub lengths: Seq<i64>,
}

/// The output buffer and the caches as they stand.
pub open spec fn encoder_state(out: Tensor, cache: EncoderCache) -> EncoderState {
    EncoderState {
        out: out@,
        channel: cache.cache_last_channel@,
        key: cache.cache_last_key@,
        value: cache.cache_last_value@,
        time: cache.cache_last_time@,
        lengths: cache.cache_last_channel_len@,
    }
}

impl EncoderState {
    /// Every tensor has the shape that the layout gives it.
    pub open spec fn fits(self, layout: EncoderLayout) -> bool {
        &&& self.out.is_dense(layout.output_shape())
        &&& self.channel.is_dense(layout.cache_shape())
        &&& self.key.is_dense(layout.cache_shape())
        &&& self.value.is_dense(layout.cache_shape())
        &&& self.time.is_dense(layout.time_shape())
        &&& self.lengths.len() == layout.batch
    }

    /// The other state has the same caches.
    pub open spec fn same_caches(self, other: EncoderState) -> bool {
        &&& self.channel == other.channel
        &&& self.key == other.key
        &&& self.value == other.value
        &&& self.time == other.time
        &&& self.lengths == other.lengths
    }
}

/// The axes of `t` are the first `rank` of `shape`.
pub open spec fn axes_match(t: TensorView, shape: Seq<i64>, rank: nat) -> bool {
    t.shape == Seq::new(rank, |i: int| shape[i] as usize)
}

/// An output has at least `rank` axes, and where it is to be copied to `t` it has as
/// many words.
pub open spec fn comparable(t: TensorView, output: TensorOutput, rank: nat) -> bool {
    &&& output.shape@.len() >= rank
    &&& axes_match(t, output.shape@, rank) && t.standard ==> output.data@.len() == t.words.len()
}

/// The failure to take an output out of a run.
pub open spec fn extraction_failure<T>(what: Seq<char>, output: Result<T, String>) -> Option<
    ErrorView,
> {
    match output {
        Ok(_) => None,
        Err(e) => Some(ErrorView::Model("Failed to extract "@ + what + ": "@ + e@)),
    }
}

/// The message about an output whose axes are not those of its target.
pub open spec fn shape_message(name: Seq<char>, shape: Seq<i64>) -> Seq<char> {
    "Unexpected "@ + name + " shape: "@ + list_text(i64_values(shape))
}

/// The failure of an output to have the axes of the cache that it replaces.
pub open spec fn shape_failure(
    name: Seq<char>,
    t: TensorView,
    output: Result<TensorOutput, String>,
) -> Option<ErrorView> {
    if axes_match(t, output->Ok_0.shape@, 4) {
        None
    } else {
        Some(ErrorView::Model(shape_message(name, output->Ok_0.shape@)))
    }
}

/// The failure of a tensor to be laid out so that it can be overwritten.
pub open spec fn layout_failure(name: Seq<char>, t: TensorView) -> Option<ErrorView> {
    if t.standard {
        None
    } else {
        Some(ErrorView::Model(name + " is not contiguous"@))
    }
}

/// The first of two failures.
pub open spec fn first_of(a: Option<ErrorView>, b: Option<ErrorView>) -> Option<ErrorView> {
    if a is Some {
        a
    } else {
        b
    }
}

fn is_shaped_like(t: &Tensor, shape: &[i64], rank: usize) -> (r: bool)
    requires
        shape@.len() >= rank,
    ensures
        r == axes_match(t@, shape@, rank as nat),
{
    let axes = t.axes();
    if axes.len() != rank {
        return false;
    }
    let mut i: usize = 0;
    while i < rank
        invariant
            axes@ == t@.shape,
            axes@.len() == rank,
            shape@.len() >= rank,
            i <= rank,
            forall|j: int| 0 <= j < i ==> axes@[j] == shape@[j] as usize,
        decreases rank - i,
    {
        if axes[i] != shape[i] as usize {
            assert(t@.shape[i as int] != Seq::new(rank as nat, |j: int| shape@[j] as usize)[i as int]);
            return false;
        }
        i += 1;
    }
    assert(axes@ =~= Seq::new(rank as nat, |j: int| shape@[j] as usize));
    true
}

/// An output of a run, where it could be taken out.
pub fn taken<'a, T>(what: &str, output: &'a Result<T, String>) -> (r: Result<&'a T, Error>)
    ensures
        match extraction_failure(what@, *output) {
            None => r is Ok && output is Ok && *r->Ok_0 == output->Ok_0,
            Some(e) => r is Err && r->Err_0@ == e,
        },
{
    match output {
        Ok(value) => Ok(value),
        Err(e) => {
            let mut m = "Failed to extract ".to_owned();
            m.append(what);
            m.append(": ");
            m.append(e.as_str());
            Err(Error::Model(m))
        },
    }
}

fn unexpected_shape(name: &str, shape: &[i64]) -> (r: Error)
    ensures
        r@ == ErrorView::Model(shape_message(name@, shape@)),
{
    let mut m = "Unexpected ".to_owned();
    m.append(name);
    m.append(" shape: ");
    m.append(show_i64s(shape).as_str());
    Error::Model(m)
}

/// Overwrites a tensor with `data`.
pub fn overwrite(t: &mut Tensor, name: &str, data: &[u32]) -> (r: Result<(), Error>)
    requires
        old(t)@.standard ==> old(t)@.words.len() == data@.len(),
    ensures
        match layout_failure(name@, old(t)@) {
            None => r is Ok && final(t)@ == old(t)@.with_words(data@),
            Some(e) => r is Err && r->Err_0@ == e && final(t)@ == old(t)@,
        },
{
    if t.store(data) {
        Ok(())
    } else {
        let mut m = name.to_owned();
        m.append(" is not contiguous");
        Err(Error::Model(m))
    }
}

/// Copying an output to `t` is defined: it has at least `rank` axes to compare, and where
/// it is copied it has as many words.
pub open spec fn output_matches(
    t: TensorView,
    output: Result<TensorOutput, String>,
    rank: nat,
) -> bool {
    output matches Ok(o) ==> comparable(t, o, rank)
}

/// The failure of the encoded frames to go to the output buffer.
pub open spec fn encoded_failure(
    out: TensorView,
    encoded: Result<TensorOutput, String>,
) -> Option<ErrorView> {
    match extraction_failure("encoder output"@, encoded) {
        Some(e) => Some(e),
        None => if !axes_match(out, encoded->Ok_0.shape@, 3) {
            Some(
                ErrorView::Model(
                    "Unexpected encoder output shape: "@ + list_text(
                        i64_values(encoded->Ok_0.shape@),
                    ) + ", reusable buffer shape: "@ + list_text(usize_values(out.shape)),
                ),
            )
        } else {
            layout_failure("encoder_out"@, out)
        },
    }
}

/// Puts the encoded frames into the output buffer, and gives their number.
fn store_encoded(out: &mut Tensor, encoded: &Result<TensorOutput, String>) -> (r: Result<
    usize,
    Error,
>)
    requires
        output_matches(old(out)@, *encoded, 3),
    ensures
        match encoded_failure(old(out)@, *encoded) {
            None => {
                &&& r == Ok::<usize, Error>(encoded->Ok_0.shape@[2] as usize)
                &&& final(out)@ == old(out)@.with_words(encoded->Ok_0.data@)
            },
            Some(e) => r is Err && r->Err_0@ == e && final(out)@ == old(out)@,
        },
{
    let output = match taken("encoder output", encoded) {
        Ok(output) => output,
        Err(e) => {
            return Err(e);
        },
    };
    if !is_shaped_like(out, output.shape.as_slice(), 3) {
        let mut m = "Unexpected encoder output shape: ".to_owned();
        m.append(show_i64s(output.shape.as_slice()).as_str());
        m.append(", reusable buffer shape: ");
        m.append(show_usizes(out.axes()).as_str());
        return Err(Error::Model(m));
    }
    match overwrite(out, "encoder_out", output.data.as_slice()) {
        Ok(_) => Ok(output.shape[2] as usize),
        Err(e) => Err(e),
    }
}

/// The failure of the new time cache and the new cache lengths to be usable.
pub open spec fn carried_failure(
    time: TensorView,
    lengths: Seq<i64>,
    new_time: Result<TensorOutput, String>,
    new_lengths: Result<LengthOutput, String>,
) -> Option<ErrorView> {
    let taken = first_of(
        extraction_failure("cache_last_time"@, new_time),
        extraction_failure("cache_len"@, new_lengths),
    );
    if taken is Some {
        taken
    } else {
        first_of(
            shape_failure("cache_last_time"@, time, new_time),
            if lengths.len() == new_lengths->Ok_0.shape@[0] as usize {
                None
            } else {
                Some(
                    ErrorView::Model(
                        shape_message("cache_last_channel_len"@, new_lengths->Ok_0.shape@),
                    ),
                )
            },
        )
    }
}

/// The new time cache and the new cache lengths have the axes that are compared, as far
/// as the comparison goes.
pub open spec fn carried_matches(
    time: TensorView,
    new_time: Result<TensorOutput, String>,
    new_lengths: Result<LengthOutput, String>,
) -> bool {
    new_time is Ok && new_lengths is Ok ==> {
        &&& new_time->Ok_0.shape@.len() >= 4
        &&& axes_match(time, new_time->Ok_0.shape@, 4) ==> new_lengths->Ok_0.shape@.len() >= 1
    }
}

fn check_carried(
    cache: &EncoderCache,
    new_time: &Result<TensorOutput, String>,
    new_lengths: &Result<LengthOutput, String>,
) -> (r: Result<(), Error>)
    requires
        carried_matches(cache.cache_last_time@, *new_time, *new_lengths),
    ensures
        match carried_failure(
            cache.cache_last_time@,
            cache.cache_last_channel_len@,
            *new_time,
            *new_lengths,
        ) {
            None => r is Ok && new_time is Ok && new_lengths is Ok,
            Some(e) => r is Err && r->Err_0@ == e,
        },
{
    let time = match taken("cache_last_time", new_time) {
        Ok(time) => time,
        Err(e) => {
            return Err(e);
        },
    };
    let lengths = match taken("cache_len", new_lengths) {
        Ok(lengths) => lengths,
        Err(e) => {
            return Err(e);
        },
    };
    if !is_shaped_like(&cache.cache_last_time, time.shape.as_slice(), 4) {
        return Err(unexpected_shape("cache_last_time", time.shape.as_slice()));
    }
    if cache.cache_last_channel_len.len() != lengths.shape[0] as usize {
        return Err(unexpected_shape("cache_last_channel_len", lengths.shape.as_slice()));
    }
    Ok(())
}

/// The raw channel cache after a run, and what went wrong.
pub open spec fn after_channel(
    io: EncoderIo,
    channel: TensorView,
    output: Option<Result<TensorOutput, String>>,
) -> (TensorView, Option<ErrorView>) {
    if !io.outputs_raw_channel_cache {
        (channel, None)
    } else {
        let failure = match extraction_failure("cache_last_channel"@, output->0) {
            Some(e) => Some(e),
            None => first_of(
                shape_failure("cache_last_channel"@, channel, output->0),
                layout_failure("cache_last_channel"@, channel),
            ),
        };
        if failure is Some {
            (channel, failure)
        } else {
            (channel.with_words(output->0->Ok_0.data@), None)
        }
    }
}

/// The raw channel cache is among the outputs where the encoder has it, and copying it is
/// defined.
pub open spec fn channel_matches(
    io: EncoderIo,
    channel: TensorView,
    output: Option<Result<TensorOutput, String>>,
) -> bool {
    io.outputs_raw_channel_cache ==> output is Some && output_matches(channel, output->0, 4)
}

fn store_channel(
    io: EncoderIo,
    channel: &mut Tensor,
    output: &Option<Result<TensorOutput, String>>,
) -> (r: Result<(), Error>)
    requires
        channel_matches(io, old(channel)@, *output),
    ensures
        ({
            let (after, failure) = after_channel(io, old(channel)@, *output);
            &&& final(channel)@ == after
            &&& match failure {
                None => r is Ok,
                Some(e) => r is Err && r->Err_0@ == e,
            }
        }),
{
    if !io.outputs_raw_channel_cache {
        return Ok(());
    }
    match output {
        None => Ok(()),
        Some(output) => {
            let output = match taken("cache_last_channel", output) {
                Ok(output) => output,
                Err(e) => {
                    return Err(e);
                },
            };
            if !is_shaped_like(channel, output.shape.as_slice(), 4) {
                return Err(unexpected_shape("cache_last_channel", output.shape.as_slice()));
            }
            overwrite(channel, "cache_last_channel", output.data.as_slice())
        },
    }
}

/// The stacked key and value caches after a run, and what went wrong. Both outputs
/// are checked before either cache is touched.
pub open spec fn after_stacked(
    key: TensorView,
    value: TensorView,
    new_key: Result<TensorOutput, String>,
    new_value: Result<TensorOutput, String>,
) -> Projected {
    let taken = first_of(
        extraction_failure("cache_last_key"@, new_key),
        extraction_failure("cache_last_value"@, new_value),
    );
    let checked = if taken is Some {
        taken
    } else {
        first_of(
            shape_failure("cache_last_key"@, key, new_key),
            shape_failure("cache_last_value"@, value, new_value),
        )
    };
    if checked is Some {
        Projected { key, value, failure: checked }
    } else if !key.standard {
        Projected { key, value, failure: layout_failure("cache_last_key"@, key) }
    } else {
        let stored = key.with_words(new_key->Ok_0.data@);
        if !value.standard {
            Projected { key: stored, value, failure: layout_failure("cache_last_value"@, value) }
        } else {
            Projected {
                key: stored,
                value: value.with_words(new_value->Ok_0.data@),
                failure: None,
            }
        }
    }
}

/// The stacked key and value caches are among the outputs, and comparing and copying them
/// is defined, as far as it goes.
pub open spec fn stacked_matches(
    key: TensorView,
    value: TensorView,
    new_key: Option<Result<TensorOutput, String>>,
    new_value: Option<Result<TensorOutput, String>>,
) -> bool {
    &&& new_key is Some
    &&& new_key->0 is Ok ==> new_value is Some
    &&& new_key->0 is Ok && new_value->0 is Ok ==> {
        let (k, v) = (new_key->0->Ok_0, new_value->0->Ok_0);
        &&& k.shape@.len() >= 4
        &&& axes_match(key, k.shape@, 4) ==> {
            &&& v.shape@.len() >= 4
            &&& axes_match(value, v.shape@, 4) && key.standard ==> {
                &&& k.data@.len() == key.words.len()
                &&& value.standard ==> v.data@.len() == value.words.len()
            }
        }
    }
}

fn store_stacked(
    key: &mut Tensor,
    value: &mut Tensor,
    new_key: &Option<Result<TensorOutput, String>>,
    new_value: &Option<Result<TensorOutput, String>>,
) -> (r: Result<(), Error>)
    requires
        stacked_matches(old(key)@, old(value)@, *new_key, *new_value),
    ensures
        ({
            let after = after_stacked(old(key)@, old(value)@, new_key->0, new_value->0);
            &&& final(key)@ == after.key
            &&& final(value)@ == after.value
            &&& match after.failure {
                None => r is Ok,
                Some(e) => r is Err && r->Err_0@ == e,
            }
        }),
{
    let k = match new_key {
        None => {
            return Ok(());
        },
        Some(output) => match taken("cache_last_key", output) {
            Ok(output) => output,
            Err(e) => {
                return Err(e);
            },
        },
    };
    let v = match new_value {
        None => {
            return Ok(());
        },
        Some(output) => match taken("cache_last_value", output) {
            Ok(output) => output,
            Err(e) => {
                return Err(e);
            },
        },
    };
    if !is_shaped_like(key, k.shape.as_slice(), 4) {
        return Err(unexpected_shape("cache_last_key", k.shape.as_slice()));
    }
    if !is_shaped_like(value, v.shape.as_slice(), 4) {
        return Err(unexpected_shape("cache_last_value", v.shape.as_slice()));
    }
    if let Err(e) = overwrite(key, "cache_last_key", k.data.as_slice()) {
        return Err(e);
    }
    overwrite(value, "cache_last_value", v.data.as_slice())
}

/// Whether the stacked caches are replaced, unless comparing or copying them is not
/// defined.
fn foresee_stacked(
    key: &Tensor,
    value: &Tensor,
    new_key: &Option<Result<TensorOutput, String>>,
    new_value: &Option<Result<TensorOutput, String>>,
) -> (r: Option<bool>)
    ensures
        r is Some <==> stacked_matches(key@, value@, *new_key, *new_value),
        r matches Some(replaced) ==> replaced == (after_stacked(
            key@,
            value@,
            new_key->0,
            new_value->0,
        ).failure is None),
{
    let k = match new_key {
        None => {
            return None;
        },
        Some(Err(_)) => {
            return Some(false);
        },
        Some(Ok(k)) => k,
    };
    let v = match new_value {
        None => {
            return None;
        },
        Some(Err(_)) => {
            return Some(false);
        },
        Some(Ok(v)) => v,
    };
    if k.shape.len() < 4 {
        return None;
    }
    if !is_shaped_like(key, k.shape.as_slice(), 4) {
        return Some(false);
    }
    if v.shape.len() < 4 {
        return None;
    }
    if !is_shaped_like(value, v.shape.as_slice(), 4) {
        return Some(false);
    }
    match (key.words(), value.words()) {
        (None, _) => Some(false),
        (Some(old_key), None) => if old_key.len() == k.data.len() {
            Some(false)
        } else {
            None
        },
        (Some(old_key), Some(old_value)) => if old_key.len() == k.data.len() && old_value.len()
            == v.data.len() {
            Some(true)
        } else {
            None
        },
    }
}

/// The key and value caches after a run, and what went wrong.
pub open spec fn after_attention(
    io: EncoderIo,
    key: TensorView,
    value: TensorView,
    outputs: EncoderOutputs,
) -> Projected {
    match io.cache_abi {
        EncoderCacheAbi::RawChannel => Projected { key, value, failure: None },
        EncoderCacheAbi::ProjectedKvStacked => after_stacked(
            key,
            value,
            outputs.key->0,
            outputs.value->0,
        ),
        EncoderCacheAbi::ProjectedKvLayered => rolled_outputs(
            key,
            value,
            io.layout,
            outputs.layer_keys@,
            outputs.layer_values@,
            io.layout.num_layers as nat,
        ),
    }
}

/// Taking the key and value caches over is defined, as far as it goes.
pub open spec fn attention_matches(
    io: EncoderIo,
    key: TensorView,
    value: TensorView,
    outputs: EncoderOutputs,
) -> bool {
    match io.cache_abi {
        EncoderCacheAbi::RawChannel => true,
        EncoderCacheAbi::ProjectedKvStacked => stacked_matches(
            key,
            value,
            outputs.key,
            outputs.value,
        ),
        EncoderCacheAbi::ProjectedKvLayered => outputs_accepted(
            key,
            value,
            io.layout,
            outputs.layer_keys@,
            outputs.layer_values@,
        ),
    }
}

/// Taking the outputs over is defined, as far as it goes: whatever is reached is among the
/// outputs, has the axes that are compared, and where it is copied it has as many words as
/// its target. Nothing is asked of the outputs behind one that is refused.
pub open spec fn outputs_match(io: EncoderIo, s: EncoderState, outputs: EncoderOutputs) -> bool {
    &&& output_matches(s.out, outputs.encoded, 3)
    &&& encoded_failure(s.out, outputs.encoded) is None ==> {
        &&& carried_matches(s.time, outputs.time, outputs.lengths)
        &&& carried_failure(s.time, s.lengths, outputs.time, outputs.lengths) is None ==> {
            &&& channel_matches(io, s.channel, outputs.channel)
            &&& after_channel(io, s.channel, outputs.channel).1 is None ==> {
                &&& attention_matches(io, s.key, s.value, outputs)
                &&& after_attention(io, s.key, s.value, outputs).failure is None
                    && s.time.standard ==> {
                    &&& outputs.time->Ok_0.data@.len() == s.time.words.len()
                    &&& outputs.lengths->Ok_0.data@.len() == s.lengths.len()
                }
            }
        }
    }
}

/// Whether an output is copied to `t`, unless comparing or copying it is not defined.
fn foresee_copy(t: &Tensor, output: &Result<TensorOutput, String>, rank: usize) -> (r: Option<bool>)
    ensures
        r is Some <==> output_matches(t@, *output, rank as nat),
        r matches Some(copied) ==> copied == (output is Ok && axes_match(
            t@,
            output->Ok_0.shape@,
            rank as nat,
        ) && t@.standard),
{
    match output {
        Err(_) => Some(false),
        Ok(o) => {
            if o.shape.len() < rank {
                return None;
            }
            if !is_shaped_like(t, o.shape.as_slice(), rank) {
                return Some(false);
            }
            match t.words() {
                None => Some(false),
                Some(words) => if words.len() == o.data.len() {
                    Some(true)
                } else {
                    None
                },
            }
        },
    }
}

fn foresee_attention(io: EncoderIo, cache: &EncoderCache, outputs: &EncoderOutputs) -> (r: Option<
    bool,
>)
    ensures
        r is Some <==> attention_matches(
            io,
            cache.cache_last_key@,
            cache.cache_last_value@,
            *outputs,
        ),
        r matches Some(taken) ==> taken == (after_attention(
            io,
            cache.cache_last_key@,
            cache.cache_last_value@,
            *outputs,
        ).failure is None),
{
    match io.cache_abi {
        EncoderCacheAbi::RawChannel => Some(true),
        EncoderCacheAbi::ProjectedKvStacked => foresee_stacked(
            &cache.cache_last_key,
            &cache.cache_last_value,
            &outputs.key,
            &outputs.value,
        ),
        EncoderCacheAbi::ProjectedKvLayered => foresee_outputs(
            &cache.cache_last_key,
            &cache.cache_last_value,
            io.layout,
            &outputs.layer_keys,
            &outputs.layer_values,
        ),
    }
}

/// Whether taking the outputs over is defined, as far as it goes.
pub fn outputs_can_be_taken(
    io: EncoderIo,
    cache: &EncoderCache,
    out: &Tensor,
    outputs: &EncoderOutputs,
) -> (r: bool)
    ensures
        r == outputs_match(io, encoder_state(*out, *cache), *outputs),
{
    match foresee_copy(out, &outputs.encoded, 3) {
        None => {
            return false;
        },
        Some(false) => {
            return true;
        },
        Some(true) => {},
    }
    let (time, lengths) = match (&outputs.time, &outputs.lengths) {
        (Ok(time), Ok(lengths)) => (time, lengths),
        _ => {
            return true;
        },
    };
    if time.shape.len() < 4 {
        return false;
    }
    if !is_shaped_like(&cache.cache_last_time, time.shape.as_slice(), 4) {
        return true;
    }
    if lengths.shape.len() < 1 {
        return false;
    }
    if cache.cache_last_channel_len.len() != lengths.shape[0] as usize {
        return true;
    }
    if io.outputs_raw_channel_cache {
        let foreseen = match &outputs.channel {
            None => None,
            Some(channel) => foresee_copy(&cache.cache_last_channel, channel, 4),
        };
        match foreseen {
            None => {
                return false;
            },
            Some(false) => {
                return true;
            },
            Some(true) => {},
        }
    }
    match foresee_attention(io, cache, outputs) {
        None => {
            return false;
        },
        Some(false) => {
            return true;
        },
        Some(true) => {},
    }
    match cache.cache_last_time.words() {
        None => true,
        Some(words) => time.data.len() == words.len() && lengths.data.len()
            == cache.cache_last_channel_len.len(),
    }
}

/// What an encoder run leaves behind, and the number of frames that it encoded. The
/// encoded frames are stored first; then come the raw channel cache, the key and
/// value caches, and last the time cache and the cache lengths, once those two have
/// been checked. A failure ends it there.
pub open spec fn after_encoder_run(
    io: EncoderIo,
    s: EncoderState,
    outputs: EncoderOutputs,
) -> (EncoderState, Result<usize, ErrorView>) {
    match encoded_failure(s.out, outputs.encoded) {
        Some(e) => (s, Err(e)),
        None => {
            let encoded = EncoderState {
                out: s.out.with_words(outputs.encoded->Ok_0.data@),
                ..s
            };
            match carried_failure(s.time, s.lengths, outputs.time, outputs.lengths) {
                Some(e) => (encoded, Err(e)),
                None => {
                    let (channel, failure) = after_channel(io, s.channel, outputs.channel);
                    let raw = EncoderState { channel, ..encoded };
                    if failure is Some {
                        (raw, Err(failure->0))
                    } else {
                        let attention = after_attention(io, s.key, s.value, outputs);
                        let attended = EncoderState {
                            key: attention.key,
                            value: attention.value,
                            ..raw
                        };
                        if attention.failure is Some {
                            (attended, Err(attention.failure->0))
                        } else if !s.time.standard {
                            (attended, Err(layout_failure("cache_last_time"@, s.time)->0))
                        } else {
                            (
                                EncoderState {
                                    time: s.time.with_words(outputs.time->Ok_0.data@),
                                    lengths: outputs.lengths->Ok_0.data@,
                                    ..attended
                                },
                                Ok(outputs.encoded->Ok_0.shape@[2] as usize),
                            )
                        }
                    }
                },
            }
        },
    }
}

fn store_attention(
    io: EncoderIo,
    key: &mut Tensor,
    value: &mut Tensor,
    outputs: &EncoderOutputs,
) -> (r: Result<(), Error>)
    requires
        attention_matches(io, old(key)@, old(value)@, *outputs),
    ensures
        ({
            let after = after_attention(io, old(key)@, old(value)@, *outputs);
            &&& final(key)@ == after.key
            &&& final(value)@ == after.value
            &&& match after.failure {
                None => r is Ok,
                Some(e) => r is Err && r->Err_0@ == e,
            }
        }),
{
    match io.cache_abi {
        EncoderCacheAbi::RawChannel => Ok(()),
        EncoderCacheAbi::ProjectedKvStacked => store_stacked(
            key,
            value,
            &outputs.key,
            &outputs.value,
        ),
        EncoderCacheAbi::ProjectedKvLayered => roll_outputs(
            key,
            value,
            io.layout,
            &outputs.layer_keys,
            &outputs.layer_values,
        ),
    }
}

/// Takes the outputs of an encoder run into the output buffer and the caches, and
/// gives the number of encoded frames.
pub fn finish_encoder_run(
    io: EncoderIo,
    cache: &mut EncoderCache,
    out: &mut Tensor,
    outputs: &EncoderOutputs,
) -> (r: Result<usize, Error>)
    requires
        outputs_match(io, encoder_state(*old(out), *old(cache)), *outputs),
    ensures
        ({
            let (after, result) = after_encoder_run(
                io,
                encoder_state(*old(out), *old(cache)),
                *outputs,
            );
            &&& encoder_state(*final(out), *final(cache)) == after
            &&& outcome(r) == result
        }),
{
    let frames = match store_encoded(out, &outputs.encoded) {
        Ok(frames) => frames,
        Err(e) => {
            return Err(e);
        },
    };
    if let Err(e) = check_carried(cache, &outputs.time, &outputs.lengths) {
        return Err(e);
    }
    if let Err(e) = store_channel(io, &mut cache.cache_last_channel, &outputs.channel) {
        return Err(e);
    }
    if let Err(e) = store_attention(
        io,
        &mut cache.cache_last_key,
        &mut cache.cache_last_value,
        outputs,
    ) {
        return Err(e);
    }
    if let Ok(time) = &outputs.time {
        if let Err(e) = overwrite(
            &mut cache.cache_last_time,
            "cache_last_time",
            time.data.as_slice(),
        ) {
            return Err(e);
        }
    }
    if let Ok(lengths) = &outputs.lengths {
        cache.cache_last_channel_len = copied_lengths(lengths.data.as_slice());
    }
    Ok(frames)
}

/// Outputs that are refused for their encoded frames, their time cache or their
/// cache lengths leave every cache as it was.
pub proof fn refused_outputs_leave_the_caches(
    io: EncoderIo,
    s: EncoderState,
    outputs: EncoderOutputs,
)
    requires
        encoded_failure(s.out, outputs.encoded) is Some || carried_failure(
            s.time,
            s.lengths,
            outputs.time,
            outputs.lengths,
        ) is Some,
    ensures
        after_encoder_run(io, s, outputs).1 is Err,
        after_encoder_run(io, s, outputs).0.same_caches(s),
{
}

/// Buffers and caches that fit a layout still fit it after a run, whether the run's
/// outputs were taken or refused.
pub proof fn runs_keep_the_layout(
    io: EncoderIo,
    layout: EncoderLayout,
    s: EncoderState,
    outputs: EncoderOutputs,
)
    requires
        s.fits(layout),
        outputs_match(io, s, outputs),
    ensures
        after_encoder_run(io, s, outputs).0.fits(layout),
{
    rolling_keeps_the_caches_shape(
        Projected { key: s.key, value: s.value, failure: None },
        io.layout,
        extracted("key"@, outputs.layer_keys@),
        extracted("value"@, outputs.layer_values@),
        io.layout.num_layers as nat,
    );
}

/// A run of an encoder with a raw channel cache that takes no projected ones leaves
/// the key and value caches as they were, and its outputs are the new context.
pub proof fn raw_runs_replace_the_context(
    io: EncoderIo,
    s: EncoderState,
    outputs: EncoderOutputs,
)
    requires
        io.cache_abi == EncoderCacheAbi::RawChannel,
        io.outputs_raw_channel_cache,
        after_encoder_run(io, s, outputs).1 is Ok,
    ensures
        ({
            let after = after_encoder_run(io, s, outputs).0;
            &&& after.key == s.key
            &&& after.value == s.value
            &&& after.out.words == outputs.encoded->Ok_0.data@
            &&& after.channel.words == outputs.channel->0->Ok_0.data@
            &&& after.time.words == outputs.time->Ok_0.data@
            &&& after.lengths == outputs.lengths->Ok_0.data@
        }),
{
}

/// A run whose outputs are taken has encoded as many frames as the output buffer holds.
pub proof fn runs_encode_every_output_frame(
    io: EncoderIo,
    layout: EncoderLayout,
    s: EncoderState,
    outputs: EncoderOutputs,
)
    requires
        s.fits(layout),
        after_encoder_run(io, s, outputs).1 is Ok,
    ensures
        after_encoder_run(io, s, outputs).1 == Ok::<usize, ErrorView>(layout.output_frames),
{
    let shape = outputs.encoded->Ok_0.shape@;
    assert(layout.output_shape()[2] == Seq::new(3, |i: int| shape[i] as usize)[2]);
}

/// The state that a run works on is the output buffer and the five caches, each under its
/// own name.
pub proof fn encoder_states_show_the_caches(out: Tensor, cache: EncoderCache)
    ensures
        encoder_state(out, cache).out == out@,
        encoder_state(out, cache).channel == cache.cache_last_channel@,
        encoder_state(out, cache).key == cache.cache_last_key@,
        encoder_state(out, cache).value == cache.cache_last_value@,
        encoder_state(out, cache).time == cache.cache_last_time@,
        encoder_state(out, cache).lengths == cache.cache_last_channel_len@,
{
}

/// Every output that the encoder gives is there, had or not.
pub open spec fn has_outputs(io: EncoderIo, outputs: EncoderOutputs) -> bool {
    &&& io.outputs_raw_channel_cache ==> outputs.channel is Some
    &&& io.cache_abi == EncoderCacheAbi::ProjectedKvStacked ==> outputs.key is Some
        && outputs.value is Some
    &&& io.cache_abi == EncoderCacheAbi::ProjectedKvLayered ==> outputs.layer_keys@.len()
        == io.layout.num_layers && outputs.layer_values@.len() == io.layout.num_layers
}

/// The buffer and the caches hold what the outputs of a run hold: the encoded frames, the
/// new time cache and lengths, the new channel cache where the encoder gives one, and the
/// new keys and values, whole or layer by layer. Nothing else has changed.
pub open spec fn outputs_taken(
    io: EncoderIo,
    before: EncoderState,
    after: EncoderState,
    outputs: EncoderOutputs,
) -> bool {
    let size = io.layout.batch * io.layout.cache_len * io.layout.hidden_size;
    &&& outputs.encoded matches Ok(o) && after.out.words == o.data@
    &&& outputs.time matches Ok(o) && after.time.words == o.data@
    &&& outputs.lengths matches Ok(o) && after.lengths == o.data@
    &&& if io.outputs_raw_channel_cache {
        outputs.channel matches Some(Ok(o)) && after.channel.words == o.data@
    } else {
        after.channel == before.channel
    }
    &&& match io.cache_abi {
        EncoderCacheAbi::RawChannel => after.key == before.key && after.value == before.value,
        EncoderCacheAbi::ProjectedKvStacked => {
            &&& outputs.key matches Some(Ok(o)) && after.key.words == o.data@
            &&& outputs.value matches Some(Ok(o)) && after.value.words == o.data@
        },
        EncoderCacheAbi::ProjectedKvLayered => forall|layer: int|
            #![trigger outputs.layer_keys@[layer]]
            #![trigger outputs.layer_values@[layer]]
            0 <= layer < io.layout.num_layers ==> {
                &&& outputs.layer_keys@[layer] matches Ok(o) && layer_moved_up(
                    before.key.words,
                    after.key.words,
                    layer,
                    size,
                    o.data@,
                )
                &&& outputs.layer_values@[layer] matches Ok(o) && layer_moved_up(
                    before.value.words,
                    after.value.words,
                    layer,
                    size,
                    o.data@,
                )
            },
    }
    &&& after.out.shape == before.out.shape
    &&& after.channel.shape == before.channel.shape
    &&& after.key.shape == before.key.shape
    &&& after.value.shape == before.value.shape
    &&& after.time.shape == before.time.shape
}

/// A run that succeeds leaves exactly its outputs behind, and gives the third axis of the
/// encoded frames.
pub proof fn successful_runs_leave_their_outputs(
    io: EncoderIo,
    s: EncoderState,
    outputs: EncoderOutputs,
)
    requires
        after_encoder_run(io, s, outputs).1 is Ok,
        has_outputs(io, outputs),
    ensures
        outputs_taken(io, s, after_encoder_run(io, s, outputs).0, outputs),
        after_encoder_run(io, s, outputs).1->Ok_0 == outputs.encoded->Ok_0.shape@[2] as usize,
{
    let after = after_encoder_run(io, s, outputs).0;
    if io.cache_abi == EncoderCacheAbi::ProjectedKvLayered {
        let start = Projected { key: s.key, value: s.value, failure: None };
        let keys = extracted("key"@, outputs.layer_keys@);
        let values = extracted("value"@, outputs.layer_values@);
        let n = io.layout.num_layers as nat;
        rolling_keeps_the_caches_shape(start, io.layout, keys, values, n);
        assert forall|layer: int|
            #![trigger outputs.layer_keys@[layer]]
            #![trigger outputs.layer_values@[layer]]
            0 <= layer < io.layout.num_layers implies {
            let size = io.layout.batch * io.layout.cache_len * io.layout.hidden_size;
            &&& outputs.layer_keys@[layer] matches Ok(o) && layer_moved_up(
                s.key.words,
                after.key.words,
                layer,
                size,
                o.data@,
            )
            &&& outputs.layer_values@[layer] matches Ok(o) && layer_moved_up(
                s.value.words,
                after.value.words,
                layer,
                size,
                o.data@,
            )
        } by {
            layers_move_up(start, io.layout, keys, values, n, layer as nat);
        }
    }
}

/// Taking the outputs of a run over leaves exactly them in the output buffer and the
/// caches where it succeeds. Where it fails, the time cache and the cache lengths are as
/// they were, and so is all else where the encoded frames were refused.
pub proof fn taken_outputs_become_the_context(
    io: EncoderIo,
    cache: &mut EncoderCache,
    out: &mut Tensor,
    outputs: &EncoderOutputs,
    r: Result<usize, Error>,
)
    requires
        call_ensures(finish_encoder_run, (io, cache, out, outputs), r),
        has_outputs(io, *outputs),
    ensures
        r matches Ok(frames) ==> {
            &&& outputs_taken(
                io,
                encoder_state(*old(out), *old(cache)),
                encoder_state(*final(out), *final(cache)),
                *outputs,
            )
            &&& frames == outputs.encoded->Ok_0.shape@[2] as usize
        },
        r is Err ==> {
            &&& final(cache).cache_last_time@ == old(cache).cache_last_time@
            &&& final(cache).cache_last_channel_len@ == old(cache).cache_last_channel_len@
        },
        outputs.encoded is Err ==> {
            &&& r is Err
            &&& final(out)@ == old(out)@
            &&& final(cache).cache_last_channel@ == old(cache).cache_last_channel@
            &&& final(cache).cache_last_key@ == old(cache).cache_last_key@
            &&& final(cache).cache_last_value@ == old(cache).cache_last_value@
        },
{
    if r is Ok {
        successful_runs_leave_their_outputs(io, encoder_state(*old(out), *old(cache)), *outputs);
    }
}

proof fn lemma_axes_of_three(t: TensorView, shape: Seq<i64>)
    ensures
        axes_match(t, shape, 3) <==> t.shape == seq![
            shape[0] as usize,
            shape[1] as usize,
            shape[2] as usize,
        ],
{
    assert(Seq::new(3, |i: int| shape[i] as usize) =~= seq![
        shape[0] as usize,
        shape[1] as usize,
        shape[2] as usize,
    ]);
}

proof fn lemma_axes_of_four(t: TensorView, shape: Seq<i64>)
    ensures
        axes_match(t, shape, 4) <==> t.shape == seq![
            shape[0] as usize,
            shape[1] as usize,
            shape[2] as usize,
            shape[3] as usize,
        ],
{
    assert(Seq::new(4, |i: int| shape[i] as usize) =~= seq![
        shape[0] as usize,
        shape[1] as usize,
        shape[2] as usize,
        shape[3] as usize,
    ]);
}

/// Outputs of an encoder with raw channel caches are taken exactly where all of them could
/// be had, each has the axes of its target, there are as many lengths as batch items, and
/// the targets are laid out contiguously.
pub proof fn raw_outputs_are_taken_where_they_fit(
    io: EncoderIo,
    cache: &mut EncoderCache,
    out: &mut Tensor,
    outputs: &EncoderOutputs,
    r: Result<usize, Error>,
)
    requires
        call_ensures(finish_encoder_run, (io, cache, out, outputs), r),
        io.cache_abi == EncoderCacheAbi::RawChannel,
    ensures
        ({
            let e = outputs.encoded->Ok_0.shape@;
            let t = outputs.time->Ok_0.shape@;
            let c = outputs.channel->0->Ok_0.shape@;
            r is Ok <==> {
                &&& outputs.encoded is Ok && outputs.time is Ok && outputs.lengths is Ok
                &&& old(out)@.shape == seq![e[0] as usize, e[1] as usize, e[2] as usize]
                &&& old(out)@.standard
                &&& old(cache).cache_last_time@.shape == seq![
                    t[0] as usize,
                    t[1] as usize,
                    t[2] as usize,
                    t[3] as usize,
                ]
                &&& old(cache).cache_last_time@.standard
                &&& old(cache).cache_last_channel_len@.len()
                    == outputs.lengths->Ok_0.shape@[0] as usize
                &&& io.outputs_raw_channel_cache ==> {
                    &&& outputs.channel->0 is Ok
                    &&& old(cache).cache_last_channel@.shape == seq![
                        c[0] as usize,
                        c[1] as usize,
                        c[2] as usize,
                        c[3] as usize,
                    ]
                    &&& old(cache).cache_last_channel@.standard
                }
            }
        }),
{
    lemma_axes_of_three(old(out)@, outputs.encoded->Ok_0.shape@);
    lemma_axes_of_four(old(cache).cache_last_time@, outputs.time->Ok_0.shape@);
    lemma_axes_of_four(old(cache).cache_last_channel@, outputs.channel->0->Ok_0.shape@);
}

/// The first output that could not be had is named, in the order in which they are taken:
/// the encoded frames, the time cache, the cache lengths and the channel cache.
pub proof fn the_first_output_that_is_missing_is_named(
    io: EncoderIo,
    cache: &mut EncoderCache,
    out: &mut Tensor,
    outputs: &EncoderOutputs,
    r: Result<usize, Error>,
)
    requires
        call_ensures(finish_encoder_run, (io, cache, out, outputs), r),
    ensures
        outputs.encoded matches Err(e) ==> outcome(r) == Err::<usize, ErrorView>(
            ErrorView::Model("Failed to extract "@ + "encoder output"@ + ": "@ + e@),
        ),
        outputs.encoded is Ok && old(out)@.standard && axes_match(
            old(out)@,
            outputs.encoded->Ok_0.shape@,
            3,
        ) ==> {
            &&& outputs.time matches Err(e) ==> outcome(r) == Err::<usize, ErrorView>(
                ErrorView::Model("Failed to extract "@ + "cache_last_time"@ + ": "@ + e@),
            )
            &&& outputs.time is Ok ==> (outputs.lengths matches Err(e) ==> outcome(r) == Err::<
                usize,
                ErrorView,
            >(ErrorView::Model("Failed to extract "@ + "cache_len"@ + ": "@ + e@)))
        },
{
}

/// The axes of `t` are the first three of `shape`.
pub open spec fn has_three_axes(t: TensorView, shape: Seq<i64>) -> bool {
    t.shape == seq![shape[0] as usize, shape[1] as usize, shape[2] as usize]
}

/// The axes of `t` are the first four of `shape`.
pub open spec fn has_four_axes(t: TensorView, shape: Seq<i64>) -> bool {
    t.shape == seq![
        shape[0] as usize,
        shape[1] as usize,
        shape[2] as usize,
        shape[3] as usize,
    ]
}

/// The encoded frames go into the output buffer.
pub open spec fn frames_fit(out: TensorView, outputs: EncoderOutputs) -> bool {
    outputs.encoded is Ok && has_three_axes(out, outputs.encoded->Ok_0.shape@) && out.standard
}

/// The new time cache and the new cache lengths have the sizes of the old ones.
pub open spec fn carried_fit(time: TensorView, lengths: Seq<i64>, outputs: EncoderOutputs) -> bool {
    &&& outputs.time is Ok
    &&& outputs.lengths is Ok
    &&& has_four_axes(time, outputs.time->Ok_0.shape@)
    &&& lengths.len() == outputs.lengths->Ok_0.shape@[0] as usize
}

/// The new channel cache, where the encoder gives one, goes into the old one.
pub open spec fn channel_fits(io: EncoderIo, channel: TensorView, outputs: EncoderOutputs) -> bool {
    io.outputs_raw_channel_cache ==> {
        &&& outputs.channel->0 is Ok
        &&& has_four_axes(channel, outputs.channel->0->Ok_0.shape@)
        &&& channel.standard
    }
}

/// The new stacked caches have the axes of the old ones.
pub open spec fn stacked_fit(key: TensorView, value: TensorView, outputs: EncoderOutputs) -> bool {
    &&& outputs.key->0 is Ok
    &&& outputs.value->0 is Ok
    &&& has_four_axes(key, outputs.key->0->Ok_0.shape@)
    &&& has_four_axes(value, outputs.value->0->Ok_0.shape@)
}

proof fn lemma_axes(s: EncoderState, outputs: EncoderOutputs)
    ensures
        axes_match(s.out, outputs.encoded->Ok_0.shape@, 3) <==> has_three_axes(
            s.out,
            outputs.encoded->Ok_0.shape@,
        ),
        axes_match(s.time, outputs.time->Ok_0.shape@, 4) <==> has_four_axes(
            s.time,
            outputs.time->Ok_0.shape@,
        ),
        axes_match(s.channel, outputs.channel->0->Ok_0.shape@, 4) <==> has_four_axes(
            s.channel,
            outputs.channel->0->Ok_0.shape@,
        ),
        axes_match(s.key, outputs.key->0->Ok_0.shape@, 4) <==> has_four_axes(
            s.key,
            outputs.key->0->Ok_0.shape@,
        ),
        axes_match(s.value, outputs.value->0->Ok_0.shape@, 4) <==> has_four_axes(
            s.value,
            outputs.value->0->Ok_0.shape@,
        ),
{
    lemma_axes_of_three(s.out, outputs.encoded->Ok_0.shape@);
    lemma_axes_of_four(s.time, outputs.time->Ok_0.shape@);
    lemma_axes_of_four(s.channel, outputs.channel->0->Ok_0.shape@);
    lemma_axes_of_four(s.key, outputs.key->0->Ok_0.shape@);
    lemma_axes_of_four(s.value, outputs.value->0->Ok_0.shape@);
}

/// Outputs of an encoder with stacked caches are taken exactly where all of them could be
/// had and fit. Where the keys or the values do not fit, neither cache is touched.
pub proof fn stacked_outputs_are_taken_where_they_fit(
    io: EncoderIo,
    cache: &mut EncoderCache,
    out: &mut Tensor,
    outputs: &EncoderOutputs,
    r: Result<usize, Error>,
)
    requires
        call_ensures(finish_encoder_run, (io, cache, out, outputs), r),
        io.cache_abi == EncoderCacheAbi::ProjectedKvStacked,
    ensures
        ({
            let c = *old(cache);
            let (key, value) = (c.cache_last_key@, c.cache_last_value@);
            &&& r is Ok <==> {
                &&& frames_fit(old(out)@, *outputs)
                &&& carried_fit(c.cache_last_time@, c.cache_last_channel_len@, *outputs)
                &&& channel_fits(io, c.cache_last_channel@, *outputs)
                &&& stacked_fit(key, value, *outputs)
                &&& key.standard && value.standard && c.cache_last_time@.standard
            }
            &&& !stacked_fit(key, value, *outputs) ==> final(cache).cache_last_key@ == key
                && final(cache).cache_last_value@ == value
        }),
{
    lemma_axes(encoder_state(*old(out), *old(cache)), *outputs);
}

/// The outputs are taken in their order, up to the first that does not fit: the encoded
/// frames, the time cache and the lengths, the channel cache, and the keys and values. What
/// comes before it has been taken, and what comes behind it has not; the time cache and the
/// lengths are only taken at the end.
pub proof fn outputs_are_taken_up_to_the_first_that_does_not_fit(
    io: EncoderIo,
    cache: &mut EncoderCache,
    out: &mut Tensor,
    outputs: &EncoderOutputs,
    r: Result<usize, Error>,
)
    requires
        call_ensures(finish_encoder_run, (io, cache, out, outputs), r),
    ensures
        ({
            let (c, d) = (*old(cache), *final(cache));
            let frames = frames_fit(old(out)@, *outputs);
            let carried = carried_fit(c.cache_last_time@, c.cache_last_channel_len@, *outputs);
            let channel = channel_fits(io, c.cache_last_channel@, *outputs);
            let given = io.outputs_raw_channel_cache;
            &&& !frames ==> r is Err && final(out)@ == old(out)@
            &&& frames ==> final(out)@.words == outputs.encoded->Ok_0.data@
            &&& !frames || !carried || !channel ==> {
                &&& r is Err
                &&& d.cache_last_channel@ == c.cache_last_channel@
                &&& d.cache_last_key@ == c.cache_last_key@
                &&& d.cache_last_value@ == c.cache_last_value@
            }
            &&& !given ==> d.cache_last_channel@ == c.cache_last_channel@
            &&& given && frames && carried && channel ==> d.cache_last_channel@.words
                == outputs.channel->0->Ok_0.data@
            &&& r is Err ==> d.cache_last_time@ == c.cache_last_time@
                && d.cache_last_channel_len@ == c.cache_last_channel_len@
        }),
{
    lemma_axes(encoder_state(*old(out), *old(cache)), *outputs);
}

/// The keys and values of an encoder with caches per layer are rolled in, and where that
/// fails so does the run.
pub proof fn layered_outputs_are_rolled_in(
    io: EncoderIo,
    cache: &mut EncoderCache,
    out: &mut Tensor,
    outputs: &EncoderOutputs,
    key: &mut Tensor,
    value: &mut Tensor,
    rolled: Result<(), Error>,
    r: Result<usize, Error>,
)
    requires
        call_ensures(finish_encoder_run, (io, cache, out, outputs), r),
        io.cache_abi == EncoderCacheAbi::ProjectedKvLayered,
        call_ensures(
            roll_outputs,
            (key, value, io.layout, &outputs.layer_keys, &outputs.layer_values),
            rolled,
        ),
        old(key)@ == old(cache).cache_last_key@,
        old(value)@ == old(cache).cache_last_value@,
        frames_fit(old(out)@, *outputs),
        carried_fit(
            old(cache).cache_last_time@,
            old(cache).cache_last_channel_len@,
            *outputs,
        ),
        channel_fits(io, old(cache).cache_last_channel@, *outputs),
    ensures
        final(cache).cache_last_key@ == final(key)@,
        final(cache).cache_last_value@ == final(value)@,
        r is Ok <==> rolled is Ok && old(cache).cache_last_time@.standard,
        rolled is Err ==> r->Err_0@ == rolled->Err_0@,
{
    lemma_axes(encoder_state(*old(out), *old(cache)), *outputs);
}

/// An output whose axes do not fit is named with its shape.
pub proof fn outputs_that_do_not_fit_are_shown(
    io: EncoderIo,
    cache: &mut EncoderCache,
    out: &mut Tensor,
    outputs: &EncoderOutputs,
    r: Result<usize, Error>,
)
    requires
        call_ensures(finish_encoder_run, (io, cache, out, outputs), r),
    ensures
        ({
            let c = *old(cache);
            let frames = frames_fit(old(out)@, *outputs);
            let shown = |shape: Seq<i64>| list_text(i64_values(shape));
            let (e, t) = (outputs.encoded->Ok_0.shape@, outputs.time->Ok_0.shape@);
            let (l, h) = (outputs.lengths->Ok_0.shape@, outputs.channel->0->Ok_0.shape@);
            let (k, v) = (outputs.key->0->Ok_0.shape@, outputs.value->0->Ok_0.shape@);
            let both = frames && outputs.time is Ok && outputs.lengths is Ok;
            let carried = frames && carried_fit(
                c.cache_last_time@,
                c.cache_last_channel_len@,
                *outputs,
            );
            let kept = carried && channel_fits(io, c.cache_last_channel@, *outputs) && io.cache_abi
                == EncoderCacheAbi::ProjectedKvStacked && outputs.key->0 is Ok && outputs.value->0
                is Ok;
            &&& outputs.encoded is Ok && !has_three_axes(old(out)@, e) ==> r->Err_0@
                == ErrorView::Model(
                "Unexpected encoder output shape: "@ + shown(e) + ", reusable buffer shape: "@
                    + list_text(usize_values(old(out)@.shape)),
            )
            &&& outputs.encoded is Ok && has_three_axes(old(out)@, e) && !old(out)@.standard
                ==> r->Err_0@ == ErrorView::Model("encoder_out"@ + " is not contiguous"@)
            &&& both && !has_four_axes(c.cache_last_time@, t) ==> r->Err_0@ == ErrorView::Model(
                "Unexpected "@ + "cache_last_time"@ + " shape: "@ + shown(t),
            )
            &&& both && has_four_axes(c.cache_last_time@, t) && c.cache_last_channel_len@.len()
                != l[0] as usize ==> r->Err_0@ == ErrorView::Model(
                "Unexpected "@ + "cache_last_channel_len"@ + " shape: "@ + shown(l),
            )
            &&& carried && io.outputs_raw_channel_cache && outputs.channel->0 is Ok
                && !has_four_axes(c.cache_last_channel@, h) ==> r->Err_0@ == ErrorView::Model(
                "Unexpected "@ + "cache_last_channel"@ + " shape: "@ + shown(h),
            )
            &&& kept && !has_four_axes(c.cache_last_key@, k) ==> r->Err_0@ == ErrorView::Model(
                "Unexpected "@ + "cache_last_key"@ + " shape: "@ + shown(k),
            )
            &&& kept && has_four_axes(c.cache_last_key@, k) && !has_four_axes(
                c.cache_last_value@,
                v,
            ) ==> r->Err_0@ == ErrorView::Model(
                "Unexpected "@ + "cache_last_value"@ + " shape: "@ + shown(v),
            )
        }),
{
    lemma_axes(encoder_state(*old(out), *old(cache)), *outputs);
}

/// Outputs that fit, with as many words as their targets, can be taken; so can outputs of
/// which the encoded frames could not be had, since they are refused at once.
pub proof fn fitting_outputs_can_be_taken(
    io: EncoderIo,
    cache: &EncoderCache,
    out: &Tensor,
    outputs: &EncoderOutputs,
    layers: Option<bool>,
    r: bool,
)
    requires
        call_ensures(outputs_can_be_taken, (io, cache, out, outputs), r),
        io.cache_abi == EncoderCacheAbi::ProjectedKvLayered ==> call_ensures(
            foresee_outputs,
            (
                &cache.cache_last_key,
                &cache.cache_last_value,
                io.layout,
                &outputs.layer_keys,
                &outputs.layer_values,
            ),
            layers,
        ),
    ensures
        outputs.encoded is Err ==> r,
        r && outputs.encoded is Ok ==> outputs.encoded->Ok_0.shape@.len() >= 3,
        r && frames_fit(out@, *outputs) ==> outputs.encoded->Ok_0.data@.len() == out@.words.len(),
        ({
            let (time, channel) = (cache.cache_last_time@, cache.cache_last_channel@);
            let (key, value) = (cache.cache_last_key@, cache.cache_last_value@);
            &&& frames_fit(out@, *outputs)
            &&& outputs.encoded->Ok_0.shape@.len() == 3
            &&& outputs.encoded->Ok_0.data@.len() == out@.words.len()
            &&& carried_fit(time, cache.cache_last_channel_len@, *outputs)
            &&& outputs.time->Ok_0.shape@.len() == 4
            &&& outputs.time->Ok_0.data@.len() == time.words.len()
            &&& outputs.lengths->Ok_0.shape@.len() == 1
            &&& outputs.lengths->Ok_0.data@.len() == cache.cache_last_channel_len@.len()
            &&& io.outputs_raw_channel_cache ==> {
                &&& outputs.channel is Some
                &&& channel_fits(io, channel, *outputs)
                &&& outputs.channel->0->Ok_0.shape@.len() == 4
                &&& outputs.channel->0->Ok_0.data@.len() == channel.words.len()
            }
            &&& io.cache_abi == EncoderCacheAbi::ProjectedKvStacked ==> {
                &&& outputs.key is Some
                &&& outputs.value is Some
                &&& stacked_fit(key, value, *outputs)
                &&& outputs.key->0->Ok_0.shape@.len() == 4
                &&& outputs.key->0->Ok_0.data@.len() == key.words.len()
                &&& outputs.value->0->Ok_0.shape@.len() == 4
                &&& outputs.value->0->Ok_0.data@.len() == value.words.len()
            }
            &&& io.cache_abi == EncoderCacheAbi::ProjectedKvLayered ==> layers is Some
        }) ==> r,
{
    lemma_axes(encoder_state(*out, *cache), *outputs);
}

/// An output that could be had is handed on, and else the reason is given; a tensor is
/// overwritten where it is laid out contiguously, and else it is named.
pub proof fn outputs_are_handed_on_and_written<T>(
    what: &str,
    output: &Result<T, String>,
    had: Result<&T, Error>,
    t: &mut Tensor,
    name: &str,
    data: &[u32],
    r: Result<(), Error>,
)
    requires
        call_ensures(taken, (what, output), had),
        call_ensures(overwrite, (t, name, data), r),
    ensures
        had is Ok <==> output is Ok,
        had matches Ok(value) ==> *value == output->Ok_0,
        had matches Err(e) ==> e@ == ErrorView::Model(
            "Failed to extract "@ + what@ + ": "@ + output->Err_0@,
        ),
        r is Ok <==> old(t)@.standard,
        r is Ok ==> final(t)@.words == data@ && final(t)@.shape == old(t)@.shape,
        r matches Err(e) ==> e@ == ErrorView::Model(name@ + " is not contiguous"@),
        r is Err ==> final(t)@ == old(t)@,
{
}

/// A cache that is not laid out contiguously is named, and ends the taking over: what comes
/// before it has been taken, and nothing from it on.
pub proof fn scattered_caches_end_the_taking_over(
    io: EncoderIo,
    cache: &mut EncoderCache,
    out: &mut Tensor,
    outputs: &EncoderOutputs,
    r: Result<usize, Error>,
)
    requires
        call_ensures(finish_encoder_run, (io, cache, out, outputs), r),
        io.cache_abi == EncoderCacheAbi::ProjectedKvStacked,
        frames_fit(old(out)@, *outputs),
        carried_fit(
            old(cache).cache_last_time@,
            old(cache).cache_last_channel_len@,
            *outputs,
        ),
        channel_fits(io, old(cache).cache_last_channel@, *outputs),
        stacked_fit(old(cache).cache_last_key@, old(cache).cache_last_value@, *outputs),
    ensures
        ({
            let k = old(cache).cache_last_key@.standard;
            let v = old(cache).cache_last_value@.standard;
            let t = old(cache).cache_last_time@.standard;
            let named = |name: Seq<char>|
                r is Err && r->Err_0@ == ErrorView::Model(name + " is not contiguous"@);
            &&& r is Ok <==> k && v && t
            &&& !k ==> named("cache_last_key"@) && final(cache).cache_last_key@
                == old(cache).cache_last_key@
            &&& k ==> final(cache).cache_last_key@.words == outputs.key->0->Ok_0.data@
            &&& k && !v ==> named("cache_last_value"@)
            &&& !k || !v ==> final(cache).cache_last_value@ == old(cache).cache_last_value@
            &&& k && v ==> final(cache).cache_last_value@.words == outputs.value->0->Ok_0.data@
            &&& k && v && !t ==> named("cache_last_time"@)
        }),
{
    lemma_axes(encoder_state(*old(out), *old(cache)), *outputs);
}

/// Outputs of the channel cache and of the stacked caches that could not be had are named,
/// the keys before the values.
pub proof fn missing_caches_are_named(
    io: EncoderIo,
    cache: &mut EncoderCache,
    out: &mut Tensor,
    outputs: &EncoderOutputs,
    r: Result<usize, Error>,
)
    requires
        call_ensures(finish_encoder_run, (io, cache, out, outputs), r),
        frames_fit(old(out)@, *outputs),
        carried_fit(
            old(cache).cache_last_time@,
            old(cache).cache_last_channel_len@,
            *outputs,
        ),
    ensures
        ({
            let named = |what: Seq<char>, reason: Seq<char>|
                r is Err && r->Err_0@ == ErrorView::Model(
                    "Failed to extract "@ + what + ": "@ + reason,
                );
            let fits = channel_fits(io, old(cache).cache_last_channel@, *outputs);
            let stacked = fits && io.cache_abi == EncoderCacheAbi::ProjectedKvStacked;
            &&& io.outputs_raw_channel_cache ==> (outputs.channel->0 matches Err(e) ==> named(
                "cache_last_channel"@,
                e@,
            ))
            &&& io.outputs_raw_channel_cache && outputs.channel->0 is Ok && has_four_axes(
                old(cache).cache_last_channel@,
                outputs.channel->0->Ok_0.shape@,
            ) && !old(cache).cache_last_channel@.standard ==> r is Err && r->Err_0@
                == ErrorView::Model("cache_last_channel"@ + " is not contiguous"@)
            &&& stacked ==> (outputs.key->0 matches Err(e) ==> named("cache_last_key"@, e@))
            &&& stacked && outputs.key->0 is Ok ==> (outputs.value->0 matches Err(e) ==> named(
                "cache_last_value"@,
                e@,
            ))
        }),
{
    lemma_axes(encoder_state(*old(out), *old(cache)), *outputs);
}

} // verus!
