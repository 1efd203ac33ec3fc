//! The encoder's caches, which carry context from one run to the next.

use crate::error::{Error, ErrorView};
use crate::layout::EncoderLayout;
use crate::tensor::{addressable, filled, overwritten, write_words, Tensor};
use crate::text::{decimal, i64_values, list_text, show_decimal, show_i64s};
use vstd::prelude::*;

verus! {

/// Encoder cache state for streaming inference.
pub struct EncoderCache {
    /// Raw channel cache, shaped from the encoder's `cache_last_channel` input.
    pub cache_last_channel: Tensor,
    /// Projected attention key cache.
    pub cache_last_key: Tensor,
    /// Projected attention value cache.
    pub cache_last_value: Tensor,
    /// Time cache, shaped from the encoder's `cache_last_time` input.
    pub cache_last_time: Tensor,
    /// Cache length, one value per batch item.
    pub cache_last_channel_len: Vec<i64>,
}

impl EncoderCache {
    /// Every cache has the shape that the layout gives it.
    pub open spec fn fits(self, layout: EncoderLayout) -> bool {
        &&& self.cache_last_channel@.is_dense(layout.cache_shape())
        &&& self.cache_last_key@.is_dense(layout.cache_shape())
        &&& self.cache_last_value@.is_dense(layout.cache_shape())
        &&& self.cache_last_time@.is_dense(layout.time_shape())
        &&& self.cache_last_channel_len@.len() == layout.batch
    }

    /// The caches carry no context yet.
    pub open spec fn is_empty_for(self, layout: EncoderLayout) -> bool {
        &&& self.cache_last_channel@ == filled(layout.cache_shape(), 0)
        &&& self.cache_last_key@ == filled(layout.cache_shape(), 0)
        &&& self.cache_last_value@ == filled(layout.cache_shape(), 0)
        &&& self.cache_last_time@ == filled(layout.time_shape(), 0)
        &&& self.cache_last_channel_len@ == Seq::new(layout.batch as nat, |i: int| 0i64)
    }

    /// Caches of that layout that carry no context yet.
    pub fn new(layout: EncoderLayout) -> (r: EncoderCache)
        requires
            addressable(layout.cache_shape()),
            addressable(layout.time_shape()),
            layout.batch * 8 <= isize::MAX,
        ensures
            r.is_empty_for(layout),
    {
        let cache_shape = [layout.num_layers, layout.batch, layout.cache_len, layout.hidden_size];
        let time_shape = [
            layout.num_layers,
            layout.batch,
            layout.hidden_size,
            layout.time_cache_len,
        ];
        assert(cache_shape@ =~= layout.cache_shape());
        assert(time_shape@ =~= layout.time_shape());
        let lengths = zero_lengths(layout.batch);
        EncoderCache {
            cache_last_channel: Tensor::new(&cache_shape),
            cache_last_key: Tensor::new(&cache_shape),
            cache_last_value: Tensor::new(&cache_shape),
            cache_last_time: Tensor::new(&time_shape),
            cache_last_channel_len: lengths,
        }
    }

    /// The cache length of the first batch item, or -1 where there is none.
    pub fn first_length(&self) -> (r: i64)
        ensures
            r == (if self.cache_last_channel_len@.len() > 0 {
                self.cache_last_channel_len@[0]
            } else {
                -1i64
            }),
    {
        if self.cache_last_channel_len.len() > 0 {
            self.cache_last_channel_len[0]
        } else {
            -1
        }
    }
}

/// `n` lengths, all zero.
pub fn zero_lengths(n: usize) -> (r: Vec<i64>)
    ensures
        r@ == Seq::new(n as nat, |i: int| 0i64),
{
    let mut r: Vec<i64> = Vec::new();
    let mut i: usize = 0;
    while i < n
        invariant
            i <= n,
            r@ == Seq::new(i as nat, |j: int| 0i64),
        decreases n - i,
    {
        r.push(0);
        i += 1;
    }
    r
}

/// A copy of `lengths`.
pub fn copied_lengths(lengths: &[i64]) -> (r: Vec<i64>)
    ensures
        r@ == lengths@,
{
    let mut r: Vec<i64> = Vec::new();
    let mut i: usize = 0;
    while i < lengths.len()
        invariant
            i <= lengths@.len(),
            r@ == lengths@.take(i as int),
        decreases lengths@.len() - i,
    {
        r.push(lengths[i]);
        assert(r@ =~= lengths@.take(i + 1));
        i += 1;
    }
    assert(r@ =~= lengths@);
    r
}

/// The words of layer `layer` where every layer has `size` of them.
pub open spec fn layer_words(words: Seq<u32>, layer: nat, size: nat) -> Seq<u32> {
    words.subrange((layer * size) as int, (layer * size + size) as int)
}

/// The end of layer `layer` is a machine number.
pub open spec fn layer_end_fits(layer: nat, size: nat) -> bool {
    layer * size + size <= usize::MAX
}

/// The message about a layer that the cache does not have.
pub open spec fn cache_bounds_message(layer: nat) -> Seq<char> {
    "projected cache layer "@ + decimal(layer) + " is out of bounds"@
}

/// The message about a layer that the projected output does not have.
pub open spec fn current_bounds_message(layer: nat) -> Seq<char> {
    "projected current cache layer "@ + decimal(layer) + " is out of bounds"@
}

/// The words of one layer of a projected cache.
pub fn projected_cache_layer_slice(cache: &Tensor, layer: usize, layout: EncoderLayout) -> (r:
    Result<&[u32], Error>)
    requires
        cache@.standard ==> layout.batch * layout.cache_len <= usize::MAX
            && layer_end_fits(layer as nat, layout.cache_layer_size()),
    ensures
        ({
            let size = layout.cache_layer_size();
            let words = cache@.words;
            &&& !cache@.standard ==> (r matches Err(e) && e@ == ErrorView::Model(
                "projected cache is not contiguous"@,
            ))
            &&& cache@.standard && layer * size + size <= words.len() ==> (r matches Ok(s)
                && s@ == layer_words(words, layer as nat, size))
            &&& cache@.standard && layer * size + size > words.len() ==> (r matches Err(e)
                && e@ == ErrorView::Model(cache_bounds_message(layer as nat)))
        }),
{
    match cache.as_slice() {
        None => Err(Error::Model("projected cache is not contiguous".to_owned())),
        Some(all) => {
            proof {
                lemma_layer_start_fits(layer as nat, layout.cache_layer_size());
            }
            let size = layout.projected_cache_layer_values();
            let start = layer * size;
            let end = start + size;
            if end <= all.len() {
                Ok(&all[start..end])
            } else {
                let mut m = "projected cache layer ".to_owned();
                m.append(show_decimal(layer as u128).as_str());
                m.append(" is out of bounds");
                Err(Error::Model(m))
            }
        },
    }
}

/// The words that the last run projected for one layer.
pub fn projected_current_layer_slice(cache: &Tensor, layer: usize, layout: EncoderLayout) -> (r:
    Result<&[u32], Error>)
    requires
        cache@.standard ==> layout.batch * layout.output_frames <= usize::MAX
            && layer_end_fits(layer as nat, layout.current_layer_size()),
    ensures
        ({
            let size = layout.current_layer_size();
            let words = cache@.words;
            &&& !cache@.standard ==> (r matches Err(e) && e@ == ErrorView::Model(
                "projected current cache is not contiguous"@,
            ))
            &&& cache@.standard && layer * size + size <= words.len() ==> (r matches Ok(s)
                && s@ == layer_words(words, layer as nat, size))
            &&& cache@.standard && layer * size + size > words.len() ==> (r matches Err(e)
                && e@ == ErrorView::Model(current_bounds_message(layer as nat)))
        }),
{
    match cache.as_slice() {
        None => Err(Error::Model("projected current cache is not contiguous".to_owned())),
        Some(all) => {
            proof {
                lemma_layer_start_fits(layer as nat, layout.current_layer_size());
            }
            let size = layout.projected_current_layer_values();
            let start = layer * size;
            let end = start + size;
            if end <= all.len() {
                Ok(&all[start..end])
            } else {
                let mut m = "projected current cache layer ".to_owned();
                m.append(show_decimal(layer as u128).as_str());
                m.append(" is out of bounds");
                Err(Error::Model(m))
            }
        },
    }
}

proof fn lemma_layer_start_fits(layer: nat, size: nat)
    requires
        layer_end_fits(layer, size),
    ensures
        0 <= layer * size <= usize::MAX,
        size <= usize::MAX,
{
    assert(layer * size >= 0) by (nonlinear_arith);
}

/// A cache window after `current` has come in: the last words of the old window
/// followed by the current ones, as many as the window holds.
pub open spec fn rolled(window: Seq<u32>, current: Seq<u32>) -> Seq<u32> {
    (window + current).skip(current.len() as int)
}

/// The shape of a projected output names the batch and the hidden size.
pub open spec fn is_projected_shape(layout: EncoderLayout, shape: Seq<i64>) -> bool {
    shape.len() == 3 && shape[0] == layout.batch as i64 && shape[2] == layout.hidden_size as i64
}

/// The number of words in `frames` frames of every batch item.
pub open spec fn frames_size(layout: EncoderLayout, frames: nat) -> nat {
    layout.batch as nat * frames * layout.hidden_size as nat
}

/// `frames` new frames can be rolled into a layer: what remains of the window and
/// what comes in fill it exactly.
pub open spec fn roll_is_defined(layout: EncoderLayout, frames: nat) -> bool {
    let given = frames_size(layout, frames);
    let size = layout.cache_layer_size();
    if frames >= layout.cache_len {
        (frames - layout.cache_len) * layout.hidden_size + size == given
    } else {
        given == frames * layout.hidden_size && given <= size
    }
}

/// The number of new frames that a shape names, as the unsigned number of its bits.
pub open spec fn frames_named(shape: Seq<i64>) -> nat {
    (shape[1] as usize) as nat
}

/// An output of that shape and size goes into its layer of a cache.
pub open spec fn roll_goes_in(
    standard: bool,
    len: nat,
    layer: nat,
    layout: EncoderLayout,
    shape: Seq<i64>,
    data_len: nat,
) -> bool {
    &&& is_projected_shape(layout, shape)
    &&& data_len == frames_size(layout, frames_named(shape))
    &&& standard
    &&& layer * layout.cache_layer_size() + layout.cache_layer_size() <= len
}

/// The numbers that the roll computes are machine numbers, and the new frames
/// fill the window exactly.
pub open spec fn roll_accepts(
    standard: bool,
    len: nat,
    layer: nat,
    layout: EncoderLayout,
    shape: Seq<i64>,
    data_len: nat,
) -> bool {
    is_projected_shape(layout, shape) ==> {
        let frames = frames_named(shape);
        &&& layout.batch * frames <= usize::MAX
        &&& frames_size(layout, frames) <= usize::MAX
        &&& data_len == frames_size(layout, frames) && standard ==> {
            &&& layout.batch * layout.cache_len <= usize::MAX
            &&& layer_end_fits(layer, layout.cache_layer_size())
            &&& layer * layout.cache_layer_size() + layout.cache_layer_size() <= len
                ==> roll_is_defined(layout, frames)
        }
    }
}

/// Whether `frames` new frames of `given` words can be rolled into a layer of `size`
/// words.
fn can_roll_frames(layout: EncoderLayout, frames: usize, given: usize, size: usize) -> (r: bool)
    requires
        given == frames_size(layout, frames as nat),
        size == layout.cache_layer_size(),
    ensures
        r == roll_is_defined(layout, frames as nat),
{
    if frames >= layout.cache_len {
        match (frames - layout.cache_len).checked_mul(layout.hidden_size) {
            None => false,
            Some(skipped) => given >= size && skipped == given - size,
        }
    } else {
        match frames.checked_mul(layout.hidden_size) {
            None => false,
            Some(needed) => given == needed && given <= size,
        }
    }
}

/// The end of layer `layer`, where it is a machine number.
fn layer_end(layout: EncoderLayout, layer: usize) -> (r: Option<(usize, usize)>)
    ensures
        r is Some <==> layout.batch * layout.cache_len <= usize::MAX && layer_end_fits(
            layer as nat,
            layout.cache_layer_size(),
        ),
        r matches Some((size, end)) ==> size == layout.cache_layer_size() && end == layer * size
            + size,
{
    let ghost size = layout.cache_layer_size();
    let per_item = match layout.batch.checked_mul(layout.cache_len) {
        None => {
            return None;
        },
        Some(per_item) => per_item,
    };
    assert(layer * size >= 0) by (nonlinear_arith);
    let words = match per_item.checked_mul(layout.hidden_size) {
        None => {
            return None;
        },
        Some(words) => words,
    };
    match layer.checked_mul(words) {
        None => None,
        Some(start) => match start.checked_add(words) {
            None => None,
            Some(end) => Some((words, end)),
        },
    }
}

/// Whether an output of that shape and size goes into its layer of a cache, unless
/// rolling it would leave the machine numbers or not fill the window exactly.
pub fn foresee_roll(
    cache: &Tensor,
    layer: usize,
    layout: EncoderLayout,
    shape: &[i64],
    data_len: usize,
) -> (r: Option<bool>)
    ensures
        r is Some <==> roll_accepts(
            cache@.standard,
            cache@.words.len(),
            layer as nat,
            layout,
            shape@,
            data_len as nat,
        ),
        r matches Some(goes_in) ==> goes_in == roll_goes_in(
            cache@.standard,
            cache@.words.len(),
            layer as nat,
            layout,
            shape@,
            data_len as nat,
        ),
{
    if shape.len() != 3 || shape[0] != layout.batch as i64 || shape[2] != layout.hidden_size as i64 {
        return Some(false);
    }
    let frames: usize = shape[1] as usize;
    let rows = match layout.batch.checked_mul(frames) {
        None => {
            return None;
        },
        Some(rows) => rows,
    };
    let given = match rows.checked_mul(layout.hidden_size) {
        None => {
            return None;
        },
        Some(given) => given,
    };
    if data_len != given {
        return Some(false);
    }
    match cache.words() {
        None => Some(false),
        Some(words) => match layer_end(layout, layer) {
            None => None,
            Some((size, end)) => if end > words.len() {
                Some(false)
            } else if can_roll_frames(layout, frames, given, size) {
                Some(true)
            } else {
                None
            },
        },
    }
}

/// The message about a projected output of the wrong shape.
pub open spec fn roll_shape_message(layer: nat, shape: Seq<i64>) -> Seq<char> {
    "Unexpected projected cache output shape for layer "@ + decimal(layer) + ": "@ + list_text(
        i64_values(shape),
    )
}

/// The message about a projected output of the wrong size.
pub open spec fn roll_size_message(layer: nat, got: nat, expected: nat) -> Seq<char> {
    "Unexpected projected cache output size for layer "@ + decimal(layer) + ": got "@ + decimal(got)
        + ", expected "@ + decimal(expected)
}

/// What rolling `data` into layer `layer` of a cache with those words gives: the
/// new words of the whole cache, or an error.
pub open spec fn roll_result(
    words: Seq<u32>,
    standard: bool,
    layer: nat,
    layout: EncoderLayout,
    shape: Seq<i64>,
    data: Seq<u32>,
) -> Result<Seq<u32>, ErrorView> {
    let size = layout.cache_layer_size();
    if !is_projected_shape(layout, shape) {
        Err(ErrorView::Model(roll_shape_message(layer, shape)))
    } else if data.len() != frames_size(layout, frames_named(shape)) {
        Err(
            ErrorView::Model(
                roll_size_message(layer, data.len(), frames_size(layout, frames_named(shape))),
            ),
        )
    } else if !standard {
        Err(ErrorView::Model("projected cache is not contiguous"@))
    } else if layer * size + size > words.len() {
        Err(ErrorView::Model(cache_bounds_message(layer)))
    } else {
        Ok(
            overwritten(
                words,
                (layer * size) as int,
                rolled(layer_words(words, layer, size), data),
            ),
        )
    }
}

/// Rolls the frames of `current_data` into one layer of a projected cache.
pub fn roll_projected_cache_layer(
    cache: &mut Tensor,
    layer: usize,
    layout: EncoderLayout,
    shape: &[i64],
    current_data: &[u32],
) -> (r: Result<(), Error>)
    requires
        roll_accepts(
            old(cache)@.standard,
            old(cache)@.words.len(),
            layer as nat,
            layout,
            shape@,
            current_data@.len(),
        ),
    ensures
        match roll_result(
            old(cache)@.words,
            old(cache)@.standard,
            layer as nat,
            layout,
            shape@,
            current_data@,
        ) {
            Ok(words) => r is Ok && final(cache)@ == old(cache)@.with_words(words),
            Err(e) => r is Err && r->Err_0@ == e && final(cache)@ == old(cache)@,
        },
{
    if shape.len() != 3 || shape[0] != layout.batch as i64 || shape[2] != layout.hidden_size as i64 {
        let mut m = "Unexpected projected cache output shape for layer ".to_owned();
        m.append(show_decimal(layer as u128).as_str());
        m.append(": ");
        m.append(show_i64s(shape).as_str());
        return Err(Error::Model(m));
    }
    let current_frames: usize = shape[1] as usize;
    let expected: usize = layout.batch * current_frames * layout.hidden_size;
    if current_data.len() != expected {
        let mut m = "Unexpected projected cache output size for layer ".to_owned();
        m.append(show_decimal(layer as u128).as_str());
        m.append(": got ");
        m.append(show_decimal(current_data.len() as u128).as_str());
        m.append(", expected ");
        m.append(show_decimal(expected as u128).as_str());
        return Err(Error::Model(m));
    }
    match cache.as_slice_mut() {
        None => Err(Error::Model("projected cache is not contiguous".to_owned())),
        Some(all) => {
            proof {
                lemma_layer_start_fits(layer as nat, layout.cache_layer_size());
            }
            let size = layout.projected_cache_layer_values();
            let start: usize = layer * size;
            let end: usize = start + size;
            if end > all.len() {
                let mut m = "projected cache layer ".to_owned();
                m.append(show_decimal(layer as u128).as_str());
                m.append(" is out of bounds");
                return Err(Error::Model(m));
            }
            roll_window(all, start, size, current_data);
            Ok(())
        },
    }
}

/// Rolls `current` into the window of `size` words that begins at `start`.
fn roll_window(all: &mut [u32], start: usize, size: usize, current: &[u32])
    requires
        start + size <= old(all)@.len(),
    ensures
        final(all)@ == overwritten(
            old(all)@,
            start as int,
            rolled(old(all)@.subrange(start as int, start + size), current@),
        ),
{
    let given: usize = current.len();
    let ghost before = all@;
    let ghost window = before.subrange(start as int, start + size);
    let n: usize = all.len();
    if given >= size {
        write_words(all, start, &current[given - size..given]);
        assert(rolled(window, current@) =~= current@.subrange(given - size, given as int));
    } else {
        let kept: usize = size - given;
        let mut k: usize = 0;
        while k < kept
            invariant
                k <= kept,
                kept == size - given,
                given < size,
                start + size <= n,
                n == all@.len() == before.len(),
                forall|j: int| start <= j < start + k ==> all@[j] == before[j + given],
                forall|j: int| 0 <= j < n && !(start <= j < start + k) ==> all@[j] == before[j],
            decreases kept - k,
        {
            let moved = all[start + k + given];
            all[start + k] = moved;
            k += 1;
        }
        let ghost shifted = all@;
        write_words(all, start + kept, current);
        let ghost target = rolled(window, current@);
        assert forall|j: int| 0 <= j < n implies all@[j] == overwritten(
            before,
            start as int,
            target,
        )[j] by {
            if start <= j < start + kept {
                assert(target[j - start] == window[j - start + given]);
            } else if start + kept <= j < start + size {
                assert(target[j - start] == current@[j - start - kept]);
            }
        }
        assert(all@ =~= overwritten(before, start as int, target));
    }
}

/// With one item per batch, any number of frames can be rolled in.
pub proof fn single_items_always_roll(layout: EncoderLayout, frames: nat)
    requires
        layout.batch == 1,
    ensures
        roll_is_defined(layout, frames),
{
    let h = layout.hidden_size as nat;
    let c = layout.cache_len as nat;
    assert(1 * frames * h == frames * h && 1 * c * h == c * h) by (nonlinear_arith);
    if frames >= c {
        assert((frames - c) * h + c * h == frames * h) by (nonlinear_arith);
    } else {
        assert(frames * h <= c * h) by (nonlinear_arith)
            requires
                frames < c,
        ;
    }
}

/// A window keeps its size, and once the current words would fill it, it holds
/// the last of them and nothing else.
pub proof fn rolled_window_keeps_its_size(window: Seq<u32>, current: Seq<u32>)
    ensures
        rolled(window, current).len() == window.len(),
        current.len() >= window.len() ==> rolled(window, current) == current.skip(
            current.len() - window.len(),
        ),
        current.len() <= window.len() ==> rolled(window, current) == window.skip(
            current.len() as int,
        ) + current,
{
    if current.len() >= window.len() {
        assert(rolled(window, current) =~= current.skip(current.len() - window.len()));
    }
    if current.len() <= window.len() {
        assert(rolled(window, current) =~= window.skip(current.len() as int) + current);
    }
}

/// Rolling in `a` and then `b` is rolling in both at once.
pub proof fn rolling_twice_is_rolling_both(window: Seq<u32>, a: Seq<u32>, b: Seq<u32>)
    ensures
        rolled(rolled(window, a), b) == rolled(window, a + b),
{
    assert(rolled(rolled(window, a), b) =~= rolled(window, a + b));
}

/// Rolling frames into one layer leaves every other layer as it was.
pub proof fn rolling_leaves_other_layers(
    words: Seq<u32>,
    layer: nat,
    other: nat,
    layout: EncoderLayout,
    shape: Seq<i64>,
    data: Seq<u32>,
)
    requires
        roll_result(words, true, layer, layout, shape, data) is Ok,
        other != layer,
        other * layout.cache_layer_size() + layout.cache_layer_size() <= words.len(),
    ensures
        layer_words(
            roll_result(words, true, layer, layout, shape, data)->Ok_0,
            other,
            layout.cache_layer_size(),
        ) == layer_words(words, other, layout.cache_layer_size()),
        layer_words(
            roll_result(words, true, layer, layout, shape, data)->Ok_0,
            layer,
            layout.cache_layer_size(),
        ) == rolled(layer_words(words, layer, layout.cache_layer_size()), data),
{
    let size = layout.cache_layer_size();
    let after = roll_result(words, true, layer, layout, shape, data)->Ok_0;
    let window = layer_words(words, layer, size);
    assert(layer * size >= 0) by (nonlinear_arith);
    assert(other * size >= 0) by (nonlinear_arith);
    rolled_window_keeps_its_size(window, data);
    if other < layer {
        assert(other * size + size <= layer * size) by (nonlinear_arith)
            requires
                other + 1 <= layer,
        ;
    } else {
        assert(layer * size + size <= other * size) by (nonlinear_arith)
            requires
                layer + 1 <= other,
        ;
    }
    assert(layer_words(after, other, size) =~= layer_words(words, other, size));
    assert(layer_words(after, layer, size) =~= rolled(window, data));
}

/// New caches hold nothing but zeros, and have the axes of the layout.
pub proof fn new_caches_hold_zeros(layout: EncoderLayout, r: EncoderCache)
    requires
        call_ensures(EncoderCache::new, (layout,), r),
    ensures
        r.cache_last_channel@.shape == seq![
            layout.num_layers,
            layout.batch,
            layout.cache_len,
            layout.hidden_size,
        ],
        r.cache_last_key@.shape == r.cache_last_channel@.shape,
        r.cache_last_value@.shape == r.cache_last_channel@.shape,
        r.cache_last_time@.shape == seq![
            layout.num_layers,
            layout.batch,
            layout.hidden_size,
            layout.time_cache_len,
        ],
        forall|i: int|
            0 <= i < r.cache_last_channel@.words.len() ==> #[trigger] r.cache_last_channel@.words[i]
                == 0,
        forall|i: int|
            0 <= i < r.cache_last_key@.words.len() ==> #[trigger] r.cache_last_key@.words[i] == 0,
        forall|i: int|
            0 <= i < r.cache_last_value@.words.len() ==> #[trigger] r.cache_last_value@.words[i]
                == 0,
        forall|i: int|
            0 <= i < r.cache_last_time@.words.len() ==> #[trigger] r.cache_last_time@.words[i] == 0,
        r.cache_last_channel_len@.len() == layout.batch,
        forall|i: int|
            0 <= i < layout.batch ==> #[trigger] r.cache_last_channel_len@[i] == 0,
{
}

/// The length of a cache is that of the first batch item, and -1 where there is none.
pub proof fn the_first_length_speaks_for_the_cache(cache: &EncoderCache, r: i64)
    requires
        call_ensures(EncoderCache::first_length, (cache,), r),
    ensures
        cache.cache_last_channel_len@.len() > 0 ==> r == cache.cache_last_channel_len@[0],
        cache.cache_last_channel_len@.len() == 0 ==> r == -1,
{
}

/// A layer of a cache, and of what a run projected, is the block of words at its number.
pub proof fn layers_are_blocks_of_words(
    cache: &Tensor,
    layer: usize,
    layout: EncoderLayout,
    cached: Result<&[u32], Error>,
    projected: Result<&[u32], Error>,
)
    requires
        call_ensures(projected_cache_layer_slice, (cache, layer, layout), cached),
        call_ensures(projected_current_layer_slice, (cache, layer, layout), projected),
    ensures
        ({
            let size = layout.batch * layout.cache_len * layout.hidden_size;
            &&& cached is Ok <==> cache@.standard && layer * size + size <= cache@.words.len()
            &&& cached matches Ok(s) ==> {
                &&& s@.len() == size
                &&& forall|j: int|
                    0 <= j < size ==> #[trigger] s@[j] == cache@.words[layer * size + j]
            }
        }),
        ({
            let size = layout.batch * layout.output_frames * layout.hidden_size;
            &&& projected is Ok <==> cache@.standard && layer * size + size <= cache@.words.len()
            &&& projected matches Ok(s) ==> {
                &&& s@.len() == size
                &&& forall|j: int|
                    0 <= j < size ==> #[trigger] s@[j] == cache@.words[layer * size + j]
            }
        }),
{
    let a = layout.cache_layer_size();
    let b = layout.current_layer_size();
    assert(layer * a >= 0 && layer * b >= 0) by (nonlinear_arith);
}

/// The words of layer `layer`, of which every layer has `size`, have moved up to make room
/// for `data` at their end.
pub open spec fn layer_moved_up(
    before: Seq<u32>,
    after: Seq<u32>,
    layer: int,
    size: int,
    data: Seq<u32>,
) -> bool {
    forall|j: int|
        0 <= j < size ==> #[trigger] after[layer * size + j] == (if j + data.len() < size {
            before[layer * size + j + data.len()]
        } else {
            data[j + data.len() - size]
        })
}

/// Rolling new frames into a layer moves its words up and puts the frames behind them, and
/// leaves all other words. It is done exactly where the frames have the shape and the size
/// that the layout gives them and the cache has the layer; else nothing changes.
pub proof fn rolling_moves_one_layer_up(
    cache: &mut Tensor,
    layer: usize,
    layout: EncoderLayout,
    shape: &[i64],
    data: &[u32],
    r: Result<(), Error>,
)
    requires
        call_ensures(roll_projected_cache_layer, (cache, layer, layout, shape, data), r),
    ensures
        ({
            let size = layout.batch * layout.cache_len * layout.hidden_size;
            let (before, after) = (old(cache)@, final(cache)@);
            &&& r is Ok <==> {
                &&& shape@.len() == 3
                &&& shape@[0] == layout.batch as i64
                &&& shape@[2] == layout.hidden_size as i64
                &&& data@.len() == layout.batch * (shape@[1] as usize) * layout.hidden_size
                &&& before.standard
                &&& layer * size + size <= before.words.len()
            }
            &&& r is Err ==> after == before
            &&& r is Ok ==> {
                &&& after.shape == before.shape
                &&& after.standard
                &&& after.words.len() == before.words.len()
                &&& layer_moved_up(before.words, after.words, layer as int, size, data@)
                &&& forall|i: int|
                    0 <= i < before.words.len() && !(layer * size <= i < layer * size + size)
                        ==> #[trigger] after.words[i] == before.words[i]
            }
        }),
{
    let size = layout.cache_layer_size();
    assert(layer * size >= 0) by (nonlinear_arith);
    rolled_window_keeps_its_size(layer_words(old(cache)@.words, layer as nat, size), data@);
}

/// Rolling reports the first thing that is wrong: the shape, the size, the layout of the
/// cache, or the layer.
pub proof fn rolling_reports_what_is_wrong(
    cache: &mut Tensor,
    layer: usize,
    layout: EncoderLayout,
    shape: &[i64],
    data: &[u32],
    r: Result<(), Error>,
)
    requires
        call_ensures(roll_projected_cache_layer, (cache, layer, layout, shape, data), r),
        r is Err,
    ensures
        ({
            let shaped = shape@.len() == 3 && shape@[0] == layout.batch as i64 && shape@[2]
                == layout.hidden_size as i64;
            let expected = layout.batch * (shape@[1] as usize) * layout.hidden_size;
            let number = decimal(layer as nat);
            r->Err_0@ == ErrorView::Model(
                if !shaped {
                    "Unexpected projected cache output shape for layer "@ + number + ": "@
                        + list_text(i64_values(shape@))
                } else if data@.len() != expected {
                    "Unexpected projected cache output size for layer "@ + number + ": got "@
                        + decimal(data@.len()) + ", expected "@ + decimal(expected as nat)
                } else if !old(cache)@.standard {
                    "projected cache is not contiguous"@
                } else {
                    "projected cache layer "@ + number + " is out of bounds"@
                },
            )
        }),
{
}

/// What is foreseen of a roll is what it does.
pub proof fn rolls_do_what_was_foreseen(
    cache: &Tensor,
    target: &mut Tensor,
    layer: usize,
    layout: EncoderLayout,
    shape: &[i64],
    data: &[u32],
    len: usize,
    foreseen: Option<bool>,
    r: Result<(), Error>,
)
    requires
        call_ensures(foresee_roll, (cache, layer, layout, shape, len), foreseen),
        call_ensures(roll_projected_cache_layer, (target, layer, layout, shape, data), r),
        old(target)@ == cache@,
        len == data@.len(),
    ensures
        foreseen matches Some(goes_in) ==> (goes_in <==> r is Ok),
{
}

/// With one item per batch, what a roll does is foreseen wherever the sizes are machine
/// numbers.
pub proof fn rolls_of_single_items_are_foreseen(
    cache: &Tensor,
    layer: usize,
    layout: EncoderLayout,
    shape: &[i64],
    len: usize,
    foreseen: Option<bool>,
)
    requires
        call_ensures(foresee_roll, (cache, layer, layout, shape, len), foreseen),
        layout.batch == 1,
        shape@.len() == 3 ==> (shape@[1] as usize) * layout.hidden_size <= usize::MAX,
        layout.cache_len * layout.hidden_size * layer + layout.cache_len * layout.hidden_size
            <= usize::MAX,
    ensures
        foreseen is Some,
{
    let (c, h) = (layout.cache_len as nat, layout.hidden_size as nat);
    let n = layer as nat;
    assert(1 * c * h == c * h && n * (c * h) == c * h * n) by (nonlinear_arith);
    assert(layout.cache_layer_size() == c * h);
    if shape@.len() == 3 {
        let f = frames_named(shape@);
        single_items_always_roll(layout, f);
        assert(1 * f * h == f * h) by (nonlinear_arith);
    }
}

/// New lengths are zero, and copied ones are the same.
pub proof fn lengths_are_zeroed_and_copied(
    n: usize,
    zeros: Vec<i64>,
    lengths: &[i64],
    copy: Vec<i64>,
)
    requires
        call_ensures(zero_lengths, (n,), zeros),
        call_ensures(copied_lengths, (lengths,), copy),
    ensures
        zeros@.len() == n,
        forall|i: int| 0 <= i < n ==> #[trigger] zeros@[i] == 0,
        copy@.len() == lengths@.len(),
        forall|i: int| 0 <= i < copy@.len() ==> #[trigger] copy@[i] == lengths@[i],
{
}

} // verus!
