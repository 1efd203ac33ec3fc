//! Rolling the projected keys and values of all layers.

use crate::cache::{
    current_bounds_message, foresee_roll, layer_end_fits, layer_moved_up, layer_words,
    projected_current_layer_slice, roll_accepts, roll_goes_in, roll_is_defined,
    roll_projected_cache_layer, roll_result, rolled, rolled_window_keeps_its_size,
    rolling_leaves_other_layers, single_items_always_roll,
};
use crate::error::{Error, ErrorView};
use crate::layout::{addressable_layouts_have_bounded_layers, EncoderLayout};
use crate::tensor::{addressable, Tensor, TensorView};
use crate::text::{decimal, show_decimal};
use vstd::prelude::*;

verus! {

/// A tensor that a run gave, with its shape.
#[derive(Debug)]
pub struct TensorOutput {
    pub shape: Vec<i64>,
    pub data: Vec<u32>,
}

/// The new frames of one layer, with their shape.
pub struct Frames {
    pub shape: Seq<i64>,
    pub data: Seq<u32>,
}

/// Two projected caches, and what went wrong in bringing them up to date.
pub struct Projected {
    pub key: TensorView,
    pub value: TensorView,
    pub failure: Option<ErrorView>,
}

/// A cache after new frames have been rolled into one of its layers, and what
/// went wrong. Frames that could not be had fail with their own error.
pub open spec fn rolled_into(
    cache: TensorView,
    layer: nat,
    layout: EncoderLayout,
    frames: Result<Frames, ErrorView>,
) -> (TensorView, Option<ErrorView>) {
    match frames {
        Err(e) => (cache, Some(e)),
        Ok(f) => match roll_result(cache.words, cache.standard, layer, layout, f.shape, f.data) {
            Ok(words) => (cache.with_words(words), None),
            Err(e) => (cache, Some(e)),
        },
    }
}

/// Both caches after the frames of the first `n` layers have come in, the key
/// before the value of each. The first failure ends it.
pub open spec fn rolled_layers(
    start: Projected,
    layout: EncoderLayout,
    keys: Seq<Result<Frames, ErrorView>>,
    values: Seq<Result<Frames, ErrorView>>,
    n: nat,
) -> Projected
    decreases n,
{
    if n == 0 {
        start
    } else {
        let before = rolled_layers(start, layout, keys, values, (n - 1) as nat);
        if before.failure is Some {
            before
        } else {
            let layer = (n - 1) as nat;
            let (key, key_failure) = rolled_into(before.key, layer, layout, keys[layer as int]);
            if key_failure is Some {
                Projected { failure: key_failure, ..before }
            } else {
                let (value, failure) = rolled_into(
                    before.value,
                    layer,
                    layout,
                    values[layer as int],
                );
                Projected { key, value, failure }
            }
        }
    }
}

proof fn lemma_rolled_into_keeps_size(
    cache: TensorView,
    layer: nat,
    layout: EncoderLayout,
    frames: Result<Frames, ErrorView>,
)
    ensures
        rolled_into(cache, layer, layout, frames).0.words.len() == cache.words.len(),
        rolled_into(cache, layer, layout, frames).0.shape == cache.shape,
        rolled_into(cache, layer, layout, frames).0.standard == cache.standard,
{
}

/// Rolling frames in changes neither the shape nor the size of a cache.
pub proof fn rolling_keeps_the_caches_shape(
    start: Projected,
    layout: EncoderLayout,
    keys: Seq<Result<Frames, ErrorView>>,
    values: Seq<Result<Frames, ErrorView>>,
    n: nat,
)
    ensures
        ({
            let after = rolled_layers(start, layout, keys, values, n);
            &&& after.key.words.len() == start.key.words.len()
            &&& after.key.shape == start.key.shape
            &&& after.key.standard == start.key.standard
            &&& after.value.words.len() == start.value.words.len()
            &&& after.value.shape == start.value.shape
            &&& after.value.standard == start.value.standard
        }),
    decreases n,
{
    if n > 0 {
        rolling_keeps_the_caches_shape(start, layout, keys, values, (n - 1) as nat);
        let before = rolled_layers(start, layout, keys, values, (n - 1) as nat);
        lemma_rolled_into_keeps_size(before.key, (n - 1) as nat, layout, keys[n - 1]);
        lemma_rolled_into_keeps_size(before.value, (n - 1) as nat, layout, values[n - 1]);
    }
}

/// Where nothing failed, every layer of either cache is its old window with that
/// layer's own frames rolled in.
pub proof fn every_layer_rolls_its_own_frames(
    start: Projected,
    layout: EncoderLayout,
    keys: Seq<Result<Frames, ErrorView>>,
    values: Seq<Result<Frames, ErrorView>>,
    n: nat,
    layer: nat,
)
    requires
        rolled_layers(start, layout, keys, values, n).failure is None,
        layer < n,
    ensures
        keys[layer as int] is Ok,
        values[layer as int] is Ok,
        layer_words(
            rolled_layers(start, layout, keys, values, n).key.words,
            layer,
            layout.cache_layer_size(),
        ) == rolled(
            layer_words(start.key.words, layer, layout.cache_layer_size()),
            keys[layer as int]->Ok_0.data,
        ),
        layer_words(
            rolled_layers(start, layout, keys, values, n).value.words,
            layer,
            layout.cache_layer_size(),
        ) == rolled(
            layer_words(start.value.words, layer, layout.cache_layer_size()),
            values[layer as int]->Ok_0.data,
        ),
    decreases n,
{
    let top = (n - 1) as nat;
    let before = rolled_layers(start, layout, keys, values, top);
    let size = layout.cache_layer_size();
    rolling_keeps_the_caches_shape(start, layout, keys, values, top);
    let kf = keys[top as int];
    let vf = values[top as int];
    assert(kf is Ok && vf is Ok);
    assert(top * size >= 0) by (nonlinear_arith);
    assert(layer * size + size <= top * size + size) by (nonlinear_arith)
        requires
            layer <= top,
    ;
    if layer < top {
        every_layer_rolls_its_own_frames(start, layout, keys, values, top, layer);
        rolling_leaves_other_layers(
            before.key.words,
            top,
            layer,
            layout,
            kf->Ok_0.shape,
            kf->Ok_0.data,
        );
        rolling_leaves_other_layers(
            before.value.words,
            top,
            layer,
            layout,
            vf->Ok_0.shape,
            vf->Ok_0.data,
        );
    } else {
        lemma_later_layers_untouched(start, layout, keys, values, top, layer);
        lemma_rolled_layer(before.key.words, top, layout, kf->Ok_0.shape, kf->Ok_0.data);
        lemma_rolled_layer(before.value.words, top, layout, vf->Ok_0.shape, vf->Ok_0.data);
    }
}

proof fn lemma_rolled_layer(
    words: Seq<u32>,
    layer: nat,
    layout: EncoderLayout,
    shape: Seq<i64>,
    data: Seq<u32>,
)
    requires
        roll_result(words, true, layer, layout, shape, data) is Ok,
    ensures
        layer_words(
            roll_result(words, true, layer, layout, shape, data)->Ok_0,
            layer,
            layout.cache_layer_size(),
        ) == rolled(layer_words(words, layer, layout.cache_layer_size()), data),
{
    let size = layout.cache_layer_size();
    let window = layer_words(words, layer, size);
    assert(layer * size >= 0) by (nonlinear_arith);
    rolled_window_keeps_its_size(window, data);
    assert(layer_words(
        roll_result(words, true, layer, layout, shape, data)->Ok_0,
        layer,
        size,
    ) =~= rolled(window, data));
}

proof fn lemma_later_layers_untouched(
    start: Projected,
    layout: EncoderLayout,
    keys: Seq<Result<Frames, ErrorView>>,
    values: Seq<Result<Frames, ErrorView>>,
    n: nat,
    layer: nat,
)
    requires
        rolled_layers(start, layout, keys, values, n).failure is None,
        n <= layer,
        layer * layout.cache_layer_size() + layout.cache_layer_size() <= start.key.words.len(),
        layer * layout.cache_layer_size() + layout.cache_layer_size() <= start.value.words.len(),
    ensures
        layer_words(
            rolled_layers(start, layout, keys, values, n).key.words,
            layer,
            layout.cache_layer_size(),
        ) == layer_words(start.key.words, layer, layout.cache_layer_size()),
        layer_words(
            rolled_layers(start, layout, keys, values, n).value.words,
            layer,
            layout.cache_layer_size(),
        ) == layer_words(start.value.words, layer, layout.cache_layer_size()),
    decreases n,
{
    if n > 0 {
        let top = (n - 1) as nat;
        let before = rolled_layers(start, layout, keys, values, top);
        lemma_later_layers_untouched(start, layout, keys, values, top, layer);
        rolling_keeps_the_caches_shape(start, layout, keys, values, top);
        let kf = keys[top as int];
        let vf = values[top as int];
        rolling_leaves_other_layers(
            before.key.words,
            top,
            layer,
            layout,
            kf->Ok_0.shape,
            kf->Ok_0.data,
        );
        rolling_leaves_other_layers(
            before.value.words,
            top,
            layer,
            layout,
            vf->Ok_0.shape,
            vf->Ok_0.data,
        );
    }
}

/// The message about new frames that could not be taken out of a run.
pub open spec fn extraction_message(kind: Seq<char>, layer: nat, reason: Seq<char>) -> Seq<char> {
    "Failed to extract projected current "@ + kind + " layer "@ + decimal(layer) + ": "@ + reason
}

/// The new frames of every layer, as a run gave them or failed to.
pub open spec fn extracted(
    kind: Seq<char>,
    outputs: Seq<Result<TensorOutput, String>>,
) -> Seq<Result<Frames, ErrorView>> {
    Seq::new(
        outputs.len(),
        |layer: int|
            match outputs[layer] {
                Ok(output) => Ok(Frames { shape: output.shape@, data: output.data@ }),
                Err(e) => Err(ErrorView::Model(extraction_message(kind, layer as nat, e@))),
            },
    )
}

/// Rolling an output of a run into its layer of a cache is defined, where there is one.
pub open spec fn output_accepted(
    cache: TensorView,
    layer: nat,
    layout: EncoderLayout,
    outputs: Seq<Result<TensorOutput, String>>,
) -> bool {
    &&& layer < outputs.len()
    &&& outputs[layer as int] matches Ok(o) ==> roll_accepts(
        cache.standard,
        cache.words.len(),
        layer,
        layout,
        o.shape@,
        o.data@.len(),
    )
}

/// An output of a run goes into its layer of a cache.
pub open spec fn output_goes_in(
    cache: TensorView,
    layer: nat,
    layout: EncoderLayout,
    outputs: Seq<Result<TensorOutput, String>>,
) -> bool {
    outputs[layer as int] matches Ok(o) && roll_goes_in(
        cache.standard,
        cache.words.len(),
        layer,
        layout,
        o.shape@,
        o.data@.len(),
    )
}

/// Both caches after the outputs of the first `n` layers have come in.
pub open spec fn rolled_outputs(
    key: TensorView,
    value: TensorView,
    layout: EncoderLayout,
    keys: Seq<Result<TensorOutput, String>>,
    values: Seq<Result<TensorOutput, String>>,
    n: nat,
) -> Projected {
    rolled_layers(
        Projected { key, value, failure: None },
        layout,
        extracted("key"@, keys),
        extracted("value"@, values),
        n,
    )
}

/// Rolling the outputs of a layer is defined: that of the key, and that of the value
/// where the key goes in.
pub open spec fn layer_accepted(
    key: TensorView,
    value: TensorView,
    layout: EncoderLayout,
    keys: Seq<Result<TensorOutput, String>>,
    values: Seq<Result<TensorOutput, String>>,
    layer: nat,
) -> bool {
    &&& output_accepted(key, layer, layout, keys)
    &&& output_goes_in(key, layer, layout, keys) ==> output_accepted(value, layer, layout, values)
}

/// Rolling the outputs of a run is defined in every layer that is reached: nothing is
/// asked of the layers behind one that fails.
pub open spec fn outputs_accepted(
    key: TensorView,
    value: TensorView,
    layout: EncoderLayout,
    keys: Seq<Result<TensorOutput, String>>,
    values: Seq<Result<TensorOutput, String>>,
) -> bool {
    forall|layer: nat|
        layer < layout.num_layers && (#[trigger] rolled_outputs(
            key,
            value,
            layout,
            keys,
            values,
            layer,
        )).failure is None ==> layer_accepted(key, value, layout, keys, values, layer)
}

proof fn lemma_sizes_decide(
    a: TensorView,
    b: TensorView,
    layer: nat,
    layout: EncoderLayout,
    frames: Result<Frames, ErrorView>,
)
    requires
        a.standard == b.standard,
        a.words.len() == b.words.len(),
    ensures
        rolled_into(a, layer, layout, frames).1 == rolled_into(b, layer, layout, frames).1,
{
}

proof fn lemma_reached_layers(
    start: Projected,
    layout: EncoderLayout,
    keys: Seq<Result<Frames, ErrorView>>,
    values: Seq<Result<Frames, ErrorView>>,
    layer: nat,
)
    requires
        rolled_layers(start, layout, keys, values, layer).failure is None,
    ensures
        rolled_layers(start, layout, keys, values, layer + 1).failure is None <==> {
            &&& rolled_into(start.key, layer, layout, keys[layer as int]).1 is None
            &&& rolled_into(start.value, layer, layout, values[layer as int]).1 is None
        },
{
    let before = rolled_layers(start, layout, keys, values, layer);
    rolling_keeps_the_caches_shape(start, layout, keys, values, layer);
    lemma_sizes_decide(start.key, before.key, layer, layout, keys[layer as int]);
    lemma_sizes_decide(start.value, before.value, layer, layout, values[layer as int]);
}

fn foresee_output(
    cache: &Tensor,
    layer: usize,
    layout: EncoderLayout,
    outputs: &Vec<Result<TensorOutput, String>>,
) -> (r: Option<bool>)
    ensures
        r is Some <==> output_accepted(cache@, layer as nat, layout, outputs@),
        r matches Some(goes_in) ==> goes_in == output_goes_in(
            cache@,
            layer as nat,
            layout,
            outputs@,
        ),
{
    if layer >= outputs.len() {
        return None;
    }
    match &outputs[layer] {
        Err(_) => Some(false),
        Ok(o) => foresee_roll(cache, layer, layout, o.shape.as_slice(), o.data.len()),
    }
}

proof fn lemma_nothing_is_reached_behind_a_failure(
    key: TensorView,
    value: TensorView,
    layout: EncoderLayout,
    keys: Seq<Result<TensorOutput, String>>,
    values: Seq<Result<TensorOutput, String>>,
    n: nat,
)
    requires
        rolled_outputs(key, value, layout, keys, values, n).failure is Some,
        forall|l: nat| l < n ==> #[trigger] layer_accepted(key, value, layout, keys, values, l),
    ensures
        outputs_accepted(key, value, layout, keys, values),
        n <= layout.num_layers ==> rolled_outputs(
            key,
            value,
            layout,
            keys,
            values,
            layout.num_layers as nat,
        ).failure is Some,
{
    let start = Projected { key, value, failure: None };
    let (kf, vf) = (extracted("key"@, keys), extracted("value"@, values));
    assert forall|layer: nat|
        layer < layout.num_layers && (#[trigger] rolled_outputs(
            key,
            value,
            layout,
            keys,
            values,
            layer,
        )).failure is None implies layer_accepted(key, value, layout, keys, values, layer) by {
        if layer >= n {
            lemma_failure_lasts(start, layout, kf, vf, n, layer);
        }
    }
    if n <= layout.num_layers {
        lemma_failure_lasts(start, layout, kf, vf, n, layout.num_layers as nat);
    }
}

/// Whether all outputs of a run go into their layers of the two caches, unless rolling
/// one that is reached is not defined.
pub fn foresee_outputs(
    key: &Tensor,
    value: &Tensor,
    layout: EncoderLayout,
    keys: &Vec<Result<TensorOutput, String>>,
    values: &Vec<Result<TensorOutput, String>>,
) -> (r: Option<bool>)
    ensures
        r is Some <==> outputs_accepted(key@, value@, layout, keys@, values@),
        r matches Some(go_in) ==> go_in == (rolled_outputs(
            key@,
            value@,
            layout,
            keys@,
            values@,
            layout.num_layers as nat,
        ).failure is None),
{
    let ghost start = Projected { key: key@, value: value@, failure: None };
    let ghost key_frames = extracted("key"@, keys@);
    let ghost value_frames = extracted("value"@, values@);
    let mut layer: usize = 0;
    while layer < layout.num_layers
        invariant
            layer <= layout.num_layers,
            start == (Projected { key: key@, value: value@, failure: None }),
            key_frames == extracted("key"@, keys@),
            value_frames == extracted("value"@, values@),
            rolled_outputs(key@, value@, layout, keys@, values@, layer as nat).failure is None,
            forall|l: nat| l < layer ==> #[trigger] layer_accepted(
                key@,
                value@,
                layout,
                keys@,
                values@,
                l,
            ),
        decreases layout.num_layers - layer,
    {
        let ghost next = (layer + 1) as nat;
        proof {
            lemma_reached_layers(start, layout, key_frames, value_frames, layer as nat);
        }
        let key_goes_in = match foresee_output(key, layer, layout, keys) {
            None => {
                return None;
            },
            Some(goes_in) => goes_in,
        };
        if !key_goes_in {
            proof {
                assert(layer_accepted(key@, value@, layout, keys@, values@, layer as nat));
                lemma_nothing_is_reached_behind_a_failure(
                    key@,
                    value@,
                    layout,
                    keys@,
                    values@,
                    next,
                );
            }
            return Some(false);
        }
        let value_goes_in = match foresee_output(value, layer, layout, values) {
            None => {
                return None;
            },
            Some(goes_in) => goes_in,
        };
        assert(layer_accepted(key@, value@, layout, keys@, values@, layer as nat));
        if !value_goes_in {
            proof {
                lemma_nothing_is_reached_behind_a_failure(
                    key@,
                    value@,
                    layout,
                    keys@,
                    values@,
                    next,
                );
            }
            return Some(false);
        }
        layer += 1;
    }
    Some(true)
}

/// Rolls one output of a run into its layer of a cache.
fn roll_output(
    cache: &mut Tensor,
    kind: &str,
    layer: usize,
    layout: EncoderLayout,
    output: &Result<TensorOutput, String>,
) -> (r: Result<(), Error>)
    requires
        output matches Ok(o) ==> roll_accepts(
            old(cache)@.standard,
            old(cache)@.words.len(),
            layer as nat,
            layout,
            o.shape@,
            o.data@.len(),
        ),
    ensures
        ({
            let frames = match *output {
                Ok(o) => Ok(Frames { shape: o.shape@, data: o.data@ }),
                Err(e) => Err(ErrorView::Model(extraction_message(kind@, layer as nat, e@))),
            };
            let (after, failure) = rolled_into(old(cache)@, layer as nat, layout, frames);
            &&& final(cache)@ == after
            &&& match failure {
                None => r is Ok,
                Some(e) => r is Err && r->Err_0@ == e,
            }
        }),
{
    match output {
        Ok(o) => roll_projected_cache_layer(
            cache,
            layer,
            layout,
            o.shape.as_slice(),
            o.data.as_slice(),
        ),
        Err(e) => {
            let mut m = "Failed to extract projected current ".to_owned();
            m.append(kind);
            m.append(" layer ");
            m.append(show_decimal(layer as u128).as_str());
            m.append(": ");
            m.append(e.as_str());
            Err(Error::Model(m))
        },
    }
}

/// Rolls the new keys and values of every layer into the two caches, in the order
/// of the layers, the key before the value. The first failure ends it.
pub fn roll_outputs(
    key: &mut Tensor,
    value: &mut Tensor,
    layout: EncoderLayout,
    keys: &Vec<Result<TensorOutput, String>>,
    values: &Vec<Result<TensorOutput, String>>,
) -> (r: Result<(), Error>)
    requires
        outputs_accepted(old(key)@, old(value)@, layout, keys@, values@),
    ensures
        ({
            let after = rolled_outputs(
                old(key)@,
                old(value)@,
                layout,
                keys@,
                values@,
                layout.num_layers as nat,
            );
            &&& final(key)@ == after.key
            &&& final(value)@ == after.value
            &&& match after.failure {
                None => r is Ok,
                Some(e) => r is Err && r->Err_0@ == e,
            }
        }),
{
    let ghost start = Projected { key: key@, value: value@, failure: None };
    let ghost key_frames = extracted("key"@, keys@);
    let ghost value_frames = extracted("value"@, values@);
    let mut layer: usize = 0;
    while layer < layout.num_layers
        invariant
            layer <= layout.num_layers,
            start == (Projected { key: old(key)@, value: old(value)@, failure: None }),
            key_frames == extracted("key"@, keys@),
            value_frames == extracted("value"@, values@),
            outputs_accepted(start.key, start.value, layout, keys@, values@),
            rolled_layers(start, layout, key_frames, value_frames, layer as nat) == (Projected {
                key: key@,
                value: value@,
                failure: None,
            }),
        decreases layout.num_layers - layer,
    {
        proof {
            rolling_keeps_the_caches_shape(start, layout, key_frames, value_frames, layer as nat);
            assert(rolled_outputs(
                start.key,
                start.value,
                layout,
                keys@,
                values@,
                layer as nat,
            ).failure is None);
            assert(layer_accepted(start.key, start.value, layout, keys@, values@, layer as nat));
        }
        if let Err(e) = roll_output(key, "key", layer, layout, &keys[layer]) {
            proof {
                lemma_a_failed_layer_ends_the_roll(
                    start,
                    layout,
                    key_frames,
                    value_frames,
                    layer as nat,
                    Projected { key: key@, value: value@, failure: Some(e@) },
                );
            }
            return Err(e);
        }
        if let Err(e) = roll_output(value, "value", layer, layout, &values[layer]) {
            proof {
                lemma_a_failed_layer_ends_the_roll(
                    start,
                    layout,
                    key_frames,
                    value_frames,
                    layer as nat,
                    Projected { key: key@, value: value@, failure: Some(e@) },
                );
            }
            return Err(e);
        }
        layer += 1;
    }
    Ok(())
}

proof fn lemma_failure_lasts(
    start: Projected,
    layout: EncoderLayout,
    keys: Seq<Result<Frames, ErrorView>>,
    values: Seq<Result<Frames, ErrorView>>,
    n: nat,
    all: nat,
)
    requires
        n <= all,
        rolled_layers(start, layout, keys, values, n).failure is Some,
    ensures
        rolled_layers(start, layout, keys, values, all) == rolled_layers(
            start,
            layout,
            keys,
            values,
            n,
        ),
    decreases all - n,
{
    if n < all {
        lemma_failure_lasts(start, layout, keys, values, n, (all - 1) as nat);
    }
}

proof fn lemma_a_failed_layer_ends_the_roll(
    start: Projected,
    layout: EncoderLayout,
    keys: Seq<Result<Frames, ErrorView>>,
    values: Seq<Result<Frames, ErrorView>>,
    layer: nat,
    failed: Projected,
)
    requires
        layer < layout.num_layers,
        failed.failure is Some,
        rolled_layers(start, layout, keys, values, layer + 1) == failed,
    ensures
        rolled_layers(start, layout, keys, values, layout.num_layers as nat) == failed,
{
    lemma_failure_lasts(start, layout, keys, values, layer + 1, layout.num_layers as nat);
}

/// The shape of the frames that one run projects for one layer.
pub open spec fn run_shape(layout: EncoderLayout) -> Seq<i64> {
    seq![layout.batch as i64, layout.output_frames as i64, layout.hidden_size as i64]
}

/// The new frames of every layer, as they stand one after the other in a tensor
/// that a run filled.
pub open spec fn sliced(current: TensorView, layout: EncoderLayout) -> Seq<
    Result<Frames, ErrorView>,
> {
    let size = layout.current_layer_size();
    Seq::new(
        layout.num_layers as nat,
        |layer: int|
            if !current.standard {
                Err(ErrorView::Model("projected current cache is not contiguous"@))
            } else if layer * size + size > current.words.len() {
                Err(ErrorView::Model(current_bounds_message(layer as nat)))
            } else {
                Ok(
                    Frames {
                        shape: run_shape(layout),
                        data: layer_words(current.words, layer as nat, size),
                    },
                )
            },
    )
}

/// Taking the frames of one layer out of a tensor that a run filled, and rolling them
/// into that layer of a cache, is defined.
pub open spec fn slice_accepted(
    cache: TensorView,
    layer: nat,
    layout: EncoderLayout,
    current: TensorView,
) -> bool {
    let size = layout.current_layer_size();
    current.standard ==> {
        &&& layout.batch * layout.output_frames <= usize::MAX
        &&& layer_end_fits(layer, size)
        &&& layer * size + size <= current.words.len() ==> roll_accepts(
            cache.standard,
            cache.words.len(),
            layer,
            layout,
            run_shape(layout),
            size,
        )
    }
}

/// The frames of one layer, as they stand in a tensor that a run filled, go into that
/// layer of a cache.
pub open spec fn slice_goes_in(
    cache: TensorView,
    layer: nat,
    layout: EncoderLayout,
    current: TensorView,
) -> bool {
    let size = layout.current_layer_size();
    &&& current.standard
    &&& layer * size + size <= current.words.len()
    &&& roll_goes_in(
        cache.standard,
        cache.words.len(),
        layer,
        layout,
        run_shape(layout),
        size,
    )
}

/// Both caches after what a run left in two tensors for the first `n` layers has come in.
pub open spec fn rolled_slices(
    key: TensorView,
    value: TensorView,
    layout: EncoderLayout,
    current_key: TensorView,
    current_value: TensorView,
    n: nat,
) -> Projected {
    rolled_layers(
        Projected { key, value, failure: None },
        layout,
        sliced(current_key, layout),
        sliced(current_value, layout),
        n,
    )
}

/// Rolling what a run left in two tensors is defined in every layer that is reached:
/// nothing is asked of a value whose key fails, nor of the layers behind.
pub open spec fn slices_accepted(
    key: TensorView,
    value: TensorView,
    layout: EncoderLayout,
    current_key: TensorView,
    current_value: TensorView,
) -> bool {
    forall|layer: nat|
        layer < layout.num_layers && (#[trigger] rolled_slices(
            key,
            value,
            layout,
            current_key,
            current_value,
            layer,
        )).failure is None ==> {
            &&& slice_accepted(key, layer, layout, current_key)
            &&& slice_goes_in(key, layer, layout, current_key) ==> slice_accepted(
                value,
                layer,
                layout,
                current_value,
            )
        }
}

/// Where the caches and what one run projects can be addressed, and its frames fill a
/// window exactly, rolling is defined whatever the tensors hold.
pub proof fn addressable_layouts_roll(
    key: TensorView,
    value: TensorView,
    layout: EncoderLayout,
    current_key: TensorView,
    current_value: TensorView,
)
    requires
        addressable(layout.cache_shape()),
        addressable(layout.current_shape()),
        roll_is_defined(layout, layout.output_frames as nat),
    ensures
        slices_accepted(key, value, layout, current_key, current_value),
{
    addressable_layouts_have_bounded_layers(layout);
    assert forall|layer: nat, cache: TensorView, current: TensorView|
        layer < layout.num_layers implies #[trigger] slice_accepted(
        cache,
        layer,
        layout,
        current,
    ) by {
        lemma_layer_in_bounds(layer, layout.num_layers as nat, layout.cache_layer_size());
        lemma_layer_in_bounds(layer, layout.num_layers as nat, layout.current_layer_size());
    }
}

/// Whether the frames of one layer, as they stand in a tensor that is to hold the new
/// words, go into that layer of a cache, unless rolling them is not defined.
fn foresee_slice(
    cache: &Tensor,
    layer: usize,
    layout: EncoderLayout,
    current: &Tensor,
    new: &[u32],
) -> (r: Option<bool>)
    ensures
        r is Some <==> slice_accepted(
            cache@,
            layer as nat,
            layout,
            current@.with_words(new@),
        ),
        r matches Some(goes_in) ==> goes_in == slice_goes_in(
            cache@,
            layer as nat,
            layout,
            current@.with_words(new@),
        ),
{
    if current.words().is_none() {
        return Some(false);
    }
    let ghost size = layout.current_layer_size();
    let rows = match layout.batch.checked_mul(layout.output_frames) {
        None => {
            return None;
        },
        Some(rows) => rows,
    };
    assert(layer * size >= 0) by (nonlinear_arith);
    let words = match rows.checked_mul(layout.hidden_size) {
        None => {
            return None;
        },
        Some(words) => words,
    };
    let end = match layer.checked_mul(words) {
        None => {
            return None;
        },
        Some(start) => match start.checked_add(words) {
            None => {
                return None;
            },
            Some(end) => end,
        },
    };
    if end > new.len() {
        return Some(false);
    }
    let shape = [layout.batch as i64, layout.output_frames as i64, layout.hidden_size as i64];
    assert(shape@ =~= run_shape(layout));
    foresee_roll(cache, layer, layout, &shape, words)
}

/// Whether rolling what a run leaves in two tensors is defined in every layer that is
/// reached. The tensors are to hold the new words.
pub fn can_roll_slices(
    key: &Tensor,
    value: &Tensor,
    layout: EncoderLayout,
    current_key: &Tensor,
    new_key: &[u32],
    current_value: &Tensor,
    new_value: &[u32],
) -> (r: bool)
    ensures
        r == slices_accepted(
            key@,
            value@,
            layout,
            current_key@.with_words(new_key@),
            current_value@.with_words(new_value@),
        ),
{
    let ghost start = Projected { key: key@, value: value@, failure: None };
    let ghost ck = current_key@.with_words(new_key@);
    let ghost cv = current_value@.with_words(new_value@);
    let mut layer: usize = 0;
    while layer < layout.num_layers
        invariant
            layer <= layout.num_layers,
            start == (Projected { key: key@, value: value@, failure: None }),
            ck == current_key@.with_words(new_key@),
            cv == current_value@.with_words(new_value@),
            rolled_slices(key@, value@, layout, ck, cv, layer as nat).failure is None,
            forall|l: nat| l < layer ==> #[trigger] slice_accepted(key@, l, layout, ck),
            forall|l: nat| l < layer ==> #[trigger] slice_accepted(value@, l, layout, cv),
        decreases layout.num_layers - layer,
    {
        let ghost at = layer as nat;
        let ghost next = (layer + 1) as nat;
        proof {
            lemma_reached_layers(start, layout, sliced(ck, layout), sliced(cv, layout), at);
            lemma_slices_go_in(key@, at, layout, ck);
            lemma_slices_go_in(value@, at, layout, cv);
        }
        let key_goes_in = match foresee_slice(key, layer, layout, current_key, new_key) {
            None => {
                return false;
            },
            Some(goes_in) => goes_in,
        };
        let value_goes_in = if !key_goes_in {
            false
        } else {
            match foresee_slice(value, layer, layout, current_value, new_value) {
                None => {
                    return false;
                },
                Some(goes_in) => goes_in,
            }
        };
        if !value_goes_in {
            proof {
                assert forall|l: nat|
                    l < layout.num_layers && (#[trigger] rolled_slices(
                        key@,
                        value@,
                        layout,
                        ck,
                        cv,
                        l,
                    )).failure is None implies {
                    &&& slice_accepted(key@, l, layout, ck)
                    &&& slice_goes_in(key@, l, layout, ck) ==> slice_accepted(value@, l, layout, cv)
                } by {
                    if l >= next {
                        lemma_failure_lasts(
                            start,
                            layout,
                            sliced(ck, layout),
                            sliced(cv, layout),
                            next,
                            l,
                        );
                    }
                }
            }
            return true;
        }
        layer += 1;
    }
    true
}

proof fn lemma_slices_go_in(
    cache: TensorView,
    layer: nat,
    layout: EncoderLayout,
    current: TensorView,
)
    requires
        layer < layout.num_layers,
    ensures
        slice_goes_in(cache, layer, layout, current) <==> rolled_into(
            cache,
            layer,
            layout,
            sliced(current, layout)[layer as int],
        ).1 is None,
{
    let size = layout.current_layer_size();
    assert(layer * size >= 0) by (nonlinear_arith);
}

/// Rolls the frames of one layer, as they stand in a tensor that a run filled,
/// into that layer of a cache.
fn roll_slice(cache: &mut Tensor, layer: usize, layout: EncoderLayout, current: &Tensor) -> (r:
    Result<(), Error>)
    requires
        layer < layout.num_layers,
        slice_accepted(old(cache)@, layer as nat, layout, current@),
    ensures
        ({
            let frames = sliced(current@, layout)[layer as int];
            let (after, failure) = rolled_into(old(cache)@, layer as nat, layout, frames);
            &&& final(cache)@ == after
            &&& match failure {
                None => r is Ok,
                Some(e) => r is Err && r->Err_0@ == e,
            }
        }),
{
    proof {
        lemma_slices_go_in(cache@, layer as nat, layout, current@);
    }
    let shape = [layout.batch as i64, layout.output_frames as i64, layout.hidden_size as i64];
    assert(shape@ =~= run_shape(layout));
    match projected_current_layer_slice(current, layer, layout) {
        Ok(data) => roll_projected_cache_layer(cache, layer, layout, &shape, data),
        Err(e) => Err(e),
    }
}

proof fn lemma_layer_in_bounds(layer: nat, layers: nat, size: nat)
    requires
        layer < layers,
    ensures
        layer * size + size <= layers * size,
{
    assert(layer * size + size <= layers * size) by (nonlinear_arith)
        requires
            layer + 1 <= layers,
    ;
}

/// Rolls the keys and values that a run left in two tensors into the two caches,
/// in the order of the layers, the key before the value. The first failure ends it.
pub fn roll_slices(
    key: &mut Tensor,
    value: &mut Tensor,
    layout: EncoderLayout,
    current_key: &Tensor,
    current_value: &Tensor,
) -> (r: Result<(), Error>)
    requires
        slices_accepted(old(key)@, old(value)@, layout, current_key@, current_value@),
    ensures
        ({
            let after = rolled_slices(
                old(key)@,
                old(value)@,
                layout,
                current_key@,
                current_value@,
                layout.num_layers as nat,
            );
            &&& final(key)@ == after.key
            &&& final(value)@ == after.value
            &&& match after.failure {
                None => r is Ok,
                Some(e) => r is Err && r->Err_0@ == e,
            }
        }),
{
    let ghost start = Projected { key: key@, value: value@, failure: None };
    let ghost key_frames = sliced(current_key@, layout);
    let ghost value_frames = sliced(current_value@, layout);
    let mut layer: usize = 0;
    while layer < layout.num_layers
        invariant
            layer <= layout.num_layers,
            slices_accepted(start.key, start.value, layout, current_key@, current_value@),
            start == (Projected { key: old(key)@, value: old(value)@, failure: None }),
            key_frames == sliced(current_key@, layout),
            value_frames == sliced(current_value@, layout),
            rolled_layers(start, layout, key_frames, value_frames, layer as nat) == (Projected {
                key: key@,
                value: value@,
                failure: None,
            }),
        decreases layout.num_layers - layer,
    {
        proof {
            rolling_keeps_the_caches_shape(start, layout, key_frames, value_frames, layer as nat);
            lemma_slices_go_in(start.key, layer as nat, layout, current_key@);
            lemma_sizes_decide(
                start.key,
                key@,
                layer as nat,
                layout,
                key_frames[layer as int],
            );
            assert(rolled_slices(
                start.key,
                start.value,
                layout,
                current_key@,
                current_value@,
                layer as nat,
            ).failure is None);
        }
        if let Err(e) = roll_slice(key, layer, layout, current_key) {
            proof {
                lemma_a_failed_layer_ends_the_roll(
                    start,
                    layout,
                    key_frames,
                    value_frames,
                    layer as nat,
                    Projected { key: key@, value: value@, failure: Some(e@) },
                );
            }
            return Err(e);
        }
        if let Err(e) = roll_slice(value, layer, layout, current_value) {
            proof {
                lemma_a_failed_layer_ends_the_roll(
                    start,
                    layout,
                    key_frames,
                    value_frames,
                    layer as nat,
                    Projected { key: key@, value: value@, failure: Some(e@) },
                );
            }
            return Err(e);
        }
        layer += 1;
    }
    Ok(())
}

proof fn lemma_layers_fit(
    start: Projected,
    layout: EncoderLayout,
    keys: Seq<Result<Frames, ErrorView>>,
    values: Seq<Result<Frames, ErrorView>>,
    n: nat,
    layer: nat,
)
    requires
        rolled_layers(start, layout, keys, values, n).failure is None,
        layer < n,
    ensures
        layer * layout.cache_layer_size() >= 0,
        layer * layout.cache_layer_size() + layout.cache_layer_size() <= start.key.words.len(),
        layer * layout.cache_layer_size() + layout.cache_layer_size() <= start.value.words.len(),
        keys[layer as int] is Ok,
        values[layer as int] is Ok,
{
    let size = layout.cache_layer_size();
    assert(layer * size >= 0) by (nonlinear_arith);
    if rolled_layers(start, layout, keys, values, layer + 1).failure is Some {
        lemma_failure_lasts(start, layout, keys, values, layer + 1, n);
    }
    rolling_keeps_the_caches_shape(start, layout, keys, values, layer);
}

/// Where the first `n` layers have rolled, each layer of either cache has moved up by its
/// own frames.
pub proof fn layers_move_up(
    start: Projected,
    layout: EncoderLayout,
    keys: Seq<Result<Frames, ErrorView>>,
    values: Seq<Result<Frames, ErrorView>>,
    n: nat,
    layer: nat,
)
    requires
        rolled_layers(start, layout, keys, values, n).failure is None,
        layer < n,
    ensures
        keys[layer as int] is Ok,
        values[layer as int] is Ok,
        ({
            let after = rolled_layers(start, layout, keys, values, n);
            let size = layout.cache_layer_size() as int;
            &&& layer_moved_up(
                start.key.words,
                after.key.words,
                layer as int,
                size,
                keys[layer as int]->Ok_0.data,
            )
            &&& layer_moved_up(
                start.value.words,
                after.value.words,
                layer as int,
                size,
                values[layer as int]->Ok_0.data,
            )
        }),
{
    let size = layout.cache_layer_size();
    let after = rolled_layers(start, layout, keys, values, n);
    lemma_layers_fit(start, layout, keys, values, n, layer);
    rolling_keeps_the_caches_shape(start, layout, keys, values, n);
    every_layer_rolls_its_own_frames(start, layout, keys, values, n, layer);
    let (k, v) = (keys[layer as int]->Ok_0.data, values[layer as int]->Ok_0.data);
    rolled_window_keeps_its_size(layer_words(start.key.words, layer, size), k);
    rolled_window_keeps_its_size(layer_words(start.value.words, layer, size), v);
    assert forall|j: int| 0 <= j < size implies #[trigger] after.key.words[layer * size + j] == (if j
        + k.len() < size {
        start.key.words[layer * size + j + k.len()]
    } else {
        k[j + k.len() - size]
    }) by {
        assert(layer_words(after.key.words, layer, size)[j] == after.key.words[layer * size + j]);
    }
    assert forall|j: int| 0 <= j < size implies #[trigger] after.value.words[layer * size + j] == (
    if j + v.len() < size {
        start.value.words[layer * size + j + v.len()]
    } else {
        v[j + v.len() - size]
    }) by {
        assert(layer_words(after.value.words, layer, size)[j] == after.value.words[layer * size
            + j]);
    }
}

/// Where every layer takes its outputs, each layer of the key cache has moved up by the
/// key that its own output holds, and each layer of the value cache by the value.
pub proof fn every_output_goes_into_its_own_layer(
    key: &mut Tensor,
    value: &mut Tensor,
    layout: EncoderLayout,
    keys: &Vec<Result<TensorOutput, String>>,
    values: &Vec<Result<TensorOutput, String>>,
    r: Result<(), Error>,
    layer: usize,
)
    requires
        call_ensures(roll_outputs, (key, value, layout, keys, values), r),
        keys@.len() == layout.num_layers,
        values@.len() == layout.num_layers,
        r is Ok,
        layer < layout.num_layers,
    ensures
        ({
            let size = layout.batch * layout.cache_len * layout.hidden_size;
            &&& keys@[layer as int] is Ok
            &&& values@[layer as int] is Ok
            &&& layer_moved_up(
                old(key)@.words,
                final(key)@.words,
                layer as int,
                size,
                keys@[layer as int]->Ok_0.data@,
            )
            &&& layer_moved_up(
                old(value)@.words,
                final(value)@.words,
                layer as int,
                size,
                values@[layer as int]->Ok_0.data@,
            )
        }),
{
    layers_move_up(
        Projected { key: old(key)@, value: old(value)@, failure: None },
        layout,
        extracted("key"@, keys@),
        extracted("value"@, values@),
        layout.num_layers as nat,
        layer as nat,
    );
}

/// Where every layer takes what a run left for it, each layer of the key cache has moved
/// up by the block of the projected keys at its number, and each layer of the value cache
/// by that of the projected values.
pub proof fn every_slice_goes_into_its_own_layer(
    key: &mut Tensor,
    value: &mut Tensor,
    layout: EncoderLayout,
    current_key: &Tensor,
    current_value: &Tensor,
    r: Result<(), Error>,
    layer: usize,
)
    requires
        call_ensures(roll_slices, (key, value, layout, current_key, current_value), r),
        r is Ok,
        layer < layout.num_layers,
    ensures
        ({
            let size = layout.batch * layout.cache_len * layout.hidden_size;
            let block = layout.batch * layout.output_frames * layout.hidden_size;
            let from = layer * block;
            &&& from + block <= current_key@.words.len()
            &&& from + block <= current_value@.words.len()
            &&& layer_moved_up(
                old(key)@.words,
                final(key)@.words,
                layer as int,
                size,
                current_key@.words.subrange(from, from + block),
            )
            &&& layer_moved_up(
                old(value)@.words,
                final(value)@.words,
                layer as int,
                size,
                current_value@.words.subrange(from, from + block),
            )
        }),
{
    layers_move_up(
        Projected { key: old(key)@, value: old(value)@, failure: None },
        layout,
        sliced(current_key@, layout),
        sliced(current_value@, layout),
        layout.num_layers as nat,
        layer as nat,
    );
}

/// The layer at which the roll of the first `n` layers fails.
proof fn lemma_failing_layer(
    start: Projected,
    layout: EncoderLayout,
    keys: Seq<Result<Frames, ErrorView>>,
    values: Seq<Result<Frames, ErrorView>>,
    n: nat,
) -> (at: nat)
    requires
        start.failure is None,
        rolled_layers(start, layout, keys, values, n).failure is Some,
    ensures
        at < n,
        rolled_layers(start, layout, keys, values, at).failure is None,
        rolled_layers(start, layout, keys, values, at + 1).failure is Some,
        rolled_layers(start, layout, keys, values, n) == rolled_layers(
            start,
            layout,
            keys,
            values,
            at + 1,
        ),
    decreases n,
{
    let before = (n - 1) as nat;
    if rolled_layers(start, layout, keys, values, before).failure is None {
        before
    } else {
        lemma_failing_layer(start, layout, keys, values, before)
    }
}

/// A roll of outputs that fails has failed at one layer: the layers before it have moved
/// up by their own outputs, those behind it have stayed, and its value has stayed.
pub proof fn a_failure_leaves_the_layers_behind_it(
    key: &mut Tensor,
    value: &mut Tensor,
    layout: EncoderLayout,
    keys: &Vec<Result<TensorOutput, String>>,
    values: &Vec<Result<TensorOutput, String>>,
    r: Result<(), Error>,
) -> (at: usize)
    requires
        call_ensures(roll_outputs, (key, value, layout, keys, values), r),
        keys@.len() == layout.num_layers,
        values@.len() == layout.num_layers,
        r is Err,
    ensures
        at < layout.num_layers,
        final(key)@.words.len() == old(key)@.words.len(),
        final(value)@.words.len() == old(value)@.words.len(),
        ({
            let size = layout.batch * layout.cache_len * layout.hidden_size;
            &&& forall|l: int|
                0 <= l < at ==> {
                    &&& (#[trigger] keys@[l]) is Ok
                    &&& layer_moved_up(
                        old(key)@.words,
                        final(key)@.words,
                        l,
                        size,
                        keys@[l]->Ok_0.data@,
                    )
                }
            &&& forall|l: int|
                0 <= l < at ==> {
                    &&& (#[trigger] values@[l]) is Ok
                    &&& layer_moved_up(
                        old(value)@.words,
                        final(value)@.words,
                        l,
                        size,
                        values@[l]->Ok_0.data@,
                    )
                }
            &&& forall|i: int|
                at * size + size <= i < final(key)@.words.len() ==> #[trigger] final(key)@.words[i]
                    == old(key)@.words[i]
            &&& forall|i: int|
                at * size <= i < final(value)@.words.len() ==> #[trigger] final(value)@.words[i]
                    == old(value)@.words[i]
        }),
{
    let start = Projected { key: old(key)@, value: old(value)@, failure: None };
    let (kf, vf) = (extracted("key"@, keys@), extracted("value"@, values@));
    let at = lemma_failing_layer(start, layout, kf, vf, layout.num_layers as nat);
    let size = layout.cache_layer_size() as int;
    rolling_keeps_the_caches_shape(start, layout, kf, vf, at);
    let before = rolled_layers(start, layout, kf, vf, at);
    lemma_words_behind_stay(start, layout, kf, vf, at);
    assert(at * size >= 0 && at * size + size >= at * size) by (nonlinear_arith)
        requires
            at >= 0,
            size >= 0,
    ;
    assert forall|i: int| at * size + size <= i < final(key)@.words.len() implies
        #[trigger] final(key)@.words[i] == old(key)@.words[i] by {
        assert(before.key.words[i] == start.key.words[i]);
    }
    assert forall|i: int| at * size <= i < final(value)@.words.len() implies
        #[trigger] final(value)@.words[i] == old(value)@.words[i] by {
        assert(before.value.words[i] == start.value.words[i]);
    }
    assert forall|l: int| 0 <= l < at implies {
        &&& (#[trigger] keys@[l]) is Ok
        &&& layer_moved_up(old(key)@.words, final(key)@.words, l, size, keys@[l]->Ok_0.data@)
    } by {
        layers_move_up(start, layout, kf, vf, at, l as nat);
        lemma_earlier_layers_end_before(l, at as int, size);
        lemma_failing_key_stays(start, layout, kf, vf, at);
    }
    assert forall|l: int| 0 <= l < at implies {
        &&& (#[trigger] values@[l]) is Ok
        &&& layer_moved_up(old(value)@.words, final(value)@.words, l, size, values@[l]->Ok_0.data@)
    } by {
        layers_move_up(start, layout, kf, vf, at, l as nat);
        lemma_failing_key_stays(start, layout, kf, vf, at);
    }
    at as usize
}

proof fn lemma_earlier_layers_end_before(l: int, at: int, size: int)
    requires
        0 <= l < at,
        0 <= size,
    ensures
        l * size + size <= at * size,
        0 <= l * size,
{
    assert(l * size + size <= at * size && 0 <= l * size) by (nonlinear_arith)
        requires
            0 <= l,
            l + 1 <= at,
            0 <= size,
    ;
}

proof fn lemma_failing_key_stays(
    start: Projected,
    layout: EncoderLayout,
    keys: Seq<Result<Frames, ErrorView>>,
    values: Seq<Result<Frames, ErrorView>>,
    at: nat,
)
    requires
        rolled_layers(start, layout, keys, values, at).failure is None,
        rolled_layers(start, layout, keys, values, at + 1).failure is Some,
    ensures
        ({
            let size = layout.cache_layer_size();
            let before = rolled_layers(start, layout, keys, values, at);
            let after = rolled_layers(start, layout, keys, values, at + 1);
            &&& after.value == before.value
            &&& after.key.words.len() == before.key.words.len()
            &&& forall|i: int|
                0 <= i < at * size ==> #[trigger] after.key.words[i] == before.key.words[i]
        }),
{
    let size = layout.cache_layer_size();
    assert(at * size >= 0) by (nonlinear_arith);
}

proof fn lemma_words_behind_stay(
    start: Projected,
    layout: EncoderLayout,
    keys: Seq<Result<Frames, ErrorView>>,
    values: Seq<Result<Frames, ErrorView>>,
    n: nat,
)
    ensures
        ({
            let size = layout.cache_layer_size();
            let after = rolled_layers(start, layout, keys, values, n);
            &&& forall|i: int|
                n * size <= i < start.key.words.len() ==> #[trigger] after.key.words[i]
                    == start.key.words[i]
            &&& forall|i: int|
                n * size <= i < start.value.words.len() ==> #[trigger] after.value.words[i]
                    == start.value.words[i]
        }),
    decreases n,
{
    if n > 0 {
        let top = (n - 1) as nat;
        let size = layout.cache_layer_size();
        lemma_words_behind_stay(start, layout, keys, values, top);
        rolling_keeps_the_caches_shape(start, layout, keys, values, top);
        assert(n * size == top * size + size && top * size >= 0) by (nonlinear_arith)
            requires
                n == top + 1,
        ;
        let before = rolled_layers(start, layout, keys, values, top);
        if keys[top as int] is Ok {
            rolled_window_keeps_its_size(
                layer_words(before.key.words, top, size),
                keys[top as int]->Ok_0.data,
            );
        }
        if values[top as int] is Ok {
            rolled_window_keeps_its_size(
                layer_words(before.value.words, top, size),
                values[top as int]->Ok_0.data,
            );
        }
    }
}

proof fn lemma_all_layers_go_in(
    start: Projected,
    layout: EncoderLayout,
    keys: Seq<Result<Frames, ErrorView>>,
    values: Seq<Result<Frames, ErrorView>>,
    n: nat,
)
    requires
        start.failure is None,
    ensures
        rolled_layers(start, layout, keys, values, n).failure is None <==> forall|l: int|
            #![trigger keys[l]]
            #![trigger values[l]]
            0 <= l < n ==> {
                &&& rolled_into(start.key, l as nat, layout, keys[l]).1 is None
                &&& rolled_into(start.value, l as nat, layout, values[l]).1 is None
            },
    decreases n,
{
    if n > 0 {
        let top = (n - 1) as nat;
        lemma_all_layers_go_in(start, layout, keys, values, top);
        if rolled_layers(start, layout, keys, values, top).failure is None {
            lemma_reached_layers(start, layout, keys, values, top);
            assert(keys[top as int] == keys[n - 1]);
        }
    }
}

/// An output goes into a layer of a cache: it could be had, it has frames of the layout's
/// batch and hidden size, as many words as they hold, and the cache has the layer.
pub open spec fn goes_into_layer(
    cache: TensorView,
    layer: int,
    layout: EncoderLayout,
    output: Result<TensorOutput, String>,
) -> bool {
    let size = layout.batch * layout.cache_len * layout.hidden_size;
    &&& output is Ok
    &&& output->Ok_0.shape@.len() == 3
    &&& output->Ok_0.shape@[0] == layout.batch as i64
    &&& output->Ok_0.shape@[2] == layout.hidden_size as i64
    &&& output->Ok_0.data@.len() == layout.batch * (output->Ok_0.shape@[1] as usize)
        * layout.hidden_size
    &&& cache.standard
    &&& layer * size + size <= cache.words.len()
}

proof fn lemma_outputs_go_into_layers(
    cache: TensorView,
    layer: int,
    layout: EncoderLayout,
    kind: Seq<char>,
    outputs: Seq<Result<TensorOutput, String>>,
)
    requires
        0 <= layer < outputs.len(),
    ensures
        rolled_into(cache, layer as nat, layout, extracted(kind, outputs)[layer]).1 is None
            <==> goes_into_layer(cache, layer, layout, outputs[layer]),
{
}

/// The outputs of a run are rolled in exactly where those of all layers go in.
pub proof fn outputs_are_rolled_where_all_go_in(
    key: &mut Tensor,
    value: &mut Tensor,
    layout: EncoderLayout,
    keys: &Vec<Result<TensorOutput, String>>,
    values: &Vec<Result<TensorOutput, String>>,
    r: Result<(), Error>,
)
    requires
        call_ensures(roll_outputs, (key, value, layout, keys, values), r),
        keys@.len() == layout.num_layers,
        values@.len() == layout.num_layers,
    ensures
        r is Ok <==> forall|l: int|
            #![trigger keys@[l]]
            #![trigger values@[l]]
            0 <= l < layout.num_layers ==> {
                &&& goes_into_layer(old(key)@, l, layout, keys@[l])
                &&& goes_into_layer(old(value)@, l, layout, values@[l])
            },
{
    let start = Projected { key: old(key)@, value: old(value)@, failure: None };
    let (kf, vf) = (extracted("key"@, keys@), extracted("value"@, values@));
    lemma_all_layers_go_in(start, layout, kf, vf, layout.num_layers as nat);
    assert forall|l: int| 0 <= l < layout.num_layers implies {
        &&& rolled_into(start.key, l as nat, layout, #[trigger] kf[l]).1 is None
            <==> goes_into_layer(old(key)@, l, layout, keys@[l])
        &&& rolled_into(start.value, l as nat, layout, vf[l]).1 is None <==> goes_into_layer(
            old(value)@,
            l,
            layout,
            values@[l],
        )
    } by {
        lemma_outputs_go_into_layers(old(key)@, l, layout, "key"@, keys@);
        lemma_outputs_go_into_layers(old(value)@, l, layout, "value"@, values@);
    }
    if r is Ok {
        assert forall|l: int|
            #![trigger keys@[l]]
            #![trigger values@[l]]
            0 <= l < layout.num_layers implies {
            &&& goes_into_layer(old(key)@, l, layout, keys@[l])
            &&& goes_into_layer(old(value)@, l, layout, values@[l])
        } by {
            assert(rolled_into(start.key, l as nat, layout, kf[l]).1 is None);
        }
    }
    if forall|l: int|
        #![trigger keys@[l]]
        #![trigger values@[l]]
        0 <= l < layout.num_layers ==> {
            &&& goes_into_layer(old(key)@, l, layout, keys@[l])
            &&& goes_into_layer(old(value)@, l, layout, values@[l])
        } {
        assert forall|l: int|
            #![trigger kf[l]]
            #![trigger vf[l]]
            0 <= l < layout.num_layers implies {
            &&& rolled_into(start.key, l as nat, layout, kf[l]).1 is None
            &&& rolled_into(start.value, l as nat, layout, vf[l]).1 is None
        } by {
            assert(goes_into_layer(old(key)@, l, layout, keys@[l]));
            assert(kf[l] == kf[l]);
        }
    }
}

/// Where a layer's output could not be had and all layers before it go in, that output is
/// reported: the key first, and the value where the key goes in.
pub proof fn the_first_output_that_fails_is_reported(
    key: &mut Tensor,
    value: &mut Tensor,
    layout: EncoderLayout,
    keys: &Vec<Result<TensorOutput, String>>,
    values: &Vec<Result<TensorOutput, String>>,
    r: Result<(), Error>,
    at: int,
)
    requires
        call_ensures(roll_outputs, (key, value, layout, keys, values), r),
        keys@.len() == layout.num_layers,
        values@.len() == layout.num_layers,
        0 <= at < layout.num_layers,
        forall|l: int|
            #![trigger keys@[l]]
            #![trigger values@[l]]
            0 <= l < at ==> {
                &&& goes_into_layer(old(key)@, l, layout, keys@[l])
                &&& goes_into_layer(old(value)@, l, layout, values@[l])
            },
    ensures
        keys@[at] matches Err(e) ==> {
            &&& r is Err
            &&& r->Err_0@ == ErrorView::Model(
                "Failed to extract projected current "@ + "key"@ + " layer "@ + decimal(at as nat)
                    + ": "@ + e@,
            )
        },
        goes_into_layer(old(key)@, at, layout, keys@[at]) ==> (values@[at] matches Err(e) ==> {
            &&& r is Err
            &&& r->Err_0@ == ErrorView::Model(
                "Failed to extract projected current "@ + "value"@ + " layer "@ + decimal(
                    at as nat,
                ) + ": "@ + e@,
            )
        }),
{
    let start = Projected { key: old(key)@, value: old(value)@, failure: None };
    let (kf, vf) = (extracted("key"@, keys@), extracted("value"@, values@));
    lemma_all_layers_go_in(start, layout, kf, vf, at as nat);
    assert forall|l: int|
        #![trigger kf[l]]
        #![trigger vf[l]]
        0 <= l < at implies {
        &&& rolled_into(start.key, l as nat, layout, kf[l]).1 is None
        &&& rolled_into(start.value, l as nat, layout, vf[l]).1 is None
    } by {
        assert(goes_into_layer(old(key)@, l, layout, keys@[l]));
        lemma_outputs_go_into_layers(old(key)@, l, layout, "key"@, keys@);
        lemma_outputs_go_into_layers(old(value)@, l, layout, "value"@, values@);
    }
    let before = rolled_layers(start, layout, kf, vf, at as nat);
    rolling_keeps_the_caches_shape(start, layout, kf, vf, at as nat);
    lemma_sizes_decide(start.key, before.key, at as nat, layout, kf[at]);
    lemma_outputs_go_into_layers(old(key)@, at, layout, "key"@, keys@);
    if rolled_layers(start, layout, kf, vf, (at + 1) as nat).failure is Some {
        lemma_failure_lasts(start, layout, kf, vf, (at + 1) as nat, layout.num_layers as nat);
    }
}

/// What a run left in its two tensors is rolled in exactly where each of them has a block
/// for every layer, and each of the caches has the layers.
pub proof fn slices_are_rolled_where_all_go_in(
    key: &mut Tensor,
    value: &mut Tensor,
    layout: EncoderLayout,
    current_key: &Tensor,
    current_value: &Tensor,
    r: Result<(), Error>,
)
    requires
        call_ensures(roll_slices, (key, value, layout, current_key, current_value), r),
        layout.output_frames <= i64::MAX,
    ensures
        ({
            let size = layout.batch * layout.cache_len * layout.hidden_size;
            let block = layout.batch * layout.output_frames * layout.hidden_size;
            r is Ok <==> forall|l: int|
                0 <= l < layout.num_layers ==> #[trigger] has_block(current_key@, l, block)
                    && has_block(current_value@, l, block) && has_block(old(key)@, l, size)
                    && has_block(old(value)@, l, size)
        }),
{
    let start = Projected { key: old(key)@, value: old(value)@, failure: None };
    let (kf, vf) = (sliced(current_key@, layout), sliced(current_value@, layout));
    let (size, block) = (layout.cache_layer_size(), layout.current_layer_size());
    lemma_all_layers_go_in(start, layout, kf, vf, layout.num_layers as nat);
    assert forall|l: int|
        #![trigger kf[l]]
        #![trigger vf[l]]
        #![trigger has_block(current_key@, l, block as int)]
        0 <= l < layout.num_layers implies {
        &&& rolled_into(start.key, l as nat, layout, kf[l]).1 is None <==> has_block(
            current_key@,
            l,
            block as int,
        ) && has_block(old(key)@, l, size as int)
        &&& rolled_into(start.value, l as nat, layout, vf[l]).1 is None <==> has_block(
            current_value@,
            l,
            block as int,
        ) && has_block(old(value)@, l, size as int)
    } by {
        lemma_slice_goes_into_its_layer(old(key)@, l, layout, current_key@);
        lemma_slice_goes_into_its_layer(old(value)@, l, layout, current_value@);
    }
    if r is Ok {
        assert forall|l: int| 0 <= l < layout.num_layers implies #[trigger] has_block(
            current_key@,
            l,
            block as int,
        ) && has_block(current_value@, l, block as int) && has_block(old(key)@, l, size as int)
            && has_block(old(value)@, l, size as int) by {
            assert(rolled_into(start.key, l as nat, layout, kf[l]).1 is None);
        }
    }
    if forall|l: int|
        0 <= l < layout.num_layers ==> #[trigger] has_block(current_key@, l, block as int)
            && has_block(current_value@, l, block as int) && has_block(old(key)@, l, size as int)
            && has_block(old(value)@, l, size as int) {
        assert forall|l: int|
            #![trigger kf[l]]
            #![trigger vf[l]]
            0 <= l < layout.num_layers implies {
            &&& rolled_into(start.key, l as nat, layout, kf[l]).1 is None
            &&& rolled_into(start.value, l as nat, layout, vf[l]).1 is None
        } by {
            assert(has_block(current_key@, l, block as int));
        }
    }
}

/// The tensor is laid out contiguously, and has block `layer` of that size.
pub open spec fn has_block(t: TensorView, layer: int, size: int) -> bool {
    t.standard && layer * size + size <= t.words.len()
}

proof fn lemma_slice_goes_into_its_layer(
    cache: TensorView,
    layer: int,
    layout: EncoderLayout,
    current: TensorView,
)
    requires
        0 <= layer < layout.num_layers,
        layout.output_frames <= i64::MAX,
    ensures
        rolled_into(cache, layer as nat, layout, sliced(current, layout)[layer]).1 is None
            <==> has_block(current, layer, layout.current_layer_size() as int) && has_block(
            cache,
            layer,
            layout.cache_layer_size() as int,
        ),
{
    let block = layout.current_layer_size();
    assert(layer * block >= 0) by (nonlinear_arith)
        requires
            layer >= 0,
    ;
    assert((layout.output_frames as i64) as usize == layout.output_frames);
    if has_block(current, layer, block as int) {
        assert(layer_words(current.words, layer as nat, block).len() == block);
    }
}

/// What is foreseen of rolling the outputs of a run is what happens.
pub proof fn outputs_roll_as_foreseen(
    key: &Tensor,
    value: &Tensor,
    into_key: &mut Tensor,
    into_value: &mut Tensor,
    layout: EncoderLayout,
    keys: &Vec<Result<TensorOutput, String>>,
    values: &Vec<Result<TensorOutput, String>>,
    foreseen: Option<bool>,
    r: Result<(), Error>,
)
    requires
        call_ensures(foresee_outputs, (key, value, layout, keys, values), foreseen),
        call_ensures(roll_outputs, (into_key, into_value, layout, keys, values), r),
        old(into_key)@ == key@,
        old(into_value)@ == value@,
    ensures
        foreseen matches Some(go_in) ==> (go_in <==> r is Ok),
{
}

/// With one item per batch, what rolling the outputs of a run does is foreseen wherever the
/// sizes are machine numbers.
pub proof fn rolls_of_outputs_are_foreseen(
    key: &Tensor,
    value: &Tensor,
    layout: EncoderLayout,
    keys: &Vec<Result<TensorOutput, String>>,
    values: &Vec<Result<TensorOutput, String>>,
    foreseen: Option<bool>,
)
    requires
        call_ensures(foresee_outputs, (key, value, layout, keys, values), foreseen),
        keys@.len() == layout.num_layers,
        values@.len() == layout.num_layers,
        layout.batch == 1,
        layout.num_layers * (layout.cache_len * layout.hidden_size) <= usize::MAX,
        forall|l: int|
            0 <= l < layout.num_layers && (#[trigger] keys@[l]) is Ok
                ==> keys@[l]->Ok_0.shape@.len() == 3 && (keys@[l]->Ok_0.shape@[1] as usize) * layout.hidden_size <= usize::MAX,
        forall|l: int|
            0 <= l < layout.num_layers && (#[trigger] values@[l]) is Ok
                ==> values@[l]->Ok_0.shape@.len() == 3 && (values@[l]->Ok_0.shape@[1] as usize)
                * layout.hidden_size <= usize::MAX,
    ensures
        foreseen is Some,
{
    assert forall|layer: nat| layer < layout.num_layers implies #[trigger] layer_accepted(
        key@,
        value@,
        layout,
        keys@,
        values@,
        layer,
    ) by {
        let k = keys@[layer as int];
        let v = values@[layer as int];
        if k is Ok {
            lemma_single_items_roll(key@, layer, layout, k->Ok_0.shape@, k->Ok_0.data@.len());
        }
        if v is Ok {
            lemma_single_items_roll(value@, layer, layout, v->Ok_0.shape@, v->Ok_0.data@.len());
        }
    }
}

proof fn lemma_single_items_roll(
    cache: TensorView,
    layer: nat,
    layout: EncoderLayout,
    shape: Seq<i64>,
    len: nat,
)
    requires
        layout.batch == 1,
        layer < layout.num_layers,
        layout.num_layers * (layout.cache_len * layout.hidden_size) <= usize::MAX,
        shape.len() == 3,
        (shape[1] as usize) * layout.hidden_size <= usize::MAX,
    ensures
        roll_accepts(cache.standard, cache.words.len(), layer, layout, shape, len),
{
    let (c, h) = (layout.cache_len as nat, layout.hidden_size as nat);
    let f = (shape[1] as usize) as nat;
    assert(1 * c * h == c * h && 1 * f * h == f * h) by (nonlinear_arith);
    let (n, size) = (layout.num_layers as nat, c * h);
    assert(layer * size + size <= n * size) by (nonlinear_arith)
        requires
            layer + 1 <= n,
    ;
    single_items_always_roll(layout, f);
}

/// Rolling what a run left in two tensors is defined with one item per batch, wherever the
/// sizes of the caches and of the blocks are machine numbers.
pub proof fn slices_of_single_items_can_be_rolled(
    key: &Tensor,
    value: &Tensor,
    layout: EncoderLayout,
    current_key: &Tensor,
    new_key: &[u32],
    current_value: &Tensor,
    new_value: &[u32],
    r: bool,
)
    requires
        call_ensures(
            can_roll_slices,
            (key, value, layout, current_key, new_key, current_value, new_value),
            r,
        ),
        layout.batch == 1,
        layout.output_frames <= i64::MAX,
        layout.num_layers * (layout.cache_len * layout.hidden_size) <= usize::MAX,
        layout.num_layers * (layout.output_frames * layout.hidden_size) <= usize::MAX,
    ensures
        r,
{
    let ck = current_key@.with_words(new_key@);
    let cv = current_value@.with_words(new_value@);
    let (h, o, n) = (
        layout.hidden_size as nat,
        layout.output_frames as nat,
        layout.num_layers as nat,
    );
    assert(1 * o * h == o * h) by (nonlinear_arith);
    let block = o * h;
    assert forall|layer: nat| layer < n implies #[trigger] slice_accepted(key@, layer, layout, ck)
        && slice_accepted(value@, layer, layout, cv) by {
        assert(layer * block + block <= n * block && block <= n * block) by (nonlinear_arith)
            requires
                layer + 1 <= n,
                1 <= n,
        ;
        assert((layout.output_frames as i64) as usize == layout.output_frames);
        lemma_single_items_roll(key@, layer, layout, run_shape(layout), block);
        lemma_single_items_roll(value@, layer, layout, run_shape(layout), block);
    }
    assert(slices_accepted(key@, value@, layout, ck, cv)) by {
        assert forall|layer: nat|
            layer < layout.num_layers && (#[trigger] rolled_slices(
                key@,
                value@,
                layout,
                ck,
                cv,
                layer,
            )).failure is None implies {
            &&& slice_accepted(key@, layer, layout, ck)
            &&& slice_goes_in(key@, layer, layout, ck) ==> slice_accepted(value@, layer, layout, cv)
        } by {
            assert(slice_accepted(key@, layer, layout, ck));
        }
    }
}

} // verus!
