//! What the inputs and outputs of an encoder say about it.

use crate::error::{outcome, Error, ErrorView};
use crate::layers::{
    has_all_layered_projected_cache_inputs, has_all_layered_projected_cache_outputs,
    layered_projected_cache_layer_count, lists_all_inputs, lists_all_outputs, model_counts_layers,
    model_layer_count_is_unique,
};
use crate::layout::{EncoderCacheAbi, EncoderLayout};
use crate::text::{
    contains_name, decimal, i64_values, list_text, lists_name, show_decimal, show_i64s, show_usizes,
    usize_values,
};
use vstd::prelude::*;

verus! {

/// The type of an input or output.
#[derive(Debug)]
pub enum OutletType {
    /// A tensor with those axes; an axis that is not fixed is not positive.
    Tensor(Vec<i64>),
    /// Anything else, as it is shown.
    Other(String),
}

/// A named input or output.
#[derive(Debug)]
pub struct Outlet {
    pub name: String,
    pub dtype: OutletType,
}

/// The outcome `r` with the shape as a sequence.
pub open spec fn shape_outcome(r: Result<Vec<usize>, Error>) -> Result<Seq<usize>, ErrorView> {
    match r {
        Ok(shape) => Ok(shape@),
        Err(e) => Err(e@),
    }
}

/// The shape of `outlet` where it is a tensor of that rank with fixed axes.
pub open spec fn static_shape(outlet: Outlet, expected_rank: nat) -> Result<Seq<usize>, ErrorView> {
    match outlet.dtype {
        OutletType::Other(shown) => Err(
            ErrorView::Model(outlet.name@ + " is not a tensor: "@ + shown@),
        ),
        OutletType::Tensor(shape) => if shape@.len() != expected_rank {
            Err(
                ErrorView::Model(
                    outlet.name@ + " has rank "@ + decimal(shape@.len()) + ", expected "@ + decimal(
                        expected_rank,
                    ) + ": "@ + list_text(i64_values(shape@)),
                ),
            )
        } else if exists|i: int| 0 <= i < shape@.len() && #[trigger] shape@[i] <= 0 {
            Err(
                ErrorView::Model(
                    outlet.name@ + " has non-static shape "@ + list_text(i64_values(shape@))
                        + "; use the fixed-shape encoder variant"@,
                ),
            )
        } else {
            Ok(Seq::new(shape@.len(), |i: int| shape@[i] as usize))
        },
    }
}

/// The shape of `outlet` where it is a tensor of that rank with fixed axes.
pub fn tensor_shape(outlet: &Outlet, expected_rank: usize) -> (r: Result<Vec<usize>, Error>)
    ensures
        shape_outcome(r) == static_shape(*outlet, expected_rank as nat),
{
    match &outlet.dtype {
        OutletType::Other(shown) => {
            let mut m = outlet.name.clone();
            m.append(" is not a tensor: ");
            m.append(shown.as_str());
            Err(Error::Model(m))
        },
        OutletType::Tensor(shape) => {
            if shape.len() != expected_rank {
                let mut m = outlet.name.clone();
                m.append(" has rank ");
                m.append(show_decimal(shape.len() as u128).as_str());
                m.append(", expected ");
                m.append(show_decimal(expected_rank as u128).as_str());
                m.append(": ");
                m.append(show_i64s(shape.as_slice()).as_str());
                return Err(Error::Model(m));
            }
            let mut r: Vec<usize> = Vec::new();
            let mut i: usize = 0;
            while i < shape.len()
                invariant
                    i <= shape@.len(),
                    shape@.len() == expected_rank,
                    outlet.dtype == OutletType::Tensor(*shape),
                    r@ == Seq::new(i as nat, |j: int| shape@[j] as usize),
                    forall|j: int| 0 <= j < i ==> #[trigger] shape@[j] > 0,
                decreases shape@.len() - i,
            {
                if shape[i] <= 0 {
                    let mut m = outlet.name.clone();
                    m.append(" has non-static shape ");
                    m.append(show_i64s(shape.as_slice()).as_str());
                    m.append("; use the fixed-shape encoder variant");
                    assert(shape@[i as int] <= 0);
                    return Err(Error::Model(m));
                }
                r.push(shape[i] as usize);
                i += 1;
            }
            Ok(r)
        },
    }
}

/// The shape of the first outlet with that name, under the conditions of
/// [`static_shape`]; without one, an error that begins with `missing`.
pub open spec fn named_shape(
    outlets: Seq<Outlet>,
    missing: Seq<char>,
    name: Seq<char>,
    expected_rank: nat,
) -> Result<Seq<usize>, ErrorView>
    decreases outlets.len(),
{
    if outlets.len() == 0 {
        Err(ErrorView::Model(missing + name))
    } else if outlets[0].name@ == name {
        static_shape(outlets[0], expected_rank)
    } else {
        named_shape(outlets.skip(1), missing, name, expected_rank)
    }
}

fn find_shape(outlets: &[Outlet], missing: &str, name: &str, expected_rank: usize) -> (r: Result<
    Vec<usize>,
    Error,
>)
    ensures
        shape_outcome(r) == named_shape(outlets@, missing@, name@, expected_rank as nat),
{
    let wanted = name.to_owned();
    let mut i: usize = 0;
    assert(outlets@.skip(0) =~= outlets@);
    while i < outlets.len()
        invariant
            i <= outlets@.len(),
            wanted@ == name@,
            named_shape(outlets@, missing@, name@, expected_rank as nat) == named_shape(
                outlets@.skip(i as int),
                missing@,
                name@,
                expected_rank as nat,
            ),
        decreases outlets@.len() - i,
    {
        assert(outlets@.skip(i as int).skip(1) =~= outlets@.skip(i + 1));
        if outlets[i].name == wanted {
            return tensor_shape(&outlets[i], expected_rank);
        }
        i += 1;
    }
    let mut m = missing.to_owned();
    m.append(name);
    Err(Error::Model(m))
}

/// The shape of the encoder's input of that name.
pub fn input_shape(inputs: &[Outlet], name: &str, expected_rank: usize) -> (r: Result<
    Vec<usize>,
    Error,
>)
    ensures
        shape_outcome(r) == named_shape(
            inputs@,
            "Missing encoder input "@,
            name@,
            expected_rank as nat,
        ),
{
    find_shape(inputs, "Missing encoder input ", name, expected_rank)
}

/// The shape of the encoder's output of that name.
pub fn output_shape(outputs: &[Outlet], name: &str, expected_rank: usize) -> (r: Result<
    Vec<usize>,
    Error,
>)
    ensures
        shape_outcome(r) == named_shape(
            outputs@,
            "Missing encoder output "@,
            name@,
            expected_rank as nat,
        ),
{
    find_shape(outputs, "Missing encoder output ", name, expected_rank)
}

/// The names of the outlets.
pub open spec fn outlet_names(outlets: Seq<Outlet>) -> Seq<String> {
    Seq::new(outlets.len(), |i: int| outlets[i].name)
}

/// Collects the names of the outlets.
pub fn names_of(outlets: &[Outlet]) -> (r: Vec<String>)
    ensures
        r@ == outlet_names(outlets@),
{
    let mut r: Vec<String> = Vec::new();
    let mut i: usize = 0;
    while i < outlets.len()
        invariant
            i <= outlets@.len(),
            r@ == outlet_names(outlets@).take(i as int),
        decreases outlets@.len() - i,
    {
        r.push(outlets[i].name.clone());
        assert(r@ =~= outlet_names(outlets@).take(i + 1));
        i += 1;
    }
    assert(outlet_names(outlets@).take(i as int) =~= outlet_names(outlets@));
    r
}

/// The message about input and output batches that differ.
pub open spec fn batch_message(audio: Seq<usize>, outputs: Seq<usize>) -> Seq<char> {
    "Encoder batch mismatch: audio_signal="@ + list_text(usize_values(audio)) + ", outputs="@
        + list_text(usize_values(outputs))
}

/// The message about raw caches that differ in their layers.
pub open spec fn raw_layers_message(channel: Seq<usize>, time: Seq<usize>) -> Seq<char> {
    "Encoder raw cache layer mismatch: cache_last_channel="@ + list_text(usize_values(channel))
        + ", cache_last_time="@ + list_text(usize_values(time))
}

/// The message about shapes that do not go together.
pub open spec fn inconsistent_message(
    audio: Seq<usize>,
    outputs: Seq<usize>,
    channel: Seq<usize>,
    time: Seq<usize>,
) -> Seq<char> {
    "Encoder cache/output shapes are inconsistent: audio_signal="@ + list_text(usize_values(audio))
        + ", outputs="@ + list_text(usize_values(outputs)) + ", cache_last_channel="@ + list_text(
        usize_values(channel),
    ) + ", cache_last_time="@ + list_text(usize_values(time))
}

/// The layout that the four shapes and the counted layers give, where they go
/// together.
pub open spec fn layout_of_shapes(
    audio: Seq<usize>,
    channel: Seq<usize>,
    time: Seq<usize>,
    outputs: Seq<usize>,
    layers: Option<usize>,
) -> Result<EncoderLayout, ErrorView> {
    if audio[0] != outputs[0] {
        Err(ErrorView::Model(batch_message(audio, outputs)))
    } else if layers is None && channel[0] != time[0] {
        Err(ErrorView::Model(raw_layers_message(channel, time)))
    } else if channel[1] != audio[0] || time[1] != audio[0] || channel[3] != time[2] || outputs[1]
        != channel[3] {
        Err(ErrorView::Model(inconsistent_message(audio, outputs, channel, time)))
    } else {
        Ok(
            EncoderLayout {
                batch: audio[0],
                n_mels: audio[1],
                input_frames: audio[2],
                output_frames: outputs[2],
                num_layers: match layers {
                    Some(n) => n,
                    None => channel[0],
                },
                cache_len: channel[2],
                hidden_size: channel[3],
                time_cache_len: time[3],
            },
        )
    }
}

/// The layout of an encoder with those inputs and outputs, whose names say that
/// about its layers. The first thing that is wrong decides the error.
pub open spec fn inferred_layout(
    inputs: Seq<Outlet>,
    outputs: Seq<Outlet>,
    layers: Result<Option<usize>, ErrorView>,
) -> Result<EncoderLayout, ErrorView> {
    let missing = "Missing encoder input "@;
    match named_shape(inputs, missing, "audio_signal"@, 3) {
        Err(e) => Err(e),
        Ok(audio) => match named_shape(inputs, missing, "cache_last_channel"@, 4) {
            Err(e) => Err(e),
            Ok(channel) => match named_shape(inputs, missing, "cache_last_time"@, 4) {
                Err(e) => Err(e),
                Ok(time) => match named_shape(outputs, "Missing encoder output "@, "outputs"@, 3) {
                    Err(e) => Err(e),
                    Ok(out) => match layers {
                        Err(e) => Err(e),
                        Ok(counted) => layout_of_shapes(audio, channel, time, out, counted),
                    },
                },
            },
        },
    }
}

/// `r` is the layout of an encoder with those inputs and outputs.
pub open spec fn infers_layout(
    inputs: Seq<Outlet>,
    outputs: Seq<Outlet>,
    r: Result<EncoderLayout, ErrorView>,
) -> bool {
    exists|layers: Result<Option<usize>, ErrorView>| #[trigger]
        model_counts_layers(outlet_names(inputs), outlet_names(outputs), layers) && r
            == inferred_layout(inputs, outputs, layers)
}

proof fn lemma_named_shape_rank(
    outlets: Seq<Outlet>,
    missing: Seq<char>,
    name: Seq<char>,
    expected_rank: nat,
)
    ensures
        named_shape(outlets, missing, name, expected_rank) matches Ok(shape) ==> shape.len()
            == expected_rank,
    decreases outlets.len(),
{
    if outlets.len() > 0 && outlets[0].name@ != name {
        lemma_named_shape_rank(outlets.skip(1), missing, name, expected_rank);
    }
}

fn layout_from_shapes(
    audio: &[usize],
    channel: &[usize],
    time: &[usize],
    outputs: &[usize],
    layers: Option<usize>,
) -> (r: Result<EncoderLayout, Error>)
    requires
        audio@.len() == 3,
        channel@.len() == 4,
        time@.len() == 4,
        outputs@.len() == 3,
    ensures
        outcome(r) == layout_of_shapes(audio@, channel@, time@, outputs@, layers),
{
    if audio[0] != outputs[0] {
        let mut m = "Encoder batch mismatch: audio_signal=".to_owned();
        m.append(show_usizes(audio).as_str());
        m.append(", outputs=");
        m.append(show_usizes(outputs).as_str());
        return Err(Error::Model(m));
    }
    if layers.is_none() && channel[0] != time[0] {
        let mut m = "Encoder raw cache layer mismatch: cache_last_channel=".to_owned();
        m.append(show_usizes(channel).as_str());
        m.append(", cache_last_time=");
        m.append(show_usizes(time).as_str());
        return Err(Error::Model(m));
    }
    if channel[1] != audio[0] || time[1] != audio[0] || channel[3] != time[2] || outputs[1]
        != channel[3] {
        let mut m = "Encoder cache/output shapes are inconsistent: audio_signal=".to_owned();
        m.append(show_usizes(audio).as_str());
        m.append(", outputs=");
        m.append(show_usizes(outputs).as_str());
        m.append(", cache_last_channel=");
        m.append(show_usizes(channel).as_str());
        m.append(", cache_last_time=");
        m.append(show_usizes(time).as_str());
        return Err(Error::Model(m));
    }
    Ok(
        EncoderLayout {
            batch: audio[0],
            n_mels: audio[1],
            input_frames: audio[2],
            output_frames: outputs[2],
            num_layers: match layers {
                Some(n) => n,
                None => channel[0],
            },
            cache_len: channel[2],
            hidden_size: channel[3],
            time_cache_len: time[3],
        },
    )
}

/// Infers the layout of an encoder from its inputs and outputs.
pub fn infer_encoder_layout(inputs: &[Outlet], outputs: &[Outlet]) -> (r: Result<
    EncoderLayout,
    Error,
>)
    ensures
        infers_layout(inputs@, outputs@, outcome(r)),
{
    proof {
        lemma_named_shape_rank(inputs@, "Missing encoder input "@, "audio_signal"@, 3);
        lemma_named_shape_rank(inputs@, "Missing encoder input "@, "cache_last_channel"@, 4);
        lemma_named_shape_rank(inputs@, "Missing encoder input "@, "cache_last_time"@, 4);
        lemma_named_shape_rank(outputs@, "Missing encoder output "@, "outputs"@, 3);
    }
    let input_names = names_of(inputs);
    let output_names = names_of(outputs);
    let layers = layered_projected_cache_layer_count(
        input_names.as_slice(),
        output_names.as_slice(),
    );
    let ghost counted = outcome(layers);
    assert(model_counts_layers(outlet_names(inputs@), outlet_names(outputs@), counted));
    let audio = match input_shape(inputs, "audio_signal", 3) {
        Ok(shape) => shape,
        Err(e) => {
            return Err(e);
        },
    };
    let channel = match input_shape(inputs, "cache_last_channel", 4) {
        Ok(shape) => shape,
        Err(e) => {
            return Err(e);
        },
    };
    let time = match input_shape(inputs, "cache_last_time", 4) {
        Ok(shape) => shape,
        Err(e) => {
            return Err(e);
        },
    };
    let out = match output_shape(outputs, "outputs", 3) {
        Ok(shape) => shape,
        Err(e) => {
            return Err(e);
        },
    };
    match layers {
        Err(e) => Err(e),
        Ok(count) => layout_from_shapes(
            audio.as_slice(),
            channel.as_slice(),
            time.as_slice(),
            out.as_slice(),
            count,
        ),
    }
}

/// What an encoder takes and gives.
#[derive(Clone, Copy, Debug, PartialEq, Eq, Structural)]
pub struct EncoderIo {
    pub layout: EncoderLayout,
    pub cache_abi: EncoderCacheAbi,
    pub accepts_length: bool,
    pub has_raw_channel_cache: bool,
    pub outputs_raw_channel_cache: bool,
}

/// What an encoder of that layout with those names takes and gives. Caches per
/// layer come before stacked ones, and a cache that goes in must come out.
pub open spec fn io_of_names(
    inputs: Seq<String>,
    outputs: Seq<String>,
    layout: EncoderLayout,
) -> Result<EncoderIo, ErrorView> {
    let abi = if lists_all_inputs(inputs, layout.num_layers as nat) {
        if lists_all_outputs(outputs, layout.num_layers as nat) {
            Ok(EncoderCacheAbi::ProjectedKvLayered)
        } else {
            Err(
                "Layered projected K/V encoder inputs are present, but projected current K/V outputs are missing"@,
            )
        }
    } else if lists_name(inputs, "cache_last_key"@) && lists_name(inputs, "cache_last_value"@) {
        if lists_name(outputs, "new_cache_last_key"@) && lists_name(
            outputs,
            "new_cache_last_value"@,
        ) {
            Ok(EncoderCacheAbi::ProjectedKvStacked)
        } else {
            Err(
                "Projected K/V encoder inputs are present, but projected K/V outputs are missing"@,
            )
        }
    } else {
        Ok(EncoderCacheAbi::RawChannel)
    };
    match abi {
        Err(message) => Err(ErrorView::Config(message)),
        Ok(cache_abi) => Ok(
            EncoderIo {
                layout,
                cache_abi,
                accepts_length: lists_name(inputs, "length"@),
                has_raw_channel_cache: lists_name(inputs, "cache_last_channel"@),
                outputs_raw_channel_cache: lists_name(outputs, "new_cache_last_channel"@),
            },
        ),
    }
}

/// `r` is what an encoder with those inputs and outputs takes and gives.
pub open spec fn describes_io(
    inputs: Seq<Outlet>,
    outputs: Seq<Outlet>,
    r: Result<EncoderIo, ErrorView>,
) -> bool {
    exists|layout: Result<EncoderLayout, ErrorView>| #[trigger]
        infers_layout(inputs, outputs, layout) && r == match layout {
            Err(e) => Err::<EncoderIo, ErrorView>(e),
            Ok(layout) => io_of_names(outlet_names(inputs), outlet_names(outputs), layout),
        }
}

fn has(names: &[String], name: &str) -> (r: bool)
    ensures
        r == lists_name(names@, name@),
{
    let wanted = name.to_owned();
    contains_name(names, &wanted)
}

impl EncoderIo {
    /// What an encoder of that layout with those names takes and gives.
    pub fn of_names(inputs: &[String], outputs: &[String], layout: EncoderLayout) -> (r: Result<
        EncoderIo,
        Error,
    >)
        ensures
            outcome(r) == io_of_names(inputs@, outputs@, layout),
    {
        let cache_abi = if has_all_layered_projected_cache_inputs(inputs, layout.num_layers) {
            if !has_all_layered_projected_cache_outputs(outputs, layout.num_layers) {
                return Err(
                    Error::Config(
                        "Layered projected K/V encoder inputs are present, but projected current K/V outputs are missing".to_owned(),
                    ),
                );
            }
            EncoderCacheAbi::ProjectedKvLayered
        } else if has(inputs, "cache_last_key") && has(inputs, "cache_last_value") {
            if !(has(outputs, "new_cache_last_key") && has(outputs, "new_cache_last_value")) {
                return Err(
                    Error::Config(
                        "Projected K/V encoder inputs are present, but projected K/V outputs are missing".to_owned(),
                    ),
                );
            }
            EncoderCacheAbi::ProjectedKvStacked
        } else {
            EncoderCacheAbi::RawChannel
        };
        Ok(
            EncoderIo {
                layout,
                cache_abi,
                accepts_length: has(inputs, "length"),
                has_raw_channel_cache: has(inputs, "cache_last_channel"),
                outputs_raw_channel_cache: has(outputs, "new_cache_last_channel"),
            },
        )
    }

    /// What an encoder with those inputs and outputs takes and gives.
    pub fn of_outlets(inputs: &[Outlet], outputs: &[Outlet]) -> (r: Result<EncoderIo, Error>)
        ensures
            describes_io(inputs@, outputs@, outcome(r)),
    {
        let layout = infer_encoder_layout(inputs, outputs);
        let ghost inferred = outcome(layout);
        assert(infers_layout(inputs@, outputs@, inferred));
        match layout {
            Err(e) => Err(e),
            Ok(layout) => {
                let input_names = names_of(inputs);
                let output_names = names_of(outputs);
                EncoderIo::of_names(input_names.as_slice(), output_names.as_slice(), layout)
            },
        }
    }
}

/// The inputs and outputs of an encoder describe it in one way.
pub proof fn encoder_description_is_unique(
    inputs: Seq<Outlet>,
    outputs: Seq<Outlet>,
    r: Result<EncoderIo, ErrorView>,
    s: Result<EncoderIo, ErrorView>,
)
    requires
        describes_io(inputs, outputs, r),
        describes_io(inputs, outputs, s),
    ensures
        r == s,
{
    let a = choose|layout: Result<EncoderLayout, ErrorView>| #[trigger]
        infers_layout(inputs, outputs, layout) && r == match layout {
            Err(e) => Err::<EncoderIo, ErrorView>(e),
            Ok(layout) => io_of_names(outlet_names(inputs), outlet_names(outputs), layout),
        };
    let b = choose|layout: Result<EncoderLayout, ErrorView>| #[trigger]
        infers_layout(inputs, outputs, layout) && s == match layout {
            Err(e) => Err::<EncoderIo, ErrorView>(e),
            Ok(layout) => io_of_names(outlet_names(inputs), outlet_names(outputs), layout),
        };
    let c = choose|layers: Result<Option<usize>, ErrorView>| #[trigger]
        model_counts_layers(outlet_names(inputs), outlet_names(outputs), layers) && a
            == inferred_layout(inputs, outputs, layers);
    let d = choose|layers: Result<Option<usize>, ErrorView>| #[trigger]
        model_counts_layers(outlet_names(inputs), outlet_names(outputs), layers) && b
            == inferred_layout(inputs, outputs, layers);
    model_layer_count_is_unique(outlet_names(inputs), outlet_names(outputs), c, d);
}

/// An outlet has a shape where it is a tensor with that many axes, all of them positive;
/// then the axes are taken over. Else the outlet is named, with what is wrong with it.
pub proof fn fixed_axes_are_taken_over(
    outlet: &Outlet,
    expected_rank: usize,
    r: Result<Vec<usize>, Error>,
)
    requires
        call_ensures(tensor_shape, (outlet, expected_rank), r),
    ensures
        match outlet.dtype {
            OutletType::Other(shown) => r matches Err(e) && e@ == ErrorView::Model(
                outlet.name@ + " is not a tensor: "@ + shown@,
            ),
            OutletType::Tensor(axes) => {
                &&& r is Ok <==> axes@.len() == expected_rank && forall|i: int|
                    0 <= i < axes@.len() ==> #[trigger] axes@[i] > 0
                &&& r matches Ok(shape) ==> {
                    &&& shape@.len() == axes@.len()
                    &&& forall|i: int|
                        0 <= i < shape@.len() ==> #[trigger] shape@[i] == axes@[i] as usize
                }
                &&& axes@.len() != expected_rank ==> r->Err_0@ == ErrorView::Model(
                    outlet.name@ + " has rank "@ + decimal(axes@.len()) + ", expected "@ + decimal(
                        expected_rank as nat,
                    ) + ": "@ + list_text(i64_values(axes@)),
                )
                &&& r is Err && axes@.len() == expected_rank ==> r->Err_0@ == ErrorView::Model(
                    outlet.name@ + " has non-static shape "@ + list_text(i64_values(axes@))
                        + "; use the fixed-shape encoder variant"@,
                )
            },
        },
{
    let result = shape_outcome(r);
    if r is Ok {
        assert(result->Ok_0 == r->Ok_0@);
    }
}

proof fn lemma_first_of_the_name(
    outlets: Seq<Outlet>,
    missing: Seq<char>,
    name: Seq<char>,
    expected_rank: nat,
    at: int,
)
    requires
        0 <= at <= outlets.len(),
        forall|i: int| 0 <= i < at ==> (#[trigger] outlets[i]).name@ != name,
        at < outlets.len() ==> outlets[at].name@ == name,
    ensures
        at < outlets.len() ==> named_shape(outlets, missing, name, expected_rank) == static_shape(
            outlets[at],
            expected_rank,
        ),
        at == outlets.len() ==> named_shape(outlets, missing, name, expected_rank) == Err::<
            Seq<usize>,
            ErrorView,
        >(ErrorView::Model(missing + name)),
    decreases at,
{
    if at > 0 {
        assert(outlets[0].name@ != name);
        let rest = outlets.skip(1);
        assert forall|i: int| 0 <= i < at - 1 implies (#[trigger] rest[i]).name@ != name by {
            assert(rest[i] == outlets[i + 1]);
        }
        if at < outlets.len() {
            assert(rest[at - 1] == outlets[at]);
        }
        lemma_first_of_the_name(rest, missing, name, expected_rank, at - 1);
    }
}

/// The two results are the same shape or the same error.
pub open spec fn same_shape(a: Result<Vec<usize>, Error>, b: Result<Vec<usize>, Error>) -> bool {
    &&& a is Ok <==> b is Ok
    &&& a matches Ok(x) ==> x@ == b->Ok_0@
    &&& a matches Err(x) ==> x@ == b->Err_0@
}

/// The shape of an input or output is that of the first outlet with the name.
pub proof fn the_first_outlet_of_a_name_counts(
    outlets: &[Outlet],
    name: &str,
    expected_rank: usize,
    at: int,
    input: Result<Vec<usize>, Error>,
    output: Result<Vec<usize>, Error>,
    shape: Result<Vec<usize>, Error>,
)
    requires
        call_ensures(input_shape, (outlets, name, expected_rank), input),
        call_ensures(output_shape, (outlets, name, expected_rank), output),
        0 <= at < outlets@.len(),
        outlets@[at].name@ == name@,
        forall|i: int| 0 <= i < at ==> (#[trigger] outlets@[i]).name@ != name@,
        call_ensures(tensor_shape, (&outlets@[at], expected_rank), shape),
    ensures
        same_shape(input, shape),
        same_shape(output, shape),
{
    let rank = expected_rank as nat;
    lemma_first_of_the_name(outlets@, "Missing encoder input "@, name@, rank, at);
    lemma_first_of_the_name(outlets@, "Missing encoder output "@, name@, rank, at);
}

/// An input or output that no outlet is named after is reported as missing.
pub proof fn missing_outlets_are_named(
    outlets: &[Outlet],
    name: &str,
    expected_rank: usize,
    input: Result<Vec<usize>, Error>,
    output: Result<Vec<usize>, Error>,
)
    requires
        call_ensures(input_shape, (outlets, name, expected_rank), input),
        call_ensures(output_shape, (outlets, name, expected_rank), output),
        forall|i: int| 0 <= i < outlets@.len() ==> (#[trigger] outlets@[i]).name@ != name@,
    ensures
        input matches Err(e) && e@ == ErrorView::Model("Missing encoder input "@ + name@),
        output matches Err(e) && e@ == ErrorView::Model("Missing encoder output "@ + name@),
{
    let rank = expected_rank as nat;
    let n = outlets@.len() as int;
    lemma_first_of_the_name(outlets@, "Missing encoder input "@, name@, rank, n);
    lemma_first_of_the_name(outlets@, "Missing encoder output "@, name@, rank, n);
}

/// The names are collected in their order.
pub proof fn names_are_collected_in_order(outlets: &[Outlet], r: Vec<String>)
    requires
        call_ensures(names_of, (outlets,), r),
    ensures
        r@.len() == outlets@.len(),
        forall|i: int| 0 <= i < r@.len() ==> (#[trigger] r@[i])@ == outlets@[i].name@,
{
}

/// The layout comes from the shapes of the features, the two caches and the output, and
/// from the layers that the names count. The first of these that cannot be told decides.
/// Shapes that do not go together are shown.
pub proof fn layouts_come_from_four_shapes(
    inputs: &[Outlet],
    outputs: &[Outlet],
    input_names: &[String],
    output_names: &[String],
    audio: Result<Vec<usize>, Error>,
    channel: Result<Vec<usize>, Error>,
    time: Result<Vec<usize>, Error>,
    out: Result<Vec<usize>, Error>,
    layers: Result<Option<usize>, Error>,
    r: Result<EncoderLayout, Error>,
)
    requires
        call_ensures(infer_encoder_layout, (inputs, outputs), r),
        call_ensures(input_shape, (inputs, "audio_signal", 3usize), audio),
        call_ensures(input_shape, (inputs, "cache_last_channel", 4usize), channel),
        call_ensures(input_shape, (inputs, "cache_last_time", 4usize), time),
        call_ensures(output_shape, (outputs, "outputs", 3usize), out),
        input_names@ == outlet_names(inputs@),
        output_names@ == outlet_names(outputs@),
        call_ensures(
            layered_projected_cache_layer_count,
            (input_names, output_names),
            layers,
        ),
    ensures
        audio is Err ==> r is Err && r->Err_0@ == audio->Err_0@,
        audio is Ok && channel is Err ==> r is Err && r->Err_0@ == channel->Err_0@,
        audio is Ok && channel is Ok && time is Err ==> r is Err && r->Err_0@ == time->Err_0@,
        audio is Ok && channel is Ok && time is Ok && out is Err ==> r is Err && r->Err_0@
            == out->Err_0@,
        audio is Ok && channel is Ok && time is Ok && out is Ok && layers is Err ==> r is Err
            && r->Err_0@ == layers->Err_0@,
        audio is Ok && channel is Ok && time is Ok && out is Ok && layers is Ok ==> {
            let (a, c, t, o) = (audio->Ok_0@, channel->Ok_0@, time->Ok_0@, out->Ok_0@);
            let counted = layers->Ok_0;
            let batches = a[0] == o[0];
            let stacked = counted is Some || c[0] == t[0];
            let consistent = c[1] == a[0] && t[1] == a[0] && c[3] == t[2] && o[1] == c[3];
            let (sa, sc) = (list_text(usize_values(a)), list_text(usize_values(c)));
            let (st, so) = (list_text(usize_values(t)), list_text(usize_values(o)));
            &&& r is Ok <==> batches && stacked && consistent
            &&& r matches Ok(layout) ==> {
                &&& layout.batch == a[0]
                &&& layout.n_mels == a[1]
                &&& layout.input_frames == a[2]
                &&& layout.output_frames == o[2]
                &&& counted matches Some(n) ==> layout.num_layers == n
                &&& counted is None ==> layout.num_layers == c[0]
                &&& layout.cache_len == c[2]
                &&& layout.hidden_size == c[3]
                &&& layout.time_cache_len == t[3]
            }
            &&& !batches ==> r->Err_0@ == ErrorView::Model(
                "Encoder batch mismatch: audio_signal="@ + sa + ", outputs="@ + so,
            )
            &&& batches && !stacked ==> r->Err_0@ == ErrorView::Model(
                "Encoder raw cache layer mismatch: cache_last_channel="@ + sc
                    + ", cache_last_time="@ + st,
            )
            &&& batches && stacked && !consistent ==> r->Err_0@ == ErrorView::Model(
                "Encoder cache/output shapes are inconsistent: audio_signal="@ + sa + ", outputs="@
                    + so + ", cache_last_channel="@ + sc + ", cache_last_time="@ + st,
            )
        },
{
    let (ins, outs) = (outlet_names(inputs@), outlet_names(outputs@));
    let counted = choose|layers: Result<Option<usize>, ErrorView>| #[trigger]
        model_counts_layers(ins, outs, layers) && outcome(r) == inferred_layout(
            inputs@,
            outputs@,
            layers,
        );
    model_layer_count_is_unique(ins, outs, counted, outcome(layers));
}

/// An encoder keeps its cache per layer where every layer has its two inputs, stacked where
/// the two stacked inputs are there, and else as raw channels. A projected cache that goes in
/// must come out. Three more names are looked for, each on its side.
pub proof fn the_names_tell_the_cache(
    inputs: &[String],
    outputs: &[String],
    layout: EncoderLayout,
    layers_in: bool,
    layers_out: bool,
    r: Result<EncoderIo, Error>,
)
    requires
        call_ensures(EncoderIo::of_names, (inputs, outputs, layout), r),
        call_ensures(
            has_all_layered_projected_cache_inputs,
            (inputs, layout.num_layers),
            layers_in,
        ),
        call_ensures(
            has_all_layered_projected_cache_outputs,
            (outputs, layout.num_layers),
            layers_out,
        ),
    ensures
        ({
            let taken = |name: Seq<char>|
                exists|i: int| 0 <= i < inputs@.len() && #[trigger] inputs@[i]@ == name;
            let given = |name: Seq<char>|
                exists|i: int| 0 <= i < outputs@.len() && #[trigger] outputs@[i]@ == name;
            let stacked_in = taken("cache_last_key"@) && taken("cache_last_value"@);
            let stacked_out = given("new_cache_last_key"@) && given("new_cache_last_value"@);
            &&& r is Ok <==> if layers_in {
                layers_out
            } else {
                stacked_in ==> stacked_out
            }
            &&& r matches Ok(io) ==> {
                &&& io.layout == layout
                &&& io.cache_abi is ProjectedKvLayered <==> layers_in
                &&& io.cache_abi is ProjectedKvStacked <==> !layers_in && stacked_in
                &&& io.cache_abi is RawChannel <==> !layers_in && !stacked_in
                &&& io.accepts_length <==> taken("length"@)
                &&& io.has_raw_channel_cache <==> taken("cache_last_channel"@)
                &&& io.outputs_raw_channel_cache <==> given("new_cache_last_channel"@)
            }
            &&& r matches Err(e) ==> e@ == ErrorView::Config(
                if layers_in {
                    "Layered projected K/V encoder inputs are present, but projected current K/V outputs are missing"@
                } else {
                    "Projected K/V encoder inputs are present, but projected K/V outputs are missing"@
                },
            )
        }),
{
}

/// An encoder is described by its layout and its names; where the layout cannot be told,
/// that is the error.
pub proof fn outlets_tell_the_layout_and_the_cache(
    inputs: &[Outlet],
    outputs: &[Outlet],
    input_names: &[String],
    output_names: &[String],
    layout: Result<EncoderLayout, Error>,
    io: Result<EncoderIo, Error>,
    r: Result<EncoderIo, Error>,
)
    requires
        call_ensures(EncoderIo::of_outlets, (inputs, outputs), r),
        call_ensures(infer_encoder_layout, (inputs, outputs), layout),
        input_names@ == outlet_names(inputs@),
        output_names@ == outlet_names(outputs@),
        layout is Ok ==> call_ensures(
            EncoderIo::of_names,
            (input_names, output_names, layout->Ok_0),
            io,
        ),
    ensures
        layout matches Err(e) ==> r is Err && r->Err_0@ == e@,
        layout is Ok ==> (r is Ok <==> io is Ok) && (r is Ok ==> r->Ok_0 == io->Ok_0) && (r is Err
            ==> r->Err_0@ == io->Err_0@),
{
    let expected = match outcome(layout) {
        Err(e) => Err::<EncoderIo, ErrorView>(e),
        Ok(layout) => io_of_names(outlet_names(inputs@), outlet_names(outputs@), layout),
    };
    assert(infers_layout(inputs@, outputs@, outcome(layout)));
    assert(describes_io(inputs@, outputs@, expected));
    encoder_description_is_unique(inputs@, outputs@, outcome(r), expected);
}

} // verus!
