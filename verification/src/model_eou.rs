//! The encoder and decoder networks as the recogniser sees them: what they are given
//! and what becomes of what they give back.

use crate::cache::{zero_lengths, EncoderCache};
use crate::decoder_run::{
    after_decoder_run, decoder_outputs_match, finish_decoder_run, finish_litert_decoder_run,
    DecoderBuffers, DecoderOutputs, LiteRtDecoderReply, STATE_SIZE,
};
use crate::encoder_run::{
    after_encoder_run, encoder_state, finish_encoder_run, has_outputs, outputs_can_be_taken,
    outputs_match, outputs_taken, runs_keep_the_layout, successful_runs_leave_their_outputs,
    EncoderOutputs, EncoderState,
};
use crate::error::{outcome, Error, ErrorView};
use crate::layers::{
    cache_layer_input_name, input_name, names_of_layers, output_name,
    projected_current_output_name,
};
use crate::layout::{EncoderCacheAbi, EncoderLayout};
use crate::litert::{failure_message, LiteRtEncoder, LiteRtPart};
use crate::litert_run::{
    after_litert_run, litert_runs_keep_the_layout, litert_runs_leave_what_was_written,
    reply_matches, reply_rolls, reply_taken, LiteRtEncoderReply,
};
use crate::outlets::EncoderIo;
use crate::tensor::{filled, Tensor};
use crate::text::{decimal, reading_a_decimal_gives_the_number_back};
use vstd::prelude::*;

verus! {

/// The type of the elements of a bound output.
#[derive(Clone, Copy, Debug, PartialEq, Eq, Structural)]
pub enum Element {
    Float,
    Long,
}

/// An output that a run writes to a buffer made beforehand.
#[derive(Debug)]
pub struct OutputBinding {
    pub name: String,
    pub shape: Vec<usize>,
    pub element: Element,
}

/// The mathematical counterpart of [`OutputBinding`].
#[verifier::ext_equal]
pub struct BoundOutput {
    pub name: Seq<char>,
    pub shape: Seq<usize>,
    pub element: Element,
}

impl View for OutputBinding {
    type V = BoundOutput;

    open spec fn view(&self) -> BoundOutput {
        BoundOutput { name: self.name@, shape: self.shape@, element: self.element }
    }
}

/// The bindings in mathematical form.
pub open spec fn bound_outputs(bindings: Seq<OutputBinding>) -> Seq<BoundOutput> {
    Seq::new(bindings.len(), |i: int| bindings[i]@)
}

fn binding(name: &str, shape: Vec<usize>, element: Element) -> (r: OutputBinding)
    ensures
        r@ == (BoundOutput { name: name@, shape: shape@, element }),
{
    OutputBinding { name: name.to_owned(), shape, element }
}

/// The outputs with projected keys and values of the first `n` layers.
pub open spec fn layer_outputs(layout: EncoderLayout, n: nat) -> Seq<BoundOutput>
    decreases n,
{
    if n == 0 {
        Seq::empty()
    } else {
        let shape = seq![layout.batch, layout.output_frames, layout.hidden_size];
        layer_outputs(layout, (n - 1) as nat) + seq![
            BoundOutput {
                name: output_name("key"@, (n - 1) as nat),
                shape,
                element: Element::Float,
            },
            BoundOutput {
                name: output_name("value"@, (n - 1) as nat),
                shape,
                element: Element::Float,
            },
        ]
    }
}

/// The outputs of an encoder with their shapes, in the order in which they are bound.
pub open spec fn encoder_outputs(io: EncoderIo) -> Seq<BoundOutput> {
    let cache = io.layout.cache_shape();
    let float = Element::Float;
    let always = seq![
        BoundOutput { name: "outputs"@, shape: io.layout.output_shape(), element: float },
    ] + (if io.outputs_raw_channel_cache {
        seq![BoundOutput { name: "new_cache_last_channel"@, shape: cache, element: float }]
    } else {
        Seq::empty()
    }) + seq![
        BoundOutput {
            name: "new_cache_last_time"@,
            shape: io.layout.time_shape(),
            element: float,
        },
        BoundOutput {
            name: "new_cache_last_channel_len"@,
            shape: seq![io.layout.batch],
            element: Element::Long,
        },
    ];
    match io.cache_abi {
        EncoderCacheAbi::RawChannel => always,
        EncoderCacheAbi::ProjectedKvStacked => always + seq![
            BoundOutput { name: "new_cache_last_key"@, shape: cache, element: float },
            BoundOutput { name: "new_cache_last_value"@, shape: cache, element: float },
        ],
        EncoderCacheAbi::ProjectedKvLayered => always + layer_outputs(
            io.layout,
            io.layout.num_layers as nat,
        ),
    }
}

/// The shape as a vector.
fn axes3(a: usize, b: usize, c: usize) -> (r: Vec<usize>)
    ensures
        r@ == seq![a, b, c],
{
    let mut r: Vec<usize> = Vec::new();
    r.push(a);
    r.push(b);
    r.push(c);
    assert(r@ =~= seq![a, b, c]);
    r
}

/// The shape as a vector.
fn axes4(a: usize, b: usize, c: usize, d: usize) -> (r: Vec<usize>)
    ensures
        r@ == seq![a, b, c, d],
{
    let mut r = axes3(a, b, c);
    r.push(d);
    assert(r@ =~= seq![a, b, c, d]);
    r
}

fn cache_axes(layout: EncoderLayout) -> (r: Vec<usize>)
    ensures
        r@ == layout.cache_shape(),
{
    axes4(layout.num_layers, layout.batch, layout.cache_len, layout.hidden_size)
}

/// The outputs of an encoder with their shapes, in the order in which they are bound.
pub fn encoder_output_bindings(io: EncoderIo) -> (r: Vec<OutputBinding>)
    ensures
        bound_outputs(r@) == encoder_outputs(io),
{
    let layout = io.layout;
    let mut r: Vec<OutputBinding> = Vec::new();
    r.push(
        binding(
            "outputs",
            axes3(layout.batch, layout.hidden_size, layout.output_frames),
            Element::Float,
        ),
    );
    if io.outputs_raw_channel_cache {
        r.push(binding("new_cache_last_channel", cache_axes(layout), Element::Float));
    }
    r.push(
        binding(
            "new_cache_last_time",
            axes4(layout.num_layers, layout.batch, layout.hidden_size, layout.time_cache_len),
            Element::Float,
        ),
    );
    let mut lengths: Vec<usize> = Vec::new();
    lengths.push(layout.batch);
    assert(lengths@ =~= seq![layout.batch]);
    r.push(binding("new_cache_last_channel_len", lengths, Element::Long));
    let ghost always = encoder_outputs(
        EncoderIo { cache_abi: EncoderCacheAbi::RawChannel, ..io },
    );
    assert(bound_outputs(r@) =~= always);
    match io.cache_abi {
        EncoderCacheAbi::RawChannel => {},
        EncoderCacheAbi::ProjectedKvStacked => {
            r.push(binding("new_cache_last_key", cache_axes(layout), Element::Float));
            r.push(binding("new_cache_last_value", cache_axes(layout), Element::Float));
            assert(bound_outputs(r@) =~= encoder_outputs(io));
        },
        EncoderCacheAbi::ProjectedKvLayered => {
            let mut layer: usize = 0;
            assert(always + layer_outputs(layout, 0) =~= always);
            while layer < layout.num_layers
                invariant
                    layer <= layout.num_layers,
                    bound_outputs(r@) == always + layer_outputs(layout, layer as nat),
                decreases layout.num_layers - layer,
            {
                let ghost before = r@;
                let key = projected_current_output_name("key", layer);
                let value = projected_current_output_name("value", layer);
                r.push(
                    OutputBinding {
                        name: key,
                        shape: axes3(layout.batch, layout.output_frames, layout.hidden_size),
                        element: Element::Float,
                    },
                );
                r.push(
                    OutputBinding {
                        name: value,
                        shape: axes3(layout.batch, layout.output_frames, layout.hidden_size),
                        element: Element::Float,
                    },
                );
                proof {
                    let n = before.len() as int;
                    let pair = seq![r@[n]@, r@[n + 1]@];
                    assert(bound_outputs(r@) =~= bound_outputs(before) + pair);
                    assert(layer_outputs(layout, (layer + 1) as nat) =~= layer_outputs(
                        layout,
                        layer as nat,
                    ) + pair);
                    assert(bound_outputs(r@) =~= always + layer_outputs(
                        layout,
                        (layer + 1) as nat,
                    ));
                }
                layer += 1;
            }
        },
    }
    r
}

/// The outputs of the decoder with their shapes, in the order in which they are bound.
pub open spec fn decoder_outputs(vocab_size: usize) -> Seq<BoundOutput> {
    let state = seq![1usize, 1usize, STATE_SIZE];
    seq![
        BoundOutput {
            name: "outputs"@,
            shape: seq![1usize, 1usize, 1usize, vocab_size],
            element: Element::Float,
        },
        BoundOutput { name: "output_states_1"@, shape: state, element: Element::Float },
        BoundOutput { name: "output_states_2"@, shape: state, element: Element::Float },
    ]
}

/// The outputs of the decoder with their shapes, in the order in which they are bound.
pub fn decoder_output_bindings(vocab_size: usize) -> (r: Vec<OutputBinding>)
    ensures
        bound_outputs(r@) == decoder_outputs(vocab_size),
{
    let mut r: Vec<OutputBinding> = Vec::new();
    r.push(binding("outputs", axes4(1, 1, 1, vocab_size), Element::Float));
    r.push(binding("output_states_1", axes3(1, 1, STATE_SIZE), Element::Float));
    r.push(binding("output_states_2", axes3(1, 1, STATE_SIZE), Element::Float));
    assert(bound_outputs(r@) =~= decoder_outputs(vocab_size));
    r
}

/// What is bound to an input of the encoder.
#[derive(Clone, Copy, Debug, PartialEq, Eq, Structural)]
pub enum EncoderInput {
    Features,
    Length,
    ChannelCache,
    KeyCache,
    ValueCache,
    /// One layer of the key cache.
    KeyLayer(usize),
    /// One layer of the value cache.
    ValueLayer(usize),
    TimeCache,
    CacheLengths,
}

/// An input that is bound before a run.
#[derive(Debug)]
pub struct InputBinding {
    pub name: String,
    pub source: EncoderInput,
}

/// The bindings in mathematical form.
pub open spec fn bound_inputs(bindings: Seq<InputBinding>) -> Seq<(Seq<char>, EncoderInput)> {
    Seq::new(bindings.len(), |i: int| (bindings[i].name@, bindings[i].source))
}

/// The inputs with cached keys and values of the first `n` layers.
pub open spec fn layer_inputs(n: nat) -> Seq<(Seq<char>, EncoderInput)>
    decreases n,
{
    if n == 0 {
        Seq::empty()
    } else {
        let layer = (n - 1) as nat;
        layer_inputs(layer) + seq![
            (input_name("key"@, layer), EncoderInput::KeyLayer(layer as usize)),
            (input_name("value"@, layer), EncoderInput::ValueLayer(layer as usize)),
        ]
    }
}

/// The inputs of an encoder, in the order in which they are bound.
pub open spec fn encoder_inputs(io: EncoderIo) -> Seq<(Seq<char>, EncoderInput)> {
    seq![("audio_signal"@, EncoderInput::Features)] + (if io.accepts_length {
        seq![("length"@, EncoderInput::Length)]
    } else {
        Seq::empty()
    }) + (if io.has_raw_channel_cache {
        seq![("cache_last_channel"@, EncoderInput::ChannelCache)]
    } else {
        Seq::empty()
    }) + (match io.cache_abi {
        EncoderCacheAbi::RawChannel => Seq::empty(),
        EncoderCacheAbi::ProjectedKvStacked => seq![
            ("cache_last_key"@, EncoderInput::KeyCache),
            ("cache_last_value"@, EncoderInput::ValueCache),
        ],
        EncoderCacheAbi::ProjectedKvLayered => layer_inputs(io.layout.num_layers as nat),
    }) + seq![
        ("cache_last_time"@, EncoderInput::TimeCache),
        ("cache_last_channel_len"@, EncoderInput::CacheLengths),
    ]
}

fn input(name: &str, source: EncoderInput) -> (r: InputBinding)
    ensures
        r.name@ == name@,
        r.source == source,
{
    InputBinding { name: name.to_owned(), source }
}

/// The inputs of an encoder, in the order in which they are bound.
pub fn encoder_input_bindings(io: EncoderIo) -> (r: Vec<InputBinding>)
    ensures
        bound_inputs(r@) == encoder_inputs(io),
{
    let mut r: Vec<InputBinding> = Vec::new();
    r.push(input("audio_signal", EncoderInput::Features));
    if io.accepts_length {
        r.push(input("length", EncoderInput::Length));
    }
    if io.has_raw_channel_cache {
        r.push(input("cache_last_channel", EncoderInput::ChannelCache));
    }
    let ghost front = bound_inputs(r@);
    let ghost last = seq![
        ("cache_last_time"@, EncoderInput::TimeCache),
        ("cache_last_channel_len"@, EncoderInput::CacheLengths),
    ];
    let ghost middle = match io.cache_abi {
        EncoderCacheAbi::RawChannel => Seq::<(Seq<char>, EncoderInput)>::empty(),
        EncoderCacheAbi::ProjectedKvStacked => seq![
            ("cache_last_key"@, EncoderInput::KeyCache),
            ("cache_last_value"@, EncoderInput::ValueCache),
        ],
        EncoderCacheAbi::ProjectedKvLayered => layer_inputs(io.layout.num_layers as nat),
    };
    match io.cache_abi {
        EncoderCacheAbi::RawChannel => {
            assert(bound_inputs(r@) =~= front + middle);
        },
        EncoderCacheAbi::ProjectedKvStacked => {
            r.push(input("cache_last_key", EncoderInput::KeyCache));
            r.push(input("cache_last_value", EncoderInput::ValueCache));
            assert(bound_inputs(r@) =~= front + middle);
        },
        EncoderCacheAbi::ProjectedKvLayered => {
            let mut layer: usize = 0;
            assert(front + layer_inputs(0) =~= front);
            while layer < io.layout.num_layers
                invariant
                    layer <= io.layout.num_layers,
                    bound_inputs(r@) == front + layer_inputs(layer as nat),
                decreases io.layout.num_layers - layer,
            {
                let ghost before = r@;
                let key = cache_layer_input_name("key", layer);
                let value = cache_layer_input_name("value", layer);
                r.push(InputBinding { name: key, source: EncoderInput::KeyLayer(layer) });
                r.push(InputBinding { name: value, source: EncoderInput::ValueLayer(layer) });
                proof {
                    let n = before.len() as int;
                    let pair = seq![(r@[n].name@, r@[n].source), (r@[n + 1].name@, r@[n + 1].source)];
                    assert(bound_inputs(r@) =~= bound_inputs(before) + pair);
                    assert(layer_inputs((layer + 1) as nat) =~= layer_inputs(layer as nat) + pair);
                    assert(bound_inputs(r@) =~= front + layer_inputs((layer + 1) as nat));
                }
                layer += 1;
            }
        },
    }
    let ghost before = r@;
    r.push(input("cache_last_time", EncoderInput::TimeCache));
    r.push(input("cache_last_channel_len", EncoderInput::CacheLengths));
    proof {
        assert(bound_inputs(r@) =~= bound_inputs(before) + last);
        assert(front + middle + last =~= encoder_inputs(io));
    }
    r
}

/// What is bound to an input of the decoder.
#[derive(Clone, Copy, Debug, PartialEq, Eq, Structural)]
pub enum DecoderInput {
    /// One frame of the encoder's output.
    Frame,
    /// The last token that was emitted.
    Token,
    TargetLength,
    StateH,
    StateC,
}

/// The inputs of the decoder, in the order in which they are bound.
pub open spec fn decoder_inputs() -> Seq<(Seq<char>, DecoderInput)> {
    seq![
        ("encoder_outputs"@, DecoderInput::Frame),
        ("targets"@, DecoderInput::Token),
        ("target_length"@, DecoderInput::TargetLength),
        ("input_states_1"@, DecoderInput::StateH),
        ("input_states_2"@, DecoderInput::StateC),
    ]
}

/// The inputs of the decoder, in the order in which they are bound.
pub fn decoder_input_bindings() -> (r: Vec<(&'static str, DecoderInput)>)
    ensures
        Seq::new(r@.len(), |i: int| (r@[i].0@, r@[i].1)) == decoder_inputs(),
{
    let mut r: Vec<(&'static str, DecoderInput)> = Vec::new();
    r.push(("encoder_outputs", DecoderInput::Frame));
    r.push(("targets", DecoderInput::Token));
    r.push(("target_length", DecoderInput::TargetLength));
    r.push(("input_states_1", DecoderInput::StateH));
    r.push(("input_states_2", DecoderInput::StateC));
    assert(Seq::new(r@.len(), |i: int| (r@[i].0@, r@[i].1)) =~= decoder_inputs());
    r
}

/// What a model directory turned out to hold, once its networks have been opened.
#[derive(Clone, Copy, Debug, PartialEq, Eq, Structural)]
pub enum ModelSource {
    /// Both networks run in LiteRT. Either may have turned out to be unavailable.
    FullLiteRt { encoder: Option<LiteRtEncoder>, has_decoder: bool },
    /// Both networks are ONNX graphs, and the encoder may have a LiteRT twin.
    Onnx { io: EncoderIo, litert_encoder: Option<LiteRtEncoder> },
}

impl ModelSource {
    /// The buffers of the model can be addressed, where there is a model.
    pub open spec fn is_addressable(self) -> bool {
        match self {
            ModelSource::FullLiteRt { encoder, has_decoder } => encoder is Some && has_decoder
                ==> encoder->0.layout.model_is_addressable(),
            ModelSource::Onnx { io, .. } => io.layout.model_is_addressable(),
        }
    }

    /// `r` is the model that the directory holds, or why it holds none.
    pub open spec fn gives(self, r: Result<ParakeetEOUModel, Error>) -> bool {
        match self {
            ModelSource::FullLiteRt { encoder, has_decoder } => {
                &&& r is Ok <==> encoder is Some && has_decoder
                &&& encoder is None ==> r->Err_0@ == ErrorView::Config(
                    "Full LiteRT model selected, but LiteRT encoder API is unavailable"@,
                )
                &&& encoder is Some && !has_decoder ==> r->Err_0@ == ErrorView::Config(
                    "Full LiteRT model selected, but LiteRT decoder API is unavailable"@,
                )
                &&& r matches Ok(model) ==> {
                    &&& model.wf() && model.is_fresh()
                    &&& model.full_litert
                    &&& model.litert_encoder == encoder
                    &&& model.io == (EncoderIo {
                        layout: encoder->0.layout,
                        cache_abi: encoder->0.cache_abi,
                        accepts_length: false,
                        has_raw_channel_cache: true,
                        outputs_raw_channel_cache: true,
                    })
                }
            },
            ModelSource::Onnx { io, litert_encoder } => r matches Ok(model) && {
                &&& model.wf() && model.is_fresh()
                &&& !model.full_litert
                &&& model.io == io
                &&& model.litert_encoder == (if io.cache_abi == EncoderCacheAbi::RawChannel {
                    litert_encoder
                } else {
                    None
                })
            },
        }
    }
}

/// Whether the LiteRT twin of an ONNX encoder is looked for: only one that keeps its
/// context in raw channel caches can be replaced.
pub fn wants_litert_encoder(io: EncoderIo) -> (r: bool)
    ensures
        r == (io.cache_abi == EncoderCacheAbi::RawChannel),
{
    io.cache_abi == EncoderCacheAbi::RawChannel
}

/// The encoder and decoder networks of the recogniser.
pub struct ParakeetEOUModel {
    pub io: EncoderIo,
    /// The LiteRT encoder that runs in place of the ONNX one.
    pub litert_encoder: Option<LiteRtEncoder>,
    /// Both networks run in LiteRT.
    pub full_litert: bool,
    /// The length that the encoder is told, one value per batch item.
    pub encoder_length: Vec<i64>,
    /// The keys that the last LiteRT run projected.
    pub litert_projected_current_key: Tensor,
    /// The values that the last LiteRT run projected.
    pub litert_projected_current_value: Tensor,
    /// The number of tokens that the decoder is given.
    pub decoder_target_length: Vec<i32>,
}

/// What a run of the encoder gave.
pub enum EncoderReply<'a> {
    Onnx(EncoderOutputs),
    LiteRt(LiteRtEncoderReply<'a>),
}

/// What a run of the decoder gave.
pub enum DecoderReply<'a> {
    Onnx(DecoderOutputs),
    LiteRt(LiteRtDecoderReply<'a>),
}

impl ParakeetEOUModel {
    /// The model can be run: whatever does not run in LiteRT is an ONNX graph, and the
    /// buffers have the shapes that the layout gives them.
    pub open spec fn wf(self) -> bool {
        &&& self.io.layout.model_is_addressable()
        &&& self.full_litert ==> self.litert_encoder is Some
        &&& self.encoder_length@.len() == self.io.layout.batch
        &&& self.litert_projected_current_key@.is_dense(self.io.layout.current_shape())
        &&& self.litert_projected_current_value@.is_dense(self.io.layout.current_shape())
        &&& self.decoder_target_length@ == seq![1i32]
    }

    /// The model is new: no run has left anything in its buffers.
    pub open spec fn is_fresh(self) -> bool {
        let layout = self.io.layout;
        &&& self.encoder_length@ == Seq::new(layout.batch as nat, |i: int| 0i64)
        &&& self.litert_projected_current_key@ == filled(layout.current_shape(), 0)
        &&& self.litert_projected_current_value@ == filled(layout.current_shape(), 0)
        &&& self.decoder_target_length@ == seq![1i32]
    }

    fn with_buffers(
        io: EncoderIo,
        litert_encoder: Option<LiteRtEncoder>,
        full_litert: bool,
    ) -> (r: ParakeetEOUModel)
        requires
            io.layout.model_is_addressable(),
            full_litert ==> litert_encoder is Some,
        ensures
            r.wf(),
            r.is_fresh(),
            r.io == io,
            r.litert_encoder == litert_encoder,
            r.full_litert == full_litert,
    {
        let layout = io.layout;
        let shape = [layout.num_layers, layout.batch, layout.output_frames, layout.hidden_size];
        assert(shape@ =~= layout.current_shape());
        let mut target: Vec<i32> = Vec::new();
        target.push(1);
        assert(target@ =~= seq![1i32]);
        ParakeetEOUModel {
            io,
            litert_encoder,
            full_litert,
            encoder_length: zero_lengths(layout.batch),
            litert_projected_current_key: Tensor::new(&shape),
            litert_projected_current_value: Tensor::new(&shape),
            decoder_target_length: target,
        }
    }

    /// The model that a directory holds. A full LiteRT model takes no length and keeps
    /// a raw channel cache; one whose encoder or decoder is unavailable is refused. The
    /// LiteRT twin of an ONNX encoder is used only where the encoder can be replaced.
    pub fn from_pretrained(source: ModelSource) -> (r: Result<ParakeetEOUModel, Error>)
        requires
            source.is_addressable(),
        ensures
            source.gives(r),
    {
        match source {
            ModelSource::FullLiteRt { encoder, has_decoder } => {
                let backend = match encoder {
                    Some(backend) => backend,
                    None => {
                        return Err(
                            Error::Config(
                                "Full LiteRT model selected, but LiteRT encoder API is unavailable".to_owned(),
                            ),
                        );
                    },
                };
                if !has_decoder {
                    return Err(
                        Error::Config(
                            "Full LiteRT model selected, but LiteRT decoder API is unavailable".to_owned(),
                        ),
                    );
                }
                let io = EncoderIo {
                    layout: backend.encoder_layout(),
                    cache_abi: backend.encoder_cache_abi(),
                    accepts_length: false,
                    has_raw_channel_cache: true,
                    outputs_raw_channel_cache: true,
                };
                Ok(ParakeetEOUModel::with_buffers(io, encoder, true))
            },
            ModelSource::Onnx { io, litert_encoder } => {
                let twin = if wants_litert_encoder(io) {
                    litert_encoder
                } else {
                    None
                };
                Ok(ParakeetEOUModel::with_buffers(io, twin, false))
            },
        }
    }

    /// The layout of the encoder.
    pub fn encoder_layout(&self) -> (r: EncoderLayout)
        ensures
            r == self.io.layout,
    {
        self.io.layout
    }

    /// The files with the profiles of the two sessions, the encoder's first. A session
    /// that is not open, or that wrote no profile, adds none.
    pub fn end_profiling(encoder: Option<String>, decoder: Option<String>) -> (r: Vec<String>)
        ensures
            r@ == profile(encoder) + profile(decoder),
    {
        let ghost first = profile(encoder);
        let ghost second = profile(decoder);
        let mut paths: Vec<String> = Vec::new();
        if let Some(path) = encoder {
            if !path.as_str().is_empty() {
                paths.push(path);
            }
        }
        assert(paths@ =~= first);
        if let Some(path) = decoder {
            if !path.as_str().is_empty() {
                paths.push(path);
            }
        }
        assert(paths@ =~= first + second);
        paths
    }

    /// Starts a run of the ONNX encoder on `length` frames, and gives the inputs that
    /// are to be bound for it.
    pub fn begin_encoder_run(&mut self, length: i64) -> (r: Vec<InputBinding>)
        requires
            old(self).wf(),
            old(self).litert_encoder is None,
            old(self).io.layout.batch > 0,
        ensures
            bound_inputs(r@) == encoder_inputs(old(self).io),
            final(self).wf(),
            final(self).encoder_length@ == old(self).encoder_length@.update(0, length),
            final(self).io == old(self).io,
            final(self).litert_encoder == old(self).litert_encoder,
            final(self).full_litert == old(self).full_litert,
            final(self).litert_projected_current_key == old(self).litert_projected_current_key,
            final(self).litert_projected_current_value
                == old(self).litert_projected_current_value,
            final(self).decoder_target_length == old(self).decoder_target_length,
    {
        self.encoder_length.set(0, length);
        encoder_input_bindings(self.io)
    }

    /// The reply is one of the encoder that the model runs, and the run can have given it.
    pub open spec fn accepts_encoder_reply(
        self,
        cache: EncoderCache,
        out: Tensor,
        reply: EncoderReply,
    ) -> bool {
        match reply {
            EncoderReply::LiteRt(reply) => {
                &&& self.litert_encoder is Some
                &&& reply_matches(
                    self.litert_encoder->0,
                    encoder_state(out, cache),
                    self.litert_projected_current_key@,
                    self.litert_projected_current_value@,
                    reply,
                )
                &&& reply_rolls(
                    self.litert_encoder->0,
                    encoder_state(out, cache),
                    self.litert_projected_current_key@,
                    self.litert_projected_current_value@,
                    reply,
                )
            },
            EncoderReply::Onnx(outputs) => {
                &&& self.litert_encoder is None
                &&& outputs_match(self.io, encoder_state(out, cache), outputs)
            },
        }
    }

    /// Takes what a run of the encoder gave into the caches and the output buffer, and
    /// gives the number of encoded frames.
    pub fn run_encoder_into(
        &mut self,
        cache: &mut EncoderCache,
        encoder_out: &mut Tensor,
        reply: EncoderReply,
    ) -> (r: Result<usize, Error>)
        requires
            old(self).wf(),
            old(self).accepts_encoder_reply(*old(cache), *old(encoder_out), reply),
        ensures
            ({
                let (after, result) = after_encoder_reply(
                    *old(self),
                    encoder_state(*old(encoder_out), *old(cache)),
                    reply,
                );
                &&& encoder_state(*final(encoder_out), *final(cache)) == after
                &&& outcome(r) == result
            }),
            match reply {
                EncoderReply::LiteRt(reply) => {
                    let after = after_litert_run(
                        old(self).litert_encoder->0,
                        encoder_state(*old(encoder_out), *old(cache)),
                        old(self).litert_projected_current_key@,
                        old(self).litert_projected_current_value@,
                        reply,
                    );
                    &&& final(self).litert_projected_current_key@ == after.current_key
                    &&& final(self).litert_projected_current_value@ == after.current_value
                },
                EncoderReply::Onnx(_) => *final(self) == *old(self),
            },
            final(self).wf(),
            final(self).io == old(self).io,
            final(self).litert_encoder == old(self).litert_encoder,
            final(self).full_litert == old(self).full_litert,
            final(self).encoder_length == old(self).encoder_length,
            final(self).decoder_target_length == old(self).decoder_target_length,
    {
        match reply {
            EncoderReply::LiteRt(reply) => {
                match self.litert_encoder {
                    Some(encoder) => encoder.finish_run(
                        cache,
                        encoder_out,
                        &mut self.litert_projected_current_key,
                        &mut self.litert_projected_current_value,
                        reply,
                    ),
                    None => Ok(0),
                }
            },
            EncoderReply::Onnx(outputs) => finish_encoder_run(self.io, cache, encoder_out, &outputs),
        }
    }

    /// The reply is one of the decoder that the model runs, and the run can have given it.
    pub open spec fn accepts_decoder_reply(self, b: DecoderBuffers, reply: DecoderReply) -> bool {
        match reply {
            DecoderReply::LiteRt(reply) => {
                &&& self.full_litert
                &&& b.logits.standard && b.logits.words.len() == reply.logits@.len()
                &&& b.state_h.standard && b.state_h.words.len() == reply.state_h@.len()
                &&& b.state_c.standard && b.state_c.words.len() == reply.state_c@.len()
            },
            DecoderReply::Onnx(outputs) => !self.full_litert && decoder_outputs_match(b, outputs),
        }
    }

    /// Takes what a run of the decoder gave into the buffers for the logits and the new
    /// states.
    pub fn run_decoder_into(
        &self,
        logits: &mut Tensor,
        new_h: &mut Tensor,
        new_c: &mut Tensor,
        reply: DecoderReply,
    ) -> (r: Result<(), Error>)
        requires
            self.accepts_decoder_reply(
                (DecoderBuffers {
                    logits: old(logits)@,
                    state_h: old(new_h)@,
                    state_c: old(new_c)@,
                }),
                reply,
            ),
        ensures
            ({
                let b = DecoderBuffers {
                    logits: old(logits)@,
                    state_h: old(new_h)@,
                    state_c: old(new_c)@,
                };
                let (after, result) = after_decoder_reply(b, reply);
                &&& final(logits)@ == after.logits
                &&& final(new_h)@ == after.state_h
                &&& final(new_c)@ == after.state_c
                &&& outcome(r) == result
            }),
    {
        match reply {
            DecoderReply::LiteRt(reply) => finish_litert_decoder_run(logits, new_h, new_c, reply),
            DecoderReply::Onnx(outputs) => finish_decoder_run(logits, new_h, new_c, &outputs),
        }
    }
}

/// What an encoder run leaves behind, and the number of frames that it encoded.
pub open spec fn after_encoder_reply(
    model: ParakeetEOUModel,
    s: EncoderState,
    reply: EncoderReply,
) -> (EncoderState, Result<usize, ErrorView>) {
    match reply {
        EncoderReply::LiteRt(reply) => {
            let after = after_litert_run(
                model.litert_encoder->0,
                s,
                model.litert_projected_current_key@,
                model.litert_projected_current_value@,
                reply,
            );
            (after.state, after.result)
        },
        EncoderReply::Onnx(outputs) => after_encoder_run(model.io, s, outputs),
    }
}

/// Buffers and caches that fit a layout still fit it after an encoder run.
pub proof fn encoder_replies_keep_the_layout(
    model: ParakeetEOUModel,
    layout: EncoderLayout,
    cache: EncoderCache,
    out: Tensor,
    reply: EncoderReply,
)
    requires
        encoder_state(out, cache).fits(layout),
        model.accepts_encoder_reply(cache, out, reply),
    ensures
        after_encoder_reply(model, encoder_state(out, cache), reply).0.fits(layout),
{
    let s = encoder_state(out, cache);
    match reply {
        EncoderReply::LiteRt(reply) => {
            litert_runs_keep_the_layout(
                model.litert_encoder->0,
                layout,
                s,
                model.litert_projected_current_key@,
                model.litert_projected_current_value@,
                reply,
            );
        },
        EncoderReply::Onnx(outputs) => {
            runs_keep_the_layout(model.io, layout, s, outputs);
        },
    }
}

/// Buffers of a decoder run keep their shapes and sizes.
pub proof fn decoder_replies_keep_the_buffers(
    model: ParakeetEOUModel,
    b: DecoderBuffers,
    reply: DecoderReply,
)
    requires
        model.accepts_decoder_reply(b, reply),
    ensures
        ({
            let after = after_decoder_reply(b, reply).0;
            &&& after.logits == b.logits.with_words(after.logits.words)
            &&& after.logits.words.len() == b.logits.words.len()
            &&& after.state_h == b.state_h.with_words(after.state_h.words)
            &&& after.state_h.words.len() == b.state_h.words.len()
            &&& after.state_c == b.state_c.with_words(after.state_c.words)
            &&& after.state_c.words.len() == b.state_c.words.len()
        }),
{
}

/// What a decoder run leaves behind, and what went wrong. The callback of the LiteRT
/// decoder writes in place, so its buffers are taken over even where it fails.
pub open spec fn after_decoder_reply(b: DecoderBuffers, reply: DecoderReply) -> (
    DecoderBuffers,
    Result<(), ErrorView>,
) {
    match reply {
        DecoderReply::Onnx(outputs) => after_decoder_run(b, outputs),
        DecoderReply::LiteRt(reply) => (
            DecoderBuffers {
                logits: b.logits.with_words(reply.logits@),
                state_h: b.state_h.with_words(reply.state_h@),
                state_c: b.state_c.with_words(reply.state_c@),
            },
            if reply.ok {
                Ok(())
            } else {
                Err(
                    ErrorView::Model(
                        failure_message(
                            "LiteRT "@ + LiteRtPart::Decoder.name_text() + " run failed: "@,
                            reply.message@,
                        ),
                    ),
                )
            },
        ),
    }
}

/// The file with the profile of a session, where there is one.
pub open spec fn profile(path: Option<String>) -> Seq<String> {
    match path {
        Some(path) => if path@.len() == 0 {
            Seq::empty()
        } else {
            seq![path]
        },
        None => Seq::empty(),
    }
}

proof fn lemma_layer_inputs(n: nat, layer: nat)
    requires
        layer < n,
        n <= usize::MAX,
    ensures
        layer_inputs(n).len() == 2 * n,
        layer_inputs(n)[2 * layer as int] == (
            "cache_key_layer_"@ + decimal(layer),
            EncoderInput::KeyLayer(layer as usize),
        ),
        layer_inputs(n)[2 * layer as int + 1] == (
            "cache_value_layer_"@ + decimal(layer),
            EncoderInput::ValueLayer(layer as usize),
        ),
    decreases n,
{
    let top = (n - 1) as nat;
    lemma_layer_inputs_len(n);
    lemma_layer_inputs_len(top);
    names_of_layers(top);
    if layer < top {
        lemma_layer_inputs(top, layer);
    }
}

proof fn lemma_layer_inputs_len(n: nat)
    ensures
        layer_inputs(n).len() == 2 * n,
    decreases n,
{
    if n > 0 {
        lemma_layer_inputs_len((n - 1) as nat);
    }
}

/// Every input of an encoder is bound under its own name to what belongs there: the
/// features; the length and the channel cache where the encoder takes them; the caches of
/// keys and values as a whole, or layer by layer, where it has them; the time cache and the
/// cache lengths. Nothing else is bound.
pub proof fn inputs_are_bound_to_what_belongs_there(io: EncoderIo, r: Vec<InputBinding>)
    requires
        call_ensures(encoder_input_bindings, (io,), r),
    ensures
        ({
            let bound = |i: int, name: Seq<char>, source: EncoderInput|
                r@[i].name@ == name && r@[i].source == source;
            let length = if io.accepts_length {
                1int
            } else {
                0
            };
            let channel = if io.has_raw_channel_cache {
                1int
            } else {
                0
            };
            let front = 1 + length + channel;
            let n = r@.len() as int;
            &&& bound(0, "audio_signal"@, EncoderInput::Features)
            &&& io.accepts_length ==> bound(1, "length"@, EncoderInput::Length)
            &&& io.has_raw_channel_cache ==> bound(
                1 + length,
                "cache_last_channel"@,
                EncoderInput::ChannelCache,
            )
            &&& match io.cache_abi {
                EncoderCacheAbi::RawChannel => n == front + 2,
                EncoderCacheAbi::ProjectedKvStacked => {
                    &&& n == front + 4
                    &&& bound(front, "cache_last_key"@, EncoderInput::KeyCache)
                    &&& bound(front + 1, "cache_last_value"@, EncoderInput::ValueCache)
                },
                EncoderCacheAbi::ProjectedKvLayered => {
                    &&& n == front + 2 * io.layout.num_layers + 2
                    &&& forall|layer: int|
                        0 <= layer < io.layout.num_layers ==> {
                            let at = front + #[trigger] (2 * layer);
                            &&& bound(
                                at,
                                "cache_key_layer_"@ + decimal(layer as nat),
                                EncoderInput::KeyLayer(layer as usize),
                            )
                            &&& bound(
                                at + 1,
                                "cache_value_layer_"@ + decimal(layer as nat),
                                EncoderInput::ValueLayer(layer as usize),
                            )
                        }
                },
            }
            &&& bound(n - 2, "cache_last_time"@, EncoderInput::TimeCache)
            &&& bound(n - 1, "cache_last_channel_len"@, EncoderInput::CacheLengths)
        }),
{
    let all = encoder_inputs(io);
    let layers = layer_inputs(io.layout.num_layers as nat);
    lemma_layer_inputs_len(io.layout.num_layers as nat);
    assert(bound_inputs(r@) == all);
    assert forall|i: int| 0 <= i < r@.len() implies r@[i].name@ == (#[trigger] all[i]).0
        && r@[i].source == all[i].1 by {
        assert(bound_inputs(r@)[i] == (r@[i].name@, r@[i].source));
    }
    let length = if io.accepts_length {
        1int
    } else {
        0
    };
    let channel = if io.has_raw_channel_cache {
        1int
    } else {
        0
    };
    let front = 1 + length + channel;
    let n = all.len() as int;
    assert(all[0] == ("audio_signal"@, EncoderInput::Features));
    if io.accepts_length {
        assert(all[1] == ("length"@, EncoderInput::Length));
    }
    if io.has_raw_channel_cache {
        assert(all[1 + length] == ("cache_last_channel"@, EncoderInput::ChannelCache));
    }
    assert(all[n - 2] == ("cache_last_time"@, EncoderInput::TimeCache));
    assert(all[n - 1] == ("cache_last_channel_len"@, EncoderInput::CacheLengths));
    match io.cache_abi {
        EncoderCacheAbi::RawChannel => {},
        EncoderCacheAbi::ProjectedKvStacked => {
            assert(all[front] == ("cache_last_key"@, EncoderInput::KeyCache));
            assert(all[front + 1] == ("cache_last_value"@, EncoderInput::ValueCache));
        },
        EncoderCacheAbi::ProjectedKvLayered => {
            assert forall|layer: int| 0 <= layer < io.layout.num_layers implies {
                let at = front + #[trigger] (2 * layer);
                &&& r@[at].name@ == "cache_key_layer_"@ + decimal(layer as nat)
                &&& r@[at].source == EncoderInput::KeyLayer(layer as usize)
                &&& r@[at + 1].name@ == "cache_value_layer_"@ + decimal(layer as nat)
                &&& r@[at + 1].source == EncoderInput::ValueLayer(layer as usize)
            } by {
                lemma_layer_inputs(io.layout.num_layers as nat, layer as nat);
                let at = front + 2 * layer;
                assert(all[at] == layers[2 * layer]);
                assert(all[at + 1] == layers[2 * layer + 1]);
            }
        },
    }
}

/// The inputs of different layers are bound to different layers of the caches, and have
/// different names.
pub proof fn layers_are_bound_apart(
    io: EncoderIo,
    r: Vec<InputBinding>,
    a: usize,
    b: usize,
    front: int,
)
    requires
        call_ensures(encoder_input_bindings, (io,), r),
        io.cache_abi == EncoderCacheAbi::ProjectedKvLayered,
        a < b < io.layout.num_layers,
        front == r@.len() - 2 - 2 * io.layout.num_layers,
    ensures
        ({
            let (x, y) = (r@[front + 2 * a], r@[front + 2 * b]);
            let (v, w) = (r@[front + 2 * a + 1], r@[front + 2 * b + 1]);
            &&& x.source != y.source && x.name@ != y.name@
            &&& v.source != w.source && v.name@ != w.name@
            &&& x.source == EncoderInput::KeyLayer(a) && v.source == EncoderInput::ValueLayer(a)
        }),
{
    inputs_are_bound_to_what_belongs_there(io, r);
    let (x, y) = (2 * a as int, 2 * b as int);
    assert(r@[front + x].source == EncoderInput::KeyLayer(a));
    assert(r@[front + y].source == EncoderInput::KeyLayer(b));
    let (da, db) = (decimal(a as nat), decimal(b as nat));
    reading_a_decimal_gives_the_number_back(a);
    reading_a_decimal_gives_the_number_back(b);
    let (kp, vp) = ("cache_key_layer_"@, "cache_value_layer_"@);
    assert((kp + da).skip(kp.len() as int) =~= da && (kp + db).skip(kp.len() as int) =~= db);
    assert((vp + da).skip(vp.len() as int) =~= da && (vp + db).skip(vp.len() as int) =~= db);
}

proof fn lemma_layer_outputs(layout: EncoderLayout, n: nat, layer: nat)
    requires
        layer < n,
    ensures
        layer_outputs(layout, n).len() == 2 * n,
        ({
            let shape = seq![layout.batch, layout.output_frames, layout.hidden_size];
            &&& layer_outputs(layout, n)[2 * layer as int] == (BoundOutput {
                name: "projected_current_key_layer_"@ + decimal(layer),
                shape,
                element: Element::Float,
            })
            &&& layer_outputs(layout, n)[2 * layer as int + 1] == (BoundOutput {
                name: "projected_current_value_layer_"@ + decimal(layer),
                shape,
                element: Element::Float,
            })
        }),
    decreases n,
{
    let top = (n - 1) as nat;
    lemma_layer_outputs_len(layout, n);
    lemma_layer_outputs_len(layout, top);
    names_of_layers(top);
    if layer < top {
        lemma_layer_outputs(layout, top, layer);
    }
}

proof fn lemma_layer_outputs_len(layout: EncoderLayout, n: nat)
    ensures
        layer_outputs(layout, n).len() == 2 * n,
    decreases n,
{
    if n > 0 {
        lemma_layer_outputs_len(layout, (n - 1) as nat);
    }
}

/// Every output of an encoder is bound to a buffer with its own axes: the encoded frames,
/// the channel cache where the encoder gives it, the time cache, the lengths, and the
/// caches of keys and values as a whole or what is new of them layer by layer.
pub proof fn outputs_are_bound_with_their_axes(io: EncoderIo, r: Vec<OutputBinding>)
    requires
        call_ensures(encoder_output_bindings, (io,), r),
    ensures
        ({
            let l = io.layout;
            let bound = |i: int, name: Seq<char>, shape: Seq<usize>|
                r@[i].name@ == name && r@[i].shape@ == shape && r@[i].element == Element::Float;
            let cache = seq![l.num_layers, l.batch, l.cache_len, l.hidden_size];
            let channel = if io.outputs_raw_channel_cache {
                1int
            } else {
                0
            };
            let front = 3 + channel;
            &&& bound(0, "outputs"@, seq![l.batch, l.hidden_size, l.output_frames])
            &&& io.outputs_raw_channel_cache ==> bound(1, "new_cache_last_channel"@, cache)
            &&& bound(
                1 + channel,
                "new_cache_last_time"@,
                seq![l.num_layers, l.batch, l.hidden_size, l.time_cache_len],
            )
            &&& r@[2 + channel].name@ == "new_cache_last_channel_len"@
            &&& r@[2 + channel].shape@ == seq![l.batch]
            &&& r@[2 + channel].element == Element::Long
            &&& match io.cache_abi {
                EncoderCacheAbi::RawChannel => r@.len() == front,
                EncoderCacheAbi::ProjectedKvStacked => {
                    &&& r@.len() == front + 2
                    &&& bound(front, "new_cache_last_key"@, cache)
                    &&& bound(front + 1, "new_cache_last_value"@, cache)
                },
                EncoderCacheAbi::ProjectedKvLayered => {
                    let shape = seq![l.batch, l.output_frames, l.hidden_size];
                    &&& r@.len() == front + 2 * l.num_layers
                    &&& forall|layer: int|
                        0 <= layer < l.num_layers ==> {
                            let at = front + #[trigger] (2 * layer);
                            &&& bound(
                                at,
                                "projected_current_key_layer_"@ + decimal(layer as nat),
                                shape,
                            )
                            &&& bound(
                                at + 1,
                                "projected_current_value_layer_"@ + decimal(layer as nat),
                                shape,
                            )
                        }
                },
            }
        }),
{
    let l = io.layout;
    let all = encoder_outputs(io);
    lemma_layer_outputs_len(l, l.num_layers as nat);
    assert forall|i: int| 0 <= i < r@.len() implies r@[i].name@ == (#[trigger] all[i]).name
        && r@[i].shape@ == all[i].shape && r@[i].element == all[i].element by {
        assert(bound_outputs(r@)[i] == r@[i]@);
    }
    assert(bound_outputs(r@).len() == r@.len());
    let channel = if io.outputs_raw_channel_cache {
        1int
    } else {
        0
    };
    let front = 3 + channel;
    assert(all[0].name == "outputs"@);
    if io.outputs_raw_channel_cache {
        assert(all[1].name == "new_cache_last_channel"@);
    }
    assert(all[1 + channel].name == "new_cache_last_time"@);
    assert(all[2 + channel].name == "new_cache_last_channel_len"@);
    match io.cache_abi {
        EncoderCacheAbi::RawChannel => {},
        EncoderCacheAbi::ProjectedKvStacked => {
            assert(all[front].name == "new_cache_last_key"@);
            assert(all[front + 1].name == "new_cache_last_value"@);
        },
        EncoderCacheAbi::ProjectedKvLayered => {
            let shape = seq![l.batch, l.output_frames, l.hidden_size];
            let layers = layer_outputs(l, l.num_layers as nat);
            assert forall|layer: int| 0 <= layer < l.num_layers implies {
                let at = front + #[trigger] (2 * layer);
                &&& r@[at].name@ == "projected_current_key_layer_"@ + decimal(layer as nat)
                &&& r@[at].shape@ == shape && r@[at].element == Element::Float
                &&& r@[at + 1].name@ == "projected_current_value_layer_"@ + decimal(layer as nat)
                &&& r@[at + 1].shape@ == shape && r@[at + 1].element == Element::Float
            } by {
                lemma_layer_outputs(l, l.num_layers as nat, layer as nat);
                let at = front + 2 * layer;
                assert(all[at] == layers[2 * layer]);
                assert(all[at + 1] == layers[2 * layer + 1]);
            }
        },
    }
}

/// The decoder is given the frame, the last token, its length and the two states, each
/// under its own name, and gives the logits and the two new states.
pub proof fn the_decoder_is_bound_by_name(
    vocab_size: usize,
    inputs: Vec<(&'static str, DecoderInput)>,
    outputs: Vec<OutputBinding>,
)
    requires
        call_ensures(decoder_input_bindings, (), inputs),
        call_ensures(decoder_output_bindings, (vocab_size,), outputs),
    ensures
        inputs@.len() == 5,
        inputs@[0].0@ == "encoder_outputs"@ && inputs@[0].1 == DecoderInput::Frame,
        inputs@[1].0@ == "targets"@ && inputs@[1].1 == DecoderInput::Token,
        inputs@[2].0@ == "target_length"@ && inputs@[2].1 == DecoderInput::TargetLength,
        inputs@[3].0@ == "input_states_1"@ && inputs@[3].1 == DecoderInput::StateH,
        inputs@[4].0@ == "input_states_2"@ && inputs@[4].1 == DecoderInput::StateC,
        outputs@.len() == 3,
        outputs@[0].name@ == "outputs"@ && outputs@[0].shape@ == seq![
            1usize,
            1usize,
            1usize,
            vocab_size,
        ],
        outputs@[1].name@ == "output_states_1"@ && outputs@[1].shape@ == seq![
            1usize,
            1usize,
            640usize,
        ],
        outputs@[2].name@ == "output_states_2"@ && outputs@[2].shape@ == seq![
            1usize,
            1usize,
            640usize,
        ],
        forall|i: int| 0 <= i < 3 ==> (#[trigger] outputs@[i]).element == Element::Float,
{
    let named = Seq::new(inputs@.len(), |i: int| (inputs@[i].0@, inputs@[i].1));
    assert(named == decoder_inputs());
    assert(named.len() == 5);
    assert(named[0] == decoder_inputs()[0] && named[1] == decoder_inputs()[1] && named[2]
        == decoder_inputs()[2] && named[3] == decoder_inputs()[3] && named[4]
        == decoder_inputs()[4]);
    let bound = bound_outputs(outputs@);
    assert(bound.len() == 3);
    assert(bound[0] == outputs@[0]@ && bound[1] == outputs@[1]@ && bound[2] == outputs@[2]@);
}

/// A model has what its directory turned out to hold, and buffers full of zeros. A twin is
/// used only for an encoder with raw channel caches; a LiteRT model without its encoder or
/// its decoder is refused.
pub proof fn models_are_what_their_directory_holds(
    source: ModelSource,
    r: Result<ParakeetEOUModel, Error>,
)
    requires
        call_ensures(ParakeetEOUModel::from_pretrained, (source,), r),
    ensures
        match source {
            ModelSource::FullLiteRt { encoder, has_decoder } => {
                &&& r is Ok <==> encoder is Some && has_decoder
                &&& encoder is None ==> r->Err_0@ == ErrorView::Config(
                    "Full LiteRT model selected, but LiteRT encoder API is unavailable"@,
                )
                &&& encoder is Some && !has_decoder ==> r->Err_0@ == ErrorView::Config(
                    "Full LiteRT model selected, but LiteRT decoder API is unavailable"@,
                )
                &&& r matches Ok(model) ==> {
                    &&& model.full_litert
                    &&& model.litert_encoder == encoder
                    &&& model.io.layout == encoder->0.layout
                    &&& model.io.cache_abi == encoder->0.cache_abi
                    &&& !model.io.accepts_length
                    &&& model.io.has_raw_channel_cache
                    &&& model.io.outputs_raw_channel_cache
                }
            },
            ModelSource::Onnx { io, litert_encoder } => r matches Ok(model) && {
                &&& !model.full_litert
                &&& model.io == io
                &&& io.cache_abi == EncoderCacheAbi::RawChannel ==> model.litert_encoder
                    == litert_encoder
                &&& io.cache_abi != EncoderCacheAbi::RawChannel ==> model.litert_encoder is None
            },
        },
        r matches Ok(model) ==> {
            let l = model.io.layout;
            let shape = seq![l.num_layers, l.batch, l.output_frames, l.hidden_size];
            let (key, value) = (
                model.litert_projected_current_key@,
                model.litert_projected_current_value@,
            );
            &&& key.shape == shape && value.shape == shape
            &&& forall|i: int| 0 <= i < key.words.len() ==> #[trigger] key.words[i] == 0
            &&& forall|i: int| 0 <= i < value.words.len() ==> #[trigger] value.words[i] == 0
            &&& model.encoder_length@.len() == l.batch
            &&& forall|i: int|
                0 <= i < l.batch ==> #[trigger] model.encoder_length@[i] == 0
            &&& model.decoder_target_length@ == seq![1i32]
        },
{
}

/// Before a run the encoder is told the length for the first batch item, and nothing else
/// of the model changes.
pub proof fn only_the_first_length_is_told(
    model: &mut ParakeetEOUModel,
    length: i64,
    r: Vec<InputBinding>,
    bound: Vec<InputBinding>,
)
    requires
        call_ensures(ParakeetEOUModel::begin_encoder_run, (model, length), r),
        call_ensures(encoder_input_bindings, (old(model).io,), bound),
        old(model).encoder_length@.len() > 0,
    ensures
        final(model).encoder_length@.len() == old(model).encoder_length@.len(),
        final(model).encoder_length@[0] == length,
        forall|i: int|
            1 <= i < old(model).encoder_length@.len() ==> #[trigger] final(model).encoder_length@[i]
                == old(model).encoder_length@[i],
        final(model).io == old(model).io,
        r@.len() == bound@.len(),
        forall|i: int|
            0 <= i < r@.len() ==> (#[trigger] r@[i]).name@ == bound@[i].name@ && r@[i].source
                == bound@[i].source,
{
    assert(bound_inputs(r@).len() == bound_inputs(bound@).len());
    assert forall|i: int| 0 <= i < r@.len() implies (#[trigger] r@[i]).name@ == bound@[i].name@
        && r@[i].source == bound@[i].source by {
        assert(bound_inputs(r@)[i] == (r@[i].name@, r@[i].source));
        assert(bound_inputs(bound@)[i] == (bound@[i].name@, bound@[i].source));
    }
}

/// A successful run of the encoder leaves exactly what the network gave: the outputs of the
/// ONNX one, or what the callback of the LiteRT one wrote.
pub proof fn encoder_runs_leave_what_the_network_gave(
    model: &mut ParakeetEOUModel,
    cache: &mut EncoderCache,
    out: &mut Tensor,
    reply: EncoderReply,
    r: Result<usize, Error>,
)
    requires
        call_ensures(ParakeetEOUModel::run_encoder_into, (model, cache, out, reply), r),
    ensures
        ({
            let before = encoder_state(*old(out), *old(cache));
            let after = encoder_state(*final(out), *final(cache));
            match reply {
                EncoderReply::Onnx(outputs) => {
                    &&& *final(model) == *old(model)
                    &&& r is Ok && has_outputs(old(model).io, outputs) ==> {
                        &&& outputs_taken(old(model).io, before, after, outputs)
                        &&& r->Ok_0 == outputs.encoded->Ok_0.shape@[2] as usize
                    }
                },
                EncoderReply::LiteRt(reply) => {
                    &&& reply_taken(
                        old(model).litert_encoder->0,
                        before,
                        old(model).litert_projected_current_key@,
                        old(model).litert_projected_current_value@,
                        reply,
                        after,
                        final(model).litert_projected_current_key@,
                        final(model).litert_projected_current_value@,
                        r is Ok,
                    )
                    &&& r is Ok ==> reply.ok
                    &&& r is Ok && reply.encoded_lengths@.len() > 0 ==> r->Ok_0
                        == reply.encoded_lengths@[0] as usize
                },
            }
        }),
{
    let s = encoder_state(*old(out), *old(cache));
    match reply {
        EncoderReply::Onnx(outputs) => {
            if r is Ok && has_outputs(old(model).io, outputs) {
                successful_runs_leave_their_outputs(old(model).io, s, outputs);
            }
        },
        EncoderReply::LiteRt(reply) => {
            litert_runs_leave_what_was_written(
                old(model).litert_encoder->0,
                s,
                old(model).litert_projected_current_key@,
                old(model).litert_projected_current_value@,
                reply,
            );
        },
    }
}

/// A run of the decoder fills the buffers for the logits and the two new states, each with
/// its own output.
pub proof fn decoder_runs_leave_what_the_network_gave(
    model: &ParakeetEOUModel,
    logits: &mut Tensor,
    new_h: &mut Tensor,
    new_c: &mut Tensor,
    reply: DecoderReply,
    r: Result<(), Error>,
)
    requires
        call_ensures(
            ParakeetEOUModel::run_decoder_into,
            (model, logits, new_h, new_c, reply),
            r,
        ),
    ensures
        match reply {
            DecoderReply::Onnx(outputs) => r is Ok ==> {
                &&& outputs.logits matches Ok(o) && final(logits)@.words == o.data@
                &&& outputs.state_h matches Ok(o) && final(new_h)@.words == o.data@
                &&& outputs.state_c matches Ok(o) && final(new_c)@.words == o.data@
            },
            DecoderReply::LiteRt(reply) => {
                &&& r is Ok <==> reply.ok
                &&& final(logits)@.words == reply.logits@
                &&& final(new_h)@.words == reply.state_h@
                &&& final(new_c)@.words == reply.state_c@
            },
        },
{
}

/// The profiles are those files that have a name, the encoder's before the decoder's.
pub proof fn profiles_have_a_name(
    encoder: Option<String>,
    decoder: Option<String>,
    r: Vec<String>,
)
    requires
        call_ensures(ParakeetEOUModel::end_profiling, (encoder, decoder), r),
    ensures
        ({
            let named = |path: Option<String>| path is Some && path->0@.len() > 0;
            &&& r@.len() == (if named(encoder) {
                1int
            } else {
                0
            }) + (if named(decoder) {
                1int
            } else {
                0
            })
            &&& named(encoder) ==> r@[0] == encoder->0
            &&& named(decoder) ==> r@.last() == decoder->0
        }),
{
}

/// Only an encoder with raw channel caches is looked for a twin, and a model shows the
/// layout of its encoder.
pub proof fn only_raw_encoders_have_a_twin(
    io: EncoderIo,
    wanted: bool,
    model: &ParakeetEOUModel,
    layout: EncoderLayout,
)
    requires
        call_ensures(wants_litert_encoder, (io,), wanted),
        call_ensures(ParakeetEOUModel::encoder_layout, (model,), layout),
    ensures
        wanted <==> io.cache_abi is RawChannel,
        layout == model.io.layout,
{
}

/// A model takes the outputs of an ONNX encoder as they are taken into the caches and the
/// buffer, with the same result.
pub proof fn models_take_onnx_outputs_as_they_are(
    model: &mut ParakeetEOUModel,
    cache: &mut EncoderCache,
    out: &mut Tensor,
    outputs: EncoderOutputs,
    other_cache: &mut EncoderCache,
    other_out: &mut Tensor,
    taken: Result<usize, Error>,
    r: Result<usize, Error>,
)
    requires
        call_ensures(
            ParakeetEOUModel::run_encoder_into,
            (model, cache, out, EncoderReply::Onnx(outputs)),
            r,
        ),
        call_ensures(
            finish_encoder_run,
            (old(model).io, other_cache, other_out, &outputs),
            taken,
        ),
        encoder_state(*old(other_out), *old(other_cache)) == encoder_state(*old(out), *old(cache)),
    ensures
        *final(model) == *old(model),
        final(out)@ == final(other_out)@,
        final(cache).cache_last_channel@ == final(other_cache).cache_last_channel@,
        final(cache).cache_last_key@ == final(other_cache).cache_last_key@,
        final(cache).cache_last_value@ == final(other_cache).cache_last_value@,
        final(cache).cache_last_time@ == final(other_cache).cache_last_time@,
        final(cache).cache_last_channel_len@ == final(other_cache).cache_last_channel_len@,
        r is Ok <==> taken is Ok,
        r is Ok ==> r->Ok_0 == taken->Ok_0,
        r is Err ==> r->Err_0@ == taken->Err_0@,
{
}

/// A model takes what a LiteRT encoder left as that encoder does, with the same result.
pub proof fn models_take_litert_replies_as_they_are(
    model: &mut ParakeetEOUModel,
    cache: &mut EncoderCache,
    out: &mut Tensor,
    reply: LiteRtEncoderReply,
    other_cache: &mut EncoderCache,
    other_out: &mut Tensor,
    key: &mut Tensor,
    value: &mut Tensor,
    taken: Result<usize, Error>,
    r: Result<usize, Error>,
)
    requires
        call_ensures(
            ParakeetEOUModel::run_encoder_into,
            (model, cache, out, EncoderReply::LiteRt(reply)),
            r,
        ),
        old(model).litert_encoder is Some,
        call_ensures(
            LiteRtEncoder::finish_run,
            (&old(model).litert_encoder->0, other_cache, other_out, key, value, reply),
            taken,
        ),
        encoder_state(*old(other_out), *old(other_cache)) == encoder_state(*old(out), *old(cache)),
        old(key)@ == old(model).litert_projected_current_key@,
        old(value)@ == old(model).litert_projected_current_value@,
    ensures
        final(out)@ == final(other_out)@,
        final(cache).cache_last_channel@ == final(other_cache).cache_last_channel@,
        final(cache).cache_last_key@ == final(other_cache).cache_last_key@,
        final(cache).cache_last_value@ == final(other_cache).cache_last_value@,
        final(cache).cache_last_time@ == final(other_cache).cache_last_time@,
        final(cache).cache_last_channel_len@ == final(other_cache).cache_last_channel_len@,
        final(model).litert_projected_current_key@ == final(key)@,
        final(model).litert_projected_current_value@ == final(value)@,
        r is Ok <==> taken is Ok,
        r is Ok ==> r->Ok_0 == taken->Ok_0,
        r is Err ==> r->Err_0@ == taken->Err_0@,
{
}

/// A model takes the outputs of an ONNX decoder as they are taken into the buffers, with
/// the same result, and a LiteRT reply is an error exactly where the callback says so.
pub proof fn models_take_decoder_outputs_as_they_are(
    model: &ParakeetEOUModel,
    logits: &mut Tensor,
    new_h: &mut Tensor,
    new_c: &mut Tensor,
    outputs: DecoderOutputs,
    other_logits: &mut Tensor,
    other_h: &mut Tensor,
    other_c: &mut Tensor,
    taken: Result<(), Error>,
    r: Result<(), Error>,
)
    requires
        call_ensures(
            ParakeetEOUModel::run_decoder_into,
            (model, logits, new_h, new_c, DecoderReply::Onnx(outputs)),
            r,
        ),
        call_ensures(finish_decoder_run, (other_logits, other_h, other_c, &outputs), taken),
        old(other_logits)@ == old(logits)@,
        old(other_h)@ == old(new_h)@,
        old(other_c)@ == old(new_c)@,
    ensures
        final(logits)@ == final(other_logits)@,
        final(new_h)@ == final(other_h)@,
        final(new_c)@ == final(other_c)@,
        r is Ok <==> taken is Ok,
        r is Err ==> r->Err_0@ == taken->Err_0@,
{
}

/// A run can be taken over wherever the network that the model has could have given it.
pub proof fn runs_of_the_networks_can_be_taken_over(
    model: &mut ParakeetEOUModel,
    cache: &mut EncoderCache,
    out: &mut Tensor,
    outputs: EncoderOutputs,
    can: bool,
)
    requires
        old(model).wf(),
        old(model).litert_encoder is None,
        call_ensures(
            outputs_can_be_taken,
            (old(model).io, &*old(cache), &*old(out), &outputs),
            can,
        ),
        can,
    ensures
        call_requires(
            ParakeetEOUModel::run_encoder_into,
            (model, cache, out, EncoderReply::Onnx(outputs)),
        ),
{
}

/// A run of the encoder leaves the model as it is, but for what a LiteRT encoder projects.
pub proof fn runs_leave_the_model(
    model: &mut ParakeetEOUModel,
    cache: &mut EncoderCache,
    out: &mut Tensor,
    reply: EncoderReply,
    r: Result<usize, Error>,
)
    requires
        call_ensures(ParakeetEOUModel::run_encoder_into, (model, cache, out, reply), r),
    ensures
        final(model).io == old(model).io,
        final(model).litert_encoder == old(model).litert_encoder,
        final(model).full_litert == old(model).full_litert,
        final(model).encoder_length == old(model).encoder_length,
        final(model).decoder_target_length == old(model).decoder_target_length,
        reply is Onnx ==> *final(model) == *old(model),
{
}

} // verus!
