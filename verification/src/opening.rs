//! The order in which the networks of a model directory are opened.

use crate::error::{outcome, Error, ErrorView};
use crate::files::{check_onnx_files, missing_graphs_message, Backend, EncoderFile, ModelFiles};
use crate::layout::EncoderCacheAbi;
use crate::litert::LiteRtEncoder;
use crate::model_eou::{
    bound_outputs, decoder_output_bindings, decoder_outputs, encoder_output_bindings,
    encoder_outputs, wants_litert_encoder, ModelSource, OutputBinding, ParakeetEOUModel,
};
use crate::outlets::{describes_io, encoder_description_is_unique, EncoderIo, Outlet};
use vstd::prelude::*;

verus! {

/// How far the opening of a model has come.
#[derive(Clone, Copy, Debug, PartialEq, Eq, Structural)]
pub enum Opening {
    /// Nothing is known of the directory yet.
    Start,
    /// The encoder of a full LiteRT model is being created.
    CreatingEncoder,
    /// The decoder of a full LiteRT model is being created.
    CreatingDecoder { encoder: LiteRtEncoder },
    /// It is being looked whether the two graphs are there.
    LookingForGraphs { file: EncoderFile },
    /// The encoder's session is being opened.
    OpeningEncoder { file: EncoderFile },
    /// The encoder's outputs are being bound.
    BindingEncoder { io: EncoderIo },
    /// The LiteRT twin of the encoder is being created.
    CreatingTwin { io: EncoderIo },
    /// The decoder's session is being opened.
    OpeningDecoder { io: EncoderIo, twin: Option<LiteRtEncoder> },
    /// The decoder's outputs are being bound.
    BindingDecoder { io: EncoderIo, twin: Option<LiteRtEncoder> },
    /// The model is open.
    Open,
}

/// What has happened since the last action.
pub enum OpenEvent<'a> {
    /// The directory holds these files.
    Files(ModelFiles),
    /// A LiteRT encoder was created, unless it is unavailable.
    LiteRtEncoder(Option<LiteRtEncoder>),
    /// Whether a LiteRT decoder was created.
    LiteRtDecoder(bool),
    /// Whether the two graphs are there.
    Graphs { encoder_exists: bool, decoder_exists: bool },
    /// The encoder's session is open, and has these inputs and outputs.
    EncoderOpened { inputs: &'a [Outlet], outputs: &'a [Outlet] },
    EncoderBound,
    DecoderOpened,
    DecoderBound,
}

/// What is to be done next.
pub enum OpenAction {
    CreateLiteRtEncoder,
    CreateLiteRtDecoder,
    /// Look whether the encoder's graph and the decoder's are there.
    LookForGraphs(EncoderFile),
    OpenEncoder(EncoderFile),
    BindEncoder(Vec<OutputBinding>),
    OpenDecoder,
    BindDecoder(Vec<OutputBinding>),
    /// Hand out the model.
    Finish(ParakeetEOUModel),
}

impl Opening {
    /// What can happen in this state. Where the model is handed out, its buffers can be
    /// addressed.
    pub open spec fn expects(self, event: OpenEvent) -> bool {
        match (self, event) {
            (Opening::Start, OpenEvent::Files(_)) => true,
            (Opening::CreatingEncoder, OpenEvent::LiteRtEncoder(_)) => true,
            (Opening::CreatingDecoder { encoder }, OpenEvent::LiteRtDecoder(has_decoder)) => (
            ModelSource::FullLiteRt { encoder: Some(encoder), has_decoder }).is_addressable(),
            (Opening::LookingForGraphs { .. }, OpenEvent::Graphs { .. }) => true,
            (Opening::OpeningEncoder { .. }, OpenEvent::EncoderOpened { .. }) => true,
            (Opening::BindingEncoder { .. }, OpenEvent::EncoderBound) => true,
            (Opening::CreatingTwin { .. }, OpenEvent::LiteRtEncoder(_)) => true,
            (Opening::OpeningDecoder { .. }, OpenEvent::DecoderOpened) => true,
            (Opening::BindingDecoder { io, twin }, OpenEvent::DecoderBound) => (ModelSource::Onnx {
                io,
                litert_encoder: twin,
            }).is_addressable(),
            _ => false,
        }
    }

    /// `r` is how the opening goes on after the event: the next state and what is to be
    /// done, or why the model cannot be opened. `vocab_size` is the number of logits, and
    /// `model_dir` the directory as it is shown.
    pub open spec fn goes_on(
        self,
        event: OpenEvent,
        vocab_size: usize,
        model_dir: Seq<char>,
        r: Result<(Opening, OpenAction), Error>,
    ) -> bool {
        match (self, event) {
            (Opening::Start, OpenEvent::Files(files)) => match files.backend() {
                Backend::FullLiteRt => r == Ok::<(Opening, OpenAction), Error>(
                    (Opening::CreatingEncoder, OpenAction::CreateLiteRtEncoder),
                ),
                Backend::Onnx(file) => r == Ok::<(Opening, OpenAction), Error>(
                    (Opening::LookingForGraphs { file }, OpenAction::LookForGraphs(file)),
                ),
            },
            (Opening::CreatingEncoder, OpenEvent::LiteRtEncoder(created)) => match created {
                Some(encoder) => r == Ok::<(Opening, OpenAction), Error>(
                    (Opening::CreatingDecoder { encoder }, OpenAction::CreateLiteRtDecoder),
                ),
                None => (ModelSource::FullLiteRt { encoder: None, has_decoder: false }).gives(
                    handed_out(r),
                ),
            },
            (Opening::CreatingDecoder { encoder }, OpenEvent::LiteRtDecoder(has_decoder)) => {
                hands_out(ModelSource::FullLiteRt { encoder: Some(encoder), has_decoder }, r)
            },
            (
                Opening::LookingForGraphs { file },
                OpenEvent::Graphs { encoder_exists, decoder_exists },
            ) => if encoder_exists && decoder_exists {
                r == Ok::<(Opening, OpenAction), Error>(
                    (Opening::OpeningEncoder { file }, OpenAction::OpenEncoder(file)),
                )
            } else {
                r is Err && r->Err_0@ == ErrorView::Config(missing_graphs_message(model_dir))
            },
            (Opening::OpeningEncoder { .. }, OpenEvent::EncoderOpened { inputs, outputs }) => {
                exists|io: Result<EncoderIo, ErrorView>| #[trigger]
                    describes_io(inputs@, outputs@, io) && match io {
                        Err(e) => r is Err && r->Err_0@ == e,
                        Ok(io) => {
                            &&& r is Ok
                            &&& r->Ok_0.0 == (Opening::BindingEncoder { io })
                            &&& r->Ok_0.1 matches OpenAction::BindEncoder(bindings)
                            &&& bound_outputs(bindings@) == encoder_outputs(io)
                        },
                    }
            },
            (Opening::BindingEncoder { io }, OpenEvent::EncoderBound) => if io.cache_abi
                == EncoderCacheAbi::RawChannel {
                r == Ok::<(Opening, OpenAction), Error>(
                    (Opening::CreatingTwin { io }, OpenAction::CreateLiteRtEncoder),
                )
            } else {
                r == Ok::<(Opening, OpenAction), Error>(
                    (Opening::OpeningDecoder { io, twin: None }, OpenAction::OpenDecoder),
                )
            },
            (Opening::CreatingTwin { io }, OpenEvent::LiteRtEncoder(twin)) => r == Ok::<
                (Opening, OpenAction),
                Error,
            >((Opening::OpeningDecoder { io, twin }, OpenAction::OpenDecoder)),
            (Opening::OpeningDecoder { io, twin }, OpenEvent::DecoderOpened) => {
                &&& r is Ok
                &&& r->Ok_0.0 == (Opening::BindingDecoder { io, twin })
                &&& r->Ok_0.1 matches OpenAction::BindDecoder(bindings)
                &&& bound_outputs(bindings@) == decoder_outputs(vocab_size)
            },
            (Opening::BindingDecoder { io, twin }, OpenEvent::DecoderBound) => {
                hands_out(ModelSource::Onnx { io, litert_encoder: twin }, r)
            },
            _ => true,
        }
    }

    /// How many events can still come.
    pub open spec fn remaining(self) -> nat {
        match self {
            Opening::Start => 8,
            Opening::CreatingEncoder => 2,
            Opening::CreatingDecoder { .. } => 1,
            Opening::LookingForGraphs { .. } => 6,
            Opening::OpeningEncoder { .. } => 5,
            Opening::BindingEncoder { .. } => 4,
            Opening::CreatingTwin { .. } => 3,
            Opening::OpeningDecoder { .. } => 2,
            Opening::BindingDecoder { .. } => 1,
            Opening::Open => 0,
        }
    }

    /// Goes on after an event.
    pub fn next(self, event: OpenEvent, vocab_size: usize, model_dir: &str) -> (r: Result<
        (Opening, OpenAction),
        Error,
    >)
        requires
            self.expects(event),
        ensures
            self.goes_on(event, vocab_size, model_dir@, r),
            r matches Ok((next, action)) ==> {
                &&& next.remaining() < self.remaining()
                &&& next == Opening::Open <==> action is Finish
            },
    {
        match (self, event) {
            (Opening::Start, OpenEvent::Files(files)) => match files.select_backend() {
                Backend::FullLiteRt => Ok(
                    (Opening::CreatingEncoder, OpenAction::CreateLiteRtEncoder),
                ),
                Backend::Onnx(file) => Ok(
                    (Opening::LookingForGraphs { file }, OpenAction::LookForGraphs(file)),
                ),
            },
            (Opening::CreatingEncoder, OpenEvent::LiteRtEncoder(created)) => match created {
                Some(encoder) => Ok(
                    (Opening::CreatingDecoder { encoder }, OpenAction::CreateLiteRtDecoder),
                ),
                None => hand_out(ModelSource::FullLiteRt { encoder: None, has_decoder: false }),
            },
            (Opening::CreatingDecoder { encoder }, OpenEvent::LiteRtDecoder(has_decoder)) => {
                hand_out(ModelSource::FullLiteRt { encoder: Some(encoder), has_decoder })
            },
            (
                Opening::LookingForGraphs { file },
                OpenEvent::Graphs { encoder_exists, decoder_exists },
            ) => match check_onnx_files(encoder_exists, decoder_exists, model_dir) {
                Ok(_) => Ok((Opening::OpeningEncoder { file }, OpenAction::OpenEncoder(file))),
                Err(e) => Err(e),
            },
            (Opening::OpeningEncoder { .. }, OpenEvent::EncoderOpened { inputs, outputs }) => {
                let described = EncoderIo::of_outlets(inputs, outputs);
                let ghost io = outcome(described);
                assert(describes_io(inputs@, outputs@, io));
                match described {
                    Ok(io) => Ok(
                        (
                            Opening::BindingEncoder { io },
                            OpenAction::BindEncoder(encoder_output_bindings(io)),
                        ),
                    ),
                    Err(e) => Err(e),
                }
            },
            (Opening::BindingEncoder { io }, OpenEvent::EncoderBound) => {
                if wants_litert_encoder(io) {
                    Ok((Opening::CreatingTwin { io }, OpenAction::CreateLiteRtEncoder))
                } else {
                    Ok((Opening::OpeningDecoder { io, twin: None }, OpenAction::OpenDecoder))
                }
            },
            (Opening::CreatingTwin { io }, OpenEvent::LiteRtEncoder(twin)) => {
                Ok((Opening::OpeningDecoder { io, twin }, OpenAction::OpenDecoder))
            },
            (Opening::OpeningDecoder { io, twin }, OpenEvent::DecoderOpened) => Ok(
                (
                    Opening::BindingDecoder { io, twin },
                    OpenAction::BindDecoder(decoder_output_bindings(vocab_size)),
                ),
            ),
            (Opening::BindingDecoder { io, twin }, OpenEvent::DecoderBound) => {
                hand_out(ModelSource::Onnx { io, litert_encoder: twin })
            },
            _ => Err(Error::Config("The model is already open".to_owned())),
        }
    }
}

/// The model that is handed out, or why there is none.
pub open spec fn handed_out(r: Result<(Opening, OpenAction), Error>) -> Result<
    ParakeetEOUModel,
    Error,
> {
    match r {
        Ok((_, action)) => Ok(action->Finish_0),
        Err(e) => Err(e),
    }
}

/// The model that the directory holds is handed out, or it is said why it holds none.
pub open spec fn hands_out(source: ModelSource, r: Result<(Opening, OpenAction), Error>) -> bool {
    &&& source.gives(handed_out(r))
    &&& r matches Ok((next, action)) ==> next == Opening::Open && action is Finish
}

fn hand_out(source: ModelSource) -> (r: Result<(Opening, OpenAction), Error>)
    requires
        source.is_addressable(),
    ensures
        hands_out(source, r),
{
    match ParakeetEOUModel::from_pretrained(source) {
        Ok(model) => Ok((Opening::Open, OpenAction::Finish(model))),
        Err(e) => Err(e),
    }
}

/// A session is opened only once both graphs are known to be there, and the decoder's
/// only after the encoder's outputs have been bound.
pub proof fn sessions_open_in_order(
    state: Opening,
    event: OpenEvent,
    vocab_size: usize,
    model_dir: Seq<char>,
    r: Result<(Opening, OpenAction), Error>,
)
    requires
        state.expects(event),
        state.goes_on(event, vocab_size, model_dir, r),
        r is Ok,
    ensures
        r->Ok_0.1 is OpenEncoder ==> event == (OpenEvent::Graphs {
            encoder_exists: true,
            decoder_exists: true,
        }),
        r->Ok_0.1 is OpenDecoder ==> state is BindingEncoder || state is CreatingTwin,
{
}

/// A model that LiteRT runs as a whole never opens a session, and the twin of an encoder
/// is created only where the encoder keeps raw channel caches.
pub proof fn litert_models_open_no_session(
    state: Opening,
    event: OpenEvent,
    vocab_size: usize,
    model_dir: Seq<char>,
    r: Result<(Opening, OpenAction), Error>,
)
    requires
        state.expects(event),
        state.goes_on(event, vocab_size, model_dir, r),
        r is Ok,
    ensures
        state is CreatingEncoder || state is CreatingDecoder ==> r->Ok_0.1 is CreateLiteRtDecoder
            || r->Ok_0.1 is Finish,
        r->Ok_0.0 matches Opening::CreatingTwin { io } ==> io.cache_abi
            == EncoderCacheAbi::RawChannel,
{
}

/// A model is opened step by step. LiteRT models create their encoder and their decoder;
/// others look for their graphs, open the encoder, bind its outputs, create a twin where
/// the caches are raw, open the decoder and bind its outputs. Each step hands on what it
/// was handed, and the last one hands out the model.
pub proof fn models_are_opened_step_by_step(
    state: Opening,
    event: OpenEvent,
    vocab_size: usize,
    model_dir: &str,
    r: Result<(Opening, OpenAction), Error>,
)
    requires
        call_ensures(Opening::next, (state, event, vocab_size, model_dir), r),
        state.expects(event),
    ensures
        match state {
            Opening::Start => match event {
                OpenEvent::Files(_) => r matches Ok((next, action)) && {
                    ||| next is CreatingEncoder && action is CreateLiteRtEncoder
                    ||| next matches Opening::LookingForGraphs { file } && action
                        == OpenAction::LookForGraphs(file)
                },
                _ => false,
            },
            Opening::CreatingEncoder => match event {
                OpenEvent::LiteRtEncoder(Some(created)) => r matches Ok((next, action)) && next
                    == (Opening::CreatingDecoder { encoder: created })
                    && action is CreateLiteRtDecoder,
                OpenEvent::LiteRtEncoder(None) => r matches Err(e) && e@ == ErrorView::Config(
                    "Full LiteRT model selected, but LiteRT encoder API is unavailable"@,
                ),
                _ => false,
            },
            Opening::CreatingDecoder { encoder } => match event {
                OpenEvent::LiteRtDecoder(true) => {
                    &&& r matches Ok((next, action))
                    &&& next is Open
                    &&& action matches OpenAction::Finish(model)
                    &&& model.full_litert
                    &&& model.litert_encoder == Some(encoder)
                    &&& model.io.layout == encoder.layout
                    &&& model.io.cache_abi == encoder.cache_abi
                },
                OpenEvent::LiteRtDecoder(false) => r matches Err(e) && e@ == ErrorView::Config(
                    "Full LiteRT model selected, but LiteRT decoder API is unavailable"@,
                ),
                _ => false,
            },
            Opening::LookingForGraphs { file } => match event {
                OpenEvent::Graphs { encoder_exists, decoder_exists } => {
                    &&& r is Ok <==> encoder_exists && decoder_exists
                    &&& r matches Ok((next, action)) ==> next == (Opening::OpeningEncoder { file })
                        && action == OpenAction::OpenEncoder(file)
                    &&& r matches Err(e) ==> e@ == ErrorView::Config(
                        "Missing ONNX files in "@ + model_dir@
                            + ". Expected encoder.onnx and decoder_joint.onnx"@,
                    )
                },
                _ => false,
            },
            Opening::OpeningEncoder { .. } => event is EncoderOpened,
            Opening::BindingEncoder { io } => r matches Ok((next, action)) && {
                &&& io.cache_abi is RawChannel ==> next == (Opening::CreatingTwin { io })
                    && action is CreateLiteRtEncoder
                &&& !(io.cache_abi is RawChannel) ==> next == (Opening::OpeningDecoder {
                    io,
                    twin: None,
                }) && action is OpenDecoder
            },
            Opening::CreatingTwin { io } => match event {
                OpenEvent::LiteRtEncoder(created) => r matches Ok((next, action)) && next
                    == (Opening::OpeningDecoder { io, twin: created }) && action is OpenDecoder,
                _ => false,
            },
            Opening::OpeningDecoder { io, twin } => r matches Ok((next, action)) && next
                == (Opening::BindingDecoder { io, twin }) && action is BindDecoder,
            Opening::BindingDecoder { io, twin } => {
                &&& r matches Ok((next, action))
                &&& next is Open
                &&& action matches OpenAction::Finish(model)
                &&& !model.full_litert
                &&& model.io == io
                &&& io.cache_abi is RawChannel ==> model.litert_encoder == twin
                &&& !(io.cache_abi is RawChannel) ==> model.litert_encoder is None
            },
            Opening::Open => false,
        },
{
}

/// The first step follows the backend that the files select.
pub proof fn the_files_select_the_way(
    files: ModelFiles,
    backend: Backend,
    vocab_size: usize,
    model_dir: &str,
    r: Result<(Opening, OpenAction), Error>,
)
    requires
        call_ensures(
            Opening::next,
            (Opening::Start, OpenEvent::Files(files), vocab_size, model_dir),
            r,
        ),
        call_ensures(ModelFiles::select_backend, (&files,), backend),
    ensures
        backend is FullLiteRt ==> (r matches Ok((next, action)) && next is CreatingEncoder
            && action is CreateLiteRtEncoder),
        backend matches Backend::Onnx(chosen) ==> (r matches Ok((next, action)) && next == (
        Opening::LookingForGraphs { file: chosen }) && action == OpenAction::LookForGraphs(chosen)),
{
}

/// The two lists bind the same outputs, each under its name, with its axes and its elements.
pub open spec fn same_bindings(a: Seq<OutputBinding>, b: Seq<OutputBinding>) -> bool {
    &&& a.len() == b.len()
    &&& forall|i: int|
        0 <= i < a.len() ==> (#[trigger] a[i]).name@ == b[i].name@ && a[i].shape@ == b[i].shape@
            && a[i].element == b[i].element
}

proof fn lemma_same_bindings(a: Seq<OutputBinding>, b: Seq<OutputBinding>)
    requires
        bound_outputs(a) == bound_outputs(b),
    ensures
        same_bindings(a, b),
{
    assert(bound_outputs(a).len() == a.len() && bound_outputs(b).len() == b.len());
    assert forall|i: int| 0 <= i < a.len() implies (#[trigger] a[i]).name@ == b[i].name@
        && a[i].shape@ == b[i].shape@ && a[i].element == b[i].element by {
        assert(bound_outputs(a)[i] == a[i]@);
        assert(bound_outputs(b)[i] == b[i]@);
    }
}

/// An open encoder is described by its inputs and outputs, and its outputs are bound as its
/// description asks for.
pub proof fn opened_networks_are_bound(
    opened: Opening,
    inputs: &[Outlet],
    outputs: &[Outlet],
    vocab_size: usize,
    model_dir: &str,
    described: Result<EncoderIo, Error>,
    bound: Vec<OutputBinding>,
    r: Result<(Opening, OpenAction), Error>,
)
    requires
        opened is OpeningEncoder,
        call_ensures(
            Opening::next,
            (opened, OpenEvent::EncoderOpened { inputs, outputs }, vocab_size, model_dir),
            r,
        ),
        call_ensures(EncoderIo::of_outlets, (inputs, outputs), described),
        described is Ok ==> call_ensures(encoder_output_bindings, (described->Ok_0,), bound),
    ensures
        described matches Err(e) ==> r is Err && r->Err_0@ == e@,
        described matches Ok(told) ==> {
            &&& r matches Ok((next, action))
            &&& next == (Opening::BindingEncoder { io: told })
            &&& action matches OpenAction::BindEncoder(bindings)
            &&& same_bindings(bindings@, bound@)
        },
{
    let io = choose|io: Result<EncoderIo, ErrorView>| #[trigger]
        describes_io(inputs@, outputs@, io) && match io {
            Err(e) => r is Err && r->Err_0@ == e,
            Ok(io) => {
                &&& r is Ok
                &&& r->Ok_0.0 == (Opening::BindingEncoder { io })
                &&& r->Ok_0.1 matches OpenAction::BindEncoder(bindings)
                &&& bound_outputs(bindings@) == encoder_outputs(io)
            },
        };
    encoder_description_is_unique(inputs@, outputs@, io, outcome(described));
    if described is Ok {
        let action = r->Ok_0.1;
        let bindings = action->BindEncoder_0;
        lemma_same_bindings(bindings@, bound@);
    }
}

/// The decoder's outputs are bound as they are for a vocabulary of that size.
pub proof fn opened_decoders_are_bound(
    opened: Opening,
    vocab_size: usize,
    model_dir: &str,
    bound: Vec<OutputBinding>,
    r: Result<(Opening, OpenAction), Error>,
)
    requires
        opened is OpeningDecoder,
        call_ensures(
            Opening::next,
            (opened, OpenEvent::DecoderOpened, vocab_size, model_dir),
            r,
        ),
        call_ensures(decoder_output_bindings, (vocab_size,), bound),
    ensures
        ({
            &&& r matches Ok((_, action))
            &&& action matches OpenAction::BindDecoder(bindings)
            &&& same_bindings(bindings@, bound@)
        }),
{
    let action = r->Ok_0.1;
    let bindings = action->BindDecoder_0;
    lemma_same_bindings(bindings@, bound@);
}

} // verus!
