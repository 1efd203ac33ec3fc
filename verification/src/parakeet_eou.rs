//! The streaming recogniser: from samples to text, chunk by chunk.

use crate::audio::{feature_window_of, fill_window, kept_samples, push_samples};
use crate::cache::EncoderCache;
use crate::decoder_run::{state_shape, DecoderBuffers, STATE_SIZE};
use crate::decoding::{
    decide, decision, is_in_vocabulary, Decision, Stage, Transcription, TranscriptionView,
    MAX_SYMBOLS_PER_STEP,
};
use crate::encoder_run::{encoder_state, EncoderState};
use crate::error::{outcome, Error, ErrorView};
use crate::frontend::{
    columns, join_columns, last_joined_columns_come_from_the_right, side_by_side, take_columns,
    FEATURE_WINDOW_SAMPLES, FRAMES_PER_CHUNK, LOG_MEL_ZERO, N_MELS, PRE_ENCODE_CACHE, SLICE_LEN,
    WIN_LENGTH,
};
use crate::layout::{layout_text, show_layout, EncoderLayout};
use crate::litert_run::after_litert_run;
use crate::model_eou::{
    after_decoder_reply, after_encoder_reply, bound_inputs, decoder_replies_keep_the_buffers,
    encoder_inputs, encoder_replies_keep_the_layout, profile, DecoderReply, EncoderReply,
    InputBinding, ParakeetEOUModel,
};
use crate::tensor::{addressable, filled, nonempty_size, shape_size, Tensor, TensorView};
use crate::text::{decimal, show_decimal};
use crate::vocabulary::{
    decode, decode_returns, decoders_always_return, id_to_token, lookup, steering_tokens,
    text_of, tokenizer_decoded, tokenizer_decoders, tokenizer_tokens, tokenizer_vocab, TokenIds,
};
use crate::words::{argmax, best_index, best_index_is_first_maximum, some_finite};
use std::collections::VecDeque;
use vstd::prelude::*;

verus! {

/// The transcribed text of one chunk.
#[derive(Debug, Clone, PartialEq, Eq)]
pub struct ParakeetEOUChunk {
    pub text: String,
    pub endpoint_detected: bool,
}

impl Default for ParakeetEOUChunk {
    /// No text and no endpoint.
    fn default() -> (r: ParakeetEOUChunk)
        ensures
            r.text@ == Seq::<char>::empty(),
            !r.endpoint_detected,
    {
        let text = "".to_owned();
        proof {
            reveal_strlit("");
        }
        assert(text@ =~= Seq::<char>::empty());
        ParakeetEOUChunk { text, endpoint_detected: false }
    }
}

/// What is to be done next.
#[derive(Debug)]
pub enum TranscribeAction {
    /// Turn the window into mel frames.
    ExtractMelFrames,
    /// Run the encoder on the features.
    RunEncoder,
    /// Run the decoder on the current frame.
    RunDecoder,
    /// Turn the token into text.
    DecodeToken(u32),
    /// Give up: the encoder's output does not hold the frame that it is said to hold.
    MissingFrame(usize),
    /// Hand out the chunk.
    Finish(ParakeetEOUChunk),
}

/// The mathematical counterpart of [`TranscribeAction`].
pub enum ActionView {
    ExtractMelFrames,
    RunEncoder,
    RunDecoder,
    DecodeToken(u32),
    MissingFrame(usize),
    Finish { text: Seq<char>, endpoint_detected: bool },
}

impl View for TranscribeAction {
    type V = ActionView;

    open spec fn view(&self) -> ActionView {
        match *self {
            TranscribeAction::ExtractMelFrames => ActionView::ExtractMelFrames,
            TranscribeAction::RunEncoder => ActionView::RunEncoder,
            TranscribeAction::RunDecoder => ActionView::RunDecoder,
            TranscribeAction::DecodeToken(id) => ActionView::DecodeToken(id),
            TranscribeAction::MissingFrame(frame) => ActionView::MissingFrame(frame),
            TranscribeAction::Finish(chunk) => ActionView::Finish {
                text: chunk.text@,
                endpoint_detected: chunk.endpoint_detected,
            },
        }
    }
}

/// The streaming recogniser with end-of-utterance detection. It keeps only as much raw
/// audio as the next encoder input needs.
pub struct ParakeetEOU {
    pub model: ParakeetEOUModel,
    pub tokenizer: tokenizers::Tokenizer,
    pub tokens: TokenIds,
    pub encoder_cache: EncoderCache,
    pub state_h: Tensor,
    pub state_c: Tensor,
    pub next_state_h: Tensor,
    pub next_state_c: Tensor,
    pub last_token: i32,
    pub mel_frame_cache: Tensor,
    pub feature_window: Vec<u32>,
    pub new_mel_frames: Tensor,
    pub features: Tensor,
    pub encoder_out: Tensor,
    pub decoder_frame: Tensor,
    pub logits: Tensor,
    pub audio_buffer: VecDeque<u32>,
    pub chunk_counter: u64,
    pub first_non_empty_emitted: bool,
    pub segment_has_text: bool,
}

/// What a recogniser carries from one step to the next.
#[verifier::ext_equal]
pub struct EouState {
    /// The encoder's output and caches.
    pub encoder: EncoderState,
    pub state_h: TensorView,
    pub state_c: TensorView,
    pub next_state_h: TensorView,
    pub next_state_c: TensorView,
    pub last_token: i32,
    pub mel_frame_cache: TensorView,
    pub feature_window: Seq<u32>,
    pub new_mel_frames: TensorView,
    pub features: TensorView,
    pub decoder_frame: TensorView,
    pub logits: TensorView,
    pub audio: Seq<u32>,
    pub chunk_counter: u64,
    pub first_non_empty_emitted: bool,
    pub segment_has_text: bool,
}

impl View for ParakeetEOU {
    type V = EouState;

    open spec fn view(&self) -> EouState {
        EouState {
            encoder: encoder_state(self.encoder_out, self.encoder_cache),
            state_h: self.state_h@,
            state_c: self.state_c@,
            next_state_h: self.next_state_h@,
            next_state_c: self.next_state_c@,
            last_token: self.last_token,
            mel_frame_cache: self.mel_frame_cache@,
            feature_window: self.feature_window@,
            new_mel_frames: self.new_mel_frames@,
            features: self.features@,
            decoder_frame: self.decoder_frame@,
            logits: self.logits@,
            audio: self.audio_buffer@,
            chunk_counter: self.chunk_counter,
            first_non_empty_emitted: self.first_non_empty_emitted,
            segment_has_text: self.segment_has_text,
        }
    }
}

/// The shape of the mel frames kept from the chunk before.
pub open spec fn mel_cache_shape() -> Seq<usize> {
    seq![N_MELS, PRE_ENCODE_CACHE]
}

/// The shape of the new mel frames of a chunk.
pub open spec fn new_mel_shape() -> Seq<usize> {
    seq![N_MELS, FRAMES_PER_CHUNK]
}

/// The shape of the logits: one for every token, and one for the blank.
pub open spec fn logits_shape(vocab_size: usize) -> Seq<usize> {
    seq![1usize, 1usize, (vocab_size + 1) as usize]
}

/// The front end makes what an encoder of that layout takes.
pub open spec fn frontend_matches(layout: EncoderLayout) -> bool {
    layout.batch == 1 && layout.n_mels == N_MELS && layout.input_frames == SLICE_LEN
}

impl EouState {
    /// Every buffer has its shape, and no more audio is kept than a window holds.
    pub open spec fn wf(self, layout: EncoderLayout, vocab_size: usize) -> bool {
        &&& self.encoder.fits(layout)
        &&& self.state_h.is_dense(state_shape())
        &&& self.state_c.is_dense(state_shape())
        &&& self.next_state_h.is_dense(state_shape())
        &&& self.next_state_c.is_dense(state_shape())
        &&& self.mel_frame_cache.is_dense(mel_cache_shape())
        &&& self.feature_window.len() == FEATURE_WINDOW_SAMPLES
        &&& self.new_mel_frames.is_dense(new_mel_shape())
        &&& self.features.is_dense(layout.features_shape())
        &&& self.decoder_frame.is_dense(layout.frame_shape())
        &&& self.logits.is_dense(logits_shape(vocab_size))
        &&& self.audio.len() <= FEATURE_WINDOW_SAMPLES
    }

    /// The state before the first chunk.
    pub open spec fn initial(layout: EncoderLayout, tokens: TokenIds) -> EouState {
        EouState {
            encoder: EncoderState {
                out: filled(layout.output_shape(), 0),
                channel: filled(layout.cache_shape(), 0),
                key: filled(layout.cache_shape(), 0),
                value: filled(layout.cache_shape(), 0),
                time: filled(layout.time_shape(), 0),
                lengths: Seq::new(layout.batch as nat, |i: int| 0i64),
            },
            state_h: filled(state_shape(), 0),
            state_c: filled(state_shape(), 0),
            next_state_h: filled(state_shape(), 0),
            next_state_c: filled(state_shape(), 0),
            last_token: tokens.blank_id,
            mel_frame_cache: filled(mel_cache_shape(), LOG_MEL_ZERO),
            feature_window: Seq::new(FEATURE_WINDOW_SAMPLES as nat, |i: int| 0u32),
            new_mel_frames: filled(new_mel_shape(), 0),
            features: filled(layout.features_shape(), 0),
            decoder_frame: filled(layout.frame_shape(), 0),
            logits: filled(logits_shape(tokens.vocab_size), 0),
            audio: Seq::empty(),
            chunk_counter: 0,
            first_non_empty_emitted: false,
            segment_has_text: false,
        }
    }
}

/// The message about an encoder that does not fit the front end.
pub open spec fn mismatch_message(layout: EncoderLayout) -> Seq<char> {
    "Encoder frontend shape mismatch: model layout="@ + layout_text(layout)
        + ", frontend expects batch=1 n_mels="@ + decimal(N_MELS as nat) + " input_frames="@
        + decimal(SLICE_LEN as nat)
}

/// Checks that the front end makes what an encoder of that layout takes.
pub fn check_frontend(layout: EncoderLayout) -> (r: Result<(), Error>)
    ensures
        r is Ok <==> frontend_matches(layout),
        r matches Err(e) ==> e@ == ErrorView::Model(mismatch_message(layout)),
{
    if layout.batch != 1 || layout.n_mels != N_MELS || layout.input_frames != SLICE_LEN {
        let mut m = "Encoder frontend shape mismatch: model layout=".to_owned();
        m.append(show_layout(layout).as_str());
        m.append(", frontend expects batch=1 n_mels=");
        m.append(show_decimal(N_MELS as u128).as_str());
        m.append(" input_frames=");
        m.append(show_decimal(SLICE_LEN as u128).as_str());
        Err(Error::Model(m))
    } else {
        Ok(())
    }
}

pub(crate) proof fn lemma_shape_size2(a: usize, b: usize)
    ensures
        shape_size(seq![a, b]) == a * b,
        a > 0 && b > 0 ==> nonempty_size(seq![a, b]) == a * b,
{
    let s = seq![a, b];
    assert(s.drop_last() =~= seq![a]);
    assert(seq![a].drop_last() =~= Seq::<usize>::empty());
    reveal_with_fuel(shape_size, 4);
    reveal_with_fuel(nonempty_size, 4);
    assert(1 * (a as nat) * (b as nat) == a * b) by (nonlinear_arith);
}

pub(crate) proof fn lemma_shape_size3(a: usize, b: usize, c: usize)
    ensures
        shape_size(seq![a, b, c]) == a * b * c,
        a > 0 && b > 0 && c > 0 ==> nonempty_size(seq![a, b, c]) == a * b * c,
{
    let s = seq![a, b, c];
    assert(s.drop_last() =~= seq![a, b]);
    lemma_shape_size2(a, b);
}

proof fn lemma_front_end_is_addressable()
    ensures
        addressable(state_shape()),
        addressable(mel_cache_shape()),
        addressable(new_mel_shape()),
{
    lemma_shape_size3(1, 1, STATE_SIZE);
    lemma_shape_size2(N_MELS, PRE_ENCODE_CACHE);
    lemma_shape_size2(N_MELS, FRAMES_PER_CHUNK);
}

fn zero_window() -> (r: Vec<u32>)
    ensures
        r@ == Seq::new(FEATURE_WINDOW_SAMPLES as nat, |i: int| 0u32),
{
    let mut r: Vec<u32> = Vec::new();
    let mut i: usize = 0;
    while i < FEATURE_WINDOW_SAMPLES
        invariant
            i <= FEATURE_WINDOW_SAMPLES,
            r@ == Seq::new(i as nat, |j: int| 0u32),
        decreases FEATURE_WINDOW_SAMPLES - i,
    {
        r.push(0);
        i += 1;
    }
    r
}

fn silent_mel_cache() -> (r: Tensor)
    ensures
        r@ == filled(mel_cache_shape(), LOG_MEL_ZERO),
{
    proof {
        lemma_front_end_is_addressable();
    }
    let shape = [N_MELS, PRE_ENCODE_CACHE];
    assert(shape@ =~= mel_cache_shape());
    let mut r = Tensor::new(&shape);
    r.fill(LOG_MEL_ZERO);
    assert(r@.words =~= filled(mel_cache_shape(), LOG_MEL_ZERO).words);
    r
}

fn zero_state() -> (r: Tensor)
    ensures
        r@ == filled(state_shape(), 0),
{
    proof {
        lemma_front_end_is_addressable();
    }
    let shape = [1usize, 1usize, STATE_SIZE];
    assert(shape@ =~= state_shape());
    Tensor::new(&shape)
}

fn clear(t: &mut Tensor, w: u32)
    requires
        old(t)@.is_dense(old(t)@.shape),
    ensures
        final(t)@ == filled(old(t)@.shape, w),
{
    t.fill(w);
    assert(t@.words =~= filled(old(t)@.shape, w).words);
}

impl ParakeetEOU {
    /// The recogniser can be driven: its front end fits the encoder, and every buffer
    /// has its shape.
    pub open spec fn wf(self) -> bool {
        &&& self.model.wf()
        &&& self.model.io.layout.is_addressable()
        &&& frontend_matches(self.model.io.layout)
        &&& self@.wf(self.model.io.layout, self.tokens.vocab_size)
    }

    /// What never changes while a recogniser runs.
    pub open spec fn same_setup(self, other: ParakeetEOU) -> bool {
        &&& self.model == other.model
        &&& self.tokenizer == other.tokenizer
        &&& self.tokens == other.tokens
    }

    /// A recogniser for a vocabulary with these steering tokens.
    pub fn with_tokens(
        tokenizer: tokenizers::Tokenizer,
        tokens: TokenIds,
        model: ParakeetEOUModel,
    ) -> (r: Result<ParakeetEOU, Error>)
        requires
            model.wf(),
            frontend_matches(model.io.layout) ==> model.io.layout.is_addressable()
                && (tokens.vocab_size + 1) * 4 <= isize::MAX,
        ensures
            r is Ok <==> frontend_matches(model.io.layout),
            r matches Err(e) ==> e@ == ErrorView::Model(mismatch_message(model.io.layout)),
            r matches Ok(eou) ==> {
                &&& eou.wf()
                &&& eou@ == EouState::initial(model.io.layout, tokens)
                &&& eou.model == model
                &&& eou.tokenizer == tokenizer
                &&& eou.tokens == tokens
            },
    {
        let layout = model.encoder_layout();
        if let Err(e) = check_frontend(layout) {
            return Err(e);
        }
        let new_mel = [N_MELS, FRAMES_PER_CHUNK];
        let features = [layout.batch, layout.n_mels, layout.input_frames];
        let out = [layout.batch, layout.hidden_size, layout.output_frames];
        let frame = [layout.batch, layout.hidden_size, 1usize];
        let logits = [1usize, 1usize, tokens.vocab_size + 1];
        proof {
            lemma_front_end_is_addressable();
            lemma_shape_size3(1, 1, (tokens.vocab_size + 1) as usize);
            assert(new_mel@ =~= new_mel_shape());
            assert(features@ =~= layout.features_shape());
            assert(out@ =~= layout.output_shape());
            assert(frame@ =~= layout.frame_shape());
            assert(logits@ =~= logits_shape(tokens.vocab_size));
        }
        let eou = ParakeetEOU {
            model,
            tokenizer,
            tokens,
            encoder_cache: EncoderCache::new(layout),
            state_h: zero_state(),
            state_c: zero_state(),
            next_state_h: zero_state(),
            next_state_c: zero_state(),
            last_token: tokens.blank_id,
            mel_frame_cache: silent_mel_cache(),
            feature_window: zero_window(),
            new_mel_frames: Tensor::new(&new_mel),
            features: Tensor::new(&features),
            encoder_out: Tensor::new(&out),
            decoder_frame: Tensor::new(&frame),
            logits: Tensor::new(&logits),
            audio_buffer: VecDeque::new(),
            chunk_counter: 0,
            first_non_empty_emitted: false,
            segment_has_text: false,
        };
        assert(eou@ =~= EouState::initial(layout, tokens));
        Ok(eou)
    }

    /// The recogniser of a model and its tokenizer. The steering tokens come from the
    /// tokenizer's vocabulary. An encoder that does not fit the front end is refused;
    /// there is no recogniser where its buffers are too large to be addressed.
    pub fn from_pretrained(tokenizer: tokenizers::Tokenizer, model: ParakeetEOUModel) -> (r: Result<
        Option<ParakeetEOU>,
        Error,
    >)
        requires
            model.wf(),
        ensures
            ({
                let tokens = steering_tokens(
                    tokenizer_vocab(tokenizer).dom().len(),
                    lookup(tokenizer_vocab(tokenizer), "<EOU>"@),
                    lookup(tokenizer_vocab(tokenizer), "<EOB>"@),
                );
                let layout = model.io.layout;
                &&& r is Ok <==> frontend_matches(layout)
                &&& r matches Err(e) ==> e@ == ErrorView::Model(mismatch_message(layout))
                &&& r matches Ok(found) ==> {
                    &&& found is Some <==> layout.is_addressable() && (tokens.vocab_size + 1) * 4
                        <= isize::MAX
                    &&& found matches Some(eou) ==> {
                        &&& eou.wf()
                        &&& eou@ == EouState::initial(layout, tokens)
                        &&& eou.model == model
                        &&& eou.tokenizer == tokenizer
                        &&& eou.tokens == tokens
                    }
                }
            }),
    {
        let tokens = TokenIds::of_tokenizer(&tokenizer);
        if let Err(e) = check_frontend(model.encoder_layout()) {
            return Err(e);
        }
        if !model.encoder_layout().can_be_addressed() || tokens.vocab_size >= isize::MAX as usize
            / 4 {
            return Ok(None);
        }
        match ParakeetEOU::with_tokens(tokenizer, tokens, model) {
            Ok(eou) => Ok(Some(eou)),
            Err(e) => Err(e),
        }
    }

    /// Resets all streaming state for a new recognition session: the recogniser is as it
    /// was before its first chunk. Finding an endpoint does not do this.
    pub fn reset(&mut self)
        requires
            old(self).wf(),
        ensures
            final(self).wf(),
            final(self).same_setup(*old(self)),
            final(self)@ == EouState::initial(old(self).model.io.layout, old(self).tokens),
    {
        let layout = self.model.encoder_layout();
        self.encoder_cache = EncoderCache::new(layout);
        clear(&mut self.state_h, 0);
        clear(&mut self.state_c, 0);
        clear(&mut self.next_state_h, 0);
        clear(&mut self.next_state_c, 0);
        self.last_token = self.tokens.blank_id;
        clear(&mut self.mel_frame_cache, LOG_MEL_ZERO);
        self.feature_window = zero_window();
        clear(&mut self.new_mel_frames, 0);
        clear(&mut self.features, 0);
        clear(&mut self.encoder_out, 0);
        clear(&mut self.decoder_frame, 0);
        clear(&mut self.logits, 0);
        self.audio_buffer.clear();
        self.chunk_counter = 0;
        self.first_non_empty_emitted = false;
        self.segment_has_text = false;
        assert(self@ =~= EouState::initial(layout, self.tokens));
    }
}

/// What has happened since the last action.
pub enum TranscribeEvent<'a> {
    /// The samples of the chunk are there.
    Audio(&'a [u32]),
    /// The window has been turned into these mel frames.
    MelFrames(&'a [u32]),
    /// The encoder has encoded that many frames.
    Encoded(usize),
    /// The decoder has filled the logits and the next states.
    Decoded,
    /// The token has been turned into this text, if it could be.
    Text(Option<String>),
}

/// What one step of a transcription leads to.
#[verifier::ext_equal]
pub struct Outcome {
    pub state: EouState,
    pub session: TranscriptionView,
    pub action: ActionView,
}

/// What a recogniser reads but never writes.
pub struct Setup {
    pub tokenizer: tokenizers::Tokenizer,
    pub tokens: TokenIds,
    pub layout: EncoderLayout,
}

/// The chunk is handed out with that text.
pub open spec fn finished(
    s: EouState,
    p: TranscriptionView,
    text: Seq<char>,
    endpoint_detected: bool,
) -> Outcome {
    Outcome {
        state: s,
        session: TranscriptionView { stage: Stage::Finished, ..p },
        action: ActionView::Finish { text, endpoint_detected },
    }
}

/// The samples join those that are kept. Too few of them for one analysis window give
/// an empty chunk; else they make up the window of the chunk.
pub open spec fn after_audio(s: EouState, p: TranscriptionView, samples: Seq<u32>) -> Outcome {
    let audio = kept_samples(s.audio + samples);
    let heard = EouState { audio, chunk_counter: (s.chunk_counter + 1) as u64, ..s };
    if audio.len() < WIN_LENGTH {
        finished(heard, p, Seq::empty(), false)
    } else {
        Outcome {
            state: EouState { feature_window: feature_window_of(audio), ..heard },
            session: TranscriptionView { stage: Stage::Extracting, ..p },
            action: ActionView::ExtractMelFrames,
        }
    }
}

/// The encoder's input: the mel frames kept from the chunk before, then the new ones.
pub open spec fn features_of(kept: Seq<u32>, new: Seq<u32>) -> Seq<u32> {
    side_by_side(
        kept,
        PRE_ENCODE_CACHE as nat,
        new,
        FRAMES_PER_CHUNK as nat,
        N_MELS as nat,
    )
}

/// The new mel frames become features behind those kept from the chunk before.
pub open spec fn after_mel_frames(s: EouState, p: TranscriptionView, mel: Seq<u32>) -> Outcome {
    Outcome {
        state: EouState {
            new_mel_frames: s.new_mel_frames.with_words(mel),
            features: s.features.with_words(features_of(s.mel_frame_cache.words, mel)),
            ..s
        },
        session: TranscriptionView { stage: Stage::Encoding, ..p },
        action: ActionView::RunEncoder,
    }
}

/// The mel frames that are kept for the next chunk: the last of the features.
pub open spec fn kept_mel_frames(features: Seq<u32>) -> Seq<u32> {
    columns(
        features,
        N_MELS as nat,
        SLICE_LEN as nat,
        (SLICE_LEN - PRE_ENCODE_CACHE) as nat,
        PRE_ENCODE_CACHE as nat,
    )
}

/// One frame of the encoder's output.
pub open spec fn encoded_frame(out: Seq<u32>, layout: EncoderLayout, frame: usize) -> Seq<u32> {
    columns(out, layout.hidden_size as nat, layout.output_frames as nat, frame as nat, 1)
}

/// The search moves to an encoded frame, or is given up where the output does not hold
/// that frame.
pub open spec fn at_frame(
    setup: Setup,
    s: EouState,
    p: TranscriptionView,
    frame: usize,
) -> Outcome {
    if frame < setup.layout.output_frames {
        Outcome {
            state: EouState {
                decoder_frame: s.decoder_frame.with_words(
                    encoded_frame(s.encoder.out.words, setup.layout, frame),
                ),
                ..s
            },
            session: TranscriptionView { stage: Stage::Decoding, frame, symbols: 0, ..p },
            action: ActionView::RunDecoder,
        }
    } else {
        Outcome {
            state: s,
            session: TranscriptionView { stage: Stage::Stuck, ..p },
            action: ActionView::MissingFrame(frame),
        }
    }
}

/// The last features are kept for the next chunk, and the search begins at the first
/// encoded frame. Without any the chunk is empty.
pub open spec fn after_encoded(
    setup: Setup,
    s: EouState,
    p: TranscriptionView,
    total_frames: usize,
) -> Outcome {
    let kept = EouState {
        mel_frame_cache: s.mel_frame_cache.with_words(kept_mel_frames(s.features.words)),
        ..s
    };
    if total_frames == 0 {
        finished(kept, p, Seq::empty(), false)
    } else {
        at_frame(setup, kept, TranscriptionView { total_frames, ..p }, 0)
    }
}

/// The search moves on to the next frame, or ends after the last one.
pub open spec fn next_frame(setup: Setup, s: EouState, p: TranscriptionView) -> Outcome {
    if p.frame + 1 < p.total_frames {
        at_frame(setup, s, p, (p.frame + 1) as usize)
    } else {
        finished(
            EouState {
                first_non_empty_emitted: s.first_non_empty_emitted || p.text.len() > 0,
                ..s
            },
            p,
            p.text,
            false,
        )
    }
}

/// The search goes on in the same frame, unless it has given enough tokens.
pub open spec fn same_frame(setup: Setup, s: EouState, p: TranscriptionView) -> Outcome {
    if p.symbols < MAX_SYMBOLS_PER_STEP {
        Outcome {
            state: s,
            session: TranscriptionView { stage: Stage::Decoding, ..p },
            action: ActionView::RunDecoder,
        }
    } else {
        next_frame(setup, s, p)
    }
}

/// There is text, and it is not empty.
pub open spec fn is_some_text(text: Option<Seq<char>>) -> bool {
    text is Some && text->0.len() > 0
}

/// The text of a token has come in, if the token had one that could be decoded. The
/// segment has text from the first text that is not empty.
pub open spec fn after_text(
    setup: Setup,
    s: EouState,
    p: TranscriptionView,
    text: Option<Seq<char>>,
) -> Outcome {
    same_frame(
        setup,
        EouState { segment_has_text: s.segment_has_text || is_some_text(text), ..s },
        TranscriptionView {
            text: match text {
                Some(text) => p.text + text,
                None => p.text,
            },
            ..p
        },
    )
}

/// The decoder's new states and the token are taken over.
pub open spec fn committed(s: EouState, token: i32) -> EouState {
    EouState {
        state_h: s.state_h.with_words(s.next_state_h.words),
        state_c: s.state_c.with_words(s.next_state_c.words),
        last_token: token,
        ..s
    }
}

/// The best token of the logits.
pub open spec fn best_token(s: EouState) -> i32 {
    best_index(s.logits.words) as i32
}

/// What becomes of the best token of the logits.
pub open spec fn decision_on(setup: Setup, s: EouState, p: TranscriptionView) -> Decision {
    decision(
        setup.tokens,
        best_token(s),
        lookup(tokenizer_tokens(setup.tokenizer), best_token(s) as u32),
        p.detect_eou,
        s.segment_has_text || p.text.len() > 0,
    )
}

/// The text of a token is decoded as soon as the token is taken: that always returns.
pub open spec fn emits_at_once(setup: Setup) -> bool {
    decoders_always_return(tokenizer_decoders(setup.tokenizer))
}

/// The decoder has run: the best token ends the frame or the segment, or it is taken
/// over. Its text is asked for where decoding it might not return.
pub open spec fn after_decoded(setup: Setup, s: EouState, p: TranscriptionView) -> Outcome {
    let token = best_token(s);
    let more = TranscriptionView { symbols: (p.symbols + 1) as usize, ..p };
    match decision_on(setup, s, p) {
        Decision::NextFrame => next_frame(setup, s, p),
        Decision::Endpoint => finished(
            EouState { segment_has_text: false, ..s },
            p,
            p.text,
            true,
        ),
        Decision::Skip => same_frame(setup, committed(s, token), more),
        Decision::Emit => if emits_at_once(setup) {
            after_text(
                setup,
                committed(s, token),
                more,
                tokenizer_decoded(setup.tokenizer, seq![token as u32], true),
            )
        } else {
            Outcome {
                state: committed(s, token),
                session: TranscriptionView { stage: Stage::Naming, ..more },
                action: ActionView::DecodeToken(token as u32),
            }
        },
    }
}

/// What one step of a transcription leads to.
pub open spec fn after_event(
    setup: Setup,
    s: EouState,
    p: TranscriptionView,
    event: TranscribeEvent,
) -> Outcome {
    match event {
        TranscribeEvent::Audio(samples) => after_audio(s, p, samples@),
        TranscribeEvent::MelFrames(mel) => after_mel_frames(s, p, mel@),
        TranscribeEvent::Encoded(total_frames) => after_encoded(setup, s, p, total_frames),
        TranscribeEvent::Decoded => after_decoded(setup, s, p),
        TranscribeEvent::Text(text) => after_text(setup, s, p, text_of(text)),
    }
}

/// The event is the one that is awaited, and it fits.
pub open spec fn expects(
    layout: EncoderLayout,
    s: EouState,
    p: TranscriptionView,
    event: TranscribeEvent,
) -> bool {
    match event {
        TranscribeEvent::Audio(_) => p.stage == Stage::Listening && s.chunk_counter < u64::MAX,
        TranscribeEvent::MelFrames(mel) => p.stage == Stage::Extracting && mel@.len() == N_MELS
            * FRAMES_PER_CHUNK,
        TranscribeEvent::Encoded(_) => p.stage == Stage::Encoding,
        TranscribeEvent::Decoded => p.stage == Stage::Decoding,
        TranscribeEvent::Text(_) => p.stage == Stage::Naming,
    }
}

impl ParakeetEOU {
    /// What this recogniser reads but never writes.
    pub open spec fn setup(self) -> Setup {
        Setup { tokenizer: self.tokenizer, tokens: self.tokens, layout: self.model.io.layout }
    }
}

/// A step has led a recogniser and a transcription from where they were to that
/// outcome, and left the recogniser's setup alone.
pub open spec fn led_to(
    before: ParakeetEOU,
    after: ParakeetEOU,
    session: Transcription,
    action: TranscribeAction,
    outcome: Outcome,
) -> bool {
    &&& after.same_setup(before)
    &&& after@ == outcome.state
    &&& session@ == outcome.session
    &&& action@ == outcome.action
}

fn hand_out(session: &mut Transcription, endpoint_detected: bool) -> (r: TranscribeAction)
    ensures
        final(session)@ == (TranscriptionView { stage: Stage::Finished, ..old(session)@ }),
        r@ == (ActionView::Finish { text: old(session)@.text, endpoint_detected }),
{
    session.stage = Stage::Finished;
    TranscribeAction::Finish(ParakeetEOUChunk { text: session.text.clone(), endpoint_detected })
}

fn hand_out_nothing(session: &mut Transcription) -> (r: TranscribeAction)
    ensures
        final(session)@ == (TranscriptionView { stage: Stage::Finished, ..old(session)@ }),
        r@ == (ActionView::Finish { text: Seq::empty(), endpoint_detected: false }),
{
    session.stage = Stage::Finished;
    TranscribeAction::Finish(ParakeetEOUChunk::default())
}

fn copy_tensor(target: &mut Tensor, source: &Tensor)
    requires
        old(target)@.standard,
        source@.standard,
        old(target)@.words.len() == source@.words.len(),
    ensures
        final(target)@ == old(target)@.with_words(source@.words),
{
    if let Some(words) = source.words() {
        target.store(words);
    }
}

impl ParakeetEOU {
    fn listen(&mut self, session: &mut Transcription, samples: &[u32]) -> (r: TranscribeAction)
        requires
            old(self).wf(),
            old(self).chunk_counter < u64::MAX,
        ensures
            led_to(
                *old(self),
                *final(self),
                *final(session),
                r,
                after_audio(old(self)@, old(session)@, samples@),
            ),
    {
        self.chunk_counter = self.chunk_counter + 1;
        push_samples(&mut self.audio_buffer, samples);
        if self.audio_buffer.len() < WIN_LENGTH {
            return hand_out_nothing(session);
        }
        self.build_feature_window();
        session.stage = Stage::Extracting;
        TranscribeAction::ExtractMelFrames
    }

    /// Fills the window of a chunk from the audio that is kept.
    pub fn build_feature_window(&mut self)
        requires
            old(self)@.feature_window.len() == FEATURE_WINDOW_SAMPLES,
            old(self)@.audio.len() <= FEATURE_WINDOW_SAMPLES,
        ensures
            final(self).same_setup(*old(self)),
            final(self)@ == (EouState {
                feature_window: feature_window_of(old(self)@.audio),
                ..old(self)@
            }),
    {
        fill_window(&mut self.feature_window, &self.audio_buffer);
    }

    /// The length of the encoder's cache, or -1 where it has none.
    pub fn encoder_cache_len(&self) -> (r: i64)
        ensures
            r == (if self@.encoder.lengths.len() > 0 {
                self@.encoder.lengths[0]
            } else {
                -1i64
            }),
    {
        self.encoder_cache.first_length()
    }

    fn take_mel_frames(&mut self, session: &mut Transcription, mel: &[u32]) -> (r: TranscribeAction)
        requires
            old(self).wf(),
            mel@.len() == N_MELS * FRAMES_PER_CHUNK,
        ensures
            led_to(
                *old(self),
                *final(self),
                *final(session),
                r,
                after_mel_frames(old(self)@, old(session)@, mel@),
            ),
    {
        proof {
            lemma_shape_size2(N_MELS, PRE_ENCODE_CACHE);
            lemma_shape_size2(N_MELS, FRAMES_PER_CHUNK);
            lemma_shape_size3(1, N_MELS, SLICE_LEN);
        }
        self.new_mel_frames.store(mel);
        if let Some(kept) = self.mel_frame_cache.words() {
            let features = join_columns(kept, PRE_ENCODE_CACHE, mel, FRAMES_PER_CHUNK, N_MELS);
            self.features.store(features.as_slice());
        }
        session.stage = Stage::Encoding;
        TranscribeAction::RunEncoder
    }

    fn go_to_frame(&mut self, session: &mut Transcription, frame: usize) -> (r: TranscribeAction)
        requires
            old(self).wf(),
        ensures
            led_to(
                *old(self),
                *final(self),
                *final(session),
                r,
                at_frame(old(self).setup(), old(self)@, old(session)@, frame),
            ),
    {
        let layout = self.model.encoder_layout();
        if frame >= layout.output_frames {
            session.stage = Stage::Stuck;
            return TranscribeAction::MissingFrame(frame);
        }
        proof {
            lemma_shape_size3(1, layout.hidden_size, layout.output_frames);
            lemma_shape_size3(1, layout.hidden_size, 1);
        }
        if let Some(out) = self.encoder_out.words() {
            let words = take_columns(out, layout.hidden_size, layout.output_frames, frame, 1);
            self.decoder_frame.store(words.as_slice());
        }
        session.stage = Stage::Decoding;
        session.frame = frame;
        session.symbols = 0;
        TranscribeAction::RunDecoder
    }

    fn take_encoded(&mut self, session: &mut Transcription, total_frames: usize) -> (r:
        TranscribeAction)
        requires
            old(self).wf(),
        ensures
            led_to(
                *old(self),
                *final(self),
                *final(session),
                r,
                after_encoded(old(self).setup(), old(self)@, old(session)@, total_frames),
            ),
    {
        proof {
            lemma_shape_size2(N_MELS, PRE_ENCODE_CACHE);
            lemma_shape_size3(1, N_MELS, SLICE_LEN);
        }
        if let Some(features) = self.features.words() {
            let kept = take_columns(
                features,
                N_MELS,
                SLICE_LEN,
                SLICE_LEN - PRE_ENCODE_CACHE,
                PRE_ENCODE_CACHE,
            );
            self.mel_frame_cache.store(kept.as_slice());
        }
        if total_frames == 0 {
            return hand_out_nothing(session);
        }
        session.total_frames = total_frames;
        self.go_to_frame(session, 0)
    }

    fn leave_frame(&mut self, session: &mut Transcription) -> (r: TranscribeAction)
        requires
            old(self).wf(),
            old(session).frame < old(session).total_frames,
        ensures
            led_to(
                *old(self),
                *final(self),
                *final(session),
                r,
                next_frame(old(self).setup(), old(self)@, old(session)@),
            ),
    {
        if session.frame + 1 < session.total_frames {
            let frame: usize = session.frame + 1;
            self.go_to_frame(session, frame)
        } else {
            if !session.text.as_str().is_empty() {
                self.first_non_empty_emitted = true;
            }
            hand_out(session, false)
        }
    }

    fn stay_in_frame(&mut self, session: &mut Transcription) -> (r: TranscribeAction)
        requires
            old(self).wf(),
            old(session).frame < old(session).total_frames,
        ensures
            led_to(
                *old(self),
                *final(self),
                *final(session),
                r,
                same_frame(old(self).setup(), old(self)@, old(session)@),
            ),
    {
        if session.symbols < MAX_SYMBOLS_PER_STEP {
            session.stage = Stage::Decoding;
            TranscribeAction::RunDecoder
        } else {
            self.leave_frame(session)
        }
    }

    fn take_text(&mut self, session: &mut Transcription, text: Option<String>) -> (r:
        TranscribeAction)
        requires
            old(self).wf(),
            old(session).frame < old(session).total_frames,
        ensures
            led_to(
                *old(self),
                *final(self),
                *final(session),
                r,
                after_text(old(self).setup(), old(self)@, old(session)@, text_of(text)),
            ),
    {
        if let Some(text) = text {
            session.text.append(text.as_str());
            if !text.as_str().is_empty() {
                self.segment_has_text = true;
            }
        }
        self.stay_in_frame(session)
    }

    fn commit(&mut self, token: i32)
        requires
            old(self).wf(),
        ensures
            final(self).wf(),
            final(self).same_setup(*old(self)),
            final(self)@ == committed(old(self)@, token),
    {
        copy_tensor(&mut self.state_h, &self.next_state_h);
        copy_tensor(&mut self.state_c, &self.next_state_c);
        self.last_token = token;
    }

    fn take_token(&mut self, session: &mut Transcription) -> (r: TranscribeAction)
        requires
            old(self).wf(),
            old(session)@.stage == Stage::Decoding,
            old(session)@.wf(old(self).model.io.layout.output_frames),
        ensures
            led_to(
                *old(self),
                *final(self),
                *final(session),
                r,
                after_decoded(old(self).setup(), old(self)@, old(session)@),
            ),
    {
        let token: i32 = match self.logits.words() {
            Some(words) => argmax(words),
            None => 0,
        };
        if !is_in_vocabulary(self.tokens, token) {
            return self.leave_frame(session);
        }
        let token_text = id_to_token(&self.tokenizer, token as u32);
        let shown: Option<&str> = match &token_text {
            Some(text) => Some(text.as_str()),
            None => None,
        };
        let has_text = self.segment_has_text || !session.text.as_str().is_empty();
        match decide(self.tokens, token, shown, session.detect_eou, has_text) {
            Decision::NextFrame => self.leave_frame(session),
            Decision::Endpoint => {
                self.segment_has_text = false;
                hand_out(session, true)
            },
            Decision::Skip => {
                self.commit(token);
                session.symbols = session.symbols + 1;
                self.stay_in_frame(session)
            },
            Decision::Emit => {
                self.commit(token);
                session.symbols = session.symbols + 1;
                if decode_returns(&self.tokenizer) {
                    let ids = [token as u32];
                    assert(ids@ =~= seq![token as u32]);
                    let text = decode(&self.tokenizer, &ids, true);
                    self.take_text(session, text)
                } else {
                    session.stage = Stage::Naming;
                    TranscribeAction::DecodeToken(token as u32)
                }
            },
        }
    }

    /// Takes one step in the transcription of a chunk: what has happened since the last
    /// action leads to the next one.
    ///
    /// The chunk joins the audio that is kept; the mel frames of the window go to the
    /// encoder behind those kept from the chunk before; and every encoded frame is searched
    /// for tokens until it gives the blank. Where endpoints are looked for, a token that
    /// ends an utterance ends the chunk, once text that is not empty has been emitted in the
    /// segment. That does not reset the recogniser. Where more frames are said to be encoded
    /// than the output holds, the step that reaches the first of them gives up.
    pub fn transcribe(&mut self, session: &mut Transcription, event: TranscribeEvent) -> (r:
        TranscribeAction)
        requires
            old(self).wf(),
            old(session)@.wf(old(self).model.io.layout.output_frames),
            expects(old(self).model.io.layout, old(self)@, old(session)@, event),
        ensures
            led_to(
                *old(self),
                *final(self),
                *final(session),
                r,
                after_event(old(self).setup(), old(self)@, old(session)@, event),
            ),
            final(self).wf(),
            final(session)@.wf(old(self).model.io.layout.output_frames),
    {
        proof {
            steps_keep_everything_in_place(self.setup(), self@, session@, event);
        }
        match event {
            TranscribeEvent::Audio(samples) => self.listen(session, samples),
            TranscribeEvent::MelFrames(mel) => self.take_mel_frames(session, mel),
            TranscribeEvent::Encoded(total_frames) => self.take_encoded(session, total_frames),
            TranscribeEvent::Decoded => self.take_token(session),
            TranscribeEvent::Text(text) => self.take_text(session, text),
        }
    }
}

/// Every step keeps the buffers in shape and the search within its bounds: no frame is
/// searched that was not encoded, and none gives more tokens than it may.
pub proof fn steps_keep_everything_in_place(
    setup: Setup,
    s: EouState,
    p: TranscriptionView,
    event: TranscribeEvent,
)
    requires
        frontend_matches(setup.layout),
        s.wf(setup.layout, setup.tokens.vocab_size),
        p.wf(setup.layout.output_frames),
        expects(setup.layout, s, p, event),
    ensures
        after_event(setup, s, p, event).state.wf(setup.layout, setup.tokens.vocab_size),
        after_event(setup, s, p, event).session.wf(setup.layout.output_frames),
{
    lemma_shape_size2(N_MELS, PRE_ENCODE_CACHE);
    lemma_shape_size2(N_MELS, FRAMES_PER_CHUNK);
    lemma_shape_size3(1, N_MELS, SLICE_LEN);
    lemma_shape_size3(1, setup.layout.hidden_size, 1);
}

impl ParakeetEOU {
    /// Starts a run of the ONNX encoder on the features, and gives the inputs that are to
    /// be bound for it.
    pub fn begin_encoder_run(&mut self) -> (r: Vec<InputBinding>)
        requires
            old(self).wf(),
            old(self).model.litert_encoder is None,
        ensures
            final(self).wf(),
            final(self)@ == old(self)@,
            final(self).tokenizer == old(self).tokenizer,
            final(self).tokens == old(self).tokens,
            final(self).model.io == old(self).model.io,
            final(self).model.litert_encoder == old(self).model.litert_encoder,
            final(self).model.full_litert == old(self).model.full_litert,
            final(self).model.encoder_length@ == seq![SLICE_LEN as i64],
            final(self).model.litert_projected_current_key
                == old(self).model.litert_projected_current_key,
            final(self).model.litert_projected_current_value
                == old(self).model.litert_projected_current_value,
            final(self).model.decoder_target_length == old(self).model.decoder_target_length,
            bound_inputs(r@) == encoder_inputs(old(self).model.io),
    {
        let r = self.model.begin_encoder_run(SLICE_LEN as i64);
        assert(self.model.encoder_length@ =~= seq![SLICE_LEN as i64]);
        r
    }

    /// Takes what a run of the encoder gave into the caches and the output buffer, and
    /// gives the number of encoded frames.
    pub fn run_encoder_into(&mut self, reply: EncoderReply) -> (r: Result<usize, Error>)
        requires
            old(self).wf(),
            old(self).model.accepts_encoder_reply(
                old(self).encoder_cache,
                old(self).encoder_out,
                reply,
            ),
        ensures
            final(self).wf(),
            ({
                let (encoder, result) = after_encoder_reply(
                    old(self).model,
                    old(self)@.encoder,
                    reply,
                );
                &&& final(self)@ == (EouState { encoder, ..old(self)@ })
                &&& outcome(r) == result
            }),
            match reply {
                EncoderReply::LiteRt(reply) => {
                    let after = after_litert_run(
                        old(self).model.litert_encoder->0,
                        old(self)@.encoder,
                        old(self).model.litert_projected_current_key@,
                        old(self).model.litert_projected_current_value@,
                        reply,
                    );
                    &&& final(self).model.litert_projected_current_key@ == after.current_key
                    &&& final(self).model.litert_projected_current_value@ == after.current_value
                },
                EncoderReply::Onnx(_) => final(self).model == old(self).model,
            },
            final(self).tokenizer == old(self).tokenizer,
            final(self).tokens == old(self).tokens,
            final(self).model.io == old(self).model.io,
            final(self).model.litert_encoder == old(self).model.litert_encoder,
            final(self).model.full_litert == old(self).model.full_litert,
            final(self).model.encoder_length == old(self).model.encoder_length,
            final(self).model.decoder_target_length == old(self).model.decoder_target_length,
    {
        proof {
            encoder_replies_keep_the_layout(
                self.model,
                self.model.io.layout,
                self.encoder_cache,
                self.encoder_out,
                reply,
            );
        }
        self.model.run_encoder_into(&mut self.encoder_cache, &mut self.encoder_out, reply)
    }

    /// Takes what a run of the decoder gave into the logits and the next states.
    pub fn run_decoder_into(&mut self, reply: DecoderReply) -> (r: Result<(), Error>)
        requires
            old(self).wf(),
            old(self).model.accepts_decoder_reply(decoder_buffers(old(self)@), reply),
        ensures
            final(self).wf(),
            final(self).same_setup(*old(self)),
            ({
                let (after, result) = after_decoder_reply(decoder_buffers(old(self)@), reply);
                &&& final(self)@ == (EouState {
                    logits: after.logits,
                    next_state_h: after.state_h,
                    next_state_c: after.state_c,
                    ..old(self)@
                })
                &&& outcome(r) == result
            }),
    {
        proof {
            decoder_replies_keep_the_buffers(self.model, decoder_buffers(self@), reply);
        }
        self.model.run_decoder_into(
            &mut self.logits,
            &mut self.next_state_h,
            &mut self.next_state_c,
            reply,
        )
    }

    /// The files with the profiles of the two sessions, the encoder's first. A session
    /// that is not open, or that wrote no profile, adds none.
    pub fn end_profiling(encoder: Option<String>, decoder: Option<String>) -> (r: Vec<String>)
        ensures
            r@ == profile(encoder) + profile(decoder),
    {
        ParakeetEOUModel::end_profiling(encoder, decoder)
    }
}

/// What a decoder run fills.
pub open spec fn decoder_buffers(s: EouState) -> DecoderBuffers {
    DecoderBuffers { logits: s.logits, state_h: s.next_state_h, state_c: s.next_state_c }
}

/// An endpoint is reported only where it is looked for and text has been emitted in the
/// segment. It begins a new segment, and leaves everything else as it was: the caches,
/// the decoder's states and its last token, and the audio.
pub proof fn endpoints_end_segments_and_nothing_else(
    setup: Setup,
    s: EouState,
    p: TranscriptionView,
    event: TranscribeEvent,
)
    requires
        after_event(setup, s, p, event).action matches ActionView::Finish { endpoint_detected, .. }
            && endpoint_detected,
    ensures
        event is Decoded,
        p.detect_eou,
        s.segment_has_text || p.text.len() > 0,
        after_event(setup, s, p, event).state == (EouState { segment_has_text: false, ..s }),
        after_event(setup, s, p, event).action == (ActionView::Finish {
            text: p.text,
            endpoint_detected: true,
        }),
{
}

/// Every decoder run and every text that is awaited brings the end of the chunk nearer.
pub proof fn transcriptions_end(
    setup: Setup,
    s: EouState,
    p: TranscriptionView,
    event: TranscribeEvent,
)
    requires
        p.wf(setup.layout.output_frames),
        expects(setup.layout, s, p, event),
        event is Decoded || event is Text,
    ensures
        after_event(setup, s, p, event).session.remaining() < p.remaining(),
{
}

/// A chunk takes at most ten decoder runs and ten texts for each of its frames.
pub proof fn the_search_is_bounded(
    setup: Setup,
    s: EouState,
    p: TranscriptionView,
    total_frames: usize,
)
    ensures
        after_encoded(setup, s, p, total_frames).session.remaining() <= total_frames * 20,
{
}

/// The text of a chunk only grows, and it is handed out as it stands.
pub proof fn text_only_grows(
    setup: Setup,
    s: EouState,
    p: TranscriptionView,
    event: TranscribeEvent,
)
    ensures
        ({
            let after = after_event(setup, s, p, event);
            &&& p.text.is_prefix_of(after.session.text)
            &&& after.session.stage == Stage::Finished <==> after.action is Finish
            &&& (event is Decoded || event is Text) && after.action is Finish
                ==> after.action->text == after.session.text
        }),
{
    let after = after_event(setup, s, p, event);
    assert(p.text =~= after.session.text.subrange(0, p.text.len() as int));
}

/// A segment has text from the first text in it that is not empty until its endpoint. A
/// token without text, or with one that cannot be decoded, leaves that as it was.
pub proof fn segments_remember_their_text(
    setup: Setup,
    s: EouState,
    p: TranscriptionView,
    event: TranscribeEvent,
)
    ensures
        after_event(setup, s, p, event).state.segment_has_text == match event {
            TranscribeEvent::Text(text) => s.segment_has_text || is_some_text(text_of(text)),
            TranscribeEvent::Decoded => match decision_on(setup, s, p) {
                Decision::Endpoint => false,
                Decision::Emit => s.segment_has_text || (emits_at_once(setup) && is_some_text(
                    tokenizer_decoded(setup.tokenizer, seq![best_token(s) as u32], true),
                )),
                _ => s.segment_has_text,
            },
            _ => s.segment_has_text,
        },
{
}

/// The best token is one of the vocabulary or the blank, as long as their numbers fit.
pub proof fn the_best_token_is_known(s: EouState, vocab_size: usize)
    requires
        s.logits.words.len() == vocab_size + 1,
        vocab_size <= i32::MAX,
    ensures
        0 <= best_token(s) <= vocab_size,
{
    if some_finite(s.logits.words) {
        best_index_is_first_maximum(s.logits.words);
    }
}

/// The mel frames that a chunk keeps are the last of its new ones.
pub proof fn the_last_new_mel_frames_are_kept(kept: Seq<u32>, new: Seq<u32>)
    requires
        kept.len() == N_MELS * PRE_ENCODE_CACHE,
        new.len() == N_MELS * FRAMES_PER_CHUNK,
    ensures
        kept_mel_frames(features_of(kept, new)) == columns(
            new,
            N_MELS as nat,
            FRAMES_PER_CHUNK as nat,
            (FRAMES_PER_CHUNK - PRE_ENCODE_CACHE) as nat,
            PRE_ENCODE_CACHE as nat,
        ),
{
    last_joined_columns_come_from_the_right(
        kept,
        PRE_ENCODE_CACHE as nat,
        new,
        FRAMES_PER_CHUNK as nat,
        N_MELS as nat,
        PRE_ENCODE_CACHE as nat,
    );
}

/// Where a token ends the frame or the segment, the decoder's states and its last token
/// stay; where it is taken over, they become the decoder's new states and the token.
pub proof fn only_taken_tokens_move_the_decoder(setup: Setup, s: EouState, p: TranscriptionView)
    ensures
        ({
            let after = after_decoded(setup, s, p).state;
            match decision_on(setup, s, p) {
                Decision::NextFrame | Decision::Endpoint => {
                    &&& after.state_h == s.state_h
                    &&& after.state_c == s.state_c
                    &&& after.last_token == s.last_token
                },
                Decision::Skip | Decision::Emit => {
                    &&& after.state_h.words == s.next_state_h.words
                    &&& after.state_c.words == s.next_state_c.words
                    &&& after.last_token == best_token(s)
                },
            }
        }),
{
}

} // verus!
