//! The greedy search for tokens: what becomes of the best token of a decoder run, and
//! where the search stands.

use crate::vocabulary::{steering_tokens, str_text, TokenIds};
use vstd::prelude::*;

verus! {

/// How many tokens one encoded frame may give.
pub const MAX_SYMBOLS_PER_STEP: usize = 10;

/// What becomes of the best token.
#[derive(Clone, Copy, Debug, PartialEq, Eq, Structural)]
pub enum Decision {
    /// The frame has nothing more to give.
    NextFrame,
    /// The segment ends here.
    Endpoint,
    /// The token goes to the decoder, but stands for no text.
    Skip,
    /// The token goes to the decoder, and its text is emitted.
    Emit,
}

/// What becomes of the best token. The blank and tokens beyond the vocabulary end the
/// frame. A token that ends a segment does so only where that is asked for and text
/// has been emitted in the segment; else it ends the frame. Any other token is taken,
/// and has text unless it is a meta token.
pub open spec fn decision(
    tokens: TokenIds,
    token: i32,
    token_text: Option<Seq<char>>,
    detect_eou: bool,
    has_text: bool,
) -> Decision {
    if token == tokens.blank_id || token as usize >= tokens.vocab_size {
        Decision::NextFrame
    } else {
        match tokens.meta_kind(token, token_text) {
            None => Decision::Emit,
            Some(kind) => if !kind.ends_segment() {
                Decision::Skip
            } else if detect_eou && has_text {
                Decision::Endpoint
            } else {
                Decision::NextFrame
            },
        }
    }
}

/// Whether the best token can be looked up: it is neither the blank nor beyond the
/// vocabulary.
pub fn is_in_vocabulary(tokens: TokenIds, token: i32) -> (r: bool)
    ensures
        r == !(token == tokens.blank_id || token as usize >= tokens.vocab_size),
{
    !(token == tokens.blank_id || token as usize >= tokens.vocab_size)
}

/// What becomes of the best token. `token_text` is what the vocabulary says of it, and
/// `has_text` whether text has been emitted in the segment.
pub fn decide(
    tokens: TokenIds,
    token: i32,
    token_text: Option<&str>,
    detect_eou: bool,
    has_text: bool,
) -> (r: Decision)
    ensures
        r == decision(tokens, token, str_text(token_text), detect_eou, has_text),
{
    if !is_in_vocabulary(tokens, token) {
        return Decision::NextFrame;
    }
    match tokens.meta_token_kind(token, token_text) {
        None => Decision::Emit,
        Some(kind) => if !kind.is_endpoint() {
            Decision::Skip
        } else if detect_eou && has_text {
            Decision::Endpoint
        } else {
            Decision::NextFrame
        },
    }
}

/// The blank follows the vocabulary: no token of the vocabulary is the blank, and the
/// blank always ends the frame.
pub proof fn the_blank_is_no_token(
    vocab_size: nat,
    eou: Option<u32>,
    eob: Option<u32>,
    token: i32,
    token_text: Option<Seq<char>>,
    detect_eou: bool,
    has_text: bool,
)
    requires
        vocab_size <= i32::MAX,
        vocab_size <= usize::MAX,
    ensures
        ({
            let tokens = steering_tokens(vocab_size, eou, eob);
            &&& 0 <= token < vocab_size ==> token != tokens.blank_id
            &&& decision(tokens, tokens.blank_id, token_text, detect_eou, has_text)
                == Decision::NextFrame
        }),
{
}

/// An endpoint is found only where it is looked for, after text, and at a token that
/// ends a segment.
pub proof fn endpoints_follow_text(
    tokens: TokenIds,
    token: i32,
    token_text: Option<Seq<char>>,
    detect_eou: bool,
    has_text: bool,
)
    requires
        decision(tokens, token, token_text, detect_eou, has_text) == Decision::Endpoint,
    ensures
        detect_eou,
        has_text,
        token == tokens.eou_id || tokens.eob_id == Some(token),
{
}

/// Tokens that end a segment, unknown text and tokens in angle brackets are never
/// emitted.
pub proof fn meta_tokens_are_never_emitted(
    tokens: TokenIds,
    token: i32,
    token_text: Option<Seq<char>>,
    detect_eou: bool,
    has_text: bool,
)
    requires
        tokens.meta_kind(token, token_text) is Some,
    ensures
        decision(tokens, token, token_text, detect_eou, has_text) != Decision::Emit,
{
}

/// Where the transcription of a chunk stands.
#[derive(Clone, Copy, Debug, PartialEq, Eq, Structural)]
pub enum Stage {
    /// The samples of the chunk are awaited.
    Listening,
    /// The mel frames of the window are awaited.
    Extracting,
    /// The run of the encoder is awaited.
    Encoding,
    /// A run of the decoder is awaited.
    Decoding,
    /// The text of the token that was taken last is awaited.
    Naming,
    /// The chunk has been transcribed.
    Finished,
    /// A frame was to be searched that the encoder's output does not hold.
    Stuck,
}

/// The transcription of one chunk.
#[derive(Debug)]
pub struct Transcription {
    pub stage: Stage,
    /// Endpoints are looked for.
    pub detect_eou: bool,
    /// The number of encoded frames.
    pub total_frames: usize,
    /// The encoded frame that is searched.
    pub frame: usize,
    /// The tokens that it has given so far.
    pub symbols: usize,
    /// The text that the chunk has given so far.
    pub text: String,
}

/// The mathematical counterpart of [`Transcription`].
#[verifier::ext_equal]
pub struct TranscriptionView {
    pub stage: Stage,
    pub detect_eou: bool,
    pub total_frames: usize,
    pub frame: usize,
    pub symbols: usize,
    pub text: Seq<char>,
}

impl View for Transcription {
    type V = TranscriptionView;

    open spec fn view(&self) -> TranscriptionView {
        TranscriptionView {
            stage: self.stage,
            detect_eou: self.detect_eou,
            total_frames: self.total_frames,
            frame: self.frame,
            symbols: self.symbols,
            text: self.text@,
        }
    }
}

impl TranscriptionView {
    /// A transcription in which nothing has happened yet.
    pub open spec fn fresh(detect_eou: bool) -> TranscriptionView {
        TranscriptionView {
            stage: Stage::Listening,
            detect_eou,
            total_frames: 0,
            frame: 0,
            symbols: 0,
            text: Seq::empty(),
        }
    }

    /// The frame that is searched is one of those that were encoded and that the output
    /// holds, and it has not given too many tokens.
    pub open spec fn wf(self, output_frames: usize) -> bool {
        match self.stage {
            Stage::Decoding => {
                &&& self.frame < self.total_frames
                &&& self.frame < output_frames
                &&& self.symbols < MAX_SYMBOLS_PER_STEP
            },
            Stage::Naming => {
                &&& self.frame < self.total_frames
                &&& self.frame < output_frames
                &&& 0 < self.symbols <= MAX_SYMBOLS_PER_STEP
            },
            _ => self.symbols <= MAX_SYMBOLS_PER_STEP,
        }
    }

    /// How many decoder runs and texts can still be awaited at most.
    pub open spec fn remaining(self) -> nat {
        match self.stage {
            Stage::Decoding => ((self.total_frames - self.frame) * 20 - 2 * self.symbols) as nat,
            Stage::Naming => ((self.total_frames - self.frame) * 20 - 2 * self.symbols + 1) as nat,
            _ => 0,
        }
    }
}

impl Transcription {
    /// The transcription of a new chunk.
    pub fn new(detect_eou: bool) -> (r: Transcription)
        ensures
            r@ == TranscriptionView::fresh(detect_eou),
    {
        let text = "".to_owned();
        proof {
            reveal_strlit("");
        }
        assert(text@ =~= Seq::<char>::empty());
        Transcription {
            stage: Stage::Listening,
            detect_eou,
            total_frames: 0,
            frame: 0,
            symbols: 0,
            text,
        }
    }
}

/// The blank, and any token beyond the vocabulary, ends the frame; so does a token that ends
/// a segment where that is not looked for or nothing was said. Elsewhere that token ends the
/// segment. Of the others, unknown text and what stands in angle brackets is skipped, and
/// the rest is emitted.
pub proof fn every_token_has_one_fate(
    tokens: TokenIds,
    token: i32,
    token_text: Option<&str>,
    detect_eou: bool,
    has_text: bool,
    r: Decision,
    known: bool,
)
    requires
        call_ensures(decide, (tokens, token, token_text, detect_eou, has_text), r),
        call_ensures(is_in_vocabulary, (tokens, token), known),
    ensures
        known <==> token != tokens.blank_id && (token as usize) < tokens.vocab_size,
        ({
            let ends = token != 0 && (token == tokens.eou_id || tokens.eob_id == Some(token));
            let bracketed = token_text matches Some(text) && text@.len() > 0 && text@[0] == '<'
                && text@[text@.len() - 1] == '>';
            let special = token == 0 || bracketed;
            &&& r == Decision::NextFrame <==> !known || (ends && !(detect_eou && has_text))
            &&& r == Decision::Endpoint <==> known && ends && detect_eou && has_text
            &&& r == Decision::Skip <==> known && !ends && special
            &&& r == Decision::Emit <==> known && !ends && !special
        }),
{
}

} // verus!
