//! What holds of a recogniser over any number of chunks.

use crate::audio::kept_samples;
use crate::decoder_run::DecoderBuffers;
use crate::decoding::{Decision, Stage, TranscriptionView};
use crate::encoder_run::EncoderState;
use crate::frontend::FEATURE_WINDOW_SAMPLES;
use crate::parakeet_eou::{
    after_event, best_token, decision_on, emits_at_once, expects, is_some_text, ActionView,
    EouState, Setup, TranscribeEvent,
};
use crate::vocabulary::{text_of, tokenizer_decoded};
use vstd::prelude::*;

verus! {

/// One thing that happens to a recogniser.
pub enum Happening<'a> {
    /// The transcription of a chunk begins. One that has not ended is given up.
    Chunk { detect_eou: bool },
    /// The transcription takes a step.
    Step(TranscribeEvent<'a>),
    /// The encoder has run, and has left this behind.
    EncoderRun(EncoderState),
    /// The decoder has run, and has left this behind.
    DecoderRun(DecoderBuffers),
    /// The recogniser is reset.
    Reset,
}

/// A recogniser at some point of its history.
pub struct Moment {
    pub state: EouState,
    pub session: TranscriptionView,
    /// All samples since the last reset.
    pub heard: Seq<u32>,
    /// Text that is not empty has been emitted since the last endpoint and the last reset.
    pub emitted: bool,
}

/// The recogniser before anything has happened.
pub open spec fn beginning(setup: Setup) -> Moment {
    Moment {
        state: EouState::initial(setup.layout, setup.tokens),
        session: TranscriptionView::fresh(false),
        heard: Seq::empty(),
        emitted: false,
    }
}

/// The step emits text: that of a token, and not an empty one.
pub open spec fn emits_text(setup: Setup, m: Moment, event: TranscribeEvent) -> bool {
    match event {
        TranscribeEvent::Text(text) => is_some_text(text_of(text)),
        TranscribeEvent::Decoded => {
            &&& decision_on(setup, m.state, m.session) == Decision::Emit
            &&& emits_at_once(setup)
            &&& is_some_text(
                tokenizer_decoded(setup.tokenizer, seq![best_token(m.state) as u32], true),
            )
        },
        _ => false,
    }
}

/// The step marks the chunk: an endpoint has been detected.
pub open spec fn marks_endpoint(setup: Setup, m: Moment, event: TranscribeEvent) -> bool {
    after_event(setup, m.state, m.session, event).action matches ActionView::Finish {
        endpoint_detected,
        ..
    } && endpoint_detected
}

/// The recogniser after one more thing has happened.
pub open spec fn after_happening(setup: Setup, m: Moment, h: Happening) -> Moment {
    match h {
        Happening::Chunk { detect_eou } => Moment {
            session: TranscriptionView::fresh(detect_eou),
            ..m
        },
        Happening::Step(event) => {
            let outcome = after_event(setup, m.state, m.session, event);
            Moment {
                state: outcome.state,
                session: outcome.session,
                heard: match event {
                    TranscribeEvent::Audio(samples) => m.heard + samples@,
                    _ => m.heard,
                },
                emitted: if marks_endpoint(setup, m, event) {
                    false
                } else {
                    m.emitted || emits_text(setup, m, event)
                },
            }
        },
        Happening::EncoderRun(encoder) => Moment {
            state: EouState { encoder, ..m.state },
            ..m
        },
        Happening::DecoderRun(buffers) => Moment {
            state: EouState {
                logits: buffers.logits,
                next_state_h: buffers.state_h,
                next_state_c: buffers.state_c,
                ..m.state
            },
            ..m
        },
        Happening::Reset => beginning(setup),
    }
}

/// It can happen: a step is one that is awaited.
pub open spec fn can_happen(setup: Setup, m: Moment, h: Happening) -> bool {
    h matches Happening::Step(event) ==> expects(setup.layout, m.state, m.session, event)
}

/// The recogniser after all of that has happened.
pub open spec fn after_all(setup: Setup, happenings: Seq<Happening>) -> Moment
    decreases happenings.len(),
{
    if happenings.len() == 0 {
        beginning(setup)
    } else {
        after_happening(setup, after_all(setup, happenings.drop_last()), happenings.last())
    }
}

/// All of that can happen, one after the other.
pub open spec fn can_all_happen(setup: Setup, happenings: Seq<Happening>) -> bool
    decreases happenings.len(),
{
    happenings.len() == 0 || (can_all_happen(setup, happenings.drop_last()) && can_happen(
        setup,
        after_all(setup, happenings.drop_last()),
        happenings.last(),
    ))
}

/// The recogniser remembers what matters of its history.
pub open spec fn remembers(m: Moment) -> bool {
    &&& m.state.segment_has_text == m.emitted
    &&& m.session.stage != Stage::Finished && m.session.text.len() > 0 ==> m.emitted
    &&& m.state.audio == kept_samples(m.heard)
}

proof fn lemma_kept_twice(heard: Seq<u32>, samples: Seq<u32>)
    ensures
        kept_samples(kept_samples(heard) + samples) == kept_samples(heard + samples),
{
    assert(kept_samples(kept_samples(heard) + samples) =~= kept_samples(heard + samples));
}

proof fn lemma_steps_remember(setup: Setup, m: Moment, event: TranscribeEvent)
    requires
        remembers(m),
        expects(setup.layout, m.state, m.session, event),
    ensures
        remembers(after_happening(setup, m, Happening::Step(event))),
{
    match event {
        TranscribeEvent::Audio(samples) => {
            lemma_kept_twice(m.heard, samples@);
        },
        TranscribeEvent::Decoded => {
            match decision_on(setup, m.state, m.session) {
                Decision::Emit => {},
                Decision::Endpoint => {},
                _ => {},
            }
        },
        _ => {},
    }
}

/// Whatever happens, the recogniser knows whether text has been emitted in the current
/// segment, and keeps the last samples since its last reset.
pub proof fn recognisers_remember_their_history(setup: Setup, happenings: Seq<Happening>)
    requires
        can_all_happen(setup, happenings),
    ensures
        remembers(after_all(setup, happenings)),
    decreases happenings.len(),
{
    lemma_beginnings_remember(setup);
    if happenings.len() > 0 {
        let before = happenings.drop_last();
        recognisers_remember_their_history(setup, before);
        if let Happening::Step(event) = happenings.last() {
            lemma_steps_remember(setup, after_all(setup, before), event);
        } else {
            lemma_rest_remembers(setup, after_all(setup, before), happenings.last());
        }
    }
}

proof fn lemma_beginnings_remember(setup: Setup)
    ensures
        remembers(beginning(setup)),
{
    assert(kept_samples(Seq::<u32>::empty()) =~= Seq::<u32>::empty());
}

proof fn lemma_rest_remembers(setup: Setup, m: Moment, h: Happening)
    requires
        remembers(m),
        !(h is Step),
    ensures
        remembers(after_happening(setup, m, h)),
{
    lemma_beginnings_remember(setup);
}

/// A chunk is marked only where endpoints are looked for and text that is not empty has
/// been emitted since the last mark and the last reset.
pub proof fn marked_chunks_follow_emitted_text(
    setup: Setup,
    happenings: Seq<Happening>,
    event: TranscribeEvent,
)
    requires
        can_all_happen(setup, happenings),
        expects(setup.layout, after_all(setup, happenings).state, after_all(
            setup,
            happenings,
        ).session, event),
        marks_endpoint(setup, after_all(setup, happenings), event),
    ensures
        after_all(setup, happenings).session.detect_eou,
        after_all(setup, happenings).emitted,
{
    recognisers_remember_their_history(setup, happenings);
}

/// A mark begins a segment in which no text has been emitted.
pub proof fn a_mark_begins_a_segment_without_text(setup: Setup, m: Moment, event: TranscribeEvent)
    requires
        marks_endpoint(setup, m, event),
    ensures
        !after_happening(setup, m, Happening::Step(event)).state.segment_has_text,
        !after_happening(setup, m, Happening::Step(event)).emitted,
{
}

/// However long a recogniser listens, it keeps no more audio than one window.
pub proof fn the_audio_history_is_bounded(setup: Setup, happenings: Seq<Happening>)
    requires
        can_all_happen(setup, happenings),
    ensures
        after_all(setup, happenings).state.audio.len() <= FEATURE_WINDOW_SAMPLES,
{
    recognisers_remember_their_history(setup, happenings);
}

} // verus!
