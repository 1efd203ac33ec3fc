//! What becomes of the outputs of a decoder run: the logits and the new decoder
//! states go to their buffers.

use crate::encoder_run::{extraction_failure, first_of, overwrite, taken};
use crate::error::{outcome, Error, ErrorView};
use crate::litert::{check_litert_run, failure_message, LiteRtPart};
use crate::projected::TensorOutput;
use crate::tensor::{Tensor, TensorView};
use crate::text::{i64_values, list_text, show_i64s, show_usizes, usize_values};
use vstd::prelude::*;

verus! {

/// The number of values in a decoder state.
pub const STATE_SIZE: usize = 640;

/// The outputs of a decoder run, each with the reason where it could not be taken
/// out.
#[derive(Debug)]
pub struct DecoderOutputs {
    /// `outputs`
    pub logits: Result<TensorOutput, String>,
    /// `output_states_1`
    pub state_h: Result<TensorOutput, String>,
    /// `output_states_2`
    pub state_c: Result<TensorOutput, String>,
}

/// What a callback of the LiteRT decoder left in the buffers that it was given, and
/// what it reported.
pub struct LiteRtDecoderReply<'a> {
    pub ok: bool,
    /// The text of the error buffer.
    pub message: &'a str,
    pub logits: &'a [u32],
    pub state_h: &'a [u32],
    pub state_c: &'a [u32],
}

/// What a decoder run fills.
pub struct DecoderBuffers {
    pub logits: TensorView,
    pub state_h: TensorView,
    pub state_c: TensorView,
}

/// The shape of a decoder state.
pub open spec fn state_shape() -> Seq<usize> {
    seq![1usize, 1usize, STATE_SIZE]
}

/// The failure of a buffer for a decoder state to have its shape.
pub open spec fn state_failure(what: Seq<char>, t: TensorView) -> Option<ErrorView> {
    if t.shape == state_shape() {
        None
    } else {
        Some(
            ErrorView::Model(
                "Unexpected "@ + what + " buffer shape: "@ + list_text(usize_values(t.shape)),
            ),
        )
    }
}

/// The failure of the outputs of a decoder run to be usable.
pub open spec fn decoder_failure(b: DecoderBuffers, outputs: DecoderOutputs) -> Option<ErrorView> {
    let taken = first_of(
        extraction_failure("logits"@, outputs.logits),
        first_of(
            extraction_failure("state h"@, outputs.state_h),
            extraction_failure("state c"@, outputs.state_c),
        ),
    );
    if taken is Some {
        taken
    } else if b.logits.shape != seq![1usize, 1usize, outputs.logits->Ok_0.shape@[3] as usize] {
        Some(
            ErrorView::Model(
                "Unexpected logits shape: "@ + list_text(i64_values(outputs.logits->Ok_0.shape@))
                    + ", reusable buffer shape: "@ + list_text(usize_values(b.logits.shape)),
            ),
        )
    } else {
        first_of(state_failure("state h"@, b.state_h), state_failure("state c"@, b.state_c))
    }
}

/// The logits have the axis that is compared, where all outputs could be taken out.
pub open spec fn logits_match(outputs: DecoderOutputs) -> bool {
    outputs.logits is Ok && outputs.state_h is Ok && outputs.state_c is Ok
        ==> outputs.logits->Ok_0.shape@.len() >= 4
}

/// Taking the outputs over is defined, as far as it goes: the logits have the axis that is
/// compared, and the outputs have the sizes of the buffers wherever they are copied there.
/// Nothing is asked of the outputs behind one that is refused.
pub open spec fn decoder_outputs_match(b: DecoderBuffers, outputs: DecoderOutputs) -> bool {
    &&& logits_match(outputs)
    &&& decoder_failure(b, outputs) is None && b.logits.standard ==> {
        &&& b.logits.words.len() == outputs.logits->Ok_0.data@.len()
        &&& b.state_h.standard ==> {
            &&& b.state_h.words.len() == outputs.state_h->Ok_0.data@.len()
            &&& b.state_c.standard ==> b.state_c.words.len() == outputs.state_c->Ok_0.data@.len()
        }
    }
}

/// Whether taking the outputs over is defined, as far as it goes.
pub fn decoder_outputs_can_be_taken(
    logits: &Tensor,
    new_h: &Tensor,
    new_c: &Tensor,
    outputs: &DecoderOutputs,
) -> (r: bool)
    ensures
        r == decoder_outputs_match(
            (DecoderBuffers { logits: logits@, state_h: new_h@, state_c: new_c@ }),
            *outputs,
        ),
{
    let (l, h, c) = match (&outputs.logits, &outputs.state_h, &outputs.state_c) {
        (Ok(l), Ok(h), Ok(c)) => (l, h, c),
        _ => {
            return true;
        },
    };
    if l.shape.len() < 4 {
        return false;
    }
    if check_decoder_outputs(logits, new_h, new_c, outputs).is_err() {
        return true;
    }
    match (logits.words(), new_h.words(), new_c.words()) {
        (None, _, _) => true,
        (Some(scores), None, _) => scores.len() == l.data.len(),
        (Some(scores), Some(hidden), None) => scores.len() == l.data.len() && hidden.len()
            == h.data.len(),
        (Some(scores), Some(hidden), Some(cell)) => scores.len() == l.data.len() && hidden.len()
            == h.data.len() && cell.len() == c.data.len(),
    }
}

/// What a decoder run leaves behind, and what went wrong: the logits are stored
/// before the two states, and a failure ends it.
pub open spec fn after_decoder_run(b: DecoderBuffers, outputs: DecoderOutputs) -> (
    DecoderBuffers,
    Result<(), ErrorView>,
) {
    let failure = decoder_failure(b, outputs);
    if failure is Some {
        (b, Err(failure->0))
    } else if !b.logits.standard {
        (b, Err(ErrorView::Model("logits buffer"@ + " is not contiguous"@)))
    } else {
        let scored = DecoderBuffers {
            logits: b.logits.with_words(outputs.logits->Ok_0.data@),
            ..b
        };
        if !b.state_h.standard {
            (scored, Err(ErrorView::Model("state h buffer"@ + " is not contiguous"@)))
        } else {
            let half = DecoderBuffers {
                state_h: b.state_h.with_words(outputs.state_h->Ok_0.data@),
                ..scored
            };
            if !b.state_c.standard {
                (half, Err(ErrorView::Model("state c buffer"@ + " is not contiguous"@)))
            } else {
                (
                    DecoderBuffers {
                        state_c: b.state_c.with_words(outputs.state_c->Ok_0.data@),
                        ..half
                    },
                    Ok(()),
                )
            }
        }
    }
}

fn check_state_buffer(what: &str, t: &Tensor) -> (r: Result<(), Error>)
    ensures
        match state_failure(what@, t@) {
            None => r is Ok,
            Some(e) => r is Err && r->Err_0@ == e,
        },
{
    let axes = t.axes();
    if axes.len() == 3 && axes[0] == 1 && axes[1] == 1 && axes[2] == STATE_SIZE {
        assert(axes@ =~= state_shape());
        Ok(())
    } else {
        let mut m = "Unexpected ".to_owned();
        m.append(what);
        m.append(" buffer shape: ");
        m.append(show_usizes(axes).as_str());
        Err(Error::Model(m))
    }
}

fn check_decoder_outputs(
    logits: &Tensor,
    state_h: &Tensor,
    state_c: &Tensor,
    outputs: &DecoderOutputs,
) -> (r: Result<(), Error>)
    requires
        logits_match(*outputs),
    ensures
        match decoder_failure(
            (DecoderBuffers { logits: logits@, state_h: state_h@, state_c: state_c@ }),
            *outputs,
        ) {
            None => r is Ok && outputs.logits is Ok && outputs.state_h is Ok
                && outputs.state_c is Ok,
            Some(e) => r is Err && r->Err_0@ == e,
        },
{
    let l = match taken("logits", &outputs.logits) {
        Ok(l) => l,
        Err(e) => {
            return Err(e);
        },
    };
    if let Err(e) = taken("state h", &outputs.state_h) {
        return Err(e);
    }
    if let Err(e) = taken("state c", &outputs.state_c) {
        return Err(e);
    }
    let vocab_size: usize = l.shape[3] as usize;
    let axes = logits.axes();
    if !(axes.len() == 3 && axes[0] == 1 && axes[1] == 1 && axes[2] == vocab_size) {
        let mut m = "Unexpected logits shape: ".to_owned();
        m.append(show_i64s(l.shape.as_slice()).as_str());
        m.append(", reusable buffer shape: ");
        m.append(show_usizes(axes).as_str());
        return Err(Error::Model(m));
    }
    assert(axes@ =~= seq![1usize, 1usize, vocab_size]);
    if let Err(e) = check_state_buffer("state h", state_h) {
        return Err(e);
    }
    check_state_buffer("state c", state_c)
}

/// Takes the outputs of a decoder run into their buffers.
pub fn finish_decoder_run(
    logits: &mut Tensor,
    new_h: &mut Tensor,
    new_c: &mut Tensor,
    outputs: &DecoderOutputs,
) -> (r: Result<(), Error>)
    requires
        decoder_outputs_match(
            (DecoderBuffers { logits: old(logits)@, state_h: old(new_h)@, state_c: old(new_c)@ }),
            *outputs,
        ),
    ensures
        ({
            let b = DecoderBuffers {
                logits: old(logits)@,
                state_h: old(new_h)@,
                state_c: old(new_c)@,
            };
            let (after, result) = after_decoder_run(b, *outputs);
            &&& final(logits)@ == after.logits
            &&& final(new_h)@ == after.state_h
            &&& final(new_c)@ == after.state_c
            &&& outcome(r) == result
        }),
{
    if let Err(e) = check_decoder_outputs(logits, new_h, new_c, outputs) {
        return Err(e);
    }
    if let Ok(l) = &outputs.logits {
        if let Err(e) = overwrite(logits, "logits buffer", l.data.as_slice()) {
            return Err(e);
        }
    }
    if let Ok(h) = &outputs.state_h {
        if let Err(e) = overwrite(new_h, "state h buffer", h.data.as_slice()) {
            return Err(e);
        }
    }
    if let Ok(c) = &outputs.state_c {
        if let Err(e) = overwrite(new_c, "state c buffer", c.data.as_slice()) {
            return Err(e);
        }
    }
    Ok(())
}

/// Takes over what the callback of the LiteRT decoder left in its buffers. It writes
/// in place, so they are taken over even where it fails.
pub fn finish_litert_decoder_run(
    logits: &mut Tensor,
    new_h: &mut Tensor,
    new_c: &mut Tensor,
    reply: LiteRtDecoderReply,
) -> (r: Result<(), Error>)
    requires
        old(logits)@.standard && old(logits)@.words.len() == reply.logits@.len(),
        old(new_h)@.standard && old(new_h)@.words.len() == reply.state_h@.len(),
        old(new_c)@.standard && old(new_c)@.words.len() == reply.state_c@.len(),
    ensures
        final(logits)@ == old(logits)@.with_words(reply.logits@),
        final(new_h)@ == old(new_h)@.with_words(reply.state_h@),
        final(new_c)@ == old(new_c)@.with_words(reply.state_c@),
        reply.ok ==> r is Ok,
        !reply.ok ==> outcome(r) == Err::<(), ErrorView>(
            ErrorView::Model(
                failure_message(
                    "LiteRT "@ + LiteRtPart::Decoder.name_text() + " run failed: "@,
                    reply.message@,
                ),
            ),
        ),
{
    logits.store(reply.logits);
    new_h.store(reply.state_h);
    new_c.store(reply.state_c);
    check_litert_run(LiteRtPart::Decoder, reply.ok, reply.message)
}

/// A decoder run whose outputs are refused leaves every buffer as it was, and one
/// whose outputs are taken leaves exactly those.
pub proof fn decoder_runs_are_taken_whole_or_refused(b: DecoderBuffers, outputs: DecoderOutputs)
    requires
        b.logits.standard,
        b.state_h.standard,
        b.state_c.standard,
    ensures
        ({
            let (after, result) = after_decoder_run(b, outputs);
            &&& result is Err ==> after == b
            &&& result is Ok ==> {
                &&& after.logits.words == outputs.logits->Ok_0.data@
                &&& after.state_h.words == outputs.state_h->Ok_0.data@
                &&& after.state_c.words == outputs.state_c->Ok_0.data@
            }
        }),
{
}

/// Taking the outputs of a decoder run over is done exactly where all three could be had,
/// the buffer for the logits has as many places as the fourth axis says, and the buffers
/// for the two states have 640 each. Then the buffers hold the outputs, each its own; where
/// the outputs are refused, the buffers are as they were.
pub proof fn taken_decoder_outputs_fill_their_buffers(
    logits: &mut Tensor,
    new_h: &mut Tensor,
    new_c: &mut Tensor,
    outputs: &DecoderOutputs,
    r: Result<(), Error>,
)
    requires
        call_ensures(finish_decoder_run, (logits, new_h, new_c, outputs), r),
        old(logits)@.standard && old(new_h)@.standard && old(new_c)@.standard,
    ensures
        r is Ok <==> {
            &&& outputs.logits is Ok && outputs.state_h is Ok && outputs.state_c is Ok
            &&& old(logits)@.shape == seq![
                1usize,
                1usize,
                outputs.logits->Ok_0.shape@[3] as usize,
            ]
            &&& old(new_h)@.shape == seq![1usize, 1usize, 640usize]
            &&& old(new_c)@.shape == seq![1usize, 1usize, 640usize]
        },
        r is Ok ==> {
            &&& final(logits)@.words == outputs.logits->Ok_0.data@
            &&& final(new_h)@.words == outputs.state_h->Ok_0.data@
            &&& final(new_c)@.words == outputs.state_c->Ok_0.data@
            &&& final(logits)@.shape == old(logits)@.shape
            &&& final(new_h)@.shape == old(new_h)@.shape
            &&& final(new_c)@.shape == old(new_c)@.shape
        },
        r is Err ==> final(logits)@ == old(logits)@ && final(new_h)@ == old(new_h)@
            && final(new_c)@ == old(new_c)@,
        outputs.logits matches Err(e) ==> r->Err_0@ == ErrorView::Model(
            "Failed to extract "@ + "logits"@ + ": "@ + e@,
        ),
        outputs.logits is Ok ==> (outputs.state_h matches Err(e) ==> r->Err_0@ == ErrorView::Model(
            "Failed to extract "@ + "state h"@ + ": "@ + e@,
        )),
        outputs.logits is Ok && outputs.state_h is Ok ==> (outputs.state_c matches Err(e)
            ==> r->Err_0@ == ErrorView::Model("Failed to extract "@ + "state c"@ + ": "@ + e@)),
{
}

/// What the callback of the LiteRT decoder wrote stands in the buffers, each in its own,
/// whether it succeeded or not; it is an error exactly where it did not.
pub proof fn litert_decoders_write_in_place(
    logits: &mut Tensor,
    new_h: &mut Tensor,
    new_c: &mut Tensor,
    reply: LiteRtDecoderReply,
    r: Result<(), Error>,
)
    requires
        call_ensures(finish_litert_decoder_run, (logits, new_h, new_c, reply), r),
    ensures
        final(logits)@.words == reply.logits@,
        final(new_h)@.words == reply.state_h@,
        final(new_c)@.words == reply.state_c@,
        r is Ok <==> reply.ok,
        !reply.ok && reply.message@.len() > 0 ==> r->Err_0@ == ErrorView::Model(
            "LiteRT "@ + "decoder"@ + " run failed: "@ + reply.message@,
        ),
        !reply.ok && reply.message@.len() == 0 ==> r->Err_0@ == ErrorView::Model(
            "LiteRT "@ + "decoder"@ + " run failed: "@ + "unknown error"@,
        ),
{
}

/// Outputs of a decoder run can be taken where one of them could not be had, since they are
/// refused then, and where they have the sizes of the buffers.
pub proof fn decoder_outputs_of_the_right_size_can_be_taken(
    logits: &Tensor,
    new_h: &Tensor,
    new_c: &Tensor,
    outputs: &DecoderOutputs,
    r: bool,
)
    requires
        call_ensures(decoder_outputs_can_be_taken, (logits, new_h, new_c, outputs), r),
    ensures
        ({
            let had = outputs.logits is Ok && outputs.state_h is Ok && outputs.state_c is Ok;
            let (l, h, c) = (
                outputs.logits->Ok_0,
                outputs.state_h->Ok_0,
                outputs.state_c->Ok_0,
            );
            let sized = logits@.words.len() == l.data@.len() && new_h@.words.len()
                == h.data@.len() && new_c@.words.len() == c.data@.len();
            let shaped = logits@.shape == seq![1usize, 1usize, l.shape@[3] as usize]
                && new_h@.shape == seq![1usize, 1usize, 640usize] && new_c@.shape == seq![
                1usize,
                1usize,
                640usize,
            ];
            let standard = logits@.standard && new_h@.standard && new_c@.standard;
            &&& !had ==> r
            &&& had && l.shape@.len() >= 4 && sized ==> r
            &&& had && l.shape@.len() >= 4 && !shaped ==> r
            &&& r && had ==> l.shape@.len() >= 4
            &&& r && had && shaped && standard ==> sized
        }),
{
}

/// Buffers of the wrong shape are shown: first that of the logits, and then those of the
/// two states.
pub proof fn decoder_buffers_of_the_wrong_shape_are_shown(
    logits: &mut Tensor,
    new_h: &mut Tensor,
    new_c: &mut Tensor,
    outputs: &DecoderOutputs,
    r: Result<(), Error>,
)
    requires
        call_ensures(finish_decoder_run, (logits, new_h, new_c, outputs), r),
        outputs.logits is Ok && outputs.state_h is Ok && outputs.state_c is Ok,
    ensures
        ({
            let shape = outputs.logits->Ok_0.shape@;
            let state = seq![1usize, 1usize, 640usize];
            let scored = old(logits)@.shape == seq![1usize, 1usize, shape[3] as usize];
            &&& !scored ==> r is Err && r->Err_0@ == ErrorView::Model(
                "Unexpected logits shape: "@ + list_text(i64_values(shape))
                    + ", reusable buffer shape: "@ + list_text(usize_values(old(logits)@.shape)),
            )
            &&& scored && old(new_h)@.shape != state ==> r is Err && r->Err_0@ == ErrorView::Model(
                "Unexpected "@ + "state h"@ + " buffer shape: "@ + list_text(
                    usize_values(old(new_h)@.shape),
                ),
            )
            &&& scored && old(new_h)@.shape == state && old(new_c)@.shape != state ==> r is Err
                && r->Err_0@ == ErrorView::Model(
                "Unexpected "@ + "state c"@ + " buffer shape: "@ + list_text(
                    usize_values(old(new_c)@.shape),
                ),
            )
        }),
{
}

/// A buffer that is not laid out contiguously is named, and ends the taking over: what comes
/// before it has been taken, and nothing from it on.
pub proof fn scattered_decoder_buffers_end_the_taking_over(
    logits: &mut Tensor,
    new_h: &mut Tensor,
    new_c: &mut Tensor,
    outputs: &DecoderOutputs,
    r: Result<(), Error>,
)
    requires
        call_ensures(finish_decoder_run, (logits, new_h, new_c, outputs), r),
        outputs.logits is Ok && outputs.state_h is Ok && outputs.state_c is Ok,
        old(logits)@.shape == seq![1usize, 1usize, outputs.logits->Ok_0.shape@[3] as usize],
        old(new_h)@.shape == seq![1usize, 1usize, 640usize],
        old(new_c)@.shape == seq![1usize, 1usize, 640usize],
    ensures
        ({
            let (l, h, c) = (old(logits)@.standard, old(new_h)@.standard, old(new_c)@.standard);
            let named = |name: Seq<char>|
                r is Err && r->Err_0@ == ErrorView::Model(name + " is not contiguous"@);
            &&& r is Ok <==> l && h && c
            &&& !l ==> named("logits buffer"@) && final(logits)@ == old(logits)@
            &&& l ==> final(logits)@.words == outputs.logits->Ok_0.data@
            &&& l && !h ==> named("state h buffer"@)
            &&& !l || !h ==> final(new_h)@ == old(new_h)@
            &&& l && h ==> final(new_h)@.words == outputs.state_h->Ok_0.data@
            &&& l && h && !c ==> named("state c buffer"@)
            &&& !l || !h || !c ==> final(new_c)@ == old(new_c)@
        }),
{
}

} // verus!
