//! What the operations of a recogniser do, word by word.

use crate::cache::EncoderCache;
use crate::decoding::{Decision, Stage, Transcription};
use crate::encoder_run::{
    encoder_state, has_outputs, outputs_taken, successful_runs_leave_their_outputs,
};
use crate::error::{Error, ErrorView};
use crate::frontend::{columns, side_by_side};
use crate::layout::{layout_text, EncoderLayout};
use crate::litert_run::{litert_runs_leave_what_was_written, reply_taken};
use crate::model_eou::{DecoderReply, EncoderReply, InputBinding, ParakeetEOUModel};
use crate::parakeet_eou::{
    check_frontend, decision_on, lemma_shape_size2, lemma_shape_size3, text_only_grows,
    ParakeetEOU, ParakeetEOUChunk, TranscribeAction, TranscribeEvent,
};
use crate::tensor::{Tensor, TensorView};
use crate::text::decimal;
use crate::vocabulary::{
    decode_returns, lookup, text_of, tokenizer_decoded, tokenizer_tokens, tokenizer_vocab, TokenIds,
};
use crate::words::argmax;
use vstd::prelude::*;

verus! {

/// The view of a recogniser shows every buffer, cache and counter under its own name.
pub proof fn views_show_every_field(eou: ParakeetEOU, session: Transcription)
    ensures
        eou@.encoder.out == eou.encoder_out@,
        eou@.encoder.channel == eou.encoder_cache.cache_last_channel@,
        eou@.encoder.key == eou.encoder_cache.cache_last_key@,
        eou@.encoder.value == eou.encoder_cache.cache_last_value@,
        eou@.encoder.time == eou.encoder_cache.cache_last_time@,
        eou@.encoder.lengths == eou.encoder_cache.cache_last_channel_len@,
        eou@.state_h == eou.state_h@,
        eou@.state_c == eou.state_c@,
        eou@.next_state_h == eou.next_state_h@,
        eou@.next_state_c == eou.next_state_c@,
        eou@.last_token == eou.last_token,
        eou@.mel_frame_cache == eou.mel_frame_cache@,
        eou@.feature_window == eou.feature_window@,
        eou@.new_mel_frames == eou.new_mel_frames@,
        eou@.features == eou.features@,
        eou@.decoder_frame == eou.decoder_frame@,
        eou@.logits == eou.logits@,
        eou@.audio == eou.audio_buffer@,
        eou@.chunk_counter == eou.chunk_counter,
        eou@.first_non_empty_emitted == eou.first_non_empty_emitted,
        eou@.segment_has_text == eou.segment_has_text,
        session@.stage == session.stage,
        session@.detect_eou == session.detect_eou,
        session@.total_frames == session.total_frames,
        session@.frame == session.frame,
        session@.symbols == session.symbols,
        session@.text == session.text@,
{
}

/// The transcription of a new chunk awaits its samples, and has given nothing yet.
pub proof fn new_transcriptions_await_samples(detect_eou: bool, r: Transcription)
    requires
        call_ensures(Transcription::new, (detect_eou,), r),
    ensures
        r.stage == Stage::Listening,
        r.detect_eou == detect_eou,
        r.total_frames == 0 && r.frame == 0 && r.symbols == 0,
        r.text@.len() == 0,
{
}

/// Every element is the word `w`, and the array has these axes.
pub open spec fn holds_only(t: TensorView, shape: Seq<usize>, w: u32) -> bool {
    &&& t.shape == shape
    &&& t.standard
    &&& forall|i: int| 0 <= i < t.words.len() ==> #[trigger] t.words[i] == w
}

/// The recogniser is as it is before its first chunk: its caches and states, the features
/// and the logits are zero, the mel frames that it keeps are silence, no audio is kept, no
/// text has been emitted, and the last token is the blank.
pub open spec fn is_at_rest(eou: ParakeetEOU) -> bool {
    let l = eou.model.io.layout;
    let cache = seq![l.num_layers, l.batch, l.cache_len, l.hidden_size];
    let state = seq![1usize, 1usize, 640usize];
    &&& holds_only(eou.encoder_cache.cache_last_channel@, cache, 0)
    &&& holds_only(eou.encoder_cache.cache_last_key@, cache, 0)
    &&& holds_only(eou.encoder_cache.cache_last_value@, cache, 0)
    &&& holds_only(
        eou.encoder_cache.cache_last_time@,
        seq![l.num_layers, l.batch, l.hidden_size, l.time_cache_len],
        0,
    )
    &&& eou.encoder_cache.cache_last_channel_len@.len() == l.batch
    &&& forall|i: int|
        0 <= i < l.batch ==> #[trigger] eou.encoder_cache.cache_last_channel_len@[i] == 0
    &&& holds_only(eou.state_h@, state, 0) && eou.state_h@.words.len() == 640
    &&& holds_only(eou.state_c@, state, 0) && eou.state_c@.words.len() == 640
    &&& holds_only(eou.next_state_h@, state, 0) && eou.next_state_h@.words.len() == 640
    &&& holds_only(eou.next_state_c@, state, 0) && eou.next_state_c@.words.len() == 640
    &&& eou.last_token == eou.tokens.blank_id
    &&& holds_only(eou.mel_frame_cache@, seq![128usize, 9usize], 0xc185_147b)
    &&& eou.mel_frame_cache@.words.len() == 128 * 9
    &&& eou.feature_window@.len() == 2800
    &&& forall|i: int| 0 <= i < 2800 ==> #[trigger] eou.feature_window@[i] == 0
    &&& holds_only(eou.new_mel_frames@, seq![128usize, 16usize], 0)
    &&& holds_only(eou.features@, seq![l.batch, l.n_mels, l.input_frames], 0)
    &&& holds_only(eou.encoder_out@, seq![l.batch, l.hidden_size, l.output_frames], 0)
    &&& holds_only(eou.decoder_frame@, seq![l.batch, l.hidden_size, 1usize], 0)
    &&& holds_only(
        eou.logits@,
        seq![1usize, 1usize, (eou.tokens.vocab_size + 1) as usize],
        0,
    )
    &&& eou.audio_buffer@.len() == 0
    &&& eou.chunk_counter == 0
    &&& !eou.first_non_empty_emitted
    &&& !eou.segment_has_text
}

proof fn lemma_initial_sizes()
    ensures
        crate::tensor::shape_size(seq![1usize, 1usize, 640usize]) == 640,
        crate::tensor::shape_size(seq![128usize, 9usize]) == 128 * 9,
{
    lemma_shape_size3(1, 1, 640);
    lemma_shape_size2(128, 9);
}

/// A reset puts the recogniser to rest, and leaves its model and its vocabulary.
pub proof fn a_reset_puts_to_rest(eou: &mut ParakeetEOU)
    requires
        call_ensures(ParakeetEOU::reset, (eou,), ()),
    ensures
        is_at_rest(*final(eou)),
        forall|i: int| 0 <= i < 640 ==> #[trigger] final(eou).state_h@.words[i] == 0,
        forall|i: int| 0 <= i < 640 ==> #[trigger] final(eou).state_c@.words[i] == 0,
        final(eou).model == old(eou).model,
        final(eou).tokenizer == old(eou).tokenizer,
        final(eou).tokens == old(eou).tokens,
{
    lemma_initial_sizes();
}

/// A recogniser is made exactly where the encoder takes one chunk of 25 frames of 128 mel
/// bands and everything can be addressed; then it is at rest, on that model and vocabulary.
/// An encoder that takes anything else is refused. The blank follows the
/// vocabulary, and the tokens that end a segment are those named `<EOU>`, or 1024, and
/// `<EOB>`.
pub proof fn new_recognisers_are_at_rest(
    tokenizer: tokenizers::Tokenizer,
    model: ParakeetEOUModel,
    addressed: bool,
    r: Result<Option<ParakeetEOU>, Error>,
)
    requires
        call_ensures(ParakeetEOU::from_pretrained, (tokenizer, model), r),
        call_ensures(EncoderLayout::can_be_addressed, (&model.io.layout,), addressed),
    ensures
        ({
            let l = model.io.layout;
            let vocab = tokenizer_vocab(tokenizer);
            &&& r is Ok <==> l.batch == 1 && l.n_mels == 128 && l.input_frames == 25
            &&& r matches Err(e) ==> e@ == ErrorView::Model(
                "Encoder frontend shape mismatch: model layout="@ + layout_text(l)
                    + ", frontend expects batch=1 n_mels="@ + decimal(128) + " input_frames="@
                    + decimal(25),
            )
            &&& r matches Ok(found) ==> (found is Some <==> addressed && (vocab.dom().len() as usize
                + 1) * 4 <= isize::MAX)
            &&& r matches Ok(Some(eou)) ==> {
                &&& is_at_rest(eou)
                &&& eou.model == model
                &&& eou.tokenizer == tokenizer
                &&& eou.tokens.vocab_size == vocab.dom().len() as usize
                &&& eou.tokens.blank_id == vocab.dom().len() as i32
                &&& eou.tokens.eou_id == (match lookup(vocab, "<EOU>"@) {
                    Some(id) => id as i32,
                    None => 1024,
                })
                &&& eou.tokens.eob_id == (match lookup(vocab, "<EOB>"@) {
                    Some(id) => Some(id as i32),
                    None => None,
                })
            }
        }),
{
    lemma_initial_sizes();
}

/// A recogniser with given steering tokens is at rest too.
pub proof fn recognisers_with_tokens_are_at_rest(
    tokenizer: tokenizers::Tokenizer,
    tokens: TokenIds,
    model: ParakeetEOUModel,
    r: Result<ParakeetEOU, Error>,
)
    requires
        call_ensures(ParakeetEOU::with_tokens, (tokenizer, tokens, model), r),
    ensures
        r is Ok <==> model.io.layout.batch == 1 && model.io.layout.n_mels == 128
            && model.io.layout.input_frames == 25,
        r matches Ok(eou) ==> is_at_rest(eou) && eou.model == model && eou.tokenizer == tokenizer
            && eou.tokens == tokens,
{
    lemma_initial_sizes();
}

/// The front end fits exactly the encoders that take one chunk of 25 frames of 128 bands.
pub proof fn the_front_end_fits_one_geometry(layout: EncoderLayout, r: Result<(), Error>)
    requires
        call_ensures(check_frontend, (layout,), r),
    ensures
        r is Ok <==> layout.batch == 1 && layout.n_mels == 128 && layout.input_frames == 25,
        r matches Err(e) ==> e@ == ErrorView::Model(
            "Encoder frontend shape mismatch: model layout="@ + layout_text(layout)
                + ", frontend expects batch=1 n_mels="@ + decimal(128) + " input_frames="@
                + decimal(25),
        ),
{
}

/// Whatever happens, a step leaves the encoder's output and caches, the logits and the next
/// states alone, as it does the model, the tokenizer and the tokens. The audio and its
/// window change with new samples only, the features with new mel frames only, the mel
/// frames that are kept with an encoder run only, and the decoder's states and its last
/// token with a decoder run only.
#[verifier::rlimit(60)]
pub proof fn steps_change_only_what_is_theirs(
    eou: &mut ParakeetEOU,
    session: &mut Transcription,
    event: TranscribeEvent,
    r: TranscribeAction,
)
    requires
        call_ensures(ParakeetEOU::transcribe, (eou, session, event), r),
    ensures
        final(eou).model == old(eou).model,
        final(eou).tokenizer == old(eou).tokenizer,
        final(eou).tokens == old(eou).tokens,
        final(eou).encoder_out@ == old(eou).encoder_out@,
        final(eou).encoder_cache.cache_last_channel@ == old(eou).encoder_cache.cache_last_channel@,
        final(eou).encoder_cache.cache_last_key@ == old(eou).encoder_cache.cache_last_key@,
        final(eou).encoder_cache.cache_last_value@ == old(eou).encoder_cache.cache_last_value@,
        final(eou).encoder_cache.cache_last_time@ == old(eou).encoder_cache.cache_last_time@,
        final(eou).encoder_cache.cache_last_channel_len@
            == old(eou).encoder_cache.cache_last_channel_len@,
        final(eou).logits@ == old(eou).logits@,
        final(eou).next_state_h@ == old(eou).next_state_h@,
        final(eou).next_state_c@ == old(eou).next_state_c@,
        !(event is Audio) ==> {
            &&& final(eou).audio_buffer@ == old(eou).audio_buffer@
            &&& final(eou).feature_window@ == old(eou).feature_window@
            &&& final(eou).chunk_counter == old(eou).chunk_counter
        },
        !(event is MelFrames) ==> {
            &&& final(eou).new_mel_frames@ == old(eou).new_mel_frames@
            &&& final(eou).features@ == old(eou).features@
        },
        !(event is Encoded) ==> {
            &&& final(eou).mel_frame_cache@ == old(eou).mel_frame_cache@
            &&& final(session).total_frames == old(session).total_frames
        },
        !(event is Decoded) ==> {
            &&& final(eou).state_h@ == old(eou).state_h@
            &&& final(eou).state_c@ == old(eou).state_c@
            &&& final(eou).last_token == old(eou).last_token
        },
        !(event is Decoded || event is Text) ==> {
            &&& final(eou).segment_has_text == old(eou).segment_has_text
            &&& final(eou).first_non_empty_emitted == old(eou).first_non_empty_emitted
            &&& final(session).text@ == old(session).text@
        },
        !(event is Encoded) && final(session).frame == old(session).frame
            ==> final(eou).decoder_frame@ == old(eou).decoder_frame@,
        final(session).detect_eou == old(session).detect_eou,
{
    match event {
        TranscribeEvent::Decoded => {
            match decision_on(old(eou).setup(), old(eou)@, old(session)@) {
                Decision::NextFrame => {},
                Decision::Endpoint => {},
                Decision::Skip => {},
                Decision::Emit => {},
            }
        },
        TranscribeEvent::Audio(_) => {},
        TranscribeEvent::MelFrames(_) => {},
        TranscribeEvent::Encoded(_) => {},
        TranscribeEvent::Text(_) => {},
    }
}

/// New samples join those that are kept, of which the last 2800 stay. Fewer than 400 give
/// an empty chunk at once; else they stand at the end of the window, behind zeros.
pub proof fn samples_join_the_window(
    eou: &mut ParakeetEOU,
    session: &mut Transcription,
    samples: &[u32],
    r: TranscribeAction,
)
    requires
        call_ensures(
            ParakeetEOU::transcribe,
            (eou, session, TranscribeEvent::Audio(samples)),
            r,
        ),
        old(eou).chunk_counter < u64::MAX,
    ensures
        ({
            let before = old(eou).audio_buffer@;
            let kept = final(eou).audio_buffer@;
            let window = final(eou).feature_window@;
            let n = before.len() + samples@.len();
            &&& kept.len() == (if n < 2800 {
                n
            } else {
                2800
            })
            &&& forall|i: int|
                0 <= i < kept.len() ==> #[trigger] kept[i] == ({
                    let at = n - kept.len() + i;
                    if at < before.len() {
                        before[at]
                    } else {
                        samples@[at - before.len()]
                    }
                })
            &&& final(eou).chunk_counter == old(eou).chunk_counter + 1
            &&& kept.len() < 400 ==> {
                &&& r matches TranscribeAction::Finish(chunk) && chunk.text@.len() == 0
                    && !chunk.endpoint_detected
                &&& final(session).stage == Stage::Finished
                &&& window == old(eou).feature_window@
            }
            &&& kept.len() >= 400 ==> {
                &&& r is ExtractMelFrames
                &&& final(session).stage == Stage::Extracting
                &&& window.len() == 2800
                &&& forall|i: int|
                    0 <= i < kept.len() ==> window[2800 - kept.len() + i] == #[trigger] kept[i]
                &&& forall|j: int| 0 <= j < 2800 - kept.len() ==> #[trigger] window[j] == 0
            }
        }),
{
}

/// The window that is built ends with the kept samples, behind zeros.
pub proof fn windows_are_built_from_the_kept_samples(eou: &mut ParakeetEOU)
    requires
        call_ensures(ParakeetEOU::build_feature_window, (eou,), ()),
        old(eou).audio_buffer@.len() <= 2800,
    ensures
        ({
            let kept = old(eou).audio_buffer@;
            let window = final(eou).feature_window@;
            &&& window.len() == 2800
            &&& forall|i: int|
                0 <= i < kept.len() ==> window[2800 - kept.len() + i] == #[trigger] kept[i]
            &&& forall|j: int| 0 <= j < 2800 - kept.len() ==> #[trigger] window[j] == 0
            &&& final(eou).audio_buffer@ == kept
        }),
{
}

proof fn lemma_in_row(row: int, column: int, width: int)
    requires
        0 <= row,
        0 <= column < width,
    ensures
        (row * width + column) / width == row,
        (row * width + column) % width == column,
{
    vstd::arithmetic::div_mod::lemma_fundamental_div_mod_converse(
        row * width + column,
        width,
        row,
        column,
    );
}

/// In each of the 128 bands, the encoder sees the 9 mel frames that were kept and then the
/// 16 new ones.
pub proof fn the_encoder_sees_kept_frames_and_new_ones(
    eou: &mut ParakeetEOU,
    session: &mut Transcription,
    mel: &[u32],
    r: TranscribeAction,
)
    requires
        call_ensures(
            ParakeetEOU::transcribe,
            (eou, session, TranscribeEvent::MelFrames(mel)),
            r,
        ),
    ensures
        r is RunEncoder,
        final(session).stage == Stage::Encoding,
        final(eou).new_mel_frames@.words == mel@,
        final(eou).features@.words.len() == 128 * 25,
        forall|band: int, t: int|
            0 <= band < 128 && 0 <= t < 9 ==> final(eou).features@.words[band * 25 + t]
                == #[trigger] old(eou).mel_frame_cache@.words[band * 9 + t],
        forall|band: int, t: int|
            0 <= band < 128 && 0 <= t < 16 ==> final(eou).features@.words[band * 25 + 9 + t]
                == #[trigger] mel@[band * 16 + t],
{
    let kept = old(eou).mel_frame_cache@.words;
    let features = final(eou).features@.words;
    assert(features == side_by_side(kept, 9, mel@, 16, 128));
    assert forall|band: int, t: int| 0 <= band < 128 && 0 <= t < 9 implies features[band * 25 + t]
        == #[trigger] kept[band * 9 + t] by {
        lemma_in_row(band, t, 25);
    }
    assert forall|band: int, t: int| 0 <= band < 128 && 0 <= t < 16 implies features[band * 25 + 9
        + t] == #[trigger] mel@[band * 16 + t] by {
        lemma_in_row(band, 9 + t, 25);
    }
}

/// The decoder's frame holds column `frame` of the encoder's output.
pub open spec fn frame_is_at_hand(eou: ParakeetEOU, frame: usize) -> bool {
    let l = eou.model.io.layout;
    &&& eou.decoder_frame@.words.len() == l.hidden_size
    &&& forall|h: int|
        0 <= h < l.hidden_size ==> #[trigger] eou.decoder_frame@.words[h]
            == eou.encoder_out@.words[h * l.output_frames + frame]
}

/// After an encoder run the last 9 of the 25 frames that the encoder saw are kept. Without
/// encoded frames the chunk is empty; else the search begins at the first of them, which is
/// what the decoder is run on.
pub proof fn the_search_begins_at_the_first_frame(
    eou: &mut ParakeetEOU,
    session: &mut Transcription,
    total_frames: usize,
    r: TranscribeAction,
)
    requires
        call_ensures(
            ParakeetEOU::transcribe,
            (eou, session, TranscribeEvent::Encoded(total_frames)),
            r,
        ),
    ensures
        final(eou).mel_frame_cache@.words.len() == 128 * 9,
        forall|band: int, t: int|
            0 <= band < 128 && 0 <= t < 9 ==> #[trigger] final(eou).mel_frame_cache@.words[band * 9
                + t] == old(eou).features@.words[band * 25 + 16 + t],
        total_frames == 0 ==> {
            &&& r matches TranscribeAction::Finish(chunk) && chunk.text@.len() == 0
                && !chunk.endpoint_detected
            &&& final(session).stage == Stage::Finished
        },
        total_frames > 0 && old(eou).model.io.layout.output_frames > 0 ==> {
            &&& r is RunDecoder
            &&& final(session).stage == Stage::Decoding
            &&& final(session).frame == 0
            &&& final(session).symbols == 0
            &&& final(session).total_frames == total_frames
            &&& frame_is_at_hand(*final(eou), 0)
        },
        total_frames > 0 && old(eou).model.io.layout.output_frames == 0 ==> r
            == TranscribeAction::MissingFrame(0) && final(session).stage == Stage::Stuck,
{
    let features = old(eou).features@.words;
    let kept = final(eou).mel_frame_cache@.words;
    assert(kept == columns(features, 128, 25, 16, 9));
    assert forall|band: int, t: int| 0 <= band < 128 && 0 <= t < 9 implies #[trigger] kept[band * 9
        + t] == features[band * 25 + 16 + t] by {
        lemma_in_row(band, t, 9);
    }
    lemma_frames_are_columns(*final(eou), 0);
}

proof fn lemma_frames_are_columns(eou: ParakeetEOU, frame: usize)
    ensures
        eou.decoder_frame@.words == columns(
            eou.encoder_out@.words,
            eou.model.io.layout.hidden_size as nat,
            eou.model.io.layout.output_frames as nat,
            frame as nat,
            1,
        ) ==> frame_is_at_hand(eou, frame),
{
}

/// As long as the search goes on, the decoder's frame is the encoded frame at which the
/// search stands.
pub proof fn the_decoder_is_run_on_the_frame_that_is_searched(
    eou: &mut ParakeetEOU,
    session: &mut Transcription,
    event: TranscribeEvent,
    r: TranscribeAction,
)
    requires
        call_ensures(ParakeetEOU::transcribe, (eou, session, event), r),
        event is Encoded || event is Decoded || event is Text,
        event is Encoded || frame_is_at_hand(*old(eou), old(session).frame),
        final(session).stage == Stage::Decoding || final(session).stage == Stage::Naming,
    ensures
        frame_is_at_hand(*final(eou), final(session).frame),
{
    lemma_frames_are_columns(*final(eou), final(session).frame);
}

/// The search has left its frame: it stands at the next one with no token given, or it has
/// handed the text out after the last one, or the output does not hold the next one.
pub open spec fn leaves_its_frame(
    frame: usize,
    total_frames: usize,
    output_frames: usize,
    text: Seq<char>,
    emitted_before: bool,
    eou: ParakeetEOU,
    session: Transcription,
    r: TranscribeAction,
) -> bool {
    if frame + 1 >= total_frames {
        &&& r matches TranscribeAction::Finish(chunk) && chunk.text@ == text
            && !chunk.endpoint_detected
        &&& session.stage == Stage::Finished
        &&& eou.first_non_empty_emitted == (emitted_before || text.len() > 0)
    } else {
        &&& eou.first_non_empty_emitted == emitted_before
        &&& if frame + 1 < output_frames {
            &&& r is RunDecoder
            &&& session.stage == Stage::Decoding
            &&& session.frame == frame + 1
            &&& session.symbols == 0
        } else {
            r == TranscribeAction::MissingFrame((frame + 1) as usize) && session.stage
                == Stage::Stuck
        }
    }
}

/// The frame has given one token more: the search stays until it has given ten, and leaves
/// it then.
pub open spec fn goes_on_after_a_token(
    frame: usize,
    symbols: int,
    total_frames: usize,
    output_frames: usize,
    text: Seq<char>,
    emitted_before: bool,
    eou: ParakeetEOU,
    session: Transcription,
    r: TranscribeAction,
) -> bool {
    if symbols < 10 {
        &&& r is RunDecoder
        &&& session.stage == Stage::Decoding
        &&& session.frame == frame
        &&& session.symbols == symbols
        &&& eou.first_non_empty_emitted == emitted_before
    } else {
        leaves_its_frame(
            frame,
            total_frames,
            output_frames,
            text,
            emitted_before,
            eou,
            session,
            r,
        )
    }
}

/// After a decoder run the best token of the logits decides. The blank, and any token
/// beyond the vocabulary, ends the frame. A token that ends a segment ends the chunk where
/// that is looked for and text has been emitted, and else the frame. All others are taken
/// over with the decoder's new states; unknown text and tokens in angle brackets add no
/// text, and all others theirs.
pub proof fn the_best_token_decides(
    eou: &mut ParakeetEOU,
    session: &mut Transcription,
    logits: &[u32],
    token: i32,
    decodes: bool,
    r: TranscribeAction,
)
    requires
        call_ensures(ParakeetEOU::transcribe, (eou, session, TranscribeEvent::Decoded), r),
        logits@ == old(eou).logits@.words,
        call_ensures(argmax, (logits,), token),
        call_ensures(decode_returns, (&old(eou).tokenizer,), decodes),
        old(session).symbols < 10,
    ensures
        ({
            let tokens = old(eou).tokens;
            let named = lookup(tokenizer_tokens(old(eou).tokenizer), token as u32);
            let known = token != tokens.blank_id && (token as usize) < tokens.vocab_size;
            let ends = token != 0 && (token == tokens.eou_id || tokens.eob_id == Some(token));
            let special = token == 0 || (named is Some && named->0.len() > 0 && named->0[0] == '<'
                && named->0.last() == '>');
            let has_text = old(eou).segment_has_text || old(session).text@.len() > 0;
            let before = old(session).text@;
            let (frame, total) = (old(session).frame, old(session).total_frames);
            let out = old(eou).model.io.layout.output_frames;
            let emitted = old(eou).first_non_empty_emitted;
            let symbols = old(session).symbols + 1;
            &&& !known || (ends && !(old(session).detect_eou && has_text)) ==> {
                &&& leaves_its_frame(
                    frame,
                    total,
                    out,
                    before,
                    emitted,
                    *final(eou),
                    *final(session),
                    r,
                )
                &&& final(session).text@ == before
                &&& final(eou).segment_has_text == old(eou).segment_has_text
            }
            &&& known && ends && old(session).detect_eou && has_text ==> {
                &&& r matches TranscribeAction::Finish(chunk) && chunk.text@ == before
                    && chunk.endpoint_detected
                &&& final(session).stage == Stage::Finished
                &&& !final(eou).segment_has_text
                &&& final(eou).first_non_empty_emitted == emitted
            }
            &&& !known || ends ==> {
                &&& final(eou).state_h@ == old(eou).state_h@
                &&& final(eou).state_c@ == old(eou).state_c@
                &&& final(eou).last_token == old(eou).last_token
            }
            &&& known && !ends ==> {
                &&& final(eou).state_h@.words == old(eou).next_state_h@.words
                &&& final(eou).state_c@.words == old(eou).next_state_c@.words
                &&& final(eou).last_token == token
            }
            &&& known && !ends && special ==> {
                &&& goes_on_after_a_token(
                    frame,
                    symbols,
                    total,
                    out,
                    before,
                    emitted,
                    *final(eou),
                    *final(session),
                    r,
                )
                &&& final(session).text@ == before
                &&& final(eou).segment_has_text == old(eou).segment_has_text
            }
            &&& known && !ends && !special && decodes ==> {
                let added = match tokenizer_decoded(
                    old(eou).tokenizer,
                    seq![token as u32],
                    true,
                ) {
                    Some(text) => text,
                    None => Seq::empty(),
                };
                &&& goes_on_after_a_token(
                    frame,
                    symbols,
                    total,
                    out,
                    before + added,
                    emitted,
                    *final(eou),
                    *final(session),
                    r,
                )
                &&& final(session).text@ == before + added
                &&& final(eou).segment_has_text == (old(eou).segment_has_text || added.len() > 0)
            }
            &&& known && !ends && !special && !decodes ==> {
                &&& r == TranscribeAction::DecodeToken(token as u32)
                &&& final(session).stage == Stage::Naming
                &&& final(session).frame == frame
                &&& final(session).symbols == symbols
                &&& final(session).text@ == before
                &&& final(eou).segment_has_text == old(eou).segment_has_text
                &&& final(eou).first_non_empty_emitted == emitted
            }
        }),
{
    let before = old(session).text@;
    assert(before + Seq::<char>::empty() =~= before);
}

/// The text of a token, where there is one, is added to that of the chunk, and the search
/// goes on. The segment has text from then on where the text is not empty.
pub proof fn the_text_of_a_token_is_added(
    eou: &mut ParakeetEOU,
    session: &mut Transcription,
    text: Option<String>,
    r: TranscribeAction,
)
    requires
        call_ensures(ParakeetEOU::transcribe, (eou, session, TranscribeEvent::Text(text)), r),
    ensures
        ({
            let added = match text {
                Some(text) => text@,
                None => Seq::empty(),
            };
            &&& final(session).text@ == old(session).text@ + added
            &&& final(eou).segment_has_text == (old(eou).segment_has_text || added.len() > 0)
            &&& goes_on_after_a_token(
                old(session).frame,
                old(session).symbols as int,
                old(session).total_frames,
                old(eou).model.io.layout.output_frames,
                old(session).text@ + added,
                old(eou).first_non_empty_emitted,
                *final(eou),
                *final(session),
                r,
            )
        }),
{
    let before = old(session).text@;
    assert(before + Seq::<char>::empty() =~= before);
    assert(text_of(text) is Some <==> text is Some);
}

/// The encoder is told 25 frames, and its inputs are bound for the model that there is.
pub proof fn the_encoder_is_told_all_frames(
    eou: &mut ParakeetEOU,
    r: Vec<InputBinding>,
    bound: Vec<InputBinding>,
)
    requires
        call_ensures(ParakeetEOU::begin_encoder_run, (eou,), r),
        call_ensures(crate::model_eou::encoder_input_bindings, (old(eou).model.io,), bound),
    ensures
        final(eou).model.encoder_length@ == seq![25i64],
        final(eou)@ == old(eou)@,
        r@.len() == bound@.len(),
        forall|i: int|
            0 <= i < r@.len() ==> (#[trigger] r@[i]).name@ == bound@[i].name@ && r@[i].source
                == bound@[i].source,
{
    let (x, y) = (crate::model_eou::bound_inputs(r@), crate::model_eou::bound_inputs(bound@));
    assert(x.len() == y.len());
    assert forall|i: int| 0 <= i < r@.len() implies (#[trigger] r@[i]).name@ == bound@[i].name@
        && r@[i].source == bound@[i].source by {
        assert(x[i] == (r@[i].name@, r@[i].source));
        assert(y[i] == (bound@[i].name@, bound@[i].source));
    }
}

/// A run of the encoder leaves what the network gave in the recogniser's output buffer and
/// caches, and touches nothing else of it.
pub proof fn recognisers_keep_what_the_encoder_gave(
    eou: &mut ParakeetEOU,
    reply: EncoderReply,
    r: Result<usize, Error>,
)
    requires
        call_ensures(ParakeetEOU::run_encoder_into, (eou, reply), r),
    ensures
        ({
            let before = encoder_state(old(eou).encoder_out, old(eou).encoder_cache);
            let after = encoder_state(final(eou).encoder_out, final(eou).encoder_cache);
            match reply {
                EncoderReply::Onnx(outputs) => r is Ok && has_outputs(old(eou).model.io, outputs)
                    ==> {
                    &&& outputs_taken(old(eou).model.io, before, after, outputs)
                    &&& r->Ok_0 == outputs.encoded->Ok_0.shape@[2] as usize
                },
                EncoderReply::LiteRt(reply) => {
                    &&& reply_taken(
                        old(eou).model.litert_encoder->0,
                        before,
                        old(eou).model.litert_projected_current_key@,
                        old(eou).model.litert_projected_current_value@,
                        reply,
                        after,
                        final(eou).model.litert_projected_current_key@,
                        final(eou).model.litert_projected_current_value@,
                        r is Ok,
                    )
                    &&& r is Ok ==> reply.ok
                    &&& r is Ok && reply.encoded_lengths@.len() > 0 ==> r->Ok_0
                        == reply.encoded_lengths@[0] as usize
                },
            }
        }),
        final(eou).state_h@ == old(eou).state_h@,
        final(eou).state_c@ == old(eou).state_c@,
        final(eou).mel_frame_cache@ == old(eou).mel_frame_cache@,
        final(eou).features@ == old(eou).features@,
        final(eou).audio_buffer@ == old(eou).audio_buffer@,
        final(eou).segment_has_text == old(eou).segment_has_text,
{
    let s = encoder_state(old(eou).encoder_out, old(eou).encoder_cache);
    match reply {
        EncoderReply::Onnx(outputs) => {
            if r is Ok && has_outputs(old(eou).model.io, outputs) {
                successful_runs_leave_their_outputs(old(eou).model.io, s, outputs);
            }
        },
        EncoderReply::LiteRt(reply) => {
            litert_runs_leave_what_was_written(
                old(eou).model.litert_encoder->0,
                s,
                old(eou).model.litert_projected_current_key@,
                old(eou).model.litert_projected_current_value@,
                reply,
            );
        },
    }
}

/// A run of the decoder leaves what the network gave in the logits and the next states, each
/// in its own, and leaves the states and the last token as they are.
pub proof fn recognisers_keep_what_the_decoder_gave(
    eou: &mut ParakeetEOU,
    reply: DecoderReply,
    r: Result<(), Error>,
)
    requires
        call_ensures(ParakeetEOU::run_decoder_into, (eou, reply), r),
    ensures
        match reply {
            DecoderReply::Onnx(outputs) => r is Ok ==> {
                &&& outputs.logits matches Ok(o) && final(eou).logits@.words == o.data@
                &&& outputs.state_h matches Ok(o) && final(eou).next_state_h@.words == o.data@
                &&& outputs.state_c matches Ok(o) && final(eou).next_state_c@.words == o.data@
            },
            DecoderReply::LiteRt(reply) => {
                &&& r is Ok <==> reply.ok
                &&& final(eou).logits@.words == reply.logits@
                &&& final(eou).next_state_h@.words == reply.state_h@
                &&& final(eou).next_state_c@.words == reply.state_c@
            },
        },
        final(eou).state_h@ == old(eou).state_h@,
        final(eou).state_c@ == old(eou).state_c@,
        final(eou).last_token == old(eou).last_token,
        final(eou).decoder_frame@ == old(eou).decoder_frame@,
        final(eou).encoder_out@ == old(eou).encoder_out@,
        final(eou).segment_has_text == old(eou).segment_has_text,
{
}

/// The length of the encoder's cache is that of its first batch item, and -1 without one.
pub proof fn the_cache_length_is_the_first(eou: &ParakeetEOU, r: i64)
    requires
        call_ensures(ParakeetEOU::encoder_cache_len, (eou,), r),
    ensures
        ({
            let lengths = eou.encoder_cache.cache_last_channel_len@;
            r == (if lengths.len() > 0 {
                lengths[0]
            } else {
                -1i64
            })
        }),
{
}

/// A chunk without anything has no text and no endpoint.
pub proof fn chunks_are_empty_at_first(r: ParakeetEOUChunk)
    requires
        call_ensures(<ParakeetEOUChunk as Default>::default, (), r),
    ensures
        r.text@.len() == 0,
        !r.endpoint_detected,
{
}

/// The profiles of the two sessions are given as the model gives them: the encoder's first,
/// and none for a session without one.
pub proof fn profiles_of_both_sessions_are_given(
    encoder: Option<String>,
    decoder: Option<String>,
    r: Vec<String>,
)
    requires
        call_ensures(ParakeetEOU::end_profiling, (encoder, decoder), r),
    ensures
        ({
            let first = encoder is Some && encoder->0@.len() > 0;
            let second = decoder is Some && decoder->0@.len() > 0;
            &&& first && second ==> r@.len() == 2 && r@[0]@ == encoder->0@ && r@[1]@ == decoder->0@
            &&& first && !second ==> r@.len() == 1 && r@[0]@ == encoder->0@
            &&& !first && second ==> r@.len() == 1 && r@[0]@ == decoder->0@
            &&& !first && !second ==> r@.len() == 0
        }),
{
}

/// A recogniser takes what a run of the encoder gave as its model does: its output buffer,
/// its caches and its model are what the model's run leaves, with the same result.
pub proof fn recognisers_take_encoder_runs_as_the_model_does(
    eou: &mut ParakeetEOU,
    reply: EncoderReply,
    r: Result<usize, Error>,
    model: &mut ParakeetEOUModel,
    cache: &mut EncoderCache,
    out: &mut Tensor,
    taken: Result<usize, Error>,
)
    requires
        call_ensures(ParakeetEOU::run_encoder_into, (eou, reply), r),
        call_ensures(ParakeetEOUModel::run_encoder_into, (model, cache, out, reply), taken),
        *old(model) == old(eou).model,
        *old(cache) == old(eou).encoder_cache,
        *old(out) == old(eou).encoder_out,
    ensures
        final(eou).encoder_out@ == final(out)@,
        final(eou).encoder_cache.cache_last_channel@ == final(cache).cache_last_channel@,
        final(eou).encoder_cache.cache_last_key@ == final(cache).cache_last_key@,
        final(eou).encoder_cache.cache_last_value@ == final(cache).cache_last_value@,
        final(eou).encoder_cache.cache_last_time@ == final(cache).cache_last_time@,
        final(eou).encoder_cache.cache_last_channel_len@ == final(cache).cache_last_channel_len@,
        r is Ok <==> taken is Ok,
        r is Ok ==> r->Ok_0 == taken->Ok_0,
        r is Err ==> r->Err_0@ == taken->Err_0@,
{
    let (a, b) = (final(eou)@.encoder, encoder_state(*final(out), *final(cache)));
    assert(a == b);
}

/// A recogniser takes what a run of the decoder gave as its model does.
pub proof fn recognisers_take_decoder_runs_as_the_model_does(
    eou: &mut ParakeetEOU,
    reply: DecoderReply,
    r: Result<(), Error>,
    model: &ParakeetEOUModel,
    logits: &mut Tensor,
    new_h: &mut Tensor,
    new_c: &mut Tensor,
    taken: Result<(), Error>,
)
    requires
        call_ensures(ParakeetEOU::run_decoder_into, (eou, reply), r),
        call_ensures(
            ParakeetEOUModel::run_decoder_into,
            (model, logits, new_h, new_c, reply),
            taken,
        ),
        *old(logits) == old(eou).logits,
        *old(new_h) == old(eou).next_state_h,
        *old(new_c) == old(eou).next_state_c,
    ensures
        final(eou).logits@ == final(logits)@,
        final(eou).next_state_h@ == final(new_h)@,
        final(eou).next_state_c@ == final(new_c)@,
        r is Ok <==> taken is Ok,
        r is Err ==> r->Err_0@ == taken->Err_0@,
{
}

/// A step can be taken wherever what is awaited has come: samples at first, then the 16 mel
/// frames of 128 bands, then an encoder run, and then decoder runs and texts.
pub proof fn what_is_awaited_can_be_taken(
    eou: &mut ParakeetEOU,
    session: &mut Transcription,
    event: TranscribeEvent,
)
    requires
        old(eou).wf(),
        old(session)@.wf(old(eou).model.io.layout.output_frames),
        match event {
            TranscribeEvent::Audio(_) => old(session).stage is Listening && old(eou).chunk_counter
                < u64::MAX,
            TranscribeEvent::MelFrames(mel) => old(session).stage is Extracting && mel@.len()
                == 128 * 16,
            TranscribeEvent::Encoded(_) => old(session).stage is Encoding,
            TranscribeEvent::Decoded => old(session).stage is Decoding,
            TranscribeEvent::Text(_) => old(session).stage is Naming,
        },
    ensures
        call_requires(ParakeetEOU::transcribe, (eou, session, event)),
{
}

/// A search is in order where it stands at one of the encoded frames that the output holds,
/// and that frame has given at most ten tokens; fewer before a decoder run, and one at least
/// before a text.
pub proof fn searches_are_in_order_within_their_frames(session: Transcription, output_frames: usize)
    ensures
        session@.wf(output_frames) <==> {
            let inside = session.frame < session.total_frames && session.frame < output_frames;
            &&& session.symbols <= 10
            &&& session.stage is Decoding ==> inside && session.symbols < 10
            &&& session.stage is Naming ==> inside && session.symbols > 0
        },
{
}

/// Everything but the encoder's output and caches, the logits and the decoder's next states
/// is the same.
pub open spec fn same_but_for_the_networks(a: ParakeetEOU, b: ParakeetEOU) -> bool {
    &&& a.tokenizer == b.tokenizer
    &&& a.tokens == b.tokens
    &&& a.state_h@ == b.state_h@
    &&& a.state_c@ == b.state_c@
    &&& a.last_token == b.last_token
    &&& a.mel_frame_cache@ == b.mel_frame_cache@
    &&& a.feature_window@ == b.feature_window@
    &&& a.new_mel_frames@ == b.new_mel_frames@
    &&& a.features@ == b.features@
    &&& a.decoder_frame@ == b.decoder_frame@
    &&& a.audio_buffer@ == b.audio_buffer@
    &&& a.chunk_counter == b.chunk_counter
    &&& a.first_non_empty_emitted == b.first_non_empty_emitted
    &&& a.segment_has_text == b.segment_has_text
}

/// The encoder's output and caches are the same.
pub open spec fn same_encoder(a: ParakeetEOU, b: ParakeetEOU) -> bool {
    &&& a.encoder_out@ == b.encoder_out@
    &&& a.encoder_cache.cache_last_channel@ == b.encoder_cache.cache_last_channel@
    &&& a.encoder_cache.cache_last_key@ == b.encoder_cache.cache_last_key@
    &&& a.encoder_cache.cache_last_value@ == b.encoder_cache.cache_last_value@
    &&& a.encoder_cache.cache_last_time@ == b.encoder_cache.cache_last_time@
    &&& a.encoder_cache.cache_last_channel_len@ == b.encoder_cache.cache_last_channel_len@
}

/// The logits and the decoder's next states are the same.
pub open spec fn same_decoder(a: ParakeetEOU, b: ParakeetEOU) -> bool {
    a.logits@ == b.logits@ && a.next_state_h@ == b.next_state_h@ && a.next_state_c@
        == b.next_state_c@
}

/// A run of a network changes what that network gives and nothing else, and preparing one
/// changes the length that the encoder is told and nothing else.
pub proof fn runs_change_only_what_their_network_gives(
    encoded: &mut ParakeetEOU,
    encoder_reply: EncoderReply,
    a: Result<usize, Error>,
    decoded: &mut ParakeetEOU,
    decoder_reply: DecoderReply,
    b: Result<(), Error>,
    prepared: &mut ParakeetEOU,
    bound: Vec<InputBinding>,
)
    requires
        call_ensures(ParakeetEOU::run_encoder_into, (encoded, encoder_reply), a),
        call_ensures(ParakeetEOU::run_decoder_into, (decoded, decoder_reply), b),
        call_ensures(ParakeetEOU::begin_encoder_run, (prepared,), bound),
    ensures
        same_but_for_the_networks(*final(encoded), *old(encoded)),
        same_decoder(*final(encoded), *old(encoded)),
        final(encoded).model.io == old(encoded).model.io,
        final(encoded).model.litert_encoder == old(encoded).model.litert_encoder,
        final(encoded).model.full_litert == old(encoded).model.full_litert,
        same_but_for_the_networks(*final(decoded), *old(decoded)),
        same_encoder(*final(decoded), *old(decoded)),
        final(decoded).model == old(decoded).model,
        same_but_for_the_networks(*final(prepared), *old(prepared)),
        same_encoder(*final(prepared), *old(prepared)),
        same_decoder(*final(prepared), *old(prepared)),
        final(prepared).model.io == old(prepared).model.io,
{
    let (p, q) = (final(encoded)@, old(encoded)@);
    assert(p.logits == q.logits && p.next_state_h == q.next_state_h);
    assert(final(prepared)@.encoder == old(prepared)@.encoder);
    assert(final(decoded)@.encoder == old(decoded)@.encoder);
}

/// Building the window changes the window and nothing else.
pub proof fn building_a_window_changes_nothing_else(eou: &mut ParakeetEOU, before: ParakeetEOU)
    requires
        call_ensures(ParakeetEOU::build_feature_window, (eou,), ()),
        before == *old(eou),
    ensures
        final(eou).model == before.model,
        same_encoder(*final(eou), before),
        same_decoder(*final(eou), before),
        same_but_for_the_networks(
            *final(eou),
            (ParakeetEOU { feature_window: final(eou).feature_window, ..before }),
        ),
{
    assert(final(eou)@.encoder == old(eou)@.encoder);
}

/// A chunk that is done, at its end or at an endpoint, has given the text of its session.
pub proof fn chunks_give_the_text_of_their_session(
    eou: &mut ParakeetEOU,
    session: &mut Transcription,
    event: TranscribeEvent,
    r: TranscribeAction,
)
    requires
        call_ensures(ParakeetEOU::transcribe, (eou, session, event), r),
        event is Decoded || event is Text,
    ensures
        final(session).stage is Finished <==> r is Finish,
        r matches TranscribeAction::Finish(chunk) ==> chunk.text@ == final(session).text@,
{
    text_only_grows(old(eou).setup(), old(eou)@, old(session)@, event);
}

/// A recogniser that was reset is as a new one of the same model and tokens, whatever it
/// has heard before.
pub proof fn a_reset_makes_a_recogniser_new(
    eou: &mut ParakeetEOU,
    tokenizer: tokenizers::Tokenizer,
    tokens: TokenIds,
    model: ParakeetEOUModel,
    fresh: Result<ParakeetEOU, Error>,
)
    requires
        call_ensures(ParakeetEOU::reset, (eou,), ()),
        call_ensures(ParakeetEOU::with_tokens, (tokenizer, tokens, model), fresh),
        old(eou).tokens == tokens,
        old(eou).model.io.layout == model.io.layout,
        fresh is Ok,
    ensures
        same_encoder(*final(eou), fresh->Ok_0),
        same_decoder(*final(eou), fresh->Ok_0),
        same_but_for_the_networks(
            *final(eou),
            (ParakeetEOU { tokenizer: final(eou).tokenizer, ..fresh->Ok_0 }),
        ),
{
    let (a, b) = (final(eou)@, fresh->Ok_0@);
    assert(a == b);
    assert(a.encoder == b.encoder);
}

} // verus!
