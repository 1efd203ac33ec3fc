use parakeet_eou::decoder_run::DecoderOutputs;
use parakeet_eou::decoding::{decide, Decision, Stage, Transcription};
use parakeet_eou::encoder_run::{EncoderOutputs, LengthOutput};
use parakeet_eou::frontend::{
    check_stft_frames, join_columns, recent_frames, required_audio_samples, stft_frame,
    take_columns, FEATURE_WINDOW_SAMPLES, FRAMES_PER_CHUNK, LOG_MEL_ZERO, N_MELS, STFT_FRAMES,
};
use parakeet_eou::layout::{EncoderCacheAbi, EncoderLayout};
use parakeet_eou::model_eou::{DecoderReply, EncoderReply, ModelSource, ParakeetEOUModel};
use parakeet_eou::outlets::EncoderIo;
use parakeet_eou::parakeet_eou::{ParakeetEOU, ParakeetEOUChunk, TranscribeAction, TranscribeEvent};
use parakeet_eou::projected::TensorOutput;
use parakeet_eou::vocabulary::{MetaTokenKind, TokenIds};

fn layout() -> EncoderLayout {
    EncoderLayout {
        batch: 1,
        n_mels: 128,
        input_frames: 25,
        output_frames: 2,
        num_layers: 1,
        cache_len: 3,
        hidden_size: 2,
        time_cache_len: 1,
    }
}

fn model(layout: EncoderLayout) -> ParakeetEOUModel {
    let io = EncoderIo {
        layout,
        cache_abi: EncoderCacheAbi::RawChannel,
        accepts_length: true,
        has_raw_channel_cache: true,
        outputs_raw_channel_cache: true,
    };
    ParakeetEOUModel::from_pretrained(ModelSource::Onnx { io, litert_encoder: None }).unwrap()
}

fn tokenizer(decoder: &str) -> tokenizers::Tokenizer {
    let json = format!(
        r#"{{"version":"1.0","truncation":null,"padding":null,"added_tokens":[],
        "normalizer":null,"pre_tokenizer":null,"post_processor":null,"decoder":{},
        "model":{{"type":"WordLevel","vocab":{{"<unk>":0,"hi":1,"you":2,"<EOU>":3,"<EOB>":4,"<tag>":5}},"unk_token":"<unk>"}}}}"#,
        decoder
    );
    tokenizers::Tokenizer::from_bytes(json.as_bytes()).unwrap()
}

const HI: usize = 1;
const YOU: usize = 2;
const EOU: usize = 3;
const EOB: usize = 4;
const TAG: usize = 5;
const BLANK: usize = 6;

fn recogniser(decoder: &str) -> ParakeetEOU {
    match ParakeetEOU::from_pretrained(tokenizer(decoder), model(layout())) {
        Ok(Some(eou)) => eou,
        _ => panic!("the model fits"),
    }
}

fn encoder_outputs() -> EncoderOutputs {
    let tensor = |shape: &[i64], data: &[u32]| TensorOutput { shape: shape.to_vec(), data: data.to_vec() };
    EncoderOutputs {
        encoded: Ok(tensor(&[1, 2, 2], &[10, 11, 20, 21])),
        time: Ok(tensor(&[1, 1, 2, 1], &[31, 32])),
        lengths: Ok(LengthOutput { shape: vec![1], data: vec![1] }),
        channel: Some(Ok(tensor(&[1, 1, 3, 2], &[41, 42, 43, 44, 45, 46]))),
        key: None,
        value: None,
        layer_keys: vec![],
        layer_values: vec![],
    }
}

fn decoder_outputs(best: usize, state: u32) -> DecoderOutputs {
    let mut logits = vec![(-1.5f32).to_bits(); 7];
    logits[best] = 0.25f32.to_bits();
    DecoderOutputs {
        logits: Ok(TensorOutput { shape: vec![1, 1, 1, 7], data: logits }),
        state_h: Ok(TensorOutput { shape: vec![1, 1, 640], data: vec![state; 640] }),
        state_c: Ok(TensorOutput { shape: vec![1, 1, 640], data: vec![state + 1; 640] }),
    }
}

/// Transcribes one chunk, in which the decoder gives these tokens one after the other
/// and blanks from then on. Gives the chunk and the number of decoder runs.
fn transcribe(
    eou: &mut ParakeetEOU,
    samples: &[u32],
    detect_eou: bool,
    tokens: &[usize],
) -> (ParakeetEOUChunk, usize) {
    let mut session = Transcription::new(detect_eou);
    let mut action = eou.transcribe(&mut session, TranscribeEvent::Audio(samples));
    let mut runs = 0;
    loop {
        action = match action {
            TranscribeAction::ExtractMelFrames => {
                let mel: Vec<u32> = (0..(N_MELS * FRAMES_PER_CHUNK) as u32).collect();
                eou.transcribe(&mut session, TranscribeEvent::MelFrames(&mel))
            }
            TranscribeAction::RunEncoder => {
                let inputs = eou.begin_encoder_run();
                assert_eq!(inputs.len(), 5);
                assert_eq!(eou.model.encoder_length, vec![25]);
                let frames = eou.run_encoder_into(EncoderReply::Onnx(encoder_outputs())).unwrap();
                assert_eq!(frames, 2);
                eou.transcribe(&mut session, TranscribeEvent::Encoded(frames))
            }
            TranscribeAction::RunDecoder => {
                let best = if runs < tokens.len() { tokens[runs] } else { BLANK };
                runs += 1;
                let outputs = decoder_outputs(best, runs as u32 * 100);
                eou.run_decoder_into(DecoderReply::Onnx(outputs)).unwrap();
                eou.transcribe(&mut session, TranscribeEvent::Decoded)
            }
            TranscribeAction::DecodeToken(id) => {
                let text = eou.tokenizer.decode(&[id], true).ok();
                eou.transcribe(&mut session, TranscribeEvent::Text(text))
            }
            TranscribeAction::MissingFrame(frame) => panic!("no frame {}", frame),
            TranscribeAction::Finish(chunk) => {
                assert_eq!(session.stage, Stage::Finished);
                return (chunk, runs);
            }
        };
    }
}

fn chunk(text: &str, endpoint_detected: bool) -> ParakeetEOUChunk {
    ParakeetEOUChunk { text: String::from(text), endpoint_detected }
}

#[test]
fn little_audio_gives_an_empty_chunk() {
    let mut eou = recogniser("null");
    assert_eq!(transcribe(&mut eou, &[7; 399], true, &[]), (ParakeetEOUChunk::default(), 0));
    assert_eq!(eou.chunk_counter, 1);
    assert_eq!(eou.audio_buffer.len(), 399);
    let (_, runs) = transcribe(&mut eou, &[8], true, &[]);
    assert_eq!(runs, 2);
    assert_eq!(eou.feature_window[..2400], vec![0; 2400]);
    assert_eq!(eou.feature_window[2400..2799], vec![7; 399]);
    assert_eq!(eou.feature_window[2799], 8);
}

#[test]
fn only_the_last_window_of_audio_is_kept() {
    let samples: Vec<u32> = (0..5000).collect();
    let mut one = recogniser("null");
    transcribe(&mut one, &samples, false, &[]);
    let mut many = recogniser("null");
    for part in samples.chunks(700) {
        transcribe(&mut many, part, false, &[]);
    }
    let expected: Vec<u32> = (2200..5000).collect();
    assert_eq!(one.audio_buffer, many.audio_buffer);
    assert_eq!(one.feature_window, expected);
    assert_eq!(many.feature_window, expected);
}

#[test]
fn tokens_become_text() {
    let mut eou = recogniser("null");
    let (given, runs) = transcribe(&mut eou, &[1; 2560], false, &[HI, TAG, YOU, BLANK, HI]);
    assert_eq!(given, chunk("hiyouhi", false));
    assert_eq!(runs, 6);
    assert_eq!(eou.last_token, HI as i32);
    assert!(eou.segment_has_text && eou.first_non_empty_emitted);
    assert_eq!(eou.state_h.words().unwrap(), &[500; 640]);
    assert_eq!(eou.state_c.words().unwrap(), &[501; 640]);
    assert_eq!(eou.decoder_frame.words().unwrap(), &[11, 21]);
    assert_eq!(eou.encoder_cache_len(), 1);
}

/// Whether the text of a token is asked for, with that decoder.
fn asks_for_text(decoder: &str) -> bool {
    let mut eou = recogniser(decoder);
    let mut session = Transcription::new(false);
    let mel = vec![0; N_MELS * FRAMES_PER_CHUNK];
    eou.transcribe(&mut session, TranscribeEvent::Audio(&[1; 2560]));
    eou.transcribe(&mut session, TranscribeEvent::MelFrames(&mel));
    eou.run_encoder_into(EncoderReply::Onnx(encoder_outputs())).unwrap();
    eou.transcribe(&mut session, TranscribeEvent::Encoded(2));
    eou.run_decoder_into(DecoderReply::Onnx(decoder_outputs(HI, 1))).unwrap();
    match eou.transcribe(&mut session, TranscribeEvent::Decoded) {
        TranscribeAction::DecodeToken(id) => {
            assert_eq!(id, HI as u32);
            assert_eq!(session.stage, Stage::Naming);
            assert_eq!(session.text, "");
            true
        }
        TranscribeAction::RunDecoder => {
            assert!(eou.segment_has_text && !session.text.is_empty());
            false
        }
        other => panic!("{:?}", other),
    }
}

#[test]
fn text_is_asked_for_where_decoding_may_abort() {
    assert!(asks_for_text(r#"{"type":"BPEDecoder","suffix":"</w>"}"#));
    assert!(asks_for_text(r#"{"type":"Replace","pattern":{"String":"i"},"content":"e"}"#));
    assert!(asks_for_text(r#"{"type":"Strip","content":"h","start":0,"stop":1}"#));
    assert!(asks_for_text(
        r#"{"type":"Sequence","decoders":[{"type":"Fuse"},{"type":"BPEDecoder","suffix":"</w>"}]}"#
    ));
    assert!(asks_for_text(
        r#"{"type":"Sequence","decoders":[{"type":"Sequence","decoders":[{"type":"Fuse"}]}]}"#
    ));
    let mut eou = recogniser(r#"{"type":"BPEDecoder","suffix":"i"}"#);
    let (given, _) = transcribe(&mut eou, &[1; 2560], false, &[HI, YOU]);
    assert_eq!(given, chunk("hyou", false));
    assert!(eou.segment_has_text);
}

#[test]
fn text_is_decoded_where_decoding_returns() {
    assert!(!asks_for_text("null"));
    assert!(!asks_for_text(r#"{"type":"ByteFallback"}"#));
    assert!(!asks_for_text(r#"{"type":"Fuse"}"#));
    assert!(!asks_for_text(r#"{"type":"Strip","content":"h","start":1,"stop":0}"#));
    assert!(!asks_for_text(
        r#"{"type":"CTC","pad_token":"<pad>","word_delimiter_token":"|","cleanup":true}"#
    ));
    assert!(!asks_for_text(r#"{"type":"Sequence","decoders":[]}"#));
    let strip = r#"{"type":"Strip","content":"h","start":1,"stop":0}"#;
    let both = format!(r#"{{"type":"Sequence","decoders":[{{"type":"ByteFallback"}},{}]}}"#, strip);
    assert!(!asks_for_text(&both));
    let mut eou = recogniser(&both);
    let (given, _) = transcribe(&mut eou, &[1; 2560], false, &[HI, YOU]);
    assert_eq!(given, chunk("iyou", false));
}

#[test]
fn only_text_that_is_not_empty_counts_for_endpoints() {
    // The pad token is taken out of what is decoded, so that it leaves nothing.
    let silent = r#"{"type":"CTC","pad_token":"hi","word_delimiter_token":"|","cleanup":false}"#;
    assert_eq!(tokenizer(silent).decode(&[HI as u32], true).unwrap(), "");
    let mut eou = recogniser(silent);
    let (given, runs) = transcribe(&mut eou, &[1; 2560], true, &[HI, EOU]);
    assert_eq!(given, chunk("", false));
    assert_eq!(runs, 3);
    assert_eq!(eou.last_token, HI as i32);
    assert!(!eou.segment_has_text && !eou.first_non_empty_emitted);
    let (given, _) = transcribe(&mut eou, &[1; 2560], true, &[YOU, HI, EOU]);
    assert_eq!(given, chunk("you", true));
    assert!(!eou.segment_has_text);
    transcribe(&mut eou, &[1; 2560], true, &[YOU]);
    eou.reset();
    let (given, _) = transcribe(&mut eou, &[1; 2560], true, &[HI, EOU]);
    assert_eq!(given, chunk("", false));
}

#[test]
fn a_token_that_cannot_be_decoded_is_no_text() {
    for text in [None, Some(String::new())] {
        let mut eou = recogniser(r#"{"type":"BPEDecoder","suffix":"</w>"}"#);
        let mut session = Transcription::new(true);
        let mel = vec![0; N_MELS * FRAMES_PER_CHUNK];
        eou.transcribe(&mut session, TranscribeEvent::Audio(&[1; 2560]));
        eou.transcribe(&mut session, TranscribeEvent::MelFrames(&mel));
        eou.run_encoder_into(EncoderReply::Onnx(encoder_outputs())).unwrap();
        eou.transcribe(&mut session, TranscribeEvent::Encoded(1));
        eou.run_decoder_into(DecoderReply::Onnx(decoder_outputs(HI, 1))).unwrap();
        let asked = eou.transcribe(&mut session, TranscribeEvent::Decoded);
        assert!(matches!(asked, TranscribeAction::DecodeToken(1)));
        let next = eou.transcribe(&mut session, TranscribeEvent::Text(text));
        assert!(matches!(next, TranscribeAction::RunDecoder));
        assert!(!eou.segment_has_text);
        eou.run_decoder_into(DecoderReply::Onnx(decoder_outputs(EOU, 2))).unwrap();
        match eou.transcribe(&mut session, TranscribeEvent::Decoded) {
            TranscribeAction::Finish(given) => assert_eq!(given, chunk("", false)),
            other => panic!("{:?}", other),
        }
    }
}

#[test]
fn a_frame_that_the_output_does_not_hold_is_missed_when_it_is_reached() {
    let mut eou = recogniser("null");
    let mut session = Transcription::new(true);
    let mel = vec![0; N_MELS * FRAMES_PER_CHUNK];
    eou.transcribe(&mut session, TranscribeEvent::Audio(&[1; 2560]));
    eou.transcribe(&mut session, TranscribeEvent::MelFrames(&mel));
    eou.run_encoder_into(EncoderReply::Onnx(encoder_outputs())).unwrap();
    let next = eou.transcribe(&mut session, TranscribeEvent::Encoded(3));
    assert!(matches!(next, TranscribeAction::RunDecoder));
    eou.run_decoder_into(DecoderReply::Onnx(decoder_outputs(BLANK, 1))).unwrap();
    let next = eou.transcribe(&mut session, TranscribeEvent::Decoded);
    assert!(matches!(next, TranscribeAction::RunDecoder));
    assert_eq!(session.frame, 1);
    eou.run_decoder_into(DecoderReply::Onnx(decoder_outputs(BLANK, 1))).unwrap();
    let next = eou.transcribe(&mut session, TranscribeEvent::Decoded);
    assert!(matches!(next, TranscribeAction::MissingFrame(2)));
    assert_eq!(session.stage, Stage::Stuck);
    // An endpoint before that frame ends the chunk as ever.
    let mut session = Transcription::new(true);
    eou.transcribe(&mut session, TranscribeEvent::Audio(&[1; 2560]));
    eou.transcribe(&mut session, TranscribeEvent::MelFrames(&mel));
    eou.transcribe(&mut session, TranscribeEvent::Encoded(3));
    eou.run_decoder_into(DecoderReply::Onnx(decoder_outputs(HI, 1))).unwrap();
    eou.transcribe(&mut session, TranscribeEvent::Decoded);
    eou.run_decoder_into(DecoderReply::Onnx(decoder_outputs(EOU, 1))).unwrap();
    match eou.transcribe(&mut session, TranscribeEvent::Decoded) {
        TranscribeAction::Finish(given) => assert_eq!(given, chunk("hi", true)),
        other => panic!("{:?}", other),
    }
}

#[test]
fn decoders_shape_the_text() {
    let mut eou = recogniser(r#"{"type":"WordPiece","prefix":"y","cleanup":false}"#);
    let (given, _) = transcribe(&mut eou, &[1; 2560], false, &[YOU]);
    assert_eq!(given, chunk("you", false));
    let mut eou = recogniser(r#"{"type":"Replace","pattern":{"String":"i"},"content":"e"}"#);
    let (given, _) = transcribe(&mut eou, &[1; 2560], false, &[HI]);
    assert_eq!(given, chunk("he", false));
}

#[test]
fn an_endpoint_ends_the_segment_and_nothing_else() {
    let mut eou = recogniser("null");
    let (given, runs) = transcribe(&mut eou, &[1; 2560], true, &[HI, EOU, YOU]);
    assert_eq!(given, chunk("hi", true));
    assert_eq!(runs, 2);
    assert!(!eou.segment_has_text);
    assert!(!eou.first_non_empty_emitted);
    assert_eq!(eou.last_token, HI as i32);
    assert_eq!(eou.state_h.words().unwrap(), &[100; 640]);
    assert_eq!(eou.encoder_cache.cache_last_channel.words().unwrap(), &[41, 42, 43, 44, 45, 46]);
    let (given, _) = transcribe(&mut eou, &[1; 2560], true, &[EOU, EOU]);
    assert_eq!(given, chunk("", false));
}

#[test]
fn endpoints_may_come_in_a_later_chunk() {
    let mut eou = recogniser("null");
    assert_eq!(transcribe(&mut eou, &[1; 2560], true, &[YOU]).0, chunk("you", false));
    assert_eq!(transcribe(&mut eou, &[1; 2560], true, &[EOB]).0, chunk("", true));
    assert_eq!(transcribe(&mut eou, &[1; 2560], true, &[EOB, EOB]).0, chunk("", false));
}

#[test]
fn endpoints_are_found_only_where_they_are_looked_for() {
    let mut eou = recogniser("null");
    let (given, runs) = transcribe(&mut eou, &[1; 2560], false, &[HI, EOU, EOB, YOU]);
    assert_eq!(given, chunk("hi", false));
    assert_eq!(runs, 3);
    assert!(eou.segment_has_text);
}

#[test]
fn a_frame_gives_at_most_ten_tokens() {
    let mut eou = recogniser("null");
    let (given, runs) = transcribe(&mut eou, &[1; 2560], false, &[HI; 40]);
    assert_eq!(runs, 20);
    assert_eq!(given.text, "hi".repeat(20));
}

#[test]
fn mel_frames_are_kept_for_the_next_chunk() {
    let mut eou = recogniser("null");
    assert_eq!(eou.mel_frame_cache.words().unwrap(), vec![LOG_MEL_ZERO; 128 * 9]);
    transcribe(&mut eou, &[1; 2560], false, &[]);
    let features = eou.features.words().unwrap();
    assert_eq!(features[..9], [LOG_MEL_ZERO; 9]);
    assert_eq!(features[9..25], (0..16).collect::<Vec<u32>>());
    assert_eq!(features[25..34], [LOG_MEL_ZERO; 9]);
    assert_eq!(features[34], 16);
    let kept = eou.mel_frame_cache.words().unwrap();
    assert_eq!(kept[..9], (7..16).collect::<Vec<u32>>());
    assert_eq!(kept[9..18], (23..32).collect::<Vec<u32>>());
    transcribe(&mut eou, &[1; 2560], false, &[]);
    let features = eou.features.words().unwrap();
    assert_eq!(features[..10], [7, 8, 9, 10, 11, 12, 13, 14, 15, 0]);
}

#[test]
fn a_reset_recogniser_is_like_a_new_one() {
    let mut used = recogniser("null");
    transcribe(&mut used, &[1; 2560], false, &[HI, YOU]);
    used.reset();
    let mut new = recogniser("null");
    assert_eq!(used.last_token, BLANK as i32);
    assert_eq!(used.audio_buffer, new.audio_buffer);
    assert_eq!(used.feature_window, new.feature_window);
    assert_eq!(used.chunk_counter, 0);
    assert!(!used.segment_has_text && !used.first_non_empty_emitted);
    assert_eq!(used.state_h.words(), new.state_h.words());
    assert_eq!(used.next_state_c.words(), new.next_state_c.words());
    assert_eq!(used.mel_frame_cache.words(), new.mel_frame_cache.words());
    assert_eq!(used.logits.words(), new.logits.words());
    assert_eq!(used.features.words(), new.features.words());
    assert_eq!(used.encoder_out.words(), new.encoder_out.words());
    assert_eq!(used.decoder_frame.words(), new.decoder_frame.words());
    assert_eq!(used.encoder_cache.cache_last_time.words(), new.encoder_cache.cache_last_time.words());
    assert_eq!(used.encoder_cache.cache_last_channel_len, new.encoder_cache.cache_last_channel_len);
    let again = transcribe(&mut used, &[3; 2560], true, &[YOU, EOU]);
    assert_eq!(again, transcribe(&mut new, &[3; 2560], true, &[YOU, EOU]));
}

#[test]
fn encoders_must_fit_the_front_end() {
    let wide = EncoderLayout { input_frames: 26, ..layout() };
    match ParakeetEOU::from_pretrained(tokenizer("null"), model(wide)) {
        Ok(_) => panic!("the front end makes other features"),
        Err(error) => assert_eq!(
            error.message(),
            format!(
                "Encoder frontend shape mismatch: model layout={:?}, frontend expects batch=1 n_mels=128 input_frames=25",
                wide
            )
        ),
    }
}

#[test]
fn encoders_that_do_not_fit_are_refused_whatever_their_size() {
    let huge = EncoderLayout { n_mels: usize::MAX, ..layout() };
    match ParakeetEOU::from_pretrained(tokenizer("null"), model(huge)) {
        Ok(_) => panic!("the front end makes other features"),
        Err(error) => assert!(error.message().starts_with("Encoder frontend shape mismatch")),
    }
    let long = EncoderLayout { time_cache_len: usize::MAX, ..layout() };
    let found = ParakeetEOU::from_pretrained(tokenizer("null"), model(long));
    assert!(matches!(found, Ok(None)));
}

#[test]
fn the_best_token_is_decided_on() {
    let tokens = TokenIds::new(10, Some(3), None);
    let on = |token, text, detect, has_text| decide(tokens, token, text, detect, has_text);
    assert_eq!(on(10, None, true, true), Decision::NextFrame);
    assert_eq!(on(11, None, true, true), Decision::NextFrame);
    assert_eq!(on(-1, None, true, true), Decision::NextFrame);
    assert_eq!(on(0, Some("x"), true, true), Decision::Skip);
    assert_eq!(on(3, Some("<EOU>"), true, true), Decision::Endpoint);
    assert_eq!(on(3, Some("<EOU>"), false, true), Decision::NextFrame);
    assert_eq!(on(3, Some("<EOU>"), true, false), Decision::NextFrame);
    assert_eq!(on(5, Some("<pad>"), true, true), Decision::Skip);
    assert_eq!(on(5, Some("pad>"), true, true), Decision::Emit);
    assert_eq!(on(5, None, true, true), Decision::Emit);
    assert_eq!(TokenIds::new(10, None, Some(7)).eou_id, 1024);
    assert_eq!(tokens.blank_id, 10);
    let named = TokenIds::new(10, None, Some(7)).meta_token_kind(7, None);
    assert_eq!(named, Some(MetaTokenKind::Eob));
    assert_eq!(named.unwrap().name(), "eob");
    assert_eq!(MetaTokenKind::Unk.name(), "unk");
}

#[test]
fn windows_are_cut_into_frames() {
    assert_eq!(required_audio_samples(0), 0);
    assert_eq!(required_audio_samples(1), 400);
    assert_eq!(required_audio_samples(16), FEATURE_WINDOW_SAMPLES);
    assert_eq!(FEATURE_WINDOW_SAMPLES, 2800);
    assert_eq!(STFT_FRAMES, 19);
    assert_eq!(check_stft_frames(2800).unwrap(), 19);
    assert_eq!(
        check_stft_frames(0).unwrap_err().message(),
        "Unexpected STFT frame count: 1, expected 19"
    );
    let samples: Vec<u32> = (1..2801).collect();
    let first = stft_frame(&samples, 0).unwrap();
    assert_eq!(first.len(), 400);
    assert_eq!(first[255], 0);
    assert_eq!(first[256], 1);
    assert_eq!(first[399], 144);
    let last = stft_frame(&samples, 18).unwrap();
    assert_eq!(last[0], 18 * 160 - 256 + 1);
    assert_eq!(last[175], 2800);
    assert_eq!(last[176], 0);
    assert!(stft_frame(&samples, 19).is_none());
}

#[test]
fn columns_come_apart_as_they_were_joined() {
    let left = [1, 2, 3, 4];
    let right = [5, 6, 7, 8, 9, 10];
    let both = join_columns(&left, 2, &right, 3, 2);
    assert_eq!(both, vec![1, 2, 5, 6, 7, 3, 4, 8, 9, 10]);
    assert_eq!(take_columns(&both, 2, 5, 0, 2), left);
    assert_eq!(take_columns(&both, 2, 5, 2, 3), right);
    assert_eq!(take_columns(&both, 2, 5, 4, 1), vec![7, 10]);
    let mel: Vec<u32> = (0..128 * 19).collect();
    let recent = recent_frames(&mel, 19);
    assert_eq!(recent.len(), 128 * 16);
    assert_eq!(recent[0], 3);
    assert_eq!(recent[16], 22);
}
