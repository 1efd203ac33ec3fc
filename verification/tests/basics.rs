use parakeet_eou::frontend::{LOG_MEL_ZERO, LOG_ZERO_GUARD};
use parakeet_eou::vocabulary::{is_angle_bracket_meta_token, TokenIds};

#[test]
fn log_mel_zero_matches_nemo_silence_value() {
    let log_mel_zero = f32::from_bits(LOG_MEL_ZERO);
    let log_zero_guard = f32::from_bits(LOG_ZERO_GUARD);
    assert!((log_mel_zero - log_zero_guard.ln()).abs() < 0.001);
}

#[test]
fn angle_bracket_tokens_are_meta_tokens() {
    assert!(is_angle_bracket_meta_token("<EOB>"));
    assert!(is_angle_bracket_meta_token("<custom>"));
    assert!(!is_angle_bracket_meta_token("▁hello"));
}

fn tokenizer() -> tokenizers::Tokenizer {
    let json = r#"{"version":"1.0","truncation":null,"padding":null,"added_tokens":[],
        "normalizer":null,"pre_tokenizer":null,"post_processor":null,"decoder":null,
        "model":{"type":"WordLevel","vocab":{"<unk>":0,"hi":1,"<EOU>":2,"<EOB>":3},"unk_token":"<unk>"}}"#;
    tokenizers::Tokenizer::from_bytes(json.as_bytes()).unwrap()
}

#[test]
fn steering_tokens_come_from_the_vocabulary() {
    let ids = TokenIds::of_tokenizer(&tokenizer());
    assert_eq!(ids.vocab_size, 4);
    assert_eq!(ids.blank_id, 4);
    assert_eq!(ids.eou_id, 2);
    assert_eq!(ids.eob_id, Some(3));
}
