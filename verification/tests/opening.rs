use parakeet_eou::error::Error;
use parakeet_eou::files::{EncoderFile, ModelFiles};
use parakeet_eou::layout::{EncoderCacheAbi, EncoderLayout};
use parakeet_eou::litert::LiteRtEncoder;
use parakeet_eou::opening::{OpenAction, OpenEvent, Opening};
use parakeet_eou::outlets::{EncoderIo, Outlet, OutletType};

fn outlet(name: &str, shape: &[i64]) -> Outlet {
    Outlet { name: String::from(name), dtype: OutletType::Tensor(shape.to_vec()) }
}

fn inputs() -> Vec<Outlet> {
    vec![
        outlet("audio_signal", &[1, 128, 25]),
        outlet("cache_last_channel", &[2, 1, 3, 4]),
        outlet("cache_last_time", &[2, 1, 4, 1]),
    ]
}

fn outputs() -> Vec<Outlet> {
    vec![outlet("outputs", &[1, 4, 2])]
}

fn layout() -> EncoderLayout {
    EncoderLayout {
        batch: 1,
        n_mels: 128,
        input_frames: 25,
        output_frames: 2,
        num_layers: 2,
        cache_len: 3,
        hidden_size: 4,
        time_cache_len: 1,
    }
}

fn files(full_litert: bool) -> ModelFiles {
    ModelFiles {
        litert_encoder: full_litert,
        litert_encoder_enabled: full_litert,
        litert_decoder: full_litert,
        projected_kv_layered_fixed: false,
        projected_kv_layered: false,
        projected_kv_int8: true,
        fixed_raw_cache_int8: false,
        fixed_raw_cache: false,
        posconst_int8: false,
        conservative_int8: false,
    }
}

fn next(state: Opening, event: OpenEvent) -> Result<(Opening, OpenAction), Error> {
    state.next(event, 7, "/m")
}

fn message(r: Result<(Opening, OpenAction), Error>) -> String {
    match r {
        Ok(_) => panic!("opening goes on"),
        Err(error) => error.message().to_owned(),
    }
}

#[test]
fn graphs_are_opened_in_order() {
    let (state, action) = next(Opening::Start, OpenEvent::Files(files(false))).unwrap();
    assert!(matches!(action, OpenAction::LookForGraphs(EncoderFile::ProjectedKvInt8)));
    let there = OpenEvent::Graphs { encoder_exists: true, decoder_exists: true };
    let (state, action) = next(state, there).unwrap();
    assert!(matches!(action, OpenAction::OpenEncoder(EncoderFile::ProjectedKvInt8)));
    let (inputs, outputs) = (inputs(), outputs());
    let opened = OpenEvent::EncoderOpened { inputs: &inputs, outputs: &outputs };
    let (state, action) = next(state, opened).unwrap();
    match action {
        OpenAction::BindEncoder(bindings) => {
            let names: Vec<&str> = bindings.iter().map(|b| b.name.as_str()).collect();
            assert_eq!(names, vec!["outputs", "new_cache_last_time", "new_cache_last_channel_len"]);
        }
        _ => panic!("the outputs are bound first"),
    }
    let (state, action) = next(state, OpenEvent::EncoderBound).unwrap();
    assert!(matches!(action, OpenAction::CreateLiteRtEncoder));
    let (state, action) = next(state, OpenEvent::LiteRtEncoder(None)).unwrap();
    assert!(matches!(action, OpenAction::OpenDecoder));
    let (state, action) = next(state, OpenEvent::DecoderOpened).unwrap();
    match action {
        OpenAction::BindDecoder(bindings) => assert_eq!(bindings[0].shape, vec![1, 1, 1, 7]),
        _ => panic!("the outputs are bound first"),
    }
    let (state, action) = next(state, OpenEvent::DecoderBound).unwrap();
    assert_eq!(state, Opening::Open);
    match action {
        OpenAction::Finish(model) => {
            assert_eq!(model.encoder_layout(), layout());
            assert!(!model.full_litert && model.litert_encoder.is_none());
        }
        _ => panic!("the model is open"),
    }
}

#[test]
fn missing_graphs_end_the_opening() {
    let (state, _) = next(Opening::Start, OpenEvent::Files(files(false))).unwrap();
    let gone = OpenEvent::Graphs { encoder_exists: false, decoder_exists: true };
    assert_eq!(
        message(next(state, gone)),
        "Missing ONNX files in /m. Expected encoder.onnx and decoder_joint.onnx"
    );
}

#[test]
fn unusable_encoders_end_the_opening() {
    let state = Opening::OpeningEncoder { file: EncoderFile::Plain };
    let outputs = outputs();
    let opened = OpenEvent::EncoderOpened { inputs: &[], outputs: &outputs };
    assert_eq!(message(next(state, opened)), "Missing encoder input audio_signal");
}

#[test]
fn only_raw_encoders_have_a_twin() {
    let io = EncoderIo {
        layout: layout(),
        cache_abi: EncoderCacheAbi::ProjectedKvLayered,
        accepts_length: false,
        has_raw_channel_cache: true,
        outputs_raw_channel_cache: false,
    };
    let (state, action) = next(Opening::BindingEncoder { io }, OpenEvent::EncoderBound).unwrap();
    assert_eq!(state, Opening::OpeningDecoder { io, twin: None });
    assert!(matches!(action, OpenAction::OpenDecoder));
}

#[test]
fn full_litert_models_need_both_parts() {
    let encoder = LiteRtEncoder { layout: layout(), cache_abi: EncoderCacheAbi::RawChannel };
    let (state, action) = next(Opening::Start, OpenEvent::Files(files(true))).unwrap();
    assert!(matches!(action, OpenAction::CreateLiteRtEncoder));
    assert_eq!(
        message(next(state, OpenEvent::LiteRtEncoder(None))),
        "Full LiteRT model selected, but LiteRT encoder API is unavailable"
    );
    let (state, action) = next(state, OpenEvent::LiteRtEncoder(Some(encoder))).unwrap();
    assert!(matches!(action, OpenAction::CreateLiteRtDecoder));
    assert_eq!(
        message(next(state, OpenEvent::LiteRtDecoder(false))),
        "Full LiteRT model selected, but LiteRT decoder API is unavailable"
    );
    match next(state, OpenEvent::LiteRtDecoder(true)).unwrap() {
        (Opening::Open, OpenAction::Finish(model)) => {
            assert!(model.full_litert);
            assert_eq!(model.litert_encoder, Some(encoder));
        }
        _ => panic!("the model is open"),
    }
}
