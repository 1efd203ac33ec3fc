use parakeet_eou::cache::EncoderCache;
use parakeet_eou::decoder_run::{
    decoder_outputs_can_be_taken, DecoderOutputs, LiteRtDecoderReply,
};
use parakeet_eou::encoder_run::{
    finish_encoder_run, outputs_can_be_taken, EncoderOutputs, LengthOutput,
};
use parakeet_eou::error::Error;
use parakeet_eou::layout::{EncoderCacheAbi, EncoderLayout};
use parakeet_eou::litert::LiteRtEncoder;
use parakeet_eou::litert_run::{plan_decoder_run, LiteRtEncoderReply, LiteRtRun};
use parakeet_eou::model_eou::{
    decoder_input_bindings, decoder_output_bindings, encoder_output_bindings, wants_litert_encoder,
    DecoderInput, DecoderReply, Element, EncoderInput, EncoderReply, ModelSource, ParakeetEOUModel,
};
use parakeet_eou::outlets::EncoderIo;
use parakeet_eou::projected::TensorOutput;
use parakeet_eou::tensor::Tensor;

fn layout() -> EncoderLayout {
    EncoderLayout {
        batch: 1,
        n_mels: 128,
        input_frames: 25,
        output_frames: 2,
        num_layers: 1,
        cache_len: 3,
        hidden_size: 2,
        time_cache_len: 1,
    }
}

fn io(cache_abi: EncoderCacheAbi) -> EncoderIo {
    EncoderIo {
        layout: layout(),
        cache_abi,
        accepts_length: true,
        has_raw_channel_cache: true,
        outputs_raw_channel_cache: true,
    }
}

fn tensor(shape: &[i64], data: &[u32]) -> TensorOutput {
    TensorOutput { shape: shape.to_vec(), data: data.to_vec() }
}

fn outputs() -> EncoderOutputs {
    EncoderOutputs {
        encoded: Ok(tensor(&[1, 2, 2], &[1, 2, 3, 4])),
        time: Ok(tensor(&[1, 1, 2, 1], &[11, 12])),
        lengths: Ok(LengthOutput { shape: vec![1], data: vec![3] }),
        channel: Some(Ok(tensor(&[1, 1, 3, 2], &[21, 22, 23, 24, 25, 26]))),
        key: None,
        value: None,
        layer_keys: vec![],
        layer_values: vec![],
    }
}

fn out() -> Tensor {
    Tensor::new(&[1, 2, 2])
}

#[test]
fn raw_runs_replace_the_context() {
    let mut cache = EncoderCache::new(layout());
    let mut out = out();
    let frames = finish_encoder_run(io(EncoderCacheAbi::RawChannel), &mut cache, &mut out, &outputs());
    assert_eq!(frames.unwrap(), 2);
    assert_eq!(out.words().unwrap(), &[1, 2, 3, 4]);
    assert_eq!(cache.cache_last_channel.words().unwrap(), &[21, 22, 23, 24, 25, 26]);
    assert_eq!(cache.cache_last_time.words().unwrap(), &[11, 12]);
    assert_eq!(cache.cache_last_channel_len, vec![3]);
    assert_eq!(cache.cache_last_key.words().unwrap(), &[0; 6]);
    assert_eq!(cache.first_length(), 3);
    assert_eq!(out.axes(), &[1, 2, 2]);
    assert_eq!(cache.cache_last_channel.axes(), &[1, 1, 3, 2]);
    assert_eq!(cache.cache_last_time.axes(), &[1, 1, 2, 1]);
}

#[test]
fn stacked_runs_replace_keys_and_values() {
    let mut cache = EncoderCache::new(layout());
    let mut out = out();
    let mut given = outputs();
    given.key = Some(Ok(tensor(&[1, 1, 3, 2], &[31, 32, 33, 34, 35, 36])));
    given.value = Some(Ok(tensor(&[1, 1, 3, 2], &[41, 42, 43, 44, 45, 46])));
    let io = io(EncoderCacheAbi::ProjectedKvStacked);
    finish_encoder_run(io, &mut cache, &mut out, &given).unwrap();
    assert_eq!(cache.cache_last_key.words().unwrap(), &[31, 32, 33, 34, 35, 36]);
    assert_eq!(cache.cache_last_value.words().unwrap(), &[41, 42, 43, 44, 45, 46]);
    given.value = Some(Ok(tensor(&[1, 1, 2, 2], &[1, 2, 3, 4])));
    let error = finish_encoder_run(io, &mut cache, &mut out, &given).unwrap_err();
    assert_eq!(error.message(), "Unexpected cache_last_value shape: [1, 1, 2, 2]");
    assert_eq!(cache.cache_last_key.words().unwrap(), &[31, 32, 33, 34, 35, 36]);
    given.key = Some(Err(String::from("gone")));
    let error = finish_encoder_run(io, &mut cache, &mut out, &given).unwrap_err();
    assert_eq!(error.message(), "Failed to extract cache_last_key: gone");
}

#[test]
fn layered_runs_roll_their_frames_in() {
    let mut cache = EncoderCache::new(layout());
    let mut out = out();
    let mut given = outputs();
    given.layer_keys = vec![Ok(tensor(&[1, 2, 2], &[51, 52, 53, 54]))];
    given.layer_values = vec![Ok(tensor(&[1, 2, 2], &[61, 62, 63, 64]))];
    let io = io(EncoderCacheAbi::ProjectedKvLayered);
    finish_encoder_run(io, &mut cache, &mut out, &given).unwrap();
    assert_eq!(cache.cache_last_key.words().unwrap(), &[0, 0, 51, 52, 53, 54]);
    assert_eq!(cache.cache_last_value.words().unwrap(), &[0, 0, 61, 62, 63, 64]);
}

fn refused(change: impl Fn(&mut EncoderOutputs)) -> (String, EncoderCache, Tensor) {
    let mut cache = EncoderCache::new(layout());
    let mut out = out();
    let mut given = outputs();
    change(&mut given);
    let io = io(EncoderCacheAbi::RawChannel);
    let error = finish_encoder_run(io, &mut cache, &mut out, &given).unwrap_err();
    assert!(matches!(error, Error::Model(_)));
    (error.message().to_owned(), cache, out)
}

#[test]
fn refused_outputs_leave_the_caches() {
    let (message, cache, out) = refused(|o| o.encoded = Err(String::from("gone")));
    assert_eq!(message, "Failed to extract encoder output: gone");
    assert_eq!(out.words().unwrap(), &[0; 4]);
    assert_eq!(cache.cache_last_channel.words().unwrap(), &[0; 6]);
    let (message, _, out) = refused(|o| o.encoded = Ok(tensor(&[1, 2, 3], &[0; 6])));
    assert_eq!(
        message,
        "Unexpected encoder output shape: [1, 2, 3], reusable buffer shape: [1, 2, 2]"
    );
    assert_eq!(out.words().unwrap(), &[0; 4]);
    let (message, cache, out) = refused(|o| o.time = Err(String::from("gone")));
    assert_eq!(message, "Failed to extract cache_last_time: gone");
    assert_eq!(out.words().unwrap(), &[1, 2, 3, 4]);
    assert_eq!(cache.cache_last_channel.words().unwrap(), &[0; 6]);
    let (message, ..) = refused(|o| o.time = Ok(tensor(&[1, 1, 2, 2], &[0; 4])));
    assert_eq!(message, "Unexpected cache_last_time shape: [1, 1, 2, 2]");
    let (message, ..) = refused(|o| o.lengths = Err(String::from("gone")));
    assert_eq!(message, "Failed to extract cache_len: gone");
    let (message, cache, _) =
        refused(|o| o.lengths = Ok(LengthOutput { shape: vec![2], data: vec![1, 2] }));
    assert_eq!(message, "Unexpected cache_last_channel_len shape: [2]");
    assert_eq!(cache.cache_last_channel_len, vec![0]);
    let (message, ..) = refused(|o| o.channel = Some(Err(String::from("gone"))));
    assert_eq!(message, "Failed to extract cache_last_channel: gone");
    let (message, cache, _) =
        refused(|o| o.channel = Some(Ok(tensor(&[1, 1, 1, 2], &[1, 2]))));
    assert_eq!(message, "Unexpected cache_last_channel shape: [1, 1, 1, 2]");
    assert_eq!(cache.cache_last_time.words().unwrap(), &[0; 2]);
}

fn litert(cache_abi: EncoderCacheAbi) -> LiteRtEncoder {
    LiteRtEncoder { layout: layout(), cache_abi }
}

fn reply<'a>(ok: bool) -> LiteRtEncoderReply<'a> {
    LiteRtEncoderReply {
        ok,
        message: "",
        encoded: &[1, 2, 3, 4],
        encoded_lengths: &[1],
        channel: &[21, 22, 23, 24, 25, 26],
        time: &[11, 12],
        lengths: &[5],
        current_key: &[51, 52, 53, 54],
        current_value: &[61, 62, 63, 64],
    }
}

#[test]
fn litert_runs_choose_their_callback() {
    let features = Tensor::new(&[1, 128, 25]);
    let cache = EncoderCache::new(layout());
    let current = Tensor::new(&[1, 1, 2, 2]);
    let plan = |abi, raw, projected| {
        litert(abi).plan_run(&features, &cache, &out(), &current, &current, raw, projected)
    };
    assert_eq!(plan(EncoderCacheAbi::RawChannel, true, false).unwrap(), LiteRtRun::Raw);
    assert_eq!(
        plan(EncoderCacheAbi::ProjectedKvLayered, false, true).unwrap(),
        LiteRtRun::Projected
    );
    let message = |r: Result<LiteRtRun, Error>| r.unwrap_err().message().to_owned();
    assert_eq!(
        message(plan(EncoderCacheAbi::RawChannel, false, true)),
        "LiteRT encoder run callback missing"
    );
    assert_eq!(
        message(plan(EncoderCacheAbi::ProjectedKvLayered, true, false)),
        "LiteRT projected encoder run callback missing"
    );
    assert_eq!(
        message(plan(EncoderCacheAbi::ProjectedKvStacked, true, true)),
        "LiteRT stacked projected-cache ABI is not supported"
    );
    let state = Tensor::new(&[1, 1, 640]);
    let frame = Tensor::new(&[1, 2, 1]);
    let logits = Tensor::new(&[1, 1, 5]);
    assert!(plan_decoder_run(true, &frame, &state, &state, &logits, &state, &state).is_ok());
    assert_eq!(
        plan_decoder_run(false, &frame, &state, &state, &logits, &state, &state).unwrap_err().message(),
        "LiteRT decoder run callback missing"
    );
}

fn litert_model(cache_abi: EncoderCacheAbi) -> ParakeetEOUModel {
    let source = ModelSource::FullLiteRt { encoder: Some(litert(cache_abi)), has_decoder: true };
    ParakeetEOUModel::from_pretrained(source).unwrap()
}

#[test]
fn litert_runs_write_in_place() {
    let mut model = litert_model(EncoderCacheAbi::ProjectedKvLayered);
    let mut cache = EncoderCache::new(layout());
    let mut out = out();
    let frames = model.run_encoder_into(&mut cache, &mut out, EncoderReply::LiteRt(reply(true)));
    assert_eq!(frames.unwrap(), 1);
    assert_eq!(out.words().unwrap(), &[1, 2, 3, 4]);
    assert_eq!(cache.cache_last_channel_len, vec![5]);
    assert_eq!(cache.cache_last_key.words().unwrap(), &[0, 0, 51, 52, 53, 54]);
    assert_eq!(cache.cache_last_value.words().unwrap(), &[0, 0, 61, 62, 63, 64]);
    assert_eq!(model.litert_projected_current_key.words().unwrap(), &[51, 52, 53, 54]);
    assert_eq!(cache.cache_last_key.axes(), &[1, 1, 3, 2]);
    assert_eq!(out.axes(), &[1, 2, 2]);
}

#[test]
fn failed_litert_runs_leave_projected_caches() {
    let mut model = litert_model(EncoderCacheAbi::ProjectedKvLayered);
    let mut cache = EncoderCache::new(layout());
    let mut out = out();
    let error = model.run_encoder_into(&mut cache, &mut out, EncoderReply::LiteRt(reply(false)));
    assert_eq!(error.unwrap_err().message(), "LiteRT encoder run failed: unknown error");
    assert_eq!(out.words().unwrap(), &[1, 2, 3, 4]);
    assert_eq!(cache.cache_last_key.words().unwrap(), &[0; 6]);
}

#[test]
fn failed_litert_runs_are_reported_though_nothing_could_be_rolled() {
    let pairs = EncoderLayout { batch: 2, ..layout() };
    let encoder = LiteRtEncoder { layout: pairs, cache_abi: EncoderCacheAbi::ProjectedKvLayered };
    let source = ModelSource::FullLiteRt { encoder: Some(encoder), has_decoder: true };
    let mut model = ParakeetEOUModel::from_pretrained(source).unwrap();
    let mut cache = EncoderCache::new(pairs);
    let mut out = Tensor::new(&[2, 2, 2]);
    let given = |ok| LiteRtEncoderReply {
        ok,
        message: "out of memory",
        encoded: &[7; 8],
        encoded_lengths: &[1, 1],
        channel: &[8; 12],
        time: &[9; 4],
        lengths: &[5, 6],
        current_key: &[1; 8],
        current_value: &[2; 8],
    };
    let (key, value) =
        (&model.litert_projected_current_key, &model.litert_projected_current_value);
    assert!(!encoder.can_finish_run(&cache, &out, key, value, &given(true)));
    assert!(encoder.can_finish_run(&cache, &out, key, value, &given(false)));
    let error = model.run_encoder_into(&mut cache, &mut out, EncoderReply::LiteRt(given(false)));
    assert_eq!(error.unwrap_err().message(), "LiteRT encoder run failed: out of memory");
    assert_eq!(out.words().unwrap(), &[7; 8]);
    assert_eq!(cache.cache_last_key.words().unwrap(), &[0; 12]);
    assert_eq!(model.litert_projected_current_key.words().unwrap(), &[1; 8]);
}

#[test]
fn litert_replies_must_have_their_sizes() {
    let encoder = litert(EncoderCacheAbi::ProjectedKvLayered);
    let cache = EncoderCache::new(layout());
    let current = Tensor::new(&[1, 1, 2, 2]);
    let fits = |reply: LiteRtEncoderReply| {
        encoder.can_finish_run(&cache, &out(), &current, &current, &reply)
    };
    assert!(fits(reply(true)));
    assert!(!fits(LiteRtEncoderReply { encoded: &[1], ..reply(true) }));
    assert!(!fits(LiteRtEncoderReply { lengths: &[], ..reply(true) }));
    assert!(!fits(LiteRtEncoderReply { current_key: &[1], ..reply(false) }));
    let raw = litert(EncoderCacheAbi::RawChannel);
    let other = LiteRtEncoderReply { current_key: &[1], ..reply(true) };
    assert!(raw.can_finish_run(&cache, &out(), &current, &current, &other));
}

#[test]
fn nothing_is_asked_of_outputs_behind_a_refused_one() {
    let raw = io(EncoderCacheAbi::RawChannel);
    let stacked = io(EncoderCacheAbi::ProjectedKvStacked);
    let message = |io, given: EncoderOutputs| {
        let mut cache = EncoderCache::new(layout());
        assert!(outputs_can_be_taken(io, &cache, &out(), &given));
        finish_encoder_run(io, &mut cache, &mut out(), &given).unwrap_err().message().to_owned()
    };
    let mut given = outputs();
    given.encoded = Ok(tensor(&[1, 2, 3], &[1, 2, 3]));
    given.time = Ok(tensor(&[1, 1, 2], &[11, 12]));
    assert_eq!(
        message(raw, given),
        "Unexpected encoder output shape: [1, 2, 3], reusable buffer shape: [1, 2, 2]"
    );
    let mut given = outputs();
    given.time = Ok(tensor(&[1], &[11]));
    given.lengths = Err(String::from("gone"));
    assert_eq!(message(raw, given), "Failed to extract cache_len: gone");
    let mut given = outputs();
    given.time = Ok(tensor(&[1, 1, 2, 9], &[11]));
    given.lengths = Ok(LengthOutput { shape: vec![], data: vec![] });
    given.channel = None;
    assert_eq!(message(raw, given), "Unexpected cache_last_time shape: [1, 1, 2, 9]");
    let mut given = outputs();
    given.channel = Some(Ok(tensor(&[1, 1, 3, 9], &[])));
    given.key = None;
    assert_eq!(message(stacked, given), "Unexpected cache_last_channel shape: [1, 1, 3, 9]");
    let mut given = outputs();
    given.key = Some(Err(String::from("gone")));
    given.value = None;
    assert_eq!(message(stacked, given), "Failed to extract cache_last_key: gone");
    let mut given = outputs();
    given.key = Some(Ok(tensor(&[1, 1, 9, 2], &[])));
    given.value = Some(Ok(tensor(&[1], &[])));
    given.time = Ok(tensor(&[1, 1, 2, 1], &[]));
    assert_eq!(message(stacked, given), "Unexpected cache_last_key shape: [1, 1, 9, 2]");
    let logits = Tensor::new(&[1, 1, 3]);
    let state = Tensor::new(&[1, 1, 640]);
    let given = DecoderOutputs {
        logits: Ok(tensor(&[3], &[7, 8, 9])),
        state_c: Err(String::from("gone")),
        ..decoder_outputs()
    };
    assert!(decoder_outputs_can_be_taken(&logits, &state, &state, &given));
    let (mut l, mut h, mut c) =
        (Tensor::new(&[1, 1, 3]), Tensor::new(&[1, 1, 640]), Tensor::new(&[1, 1, 640]));
    assert_eq!(
        onnx_model()
            .run_decoder_into(&mut l, &mut h, &mut c, DecoderReply::Onnx(given))
            .unwrap_err()
            .message(),
        "Failed to extract state c: gone"
    );
}

#[test]
fn models_come_from_what_their_directory_holds() {
    let raw = litert(EncoderCacheAbi::RawChannel);
    let full = litert_model(EncoderCacheAbi::RawChannel);
    assert!(full.full_litert && !full.io.accepts_length && full.io.has_raw_channel_cache);
    assert_eq!(full.encoder_layout(), layout());
    assert_eq!(full.decoder_target_length, vec![1]);
    let message = |source| match ParakeetEOUModel::from_pretrained(source) {
        Ok(_) => panic!("the model is unusable"),
        Err(error) => error.message().to_owned(),
    };
    assert_eq!(
        message(ModelSource::FullLiteRt { encoder: None, has_decoder: false }),
        "Full LiteRT model selected, but LiteRT encoder API is unavailable"
    );
    assert_eq!(
        message(ModelSource::FullLiteRt { encoder: Some(raw), has_decoder: false }),
        "Full LiteRT model selected, but LiteRT decoder API is unavailable"
    );
    let hybrid = ModelSource::Onnx { io: io(EncoderCacheAbi::RawChannel), litert_encoder: Some(raw) };
    let hybrid = ParakeetEOUModel::from_pretrained(hybrid).unwrap();
    assert_eq!(hybrid.litert_encoder, Some(raw));
    assert!(wants_litert_encoder(io(EncoderCacheAbi::RawChannel)));
    let stacked =
        ModelSource::Onnx { io: io(EncoderCacheAbi::ProjectedKvStacked), litert_encoder: Some(raw) };
    let stacked = ParakeetEOUModel::from_pretrained(stacked).unwrap();
    assert_eq!(stacked.litert_encoder, None);
    assert!(!wants_litert_encoder(io(EncoderCacheAbi::ProjectedKvStacked)));
}

#[test]
fn inputs_and_outputs_are_bound_in_order() {
    let source =
        ModelSource::Onnx { io: io(EncoderCacheAbi::ProjectedKvLayered), litert_encoder: None };
    let mut model = ParakeetEOUModel::from_pretrained(source).unwrap();
    let inputs = model.begin_encoder_run(25);
    assert_eq!(model.encoder_length, vec![25]);
    let names: Vec<(&str, EncoderInput)> =
        inputs.iter().map(|input| (input.name.as_str(), input.source)).collect();
    assert_eq!(
        names,
        vec![
            ("audio_signal", EncoderInput::Features),
            ("length", EncoderInput::Length),
            ("cache_last_channel", EncoderInput::ChannelCache),
            ("cache_key_layer_0", EncoderInput::KeyLayer(0)),
            ("cache_value_layer_0", EncoderInput::ValueLayer(0)),
            ("cache_last_time", EncoderInput::TimeCache),
            ("cache_last_channel_len", EncoderInput::CacheLengths),
        ]
    );
    let bound: Vec<(String, Vec<usize>, Element)> = encoder_output_bindings(model.io)
        .into_iter()
        .map(|output| (output.name, output.shape, output.element))
        .collect();
    assert_eq!(
        bound,
        vec![
            (String::from("outputs"), vec![1, 2, 2], Element::Float),
            (String::from("new_cache_last_channel"), vec![1, 1, 3, 2], Element::Float),
            (String::from("new_cache_last_time"), vec![1, 1, 2, 1], Element::Float),
            (String::from("new_cache_last_channel_len"), vec![1], Element::Long),
            (String::from("projected_current_key_layer_0"), vec![1, 2, 2], Element::Float),
            (String::from("projected_current_value_layer_0"), vec![1, 2, 2], Element::Float),
        ]
    );
    let stacked = EncoderIo {
        accepts_length: false,
        has_raw_channel_cache: false,
        outputs_raw_channel_cache: false,
        ..io(EncoderCacheAbi::ProjectedKvStacked)
    };
    let names: Vec<String> =
        encoder_output_bindings(stacked).into_iter().map(|output| output.name).collect();
    assert_eq!(
        names,
        vec![
            "outputs",
            "new_cache_last_time",
            "new_cache_last_channel_len",
            "new_cache_last_key",
            "new_cache_last_value",
        ]
    );
    let decoder: Vec<Vec<usize>> =
        decoder_output_bindings(1027).into_iter().map(|output| output.shape).collect();
    assert_eq!(decoder, vec![vec![1, 1, 1, 1027], vec![1, 1, 640], vec![1, 1, 640]]);
    assert_eq!(decoder_input_bindings()[4], ("input_states_2", DecoderInput::StateC));
}

fn decoder_outputs() -> DecoderOutputs {
    DecoderOutputs {
        logits: Ok(tensor(&[1, 1, 1, 3], &[7, 8, 9])),
        state_h: Ok(tensor(&[1, 1, 640], &[1; 640])),
        state_c: Ok(tensor(&[1, 1, 640], &[2; 640])),
    }
}

fn onnx_model() -> ParakeetEOUModel {
    let source = ModelSource::Onnx { io: io(EncoderCacheAbi::RawChannel), litert_encoder: None };
    ParakeetEOUModel::from_pretrained(source).unwrap()
}

#[test]
fn decoder_outputs_fill_their_buffers() {
    let mut logits = Tensor::new(&[1, 1, 3]);
    let mut h = Tensor::new(&[1, 1, 640]);
    let mut c = Tensor::new(&[1, 1, 640]);
    let model = onnx_model();
    model
        .run_decoder_into(&mut logits, &mut h, &mut c, DecoderReply::Onnx(decoder_outputs()))
        .unwrap();
    assert_eq!(logits.words().unwrap(), &[7, 8, 9]);
    assert_eq!(h.words().unwrap(), &[1; 640]);
    assert_eq!(c.words().unwrap(), &[2; 640]);
    let full = litert_model(EncoderCacheAbi::RawChannel);
    let reply = LiteRtDecoderReply {
        ok: false,
        message: "oom",
        logits: &[1, 2, 3],
        state_h: &[3; 640],
        state_c: &[4; 640],
    };
    let error = full
        .run_decoder_into(&mut logits, &mut h, &mut c, DecoderReply::LiteRt(reply))
        .unwrap_err();
    assert_eq!(error.message(), "LiteRT decoder run failed: oom");
    assert_eq!(logits.words().unwrap(), &[1, 2, 3]);
    assert_eq!(c.words().unwrap(), &[4; 640]);
}

#[test]
fn decoder_outputs_that_do_not_fit_are_refused() {
    let model = onnx_model();
    let refuse = |axes: &[usize], h_axes: &[usize], c_axes: &[usize], outputs: DecoderOutputs| {
        let mut logits = Tensor::new(axes);
        let mut h = Tensor::new(h_axes);
        let mut c = Tensor::new(c_axes);
        let error = model
            .run_decoder_into(&mut logits, &mut h, &mut c, DecoderReply::Onnx(outputs))
            .unwrap_err();
        assert!(logits.words().unwrap().iter().all(|word| *word == 0));
        error.message().to_owned()
    };
    let state = [1, 1, 640];
    let gone = || Err(String::from("gone"));
    let broken = DecoderOutputs { logits: gone(), ..decoder_outputs() };
    assert_eq!(refuse(&[1, 1, 3], &state, &state, broken), "Failed to extract logits: gone");
    let broken = DecoderOutputs { state_h: gone(), ..decoder_outputs() };
    assert_eq!(refuse(&[1, 1, 3], &state, &state, broken), "Failed to extract state h: gone");
    let broken = DecoderOutputs { state_c: gone(), ..decoder_outputs() };
    assert_eq!(refuse(&[1, 1, 3], &state, &state, broken), "Failed to extract state c: gone");
    assert_eq!(
        refuse(&[1, 1, 4], &state, &state, decoder_outputs()),
        "Unexpected logits shape: [1, 1, 1, 3], reusable buffer shape: [1, 1, 4]"
    );
    assert_eq!(
        refuse(&[1, 1, 3], &[1, 640], &state, decoder_outputs()),
        "Unexpected state h buffer shape: [1, 640]"
    );
    assert_eq!(
        refuse(&[1, 1, 3], &state, &[640, 1, 1], decoder_outputs()),
        "Unexpected state c buffer shape: [640, 1, 1]"
    );
}

#[test]
fn profiles_are_listed_where_there_are_any() {
    let path = |s: &str| Some(String::from(s));
    assert_eq!(ParakeetEOUModel::end_profiling(path("e.json"), path("d.json")), vec!["e.json", "d.json"]);
    assert_eq!(ParakeetEOUModel::end_profiling(path(""), path("d.json")), vec!["d.json"]);
    assert!(ParakeetEOUModel::end_profiling(None, None).is_empty());
}

#[test]
fn outputs_are_taken_only_where_their_sizes_match() {
    let cache = EncoderCache::new(layout());
    let raw = io(EncoderCacheAbi::RawChannel);
    let layered = io(EncoderCacheAbi::ProjectedKvLayered);
    assert!(outputs_can_be_taken(raw, &cache, &out(), &outputs()));
    assert!(!outputs_can_be_taken(layered, &cache, &out(), &outputs()));
    let mut given = outputs();
    given.layer_keys = vec![Ok(tensor(&[1, 2, 2], &[51, 52, 53, 54]))];
    given.layer_values = vec![Err(String::from("gone"))];
    assert!(outputs_can_be_taken(layered, &cache, &out(), &given));
    given.layer_keys = vec![Ok(tensor(&[1, -1, 2], &[]))];
    assert!(!outputs_can_be_taken(layered, &cache, &out(), &given));
    let mut given = outputs();
    given.encoded = Ok(tensor(&[1, 2, 2], &[1, 2, 3]));
    assert!(!outputs_can_be_taken(raw, &cache, &out(), &given));
    given.encoded = Ok(tensor(&[1, 2, 3], &[1, 2, 3]));
    assert!(outputs_can_be_taken(raw, &cache, &out(), &given));
    given.encoded = Ok(tensor(&[1, 2], &[1, 2]));
    assert!(!outputs_can_be_taken(raw, &cache, &out(), &given));
    let mut given = outputs();
    given.lengths = Ok(LengthOutput { shape: vec![], data: vec![1] });
    assert!(!outputs_can_be_taken(raw, &cache, &out(), &given));
    let mut given = outputs();
    given.channel = None;
    assert!(!outputs_can_be_taken(raw, &cache, &out(), &given));
    let logits = Tensor::new(&[1, 1, 3]);
    let state = Tensor::new(&[1, 1, 640]);
    assert!(decoder_outputs_can_be_taken(&logits, &state, &state, &decoder_outputs()));
    let short = DecoderOutputs {
        state_c: Ok(tensor(&[1, 1, 640], &[2; 639])),
        ..decoder_outputs()
    };
    assert!(!decoder_outputs_can_be_taken(&logits, &state, &state, &short));
    assert!(decoder_outputs_can_be_taken(&state, &state, &state, &short));
    let flat = DecoderOutputs { logits: Ok(tensor(&[3], &[7, 8, 9])), ..decoder_outputs() };
    assert!(!decoder_outputs_can_be_taken(&logits, &state, &state, &flat));
}
