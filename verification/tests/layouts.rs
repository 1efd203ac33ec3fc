use parakeet_eou::error::Error;
use parakeet_eou::layers::{
    cache_layer_input_name, contiguous_layer_count, has_all_layered_projected_cache_inputs,
    has_all_layered_projected_cache_outputs, layered_projected_cache_layer_count,
    projected_current_output_name,
};
use parakeet_eou::layout::{
    litert_cache_abi_from_i64, show_layout, EncoderCacheAbi, EncoderLayout, LiteRtEncoderLayout,
};
use parakeet_eou::text::{parse_usize, show_decimal};
use parakeet_eou::outlets::{infer_encoder_layout, tensor_shape, EncoderIo, Outlet, OutletType};

fn raw_layout() -> LiteRtEncoderLayout {
    LiteRtEncoderLayout {
        batch: 1,
        n_mels: 128,
        input_frames: 25,
        output_frames: 2,
        num_layers: 17,
        cache_len: 70,
        hidden_size: 512,
        time_cache_len: 8,
        cache_abi: 0,
    }
}

fn message(error: Error) -> String {
    error.message().to_owned()
}

#[test]
fn reported_layouts_become_unsigned() {
    let layout = EncoderLayout::try_from(raw_layout()).unwrap();
    assert_eq!(layout.batch, 1);
    assert_eq!(layout.num_layers, 17);
    assert_eq!(layout.time_cache_len, 8);
    assert_eq!(layout.projected_cache_layer_values(), 70 * 512);
    assert_eq!(layout.projected_current_layer_values(), 2 * 512);
    assert!(layout.can_be_addressed());
    assert_eq!(show_layout(layout), format!("{:?}", layout));
    let huge = EncoderLayout { hidden_size: usize::MAX, ..layout };
    assert!(!huge.can_be_addressed());
    assert!(!huge.model_can_be_addressed());
    let wide = EncoderLayout { n_mels: usize::MAX, ..layout };
    assert!(!wide.can_be_addressed());
    assert!(wide.model_can_be_addressed());
}

#[test]
fn written_layer_names_are_counted() {
    for n in [1, 2, 9, 10, 11, 101] {
        let mut inputs = vec![String::from("audio_signal"), String::from("cache_key_layer_x")];
        let mut outputs = vec![String::from("outputs")];
        for layer in (0..n).rev() {
            for kind in ["key", "value"] {
                inputs.push(cache_layer_input_name(kind, layer));
                outputs.push(projected_current_output_name(kind, layer));
            }
        }
        assert_eq!(
            contiguous_layer_count(&inputs, "cache_key_layer_", "cache_value_layer_").unwrap(),
            Some(n)
        );
        assert_eq!(layered_projected_cache_layer_count(&inputs, &outputs).unwrap(), Some(n));
    }
}

#[test]
fn written_numbers_are_read_back() {
    for n in [0, 7, 10, 99, 100, 65535, usize::MAX - 1, usize::MAX] {
        let written: Vec<char> = show_decimal(n as u128).chars().collect();
        assert_eq!(parse_usize(&written, 0), Some(n));
    }
    let beyond: Vec<char> = show_decimal(usize::MAX as u128 + 1).chars().collect();
    assert_eq!(parse_usize(&beyond, 0), None);
}

#[test]
fn the_first_length_that_is_not_positive_is_reported() {
    let mut layout = raw_layout();
    layout.cache_len = 0;
    layout.hidden_size = -3;
    let error = EncoderLayout::try_from(layout).unwrap_err();
    assert!(matches!(error, Error::Model(_)));
    assert_eq!(message(error), "LiteRT encoder layout has invalid cache_len=0");
    layout.batch = -1;
    let error = EncoderLayout::try_from(layout).unwrap_err();
    assert_eq!(message(error), "LiteRT encoder layout has invalid batch=-1");
}

#[test]
fn only_two_cache_kinds_are_reported() {
    assert_eq!(litert_cache_abi_from_i64(0).unwrap(), EncoderCacheAbi::RawChannel);
    assert_eq!(litert_cache_abi_from_i64(2).unwrap(), EncoderCacheAbi::ProjectedKvLayered);
    for other in [-1, 1, 3, i64::MAX] {
        let error = litert_cache_abi_from_i64(other).unwrap_err();
        assert_eq!(
            message(error),
            format!("LiteRT encoder reported unsupported cache ABI {}", other)
        );
    }
}

fn names(list: &[&str]) -> Vec<String> {
    list.iter().map(|name| String::from(*name)).collect()
}

#[test]
fn layers_are_counted_from_their_names() {
    assert_eq!(cache_layer_input_name("key", 3), "cache_key_layer_3");
    assert_eq!(projected_current_output_name("value", 12), "projected_current_value_layer_12");
    let inputs = names(&[
        "cache_value_layer_1",
        "cache_key_layer_1",
        "cache_key_layer_0",
        "cache_key_layer_x",
        "cache_value_layer_0",
        "cache_key_layer_0",
    ]);
    let count = |list: &[String]| contiguous_layer_count(list, "cache_key_layer_", "cache_value_layer_");
    assert_eq!(count(&inputs).unwrap(), Some(2));
    assert_eq!(count(&names(&["cache_key_layer_0"])).unwrap(), None);
    assert_eq!(count(&[]).unwrap(), None);
    let gap = names(&["cache_key_layer_2", "cache_key_layer_0", "cache_value_layer_0"]);
    assert_eq!(
        message(count(&gap).unwrap_err()),
        "Layered projected-cache ABI has non-contiguous layers: keys=[0, 2] values=[0]"
    );
    assert!(has_all_layered_projected_cache_inputs(&inputs, 2));
    assert!(!has_all_layered_projected_cache_inputs(&inputs, 3));
    assert!(has_all_layered_projected_cache_inputs(&[], 0));
    assert!(!has_all_layered_projected_cache_outputs(&inputs, 1));
}

#[test]
fn inputs_and_outputs_must_count_the_same_layers() {
    let inputs = names(&["cache_key_layer_0", "cache_value_layer_0"]);
    let outputs = names(&[
        "projected_current_key_layer_0",
        "projected_current_value_layer_0",
        "projected_current_key_layer_1",
        "projected_current_value_layer_1",
    ]);
    assert_eq!(
        message(layered_projected_cache_layer_count(&inputs, &outputs).unwrap_err()),
        "Layered projected-cache input/output layer mismatch: inputs=1 outputs=2"
    );
    assert_eq!(layered_projected_cache_layer_count(&inputs, &[]).unwrap(), Some(1));
    assert_eq!(layered_projected_cache_layer_count(&[], &outputs).unwrap(), Some(2));
    assert_eq!(layered_projected_cache_layer_count(&[], &[]).unwrap(), None);
}

fn outlet(name: &str, shape: &[i64]) -> Outlet {
    Outlet { name: String::from(name), dtype: OutletType::Tensor(shape.to_vec()) }
}

fn raw_inputs() -> Vec<Outlet> {
    vec![
        outlet("audio_signal", &[1, 128, 25]),
        outlet("length", &[1]),
        outlet("cache_last_channel", &[17, 1, 70, 512]),
        outlet("cache_last_time", &[17, 1, 512, 8]),
        outlet("cache_last_channel_len", &[1]),
    ]
}

fn raw_outputs() -> Vec<Outlet> {
    vec![
        outlet("outputs", &[1, 512, 2]),
        outlet("new_cache_last_channel", &[17, 1, 70, 512]),
    ]
}

#[test]
fn shapes_must_be_fixed_tensors() {
    assert_eq!(tensor_shape(&outlet("x", &[1, 2]), 2).unwrap(), vec![1, 2]);
    assert_eq!(
        message(tensor_shape(&outlet("x", &[1, 2]), 3).unwrap_err()),
        "x has rank 2, expected 3: [1, 2]"
    );
    assert_eq!(
        message(tensor_shape(&outlet("x", &[1, -1]), 2).unwrap_err()),
        "x has non-static shape [1, -1]; use the fixed-shape encoder variant"
    );
    let other = Outlet { name: String::from("x"), dtype: OutletType::Other(String::from("Map")) };
    assert_eq!(message(tensor_shape(&other, 2).unwrap_err()), "x is not a tensor: Map");
}

#[test]
fn raw_encoders_are_described() {
    let io = EncoderIo::of_outlets(&raw_inputs(), &raw_outputs()).unwrap();
    assert_eq!(io.layout, EncoderLayout::try_from(raw_layout()).unwrap());
    assert_eq!(io.cache_abi, EncoderCacheAbi::RawChannel);
    assert!(io.accepts_length && io.has_raw_channel_cache && io.outputs_raw_channel_cache);
}

#[test]
fn layered_encoders_are_described() {
    let mut inputs = raw_inputs();
    let mut outputs = raw_outputs();
    for layer in 0..3 {
        inputs.push(outlet(&cache_layer_input_name("key", layer), &[1, 70, 512]));
        inputs.push(outlet(&cache_layer_input_name("value", layer), &[1, 70, 512]));
        outputs.push(outlet(&projected_current_output_name("key", layer), &[1, 2, 512]));
        outputs.push(outlet(&projected_current_output_name("value", layer), &[1, 2, 512]));
    }
    let io = EncoderIo::of_outlets(&inputs, &outputs).unwrap();
    assert_eq!(io.cache_abi, EncoderCacheAbi::ProjectedKvLayered);
    assert_eq!(io.layout.num_layers, 3);
    let error = EncoderIo::of_outlets(&inputs, &raw_outputs()).unwrap_err();
    assert!(matches!(error, Error::Config(_)));
    assert_eq!(
        message(error),
        "Layered projected K/V encoder inputs are present, but projected current K/V outputs are missing"
    );
}

#[test]
fn stacked_encoders_are_described() {
    let mut inputs = raw_inputs();
    inputs.push(outlet("cache_last_key", &[17, 1, 70, 512]));
    inputs.push(outlet("cache_last_value", &[17, 1, 70, 512]));
    let error = EncoderIo::of_outlets(&inputs, &raw_outputs()).unwrap_err();
    assert_eq!(
        message(error),
        "Projected K/V encoder inputs are present, but projected K/V outputs are missing"
    );
    let mut outputs = raw_outputs();
    outputs.push(outlet("new_cache_last_key", &[17, 1, 70, 512]));
    outputs.push(outlet("new_cache_last_value", &[17, 1, 70, 512]));
    let io = EncoderIo::of_outlets(&inputs, &outputs).unwrap();
    assert_eq!(io.cache_abi, EncoderCacheAbi::ProjectedKvStacked);
}

#[test]
fn shapes_that_do_not_go_together_are_refused() {
    let mut outputs = raw_outputs();
    outputs[0] = outlet("outputs", &[2, 512, 2]);
    assert_eq!(
        message(infer_encoder_layout(&raw_inputs(), &outputs).unwrap_err()),
        "Encoder batch mismatch: audio_signal=[1, 128, 25], outputs=[2, 512, 2]"
    );
    let mut inputs = raw_inputs();
    inputs[3] = outlet("cache_last_time", &[16, 1, 512, 8]);
    assert_eq!(
        message(infer_encoder_layout(&inputs, &raw_outputs()).unwrap_err()),
        "Encoder raw cache layer mismatch: cache_last_channel=[17, 1, 70, 512], \
         cache_last_time=[16, 1, 512, 8]"
    );
    let mut outputs = raw_outputs();
    outputs[0] = outlet("outputs", &[1, 256, 2]);
    assert_eq!(
        message(infer_encoder_layout(&raw_inputs(), &outputs).unwrap_err()),
        "Encoder cache/output shapes are inconsistent: audio_signal=[1, 128, 25], \
         outputs=[1, 256, 2], cache_last_channel=[17, 1, 70, 512], \
         cache_last_time=[17, 1, 512, 8]"
    );
    assert_eq!(
        message(infer_encoder_layout(&[], &raw_outputs()).unwrap_err()),
        "Missing encoder input audio_signal"
    );
    assert_eq!(
        message(infer_encoder_layout(&raw_inputs(), &[]).unwrap_err()),
        "Missing encoder output outputs"
    );
}
