use parakeet_eou::cache::{
    foresee_roll, projected_cache_layer_slice, projected_current_layer_slice,
    roll_projected_cache_layer, EncoderCache,
};
use parakeet_eou::layout::EncoderLayout;
use parakeet_eou::projected::{
    can_roll_slices, foresee_outputs, roll_outputs, roll_slices, TensorOutput,
};
use parakeet_eou::tensor::{can_address, Tensor};

fn layout() -> EncoderLayout {
    EncoderLayout {
        batch: 1,
        n_mels: 128,
        input_frames: 25,
        output_frames: 2,
        num_layers: 2,
        cache_len: 3,
        hidden_size: 2,
        time_cache_len: 4,
    }
}

fn counting(shape: &[usize], from: u32) -> Tensor {
    let mut tensor = Tensor::new(shape);
    let n = tensor.words().unwrap().len() as u32;
    let words: Vec<u32> = (from..from + n).collect();
    assert!(tensor.store(&words));
    tensor
}

#[test]
fn new_tensors_are_zero() {
    let mut tensor = Tensor::new(&[2, 3]);
    assert_eq!(tensor.axes(), &[2, 3]);
    assert_eq!(tensor.words().unwrap(), &[0; 6]);
    assert!(tensor.fill(7));
    assert_eq!(tensor.words().unwrap(), &[7; 6]);
    assert!(!tensor.store(&[1, 2]));
    assert!(tensor.store(&[1, 2, 3, 4, 5, 6]));
    assert_eq!(tensor.words().unwrap(), &[1, 2, 3, 4, 5, 6]);
    assert_eq!(tensor.axes(), &[2, 3]);
    assert!(Tensor::new(&[3, 0]).words().unwrap().is_empty());
    assert_eq!(Tensor::new(&[]).words().unwrap(), &[0]);
}

#[test]
fn only_what_fits_can_be_addressed() {
    assert!(can_address(&[1, 128, 25]));
    assert!(can_address(&[0, 5]));
    assert!(!can_address(&[usize::MAX]));
    assert!(!can_address(&[usize::MAX, 0]));
    assert!(!can_address(&[1 << 40, 1 << 40]));
}

#[test]
fn new_caches_carry_no_context() {
    let cache = EncoderCache::new(layout());
    assert_eq!(cache.cache_last_channel.axes(), &[2, 1, 3, 2]);
    assert_eq!(cache.cache_last_time.axes(), &[2, 1, 2, 4]);
    assert_eq!(cache.cache_last_key.words().unwrap(), &[0; 12]);
    assert_eq!(cache.cache_last_channel_len, vec![0]);
    assert_eq!(cache.first_length(), 0);
    let empty = EncoderCache::new(EncoderLayout { batch: 0, ..layout() });
    assert_eq!(empty.first_length(), -1);
}

#[test]
fn layers_are_slices() {
    let cache = counting(&[2, 1, 3, 2], 0);
    assert_eq!(projected_cache_layer_slice(&cache, 1, layout()).unwrap(), &[6, 7, 8, 9, 10, 11]);
    assert_eq!(
        projected_cache_layer_slice(&cache, 2, layout()).unwrap_err().message(),
        "projected cache layer 2 is out of bounds"
    );
    let current = counting(&[2, 1, 2, 2], 0);
    assert_eq!(projected_current_layer_slice(&current, 1, layout()).unwrap(), &[4, 5, 6, 7]);
    assert_eq!(
        projected_current_layer_slice(&current, 3, layout()).unwrap_err().message(),
        "projected current cache layer 3 is out of bounds"
    );
}

#[test]
fn new_frames_push_the_oldest_out() {
    let mut cache = counting(&[2, 1, 3, 2], 0);
    roll_projected_cache_layer(&mut cache, 1, layout(), &[1, 1, 2], &[90, 91]).unwrap();
    assert_eq!(cache.words().unwrap(), &[0, 1, 2, 3, 4, 5, 8, 9, 10, 11, 90, 91]);
    roll_projected_cache_layer(&mut cache, 0, layout(), &[1, 4, 2], &[1, 2, 3, 4, 5, 6, 7, 8]).unwrap();
    assert_eq!(cache.words().unwrap(), &[3, 4, 5, 6, 7, 8, 8, 9, 10, 11, 90, 91]);
    roll_projected_cache_layer(&mut cache, 0, layout(), &[1, 0, 2], &[]).unwrap();
    assert_eq!(cache.words().unwrap()[..6], [3, 4, 5, 6, 7, 8]);
}

#[test]
fn two_rolls_are_one() {
    let mut twice = counting(&[2, 1, 3, 2], 0);
    roll_projected_cache_layer(&mut twice, 0, layout(), &[1, 1, 2], &[50, 51]).unwrap();
    roll_projected_cache_layer(&mut twice, 0, layout(), &[1, 1, 2], &[52, 53]).unwrap();
    let mut once = counting(&[2, 1, 3, 2], 0);
    roll_projected_cache_layer(&mut once, 0, layout(), &[1, 2, 2], &[50, 51, 52, 53]).unwrap();
    assert_eq!(twice.words().unwrap(), once.words().unwrap());
}

#[test]
fn frames_that_do_not_fit_are_refused() {
    let mut cache = counting(&[2, 1, 3, 2], 0);
    assert_eq!(
        roll_projected_cache_layer(&mut cache, 0, layout(), &[1, 1, 3], &[1, 2, 3]).unwrap_err().message(),
        "Unexpected projected cache output shape for layer 0: [1, 1, 3]"
    );
    assert_eq!(
        roll_projected_cache_layer(&mut cache, 1, layout(), &[1, 2, 2], &[1, 2, 3]).unwrap_err().message(),
        "Unexpected projected cache output size for layer 1: got 3, expected 4"
    );
    assert_eq!(
        roll_projected_cache_layer(&mut cache, 2, layout(), &[1, 1, 2], &[1, 2]).unwrap_err().message(),
        "projected cache layer 2 is out of bounds"
    );
    assert_eq!(cache.words().unwrap(), counting(&[2, 1, 3, 2], 0).words().unwrap());
}

#[test]
fn a_negative_count_of_frames_is_a_wrong_size() {
    let narrow = EncoderLayout { hidden_size: 1, ..layout() };
    let mut cache = counting(&[2, 1, 3, 1], 0);
    assert_eq!(foresee_roll(&cache, 0, narrow, &[1, -1, 1], 2), Some(false));
    assert_eq!(
        roll_projected_cache_layer(&mut cache, 0, narrow, &[1, -1, 1], &[5, 6]).unwrap_err().message(),
        format!(
            "Unexpected projected cache output size for layer 0: got 2, expected {}",
            usize::MAX
        )
    );
    assert_eq!(cache.words().unwrap(), &[0, 1, 2, 3, 4, 5]);
    assert_eq!(foresee_roll(&cache, 0, layout(), &[1, -1, 2], 2), None);
}

#[test]
fn nothing_is_asked_of_layers_behind_a_failure() {
    let mut key = counting(&[2, 1, 3, 2], 0);
    let mut value = counting(&[2, 1, 3, 2], 100);
    let unheard_of = || Ok(TensorOutput { shape: vec![1, -1, 2], data: vec![] });
    let keys = vec![frame(&[1000, 1001]), unheard_of()];
    let values = vec![frame(&[2000, 2001, 2002])];
    assert_eq!(foresee_outputs(&key, &value, layout(), &keys, &values), Some(false));
    let error = roll_outputs(&mut key, &mut value, layout(), &keys, &values).unwrap_err();
    assert_eq!(
        error.message(),
        "Unexpected projected cache output size for layer 0: got 3, expected 2"
    );
    let values = vec![frame(&[2000, 2001])];
    assert_eq!(foresee_outputs(&key, &value, layout(), &keys, &values), None);
    let keys = vec![frame(&[1000, 1001]), frame(&[1002, 1003])];
    assert_eq!(foresee_outputs(&key, &value, layout(), &keys, &values), None);
    let values = vec![frame(&[2000, 2001]), frame(&[2002, 2003])];
    assert_eq!(foresee_outputs(&key, &value, layout(), &keys, &values), Some(true));
}

#[test]
fn slices_roll_where_they_fill_the_window() {
    let key = counting(&[2, 1, 3, 2], 0);
    let current = counting(&[2, 1, 2, 2], 1000);
    let new = [0; 8];
    assert!(can_roll_slices(&key, &key, layout(), &current, &new, &current, &new));
    let pairs = EncoderLayout { batch: 2, num_layers: 1, ..layout() };
    let key = counting(&[1, 2, 3, 2], 0);
    let current = counting(&[1, 2, 2, 2], 1000);
    assert!(!can_roll_slices(&key, &key, pairs, &current, &new, &current, &new));
    // The first layer is not there, so nothing is rolled.
    assert!(can_roll_slices(&key, &key, pairs, &current, &[0; 7], &current, &new));
    let small = counting(&[1, 1, 3, 2], 0);
    assert!(can_roll_slices(&small, &key, pairs, &current, &new, &current, &new));
}

fn frame(data: &[u32]) -> Result<TensorOutput, String> {
    Ok(TensorOutput { shape: vec![1, data.len() as i64 / 2, 2], data: data.to_vec() })
}

#[test]
fn every_layer_rolls_in_its_own_frames() {
    let mut key = counting(&[2, 1, 3, 2], 0);
    let mut value = counting(&[2, 1, 3, 2], 100);
    let keys = vec![frame(&[1000, 1001]), frame(&[1002, 1003])];
    let values = vec![frame(&[2000, 2001]), frame(&[2002, 2003])];
    roll_outputs(&mut key, &mut value, layout(), &keys, &values).unwrap();
    assert_eq!(key.words().unwrap(), &[2, 3, 4, 5, 1000, 1001, 8, 9, 10, 11, 1002, 1003]);
    assert_eq!(
        value.words().unwrap(),
        &[102, 103, 104, 105, 2000, 2001, 108, 109, 110, 111, 2002, 2003]
    );
}

#[test]
fn the_first_layer_that_fails_ends_the_roll() {
    let mut key = counting(&[2, 1, 3, 2], 0);
    let mut value = counting(&[2, 1, 3, 2], 100);
    let keys = vec![frame(&[1000, 1001]), frame(&[1002, 1003])];
    let values = vec![Err(String::from("gone")), frame(&[2002, 2003])];
    let error = roll_outputs(&mut key, &mut value, layout(), &keys, &values).unwrap_err();
    assert_eq!(error.message(), "Failed to extract projected current value layer 0: gone");
    assert_eq!(key.words().unwrap(), &[2, 3, 4, 5, 1000, 1001, 6, 7, 8, 9, 10, 11]);
    assert_eq!(value.words().unwrap(), counting(&[2, 1, 3, 2], 100).words().unwrap());
}

#[test]
fn projected_tensors_are_rolled_layer_by_layer() {
    let mut key = counting(&[2, 1, 3, 2], 0);
    let mut value = counting(&[2, 1, 3, 2], 100);
    let current_key = counting(&[2, 1, 2, 2], 1000);
    let current_value = counting(&[2, 1, 2, 2], 2000);
    roll_slices(&mut key, &mut value, layout(), &current_key, &current_value).unwrap();
    assert_eq!(
        key.words().unwrap(),
        &[4, 5, 1000, 1001, 1002, 1003, 10, 11, 1004, 1005, 1006, 1007]
    );
    assert_eq!(
        value.words().unwrap(),
        &[104, 105, 2000, 2001, 2002, 2003, 110, 111, 2004, 2005, 2006, 2007]
    );
}
