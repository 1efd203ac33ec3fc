use parakeet_eou::text::{contains_name, parse_usize, show_decimal, show_hex, show_i64s, show_signed, show_usizes};
use parakeet_eou::words::{argmax, finite_or_zero, finite_words, is_finite};

fn bits(values: &[f32]) -> Vec<u32> {
    values.iter().map(|v| v.to_bits()).collect()
}

fn reference_argmax(values: &[f32]) -> i32 {
    let mut best = 0;
    let mut best_value = f32::NEG_INFINITY;
    for (i, &value) in values.iter().enumerate() {
        if value.is_finite() && value > best_value {
            best_value = value;
            best = i as i32;
        }
    }
    best
}

#[test]
fn the_best_logit_is_the_first_largest_finite_one() {
    let cases: Vec<Vec<f32>> = vec![
        vec![],
        vec![1.0],
        vec![-1.0, -2.0],
        vec![0.0, -0.0, 0.0],
        vec![-0.0, 0.0],
        vec![f32::NAN, -3.5, f32::INFINITY, -3.25, f32::NEG_INFINITY],
        vec![f32::NAN, f32::INFINITY],
        vec![2.0, 7.5, 7.5, 3.0],
        vec![f32::MIN, f32::MAX, 1e-40, -1e-40],
        vec![-1e-40, 1e-45, 0.0],
    ];
    for values in cases {
        assert_eq!(argmax(&bits(&values)), reference_argmax(&values), "{:?}", values);
    }
}

#[test]
fn words_are_finite_where_their_numbers_are() {
    let values = [
        0.0,
        -0.0,
        1.5,
        f32::MAX,
        f32::MIN,
        f32::INFINITY,
        f32::NEG_INFINITY,
        f32::NAN,
        -f32::NAN,
        f32::MIN_POSITIVE,
    ];
    for value in values {
        assert_eq!(is_finite(value.to_bits()), value.is_finite());
        let expected = if value.is_finite() { value.to_bits() } else { 0 };
        assert_eq!(finite_or_zero(value.to_bits()), expected);
    }
    assert_eq!(
        finite_words(&bits(&[1.0, f32::NAN, -2.0])),
        bits(&[1.0, 0.0, -2.0])
    );
}

#[test]
fn numbers_are_shown_as_usual() {
    assert_eq!(show_decimal(0), "0");
    assert_eq!(show_decimal(u128::MAX), format!("{}", u128::MAX));
    assert_eq!(show_signed(i64::MIN), format!("{}", i64::MIN));
    assert_eq!(show_signed(-7), "-7");
    assert_eq!(show_usizes(&[]), "[]");
    assert_eq!(show_usizes(&[1, 128, 25]), "[1, 128, 25]");
    assert_eq!(show_i64s(&[-1, 0, 70]), "[-1, 0, 70]");
    assert_eq!(show_hex(0xcbf2_9ce4_8422_2325, 16), "cbf29ce484222325");
    assert_eq!(show_hex(0xab, 16), "00000000000000ab");
}

#[test]
fn numbers_are_read_as_usual() {
    let read = |s: &str| {
        let chars: Vec<char> = s.chars().collect();
        parse_usize(&chars, 0)
    };
    for text in ["", "+", "0", "007", "+12", "-1", "1a", " 1", "18446744073709551615", "18446744073709551616"] {
        assert_eq!(read(text), text.parse::<usize>().ok(), "{:?}", text);
    }
    let chars: Vec<char> = "layer_3".chars().collect();
    assert_eq!(parse_usize(&chars, 6), Some(3));
}

#[test]
fn names_are_found_whole() {
    let names = vec![String::from("length"), String::from("audio_signal")];
    assert!(contains_name(&names, &String::from("length")));
    assert!(!contains_name(&names, &String::from("len")));
    assert!(!contains_name(&[], &String::from("length")));
}
