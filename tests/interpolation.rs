use interp::{check_domain, lerp_intervals, lerp_intervals_unchecked, locate, InterpError};
use ndarray::{Array, Array1};
use num_traits::float::Float;

fn bits(v: &Array1<f32>) -> Vec<u32> {
    v.iter().map(|a| a.to_bits()).collect()
}

fn evaluate(x: &Array1<f32>, y: &Array1<f32>, xi: &Array1<f32>, idx: &[usize]) -> Vec<f32> {
    xi.iter()
        .zip(idx.iter())
        .map(|(&q, &k)| y[k] + (q - x[k]) * ((y[k + 1] - y[k]) / (x[k + 1] - x[k])))
        .collect()
}

fn sine_samples() -> (Array1<f32>, Array1<f32>, Array1<f32>) {
    let x: Array1<f32> = Array::linspace(1., 10., 10);
    let y = Array::from_iter(x.iter().map(|&v| Float::sin(v)));
    let xi: Array1<f32> = Array::linspace(1., 10., 20);
    (x, y, xi)
}

fn expected_sine() -> Vec<f32> {
    vec![
        0.84147096,
        0.8735993,
        0.90572757,
        0.58585423,
        0.22198087,
        -0.18969359,
        -0.6150254,
        -0.8206304,
        -0.9163723,
        -0.7801062,
        -0.45823354,
        -0.08227807,
        0.36128092,
        0.70946646,
        0.8669055,
        0.9285964,
        0.655167,
        0.36179554,
        -0.09111279,
        -0.5440211,
    ]
}

#[test]
fn interp_l() {
    let (x, y, xi) = sine_samples();
    let idx = lerp_intervals(&bits(&x), &bits(&xi)).unwrap();
    let yi = evaluate(&x, &y, &xi, &idx);
    assert_eq!(yi, expected_sine());
}

#[test]
fn interp_l_unckecked() {
    let (x, y, xi) = sine_samples();
    let idx = lerp_intervals_unchecked(&bits(&x), &bits(&xi)).unwrap();
    let yi = evaluate(&x, &y, &xi, &idx);
    assert_eq!(yi, expected_sine());
}

#[test]
fn sine_intervals_follow_query_order() {
    let (x, _, xi) = sine_samples();
    let idx = lerp_intervals(&bits(&x), &bits(&xi)).unwrap();
    assert_eq!(idx.len(), xi.len());
    assert_eq!(idx, vec![0, 0, 0, 1, 1, 2, 2, 3, 3, 4, 4, 5, 5, 6, 6, 7, 7, 8, 8, 8]);
}

#[test]
fn interior_query_matches_formula() {
    let x = Array1::from_vec(vec![0.0f32, 2.0, 4.0]);
    let y = Array1::from_vec(vec![1.0f32, 5.0, -3.0]);
    let xi = Array1::from_vec(vec![1.0f32, 3.0, 0.5]);
    let idx = lerp_intervals(&bits(&x), &bits(&xi)).unwrap();
    assert_eq!(idx, vec![0, 1, 0]);
    assert_eq!(evaluate(&x, &y, &xi, &idx), vec![3.0, 1.0, 2.0]);
}

#[test]
fn query_at_sample_gives_sample_value() {
    let x = Array1::from_vec(vec![0.0f32, 1.0, 2.0, 3.0]);
    let y = Array1::from_vec(vec![7.0f32, -2.0, 4.0, 9.0]);
    let xi = Array1::from_vec(vec![0.0f32, 1.0, 2.0, 3.0]);
    let idx = lerp_intervals(&bits(&x), &bits(&xi)).unwrap();
    assert_eq!(idx, vec![0, 0, 1, 2]);
    assert_eq!(evaluate(&x, &y, &xi, &idx), vec![7.0, -2.0, 4.0, 9.0]);
}

#[test]
fn query_below_first_sample_is_out_of_range() {
    let x = Array1::from_vec(vec![1.0f32, 2.0, 3.0]);
    let xi = Array1::from_vec(vec![1.5f32, 0.5]);
    assert_eq!(lerp_intervals(&bits(&x), &bits(&xi)), Err(InterpError::Range));
}

#[test]
fn query_above_last_sample_is_out_of_range() {
    let x = Array1::from_vec(vec![1.0f32, 2.0, 3.0]);
    let xi = Array1::from_vec(vec![3.0f32, 3.5]);
    assert_eq!(lerp_intervals(&bits(&x), &bits(&xi)), Err(InterpError::Range));
    assert_eq!(check_domain(&bits(&x), &bits(&xi)), Err(InterpError::Range));
}

#[test]
fn nan_query_is_out_of_range() {
    let x = Array1::from_vec(vec![1.0f32, 2.0]);
    let xi = Array1::from_vec(vec![f32::NAN]);
    assert_eq!(lerp_intervals(&bits(&x), &bits(&xi)), Err(InterpError::Range));
    assert_eq!(lerp_intervals_unchecked(&bits(&x), &bits(&xi)), Err(InterpError::Unbracketed));
}

#[test]
fn empty_samples_fail_whatever_the_queries() {
    let x: Vec<u32> = Vec::new();
    assert_eq!(lerp_intervals(&x, &Vec::new()), Err(InterpError::NoneArray));
    assert_eq!(lerp_intervals(&x, &vec![1.0f32.to_bits()]), Err(InterpError::NoneArray));
    assert_eq!(check_domain(&x, &vec![2.0f32.to_bits()]), Err(InterpError::NoneArray));
}

#[test]
fn single_sample_leaves_query_unbracketed() {
    let x = vec![2.0f32.to_bits()];
    let xi = vec![2.0f32.to_bits()];
    assert_eq!(check_domain(&x, &xi), Ok(()));
    assert_eq!(lerp_intervals(&x, &xi), Err(InterpError::Unbracketed));
}

#[test]
fn unchecked_reports_unbracketed_query() {
    let x = Array1::from_vec(vec![1.0f32, 2.0, 3.0]);
    let xi = Array1::from_vec(vec![2.5f32, 4.0]);
    assert_eq!(lerp_intervals_unchecked(&bits(&x), &bits(&xi)), Err(InterpError::Unbracketed));
}

#[test]
fn checked_and_unchecked_agree_in_range() {
    let x = Array1::from_vec(vec![-3.0f32, -1.0, 0.0, 2.5, 8.0]);
    let xi = Array1::from_vec(vec![8.0f32, -3.0, 0.0, -0.0, 1.0, 7.9, -2.0]);
    let checked = lerp_intervals(&bits(&x), &bits(&xi));
    let unchecked = lerp_intervals_unchecked(&bits(&x), &bits(&xi));
    assert_eq!(checked, unchecked);
    assert_eq!(checked, Ok(vec![3, 0, 1, 1, 2, 3, 0]));
}

#[test]
fn empty_queries_give_empty_result() {
    let x = vec![1.0f32.to_bits(), 2.0f32.to_bits()];
    assert_eq!(lerp_intervals(&x, &Vec::new()), Ok(Vec::new()));
    assert_eq!(lerp_intervals_unchecked(&x, &Vec::new()), Ok(Vec::new()));
}

#[test]
fn locate_finds_first_enclosing_pair() {
    let x = vec![0.0f32.to_bits(), 1.0f32.to_bits(), 1.0f32.to_bits(), 2.0f32.to_bits()];
    assert_eq!(locate(&x, 1.0f32.to_bits()), Some(0));
    assert_eq!(locate(&x, 1.5f32.to_bits()), Some(2));
    assert_eq!(locate(&x, 2.5f32.to_bits()), None);
    assert_eq!(locate(&Vec::new(), 0.0f32.to_bits()), None);
}

#[test]
fn error_texts() {
    assert_eq!(InterpError::Range.message(), "xi is not bound by x");
    assert_eq!(InterpError::NoneArray.message(), "Returned none when looking for data in x");
    assert_eq!(InterpError::Range.description(), "out of bounds");
    assert_eq!(InterpError::NoneArray.description(), "option is none");
    assert_eq!(InterpError::Unbracketed.description(), "no enclosing interval");
}
