use stylometry::perceptron::classify;
use stylometry::perceptron::dot;
use stylometry::perceptron::fresh_weights;
use stylometry::perceptron::predict;
use stylometry::perceptron::sum;
use stylometry::perceptron::test as test_weights;
use stylometry::perceptron::train;
use stylometry::perceptron::train_checked;
use stylometry::perceptron::train_fresh;
use stylometry::perceptron::PerceptronError;
use stylometry::perceptron::Sample;

fn sample(values: Vec<i64>, class: i8) -> Sample {
    Sample { values, class }
}

// class 1 clustered near (0.9, 0.1), class 0 near (0.1, 0.9), bias 1.0,
// everything in fixed-point units of 1/10000
fn separable_set() -> Vec<Sample> {
    vec![
        sample(vec![10_000, 9_000, 1_000], 1),
        sample(vec![10_000, 8_500, 1_500], 1),
        sample(vec![10_000, 9_500, 500], 1),
        sample(vec![10_000, 1_000, 9_000], 0),
        sample(vec![10_000, 1_500, 8_500], 0),
        sample(vec![10_000, 500, 9_500], 0),
    ]
}

#[test]
fn dot_product_is_exact() {
    assert_eq!(dot(&vec![1, 2, 3], &vec![4, 5, 6]), 32);
    assert_eq!(dot(&vec![], &vec![]), 0);
    assert_eq!(dot(&vec![-2, 7], &vec![3, 1]), 1);
}

#[test]
fn vector_sum_is_elementwise() {
    assert_eq!(sum(&vec![1, 2], &vec![3, 4]), vec![4, 6]);
    assert_eq!(sum(&vec![-5], &vec![5]), vec![0]);
}

#[test]
fn zero_dot_product_classifies_as_zero() {
    let s = sample(vec![10_000, 5_000], 1);
    assert_eq!(predict(&vec![0, 0], &s), 0);
    assert_eq!(predict(&vec![1, 1], &s), 1);
}

#[test]
fn separable_set_converges_and_tests_perfectly() {
    let samples = separable_set();
    let r = train(&samples, vec![5_000, 5_000, 5_000]);
    assert!(r.converged);
    assert!(r.epochs < 100);
    let (matches, total) = test_weights(&r.weights, &samples);
    assert_eq!(total, 6);
    assert_eq!(matches, 6); // 100% accuracy on the training set
}

#[test]
fn contradictory_labels_never_converge() {
    let samples = vec![
        sample(vec![10_000, 5_000], 1),
        sample(vec![10_000, 5_000], 0),
    ];
    let r = train(&samples, vec![100, 100]);
    assert!(!r.converged);
    assert_eq!(r.epochs, 100); // the whole epoch budget is spent
}

#[test]
fn classification_is_deterministic() {
    let samples = separable_set();
    let weights: Vec<i64> = vec![0, 10_000, -10_000];
    let first = classify(&weights, &samples);
    let second = classify(&weights, &samples);
    assert_eq!(first, second);
    assert_eq!(first, vec![1, 1, 1, 0, 0, 0]);
}

#[test]
fn dimension_mismatch_is_fatal() {
    let samples = vec![
        sample(vec![10_000, 5_000], 1),
        sample(vec![10_000, 5_000, 1_000], 0),
    ];
    let r = train_checked(&samples, vec![100, 100]);
    assert!(matches!(r, Err(PerceptronError::DimensionMismatch)));
    let good = vec![sample(vec![10_000, 5_000], 1)];
    assert!(train_checked(&good, vec![100, 100]).is_ok());
}

#[test]
fn fresh_weights_stay_below_one_unit() {
    let w = fresh_weights(50);
    assert_eq!(w.len(), 50);
    assert!(w.iter().all(|&x| 0 <= x && x < 10_000));
}

#[test]
fn random_initialization_still_converges_on_separable_data() {
    let samples = separable_set();
    let r = train_fresh(&samples);
    assert!(r.converged);
    let (matches, total) = test_weights(&r.weights, &samples);
    assert_eq!((matches, total), (6, 6));
}

#[test]
fn training_with_empty_sample_set_converges_at_once() {
    let r = train(&Vec::new(), vec![42, 7]);
    assert!(r.converged);
    assert_eq!(r.epochs, 1);
    assert_eq!(r.weights, vec![42, 7]);
}
