//! The fixed-point scalar, and the trainer run on it.

use rsai::fixed::SCALE;
use rsai::{Fixed, Layer, Scalar, MLP};

fn fx(millionths: i64) -> Fixed {
    Fixed { raw: millionths }
}

fn whole(n: i64) -> Fixed {
    Fixed { raw: n * SCALE }
}

fn fixed_gate_data() -> Vec<(Vec<Fixed>, Fixed)> {
    vec![
        (vec![whole(1), whole(1)], whole(1)),
        (vec![whole(1), whole(-1)], whole(-1)),
        (vec![whole(-1), whole(1)], whole(-1)),
        (vec![whole(-1), whole(-1)], whole(-1)),
    ]
}

#[test]
fn counts_become_millions_of_millionths() {
    assert_eq!(Fixed::from_count(0), fx(0));
    assert_eq!(Fixed::from_count(1), fx(1_000_000));
    assert_eq!(Fixed::from_count(3), fx(3_000_000));
    assert_eq!(Fixed::from_count(9_223_372_036_854), fx(9_223_372_036_854_000_000));
    assert_eq!(Fixed::from_count(9_223_372_036_855), fx(i64::MAX));
    assert_eq!(Fixed::from_count(usize::MAX), fx(i64::MAX));
}

#[test]
fn sums_and_differences_are_exact_within_range() {
    assert_eq!(fx(100_000).plus(fx(200_000)), fx(300_000));
    assert_eq!(fx(100_000).minus(fx(200_000)), fx(-100_000));
    assert_eq!(fx(i64::MAX).plus(fx(1)), fx(i64::MAX));
    assert_eq!(fx(i64::MIN).plus(fx(-1)), fx(i64::MIN));
    assert_eq!(fx(i64::MIN).minus(fx(1)), fx(i64::MIN));
    assert_eq!(fx(i64::MAX).minus(fx(-1)), fx(i64::MAX));
    assert_eq!(fx(0).minus(fx(i64::MIN)), fx(i64::MAX));
}

#[test]
fn products_round_toward_zero() {
    assert_eq!(fx(100_000).times(fx(100_000)), fx(10_000));
    assert_eq!(whole(3).times(whole(-2)), whole(-6));
    assert_eq!(fx(1).times(fx(999_999)), fx(0));
    assert_eq!(fx(-1).times(fx(999_999)), fx(0));
    assert_eq!(fx(1_500_001).times(fx(1_000_001)), fx(1_500_002));
    assert_eq!(fx(-1_500_001).times(fx(1_000_001)), fx(-1_500_002));
    assert_eq!(fx(i64::MAX).times(fx(i64::MAX)), fx(i64::MAX));
    assert_eq!(fx(i64::MIN).times(fx(i64::MAX)), fx(i64::MIN));
    assert_eq!(fx(i64::MIN).times(fx(i64::MIN)), fx(i64::MAX));
}

#[test]
fn quotients_round_toward_zero() {
    assert_eq!(whole(1).over(whole(4)), fx(250_000));
    assert_eq!(whole(1).over(whole(3)), fx(333_333));
    assert_eq!(whole(-1).over(whole(3)), fx(-333_333));
    assert_eq!(whole(1).over(whole(-3)), fx(-333_333));
    assert_eq!(whole(-2).over(whole(-3)), fx(666_666));
    assert_eq!(fx(i64::MAX).over(fx(1)), fx(i64::MAX));
    assert_eq!(fx(i64::MIN).over(fx(1)), fx(i64::MIN));
    assert_eq!(fx(i64::MIN).over(fx(-1_000_000)), fx(i64::MAX));
}

#[test]
fn a_quotient_by_zero_is_zero() {
    assert_eq!(whole(5).over(fx(0)), fx(0));
    assert_eq!(whole(-5).over(fx(0)), fx(0));
    assert_eq!(fx(0).over(fx(0)), fx(0));
}

#[test]
fn zero_and_above_is_nonneg() {
    assert!(fx(0).is_nonneg());
    assert!(fx(1).is_nonneg());
    assert!(!fx(-1).is_nonneg());
    assert!(!fx(i64::MIN).is_nonneg());
}

#[test]
fn fresh_fixed_network_predicts_zero() {
    let mlp = MLP::new(&[2, 2, 1], fx(100_000));
    for inputs in [
        vec![whole(1), whole(1)],
        vec![fx(i64::MAX), fx(i64::MIN)],
        vec![fx(-7)],
        vec![],
    ] {
        assert_eq!(mlp.predict(&inputs), fx(0));
    }
}

#[test]
fn fixed_training_on_a_matching_sample_changes_nothing() {
    let mut mlp = MLP::new(&[2, 2, 1], fx(100_000));
    let loss = mlp.train(&vec![whole(1), whole(1)], whole(1));
    assert_eq!(loss, fx(0));
    for unit in &mlp.layers {
        assert_eq!(unit.weights, vec![fx(0), fx(0)]);
        assert_eq!(unit.bias, fx(0));
    }
}

#[test]
fn fixed_evaluate_on_a_fresh_network() {
    let mlp = MLP::new(&[2, 2, 1], fx(100_000));
    assert_eq!(mlp.evaluate(&fixed_gate_data()), fx(250_000));
    assert_eq!(mlp.evaluate(&[]), fx(0));
}

#[test]
fn fixed_backward_adds_rate_times_error_times_input() {
    let mut unit = Layer { weights: vec![whole(1), whole(2)], bias: fx(500_000) };
    unit.backward(&vec![whole(3), whole(4)], whole(2), fx(100_000));
    assert_eq!(unit.weights, vec![fx(1_600_000), fx(2_800_000)]);
    assert_eq!(unit.bias, fx(700_000));
}

#[test]
fn fixed_train_hands_the_error_down_through_new_first_weights() {
    let mut mlp = MLP {
        layers: vec![
            Layer { weights: vec![whole(1), whole(0)], bias: whole(0) },
            Layer { weights: vec![whole(-1)], bias: fx(500_000) },
        ],
        learning_rate: fx(500_000),
    };
    let loss = mlp.train(&vec![whole(2), whole(1)], whole(1));
    assert_eq!(mlp.layers[1].weights, vec![whole(1)]);
    assert_eq!(mlp.layers[1].bias, fx(1_500_000));
    assert_eq!(mlp.layers[0].weights, vec![whole(3), whole(1)]);
    assert_eq!(mlp.layers[0].bias, whole(1));
    assert_eq!(loss, whole(36));
}

#[test]
fn fixed_epoch_mean_is_exact() {
    let mut mlp = MLP::new(&[2, 1], fx(500_000));
    let data = vec![
        (vec![whole(1), whole(-1)], whole(-1)),
        (vec![whole(1), whole(1)], whole(1)),
    ];
    assert_eq!(mlp.train_epoch(&data), whole(2));
    assert_eq!(mlp.layers[0].weights, vec![whole(0), whole(2)]);
    assert_eq!(mlp.layers[0].bias, whole(0));
}

#[test]
fn fixed_losses_and_accuracy_stay_in_range() {
    let data = fixed_gate_data();
    let mut mlp = MLP::new(&[2, 2, 1], fx(100_000));
    let losses = mlp.fit(&data, 100);
    assert_eq!(losses.len(), 100);
    assert!(losses.iter().all(|loss| loss.raw >= 0));
    let accuracy = mlp.evaluate(&data);
    assert!(accuracy.raw >= 0 && accuracy.raw <= SCALE);
    assert!(mlp.is_well_formed());
}
