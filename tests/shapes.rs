use numeric_core::matrix::{product_shape, ProductShape, ShapeError};
use numeric_core::montecarlo::PiTally;
use numeric_core::statistics::median_positions;

#[test]
fn demo_operands_have_a_two_by_two_product() {
    assert_eq!(
        product_shape(&vec![3, 3], &vec![2, 2, 2]),
        Ok(ProductShape { rows: 2, inner: 3, cols: 2 })
    );
}

#[test]
fn mismatched_operands_are_refused() {
    assert_eq!(
        product_shape(&vec![3, 3], &vec![2, 2]),
        Err(ShapeError::Mismatch { left_cols: 3, right_rows: 2 })
    );
}

#[test]
fn ragged_left_is_refused() {
    assert_eq!(product_shape(&vec![3, 2], &vec![2, 2, 2]), Err(ShapeError::RaggedLeft));
}

#[test]
fn ragged_right_is_refused() {
    assert_eq!(product_shape(&vec![3, 3], &vec![2, 1, 2]), Err(ShapeError::RaggedRight));
}

#[test]
fn empty_operands_give_an_empty_product() {
    assert_eq!(
        product_shape(&vec![], &vec![]),
        Ok(ProductShape { rows: 0, inner: 0, cols: 0 })
    );
    assert_eq!(
        product_shape(&vec![0, 0], &vec![]),
        Ok(ProductShape { rows: 2, inner: 0, cols: 0 })
    );
}

#[test]
fn tally_without_trials_has_no_estimate() {
    assert_eq!(PiTally::new().estimate_fraction(), None);
}

#[test]
fn tally_counts_hits_and_trials() {
    let mut tally = PiTally::new();
    tally.record(true);
    tally.record(false);
    tally.record(true);
    tally.record(true);
    assert_eq!(tally, PiTally { trials: 4, inside: 3 });
    assert_eq!(tally.estimate_fraction(), Some((12, 4)));
}

#[test]
fn tally_estimate_approaches_pi() {
    // Points on a regular grid over [-1, 1]^2 stand in for uniform draws.
    let steps: i64 = 400;
    let mut tally = PiTally::new();
    for a in 0..steps {
        for b in 0..steps {
            let x = (2 * a + 1 - steps) as f64 / steps as f64;
            let y = (2 * b + 1 - steps) as f64 / steps as f64;
            tally.record(x * x + y * y <= 1.0);
        }
    }
    let (num, den) = tally.estimate_fraction().unwrap();
    let pi = num as f64 / den as f64;
    assert!((pi - std::f64::consts::PI).abs() < 0.05);
}

#[test]
fn median_positions_by_parity() {
    assert_eq!(median_positions(0), None);
    assert_eq!(median_positions(1), Some((0, 0)));
    assert_eq!(median_positions(4), Some((1, 2)));
    assert_eq!(median_positions(5), Some((2, 2)));
}
