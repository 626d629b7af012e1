use variant_eval::fixed::Fixed;
use variant_eval::ops::divide;
use variant_eval::ops::sqrt;
use variant_eval::outcome::FailureReason;
use variant_eval::outcome::Outcome;

fn to_f64(x: Fixed) -> f64 {
    x.units as f64 / 1_000_000_000_000.0
}

#[test]
fn divide_by_zero_always_fails() {
    for a in [-10_i64, -1, 0, 1, 10, 12345] {
        let r = divide(Fixed::from_int(a), Fixed::from_int(0));
        assert_eq!(r, Outcome::Failure(FailureReason::DivisionByZero));
    }
}

#[test]
fn divide_by_nonzero_succeeds_with_quotient() {
    let r = divide(Fixed::from_int(10), Fixed::from_int(2));
    assert_eq!(r, Outcome::Success(Fixed::from_int(5)));
    let third = divide(Fixed::from_int(1), Fixed::from_int(3));
    // 1 / 3 truncated to twelve decimal places.
    assert_eq!(third, Outcome::Success(Fixed::from_units(333_333_333_333)));
}

#[test]
fn divide_rounds_toward_zero_for_negatives() {
    let r = divide(Fixed::from_int(-10), Fixed::from_int(4));
    assert_eq!(r, Outcome::Success(Fixed::from_units(-2_500_000_000_000)));
    let q = divide(Fixed::from_int(-1), Fixed::from_int(-3));
    assert_eq!(q, Outcome::Success(Fixed::from_units(333_333_333_333)));
    let t = divide(Fixed::from_int(7), Fixed::from_int(-2));
    assert_eq!(t, Outcome::Success(Fixed::from_units(-3_500_000_000_000)));
}

#[test]
fn sqrt_of_negative_fails() {
    let r = sqrt(Fixed::from_int(-4));
    assert_eq!(r, Outcome::Failure(FailureReason::NegativeInput));
    let s = sqrt(Fixed::from_units(-1));
    assert_eq!(s, Outcome::Failure(FailureReason::NegativeInput));
}

#[test]
fn sqrt_of_perfect_square_is_exact() {
    assert_eq!(sqrt(Fixed::from_int(16)), Outcome::Success(Fixed::from_int(4)));
    assert_eq!(sqrt(Fixed::from_int(0)), Outcome::Success(Fixed::from_int(0)));
    assert_eq!(sqrt(Fixed::from_int(1)), Outcome::Success(Fixed::from_int(1)));
}

#[test]
fn sqrt_of_two_is_truncated_root() {
    // The square root of 2 to twelve decimal places, rounded down.
    assert_eq!(
        sqrt(Fixed::from_int(2)),
        Outcome::Success(Fixed::from_units(1_414_213_562_373))
    );
}

#[test]
fn sqrt_round_trip_is_close() {
    for n in [2_i64, 3, 5, 10, 12345] {
        let r = match sqrt(Fixed::from_int(n)) {
            Outcome::Success(v) => v,
            Outcome::Failure(_) => panic!("sqrt of a non-negative number failed"),
        };
        let back = to_f64(r) * to_f64(r);
        assert!((back - n as f64).abs() < 1e-9);
        // The root never overshoots: its square stays at or below n.
        assert!(back <= n as f64);
    }
}

#[test]
fn operation_scenario_four_outcomes() {
    let operations = [
        divide(Fixed::from_int(10), Fixed::from_int(2)),
        divide(Fixed::from_int(10), Fixed::from_int(0)),
        sqrt(Fixed::from_int(16)),
        sqrt(Fixed::from_int(-4)),
    ];
    let expected = [
        Outcome::Success(Fixed::from_int(5)),
        Outcome::Failure(FailureReason::DivisionByZero),
        Outcome::Success(Fixed::from_int(4)),
        Outcome::Failure(FailureReason::NegativeInput),
    ];
    assert_eq!(operations, expected);
}

#[test]
fn operations_are_idempotent() {
    assert_eq!(
        divide(Fixed::from_int(10), Fixed::from_int(3)),
        divide(Fixed::from_int(10), Fixed::from_int(3))
    );
    assert_eq!(sqrt(Fixed::from_int(2)), sqrt(Fixed::from_int(2)));
}

#[test]
fn value_or_yields_value_on_success_and_default_on_failure() {
    let ok = divide(Fixed::from_int(10), Fixed::from_int(2));
    assert_eq!(ok.value_or(Fixed::from_int(-1)), Fixed::from_int(5));
    let bad = divide(Fixed::from_int(10), Fixed::from_int(0));
    assert_eq!(bad.value_or(Fixed::from_int(-1)), Fixed::from_int(-1));
}

#[test]
fn outcome_predicates_match_variant() {
    let ok: Outcome<Fixed> = Outcome::Success(Fixed::from_int(1));
    assert!(ok.is_success());
    assert!(!ok.is_failure());
    let bad: Outcome<Fixed> = Outcome::Failure(FailureReason::DivisionByZero);
    assert!(bad.is_failure());
    assert!(!bad.is_success());
}
