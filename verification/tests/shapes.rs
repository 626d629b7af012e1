use variant_eval::fixed::Fixed;
use variant_eval::outcome::FailureReason;
use variant_eval::outcome::Outcome;
use variant_eval::shape::Shape;

fn to_f64(x: Fixed) -> f64 {
    x.units as f64 / 1_000_000_000_000.0
}

#[test]
fn circle_area_is_pi_r_squared() {
    let shape = Shape::Circle(Fixed::from_int(5));
    let area = shape.area();
    assert_eq!(area.units, 78_539_816_339_750);
    assert!((to_f64(area) - std::f64::consts::PI * 5.0 * 5.0).abs() < 1e-9);
}

#[test]
fn rectangle_area_is_width_times_height() {
    let shape = Shape::Rectangle(Fixed::from_int(4), Fixed::from_int(6));
    let area = shape.area();
    assert_eq!(area.units, 24_000_000_000_000);
    assert!((to_f64(area) - 4.0 * 6.0).abs() < 1e-9);
}

#[test]
fn square_area_is_side_squared() {
    let shape = Shape::Square(Fixed::from_int(3));
    let area = shape.area();
    assert_eq!(area.units, 9_000_000_000_000);
    assert!((to_f64(area) - 3.0 * 3.0).abs() < 1e-9);
}

#[test]
fn fractional_square_area_is_exact() {
    // 1.5 * 1.5 == 2.25, representable exactly in fixed point.
    let shape = Shape::Square(Fixed::from_units(1_500_000_000_000));
    assert_eq!(shape.area().units, 2_250_000_000_000);
}

#[test]
fn shape_scenario_three_areas() {
    let shapes = vec![
        Shape::Circle(Fixed::from_int(5)),
        Shape::Rectangle(Fixed::from_int(4), Fixed::from_int(6)),
        Shape::Square(Fixed::from_int(3)),
    ];
    let expected = [78.54, 24.00, 9.00];
    for (shape, want) in shapes.iter().zip(expected.iter()) {
        let got = to_f64(shape.area());
        assert!((got - want).abs() < 0.005);
    }
}

#[test]
fn zero_dimensions_give_zero_area() {
    assert_eq!(Shape::Circle(Fixed::from_int(0)).area().units, 0);
    assert_eq!(Shape::Rectangle(Fixed::from_int(0), Fixed::from_int(7)).area().units, 0);
    assert_eq!(Shape::Square(Fixed::from_int(0)).area().units, 0);
}

#[test]
fn constructors_accept_non_negative_dimensions() {
    let c = Shape::circle(Fixed::from_int(5));
    assert_eq!(c, Outcome::Success(Shape::Circle(Fixed::from_int(5))));
    let r = Shape::rectangle(Fixed::from_int(4), Fixed::from_int(6));
    assert_eq!(
        r,
        Outcome::Success(Shape::Rectangle(Fixed::from_int(4), Fixed::from_int(6)))
    );
    let s = Shape::square(Fixed::from_int(0));
    assert_eq!(s, Outcome::Success(Shape::Square(Fixed::from_int(0))));
}

#[test]
fn constructors_reject_negative_dimensions() {
    let c = Shape::circle(Fixed::from_int(-1));
    assert_eq!(c, Outcome::Failure(FailureReason::NegativeInput));
    let r1 = Shape::rectangle(Fixed::from_int(-4), Fixed::from_int(6));
    assert_eq!(r1, Outcome::Failure(FailureReason::NegativeInput));
    let r2 = Shape::rectangle(Fixed::from_int(4), Fixed::from_int(-6));
    assert_eq!(r2, Outcome::Failure(FailureReason::NegativeInput));
    let s = Shape::square(Fixed::from_units(-1));
    assert_eq!(s, Outcome::Failure(FailureReason::NegativeInput));
}

#[test]
fn area_is_idempotent() {
    let shape = Shape::Circle(Fixed::from_int(5));
    assert_eq!(shape.area(), shape.area());
    let rect = Shape::Rectangle(Fixed::from_int(4), Fixed::from_int(6));
    assert_eq!(rect.area(), rect.area());
}
