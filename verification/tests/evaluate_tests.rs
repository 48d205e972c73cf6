use diceroller_api::{evaluate, DiceField, EvaluationError, RollSpecification};

fn expect_error(input: &str, expected: EvaluationError, expected_message: &str) {
    match evaluate(input) {
        Ok(v) => panic!("{:?} unexpectedly succeeded with {:?}", input, v),
        Err(e) => {
            assert_eq!(e, expected);
            assert_eq!(e.message(), expected_message);
        },
    }
}

#[test]
fn valid_three_d_six() {
    for _ in 0..100 {
        let r = evaluate("3d6").unwrap();
        assert_eq!(r.len(), 3);
        for v in r {
            assert!(1 <= v && v <= 6);
        }
    }
}

#[test]
fn malformed_inputs() {
    let bad = [
        "abc", "3x6", "d6", "3d", " 3d6", "", "3d6 ", "3D6", "-3d6", "3d-6", "3dd6", "1d2d3", "d",
        "dd", "3d 6", "+3d6", "3.0d6", "3d6.0",
    ];
    for input in bad {
        expect_error(
            input,
            EvaluationError::MalformedInput,
            "Invalid format. Use [rolls]d[sides].",
        );
    }
}

#[test]
fn zero_fields() {
    for input in ["0d6", "3d0", "0d0", "00d6", "3d000"] {
        expect_error(
            input,
            EvaluationError::ZeroValue,
            "Rolls and sides must be greater than 0.",
        );
    }
}

#[test]
fn limits_exceeded() {
    for input in ["101d6", "3d1001", "101d1001", "1000d1000"] {
        expect_error(
            input,
            EvaluationError::LimitExceeded,
            "Rolls must be 100 or fewer, and sides must be 1000 or fewer.",
        );
    }
}

#[test]
fn zero_reported_before_limit() {
    expect_error(
        "0d1001",
        EvaluationError::ZeroValue,
        "Rolls and sides must be greater than 0.",
    );
    expect_error(
        "101d0",
        EvaluationError::ZeroValue,
        "Rolls and sides must be greater than 0.",
    );
}

#[test]
fn one_d_one_is_always_one() {
    for _ in 0..100 {
        assert_eq!(evaluate("1d1").unwrap(), vec![1]);
    }
}

#[test]
fn hundred_d_thousand_in_range() {
    for _ in 0..200 {
        let r = evaluate("100d1000").unwrap();
        assert_eq!(r.len(), 100);
        for v in r {
            assert!(1 <= v && v <= 1000);
        }
    }
}

#[test]
fn oversized_digit_runs_are_non_numeric() {
    expect_error(
        "99999999999999999999999999d6",
        EvaluationError::NonNumericField(DiceField::Rolls),
        "Invalid rolls format. Must be a positive integer.",
    );
    expect_error(
        "6d99999999999999999999999999",
        EvaluationError::NonNumericField(DiceField::Sides),
        "Invalid sides format. Must be a positive integer.",
    );
    // An oversized roll count is reported before the side count is read.
    expect_error(
        "99999999999999999999999999d99999999999999999999999999",
        EvaluationError::NonNumericField(DiceField::Rolls),
        "Invalid rolls format. Must be a positive integer.",
    );
}

#[test]
fn leading_zeros_are_accepted() {
    for _ in 0..20 {
        let r = evaluate("003d006").unwrap();
        assert_eq!(r.len(), 3);
        for v in r {
            assert!(1 <= v && v <= 6);
        }
    }
}

#[test]
fn single_sided_dice_pin_every_roll() {
    for _ in 0..20 {
        assert_eq!(evaluate("5d1").unwrap(), vec![1, 1, 1, 1, 1]);
    }
    assert_eq!(evaluate("100d1").unwrap(), vec![1; 100]);
}

#[test]
fn two_sided_dice_stay_in_range() {
    for _ in 0..50 {
        let r = evaluate("4d2").unwrap();
        assert_eq!(r.len(), 4);
        for v in r {
            assert!(v == 1 || v == 2);
        }
    }
}

#[test]
fn validation_is_idempotent() {
    let bad = ["abc", "0d6", "101d6", "0d1001", "99999999999999999999999999d6", "3d"];
    for input in bad {
        let first = evaluate(input).unwrap_err();
        let second = evaluate(input).unwrap_err();
        assert_eq!(first, second);
        assert_eq!(first.message(), second.message());
    }
}

#[test]
fn messages_per_variant() {
    assert_eq!(
        EvaluationError::MalformedInput.message(),
        "Invalid format. Use [rolls]d[sides]."
    );
    assert_eq!(
        EvaluationError::NonNumericField(DiceField::Rolls).message(),
        "Invalid rolls format. Must be a positive integer."
    );
    assert_eq!(
        EvaluationError::NonNumericField(DiceField::Sides).message(),
        "Invalid sides format. Must be a positive integer."
    );
    assert_eq!(
        EvaluationError::ZeroValue.message(),
        "Rolls and sides must be greater than 0."
    );
    assert_eq!(
        EvaluationError::LimitExceeded.message(),
        "Rolls must be 100 or fewer, and sides must be 1000 or fewer."
    );
}

#[test]
fn specification_validation_order() {
    assert_eq!(
        RollSpecification::new(0, 6),
        Err(EvaluationError::ZeroValue)
    );
    assert_eq!(
        RollSpecification::new(3, 0),
        Err(EvaluationError::ZeroValue)
    );
    assert_eq!(
        RollSpecification::new(0, 1001),
        Err(EvaluationError::ZeroValue)
    );
    assert_eq!(
        RollSpecification::new(101, 6),
        Err(EvaluationError::LimitExceeded)
    );
    assert_eq!(
        RollSpecification::new(3, 1001),
        Err(EvaluationError::LimitExceeded)
    );
    let validated = RollSpecification::new(100, 1000).unwrap();
    assert_eq!(validated.rolls, 100);
    assert_eq!(validated.sides, 1000);
}

#[test]
fn specification_roll_obeys_bounds() {
    let validated = RollSpecification::new(7, 9).unwrap();
    for _ in 0..50 {
        let r = validated.roll();
        assert_eq!(r.len(), 7);
        for v in r {
            assert!(1 <= v && v <= 9);
        }
    }
}
