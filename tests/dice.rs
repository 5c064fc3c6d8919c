use wayline::{evaluate, parse_dice, roll, DiceError};

#[test]
fn sums_stay_between_count_and_count_times_sides() {
    for (text, n, m) in [("2d6", 2u32, 6u32), ("1d20", 1, 20), ("5d3", 5, 3), ("3d1", 3, 1)] {
        for _ in 0..200 {
            let v = evaluate(text).unwrap();
            assert!(n <= v && v <= n * m, "{} gave {}", text, v);
        }
    }
}

#[test]
fn zero_dice_sum_to_zero() {
    assert_eq!(evaluate("0d6"), Ok(0));
    assert_eq!(evaluate("0d1"), Ok(0));
    assert_eq!(evaluate("0d0"), Ok(0));
    assert_eq!(roll("0d0"), Some(0));
}

#[test]
fn one_sided_dice_give_their_count() {
    assert_eq!(evaluate("3d1"), Ok(3));
    assert_eq!(roll("7d1"), Some(7));
}

#[test]
fn malformed_notation_is_refused() {
    for text in ["", "2", "26", "2d6d", "dd", "2dd6", "ad6", "2dx", "d6", "2d", "d", " 2d6", "2d6 ", "2D6", "-1d6", "2.5d6", "+2d6", "2d+6", "2 d6", "xd6"] {
        assert_eq!(evaluate(text), Err(DiceError::Malformed), "{:?}", text);
        assert_eq!(roll(text), None);
    }
}

#[test]
fn zero_sides_are_refused() {
    assert_eq!(evaluate("2d0"), Err(DiceError::InvalidSides));
    assert_eq!(roll("1d0"), None);
    assert_eq!(roll("1d0"), None);
}

#[test]
fn sums_that_cannot_fit_are_refused() {
    assert_eq!(evaluate("4294967295d2"), Err(DiceError::TooLarge));
    assert_eq!(evaluate("65536d65536"), Err(DiceError::TooLarge));
    let v = evaluate("65537d65535").unwrap();
    assert!(65537 <= v);
}

#[test]
fn numbers_larger_than_u32_are_malformed() {
    assert_eq!(evaluate("4294967296d1"), Err(DiceError::Malformed));
}

#[test]
fn notation_splits_into_count_and_sides() {
    assert_eq!(parse_dice("2d6"), Some((2, 6)));
    assert_eq!(parse_dice("10d100"), Some((10, 100)));
    assert_eq!(parse_dice("+2d+6"), None);
    assert_eq!(parse_dice("007d08"), Some((7, 8)));
    assert_eq!(parse_dice("2d6d"), None);
    assert_eq!(parse_dice("x"), None);
}
