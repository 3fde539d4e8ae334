use strobetune::ui::{level_bar, string_text, transpose_text, BAR_WIDTH};

#[test]
fn transpose_is_shown_with_its_sign() {
    assert_eq!(transpose_text(0), "0");
    assert_eq!(transpose_text(1), "+1");
    assert_eq!(transpose_text(-1), "-1");
    assert_eq!(transpose_text(12), "+12");
    assert_eq!(transpose_text(-12), "-12");
    assert_eq!(transpose_text(i32::MIN), format!("{:+}", i32::MIN));
    assert_eq!(transpose_text(i32::MAX), format!("{:+}", i32::MAX));
}

#[test]
fn string_is_numbered_from_one() {
    assert_eq!(string_text(0, "E2"), "1 / E2");
    assert_eq!(string_text(5, "D4"), "6 / D4");
    assert_eq!(string_text(99, "X"), "100 / X");
}

#[test]
fn level_bar_fills_from_the_left_and_clamps() {
    assert_eq!(level_bar(0), "░".repeat(BAR_WIDTH));
    assert_eq!(level_bar(3), "███".to_string() + &"░".repeat(21));
    assert_eq!(level_bar(24), "█".repeat(24));
    assert_eq!(level_bar(1000), "█".repeat(24));
    assert_eq!(level_bar(5).chars().count(), BAR_WIDTH);
}
