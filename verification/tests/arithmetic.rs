//! Fixed-point arithmetic and the text helpers.

use agl_slint_cluster::fixed::{div_nearest, saturate, whole};
use agl_slint_cluster::text::{
    chars, collect, append, digit_value, eq_ignore_case, find, find_char, same, slice, strip, trim,
};

#[test]
fn division_rounds_halves_away_from_zero() {
    assert_eq!(div_nearest(5, 2), 3);
    assert_eq!(div_nearest(-5, 2), -3);
    assert_eq!(div_nearest(7, 3), 2);
    assert_eq!(div_nearest(-7, 3), -2);
    assert_eq!(div_nearest(0, 9), 0);
    assert_eq!(div_nearest(42 * 9, 9), 42);
}

#[test]
fn quantities_saturate() {
    assert_eq!(saturate(1 << 70), i64::MAX);
    assert_eq!(saturate(-(1 << 70)), i64::MIN);
    assert_eq!(saturate(-7), -7);
    assert_eq!(whole(1_999_999), 1);
    assert_eq!(whole(-1), 0);
    assert_eq!(whole(1 << 70), u32::MAX);
}

#[test]
fn texts_are_compared_and_put_together() {
    assert!(same("é", "é"));
    assert!(!same("e", "é"));
    assert!(!same("ab", "abc"));
    assert_eq!(append("大", "通り"), "大通り");
    assert_eq!(collect(&chars("横浜")), "横浜");
    assert_eq!(slice(&chars("横浜駅前"), 1, 3), "浜駅");
}

#[test]
fn trimming_is_the_standard_one() {
    for s in [
        "",
        "  ",
        " a b ",
        "\u{3000}x\u{a0}",
        "\u{1680}\u{2000}\u{200a}y\u{2028}\u{2029}\u{202f}\u{205f}",
        "\u{200b}z\u{feff}",
        "\u{85}\t\r\n\u{b}\u{c}w",
    ] {
        assert_eq!(collect(trim(&chars(s))), s.trim());
    }
    // Every character by itself.
    for c in '\0'..='\u{ffff}' {
        let s = String::from(c);
        assert_eq!(trim(&chars(&s)).is_empty(), c.is_whitespace(), "{c:?}");
    }
    for s in ["", ">", "a>>", ">a", "a>b>"] {
        assert_eq!(collect(strip(&chars(s), '>')), s.trim_end_matches('>'));
    }
}

#[test]
fn searching_finds_the_first() {
    assert_eq!(find(&chars("abcabc"), &chars("ca")), Some(2));
    assert_eq!(find(&chars("abab"), &chars("ab")), Some(0));
    assert_eq!(find(&chars("aab"), &chars("ab")), Some(1));
    assert_eq!(find(&chars("ab"), &chars("abc")), None);
    assert_eq!(find(&chars("ab"), &[]), Some(0));
    assert_eq!(find_char(&chars("a:b:c"), ':', 2), 3);
    assert_eq!(find_char(&chars("abc"), ':', 0), 3);
    assert!(eq_ignore_case(&chars("ATZ"), &chars("atz")));
    assert!(!eq_ignore_case(&chars("É"), &chars("é")));
    assert_eq!(digit_value('f'), 15);
    assert_eq!(digit_value('A'), 10);
}
