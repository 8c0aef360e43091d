//! The wrap-around comparison primitives on concrete values.

use trust::seqnums::{is_between_wrapped, wrapping_lt};

#[test]
fn between_wrapped_simple_interval() {
    assert!(is_between_wrapped(0, 1, 2));
}

#[test]
fn between_wrapped_across_the_wrap() {
    assert!(is_between_wrapped(0xFFFFFFFF, 0, 1));
}

#[test]
fn between_wrapped_excludes_left_endpoint() {
    assert!(!is_between_wrapped(5, 5, 10));
}

#[test]
fn between_wrapped_excludes_right_endpoint() {
    assert!(!is_between_wrapped(5, 10, 10));
}

#[test]
fn wrapping_lt_ordinary_and_wrapped() {
    assert!(wrapping_lt(5, 10));
    assert!(!wrapping_lt(10, 5));
    assert!(!wrapping_lt(7, 7));
    // 21 steps forward across the wrap: still "less than".
    assert!(wrapping_lt(0xFFFFFFF0, 5));
    assert!(!wrapping_lt(5, 0xFFFFFFF0));
}

#[test]
fn wrapping_lt_is_the_half_space_rule() {
    // Exactly 2^31 apart: neither is less than the other.
    assert!(!wrapping_lt(0, 0x8000_0000));
    assert!(!wrapping_lt(0x8000_0000, 0));
    // One short of half the circle: ordered.
    assert!(wrapping_lt(0, 0x7FFF_FFFF));
    assert!(!wrapping_lt(0x7FFF_FFFF, 0));
}
