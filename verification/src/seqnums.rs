//! 32-bit wrap-around sequence-number arithmetic (RFC 793 / RFC 1323).
//!
//! All comparisons of TCP sequence numbers in this crate go through
//! `wrapping_lt` and `is_between_wrapped`; a direct `<` on sequence
//! values would be wrong as soon as the numbers wrap.

use vstd::prelude::*;

verus! {

/// Forward distance from `from` to `to` on the 2^32 circle:
/// `(to - from) mod 2^32`, written without `%` so that reasoning stays linear.
pub open spec fn wrap_dist(from: u32, to: u32) -> int {
    if to >= from {
        to - from
    } else {
        to - from + 0x1_0000_0000
    }
}

/// Wrapping 32-bit addition, as the `u32::wrapping_add` of std computes it.
pub open spec fn wrap_add(a: u32, b: u32) -> u32 {
    vstd::wrapping::u32_specs::wrapping_add(a, b)
}

/// Wrapping 32-bit subtraction, as the `u32::wrapping_sub` of std computes it.
pub open spec fn wrap_sub(a: u32, b: u32) -> u32 {
    vstd::wrapping::u32_specs::wrapping_sub(a, b)
}

/// RFC 1323's half-space rule: `lhs` is strictly before `rhs` in modular
/// order iff `(lhs - rhs) mod 2^32` exceeds `2^31`.
pub open spec fn wrap_lt(lhs: u32, rhs: u32) -> bool {
    wrap_dist(rhs, lhs) > 0x8000_0000
}

/// Strict open interval in modular order: `start < x < end`, both by the
/// half-space rule.
pub open spec fn between_wrapped(start: u32, x: u32, end: u32) -> bool {
    wrap_lt(start, x) && wrap_lt(x, end)
}

pub fn wrapping_lt(lhs: u32, rhs: u32) -> (r: bool)
    ensures
        r == wrap_lt(lhs, rhs),
{
    lhs.wrapping_sub(rhs) > 0x8000_0000
}

pub fn is_between_wrapped(start: u32, x: u32, end: u32) -> (r: bool)
    ensures
        r == between_wrapped(start, x, end),
{
    wrapping_lt(start, x) && wrapping_lt(x, end)
}

/// The half-space rule reads as ordinary arc membership whenever the whole
/// interval spans at most half the sequence circle — the regime RFC 1323
/// guarantees (window sizes stay below 2^31). Under that bound,
/// `between_wrapped(a, b, c)` holds exactly when `b` lies on the open arc
/// from `a` forward to `c`: the distance travelled from `a` to reach `b`
/// is positive and smaller than the distance from `a` to `c`.
///
/// Without the bound the equivalence fails: with `a = 0`,
/// `b = 0x8000_0001`, `c = 0x8000_0002`, `b` is on the open arc from `a`
/// to `c` but `between_wrapped(a, b, c)` is false.
pub proof fn lemma_between_wrapped_is_arc_membership(a: u32, b: u32, c: u32)
    requires
        wrap_dist(a, c) <= 0x8000_0000,
    ensures
        between_wrapped(a, b, c) <==> (0 < wrap_dist(a, b) && wrap_dist(a, b) < wrap_dist(a, c)),
{
    assert(wrap_dist(a, b) + wrap_dist(b, c) == wrap_dist(a, c)
        || wrap_dist(a, b) + wrap_dist(b, c) == wrap_dist(a, c) + 0x1_0000_0000);
}

/// `wrap_lt` alone is arc membership in the half circle: `lhs` is strictly
/// before `rhs` iff `rhs` is reached from `lhs` by a positive step of fewer
/// than `2^31` sequence numbers.
pub proof fn lemma_wrap_lt_is_half_circle(lhs: u32, rhs: u32)
    ensures
        wrap_lt(lhs, rhs) <==> (0 < wrap_dist(lhs, rhs) && wrap_dist(lhs, rhs) < 0x8000_0000),
{
    assert(lhs == rhs ==> wrap_dist(rhs, lhs) == 0);
    assert(lhs != rhs ==> wrap_dist(rhs, lhs) + wrap_dist(lhs, rhs) == 0x1_0000_0000);
}

} // verus!
