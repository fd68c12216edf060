//! Wraparound-safe arithmetic on 32-bit TCP sequence numbers.
//!
//! The sequence-number space is circular: every comparison is defined
//! through the forward distance from one number to another, taken
//! modulo 2^32, never through plain unsigned comparison.

use vstd::prelude::*;

verus! {

/// Forward distance from `a` to `b` in the circular sequence space:
/// the unique `d` in `[0, 2^32)` with `a + d == b (mod 2^32)`.
pub open spec fn seq_diff(a: u32, b: u32) -> int {
    if b >= a {
        b - a
    } else {
        b - a + 0x1_0000_0000
    }
}

/// `a` is strictly before `b` in the circular order: the forward
/// distance from `a` to `b` lies in `(0, 2^31)`.
pub open spec fn seq_before(a: u32, b: u32) -> bool {
    0 < seq_diff(a, b) < 0x8000_0000
}

/// `a + n` reduced modulo 2^32, for `0 <= n < 2^32`.
pub open spec fn seq_add(a: u32, n: int) -> u32
    recommends
        0 <= n < 0x1_0000_0000,
{
    if a + n < 0x1_0000_0000 {
        (a + n) as u32
    } else {
        (a + n - 0x1_0000_0000) as u32
    }
}

/// `x` lies in the half-open window `[start, start + len)` of the
/// circular space.
pub open spec fn in_window(start: u32, x: u32, len: int) -> bool {
    seq_diff(start, x) < len
}

/// `x` lies in the half-open interval `(lo, hi]` of the circular space.
pub open spec fn in_open_closed(lo: u32, x: u32, hi: u32) -> bool {
    0 < seq_diff(lo, x) <= seq_diff(lo, hi)
}

/// Forward distance, executable form.
pub fn distance(a: u32, b: u32) -> (r: u32)
    ensures
        r as int == seq_diff(a, b),
{
    if b >= a {
        b - a
    } else {
        ((0x1_0000_0000u64 + b as u64) - a as u64) as u32
    }
}

/// Wraparound-safe strict comparison: `a` is before `b`.
pub fn before(a: u32, b: u32) -> (r: bool)
    ensures
        r == seq_before(a, b),
{
    let d = distance(a, b);
    0 < d && d < 0x8000_0000
}

/// Wraparound addition of a small increment to a sequence number.
pub fn wrap_add(a: u32, n: u32) -> (r: u32)
    ensures
        r == seq_add(a, n as int),
{
    let s: u64 = a as u64 + n as u64;
    if s < 0x1_0000_0000 {
        s as u32
    } else {
        (s - 0x1_0000_0000) as u32
    }
}

/// Window membership, executable form.
pub fn in_window_ex(start: u32, x: u32, len: u32) -> (r: bool)
    ensures
        r == in_window(start, x, len as int),
{
    distance(start, x) < len
}

/// Interval membership `x in (lo, hi]`, executable form.
pub fn in_open_closed_ex(lo: u32, x: u32, hi: u32) -> (r: bool)
    ensures
        r == in_open_closed(lo, x, hi),
{
    let d = distance(lo, x);
    0 < d && d <= distance(lo, hi)
}

/// The successor is at distance exactly one.
pub proof fn lemma_diff_succ(a: u32)
    ensures
        seq_diff(a, seq_add(a, 1)) == 1,
{
}

/// Distance one pins the successor down.
pub proof fn lemma_diff_one(a: u32, x: u32)
    requires
        seq_diff(a, x) == 1,
    ensures
        x == seq_add(a, 1),
{
}

/// Distance zero means equality.
pub proof fn lemma_diff_zero(a: u32, x: u32)
    ensures
        seq_diff(a, x) == 0 <==> x == a,
{
}

/// Law: for sequence numbers that are distinct and not circular
/// neighbours, strict order from `a` to `b` and strict order from `b`
/// to the predecessor of `a` exclude each other: exactly one holds.
/// (When `a == b`, or `b` is the predecessor of `a`, both sides are
/// false and the two agree.)
pub proof fn lemma_before_shift(a: u32, b: u32)
    requires
        a != b,
        b != seq_add(a, 0xFFFF_FFFF),
    ensures
        (seq_before(a, b) == seq_before(b, seq_add(a, 0xFFFF_FFFF))) == false,
{
}

/// Law: the strict circular order crosses the wraparound point: the
/// largest sequence number is before zero.
pub proof fn lemma_before_wraparound()
    ensures
        seq_before(0xFFFF_FFFFu32, 0u32),
{
}

/// Law: the strict circular order is irreflexive.
pub proof fn lemma_before_irreflexive(a: u32)
    ensures
        !seq_before(a, a),
{
}

} // verus!
