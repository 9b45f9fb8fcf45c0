//! How alike two texts are.
//!
//! A similarity is a number from 0 to 1 in double precision, carried here by
//! its bit pattern. Patterns of numbers that are not negative are ordered like
//! the numbers. Comparisons are made in single precision, on the key that
//! `single_key` derives from the pattern.

use vstd::prelude::*;

verus! {

/// The bit pattern of the Jaro-Winkler similarity of two texts.
pub uninterp spec fn similarity_bits(a: Seq<char>, b: Seq<char>) -> u64;

/// The bit pattern of 1 in double precision.
pub const SAME: u64 = 0x3ff0_0000_0000_0000;

/// `strsim::jaro_winkler` computes the similarity of two texts from the texts
/// alone. The contract names its result, taken by its bit pattern. Of the number
/// it says that it is from 0 to 1, that it is 1 for equal texts, and that it is
/// 0 where one of the texts is empty and the other is not.
#[verifier::external_body]
fn jaro_winkler(a: &str, b: &str) -> (bits: u64)
    ensures
        bits == similarity_bits(a@, b@),
        bits <= SAME,
        a@ == b@ ==> bits == SAME,
        (a@.len() == 0) != (b@.len() == 0) ==> bits == 0,
{
    strsim::jaro_winkler(a, b).to_bits()
}

/// The bit pattern of the Jaro-Winkler similarity of two texts.
pub fn similarity(a: &str, b: &str) -> (bits: u64)
    ensures
        bits == similarity_bits(a@, b@),
        bits <= SAME,
        a@ == b@ ==> bits == SAME,
        (a@.len() == 0) != (b@.len() == 0) ==> bits == 0,
{
    jaro_winkler(a, b)
}

/// The key of the highest similarity.
pub const FULL_KEY: u64 = 0x1_ff80_0000;

/// Single precision keeps 29 bits of a double-precision pattern less.
pub const DROPPED: u64 = 0x2000_0000;

/// The pattern rounded to single precision: its upper bits, rounded to the
/// nearest, and to the even one of two that are equally near.
pub open spec fn rounded(bits: u64) -> int {
    let upper = bits as int / DROPPED as int;
    let rest = bits as int % DROPPED as int;
    if 2 * rest > DROPPED || (2 * rest == DROPPED && upper % 2 == 1) {
        upper + 1
    } else {
        upper
    }
}

/// A key that orders numbers as their single-precision roundings are ordered.
pub fn single_key(bits: u64) -> (key: u64)
    ensures
        key == rounded(bits),
{
    let upper: u64 = bits / DROPPED;
    let rest: u64 = bits % DROPPED;
    if 2 * rest > DROPPED || (2 * rest == DROPPED && upper % 2 == 1) {
        upper + 1
    } else {
        upper
    }
}

/// The pattern stands for a number above zero (infinity included).
pub open spec fn is_positive(bits: u64) -> bool {
    0 < bits <= 0x7ff0_0000_0000_0000
}

pub fn positive(bits: u64) -> (r: bool)
    ensures
        r == is_positive(bits),
{
    0 < bits && bits <= 0x7ff0_0000_0000_0000
}

/// The highest similarity has the highest key.
pub proof fn law_full_key(bits: u64)
    requires
        bits <= SAME,
    ensures
        rounded(SAME) == FULL_KEY,
        rounded(bits) <= FULL_KEY,
{
    law_rounding_keeps_order(bits, SAME);
}

/// Rounding to single precision keeps the order: of two numbers that are not
/// negative, the larger one never gets the smaller key.
pub proof fn law_rounding_keeps_order(a: u64, b: u64)
    requires
        a <= b,
    ensures
        rounded(a) <= rounded(b),
{
    let ua = a as int / DROPPED as int;
    let ub = b as int / DROPPED as int;
    assert(ua <= ub) by (nonlinear_arith)
        requires
            a <= b,
            ua == a as int / 0x2000_0000int,
            ub == b as int / 0x2000_0000int,
    ;
    if ua == ub {
        assert(a as int % DROPPED as int <= b as int % DROPPED as int);
    }
}

} // verus!
