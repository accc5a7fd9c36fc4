//! The field-level merge policy shared by every graph-node variant.
//!
//! Merging two instances of a node combines them field by field, and every
//! field follows one of three rules:
//! - `fill if empty`: an empty or zero field is filled from the other
//!   instance; a non-empty field is never overwritten;
//! - `minimum of non-zero`: for lower-bound timestamps (`created`);
//! - `maximum`: for upper-bound timestamps (`last_seen`, `terminated`,
//!   `deleted`).

use vstd::prelude::*;

verus! {

/// Fill rule for string fields: an empty value is filled from `b`,
/// a non-empty value keeps `a`.
pub open spec fn fill_seq(a: Seq<char>, b: Seq<char>) -> Seq<char> {
    if a.len() == 0 && b.len() != 0 {
        b
    } else {
        a
    }
}

/// Fill rule for optional fields: `None` is filled from `b`.
pub open spec fn fill_opt(a: Option<Seq<char>>, b: Option<Seq<char>>) -> Option<Seq<char>> {
    if a is None && b is Some {
        b
    } else {
        a
    }
}

/// Fill rule for numeric fields where zero means "absent".
pub open spec fn fill_u64(a: u64, b: u64) -> u64 {
    if a == 0 && b != 0 {
        b
    } else {
        a
    }
}

/// Lower-bound timestamps take the minimum of the non-zero inputs;
/// zero means "absent" and never wins.
pub open spec fn min_nonzero(a: u64, b: u64) -> u64 {
    if a == 0 {
        b
    } else if b == 0 {
        a
    } else if a <= b {
        a
    } else {
        b
    }
}

/// Upper-bound timestamps take the plain maximum.
pub open spec fn max_merge(a: u64, b: u64) -> u64 {
    if a >= b {
        a
    } else {
        b
    }
}

/// The contents of an optional string field, as a mathematical value.
pub open spec fn opt_view(o: Option<String>) -> Option<Seq<char>> {
    match o {
        Some(s) => Some(s@),
        None => None,
    }
}

/// Merge a lower-bound timestamp field.
pub fn merge_created(a: u64, b: u64) -> (r: u64)
    ensures
        r == min_nonzero(a, b),
{
    if a == 0 {
        b
    } else if b == 0 {
        a
    } else if a <= b {
        a
    } else {
        b
    }
}

/// Merge an upper-bound timestamp field.
pub fn merge_last_seen(a: u64, b: u64) -> (r: u64)
    ensures
        r == max_merge(a, b),
{
    if a >= b {
        a
    } else {
        b
    }
}

/// Merge monotonicity at the field level: a non-empty value is never
/// overwritten, and an empty value is filled from the other side, so the
/// merged field is the first non-empty of `a` then `b`.
pub proof fn lemma_fill_monotone(a: Seq<char>, b: Seq<char>)
    ensures
        a.len() != 0 ==> fill_seq(a, b) == a,
        a.len() == 0 && b.len() != 0 ==> fill_seq(a, b) == b,
        a.len() == 0 && b.len() == 0 ==> fill_seq(a, b) == a,
{
}

/// Merge monotonicity for optional fields: a present value is never
/// overwritten, and an absent one is filled from the other side.
pub proof fn lemma_fill_opt_monotone(a: Option<Seq<char>>, b: Option<Seq<char>>)
    ensures
        a is Some ==> fill_opt(a, b) == a,
        a is None && b is Some ==> fill_opt(a, b) == b,
        a is None && b is None ==> fill_opt(a, b) == a,
{
}

/// Merge monotonicity for numeric fields where zero means "absent".
pub proof fn lemma_fill_u64_monotone(a: u64, b: u64)
    ensures
        a != 0 ==> fill_u64(a, b) == a,
        a == 0 && b != 0 ==> fill_u64(a, b) == b,
        a == 0 && b == 0 ==> fill_u64(a, b) == 0,
{
}

/// Timestamp merging: lower-bound timestamps are the minimum of the
/// non-zero inputs, and upper-bound timestamps are the maximum.
pub proof fn lemma_timestamp_min_max(a: u64, b: u64)
    ensures
        a != 0 && b != 0 ==> min_nonzero(a, b) == if a <= b { a } else { b },
        a == 0 ==> min_nonzero(a, b) == b,
        b == 0 ==> min_nonzero(a, b) == a,
        min_nonzero(a, b) == min_nonzero(b, a),
        max_merge(a, b) == if a >= b { a } else { b },
        max_merge(a, b) == max_merge(b, a),
{
}

/// Every field rule is idempotent: merging a value with itself changes
/// nothing, so node merging is idempotent as well.
pub proof fn lemma_rules_idempotent(s: Seq<char>, o: Option<Seq<char>>, n: u64)
    ensures
        fill_seq(s, s) == s,
        fill_opt(o, o) == o,
        fill_u64(n, n) == n,
        min_nonzero(n, n) == n,
        max_merge(n, n) == n,
{
}

/// The timestamp rules are commutative; the fill rules are commutative
/// whenever the two sides do not hold different non-empty values.
pub proof fn lemma_rules_commutative(a: Seq<char>, b: Seq<char>, x: u64, y: u64)
    ensures
        min_nonzero(x, y) == min_nonzero(y, x),
        max_merge(x, y) == max_merge(y, x),
        a.len() == 0 || b.len() == 0 ==> fill_seq(a, b) == fill_seq(b, a),
{
}

} // verus!
