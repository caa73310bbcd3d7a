//! The orders that identities are compared by.
use std::cmp::Ordering;
use vstd::prelude::*;
use crate::seqs::{lemma_rest_ends, lemma_rest_step, rest};

verus! {

/// The order of two numbers.
pub open spec fn int_order(a: int, b: int) -> Ordering {
    if a < b {
        Ordering::Less
    } else if a > b {
        Ordering::Greater
    } else {
        Ordering::Equal
    }
}

/// The order of two sequences of bytes: that of the first bytes that
/// differ, and where none do, that of the lengths.
pub open spec fn lex_order(a: Seq<u8>, b: Seq<u8>) -> Ordering
    decreases a.len(),
{
    if a.len() == 0 {
        if b.len() == 0 {
            Ordering::Equal
        } else {
            Ordering::Less
        }
    } else if b.len() == 0 {
        Ordering::Greater
    } else if a[0] != b[0] {
        int_order(a[0] + 0, b[0] + 0)
    } else {
        lex_order(a.drop_first(), b.drop_first())
    }
}

/// The bytes of a name, where there is a name.
pub open spec fn name_bytes(name: Option<Vec<u8>>) -> Option<Seq<u8>> {
    match name {
        Some(bytes) => Some(bytes@),
        None => None,
    }
}

/// The order of two names: no name comes before any name, and two names are
/// ordered as their bytes.
pub open spec fn name_order(a: Option<Seq<u8>>, b: Option<Seq<u8>>) -> Ordering {
    match (a, b) {
        (None, None) => Ordering::Equal,
        (None, Some(_)) => Ordering::Less,
        (Some(_), None) => Ordering::Greater,
        (Some(x), Some(y)) => lex_order(x, y),
    }
}

/// The order of two numbers that may be missing: a missing number comes
/// before any number.
pub open spec fn opt_order(a: Option<u64>, b: Option<u64>) -> Ordering {
    match (a, b) {
        (None, None) => Ordering::Equal,
        (None, Some(_)) => Ordering::Less,
        (Some(_), None) => Ordering::Greater,
        (Some(x), Some(y)) => int_order(x + 0, y + 0),
    }
}

/// The first of two orders, and where that is `Equal`, the second.
pub open spec fn order_then(first: Ordering, second: Ordering) -> Ordering {
    if first == Ordering::Equal {
        second
    } else {
        first
    }
}

/// Compares two numbers.
pub fn cmp_u64(a: u64, b: u64) -> (o: Ordering)
    ensures
        o == int_order(a + 0, b + 0),
{
    if a < b {
        Ordering::Less
    } else if a > b {
        Ordering::Greater
    } else {
        Ordering::Equal
    }
}

/// Compares two numbers.
pub fn cmp_usize(a: usize, b: usize) -> (o: Ordering)
    ensures
        o == int_order(a + 0, b + 0),
{
    if a < b {
        Ordering::Less
    } else if a > b {
        Ordering::Greater
    } else {
        Ordering::Equal
    }
}

/// Compares two numbers.
pub fn cmp_u8(a: u8, b: u8) -> (o: Ordering)
    ensures
        o == int_order(a + 0, b + 0),
{
    if a < b {
        Ordering::Less
    } else if a > b {
        Ordering::Greater
    } else {
        Ordering::Equal
    }
}

/// Compares two numbers that may be missing: a missing one comes first.
pub fn cmp_opt_u64(a: Option<u64>, b: Option<u64>) -> (o: Ordering)
    ensures
        o == opt_order(a, b),
{
    match (a, b) {
        (None, None) => Ordering::Equal,
        (None, Some(_)) => Ordering::Less,
        (Some(_), None) => Ordering::Greater,
        (Some(x), Some(y)) => cmp_u64(x, y),
    }
}

/// Compares two sequences of bytes, as slices are compared.
pub fn cmp_bytes(a: &[u8], b: &[u8]) -> (o: Ordering)
    ensures
        o == lex_order(a@, b@),
{
    let mut i: usize = 0;
    proof {
        lemma_rest_ends(a@, 0);
        lemma_rest_ends(b@, 0);
    }
    loop
        invariant
            i <= a.len(),
            i <= b.len(),
            lex_order(a@, b@) == lex_order(rest(a@, i), rest(b@, i)),
        decreases a.len() - i,
    {
        proof {
            lemma_rest_ends(a@, i);
            lemma_rest_ends(b@, i);
        }
        if i == a.len() {
            if i == b.len() {
                return Ordering::Equal;
            } else {
                return Ordering::Less;
            }
        }
        if i == b.len() {
            return Ordering::Greater;
        }
        proof {
            lemma_rest_step(a@, i);
            lemma_rest_step(b@, i);
        }
        if a[i] != b[i] {
            return cmp_u8(a[i], b[i]);
        }
        i += 1;
    }
}

/// Compares two names, as options of slices are compared.
pub fn cmp_name(a: &Option<Vec<u8>>, b: &Option<Vec<u8>>) -> (o: Ordering)
    ensures
        o == name_order(name_bytes(*a), name_bytes(*b)),
{
    match (a, b) {
        (None, None) => Ordering::Equal,
        (None, Some(_)) => Ordering::Less,
        (Some(_), None) => Ordering::Greater,
        (Some(x), Some(y)) => cmp_bytes(x.as_slice(), y.as_slice()),
    }
}

/// A sequence of bytes is equal to itself in the order of bytes.
pub proof fn lemma_lex_order_same(a: Seq<u8>)
    ensures
        lex_order(a, a) == Ordering::Equal,
    decreases a.len(),
{
    if a.len() > 0 {
        lemma_lex_order_same(a.drop_first());
    }
}

/// Two sequences of bytes are in the order `Equal` just when they are the
/// same.
pub proof fn lemma_lex_order_equal(a: Seq<u8>, b: Seq<u8>)
    ensures
        lex_order(a, b) == Ordering::Equal <==> a == b,
    decreases a.len(),
{
    if a.len() > 0 && b.len() > 0 {
        lemma_lex_order_equal(a.drop_first(), b.drop_first());
        if a[0] == b[0] && a.drop_first() == b.drop_first() {
            assert(a =~= seq![a[0]] + a.drop_first());
            assert(b =~= seq![b[0]] + b.drop_first());
        }
    } else if a.len() == 0 && b.len() == 0 {
        assert(a =~= b);
    }
}

/// Two names are in the order `Equal` just when they are the same.
pub proof fn lemma_name_order_equal(a: Option<Seq<u8>>, b: Option<Seq<u8>>)
    ensures
        name_order(a, b) == Ordering::Equal <==> a == b,
{
    match (a, b) {
        (Some(x), Some(y)) => {
            lemma_lex_order_equal(x, y);
        },
        _ => {},
    }
}

} // verus!
