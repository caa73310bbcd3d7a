//! Small facts about sequences that the other modules share.
use vstd::prelude::*;

verus! {

/// What is left of `s` from the position `from` on.
pub open spec fn rest<T>(s: Seq<T>, from: usize) -> Seq<T> {
    s.skip(from as int)
}

/// The item of `s` at the position `i`.
pub open spec fn at<T>(s: Seq<T>, i: usize) -> T {
    s[i as int]
}

/// The first `n` items of `s`.
pub open spec fn upto<T>(s: Seq<T>, n: usize) -> Seq<T> {
    s.take(n as int)
}

/// The first half of `s`, the shorter one where the two differ in length.
pub open spec fn first_half<T>(s: Seq<T>) -> Seq<T> {
    s.take((s.len() / 2) as int)
}

/// The second half of `s`.
pub open spec fn second_half<T>(s: Seq<T>) -> Seq<T> {
    s.skip((s.len() / 2) as int)
}

/// The number before `n`.
pub open spec fn pred(n: usize) -> usize {
    (n - 1) as usize
}

/// The number `n` as a natural number.
pub open spec fn nat_of(n: usize) -> nat {
    n as nat
}

/// What is left of a sequence from `from` on is its item at `from` and what is left after it.
pub proof fn lemma_rest_step<T>(s: Seq<T>, from: usize)
    requires
        from < s.len() <= usize::MAX,
    ensures
        rest(s, from).len() == s.len() - from,
        rest(s, from)[0] == s[from as int],
        rest(s, from).drop_first() == rest(s, (from + 1) as usize),
{
    assert(rest(s, from).drop_first() =~= rest(s, (from + 1) as usize));
}

/// What is left of a sequence from its start on is the sequence, and from its end on nothing.
pub proof fn lemma_rest_ends<T>(s: Seq<T>, from: usize)
    requires
        from <= s.len(),
    ensures
        rest(s, from).len() == s.len() - from,
        from == 0 ==> rest(s, from) == s,
        forall|i: int| 0 <= i < s.len() - from ==> #[trigger] rest(s, from)[i] == s[from + i],
{
    if from == 0 {
        assert(rest(s, from) =~= s);
    }
}

/// A sequence is its two halves, one after the other.
pub proof fn lemma_halves<T>(s: Seq<T>, mid: usize)
    requires
        mid == s.len() / 2,
        s.len() >= 2,
    ensures
        first_half(s) == s.subrange(0, mid as int),
        second_half(s) == s.subrange(mid as int, s.len() as int),
        first_half(s).len() < s.len(),
        second_half(s).len() < s.len(),
        first_half(s) + second_half(s) == s,
{
    assert(first_half(s) + second_half(s) =~= s);
}

/// Joining sequences of bytes gives the same whichever two are joined first.
pub broadcast proof fn lemma_add_assoc(a: Seq<u8>, b: Seq<u8>, c: Seq<u8>)
    ensures
        #[trigger] ((a + b) + c) == a + (b + c),
{
    assert((a + b) + c =~= a + (b + c));
}

/// Joining the empty sequence to a sequence of bytes leaves it as it is.
pub broadcast proof fn lemma_add_empty(a: Seq<u8>)
    ensures
        #[trigger] (a + Seq::<u8>::empty()) == a,
        #[trigger] (Seq::<u8>::empty() + a) == a,
{
    assert(a + Seq::<u8>::empty() =~= a);
    assert(Seq::<u8>::empty() + a =~= a);
}

pub broadcast group group_bytes {
    lemma_add_assoc,
    lemma_add_empty,
}

} // verus!
