//! Small facts about byte sequences that the codec proofs use over and over:
//! how `skip` interacts with concatenation, and how concatenation associates.

use vstd::prelude::*;

verus! {

/// Skipping past a prefix of a concatenation leaves the second operand.
pub proof fn lemma_concat_skip<T>(a: Seq<T>, b: Seq<T>)
    ensures
        (a + b).skip(a.len() as int) == b,
{
    assert((a + b).skip(a.len() as int) =~= b);
}

/// Taking the length of a prefix of a concatenation yields the first operand.
pub proof fn lemma_concat_take<T>(a: Seq<T>, b: Seq<T>)
    ensures
        (a + b).take(a.len() as int) == a,
{
    assert((a + b).take(a.len() as int) =~= a);
}

/// Two successive skips collapse into one.
pub proof fn lemma_skip_skip<T>(s: Seq<T>, a: int, b: int)
    requires
        0 <= a,
        0 <= b,
        a + b <= s.len(),
    ensures
        s.skip(a).skip(b) == s.skip(a + b),
{
    assert(s.skip(a).skip(b) =~= s.skip(a + b));
}

/// Concatenation of sequences is associative.
pub proof fn lemma_concat_assoc<T>(a: Seq<T>, b: Seq<T>, c: Seq<T>)
    ensures
        (a + b) + c == a + (b + c),
{
    assert((a + b) + c =~= a + (b + c));
}

} // verus!
