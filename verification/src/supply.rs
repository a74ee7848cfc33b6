use vstd::prelude::*;

verus! {

/// What one holding, keyed by owner and mint, adds to what circulates of `mint`.
pub open spec fn part(e: ((Seq<u8>, Seq<u8>), u64), mint: Seq<u8>) -> int {
    if e.0.1 == mint {
        e.1 as int
    } else {
        0
    }
}

/// The sum of the holdings of `mint` among `s`.
pub open spec fn total(s: Seq<((Seq<u8>, Seq<u8>), u64)>, mint: Seq<u8>) -> int
    decreases s.len(),
{
    if s.len() == 0 {
        0
    } else {
        total(s.drop_last(), mint) + part(s.last(), mint)
    }
}

/// A new holding adds its part to the sum.
pub proof fn lemma_total_push(
    s: Seq<((Seq<u8>, Seq<u8>), u64)>,
    e: ((Seq<u8>, Seq<u8>), u64),
    mint: Seq<u8>,
)
    ensures
        total(s.push(e), mint) == total(s, mint) + part(e, mint),
{
    assert(s.push(e).drop_last() =~= s);
}

/// A holding that changes takes its old part from the sum and adds its new one.
pub proof fn lemma_total_update(
    s: Seq<((Seq<u8>, Seq<u8>), u64)>,
    i: int,
    e: ((Seq<u8>, Seq<u8>), u64),
    mint: Seq<u8>,
)
    requires
        0 <= i < s.len(),
    ensures
        total(s.update(i, e), mint) == total(s, mint) - part(s[i], mint) + part(e, mint),
    decreases s.len(),
{
    let t = s.update(i, e);
    if i == s.len() - 1 {
        assert(t.drop_last() =~= s.drop_last());
    } else {
        assert(t.drop_last() =~= s.drop_last().update(i, e));
        lemma_total_update(s.drop_last(), i, e, mint);
    }
}

/// A holding that is taken out takes its part from the sum.
pub proof fn lemma_total_remove(s: Seq<((Seq<u8>, Seq<u8>), u64)>, i: int, mint: Seq<u8>)
    requires
        0 <= i < s.len(),
    ensures
        total(s.remove(i), mint) == total(s, mint) - part(s[i], mint),
    decreases s.len(),
{
    let t = s.remove(i);
    if i == s.len() - 1 {
        assert(t =~= s.drop_last());
    } else {
        assert(t.drop_last() =~= s.drop_last().remove(i));
        assert(t.last() == s.last());
        lemma_total_remove(s.drop_last(), i, mint);
    }
}

/// No holding is larger than the sum.
pub proof fn lemma_total_bounds(s: Seq<((Seq<u8>, Seq<u8>), u64)>, i: int, mint: Seq<u8>)
    requires
        0 <= i < s.len(),
    ensures
        0 <= part(s[i], mint) <= total(s, mint),
    decreases s.len(),
{
    lemma_total_nonnegative(s.drop_last(), mint);
    if i < s.len() - 1 {
        lemma_total_bounds(s.drop_last(), i, mint);
    }
}

/// The sum is not negative.
pub proof fn lemma_total_nonnegative(s: Seq<((Seq<u8>, Seq<u8>), u64)>, mint: Seq<u8>)
    ensures
        0 <= total(s, mint),
    decreases s.len(),
{
    if s.len() > 0 {
        lemma_total_nonnegative(s.drop_last(), mint);
    }
}

/// Two different holdings together are not larger than the sum.
pub proof fn lemma_total_two(s: Seq<((Seq<u8>, Seq<u8>), u64)>, i: int, j: int, mint: Seq<u8>)
    requires
        0 <= i < s.len(),
        0 <= j < s.len(),
        i != j,
    ensures
        part(s[i], mint) + part(s[j], mint) <= total(s, mint),
{
    lemma_total_remove(s, i, mint);
    let t = s.remove(i);
    let j1 = if j < i { j } else { j - 1 };
    assert(t[j1] == s[j]);
    lemma_total_bounds(t, j1, mint);
}

/// Where no holding is of `mint`, the sum is zero.
pub proof fn lemma_total_none(s: Seq<((Seq<u8>, Seq<u8>), u64)>, mint: Seq<u8>)
    requires
        forall|i: int| 0 <= i < s.len() ==> (#[trigger] s[i]).0.1 != mint,
    ensures
        total(s, mint) == 0,
    decreases s.len(),
{
    if s.len() > 0 {
        assert(s.last() == s[s.len() - 1]);
        assert forall|i: int| 0 <= i < s.drop_last().len() implies (#[trigger] s.drop_last()[i]).0.1
            != mint by {
            assert(s.drop_last()[i] == s[i]);
        }
        lemma_total_none(s.drop_last(), mint);
    }
}

} // verus!
