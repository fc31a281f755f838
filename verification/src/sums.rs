use vstd::prelude::*;

verus! {

/// Sum of a sequence of wide integers, as an unbounded integer.
pub open spec fn sum_i128(s: Seq<i128>) -> int
    decreases s.len(),
{
    if s.len() == 0 {
        0
    } else {
        sum_i128(s.drop_last()) + s.last()
    }
}

/// Replacing one element changes the sum by the difference.
pub proof fn lemma_sum_i128_update(s: Seq<i128>, i: int, v: i128)
    requires
        0 <= i < s.len(),
    ensures
        sum_i128(s.update(i, v)) == sum_i128(s) - s[i] + v,
    decreases s.len(),
{
    if i == s.len() - 1 {
        assert(s.update(i, v).drop_last() =~= s.drop_last());
    } else {
        assert(s.update(i, v).drop_last() =~= s.drop_last().update(i, v));
        lemma_sum_i128_update(s.drop_last(), i, v);
    }
}

/// In a sequence of nonnegative values, every element is at most the sum.
pub proof fn lemma_sum_i128_elem_bound(s: Seq<i128>, i: int)
    requires
        0 <= i < s.len(),
        forall|k: int| 0 <= k < s.len() ==> s[k] >= 0,
    ensures
        s[i] <= sum_i128(s),
        sum_i128(s) >= 0,
    decreases s.len(),
{
    if s.len() == 1 {
    } else if i == s.len() - 1 {
        lemma_sum_i128_elem_bound(s.drop_last(), 0);
    } else {
        lemma_sum_i128_elem_bound(s.drop_last(), i);
    }
}

/// The sum of a prefix one element longer grows by that element.
pub proof fn lemma_sum_i128_take_step(s: Seq<i128>, i: int)
    requires
        0 <= i < s.len(),
    ensures
        sum_i128(s.take(i + 1)) == sum_i128(s.take(i)) + s[i],
{
    assert(s.take(i + 1).drop_last() =~= s.take(i));
    assert(s.take(i + 1).last() == s[i]);
}

/// A full-length prefix is the sequence itself.
pub proof fn lemma_sum_i128_take_all(s: Seq<i128>)
    ensures
        sum_i128(s.take(s.len() as int)) == sum_i128(s),
{
    assert(s.take(s.len() as int) =~= s);
}

/// Sum of a sequence of machine integers, as an unbounded integer.
pub open spec fn sum_i64(s: Seq<i64>) -> int
    decreases s.len(),
{
    if s.len() == 0 {
        0
    } else {
        sum_i64(s.drop_last()) + s.last()
    }
}

/// Appending one element grows the sum by that element.
pub proof fn lemma_sum_i64_push(s: Seq<i64>, v: i64)
    ensures
        sum_i64(s.push(v)) == sum_i64(s) + v,
{
    assert(s.push(v).drop_last() =~= s);
    assert(s.push(v).last() == v);
}

/// A sequence of zeros sums to zero.
pub proof fn lemma_sum_i128_zero(s: Seq<i128>)
    requires
        forall|i: int| 0 <= i < s.len() ==> s[i] == 0,
    ensures
        sum_i128(s) == 0,
    decreases s.len(),
{
    if s.len() > 0 {
        lemma_sum_i128_zero(s.drop_last());
    }
}

} // verus!
