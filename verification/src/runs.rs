//! Facts about runs of characters.

use vstd::prelude::*;
use crate::grammar::{decimal, digit_value, leading, member, Class};

verus! {

/// A run is no longer than the input.
pub proof fn lemma_leading_bound(i: Seq<char>, k: Class)
    ensures
        leading(i, k) <= i.len(),
    decreases i.len(),
{
    if i.len() > 0 && member(k, i[0]) {
        lemma_leading_bound(i.skip(1), k);
    }
}

/// Every character of a run belongs to the class, and the character behind
/// the run, if there is one, does not.
pub proof fn lemma_leading_members(i: Seq<char>, k: Class)
    ensures
        forall|j: int| 0 <= j < leading(i, k) ==> member(k, #[trigger] i[j]),
        leading(i, k) < i.len() ==> !member(k, i[leading(i, k) as int]),
    decreases i.len(),
{
    if i.len() > 0 && member(k, i[0]) {
        lemma_leading_members(i.skip(1), k);
        lemma_leading_bound(i.skip(1), k);
        assert forall|j: int| 0 <= j < leading(i, k) implies member(k, #[trigger] i[j]) by {
            if j > 0 {
                assert(i[j] == i.skip(1)[j - 1]);
            }
        }
        if leading(i, k) < i.len() {
            assert(i[leading(i, k) as int] == i.skip(1)[leading(i.skip(1), k) as int]);
        }
    }
}

/// A run of `n` characters: the first `n` belong to the class and the next
/// one, if there is one, does not.
pub proof fn lemma_leading_is(i: Seq<char>, k: Class, n: nat)
    requires
        n <= i.len(),
        forall|j: int| 0 <= j < n ==> member(k, #[trigger] i[j]),
        n < i.len() ==> !member(k, i[n as int]),
    ensures
        leading(i, k) == n,
    decreases n,
{
    if n > 0 {
        assert(member(k, i[0]));
        assert forall|j: int| 0 <= j < n - 1 implies member(k, #[trigger] i.skip(1)[j]) by {
            assert(i.skip(1)[j] == i[j + 1]);
        }
        lemma_leading_is(i.skip(1), k, (n - 1) as nat);
    }
}

/// The run of the first `n` characters of `i` is the run of `i`, cut at `n`.
pub proof fn lemma_leading_take(i: Seq<char>, k: Class, n: nat)
    requires
        n <= i.len(),
    ensures
        leading(i.take(n as int), k) == (if leading(i, k) <= n {
            leading(i, k)
        } else {
            n
        }),
{
    lemma_leading_members(i, k);
    lemma_leading_bound(i, k);
    let m = if leading(i, k) <= n {
        leading(i, k)
    } else {
        n
    };
    lemma_leading_is(i.take(n as int), k, m);
}

/// The run of `a` followed by `b` ends in `a` if it does so in `a` alone,
/// and else goes on with the run of `b`.
pub proof fn lemma_leading_concat(a: Seq<char>, b: Seq<char>, k: Class)
    ensures
        leading(a + b, k) == (if leading(a, k) == a.len() {
            a.len() + leading(b, k)
        } else {
            leading(a, k)
        }),
{
    lemma_leading_members(a, k);
    lemma_leading_members(b, k);
    lemma_leading_bound(a, k);
    lemma_leading_bound(b, k);
    let n = if leading(a, k) == a.len() {
        a.len() + leading(b, k)
    } else {
        leading(a, k)
    };
    assert forall|j: int| 0 <= j < n implies member(k, #[trigger] (a + b)[j]) by {
        if j >= a.len() {
            assert((a + b)[j] == b[j - a.len()]);
        }
    }
    if n < (a + b).len() {
        if leading(a, k) == a.len() {
            assert((a + b)[n as int] == b[leading(b, k) as int]);
        }
    }
    lemma_leading_is(a + b, k, n);
}

/// The number of a run of digits with one more digit behind it.
pub proof fn lemma_decimal_push(digits: Seq<char>, c: char)
    ensures
        decimal(digits.push(c)) == decimal(digits) * 10 + digit_value(c),
{
    assert(digits.push(c).drop_last() =~= digits);
}

/// The number of the first digits is at most the number of them all.
pub proof fn lemma_decimal_prefix(digits: Seq<char>, n: nat)
    requires
        n <= digits.len(),
    ensures
        decimal(digits.take(n as int)) <= decimal(digits),
    decreases digits.len() - n,
{
    if n < digits.len() {
        lemma_decimal_prefix(digits, n + 1);
        assert(digits.take(n + 1 as int).drop_last() =~= digits.take(n as int));
    } else {
        assert(digits.take(n as int) =~= digits);
    }
}

} // verus!
