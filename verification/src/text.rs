//! Characters in and out of strings.

use vstd::prelude::*;
use crate::grammar::{decimal, digit_value};
use crate::runs::{lemma_decimal_prefix, lemma_decimal_push};

verus! {

/// Appends one character to a string: `String::push`.
#[verifier::external_body]
pub(crate) fn push_char(out: &mut String, c: char)
    ensures
        final(out)@ == old(out)@.push(c),
{
    out.push(c)
}

/// The characters of `s`, in order.
pub fn chars_of(s: &str) -> (v: Vec<char>)
    ensures
        v@ == s@,
{
    let mut v: Vec<char> = Vec::new();
    let mut it = s.chars();
    for c in iter: it
        invariant
            v@ == iter.seq().take(iter.index@),
    {
        v.push(c);
    }
    v
}

/// A string made of the characters of `chars`, in order.
pub fn string_of(chars: &[char]) -> (s: String)
    ensures
        s@ == chars@,
{
    let mut s = String::new();
    let mut k: usize = 0;
    while k < chars.len()
        invariant
            k <= chars@.len(),
            s@ == chars@.take(k as int),
        decreases chars@.len() - k,
    {
        push_char(&mut s, chars[k]);
        k += 1;
        assert(chars@.take(k as int) == chars@.take(k - 1).push(chars@[k - 1]));
    }
    assert(chars@.take(k as int) == chars@);
    s
}

/// The number that a digit stands for.
pub fn digit_of(c: char) -> (d: u128)
    ensures
        d == digit_value(c),
        d <= 9,
{
    if '0' <= c && c <= '9' {
        (c as u128) - ('0' as u128)
    } else {
        0
    }
}

/// The number that a run of digits stands for, if it is at most `limit`.
pub fn decimal_up_to(digits: &[char], limit: u128) -> (r: Option<u128>)
    requires
        limit >= 9,
    ensures
        r == (if decimal(digits@) <= limit {
            Some(decimal(digits@) as u128)
        } else {
            None
        }),
{
    let mut value: u128 = 0;
    let mut k: usize = 0;
    assert(digits@.take(0) =~= Seq::<char>::empty());
    while k < digits.len()
        invariant
            k <= digits@.len(),
            limit >= 9,
            value == decimal(digits@.take(k as int)),
            value <= limit,
        decreases digits@.len() - k,
    {
        let d = digit_of(digits[k]);
        proof {
            assert(digits@.take(k + 1) =~= digits@.take(k as int).push(digits@[k as int]));
            lemma_decimal_push(digits@.take(k as int), digits@[k as int]);
            lemma_decimal_prefix(digits@, (k + 1) as nat);
        }
        if value > (limit - d) / 10 {
            return None;
        }
        value = value * 10 + d;
        k += 1;
    }
    assert(digits@.take(k as int) =~= digits@);
    Some(value)
}

/// Texts can be joined in any grouping.
pub broadcast proof fn lemma_concat_assoc(a: Seq<char>, b: Seq<char>, c: Seq<char>)
    ensures
        #[trigger] ((a + b) + c) == a + (b + c),
{
    assert((a + b) + c =~= a + (b + c));
}

/// Joining the empty text to a text changes nothing.
pub broadcast proof fn lemma_concat_empty(a: Seq<char>)
    ensures
        #[trigger] (a + Seq::<char>::empty()) == a,
        #[trigger] (Seq::<char>::empty() + a) == a,
{
    assert(a + Seq::<char>::empty() =~= a);
    assert(Seq::<char>::empty() + a =~= a);
}

pub broadcast group group_concat {
    lemma_concat_assoc,
    lemma_concat_empty,
}

} // verus!
