//! How the smallest rules read what was written.

use vstd::prelude::*;
use crate::grammar::{
    char, decimal, digit1, exponent, is_digit, is_number, leading, mantissa, member,
    non_shared_seed, non_zero_u32, not_line_ending, recognize_float, shared_seed, space1,
    starts_with, starts_with_sign, tag, Class, Fault,
};
use crate::notation::{digit, digits, integer};
use crate::read::Rule;
use crate::runs::{
    lemma_decimal_push, lemma_leading_bound, lemma_leading_concat, lemma_leading_is,
    lemma_leading_members,
};
use crate::types::Positive;

verus! {

/// Whether a run of the class `k` ends where `tail` starts.
pub open spec fn ends_run(tail: Seq<char>, k: Class) -> bool {
    tail.len() == 0 || !member(k, tail[0])
}

/// Whether every character of `text` belongs to the class `k`.
pub open spec fn all_of(text: Seq<char>, k: Class) -> bool {
    forall|j: int| 0 <= j < text.len() ==> member(k, #[trigger] text[j])
}

/// A text with another behind it splits where the first ends.
pub proof fn lemma_split(a: Seq<char>, tail: Seq<char>)
    ensures
        (a + tail).skip(a.len() as int) == tail,
        (a + tail).take(a.len() as int) == a,
        a.is_prefix_of(a + tail),
{
    assert((a + tail).skip(a.len() as int) =~= tail);
    assert((a + tail).take(a.len() as int) =~= a);
    assert((a + tail).subrange(0, a.len() as int) =~= a);
}

/// A run that fills `a` and ends where `tail` starts is the run of `a`
/// followed by `tail`.
pub proof fn lemma_run(a: Seq<char>, tail: Seq<char>, k: Class)
    requires
        all_of(a, k),
        ends_run(tail, k),
    ensures
        leading(a + tail, k) == a.len(),
{
    assert forall|j: int| 0 <= j < a.len() implies member(k, #[trigger] (a + tail)[j]) by {
        assert((a + tail)[j] == a[j]);
    }
    if a.len() < (a + tail).len() {
        assert((a + tail)[a.len() as int] == tail[0]);
    }
    lemma_leading_is(a + tail, k, a.len());
}

/// A text is read back as itself.
pub proof fn lemma_tag(t: Seq<char>, tail: Seq<char>)
    ensures
        tag(t + tail, t) == Ok::<_, Fault>((tail, ())),
{
    lemma_split(t, tail);
}

/// A text that differs from `t` in some place where both have a character
/// does not start with `t`.
pub proof fn lemma_not_tag(i: Seq<char>, t: Seq<char>, at: int)
    requires
        0 <= at < t.len(),
        at < i.len() ==> i[at] != t[at],
    ensures
        tag(i, t) == crate::grammar::fail::<()>(i, Rule::Tag),
{
    if t.is_prefix_of(i) {
        assert(i.subrange(0, t.len() as int)[at] == t[at]);
    }
}

/// One space is read as the spaces before anything that is no space.
pub proof fn lemma_space(tail: Seq<char>)
    requires
        ends_run(tail, Class::Space),
    ensures
        space1(seq![' '] + tail) == Ok::<_, Fault>((tail, seq![' '])),
{
    lemma_run(seq![' '], tail, Class::Space);
    lemma_split(seq![' '], tail);
}

/// A text without line breaks is read as the rest of its line.
pub proof fn lemma_rest_of_line(text: Seq<char>, tail: Seq<char>)
    requires
        all_of(text, Class::NotBreak),
        tail.len() == 0 || tail[0] == '\n',
    ensures
        not_line_ending(text + tail) == Ok::<_, Fault>((tail, text)),
{
    lemma_run(text, tail, Class::NotBreak);
    lemma_split(text, tail);
    if tail.len() > 0 {
        assert((text + tail)[text.len() as int] == tail[0]);
    }
}

/// The digits of a number are digits, at least one, and the first is `0`
/// for zero only.
pub proof fn lemma_digits_shape(n: nat)
    ensures
        digits(n).len() >= 1,
        all_of(digits(n), Class::Digit),
        n >= 1 ==> '1' <= digits(n)[0] <= '9',
        n == 0 ==> digits(n) == seq!['0'],
    decreases n,
{
    if n >= 10 {
        lemma_digits_shape(n / 10);
        let d = digits(n / 10);
        assert forall|j: int| 0 <= j < digits(n).len() implies member(
            Class::Digit,
            #[trigger] digits(n)[j],
        ) by {
            if j < d.len() {
                assert(digits(n)[j] == d[j]);
            }
        }
        assert(digits(n)[0] == d[0]);
    }
}

/// The digits of a number stand for that number.
pub proof fn lemma_decimal_digits(n: nat)
    ensures
        decimal(digits(n)) == n,
    decreases n,
{
    if n >= 10 {
        lemma_decimal_digits(n / 10);
        lemma_decimal_push(digits(n / 10), digit(n % 10));
    } else {
        lemma_decimal_push(Seq::<char>::empty(), digit(n));
        assert(Seq::<char>::empty().push(digit(n)) =~= digits(n));
    }
}

/// The digits of a number are read as its digits before anything that is
/// no digit.
pub proof fn lemma_digit1(n: nat, tail: Seq<char>)
    requires
        ends_run(tail, Class::Digit),
    ensures
        digit1(digits(n) + tail) == Ok::<_, Fault>((tail, digits(n))),
{
    lemma_digits_shape(n);
    lemma_run(digits(n), tail, Class::Digit);
    lemma_split(digits(n), tail);
}

/// A shared seed is read back.
pub proof fn lemma_shared_seed(n: u32, tail: Seq<char>)
    requires
        ends_run(tail, Class::Digit),
    ensures
        shared_seed(digits(n as nat) + tail) == Ok::<_, Fault>((tail, n)),
{
    lemma_digit1(n as nat, tail);
    lemma_decimal_digits(n as nat);
}

/// A non-shared seed is read back.
pub proof fn lemma_non_shared_seed(n: i64, tail: Seq<char>)
    requires
        ends_run(tail, Class::Digit),
    ensures
        non_shared_seed(integer(n as int) + tail) == Ok::<_, Fault>((tail, n)),
{
    if n < 0 {
        let m = (-n) as nat;
        lemma_digits_shape(m);
        lemma_digit1(m, tail);
        lemma_decimal_digits(m);
        let i = integer(n as int) + tail;
        assert(i =~= seq!['-'] + (digits(m) + tail));
        lemma_split(seq!['-'], digits(m) + tail);
        assert(i.skip(1) == digits(m) + tail);
    } else {
        let m = n as nat;
        lemma_digits_shape(m);
        lemma_digit1(m, tail);
        lemma_decimal_digits(m);
        assert((digits(m) + tail)[0] == digits(m)[0]);
    }
}

/// A count is read back.
pub proof fn lemma_non_zero_u32(count: Positive, tail: Seq<char>)
    requires
        count.value() >= 1,
        ends_run(tail, Class::Digit),
    ensures
        non_zero_u32(digits(count.value() as nat) + tail) == Ok::<_, Fault>((tail, count)),
{
    broadcast use crate::types::group_positive;

    let n = count.value() as nat;
    let d = digits(n);
    let i = d + tail;
    lemma_digits_shape(n);
    lemma_decimal_digits(n);
    assert(i[0] == d[0]);
    assert(i.skip(1) =~= d.skip(1) + tail);
    assert forall|j: int| 0 <= j < d.skip(1).len() implies member(
        Class::Digit,
        #[trigger] d.skip(1)[j],
    ) by {
        assert(d.skip(1)[j] == d[j + 1]);
    }
    lemma_run(d.skip(1), tail, Class::Digit);
    lemma_split(d, tail);
}

/// Whether a number ends where `tail` starts: no digit, point or `e` follows.
pub open spec fn ends_number(tail: Seq<char>) -> bool {
    tail.len() == 0 || !(is_digit(tail[0]) || tail[0] == '.' || tail[0] == 'e' || tail[0] == 'E')
}

/// The digits of a number are read alike with more behind them, where what
/// they left is not empty or no digit and no point follows.
pub proof fn lemma_mantissa_more(a: Seq<char>, tail: Seq<char>)
    requires
        mantissa(a) is Ok,
        mantissa(a)->Ok_0.0.len() > 0 || tail.len() == 0 || !(is_digit(tail[0]) || tail[0]
            == '.'),
    ensures
        mantissa(a + tail) == Ok::<_, Fault>((mantissa(a)->Ok_0.0 + tail, ())),
{
    let i = a + tail;
    let whole = leading(a, Class::Digit) as int;
    lemma_leading_bound(a, Class::Digit);
    lemma_leading_concat(a, tail, Class::Digit);
    if tail.len() == 0 {
        assert(a + tail =~= a);
        assert(mantissa(a)->Ok_0.0 + tail =~= mantissa(a)->Ok_0.0);
    } else if whole > 0 {
        let after = a.skip(whole);
        if whole == a.len() {
            assert(after =~= Seq::<char>::empty());
            assert(leading(tail, Class::Digit) == 0);
            assert(i.skip(whole) =~= tail);
            assert(after + tail =~= tail);
        } else {
            assert(i.skip(whole) =~= after + tail);
            assert((after + tail)[0] == after[0]);
            if starts_with(after, '.') {
                let f = after.skip(1);
                lemma_leading_bound(f, Class::Digit);
                lemma_leading_concat(f, tail, Class::Digit);
                assert((after + tail).skip(1) =~= f + tail);
                let d = leading(f, Class::Digit) as int;
                if d == f.len() {
                    assert(leading(tail, Class::Digit) == 0);
                }
                assert((after + tail).skip(1 + d) =~= after.skip(1 + d) + tail);
            }
        }
    } else {
        assert(i[0] == a[0]);
        let f = a.skip(1);
        lemma_leading_bound(f, Class::Digit);
        lemma_leading_concat(f, tail, Class::Digit);
        assert(i.skip(1) =~= f + tail);
        let d = leading(f, Class::Digit) as int;
        if d == f.len() {
            assert(leading(tail, Class::Digit) == 0);
        }
        assert((f + tail).skip(d) =~= f.skip(d) + tail);
        assert((f + tail).take(d) =~= f.take(d));
    }
}

/// A power of ten is read alike with more behind it, where no digit
/// follows, and no `e` where there is no power of ten.
pub proof fn lemma_exponent_more(a: Seq<char>, tail: Seq<char>)
    requires
        exponent(a) is Ok,
        exponent(a)->Ok_0.0.len() == 0,
        ends_number(tail),
    ensures
        exponent(a + tail) == Ok::<_, Fault>((tail, ())),
{
    let i = a + tail;
    if tail.len() == 0 {
        assert(a + tail =~= a);
        assert(exponent(a)->Ok_0.0 =~= tail);
    } else if starts_with(a, 'e') || starts_with(a, 'E') {
        assert(i[0] == a[0]);
        assert(i.skip(1) =~= a.skip(1) + tail);
        let s: int = if starts_with_sign(a.skip(1)) {
            2
        } else {
            1
        };
        let f = a.skip(s);
        if s == 2 {
            assert((a.skip(1) + tail)[0] == a.skip(1)[0]);
            assert(i.skip(2) =~= f + tail);
        } else {
            if a.skip(1).len() > 0 {
                assert((a.skip(1) + tail)[0] == a.skip(1)[0]);
            } else {
                assert(leading(f, Class::Digit) == 0);
            }
        }
        lemma_leading_bound(f, Class::Digit);
        lemma_leading_concat(f, tail, Class::Digit);
        let d = leading(f, Class::Digit) as int;
        assert(f.skip(d).len() == 0);
        assert(leading(tail, Class::Digit) == 0);
        assert((f + tail).skip(d) =~= tail);
        assert((f + tail).take(d) =~= f.take(d));
    } else {
        assert(a =~= Seq::<char>::empty());
        assert(i =~= tail);
    }
}

/// A number is read back as it is written, before anything that does not
/// go on with it.
pub proof fn lemma_number(text: Seq<char>, tail: Seq<char>)
    requires
        is_number(text),
        ends_number(tail),
    ensures
        recognize_float(text + tail) == Ok::<_, Fault>((tail, text)),
        text.len() > 0,
{
    reveal(recognize_float);
    let i = text + tail;
    let s: int = if starts_with_sign(text) {
        1
    } else {
        0
    };
    let a = text.skip(s);
    assert(text.skip(0) =~= text);
    crate::number::lemma_mantissa_rest(a);
    assert(text.len() > 0);
    assert(i[0] == text[0]);
    assert(i.skip(0) =~= i);
    assert(i.skip(s) =~= a + tail);
    let r1 = mantissa(a)->Ok_0.0;
    lemma_mantissa_more(a, tail);
    crate::number::lemma_exponent_rest(r1);
    if r1.len() > 0 {
        lemma_exponent_more(r1, tail);
    } else {
        assert(r1 + tail =~= tail);
    }
    assert(i.take(i.len() - tail.len()) =~= text);
}

/// Whether `c` can stand in a number.
pub open spec fn number_char(c: char) -> bool {
    is_digit(c) || c == '+' || c == '-' || c == '.' || c == 'e' || c == 'E'
}

/// What is read as the digits of a number are digits and at most one point.
pub proof fn lemma_mantissa_chars(a: Seq<char>)
    requires
        mantissa(a) is Ok,
    ensures
        forall|j: int|
            0 <= j < a.len() - mantissa(a)->Ok_0.0.len() ==> number_char(#[trigger] a[j]),
        is_digit(a[0]) || a[0] == '.',
{
    crate::number::lemma_mantissa_rest(a);
    lemma_leading_members(a, Class::Digit);
    lemma_leading_bound(a, Class::Digit);
    let whole = leading(a, Class::Digit) as int;
    if whole > 0 {
        let after = a.skip(whole);
        if starts_with(after, '.') {
            let f = after.skip(1);
            lemma_leading_members(f, Class::Digit);
            lemma_leading_bound(f, Class::Digit);
            assert forall|j: int| 0 <= j < whole + 1 + leading(f, Class::Digit) implies number_char(
                #[trigger] a[j],
            ) by {
                if j == whole {
                    assert(a[j] == after[0]);
                } else if j > whole {
                    assert(a[j] == f[j - whole - 1]);
                }
            }
        }
    } else {
        let f = a.skip(1);
        lemma_leading_members(f, Class::Digit);
        lemma_leading_bound(f, Class::Digit);
        assert forall|j: int| 0 <= j < 1 + leading(f, Class::Digit) implies number_char(
            #[trigger] a[j],
        ) by {
            if j > 0 {
                assert(a[j] == f[j - 1]);
            }
        }
    }
}

/// What is read as a power of ten is `e`, an optional sign, and digits.
pub proof fn lemma_exponent_chars(a: Seq<char>)
    requires
        exponent(a) is Ok,
    ensures
        forall|j: int|
            0 <= j < a.len() - exponent(a)->Ok_0.0.len() ==> number_char(#[trigger] a[j]),
{
    crate::number::lemma_exponent_rest(a);
    if starts_with(a, 'e') || starts_with(a, 'E') {
        let s: int = if starts_with_sign(a.skip(1)) {
            2
        } else {
            1
        };
        let f = a.skip(s);
        lemma_leading_members(f, Class::Digit);
        lemma_leading_bound(f, Class::Digit);
        assert forall|j: int| 0 <= j < s + leading(f, Class::Digit) implies number_char(
            #[trigger] a[j],
        ) by {
            if j == 0 {
            } else if j < s {
                assert(a[j] == a.skip(1)[0]);
            } else {
                assert(a[j] == f[j - s]);
            }
        }
    }
}

/// A number is made of digits, signs, a point and `e` only, and starts
/// with a sign, a digit or a point.
pub proof fn lemma_number_chars(text: Seq<char>)
    requires
        is_number(text),
    ensures
        text.len() > 0,
        forall|j: int| 0 <= j < text.len() ==> number_char(#[trigger] text[j]),
        is_digit(text[0]) || text[0] == '+' || text[0] == '-' || text[0] == '.',
{
    reveal(recognize_float);
    let s: int = if starts_with_sign(text) {
        1
    } else {
        0
    };
    let a = text.skip(s);
    assert(text.skip(0) =~= text);
    crate::number::lemma_mantissa_rest(a);
    let r1 = mantissa(a)->Ok_0.0;
    let c1 = a.len() - r1.len();
    crate::number::lemma_exponent_rest(r1);
    lemma_mantissa_chars(a);
    lemma_exponent_chars(r1);
    assert forall|j: int| 0 <= j < text.len() implies number_char(#[trigger] text[j]) by {
        if j < s {
        } else if j < s + c1 {
            assert(text[j] == a[j - s]);
        } else {
            assert(text[j] == r1[j - s - c1]);
        }
    }
    if s == 0 {
        assert(text[0] == a[0]);
    }
}

} // verus!
