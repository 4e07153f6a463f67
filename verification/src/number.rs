//! Numbers in decimal notation, kept as they are written.
//!
//! A [`Number`] holds the text of a number, so that `1.50` is written back
//! as `1.50`. Two numbers are equal where their texts are. What single
//! precision makes of a number is decided from its digits: a number is
//! taken only if its magnitude is below 2^128 - 2^103, and
//! [`Number::is_zero`] says whether it is at most 2^-150.

use vstd::prelude::*;
use crate::grammar;
use crate::grammar::{
    exponent, is_number, leading, mantissa, recognize_float, starts_with, starts_with_sign, Class,
    Fault,
};
use crate::runs::{lemma_leading_bound, lemma_leading_take};
use crate::text::{chars_of, string_of};

verus! {

/// A number in decimal notation: an optional sign, digits with or without a
/// point, and an optional power of ten. The text is kept as it is, so that
/// writing the number gives back what was read.
#[derive(Debug, PartialEq, Eq, Hash)]
pub struct Number {
    text: String,
}

impl View for Number {
    type V = Seq<char>;

    closed spec fn view(&self) -> Seq<char> {
        self.text@
    }
}

impl Clone for Number {
    fn clone(&self) -> (r: Number)
        ensures
            r@ == self@,
    {
        proof {
            use_type_invariant(self);
        }
        Number { text: self.text.clone() }
    }
}

impl Number {
    #[verifier::type_invariant]
    spec fn well_formed(self) -> bool {
        grammar::is_float(self.text@)
    }

    /// The number whose text is `text`, if it is one: an optional sign,
    /// digits with or without a point (`12`, `12.`, `12.5`, `.5`), and an
    /// optional power of ten (`e` or `E`, an optional sign, digits); and
    /// in magnitude below what single precision can hold.
    pub fn new(text: &str) -> (r: Option<Number>)
        ensures
            match r {
                Some(number) => number@ == text@ && grammar::is_float(text@),
                None => !grammar::is_float(text@),
            },
    {
        let chars = chars_of(text);
        match crate::read::recognize_float(chars.as_slice()) {
            Ok((rest, _)) => {
                proof {
                    lemma_recognized_is_number(chars@);
                    assert(chars@.take(chars@.len() as int) =~= chars@);
                    reveal(recognize_float);
                }
                if rest.len() == 0 && crate::magnitude::finite(chars.as_slice()) {
                    Some(Number { text: text.to_owned() })
                } else {
                    None
                }
            },
            Err(_) => None,
        }
    }

    /// The number whose text is made of the given characters.
    pub fn of(text: &[char]) -> (r: Number)
        requires
            grammar::is_float(text@),
        ensures
            r@ == text@,
    {
        Number { text: string_of(text) }
    }

    /// The number zero, written `0`.
    pub fn zero() -> (r: Number)
        ensures
            r@ == grammar::zero(),
    {
        let text = ['0'];
        proof {
            assert(text@ =~= grammar::zero());
            lemma_zero_is_number();
            lemma_zero_is_finite();
        }
        Number { text: string_of(text.as_slice()) }
    }

    /// The text of the number, which is a number in decimal notation.
    pub fn as_str(&self) -> (s: &str)
        ensures
            s@ == self@,
            grammar::is_float(self@),
    {
        proof {
            use_type_invariant(self);
        }
        self.text.as_str()
    }

    /// Whether the number is zero in single precision: whether its
    /// magnitude is at most 2^-150.
    pub fn is_zero(&self) -> (b: bool)
        ensures
            b == grammar::is_zero(self@),
    {
        let chars = chars_of(self.text.as_str());
        crate::magnitude::vanishes(chars.as_slice())
    }
}

/// What the digits of a number leave behind is the end of the input, and
/// they are at least one character.
pub proof fn lemma_mantissa_rest(i: Seq<char>)
    requires
        mantissa(i) is Ok,
    ensures
        mantissa(i)->Ok_0.0.len() < i.len(),
        mantissa(i)->Ok_0.0 == i.skip(i.len() - mantissa(i)->Ok_0.0.len()),
{
    let whole = leading(i, Class::Digit) as int;
    lemma_leading_bound(i, Class::Digit);
    if whole > 0 {
        let after = i.skip(whole as int);
        if starts_with(after, '.') {
            lemma_leading_bound(after.skip(1), Class::Digit);
            let d = leading(after.skip(1), Class::Digit) as int;
            assert(after.skip(1 + d) =~= i.skip(whole + 1 + d));
        }
    } else {
        lemma_leading_bound(i.skip(1), Class::Digit);
        let d = leading(i.skip(1), Class::Digit) as int;
        assert(i.skip(1).skip(d as int) =~= i.skip(1 + d));
    }
}

/// The digits of a number are read alike from an input that ends anywhere
/// behind them.
pub proof fn lemma_mantissa_take(i: Seq<char>, m: nat)
    requires
        mantissa(i) is Ok,
        i.len() - mantissa(i)->Ok_0.0.len() <= m <= i.len(),
    ensures
        mantissa(i.take(m as int)) == Ok::<_, Fault>(
            (i.take(m as int).skip(i.len() - mantissa(i)->Ok_0.0.len()), ()),
        ),
{
    lemma_mantissa_rest(i);
    let t = i.take(m as int);
    let whole = leading(i, Class::Digit) as int;
    lemma_leading_bound(i, Class::Digit);
    lemma_leading_take(i, Class::Digit, m);
    if whole > 0 {
        let after = i.skip(whole as int);
        if starts_with(after, '.') {
            let d = leading(after.skip(1), Class::Digit) as int;
            lemma_leading_bound(after.skip(1), Class::Digit);
            assert(after.skip(1 + d) =~= i.skip(whole + 1 + d));
            assert(t.skip(whole as int) =~= after.take(m - whole));
            lemma_leading_take(after.skip(1), Class::Digit, (m - whole - 1) as nat);
            assert(t.skip(whole as int).skip(1) =~= after.skip(1).take(m - whole - 1));
            assert(t.skip(whole as int).skip(1 + d) =~= t.skip(whole + 1 + d));
        } else {
            assert(t.skip(whole as int) =~= after.take(m - whole));
        }
    } else {
        let d = leading(i.skip(1), Class::Digit) as int;
        lemma_leading_bound(i.skip(1), Class::Digit);
        assert(i.skip(1).skip(d as int) =~= i.skip(1 + d));
        assert(t.skip(1) =~= i.skip(1).take(m - 1));
        lemma_leading_take(i.skip(1), Class::Digit, (m - 1) as nat);
        assert(t.skip(1).skip(d as int) =~= t.skip(1 + d));
        assert(t.skip(1).take(d as int) =~= i.skip(1).take(d as int));
    }
}

/// What a power of ten leaves behind is the end of the input.
pub proof fn lemma_exponent_rest(i: Seq<char>)
    requires
        exponent(i) is Ok,
    ensures
        exponent(i)->Ok_0.0.len() <= i.len(),
        exponent(i)->Ok_0.0 == i.skip(i.len() - exponent(i)->Ok_0.0.len()),
{
    if starts_with(i, 'e') || starts_with(i, 'E') {
        let after = if starts_with_sign(i.skip(1)) {
            i.skip(2)
        } else {
            i.skip(1)
        };
        let d = leading(after, Class::Digit) as int;
        lemma_leading_bound(after, Class::Digit);
        if starts_with_sign(i.skip(1)) {
            assert(i.skip(2).skip(d as int) =~= i.skip(2 + d));
        } else {
            assert(i.skip(1).skip(d as int) =~= i.skip(1 + d));
        }
    } else {
        assert(i.skip(0) =~= i);
    }
}

/// A power of ten is read alike from an input that ends anywhere behind it.
pub proof fn lemma_exponent_take(i: Seq<char>, m: nat)
    requires
        exponent(i) is Ok,
        i.len() - exponent(i)->Ok_0.0.len() <= m <= i.len(),
    ensures
        exponent(i.take(m as int)) == Ok::<_, Fault>(
            (i.take(m as int).skip(i.len() - exponent(i)->Ok_0.0.len()), ()),
        ),
{
    lemma_exponent_rest(i);
    let t = i.take(m as int);
    if starts_with(i, 'e') || starts_with(i, 'E') {
        let signed = starts_with_sign(i.skip(1));
        let s: int = if signed {
            2
        } else {
            1
        };
        let after = i.skip(s);
        let d = leading(after, Class::Digit) as int;
        lemma_leading_bound(after, Class::Digit);
        assert(after.skip(d as int) =~= i.skip(s + d));
        assert(t.skip(1) =~= i.skip(1).take(m - 1));
        assert(t.skip(s) =~= after.take(m - s));
        lemma_leading_take(after, Class::Digit, (m - s) as nat);
        assert(t.skip(s).skip(d as int) =~= t.skip(s + d));
        assert(t.skip(s).take(d as int) =~= after.take(d as int));
    } else {
        assert(i.skip(0) =~= i);
        assert(t.skip(0) =~= t);
    }
}

/// What was read as a number is a number when it stands alone, and the
/// input behind it is what the rule leaves.
pub proof fn lemma_recognized_is_number(i: Seq<char>)
    requires
        recognize_float(i) is Ok,
    ensures
        is_number(recognize_float(i)->Ok_0.1),
        recognize_float(i)->Ok_0.1.len() > 0,
        recognize_float(i)->Ok_0.1.len() <= i.len(),
        recognize_float(i)->Ok_0.1 == i.take(recognize_float(i)->Ok_0.1.len() as int),
        recognize_float(i)->Ok_0.0 == i.skip(recognize_float(i)->Ok_0.1.len() as int),
{
    reveal(recognize_float);
    let s: int = if starts_with_sign(i) {
        1
    } else {
        0
    };
    let a = i.skip(s);
    assert(i.skip(0) =~= i);
    lemma_mantissa_rest(a);
    let r1 = mantissa(a)->Ok_0.0;
    let c1 = a.len() - r1.len();
    lemma_exponent_rest(r1);
    let rest = exponent(r1)->Ok_0.0;
    let c2 = r1.len() - rest.len();
    let n = s + c1 + c2;
    let t = i.take(n);
    assert(recognize_float(i)->Ok_0.1 == t);
    assert(a.skip(c1).skip(c2) =~= i.skip(n));
    assert(starts_with_sign(t) == starts_with_sign(i));
    assert(t.skip(0) =~= t);
    let ta = t.skip(s);
    assert(ta =~= a.take(c1 + c2));
    lemma_mantissa_take(a, (c1 + c2) as nat);
    assert(ta.skip(c1) =~= r1.take(c2));
    lemma_exponent_take(r1, c2 as nat);
    assert(r1.take(c2).skip(c2) =~= Seq::<char>::empty());
    assert(t.take(t.len() - 0) =~= t);
}

/// `0` has a place in single precision.
pub proof fn lemma_zero_is_finite()
    ensures
        grammar::finite(grammar::zero()),
{
    let z = grammar::zero();
    assert(z.skip(1) =~= Seq::<char>::empty());
    assert(grammar::significand(z.skip(1)) =~= Seq::<char>::empty());
    assert(grammar::significand(z) =~= seq!['0']);
    assert(grammar::fraction(z.skip(1)) == 0);
    assert(grammar::fraction(z) == 0);
    assert(grammar::power(z.skip(1)) == 0);
    assert(grammar::power(z) == 0);
    assert(seq!['0'].drop_last() =~= Seq::<char>::empty());
    assert(grammar::decimal(Seq::<char>::empty()) == 0);
    assert(grammar::decimal(seq!['0']) == 0);
    assert(grammar::pow10(0) == 1);
}

/// `0` is a number.
pub proof fn lemma_zero_is_number()
    ensures
        is_number(grammar::zero()),
{
    reveal(recognize_float);
    let z = grammar::zero();
    assert(z.skip(1) =~= Seq::<char>::empty());
    assert(leading(z.skip(1), Class::Digit) == 0);
    assert(leading(z, Class::Digit) == 1);
    assert(z.take(1) =~= z);
    assert(recognize_float(z)->Ok_0.0 =~= Seq::<char>::empty());
}

} // verus!
