//! How large a number in decimal notation is.

use vstd::prelude::*;
use vstd::string::StrSliceExecFns;
use crate::grammar::{
    decimal, digit_value, fraction, is_digit, overflow, pow10, pow5, power, scaled_at_most,
    scaled_below, significand, starts_with,
};
use crate::read::{skip, take};
use crate::runs::lemma_decimal_push;
use crate::text::decimal_up_to;

verus! {

/// A power of ten is at least 1.
pub proof fn lemma_pow10_positive(n: nat)
    ensures
        pow10(n) >= 1,
    decreases n,
{
    if n > 0 {
        lemma_pow10_positive((n - 1) as nat);
    }
}

/// Ten to a sum is the product of the powers.
pub proof fn lemma_pow10_add(a: nat, b: nat)
    ensures
        pow10(a + b) == pow10(a) * pow10(b),
    decreases a,
{
    if a > 0 {
        let less = (a - 1) as nat;
        lemma_pow10_add(less, b);
        assert(pow10(a + b) == 10 * pow10((less + b) as nat));
        let x = pow10(less);
        let y = pow10(b);
        assert(10 * (x * y) == (10 * x) * y) by (nonlinear_arith);
        assert(pow10(a) == 10 * x);
    } else {
        assert(pow10(0) == 1);
        assert(1 * pow10(b) == pow10(b)) by (nonlinear_arith);
    }
}

/// A larger power of ten is no smaller.
pub proof fn lemma_pow10_grows(a: nat, b: nat)
    requires
        a <= b,
    ensures
        pow10(a) <= pow10(b),
{
    lemma_pow10_add(a, (b - a) as nat);
    lemma_pow10_positive((b - a) as nat);
    lemma_pow10_positive(a);
    assert(pow10(a) * 1 <= pow10(a) * pow10((b - a) as nat)) by (nonlinear_arith)
        requires
            pow10((b - a) as nat) >= 1,
            pow10(a) >= 1,
    ;
}

/// The limit of single precision lies between ten to the 38 and ten to the 39.
pub proof fn lemma_overflow_bounds()
    ensures
        pow10(38) < overflow() < pow10(39),
        pow10(38) == 100000000000000000000000000000000000000,
        pow10(39) == 1000000000000000000000000000000000000000,
{
    reveal_with_fuel(pow10, 40);
}

/// The number of digits with more digits behind them.
pub proof fn lemma_decimal_concat(a: Seq<char>, b: Seq<char>)
    ensures
        decimal(a + b) == decimal(a) * pow10(b.len()) + decimal(b),
    decreases b.len(),
{
    if b.len() == 0 {
        assert(a + b =~= a);
        assert(pow10(0) == 1);
        assert(decimal(b) == 0);
        assert(decimal(a) * 1 == decimal(a)) by (nonlinear_arith);
    } else {
        let front = b.drop_last();
        lemma_decimal_concat(a, front);
        assert((a + b).drop_last() =~= a + front);
        assert((a + b).last() == b.last());
        let m = decimal(a);
        let p = pow10(front.len());
        let f = decimal(front);
        assert(pow10(b.len()) == 10 * p);
        assert((m * p + f) * 10 == m * (10 * p) + f * 10) by (nonlinear_arith);
        assert(decimal(a + b) == (m * p + f) * 10 + digit_value(b.last()));
        assert(decimal(b) == f * 10 + digit_value(b.last()));
    }
}

/// The number of some digits is below ten to their count.
pub proof fn lemma_decimal_upper(d: Seq<char>)
    ensures
        decimal(d) < pow10(d.len()),
    decreases d.len(),
{
    if d.len() > 0 {
        lemma_decimal_upper(d.drop_last());
    }
}

/// The number of digits of which the first is not `0` is at least ten to
/// their count less one.
pub proof fn lemma_decimal_lower(d: Seq<char>)
    requires
        d.len() > 0,
        '1' <= d[0] <= '9',
    ensures
        decimal(d) >= pow10((d.len() - 1) as nat),
{
    let first = d.take(1);
    let rest = d.skip(1);
    assert(first + rest =~= d);
    lemma_decimal_concat(first, rest);
    assert(first.drop_last() =~= Seq::<char>::empty());
    assert(decimal(Seq::<char>::empty()) == 0);
    assert(decimal(first) == digit_value(d[0]));
    lemma_pow10_positive(rest.len());
    assert(decimal(first) * pow10(rest.len()) >= pow10(rest.len())) by (nonlinear_arith)
        requires
            decimal(first) >= 1,
    ;
}

/// Whether every character of `d` is `0`.
pub open spec fn zeros(d: Seq<char>) -> bool {
    forall|k: int| 0 <= k < d.len() ==> d[k] == '0'
}

/// The number of zeros is zero.
pub proof fn lemma_decimal_zeros(d: Seq<char>)
    requires
        zeros(d),
    ensures
        decimal(d) == 0,
    decreases d.len(),
{
    if d.len() > 0 {
        lemma_decimal_zeros(d.drop_last());
    }
}

/// Of two rows of digits of the same length that are the same up to some
/// place, the one with the smaller digit in that place is the smaller number.
pub proof fn lemma_decimal_order(x: Seq<char>, y: Seq<char>, j: int)
    requires
        x.len() == y.len(),
        0 <= j < x.len(),
        x.take(j) == y.take(j),
        digit_value(x[j]) < digit_value(y[j]),
    ensures
        decimal(x) < decimal(y),
{
    let p = pow10((x.len() - j - 1) as nat);
    let xa = x.take(j + 1);
    let ya = y.take(j + 1);
    assert(xa + x.skip(j + 1) =~= x);
    assert(ya + y.skip(j + 1) =~= y);
    lemma_decimal_concat(xa, x.skip(j + 1));
    lemma_decimal_concat(ya, y.skip(j + 1));
    assert(xa =~= x.take(j).push(x[j]));
    assert(ya =~= y.take(j).push(y[j]));
    lemma_decimal_push(x.take(j), x[j]);
    lemma_decimal_push(y.take(j), y[j]);
    lemma_decimal_upper(x.skip(j + 1));
    assert(decimal(xa) * p + decimal(x.skip(j + 1)) < decimal(ya) * p + decimal(y.skip(j + 1)))
        by (nonlinear_arith)
        requires
            decimal(xa) + 1 <= decimal(ya),
            decimal(x.skip(j + 1)) < p,
            decimal(y.skip(j + 1)) >= 0,
    ;
}

/// The first `width` digits of `d`, with `0` where `d` has none.
pub open spec fn window(d: Seq<char>, width: nat) -> Seq<char> {
    Seq::new(
        width,
        |j: int|
            if j < d.len() {
                d[j]
            } else {
                '0'
            },
    )
}

/// Digits times a power of ten are below a limit of `width` places where
/// they make fewer places.
proof fn lemma_small(d: Seq<char>, s: int, limit: nat, width: nat)
    requires
        d.len() > 0,
        width >= 1,
        d.len() + s <= width - 1,
        pow10((width - 1) as nat) <= limit,
    ensures
        scaled_below(decimal(d), s, limit),
        scaled_at_most(decimal(d), s, limit),
{
    let n = d.len();
    let m = decimal(d);
    let top = (width - 1) as nat;
    lemma_decimal_upper(d);
    lemma_pow10_positive(top);
    if s >= 0 {
        let p = pow10(s as nat);
        lemma_pow10_add(n, s as nat);
        lemma_pow10_grows((n + s) as nat, top);
        lemma_pow10_positive(s as nat);
        assert(m * p < pow10(n) * p) by (nonlinear_arith)
            requires
                m < pow10(n),
                p >= 1,
        ;
    } else {
        let j = (-s) as nat;
        let p = pow10(j);
        lemma_pow10_positive(j);
        if n <= j {
            lemma_pow10_grows(n, j);
            assert(p * 1 <= limit * p) by (nonlinear_arith)
                requires
                    limit >= 1,
                    p >= 1,
            ;
        } else {
            let k = (n - j) as nat;
            lemma_pow10_add(k, j);
            lemma_pow10_grows(k, top);
            assert(pow10(k) * p <= limit * p) by (nonlinear_arith)
                requires
                    pow10(k) <= limit,
                    p >= 1,
            ;
        }
    }
}

/// Digits of which the first is not `0`, times a power of ten, are above
/// a limit of `width` places where they make more places.
proof fn lemma_large(d: Seq<char>, s: int, limit: nat, width: nat)
    requires
        d.len() > 0,
        '1' <= d[0] <= '9',
        d.len() + s >= width + 1,
        limit < pow10(width),
    ensures
        !scaled_below(decimal(d), s, limit),
        !scaled_at_most(decimal(d), s, limit),
{
    let n = d.len();
    let m = decimal(d);
    lemma_decimal_lower(d);
    if s >= 0 {
        let p = pow10(s as nat);
        lemma_pow10_add((n - 1) as nat, s as nat);
        lemma_pow10_grows(width, (n - 1 + s) as nat);
        lemma_pow10_positive(s as nat);
        assert(m * p >= pow10((n - 1) as nat) * p) by (nonlinear_arith)
            requires
                m >= pow10((n - 1) as nat),
                p >= 1,
        ;
    } else {
        let j = (-s) as nat;
        let p = pow10(j);
        let k = (n - 1 - j) as nat;
        lemma_pow10_positive(j);
        lemma_pow10_add(k, j);
        lemma_pow10_grows(width, k);
        assert(pow10(k) * p > limit * p) by (nonlinear_arith)
            requires
                pow10(k) > limit,
                p >= 1,
        ;
    }
}

/// Digits times a power of ten that make as many places as a limit are
/// below the limit where their first places are; and at most the limit
/// where those are below it, or are the limit with nothing but zeros
/// behind them.
proof fn lemma_close(d: Seq<char>, s: int, limit: nat, width: nat)
    requires
        d.len() > 0,
        d.len() + s == width,
    ensures
        scaled_below(decimal(d), s, limit) == (decimal(window(d, width)) < limit),
        scaled_at_most(decimal(d), s, limit) == (decimal(window(d, width)) < limit || (decimal(
            window(d, width),
        ) == limit && (s >= 0 || decimal(d.skip(width as int)) == 0))),
{
    let n = d.len();
    let m = decimal(d);
    let w = window(d, width);
    if s >= 0 {
        let pad = w.skip(n as int);
        assert(d + pad =~= w);
        lemma_decimal_concat(d, pad);
        lemma_decimal_zeros(pad);
    } else {
        let j = (-s) as nat;
        let p = pow10(j);
        let rest = d.skip(width as int);
        assert(w =~= d.take(width as int));
        assert(w + rest =~= d);
        lemma_decimal_concat(w, rest);
        lemma_decimal_upper(rest);
        let x = decimal(w);
        let r = decimal(rest);
        assert((x * p + r < limit * p) == (x < limit)) by (nonlinear_arith)
            requires
                0 <= r < p,
                x >= 0,
                limit >= 0,
        ;
        assert((x * p + r <= limit * p) == (x < limit || (x == limit && r == 0)))
            by (nonlinear_arith)
            requires
                0 <= r < p,
                x >= 0,
                limit >= 0,
        ;
    }
}

/// Digits of which one is not `0` stand for a number that is not zero.
pub proof fn lemma_decimal_positive(d: Seq<char>, at: int)
    requires
        0 <= at < d.len(),
        '1' <= d[at] <= '9',
    ensures
        decimal(d) >= 1,
    decreases d.len(),
{
    if at < d.len() - 1 {
        lemma_decimal_positive(d.drop_last(), at);
    }
}

/// The number of thirteen digits, place by place.
proof fn lemma_thirteen(d: Seq<char>)
    requires
        d.len() == 13,
    ensures
        decimal(d) == digit_value(d[0]) * 1000000000000 + digit_value(d[1]) * 100000000000
            + digit_value(d[2]) * 10000000000 + digit_value(d[3]) * 1000000000 + digit_value(d[4])
            * 100000000 + digit_value(d[5]) * 10000000 + digit_value(d[6]) * 1000000 + digit_value(
            d[7],
        ) * 100000 + digit_value(d[8]) * 10000 + digit_value(d[9]) * 1000 + digit_value(d[10])
            * 100 + digit_value(d[11]) * 10 + digit_value(d[12]),
{
    let d12 = d.take(12);
    let d11 = d.take(11);
    let d10 = d.take(10);
    let d9 = d.take(9);
    let d8 = d.take(8);
    let d7 = d.take(7);
    let d6 = d.take(6);
    let d5 = d.take(5);
    let d4 = d.take(4);
    let d3 = d.take(3);
    let d2 = d.take(2);
    let d1 = d.take(1);
    let d0 = d.take(0);
    assert(d.drop_last() =~= d12);
    assert(d12.drop_last() =~= d11);
    assert(d11.drop_last() =~= d10);
    assert(d10.drop_last() =~= d9);
    assert(d9.drop_last() =~= d8);
    assert(d8.drop_last() =~= d7);
    assert(d7.drop_last() =~= d6);
    assert(d6.drop_last() =~= d5);
    assert(d5.drop_last() =~= d4);
    assert(d4.drop_last() =~= d3);
    assert(d3.drop_last() =~= d2);
    assert(d2.drop_last() =~= d1);
    assert(d1.drop_last() =~= d0);
    assert(decimal(d0) == 0);
    assert(decimal(d1) == digit_value(d[0]));
    assert(decimal(d2) == decimal(d1) * 10 + digit_value(d[1]));
    assert(decimal(d3) == decimal(d2) * 10 + digit_value(d[2]));
    assert(decimal(d4) == decimal(d3) * 10 + digit_value(d[3]));
    assert(decimal(d5) == decimal(d4) * 10 + digit_value(d[4]));
    assert(decimal(d6) == decimal(d5) * 10 + digit_value(d[5]));
    assert(decimal(d7) == decimal(d6) * 10 + digit_value(d[6]));
    assert(decimal(d8) == decimal(d7) * 10 + digit_value(d[7]));
    assert(decimal(d9) == decimal(d8) * 10 + digit_value(d[8]));
    assert(decimal(d10) == decimal(d9) * 10 + digit_value(d[9]));
    assert(decimal(d11) == decimal(d10) * 10 + digit_value(d[10]));
    assert(decimal(d12) == decimal(d11) * 10 + digit_value(d[11]));
    assert(decimal(d) == decimal(d12) * 10 + digit_value(d[12]));
}

/// The number of thirteen digits of a longer row, from the place `at` on.
proof fn lemma_chunk(d: Seq<char>, at: int, value: nat)
    requires
        0 <= at,
        at + 13 <= d.len(),
        value == digit_value(d[at]) * 1000000000000 + digit_value(d[at + 1]) * 100000000000
            + digit_value(d[at + 2]) * 10000000000 + digit_value(d[at + 3]) * 1000000000
            + digit_value(d[at + 4]) * 100000000 + digit_value(d[at + 5]) * 10000000 + digit_value(
            d[at + 6],
        ) * 1000000 + digit_value(d[at + 7]) * 100000 + digit_value(d[at + 8]) * 10000
            + digit_value(d[at + 9]) * 1000 + digit_value(d[at + 10]) * 100 + digit_value(
            d[at + 11],
        ) * 10 + digit_value(d[at + 12]),
    ensures
        decimal(d.take(at + 13)) == decimal(d.take(at)) * 10000000000000 + value,
{
    let chunk = d.subrange(at, at + 13);
    assert(d.take(at) + chunk =~= d.take(at + 13));
    lemma_decimal_concat(d.take(at), chunk);
    lemma_thirteen(chunk);
    assert(pow10(13) == 10000000000000) by {
        reveal_with_fuel(pow10, 14);
    }
}

/// The digits of the limit of single precision.
pub open spec fn overflow_digits() -> Seq<char> {
    "340282356779733661637539395458142568448"@
}

/// The digits of the limit of single precision stand for it.
pub proof fn lemma_overflow_digits()
    ensures
        overflow_digits().len() == 39,
        decimal(overflow_digits()) == overflow(),
        forall|j: int| 0 <= j < 39 ==> is_digit(#[trigger] overflow_digits()[j]),
{
    reveal_strlit("340282356779733661637539395458142568448");
    let d = overflow_digits();
    assert(d.take(0) =~= Seq::<char>::empty());
    assert(decimal(d.take(0)) == 0);
    lemma_chunk(d, 0, 3402823567797);
    lemma_chunk(d, 13, 3366163753939);
    lemma_chunk(d, 26, 5458142568448);
    assert(d.take(39) =~= d);
}

/// The digits of 5^150.
pub open spec fn underflow_digits() -> Seq<char> {
    "700649232162408535461864791644958065640130970938257885878534141944895541342930300743319094181060791015625"@
}

/// Five to the power of 25, and of 50.
proof fn lemma_pow5_steps()
    ensures
        pow5(25) == 298023223876953125,
        pow5(50) == 88817841970012523233890533447265625,
{
    reveal_with_fuel(pow5, 26);
    lemma_pow5_add(25, 25);
}

/// Five to a sum is the product of the powers.
proof fn lemma_pow5_add(a: nat, b: nat)
    ensures
        pow5(a + b) == pow5(a) * pow5(b),
    decreases a,
{
    if a > 0 {
        let less = (a - 1) as nat;
        lemma_pow5_add(less, b);
        assert(pow5(a + b) == 5 * pow5((less + b) as nat));
        let x = pow5(less);
        let y = pow5(b);
        assert(5 * (x * y) == (5 * x) * y) by (nonlinear_arith);
        assert(pow5(a) == 5 * x);
    } else {
        assert(pow5(0) == 1);
        assert(1 * pow5(b) == pow5(b)) by (nonlinear_arith);
    }
}

/// The digits of 5^150 stand for it, and it has 105 places.
pub proof fn lemma_underflow_digits()
    ensures
        underflow_digits().len() == 105,
        decimal(underflow_digits()) == pow5(150),
        forall|j: int| 0 <= j < 105 ==> is_digit(#[trigger] underflow_digits()[j]),
        pow10(104) <= pow5(150) < pow10(105),
{
    reveal_strlit(
        "700649232162408535461864791644958065640130970938257885878534141944895541342930300743319094181060791015625",
    );
    let d = underflow_digits();
    assert(d.take(0) =~= Seq::<char>::empty());
    assert(decimal(d.take(0)) == 0);
    lemma_chunk(d, 0, 7006492321624);
    lemma_chunk(d, 13, 853546186479);
    lemma_chunk(d, 26, 1644958065640);
    lemma_chunk(d, 39, 1309709382578);
    lemma_chunk(d, 52, 8587853414194);
    lemma_chunk(d, 65, 4895541342930);
    lemma_chunk(d, 78, 3007433190941);
    lemma_chunk(d, 91, 8106079101562);
    assert(d.take(105) =~= d);
    assert(d.take(105).drop_last() =~= d.take(104));
    assert(decimal(d) == decimal(d.take(104)) * 10 + 5);
    let front = d.take(104);
    lemma_pow5_steps();
    lemma_pow5_add(50, 50);
    lemma_pow5_add(100, 50);
    let x = pow5(50);
    assert(pow5(150) == (x * x) * x);
    assert(x == 88817841970012523233890533447265625);
    lemma_decimal_lower(d);
    lemma_decimal_upper(d);
}

/// How a number stands to another.
#[derive(Debug, Clone, Copy, PartialEq, Eq)]
pub enum Order {
    /// It is below the other.
    Below,
    /// It is the same.
    Same,
    /// It is above the other.
    Above,
}

/// How the first places of `digits`, as many as `limit` has, stand to the
/// number that `limit` is.
fn order(digits: &[char], limit: &str) -> (o: Order)
    requires
        forall|j: int| 0 <= j < digits@.len() ==> is_digit(#[trigger] digits@[j]),
        forall|j: int| 0 <= j < limit@.len() ==> is_digit(#[trigger] limit@[j]),
    ensures
        o == (if decimal(window(digits@, limit@.len())) < decimal(limit@) {
            Order::Below
        } else if decimal(window(digits@, limit@.len())) == decimal(limit@) {
            Order::Same
        } else {
            Order::Above
        }),
{
    let width = limit.unicode_len();
    let ghost w = window(digits@, limit@.len());
    let ghost l = limit@;
    proof {
        assert(w.take(0) =~= l.take(0));
    }
    let mut j: usize = 0;
    while j < width
        invariant
            j <= width,
            width == l.len(),
            w == window(digits@, l.len()),
            l == limit@,
            forall|j: int| 0 <= j < l.len() ==> is_digit(#[trigger] l[j]),
            forall|j: int| 0 <= j < digits@.len() ==> is_digit(#[trigger] digits@[j]),
            w.take(j as int) == l.take(j as int),
        decreases width - j,
    {
        let c = if j < digits.len() {
            digits[j]
        } else {
            '0'
        };
        let t = limit.get_char(j);
        assert(c == w[j as int]);
        assert(is_digit(c) && is_digit(t));
        if c < t {
            proof {
                lemma_decimal_order(w, l, j as int);
            }
            return Order::Below;
        }
        if c > t {
            proof {
                lemma_decimal_order(l, w, j as int);
            }
            return Order::Above;
        }
        assert(w.take(j + 1) =~= w.take(j as int).push(c));
        assert(l.take(j + 1) =~= l.take(j as int).push(t));
        j += 1;
    }
    assert(w =~= w.take(width as int));
    assert(l =~= l.take(width as int));
    Order::Same
}

/// A power of ten beyond which only its sign matters: it is larger than
/// any count of digits that a text can hold.
pub const FAR: u128 = 1000000000000000000000000000000;

/// The power of ten that the digits of a number are to be taken times.
#[derive(Debug, Clone, Copy, PartialEq, Eq)]
pub enum Scale {
    /// This power.
    Near(i128),
    /// A power below any that can matter.
    FarBelow,
    /// A power above any that can matter.
    FarAbove,
}

impl Scale {
    /// Whether this is the power `s`, or stands for it.
    pub open spec fn is(self, s: int) -> bool {
        match self {
            Scale::Near(near) => near == s && -2 * FAR <= s <= 2 * FAR,
            Scale::FarBelow => s < -(FAR as int) / 2,
            Scale::FarAbove => s > (FAR as int) / 2,
        }
    }
}

/// The digits of a number without the zeros in front, and the power of ten
/// that they are to be taken times.
fn measure(text: &[char]) -> (r: (Vec<char>, Scale))
    ensures
        decimal(r.0@) == decimal(significand(text@)),
        r.0@.len() <= text@.len(),
        forall|j: int| 0 <= j < r.0@.len() ==> is_digit(#[trigger] r.0@[j]),
        r.0@.len() > 0 ==> '1' <= r.0@[0] <= '9',
        r.1.is(power(text@) - fraction(text@)),
{
    let mut digits: Vec<char> = Vec::new();
    let mut behind: usize = 0;
    let mut point = false;
    let mut started = false;
    let mut k: usize = 0;
    let ghost mut all: Seq<char> = Seq::empty();
    proof {
        assert(text@.skip(0) =~= text@);
        crate::text::lemma_concat_empty(significand(text@));
        crate::read::lemma_fits(text);
    }
    while k < text.len() && text[k] != 'e' && text[k] != 'E'
        invariant
            k <= text@.len(),
            text@.len() <= usize::MAX,
            digits@.len() <= k,
            behind <= k,
            significand(text@) == all + significand(text@.skip(k as int)),
            decimal(all) == decimal(digits@),
            started == (digits@.len() > 0),
            !point ==> behind == 0 && fraction(text@) == fraction(text@.skip(k as int)),
            point ==> fraction(text@) == behind + significand(text@.skip(k as int)).len(),
            power(text@) == power(text@.skip(k as int)),
            forall|j: int| 0 <= j < digits@.len() ==> is_digit(#[trigger] digits@[j]),
            digits@.len() > 0 ==> '1' <= digits@[0] <= '9',
        decreases text@.len() - k,
    {
        let c = text[k];
        proof {
            assert(text@.skip(k as int).skip(1) =~= text@.skip(k + 1));
            assert(text@.skip(k as int)[0] == c);
            let tail = significand(text@.skip(k + 1));
            if is_digit(c) {
                assert(all.push(c) + tail =~= all + (seq![c] + tail));
                lemma_decimal_push(all, c);
                lemma_decimal_push(digits@, c);
                all = all.push(c);
            }
        }
        if '0' <= c && c <= '9' {
            if started || c != '0' {
                digits.push(c);
                started = true;
            }
            if point {
                behind += 1;
            }
        } else if c == '.' && !point {
            point = true;
        }
        k += 1;
    }
    proof {
        crate::text::lemma_concat_empty(all);
        assert(significand(text@.skip(k as int)) =~= Seq::<char>::empty());
        assert(fraction(text@) == behind);
    }
    let scale = if k < text.len() {
        let rest = skip(text, k + 1);
        proof {
            assert(text@.skip(k as int).skip(1) =~= rest@);
            if rest@.len() > 0 {
                assert(text@.skip(k as int).skip(2) =~= rest@.skip(1));
            }
        }
        let (negative, magnitude) = if starts_with_char(rest, '-') {
            (true, decimal_up_to(skip(rest, 1), FAR))
        } else if starts_with_char(rest, '+') {
            (false, decimal_up_to(skip(rest, 1), FAR))
        } else {
            (false, decimal_up_to(rest, FAR))
        };
        match magnitude {
            None => if negative {
                Scale::FarBelow
            } else {
                Scale::FarAbove
            },
            Some(e) => if negative {
                Scale::Near(-(e as i128) - (behind as i128))
            } else {
                Scale::Near((e as i128) - (behind as i128))
            },
        }
    } else {
        Scale::Near(-(behind as i128))
    };
    (digits, scale)
}

/// Whether `i` starts with the character `c`.
fn starts_with_char(i: &[char], c: char) -> (b: bool)
    ensures
        b == starts_with(i@, c),
{
    i.len() > 0 && i[0] == c
}

/// Whether the number that `text` stands for has a place in single precision.
pub fn finite(text: &[char]) -> (b: bool)
    ensures
        b == crate::grammar::finite(text@),
{
    let (digits, scale) = measure(text);
    let ghost s = power(text@) - fraction(text@);
    let n = digits.len();
    proof {
        crate::read::lemma_fits(text);
        lemma_overflow_bounds();
    }
    if n == 0 {
        proof {
            lemma_nothing(s, overflow());
        }
        return true;
    }
    match scale {
        Scale::FarBelow => {
            proof {
                lemma_small(digits@, s, overflow(), 39);
            }
            true
        },
        Scale::FarAbove => {
            proof {
                lemma_large(digits@, s, overflow(), 39);
            }
            false
        },
        Scale::Near(shift) => {
            let places: i128 = (n as i128) + shift;
            proof {
                if places <= 38 {
                    lemma_small(digits@, s, overflow(), 39);
                } else if places >= 40 {
                    lemma_large(digits@, s, overflow(), 39);
                } else {
                    lemma_close(digits@, s, overflow(), 39);
                    lemma_overflow_digits();
                }
            }
            if places <= 38 {
                true
            } else if places >= 40 {
                false
            } else {
                proof {
                    reveal_strlit("340282356779733661637539395458142568448");
                }
                match order(digits.as_slice(), "340282356779733661637539395458142568448") {
                    Order::Below => true,
                    _ => false,
                }
            }
        },
    }
}

/// Zero times a power of ten is below every limit but zero.
proof fn lemma_nothing(s: int, limit: nat)
    requires
        limit >= 1,
    ensures
        scaled_below(0, s, limit),
        scaled_at_most(0, s, limit),
{
    if s >= 0 {
        assert(0 * pow10(s as nat) == 0) by (nonlinear_arith);
    } else {
        lemma_pow10_positive((-s) as nat);
        assert(0 < limit * pow10((-s) as nat)) by (nonlinear_arith)
            requires
                limit >= 1,
                pow10((-s) as nat) >= 1,
        ;
    }
}

/// Whether every digit of `digits` from the place `from` on is `0`.
fn nothing_behind(digits: &[char], from: usize) -> (b: bool)
    requires
        from <= digits@.len(),
        forall|j: int| 0 <= j < digits@.len() ==> is_digit(#[trigger] digits@[j]),
    ensures
        b == (decimal(digits@.skip(from as int)) == 0),
{
    let rest = skip(digits, from);
    let mut k: usize = 0;
    while k < rest.len()
        invariant
            k <= rest@.len(),
            rest@ == digits@.skip(from as int),
            from <= digits@.len(),
            forall|j: int| 0 <= j < digits@.len() ==> is_digit(#[trigger] digits@[j]),
            zeros(rest@.take(k as int)),
        decreases rest@.len() - k,
    {
        if rest[k] != '0' {
            proof {
                assert(rest@[k as int] == digits@[from + k]);
                lemma_decimal_positive(rest@, k as int);
            }
            return false;
        }
        assert(rest@.take(k + 1) =~= rest@.take(k as int).push('0'));
        k += 1;
    }
    proof {
        assert(rest@.take(k as int) =~= rest@);
        lemma_decimal_zeros(rest@);
    }
    true
}

/// Whether the number that `text` stands for is zero in single precision.
pub fn vanishes(text: &[char]) -> (b: bool)
    ensures
        b == crate::grammar::is_zero(text@),
{
    let (digits, scale) = measure(text);
    let ghost s = power(text@) - fraction(text@) + 150;
    let ghost limit = pow5(150);
    let n = digits.len();
    proof {
        crate::read::lemma_fits(text);
        lemma_underflow_digits();
        lemma_pow10_positive(104);
    }
    if n == 0 {
        proof {
            lemma_nothing(s, limit);
        }
        return true;
    }
    match scale {
        Scale::FarBelow => {
            proof {
                lemma_small(digits@, s, limit, 105);
            }
            true
        },
        Scale::FarAbove => {
            proof {
                lemma_large(digits@, s, limit, 105);
            }
            false
        },
        Scale::Near(shift) => {
            let places: i128 = (n as i128) + shift + 150;
            proof {
                if places <= 104 {
                    lemma_small(digits@, s, limit, 105);
                } else if places >= 106 {
                    lemma_large(digits@, s, limit, 105);
                } else {
                    lemma_close(digits@, s, limit, 105);
                }
            }
            if places <= 104 {
                true
            } else if places >= 106 {
                false
            } else {
                proof {
                    reveal_strlit(
                        "700649232162408535461864791644958065640130970938257885878534141944895541342930300743319094181060791015625",
                    );
                }
                match order(
                    digits.as_slice(),
                    "700649232162408535461864791644958065640130970938257885878534141944895541342930300743319094181060791015625",
                ) {
                    Order::Below => true,
                    Order::Same => n <= 105 || nothing_behind(digits.as_slice(), 105),
                    Order::Above => false,
                }
            }
        },
    }
}

} // verus!
