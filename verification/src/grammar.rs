//! The `.hltas` format, stated as functions on sequences of characters.
//!
//! Each rule takes the input that is left and gives either what it read,
//! with the input behind it, or a [`Fault`]. A fault that is `cut` ends the
//! reading of the script; one that is not lets the next alternative be tried.
//! The functions of [`crate::read`] compute exactly these results.

use vstd::prelude::*;
use crate::read::{Context, ErrorKind, Rule};
use crate::types::{HLTASView, Positive};

pub mod line;
pub mod properties;

verus! {

/// Why and where a rule did not match.
pub struct Fault {
    /// How many characters of the script were left where the rule gave up.
    pub remaining: nat,
    /// The expectation that was not met.
    pub kind: ErrorKind,
    /// What the failure means for the script, once known.
    pub context: Option<Context>,
    /// Whether alternatives are no longer tried.
    pub cut: bool,
}

/// What a rule gives: the input behind what it read and the value read, or a fault.
pub type Out<T> = Result<(Seq<char>, T), Fault>;

/// A fault of the given kind at the start of `i`, with alternatives still open.
pub open spec fn fault(i: Seq<char>, kind: ErrorKind) -> Fault {
    Fault { remaining: i.len(), kind, context: None, cut: false }
}

/// A failure of the given rule at the start of `i`.
pub open spec fn fail<T>(i: Seq<char>, rule: Rule) -> Out<T> {
    Err(fault(i, ErrorKind::Other(rule)))
}

/// The same result, but a fault closes the alternatives.
pub open spec fn cut<T>(o: Out<T>) -> Out<T> {
    match o {
        Ok(done) => Ok(done),
        Err(e) => Err(Fault { cut: true, ..e }),
    }
}

/// The fault with the given meaning, unless it has one already.
pub open spec fn explained(e: Fault, meaning: Context) -> Fault {
    if e.context is Some {
        e
    } else {
        Fault { context: Some(meaning), ..e }
    }
}

/// The same result, but a fault without a meaning gets the given one.
pub open spec fn context<T>(meaning: Context, o: Out<T>) -> Out<T> {
    match o {
        Ok(done) => Ok(done),
        Err(e) => Err(explained(e, meaning)),
    }
}

/// The fault as seen from an input that goes on for `more` characters.
pub open spec fn later(e: Fault, more: nat) -> Fault {
    Fault { remaining: e.remaining + more, ..e }
}

/// Classes of characters that the format reads in runs.
#[derive(Debug, Clone, Copy, PartialEq, Eq)]
pub enum Class {
    /// `0` to `9`.
    Digit,
    /// A space or a tab.
    Space,
    /// A space, a tab, a carriage return or a line feed.
    Blank,
    /// An ASCII letter, a digit or `_`.
    Name,
    /// Anything but `|`.
    NotBar,
    /// Anything but a carriage return and a line feed.
    NotBreak,
    /// Anything but a line feed.
    NotFeed,
}

/// Whether `c` is one of `0` to `9`.
pub open spec fn is_digit(c: char) -> bool {
    '0' <= c <= '9'
}

/// Whether `c` is an ASCII letter.
pub open spec fn is_letter(c: char) -> bool {
    'a' <= c <= 'z' || 'A' <= c <= 'Z'
}

/// Whether `c` belongs to the class.
pub open spec fn member(k: Class, c: char) -> bool {
    match k {
        Class::Digit => is_digit(c),
        Class::Space => c == ' ' || c == '\t',
        Class::Blank => c == ' ' || c == '\t' || c == '\r' || c == '\n',
        Class::Name => is_letter(c) || is_digit(c) || c == '_',
        Class::NotBar => c != '|',
        Class::NotBreak => c != '\r' && c != '\n',
        Class::NotFeed => c != '\n',
    }
}

/// How many characters at the start of `i` belong to the class.
pub open spec fn leading(i: Seq<char>, k: Class) -> nat
    decreases i.len(),
{
    if i.len() > 0 && member(k, i[0]) {
        1 + leading(i.skip(1), k)
    } else {
        0
    }
}

/// Whether `i` starts with the character `c`.
pub open spec fn starts_with(i: Seq<char>, c: char) -> bool {
    i.len() > 0 && i[0] == c
}

/// The character `c`.
pub open spec fn char(i: Seq<char>, c: char) -> Out<char> {
    if starts_with(i, c) {
        Ok((i.skip(1), c))
    } else {
        Err(fault(i, ErrorKind::ExpectedChar(c)))
    }
}

/// The text `t`, character by character.
pub open spec fn tag(i: Seq<char>, t: Seq<char>) -> Out<()> {
    if t.is_prefix_of(i) {
        Ok((i.skip(t.len() as int), ()))
    } else {
        fail(i, Rule::Tag)
    }
}

/// One or more characters of the class `k`; `rule` names the failure.
pub open spec fn some_of(i: Seq<char>, k: Class, rule: Rule) -> Out<Seq<char>> {
    let n = leading(i, k);
    if n == 0 {
        fail(i, rule)
    } else {
        Ok((i.skip(n as int), i.take(n as int)))
    }
}

/// One or more spaces or tabs.
pub open spec fn space1(i: Seq<char>) -> Out<Seq<char>> {
    some_of(i, Class::Space, Rule::Space)
}

/// One or more digits.
pub open spec fn digit1(i: Seq<char>) -> Out<Seq<char>> {
    some_of(i, Class::Digit, Rule::Digit)
}

/// The input without the blanks at its start.
pub open spec fn multispace0(i: Seq<char>) -> Seq<char> {
    i.skip(leading(i, Class::Blank) as int)
}

/// A line feed, or a carriage return and a line feed.
pub open spec fn line_ending(i: Seq<char>) -> Out<()> {
    if starts_with(i, '\n') {
        Ok((i.skip(1), ()))
    } else if i.len() >= 2 && i[0] == '\r' && i[1] == '\n' {
        Ok((i.skip(2), ()))
    } else {
        fail(i, Rule::CrLf)
    }
}

/// One or more line endings.
pub open spec fn line_endings(i: Seq<char>) -> Out<()>
    decreases i.len(),
{
    match line_ending(i) {
        Err(e) => Err(e),
        Ok((rest, _)) => if rest.len() < i.len() && line_ending(rest) is Ok {
            line_endings(rest)
        } else {
            Ok((rest, ()))
        },
    }
}

/// The text up to the end of the line. A carriage return that no line feed
/// follows is refused.
pub open spec fn not_line_ending(i: Seq<char>) -> Out<Seq<char>> {
    let n = leading(i, Class::NotBreak) as int;
    if n < i.len() && i[n] == '\r' && !(n + 1 < i.len() && i[n + 1] == '\n') {
        fail(i, Rule::Tag)
    } else {
        Ok((i.skip(n), i.take(n)))
    }
}

/// The number that a digit stands for.
pub open spec fn digit_value(c: char) -> nat {
    if is_digit(c) {
        (c as int - '0' as int) as nat
    } else {
        0
    }
}

/// The number that a run of digits stands for.
pub open spec fn decimal(digits: Seq<char>) -> nat
    decreases digits.len(),
{
    if digits.len() == 0 {
        0
    } else {
        decimal(digits.drop_last()) * 10 + digit_value(digits.last())
    }
}

/// A number without sign that 32 bits can hold: one or more digits.
pub open spec fn shared_seed(i: Seq<char>) -> Out<u32> {
    match digit1(i) {
        Err(e) => Err(e),
        Ok((rest, digits)) => if decimal(digits) <= u32::MAX {
            Ok((rest, decimal(digits) as u32))
        } else {
            fail(i, Rule::MapRes)
        },
    }
}

/// The number that an optional `-` and a run of digits stand for.
pub open spec fn signed_decimal(negative: bool, digits: Seq<char>) -> int {
    if negative {
        -(decimal(digits) as int)
    } else {
        decimal(digits) as int
    }
}

/// A number that 64 bits can hold with its sign: an optional `-`, then one or more digits.
pub open spec fn non_shared_seed(i: Seq<char>) -> Out<i64> {
    let negative = starts_with(i, '-');
    let after = if negative { i.skip(1) } else { i };
    match digit1(after) {
        Err(e) => Err(e),
        Ok((rest, digits)) => {
            let value = signed_decimal(negative, digits);
            if i64::MIN <= value <= i64::MAX {
                Ok((rest, value as i64))
            } else {
                fail(i, Rule::MapRes)
            }
        },
    }
}

/// A number from 1 that 32 bits can hold: a digit that is not `0`, then any digits.
pub open spec fn non_zero_u32(i: Seq<char>) -> Out<Positive> {
    if i.len() > 0 && '1' <= i[0] <= '9' {
        let n = 1 + leading(i.skip(1), Class::Digit);
        let value = decimal(i.take(n as int));
        if value <= u32::MAX {
            Ok((i.skip(n as int), Positive::of(value as u32)))
        } else {
            fail(i, Rule::MapRes)
        }
    } else {
        fail(i, Rule::OneOf)
    }
}

/// Whether `i` starts with `+` or `-`.
pub open spec fn starts_with_sign(i: Seq<char>) -> bool {
    starts_with(i, '+') || starts_with(i, '-')
}

/// The digits of a number, with or without a point: `12`, `12.`, `12.5` or `.5`.
pub open spec fn mantissa(i: Seq<char>) -> Out<()> {
    let whole = leading(i, Class::Digit);
    if whole > 0 {
        let after = i.skip(whole as int);
        if starts_with(after, '.') {
            Ok((after.skip(1 + leading(after.skip(1), Class::Digit) as int), ()))
        } else {
            Ok((after, ()))
        }
    } else if starts_with(i, '.') {
        match digit1(i.skip(1)) {
            Err(e) => Err(e),
            Ok((rest, _)) => Ok((rest, ())),
        }
    } else {
        Err(fault(i, ErrorKind::ExpectedChar('.')))
    }
}

/// The power of ten of a number, if it has one: `e` or `E`, an optional sign,
/// and digits, which may not be missing once the letter is there.
pub open spec fn exponent(i: Seq<char>) -> Out<()> {
    if starts_with(i, 'e') || starts_with(i, 'E') {
        let after = if starts_with_sign(i.skip(1)) { i.skip(2) } else { i.skip(1) };
        match digit1(after) {
            Err(e) => Err(e),
            Ok((rest, _)) => Ok((rest, ())),
        }
    } else {
        Ok((i, ()))
    }
}

/// The input behind a number in decimal notation: an optional sign, the
/// digits, and an optional power of ten.
pub open spec fn number_end(i: Seq<char>) -> Out<()> {
    let after = if starts_with_sign(i) { i.skip(1) } else { i };
    match mantissa(after) {
        Err(e) => Err(e),
        Ok((rest, _)) => exponent(rest),
    }
}

/// A number in decimal notation, as it is written.
#[verifier::opaque]
pub open spec fn recognize_float(i: Seq<char>) -> Out<Seq<char>> {
    match number_end(i) {
        Err(e) => Err(e),
        Ok((rest, _)) => Ok((rest, i.take(i.len() - rest.len()))),
    }
}

/// Whether `text` is a number in decimal notation and nothing else.
pub open spec fn is_number(text: Seq<char>) -> bool {
    recognize_float(text) == Ok::<_, Fault>((Seq::<char>::empty(), text))
}

/// The digits of a number's text before any power of ten, sign and point left out.
pub open spec fn significand(text: Seq<char>) -> Seq<char>
    decreases text.len(),
{
    if text.len() == 0 || text[0] == 'e' || text[0] == 'E' {
        Seq::empty()
    } else if is_digit(text[0]) {
        seq![text[0]] + significand(text.skip(1))
    } else {
        significand(text.skip(1))
    }
}

/// How many digits of a number's text stand behind the point.
pub open spec fn fraction(text: Seq<char>) -> nat
    decreases text.len(),
{
    if text.len() == 0 || text[0] == 'e' || text[0] == 'E' {
        0
    } else if text[0] == '.' {
        significand(text.skip(1)).len()
    } else {
        fraction(text.skip(1))
    }
}

/// The power of ten that a number's text ends with; 0 if it has none.
pub open spec fn power(text: Seq<char>) -> int
    decreases text.len(),
{
    if text.len() == 0 {
        0
    } else if text[0] == 'e' || text[0] == 'E' {
        if starts_with(text.skip(1), '-') {
            -(decimal(text.skip(2)) as int)
        } else if starts_with(text.skip(1), '+') {
            decimal(text.skip(2)) as int
        } else {
            decimal(text.skip(1)) as int
        }
    } else {
        power(text.skip(1))
    }
}

/// Ten to the power of `n`.
pub open spec fn pow10(n: nat) -> nat
    decreases n,
{
    if n == 0 {
        1
    } else {
        10 * pow10((n - 1) as nat)
    }
}

/// Whether `m` times ten to the power of `s` is below `limit`.
pub open spec fn scaled_below(m: nat, s: int, limit: nat) -> bool {
    if s >= 0 {
        m * pow10(s as nat) < limit
    } else {
        m < limit * pow10((-s) as nat)
    }
}

/// Whether `m` times ten to the power of `s` is at most `limit`.
pub open spec fn scaled_at_most(m: nat, s: int, limit: nat) -> bool {
    if s >= 0 {
        m * pow10(s as nat) <= limit
    } else {
        m <= limit * pow10((-s) as nat)
    }
}

/// Five to the power of `n`.
pub open spec fn pow5(n: nat) -> nat
    decreases n,
{
    if n == 0 {
        1
    } else {
        5 * pow5((n - 1) as nat)
    }
}

/// The least magnitude that has no place in single precision: 2^128 - 2^103,
/// which lies halfway between the largest number of single precision and
/// 2^128. What is nearest to a magnitude from here on is beyond all numbers.
pub open spec fn overflow() -> nat {
    340282356779733661637539395458142568448
}

/// Whether the number that `text` stands for has a place in single
/// precision: whether its magnitude, which is its digits taken as a whole
/// number times ten to the power it ends with less the digits behind the
/// point, is below [`overflow`].
pub open spec fn finite(text: Seq<char>) -> bool {
    scaled_below(decimal(significand(text)), power(text) - fraction(text), overflow())
}

/// Whether `text` stands for a number with a place in single precision: a
/// number in decimal notation whose magnitude is below [`overflow`].
pub open spec fn is_float(text: Seq<char>) -> bool {
    is_number(text) && finite(text)
}

/// Whether the number that `text` stands for is zero in single precision:
/// whether its magnitude is at most 2^-150, which lies halfway between zero
/// and the least number of single precision. A magnitude is at most
/// 2^-150 where 10^150 times the magnitude is at most 5^150.
pub open spec fn is_zero(text: Seq<char>) -> bool {
    scaled_at_most(decimal(significand(text)), power(text) - fraction(text) + 150, pow5(150))
}

/// The first result, unless it is a fault that leaves the alternatives open:
/// then the second.
pub open spec fn or<T>(first: Out<T>, second: Out<T>) -> Out<T> {
    match first {
        Ok(_) => first,
        Err(e) => if e.cut {
            first
        } else {
            second
        },
    }
}

/// The same result, with `f` applied to the value read.
pub open spec fn to<T, U>(o: Out<T>, f: spec_fn(T) -> U) -> Out<U> {
    match o {
        Ok((rest, value)) => Ok((rest, f(value))),
        Err(e) => Err(e),
    }
}

/// The same result, with the given value in place of the one read.
pub open spec fn giving<T, U>(o: Out<T>, value: U) -> Out<U> {
    match o {
        Ok((rest, _)) => Ok((rest, value)),
        Err(e) => Err(e),
    }
}

/// The result of a rule that read `o` from a part of the input which
/// `more` characters follow, and leaves all that follows it unread.
pub open spec fn inner<T>(o: Out<T>, more: Seq<char>) -> Out<T> {
    match o {
        Ok((_, value)) => Ok((more, value)),
        Err(e) => Err(later(e, more.len())),
    }
}

/// The text of the number zero.
pub open spec fn zero() -> Seq<char> {
    seq!['0']
}

/// The version line: `version`, spaces, and the digit `1`.
#[verifier::opaque]
pub open spec fn version(i: Seq<char>) -> Out<()> {
    match tag(i, "version"@) {
        Err(e) => Err(e),
        Ok((i1, _)) => match space1(i1) {
            Err(e) => Err(e),
            Ok((i2, _)) => if i2.len() > 0 && '1' <= i2[0] <= '9' {
                if i2[0] == '1' {
                    Ok((i2.skip(1), ()))
                } else {
                    context(Context::VersionTooHigh, fail(i2, Rule::Verify))
                }
            } else {
                context(Context::ErrorReadingVersion, fail(i2, Rule::OneOf))
            },
        },
    }
}

/// A line ending and the blanks behind it.
pub open spec fn whitespace(i: Seq<char>) -> Out<()> {
    match line_ending(i) {
        Err(e) => Err(e),
        Ok((rest, _)) => Ok((multispace0(rest), ())),
    }
}

/// The lines of the frames section, up to the end of the input. Blanks
/// between the lines and at the end are passed over.
pub open spec fn lines(i: Seq<char>) -> Out<Seq<crate::types::LineView>>
    decreases i.len(),
{
    if multispace0(i).len() == 0 {
        Ok((multispace0(i), Seq::empty()))
    } else {
        match whitespace(i) {
            Err(e) => Err(e),
            Ok((i1, _)) => match line::line(i1) {
                Err(e) => Err(e),
                Ok((i2, first)) => if i2.len() < i.len() {
                    match lines(i2) {
                        Err(e) => Err(e),
                        Ok((i3, others)) => Ok((i3, seq![first] + others)),
                    }
                } else {
                    fail(i2, Rule::ManyTill)
                },
            },
        }
    }
}

/// A whole script: the version line, the properties, the `frames` line, and
/// the lines of the frames section up to the end of the input.
#[verifier::opaque]
pub open spec fn hltas(i: Seq<char>) -> Out<HLTASView> {
    match context(Context::ErrorReadingVersion, version(i)) {
        Err(e) => Err(e),
        Ok((i1, _)) => match properties::properties(i1) {
            Err(e) => Err(e),
            Ok((i2, properties)) => match line_endings(i2) {
                Err(e) => Err(e),
                Ok((i3, _)) => match tag(i3, "frames"@) {
                    Err(e) => Err(e),
                    Ok((i4, _)) => match context(Context::ErrorParsingLine, lines(i4)) {
                        Err(e) => Err(e),
                        Ok((i5, lines)) => Ok((i5, HLTASView { properties, lines })),
                    },
                },
            },
        },
    }
}

/// What reading a whole script gives: the script, or the fault that ended
/// the reading.
pub open spec fn parse(text: Seq<char>) -> Result<HLTASView, Fault> {
    match hltas(text) {
        Ok((_, script)) => Ok(script),
        Err(e) => Err(e),
    }
}

/// The first line of a text that is not empty, without its line ending, and
/// the text behind that line. A line ends with a line feed; a carriage
/// return just before the line feed belongs to the line ending.
pub open spec fn first_line(text: Seq<char>) -> (Seq<char>, Seq<char>) {
    let n = leading(text, Class::NotFeed) as int;
    if n < text.len() {
        if n > 0 && text[n - 1] == '\r' {
            (text.take(n - 1), text.skip(n + 1))
        } else {
            (text.take(n), text.skip(n + 1))
        }
    } else {
        (text, Seq::empty())
    }
}

/// A place in a text: the number of a line, counted from `first`, a column
/// in it, and the line itself.
pub struct Place {
    pub line: nat,
    pub column: nat,
    pub text: Seq<char>,
}

/// The place that lies `offset` characters into `text`, whose first line has
/// the number `first`: the first line that is at least as long as what is
/// left of the offset, where each line before it takes its length and one
/// more from the offset. There is none if the lines run out.
pub open spec fn locate(text: Seq<char>, offset: nat, first: nat) -> Option<Place>
    decreases text.len(),
{
    if text.len() == 0 {
        None
    } else {
        let (line, rest) = first_line(text);
        if offset <= line.len() {
            Some(Place { line: first, column: offset, text: line })
        } else if rest.len() < text.len() {
            locate(rest, (offset - line.len() - 1) as nat, first + 1)
        } else {
            None
        }
    }
}

} // verus!
