//! Reading `.hltas` files.
//!
//! Each function here reads one rule of [`crate::grammar`] from a slice of
//! characters and returns what the rule says.

use vstd::prelude::*;
use vstd::slice::slice_subrange;
use vstd::string::StrSliceExecFns;
use crate::grammar;
use crate::grammar::{decimal, digit_value, Class, Fault, Out};
use crate::runs::lemma_decimal_prefix;
use crate::text::decimal_up_to;
use crate::types::{lines_of, HLTAS, Line, LineView, Positive};

pub mod line;
pub mod properties;
pub mod report;

verus! {

broadcast use crate::types::group_positive;

/// Enumeration of possible semantic errors.
#[derive(Debug, Clone, Copy, PartialEq, Eq)]
pub enum Context {
    /// Failed to read the version.
    ErrorReadingVersion,
    /// The version is too high.
    VersionTooHigh,
    /// Both autojump and ducktap are enabled at once.
    BothAutoJumpAndDuckTap,
    /// LGAGST is enabled without autojump or ducktap.
    NoLeaveGroundAction,
    /// Times is specified on the LGAGST action.
    TimesOnLeaveGroundAction,
    /// Save name is not specified.
    NoSaveName,
    /// Seed is not specified.
    NoSeed,
    /// Yaw is required but not specified.
    NoYaw,
    /// Buttons are not specified.
    NoButtons,
    /// The LGAGST min speed value is not specified.
    NoLGAGSTMinSpeed,
    /// The reset seed is not specified.
    NoResetSeed,
    /// Failed to parse a frames entry.
    ErrorParsingLine,
    /// Invalid strafing algorithm.
    InvalidStrafingAlgorithm,
    /// Vectorial strafing constraints are not specified.
    NoConstraints,
    /// Vectorial strafing constraint tolerance is not specified.
    NoTolerance,
    /// The +- in the vectorial strafing constraints is missing.
    NoPlusMinusBeforeTolerance,
    /// The parameters in the yaw range vectorial strafing constraints are not specified.
    NoFromToParameters,
    /// The yaw range vectorial strafing constraint is missing the "to" word.
    NoTo,
}

/// The rules of the format that can fail on their own.
#[derive(Debug, Clone, Copy, PartialEq, Eq)]
pub enum Rule {
    /// A fixed text, or the rest of a line.
    Tag,
    /// A number that its type cannot hold.
    MapRes,
    /// A run of digits.
    Digit,
    /// A run of spaces and tabs.
    Space,
    /// Any character, or the end of the input.
    Eof,
    /// One of a set of characters.
    OneOf,
    /// A line ending.
    CrLf,
    /// A name.
    TakeWhile1,
    /// Something that may not stand where it does.
    Not,
    /// A condition on what was read.
    Verify,
    /// A repetition that does not advance.
    Many1,
    /// A repetition up to an end that does not advance.
    ManyTill,
}

/// The expectation that a failure did not meet.
#[derive(Debug, Clone, Copy, PartialEq, Eq)]
pub enum ErrorKind {
    /// This character was expected.
    ExpectedChar(char),
    /// This rule did not match.
    Other(Rule),
}

/// Why and where reading gave up.
#[derive(Debug, Clone, Copy, PartialEq, Eq)]
pub struct Failure {
    /// How many characters of the script were left at that point.
    pub remaining: usize,
    /// The expectation that was not met.
    pub kind: ErrorKind,
    /// What the failure means for the script, once known.
    pub context: Option<Context>,
    /// Whether alternatives are no longer tried.
    pub cut: bool,
}

impl View for Failure {
    type V = Fault;

    open spec fn view(&self) -> Fault {
        Fault {
            remaining: self.remaining as nat,
            kind: self.kind,
            context: self.context,
            cut: self.cut,
        }
    }
}

/// What reading a rule gives: the rest of the input and the value read, or a failure.
pub type PResult<'a, T> = Result<(&'a [char], T), Failure>;

/// Whether `r` is the outcome `o` of a rule on the input `i`.
pub open spec fn agrees<T>(r: PResult<T>, i: Seq<char>, o: Out<T>) -> bool {
    match r {
        Ok((rest, value)) => o == Ok::<(Seq<char>, T), Fault>((rest@, value)) && rest@.len()
            <= i.len(),
        Err(e) => o == Err::<(Seq<char>, T), Fault>(e@) && e.remaining <= i.len(),
    }
}

/// Whether `r` is, by the view of its value, the outcome `o` of a rule on the input `i`.
pub open spec fn agrees_in<T: View>(r: PResult<T>, i: Seq<char>, o: Out<T::V>) -> bool {
    match r {
        Ok((rest, value)) => o == Ok::<(Seq<char>, T::V), Fault>((rest@, value@)) && rest@.len()
            <= i.len(),
        Err(e) => o == Err::<(Seq<char>, T::V), Fault>(e@) && e.remaining <= i.len(),
    }
}

/// A failure of the given kind at the start of `i`.
pub fn failure(i: &[char], kind: ErrorKind) -> (e: Failure)
    ensures
        e@ == grammar::fault(i@, kind),
{
    Failure { remaining: i.len(), kind, context: None, cut: false }
}

/// A failure of the given rule at the start of `i`.
pub fn fail(i: &[char], rule: Rule) -> (e: Failure)
    ensures
        e@ == grammar::fault(i@, ErrorKind::Other(rule)),
{
    failure(i, ErrorKind::Other(rule))
}

/// The failure, closing the alternatives.
pub fn cut(e: Failure) -> (r: Failure)
    ensures
        r == (Failure { cut: true, ..e }),
{
    Failure { remaining: e.remaining, kind: e.kind, context: e.context, cut: true }
}

/// Adds context to the failure.
///
/// If the failure already has context stored, does nothing.
pub fn context(meaning: Context, e: Failure) -> (r: Failure)
    ensures
        r@ == grammar::explained(e@, meaning),
        r.remaining == e.remaining,
{
    if e.context.is_some() {
        e
    } else {
        Failure { remaining: e.remaining, kind: e.kind, context: Some(meaning), cut: e.cut }
    }
}

/// The failure as seen from an input that goes on behind the part in which
/// it happened.
pub fn later(e: Failure, more: &[char]) -> (r: Failure)
    requires
        e.remaining + more@.len() <= usize::MAX,
    ensures
        r@ == grammar::later(e@, more@.len()),
{
    Failure { remaining: e.remaining + more.len(), kind: e.kind, context: e.context, cut: e.cut }
}

/// A slice is never longer than memory allows.
pub proof fn lemma_fits(i: &[char])
    ensures
        i@.len() <= usize::MAX,
{
    vstd::slice::axiom_spec_len(i);
}

/// The input without its first `n` characters.
pub fn skip(i: &[char], n: usize) -> (r: &[char])
    requires
        n <= i@.len(),
    ensures
        r@ == i@.skip(n as int),
{
    slice_subrange(i, n, i.len())
}

/// The first `n` characters of the input.
pub fn take(i: &[char], n: usize) -> (r: &[char])
    requires
        n <= i@.len(),
    ensures
        r@ == i@.take(n as int),
{
    slice_subrange(i, 0, n)
}

/// Whether `c` belongs to the class.
pub fn member(k: Class, c: char) -> (b: bool)
    ensures
        b == grammar::member(k, c),
{
    match k {
        Class::Digit => '0' <= c && c <= '9',
        Class::Space => c == ' ' || c == '\t',
        Class::Blank => c == ' ' || c == '\t' || c == '\r' || c == '\n',
        Class::Name => ('a' <= c && c <= 'z') || ('A' <= c && c <= 'Z') || ('0' <= c && c <= '9')
            || c == '_',
        Class::NotBar => c != '|',
        Class::NotBreak => c != '\r' && c != '\n',
        Class::NotFeed => c != '\n',
    }
}

/// How many characters at the start of `i` belong to the class.
pub fn leading(i: &[char], k: Class) -> (n: usize)
    ensures
        n == grammar::leading(i@, k),
        n <= i@.len(),
{
    let mut n: usize = 0;
    assert(i@.skip(0) =~= i@);
    while n < i.len() && member(k, i[n])
        invariant
            n <= i@.len(),
            grammar::leading(i@, k) == n + grammar::leading(i@.skip(n as int), k),
        decreases i@.len() - n,
    {
        proof {
            assert(i@.skip(n as int).skip(1) == i@.skip(n + 1));
        }
        n += 1;
    }
    n
}

/// Whether `i` starts with the character `c`.
pub fn starts_with(i: &[char], c: char) -> (b: bool)
    ensures
        b == grammar::starts_with(i@, c),
{
    i.len() > 0 && i[0] == c
}

/// Whether `i` starts with the text `t`.
pub fn has_tag(i: &[char], t: &str) -> (b: bool)
    ensures
        b == t@.is_prefix_of(i@),
        b == (grammar::tag(i@, t@) is Ok),
        b ==> t@.len() <= i@.len(),
{
    let n = t.unicode_len();
    if n > i.len() {
        return false;
    }
    let mut k: usize = 0;
    while k < n
        invariant
            n == t@.len(),
            n <= i@.len(),
            k <= n,
            forall|j: int| 0 <= j < k ==> i@[j] == t@[j],
        decreases n - k,
    {
        if i[k] != t.get_char(k) {
            assert(!t@.is_prefix_of(i@)) by {
                if t@.is_prefix_of(i@) {
                    assert(i@.subrange(0, t@.len() as int)[k as int] == t@[k as int]);
                }
            }
            return false;
        }
        k += 1;
    }
    assert(t@ =~= i@.subrange(0, t@.len() as int));
    true
}

/// Whether `s` is the text `t`.
pub fn is_text(s: &[char], t: &str) -> (b: bool)
    ensures
        b == (s@ == t@),
{
    let b = has_tag(s, t) && s.len() == t.unicode_len();
    proof {
        if b {
            assert(s@ =~= s@.subrange(0, t@.len() as int));
        }
    }
    b
}

/// The character `c`.
pub fn char(i: &[char], c: char) -> (r: PResult<char>)
    ensures
        agrees(r, i@, grammar::char(i@, c)),
{
    if starts_with(i, c) {
        Ok((skip(i, 1), c))
    } else {
        Err(failure(i, ErrorKind::ExpectedChar(c)))
    }
}

/// The text `t`.
pub fn tag<'a>(i: &'a [char], t: &str) -> (r: PResult<'a, ()>)
    ensures
        agrees(r, i@, grammar::tag(i@, t@)),
{
    if has_tag(i, t) {
        Ok((skip(i, t.unicode_len()), ()))
    } else {
        Err(fail(i, Rule::Tag))
    }
}

/// One or more characters of the class `k`; `rule` names the failure.
pub fn some_of(i: &[char], k: Class, rule: Rule) -> (r: PResult<&[char]>)
    ensures
        match r {
            Ok((rest, run)) => grammar::some_of(i@, k, rule) == Ok::<_, Fault>((rest@, run@))
                && rest@.len() < i@.len() && run@.len() + rest@.len() == i@.len(),
            Err(e) => grammar::some_of(i@, k, rule) == Err::<(Seq<char>, Seq<char>), _>(e@)
                && e.remaining <= i@.len(),
        },
{
    let n = leading(i, k);
    if n == 0 {
        Err(fail(i, rule))
    } else {
        Ok((skip(i, n), take(i, n)))
    }
}

/// One or more spaces or tabs.
pub fn space1(i: &[char]) -> (r: PResult<()>)
    ensures
        agrees(r, i@, grammar::giving(grammar::space1(i@), ())),
        r is Ok ==> r->Ok_0.0@.len() < i@.len(),
{
    match some_of(i, Class::Space, Rule::Space) {
        Ok((rest, _)) => Ok((rest, ())),
        Err(e) => Err(e),
    }
}

/// The input without the blanks at its start.
pub fn multispace0(i: &[char]) -> (r: &[char])
    ensures
        r@ == grammar::multispace0(i@),
        r@.len() <= i@.len(),
{
    skip(i, leading(i, Class::Blank))
}

/// A line feed, or a carriage return and a line feed.
pub fn line_ending(i: &[char]) -> (r: PResult<()>)
    ensures
        agrees(r, i@, grammar::line_ending(i@)),
        r is Ok ==> r->Ok_0.0@.len() < i@.len(),
{
    if starts_with(i, '\n') {
        Ok((skip(i, 1), ()))
    } else if i.len() >= 2 && i[0] == '\r' && i[1] == '\n' {
        Ok((skip(i, 2), ()))
    } else {
        Err(fail(i, Rule::CrLf))
    }
}

/// One or more line endings.
pub fn line_endings(i: &[char]) -> (r: PResult<()>)
    ensures
        agrees(r, i@, grammar::line_endings(i@)),
        r is Ok ==> r->Ok_0.0@.len() < i@.len(),
{
    let mut rest = match line_ending(i) {
        Ok((rest, _)) => rest,
        Err(e) => {
            return Err(e);
        },
    };
    loop
        invariant
            rest@.len() < i@.len(),
            grammar::line_endings(i@) == (if grammar::line_ending(rest@) is Ok {
                grammar::line_endings(rest@)
            } else {
                Ok::<_, Fault>((rest@, ()))
            }),
        decreases rest@.len(),
    {
        match line_ending(rest) {
            Ok((next, _)) => {
                rest = next;
            },
            Err(_) => {
                return Ok((rest, ()));
            },
        }
    }
}

/// The text up to the end of the line.
pub fn not_line_ending(i: &[char]) -> (r: PResult<&[char]>)
    ensures
        match r {
            Ok((rest, text)) => grammar::not_line_ending(i@) == Ok::<_, Fault>((rest@, text@))
                && text@.len() + rest@.len() == i@.len(),
            Err(e) => grammar::not_line_ending(i@) == Err::<(Seq<char>, Seq<char>), _>(e@)
                && e.remaining <= i@.len(),
        },
{
    let n = leading(i, Class::NotBreak);
    if n < i.len() && i[n] == '\r' && !(n + 1 < i.len() && i[n + 1] == '\n') {
        Err(fail(i, Rule::Tag))
    } else {
        Ok((skip(i, n), take(i, n)))
    }
}

/// One or more digits.
pub fn digit1(i: &[char]) -> (r: PResult<()>)
    ensures
        agrees(r, i@, grammar::giving(grammar::digit1(i@), ())),
{
    match some_of(i, Class::Digit, Rule::Digit) {
        Ok((rest, _)) => Ok((rest, ())),
        Err(e) => Err(e),
    }
}

/// Whether `i` starts with `+` or `-`.
pub fn starts_with_sign(i: &[char]) -> (b: bool)
    ensures
        b == grammar::starts_with_sign(i@),
{
    starts_with(i, '+') || starts_with(i, '-')
}

/// The digits of a number, with or without a point.
pub fn mantissa(i: &[char]) -> (r: PResult<()>)
    ensures
        agrees(r, i@, grammar::mantissa(i@)),
{
    let whole = leading(i, Class::Digit);
    if whole > 0 {
        let after = skip(i, whole);
        if starts_with(after, '.') {
            let fraction = leading(skip(after, 1), Class::Digit);
            assert(after@.skip(1).len() == after@.len() - 1);
            assert(fraction < after.len());
            assert(after@.skip(1).skip(fraction as int) =~= after@.skip(1 + fraction));
            Ok((skip(after, 1 + fraction), ()))
        } else {
            Ok((after, ()))
        }
    } else if starts_with(i, '.') {
        digit1(skip(i, 1))
    } else {
        Err(failure(i, ErrorKind::ExpectedChar('.')))
    }
}

/// The power of ten of a number, if it has one.
pub fn exponent(i: &[char]) -> (r: PResult<()>)
    ensures
        agrees(r, i@, grammar::exponent(i@)),
{
    if starts_with(i, 'e') || starts_with(i, 'E') {
        let after = if starts_with_sign(skip(i, 1)) {
            skip(i, 2)
        } else {
            skip(i, 1)
        };
        digit1(after)
    } else {
        Ok((i, ()))
    }
}

/// A number in decimal notation, as it is written.
pub fn recognize_float(i: &[char]) -> (r: PResult<&[char]>)
    ensures
        match r {
            Ok((rest, text)) => grammar::recognize_float(i@) == Ok::<_, Fault>((rest@, text@))
                && rest@.len() < i@.len() && grammar::is_number(text@),
            Err(e) => grammar::recognize_float(i@) == Err::<(Seq<char>, Seq<char>), _>(e@)
                && e.remaining <= i@.len(),
        },
{
    proof {
        reveal(grammar::recognize_float);
    }
    let after = if starts_with_sign(i) {
        skip(i, 1)
    } else {
        i
    };
    let rest = match mantissa(after) {
        Ok((rest, _)) => rest,
        Err(e) => {
            return Err(e);
        },
    };
    match exponent(rest) {
        Ok((rest, _)) => {
            proof {
                crate::number::lemma_recognized_is_number(i@);
            }
            Ok((rest, take(i, i.len() - rest.len())))
        },
        Err(e) => Err(e),
    }
}

/// The largest number that a non-shared seed can be.
pub const SEED_MAX: u128 = 9223372036854775807;

/// The largest number that a non-shared seed can be behind a `-`.
pub const SEED_MIN_DIGITS: u128 = 9223372036854775808;

/// The largest number that 32 bits hold.
pub const COUNT_MAX: u128 = 4294967295;

/// A number without sign that 32 bits can hold: one or more digits.
pub fn shared_seed(i: &[char]) -> (r: PResult<u32>)
    ensures
        agrees(r, i@, grammar::shared_seed(i@)),
{
    match some_of(i, Class::Digit, Rule::Digit) {
        Err(e) => Err(e),
        Ok((rest, digits)) => match decimal_up_to(digits, COUNT_MAX) {
            Some(value) => Ok((rest, value as u32)),
            None => Err(fail(i, Rule::MapRes)),
        },
    }
}

/// A number that 64 bits can hold with its sign: an optional `-`, then one or more digits.
pub fn non_shared_seed(i: &[char]) -> (r: PResult<i64>)
    ensures
        agrees(r, i@, grammar::non_shared_seed(i@)),
{
    let negative = starts_with(i, '-');
    let after = if negative {
        skip(i, 1)
    } else {
        i
    };
    match some_of(after, Class::Digit, Rule::Digit) {
        Err(e) => Err(e),
        Ok((rest, digits)) => {
            if negative {
                match decimal_up_to(digits, SEED_MIN_DIGITS) {
                    Some(value) => {
                        if value == SEED_MIN_DIGITS {
                            Ok((rest, i64::MIN))
                        } else {
                            Ok((rest, -(value as i64)))
                        }
                    },
                    None => Err(fail(i, Rule::MapRes)),
                }
            } else {
                match decimal_up_to(digits, SEED_MAX) {
                    Some(value) => Ok((rest, value as i64)),
                    None => Err(fail(i, Rule::MapRes)),
                }
            }
        },
    }
}

/// A number from 1 that 32 bits can hold: a digit that is not `0`, then any digits.
pub fn non_zero_u32(i: &[char]) -> (r: PResult<Positive>)
    ensures
        agrees(r, i@, grammar::non_zero_u32(i@)),
        r is Ok ==> r->Ok_0.0@.len() < i@.len(),
{
    if i.len() > 0 && '1' <= i[0] && i[0] <= '9' {
        let more = leading(skip(i, 1), Class::Digit);
        assert(i@.skip(1).len() == i@.len() - 1);
        assert(more < i.len());
        let n = 1 + more;
        let digits = take(i, n);
        proof {
            lemma_decimal_prefix(digits@, 1);
            assert(digits@.take(1).drop_last() =~= Seq::<char>::empty());
            assert(decimal(Seq::<char>::empty()) == 0);
            assert(digits@.take(1).last() == i@[0]);
            assert(decimal(digits@.take(1)) == digit_value(i@[0]));
        }
        match decimal_up_to(digits, COUNT_MAX) {
            Some(value) => match Positive::new(value as u32) {
                Some(count) => Ok((skip(i, n), count)),
                None => Err(fail(i, Rule::MapRes)),
            },
            None => Err(fail(i, Rule::MapRes)),
        }
    } else {
        Err(fail(i, Rule::OneOf))
    }
}

/// The version line: `version`, spaces, and the digit `1`.
pub fn version(i: &[char]) -> (r: PResult<()>)
    ensures
        agrees(r, i@, grammar::version(i@)),
{
    proof {
        reveal(grammar::version);
    }
    let (i1, _) = tag(i, "version")?;
    let (i2, _) = space1(i1)?;
    if i2.len() > 0 && '1' <= i2[0] && i2[0] <= '9' {
        if i2[0] == '1' {
            Ok((skip(i2, 1), ()))
        } else {
            Err(context(Context::VersionTooHigh, fail(i2, Rule::Verify)))
        }
    } else {
        Err(context(Context::ErrorReadingVersion, fail(i2, Rule::OneOf)))
    }
}

/// A line ending and the blanks behind it.
pub fn whitespace(i: &[char]) -> (r: PResult<()>)
    ensures
        agrees(r, i@, grammar::whitespace(i@)),
        r is Ok ==> r->Ok_0.0@.len() < i@.len(),
{
    let (rest, _) = line_ending(i)?;
    Ok((multispace0(rest), ()))
}

/// The lines of the frames section, up to the end of the input.
pub fn lines(i: &[char]) -> (r: PResult<Vec<Line>>)
    ensures
        match r {
            Ok((rest, lines)) => grammar::lines(i@) == Ok::<_, Fault>((rest@, lines_of(lines@)))
                && rest@.len() <= i@.len(),
            Err(e) => grammar::lines(i@) == Err::<(Seq<char>, Seq<LineView>), _>(e@)
                && e.remaining <= i@.len(),
        },
{
    let mut lines: Vec<Line> = Vec::new();
    let mut rest = i;
    assert(lines_of(lines@) =~= Seq::<LineView>::empty());
    loop
        invariant
            rest@.len() <= i@.len(),
            grammar::lines(i@) == (match grammar::lines(rest@) {
                Ok((end, others)) => Ok::<_, Fault>((end, lines_of(lines@) + others)),
                Err(e) => Err(e),
            }),
        decreases rest@.len(),
    {
        let ghost before = lines_of(lines@);
        let end = multispace0(rest);
        if end.len() == 0 {
            assert(before + Seq::<LineView>::empty() =~= before);
            return Ok((end, lines));
        }
        let (i1, _) = whitespace(rest)?;
        let (i2, line) = line::line(i1)?;
        proof {
            assert(lines_of(lines@.push(line)) =~= before + seq![line@]);
            match grammar::lines(i2@) {
                Ok((_, others)) => {
                    assert((before + seq![line@]) + others =~= before + (seq![line@] + others));
                },
                Err(_) => {},
            }
        }
        lines.push(line);
        rest = i2;
    }
}

/// A whole script.
pub fn hltas(i: &[char]) -> (r: PResult<HLTAS>)
    ensures
        agrees_in(r, i@, grammar::hltas(i@)),
{
    proof {
        reveal(grammar::hltas);
    }
    let (i1, _) = match version(i) {
        Ok(done) => done,
        Err(e) => {
            return Err(context(Context::ErrorReadingVersion, e));
        },
    };
    let (i2, properties) = properties::properties(i1)?;
    let (i3, _) = line_endings(i2)?;
    let (i4, _) = tag(i3, "frames")?;
    match lines(i4) {
        Ok((rest, lines)) => Ok((rest, HLTAS { properties, lines })),
        Err(e) => Err(context(Context::ErrorParsingLine, e)),
    }
}

/// `.hltas` parsing error.
#[derive(Debug, Clone, PartialEq, Eq)]
pub struct Error {
    /// Remaining input at the point of failure.
    pub input: String,
    /// The whole script that was read.
    pub whole_input: String,
    /// The expectation that was not met.
    pub kind: ErrorKind,
    /// Semantic meaning of the parsing error.
    pub context: Option<Context>,
}

impl Error {
    /// Whether this is the error of reading `text` with the fault `e`.
    pub open spec fn reports(&self, text: Seq<char>, e: Fault) -> bool {
        &&& e.remaining <= text.len()
        &&& self.whole_input@ == text
        &&& self.input@ == text.skip(text.len() - e.remaining)
        &&& self.kind == e.kind
        &&& self.context == e.context
    }

    /// How many characters of the script stand before the point of failure.
    pub open spec fn offset(&self) -> nat {
        if self.input@.len() <= self.whole_input@.len() {
            (self.whole_input@.len() - self.input@.len()) as nat
        } else {
            0
        }
    }

    /// The place of the failure in the script, if it lies in one of its lines.
    pub open spec fn place(&self) -> Option<grammar::Place> {
        grammar::locate(self.whole_input@, self.offset(), 0)
    }
}

} // verus!
