//! Where an error lies in the script, and what it says.

use vstd::prelude::*;
use vstd::string::StrSliceExecFns;
use vstd::string::StringExecFns;
use crate::grammar;
use crate::grammar::{Class, Place};
use crate::notation::digits;
use crate::read::{leading, skip, Context, Error, ErrorKind, Rule};
use crate::text::{chars_of, push_char};
use nom::error::ErrorKind as Kind;

verus! {

broadcast use crate::text::group_concat;

impl Context {
    /// What the context says, in words.
    pub open spec fn text(self) -> Seq<char> {
        match self {
            Context::ErrorReadingVersion => "failed to read version"@,
            Context::VersionTooHigh => "this version is not supported"@,
            Context::BothAutoJumpAndDuckTap =>
                "both autojump and ducktap are specified at the same time"@,
            Context::NoLeaveGroundAction =>
                "no LGAGST action specified (either autojump or ducktap is required)"@,
            Context::TimesOnLeaveGroundAction =>
                "times on autojump or ducktap with LGAGST enabled (put times on LGAGST instead)"@,
            Context::NoSaveName => "missing save name"@,
            Context::NoSeed => "missing seed value"@,
            Context::NoButtons => "missing button values"@,
            Context::NoLGAGSTMinSpeed => "missing lgagstminspeed value"@,
            Context::NoResetSeed => "missing reset seed"@,
            Context::NoYaw => "missing yaw value"@,
            Context::ErrorParsingLine => "failed to parse the line"@,
            Context::InvalidStrafingAlgorithm =>
                "invalid strafing algorithm (only \"yaw\" and \"vectorial\" allowed)"@,
            Context::NoConstraints => "missing constraints"@,
            Context::NoTolerance => "missing tolerance (e.g. \"+-0.1\")"@,
            Context::NoPlusMinusBeforeTolerance => "missing +- before tolerance"@,
            Context::NoFromToParameters => "missing from/to parameters"@,
            Context::NoTo => "missing \"to\" in the from/to constraint"@,
        }
    }

    /// What the context says, in words.
    pub fn message(self) -> (s: &'static str)
        ensures
            s@ == self.text(),
    {
        match self {
            Context::ErrorReadingVersion => "failed to read version",
            Context::VersionTooHigh => "this version is not supported",
            Context::BothAutoJumpAndDuckTap =>
                "both autojump and ducktap are specified at the same time",
            Context::NoLeaveGroundAction =>
                "no LGAGST action specified (either autojump or ducktap is required)",
            Context::TimesOnLeaveGroundAction =>
                "times on autojump or ducktap with LGAGST enabled (put times on LGAGST instead)",
            Context::NoSaveName => "missing save name",
            Context::NoSeed => "missing seed value",
            Context::NoButtons => "missing button values",
            Context::NoLGAGSTMinSpeed => "missing lgagstminspeed value",
            Context::NoResetSeed => "missing reset seed",
            Context::NoYaw => "missing yaw value",
            Context::ErrorParsingLine => "failed to parse the line",
            Context::InvalidStrafingAlgorithm =>
                "invalid strafing algorithm (only \"yaw\" and \"vectorial\" allowed)",
            Context::NoConstraints => "missing constraints",
            Context::NoTolerance => "missing tolerance (e.g. \"+-0.1\")",
            Context::NoPlusMinusBeforeTolerance => "missing +- before tolerance",
            Context::NoFromToParameters => "missing from/to parameters",
            Context::NoTo => "missing \"to\" in the from/to constraint",
        }
    }
}

impl Rule {
    /// The name that nom gives the rule.
    pub open spec fn text(self) -> Seq<char> {
        match self {
            Rule::Tag => "Tag"@,
            Rule::MapRes => "Map on Result"@,
            Rule::Digit => "Digit"@,
            Rule::Space => "Space"@,
            Rule::Eof => "End of file"@,
            Rule::OneOf => "OneOf"@,
            Rule::CrLf => "CrLf"@,
            Rule::TakeWhile1 => "TakeWhile1"@,
            Rule::Not => "Negation"@,
            Rule::Verify => "predicate verification"@,
            Rule::Many1 => "Many1"@,
            Rule::ManyTill => "ManyTill"@,
        }
    }
}

/// The name that nom gives the rule: `nom::error::ErrorKind::description`
/// of the error kind that stands for the rule.
///
/// The contract states the name of each of the twelve kinds, as nom's
/// source gives them.
#[verifier::external_body]
fn description(rule: Rule) -> (s: String)
    ensures
        s@ == rule.text(),
{
    let kind = match rule {
        Rule::Tag => Kind::Tag, Rule::MapRes => Kind::MapRes,
        Rule::Digit => Kind::Digit, Rule::Space => Kind::Space,
        Rule::Eof => Kind::Eof, Rule::OneOf => Kind::OneOf,
        Rule::CrLf => Kind::CrLf, Rule::TakeWhile1 => Kind::TakeWhile1,
        Rule::Not => Kind::Not, Rule::Verify => Kind::Verify,
        Rule::Many1 => Kind::Many1, Rule::ManyTill => Kind::ManyTill,
    };
    kind.description().to_owned()
}

/// A run of `n` spaces.
pub open spec fn spaces(n: nat) -> Seq<char> {
    Seq::new(n, |k: int| ' ')
}

/// What an error without a context says first: what was expected and what
/// stood there, or the rule that did not match.
pub open spec fn expectation(kind: ErrorKind, input: Seq<char>) -> Seq<char> {
    match kind {
        ErrorKind::ExpectedChar(c) => if input.len() > 0 {
            "expected '"@ + seq![c] + "', got '"@ + seq![input[0]] + "'"@
        } else {
            "expected '"@ + seq![c] + "', got EOF"@
        },
        ErrorKind::Other(rule) => "error applying "@ + rule.text(),
    }
}

/// The line of the script with its number before it, and under it a caret
/// in the column of the failure.
pub open spec fn excerpt(place: Place) -> Seq<char> {
    "\n"@ + digits(place.line) + " | "@ + place.text + "\n"@ + spaces(
        digits(place.line).len() + 3 + place.column,
    ) + "^"@
}

/// What stands behind the caret: the character that was expected, if one was.
pub open spec fn expected(kind: ErrorKind) -> Seq<char> {
    match kind {
        ErrorKind::ExpectedChar(c) => " expected '"@ + seq![c] + "'"@,
        ErrorKind::Other(_) => Seq::empty(),
    }
}

impl Error {
    /// What the error says: the meaning of the failure, or where it has
    /// none, the expectation that was not met; then, if the failure lies in
    /// a line of the script, that line with a caret under the column, and
    /// the character that was expected there.
    pub open spec fn text(&self) -> Seq<char> {
        let head = match self.context {
            Some(context) => context.text(),
            None => expectation(self.kind, self.input@),
        };
        match self.place() {
            Some(place) => head + excerpt(place) + expected(self.kind),
            None => head,
        }
    }

    /// Returns the line number on which the error has occurred, counted
    /// from 0; 0 also where the point of failure lies in no line.
    pub fn line(&self) -> (n: usize)
        ensures
            n == (match self.place() {
                Some(place) => place.line,
                None => 0,
            }),
    {
        let whole = chars_of(self.whole_input.as_str());
        match locate(whole.as_slice(), self.offset_in(whole.as_slice())) {
            Some((line, _, _, _)) => line,
            None => 0,
        }
    }

    /// How many characters of the script stand before the point of failure.
    fn offset_in(&self, whole: &[char]) -> (n: usize)
        requires
            whole@ == self.whole_input@,
        ensures
            n == self.offset(),
            n <= whole@.len(),
    {
        let left = self.input.as_str().unicode_len();
        if left <= whole.len() {
            whole.len() - left
        } else {
            0
        }
    }

    /// What the error says, in a form fit for a terminal.
    pub fn message(&self) -> (s: String)
        ensures
            s@ == self.text(),
    {
        let mut s = String::new();
        match self.context {
            Some(context) => {
                s.append(context.message());
            },
            None => {
                push_expectation(&mut s, self.kind, self.input.as_str());
            },
        }
        let whole = chars_of(self.whole_input.as_str());
        match locate(whole.as_slice(), self.offset_in(whole.as_slice())) {
            None => {},
            Some((line, column, start, end)) => {
                push_excerpt(&mut s, whole.as_slice(), line, column, start, end);
                push_expected(&mut s, self.kind);
            },
        }
        s
    }
}

/// Appends what an error without a context says first.
fn push_expectation(s: &mut String, kind: ErrorKind, input: &str)
    ensures
        final(s)@ == old(s)@ + expectation(kind, input@),
{
    match kind {
        ErrorKind::ExpectedChar(c) => {
            s.append("expected '");
            push_char(s, c);
            if input.unicode_len() > 0 {
                s.append("', got '");
                push_char(s, input.get_char(0));
                s.append("'");
                assert(s@ == old(s)@ + "expected '"@ + seq![c] + "', got '"@ + seq![input@[0]]
                    + "'"@) by {
                    assert((old(s)@ + "expected '"@).push(c) =~= old(s)@ + "expected '"@
                        + seq![c]);
                    assert((old(s)@ + "expected '"@ + seq![c] + "', got '"@).push(input@[0])
                        =~= old(s)@ + "expected '"@ + seq![c] + "', got '"@ + seq![input@[0]]);
                }
            } else {
                s.append("', got EOF");
                assert(s@ == old(s)@ + "expected '"@ + seq![c] + "', got EOF"@) by {
                    assert((old(s)@ + "expected '"@).push(c) =~= old(s)@ + "expected '"@
                        + seq![c]);
                }
            }
        },
        ErrorKind::Other(rule) => {
            s.append("error applying ");
            s.append(description(rule).as_str());
        },
    }
}

/// Appends what stands behind the caret.
fn push_expected(s: &mut String, kind: ErrorKind)
    ensures
        final(s)@ == old(s)@ + expected(kind),
{
    match kind {
        ErrorKind::ExpectedChar(c) => {
            s.append(" expected '");
            push_char(s, c);
            s.append("'");
            assert((old(s)@ + " expected '"@).push(c) =~= old(s)@ + " expected '"@ + seq![c]);
        },
        ErrorKind::Other(_) => {},
    }
}

/// Appends the characters of `chars`.
fn push_slice(s: &mut String, chars: &[char])
    ensures
        final(s)@ == old(s)@ + chars@,
{
    let mut k: usize = 0;
    assert(chars@.take(0) =~= Seq::<char>::empty());
    while k < chars.len()
        invariant
            k <= chars@.len(),
            s@ == old(s)@ + chars@.take(k as int),
        decreases chars@.len() - k,
    {
        push_char(s, chars[k]);
        assert(old(s)@ + chars@.take(k + 1) =~= (old(s)@ + chars@.take(k as int)).push(
            chars@[k as int],
        ));
        k += 1;
    }
    assert(chars@.take(k as int) =~= chars@);
}

/// Appends `n` spaces.
fn push_spaces(s: &mut String, n: usize)
    ensures
        final(s)@ == old(s)@ + spaces(n as nat),
{
    let mut k: usize = 0;
    assert(spaces(0) =~= Seq::<char>::empty());
    while k < n
        invariant
            k <= n,
            s@ == old(s)@ + spaces(k as nat),
        decreases n - k,
    {
        push_char(s, ' ');
        assert(old(s)@ + spaces((k + 1) as nat) =~= (old(s)@ + spaces(k as nat)).push(' '));
        k += 1;
    }
}

/// Spaces behind spaces are spaces.
proof fn lemma_spaces(a: nat, b: nat)
    ensures
        spaces(a) + spaces(b) == spaces(a + b),
{
    assert(spaces(a) + spaces(b) =~= spaces(a + b));
}

/// Appends the line of the script that lies between `start` and `end`, with
/// its number before it, and under it a caret in the given column.
fn push_excerpt(
    s: &mut String,
    whole: &[char],
    line: usize,
    column: usize,
    start: usize,
    end: usize,
)
    requires
        start <= end <= whole@.len(),
        column <= whole@.len(),
    ensures
        final(s)@ == old(s)@ + excerpt(
            Place {
                line: line as nat,
                column: column as nat,
                text: whole@.subrange(start as int, end as int),
            },
        ),
{
    s.append("\n");
    let mut number = String::new();
    crate::write::digits(&mut number, line as u64);
    s.append(number.as_str());
    s.append(" | ");
    push_slice(s, vstd::slice::slice_subrange(whole, start, end));
    s.append("\n");
    let width = number.as_str().unicode_len();
    push_spaces(s, width);
    push_spaces(s, 3);
    push_spaces(s, column);
    proof {
        lemma_spaces(width as nat, 3);
        lemma_spaces((width + 3) as nat, column as nat);
    }
    s.append("^");
}

/// The place that lies `offset` characters into `whole`: the number of its
/// line, its column, and where the line starts and ends in `whole`.
pub fn locate(whole: &[char], offset: usize) -> (r: Option<(usize, usize, usize, usize)>)
    ensures
        match r {
            Some((line, column, start, end)) => start <= end <= whole@.len() && column
                <= whole@.len() && grammar::locate(whole@, offset as nat, 0) == Some(
                Place {
                    line: line as nat,
                    column: column as nat,
                    text: whole@.subrange(start as int, end as int),
                },
            ),
            None => grammar::locate(whole@, offset as nat, 0) is None,
        },
{
    let mut start: usize = 0;
    let mut left: usize = offset;
    let mut line: usize = 0;
    assert(whole@.skip(0) =~= whole@);
    loop
        invariant
            start <= whole@.len(),
            line <= start,
            grammar::locate(whole@, offset as nat, 0) == grammar::locate(
                whole@.skip(start as int),
                left as nat,
                line as nat,
            ),
        decreases whole@.len() - start,
    {
        let text = skip(whole, start);
        if text.len() == 0 {
            return None;
        }
        let n = leading(text, Class::NotFeed);
        proof {
            crate::read::lemma_fits(whole);
        }
        let (length, next) = if n < text.len() {
            assert(whole@.skip(start as int).skip(n + 1) =~= whole@.skip(start + n + 1));
            if n > 0 && text[n - 1] == '\r' {
                assert(text@.take(n - 1) =~= whole@.subrange(start as int, start + n - 1));
                (n - 1, start + n + 1)
            } else {
                assert(text@.take(n as int) =~= whole@.subrange(start as int, start + n));
                (n, start + n + 1)
            }
        } else {
            assert(text@ =~= whole@.subrange(start as int, start + n));
            assert(whole@.skip(whole@.len() as int) =~= Seq::<char>::empty());
            (n, whole.len())
        };
        if left <= length {
            return Some((line, left, start, start + length));
        }
        left = left - length - 1;
        line = line + 1;
        start = next;
    }
}

} // verus!
