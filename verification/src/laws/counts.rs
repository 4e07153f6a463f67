//! Repeat counts, and the meaning of a failure.

use vstd::prelude::*;
use crate::grammar::line::parse_times;
use crate::grammar::{context, Class, Out};
use crate::laws::pieces::ends_run;
use crate::notation::digits;
use crate::read::Context;
use crate::types::{Positive, Times};

verus! {

broadcast use crate::types::group_positive;

/// A count that is left out is unlimited within the frame bulk: where the
/// input does not start with a digit from 1 to 9, nothing is read as a
/// count. This holds of an input that starts with `0` too.
pub proof fn count_left_out(i: Seq<char>)
    requires
        i.len() == 0 || !('1' <= i[0] <= '9'),
    ensures
        parse_times(i) == (i, Times::UnlimitedWithinFrameBulk),
{
}

/// A number from 1 that 32 bits can hold, written in decimal before
/// anything that is no digit, is read as a count limited to that number.
pub proof fn count_written(n: u32, tail: Seq<char>)
    requires
        n >= 1,
        ends_run(tail, Class::Digit),
    ensures
        parse_times(digits(n as nat) + tail) == (tail, Times::Limited(Positive::of(n))),
{
    crate::laws::fields::lemma_times(Times::Limited(Positive::of(n)), tail);
}

/// A count that is read is never 0.
pub proof fn count_is_positive(i: Seq<char>)
    ensures
        parse_times(i).1 matches Times::Limited(count) ==> count.value() >= 1,
{
    crate::laws::produced::lemma_times(i);
}

/// The first meaning that is given to a failure stays: giving it another
/// one later changes nothing.
pub proof fn first_context_stays<T>(o: Out<T>, first: Context, second: Context)
    ensures
        context(second, context(first, o)) == context(first, o),
{
}

} // verus!
