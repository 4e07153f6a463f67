//! Reading the properties that stand before the frames section.

use vstd::prelude::*;
use crate::grammar;
use crate::grammar::{Class, Fault};
use crate::read::{
    agrees, agrees_in, is_text, later, lemma_fits, line_endings, non_shared_seed, non_zero_u32,
    not_line_ending, shared_seed, some_of, space1, Failure, PResult, Rule,
};
use crate::text::string_of;
use crate::types::{Properties, Seeds};

verus! {

/// A name and a value on one line.
pub fn property(i: &[char]) -> (r: PResult<(&[char], &[char])>)
    ensures
        match r {
            Ok((rest, (name, value))) => grammar::properties::property(i@) == Ok::<_, Fault>(
                (rest@, (name@, value@)),
            ) && name@.len() + value@.len() + rest@.len() < i@.len(),
            Err(e) => grammar::properties::property(i@) == Err::<
                (Seq<char>, (Seq<char>, Seq<char>)),
                _,
            >(e@) && e.remaining <= i@.len(),
        },
{
    proof {
        reveal(grammar::properties::property);
    }
    let (i1, name) = some_of(i, Class::Name, Rule::TakeWhile1)?;
    let (i2, _) = space1(i1)?;
    let (i3, value) = not_line_ending(i2)?;
    Ok((i3, (name, value)))
}

/// The two seeds: the shared one, spaces, and the non-shared one.
pub fn seeds(i: &[char]) -> (r: PResult<Seeds>)
    ensures
        agrees(r, i@, grammar::properties::seeds(i@)),
{
    let (i1, shared) = shared_seed(i)?;
    let (i2, _) = space1(i1)?;
    let (i3, non_shared) = non_shared_seed(i2)?;
    Ok((i3, Seeds { shared, non_shared }))
}

/// One or more line endings, then a property.
pub fn nl_property(i: &[char]) -> (r: PResult<(&[char], &[char])>)
    ensures
        match r {
            Ok((rest, (name, value))) => grammar::properties::nl_property(i@) == Ok::<_, Fault>(
                (rest@, (name@, value@)),
            ) && name@.len() + value@.len() + rest@.len() < i@.len(),
            Err(e) => grammar::properties::nl_property(i@) == Err::<
                (Seq<char>, (Seq<char>, Seq<char>)),
                _,
            >(e@) && e.remaining <= i@.len(),
        },
{
    let (rest, _) = line_endings(i)?;
    property(rest)
}

/// The properties after the property `name` with the given value was read,
/// with `more` behind the value.
pub fn with_property(p: Properties, name: &[char], value: &[char], more: &[char]) -> (r: Result<
    Properties,
    Failure,
>)
    requires
        value@.len() + more@.len() <= usize::MAX,
    ensures
        match r {
            Ok(next) => grammar::properties::with_property(p@, name@, value@, more@.len()) == Ok::<
                _,
                Fault,
            >(next@),
            Err(e) => grammar::properties::with_property(p@, name@, value@, more@.len()) == Err::<
                crate::types::PropertiesView,
                _,
            >(e@) && e.remaining <= value@.len() + more@.len(),
        },
{
    proof {
        reveal(grammar::properties::with_property);
    }
    let mut p = p;
    if is_text(name, "demo") {
        p.demo = Some(string_of(value));
    } else if is_text(name, "save") {
        p.save = Some(string_of(value));
    } else if is_text(name, "frametime0ms") {
        p.frametime_0ms = Some(string_of(value));
    } else if is_text(name, "seed") {
        match seeds(value) {
            Ok((_, seeds)) => {
                p.seeds = Some(seeds);
            },
            Err(e) => {
                return Err(later(e, more));
            },
        }
    } else if is_text(name, "hlstrafe_version") {
        match non_zero_u32(value) {
            Ok((_, version)) => {
                p.hlstrafe_version = Some(version);
            },
            Err(e) => {
                return Err(later(e, more));
            },
        }
    } else if is_text(name, "load_command") {
        p.load_command = Some(string_of(value));
    }
    Ok(p)
}

/// The properties at the start of `i`: each line that is a property, up to
/// the first line that is none.
pub fn properties(i: &[char]) -> (r: PResult<Properties>)
    ensures
        agrees_in(r, i@, grammar::properties::properties(i@)),
{
    let mut properties = Properties::default();
    let mut rest = i;
    loop
        invariant
            rest@.len() <= i@.len(),
            grammar::properties::properties(i@) == grammar::properties::properties_onto(
                rest@,
                properties@,
            ),
        decreases rest@.len(),
    {
        match nl_property(rest) {
            Err(_) => {
                return Ok((rest, properties));
            },
            Ok((next, (name, value))) => {
                proof {
                    lemma_fits(rest);
                }
                properties = with_property(properties, name, value, next)?;
                rest = next;
            },
        }
    }
}

} // verus!
