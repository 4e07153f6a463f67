//! The properties that stand between the version line and the frames section.

use vstd::prelude::*;
use crate::grammar::{
    fail, later, line_endings, non_shared_seed, non_zero_u32, not_line_ending, shared_seed,
    some_of, space1, Class, Fault, Out,
};
use crate::read::Rule;
use crate::types::{PropertiesView, Seeds};

verus! {

/// A name and a value on one line: letters, digits and `_`, then spaces, then
/// the rest of the line.
#[verifier::opaque]
pub open spec fn property(i: Seq<char>) -> Out<(Seq<char>, Seq<char>)> {
    match some_of(i, Class::Name, Rule::TakeWhile1) {
        Err(e) => Err(e),
        Ok((i1, name)) => match space1(i1) {
            Err(e) => Err(e),
            Ok((i2, _)) => match not_line_ending(i2) {
                Err(e) => Err(e),
                Ok((i3, value)) => Ok((i3, (name, value))),
            },
        },
    }
}

/// The two seeds: the shared one, spaces, and the non-shared one.
pub open spec fn seeds(i: Seq<char>) -> Out<Seeds> {
    match shared_seed(i) {
        Err(e) => Err(e),
        Ok((i1, shared)) => match space1(i1) {
            Err(e) => Err(e),
            Ok((i2, _)) => match non_shared_seed(i2) {
                Err(e) => Err(e),
                Ok((i3, non_shared)) => Ok((i3, Seeds { shared, non_shared })),
            },
        },
    }
}

/// One or more line endings, then a property.
pub open spec fn nl_property(i: Seq<char>) -> Out<(Seq<char>, Seq<char>)> {
    match line_endings(i) {
        Err(e) => Err(e),
        Ok((rest, _)) => property(rest),
    }
}

/// The properties `p` after the property `name` with the given value was
/// read, with `more` characters behind the value. A name that is not known
/// changes nothing.
#[verifier::opaque]
pub open spec fn with_property(
    p: PropertiesView,
    name: Seq<char>,
    value: Seq<char>,
    more: nat,
) -> Result<PropertiesView, Fault> {
    if name == "demo"@ {
        Ok(PropertiesView { demo: Some(value), ..p })
    } else if name == "save"@ {
        Ok(PropertiesView { save: Some(value), ..p })
    } else if name == "frametime0ms"@ {
        Ok(PropertiesView { frametime_0ms: Some(value), ..p })
    } else if name == "seed"@ {
        match seeds(value) {
            Ok((_, seeds)) => Ok(PropertiesView { seeds: Some(seeds), ..p }),
            Err(e) => Err(later(e, more)),
        }
    } else if name == "hlstrafe_version"@ {
        match non_zero_u32(value) {
            Ok((_, version)) => Ok(PropertiesView { hlstrafe_version: Some(version), ..p }),
            Err(e) => Err(later(e, more)),
        }
    } else if name == "load_command"@ {
        Ok(PropertiesView { load_command: Some(value), ..p })
    } else {
        Ok(p)
    }
}

/// The properties that follow in `i`, read on top of `p`: each line that is a
/// property, up to the first line that is none.
pub open spec fn properties_onto(i: Seq<char>, p: PropertiesView) -> Out<PropertiesView>
    decreases i.len(),
{
    match nl_property(i) {
        Err(_) => Ok((i, p)),
        Ok((rest, (name, value))) => match with_property(p, name, value, rest.len()) {
            Err(e) => Err(e),
            Ok(next) => if rest.len() < i.len() {
                properties_onto(rest, next)
            } else {
                fail(rest, Rule::Many1)
            },
        },
    }
}

/// The properties at the start of `i`. Of a property that stands twice the
/// last value counts.
pub open spec fn properties(i: Seq<char>) -> Out<PropertiesView> {
    properties_onto(i, PropertiesView::none())
}

} // verus!
