//! Reading what was written.

use vstd::prelude::*;
use crate::grammar::{parse, Fault};
use crate::laws::valid;
use crate::notation;
use crate::types::HLTASView;

verus! {

/// A script that is well formed is read back from what is written of it.
pub proof fn written_is_read(script: HLTASView)
    requires
        valid::script(script),
    ensures
        parse(notation::hltas(script)) == Ok::<_, Fault>(script),
{
    crate::laws::script::lemma_script(script);
}

/// A script that was read is well formed.
pub proof fn read_is_valid(text: Seq<char>)
    requires
        parse(text) is Ok,
    ensures
        valid::script(parse(text)->Ok_0),
{
    crate::laws::produced::lemma_script(text);
}

/// Round trip: a script that was read from some text is read again from
/// what is written of it.
pub proof fn round_trip(text: Seq<char>)
    requires
        parse(text) is Ok,
    ensures
        parse(notation::hltas(parse(text)->Ok_0)) == parse(text),
{
    read_is_valid(text);
    written_is_read(parse(text)->Ok_0);
}

/// Writing again what was read from a written script gives the same text,
/// character by character.
pub proof fn rewrite_is_same(text: Seq<char>)
    requires
        parse(text) is Ok,
    ensures
        parse(notation::hltas(parse(text)->Ok_0)) is Ok,
        notation::hltas(parse(notation::hltas(parse(text)->Ok_0))->Ok_0) == notation::hltas(
            parse(text)->Ok_0,
        ),
{
    round_trip(text);
}

} // verus!
