//! How a constraints line is read back.

use vstd::prelude::*;
use crate::grammar::line as rules;
use crate::grammar::{is_zero, leading, or, recognize_float, Class, Fault};
use crate::laws::fields::{ends_line, lemma_first, lemma_float, lemma_joined_nine};
use crate::laws::lines::{
    lemma_all_of, lemma_keyed, lemma_line_rest, lemma_number_fits, lemma_other_words,
    lemma_word_line, lemma_words,
};
use crate::laws::pieces::{
    all_of, ends_number, lemma_digits_shape, lemma_non_zero_u32, lemma_not_tag, lemma_split,
    lemma_tag,
};
use crate::laws::valid;
use crate::notation;
use crate::text::lemma_concat_assoc;
use crate::types::{LineView, Positive, VectorialStrafingConstraintsView};

verus! {

/// The words of the constraints, as far as the laws need them.
pub proof fn lemma_constraint_words()
    ensures
        "velocity"@.len() == 8 && "velocity"@[0] == 'v' && all_of("velocity"@, Class::NotBreak),
        "velocity_avg"@.len() == 12 && "velocity_avg"@[0] == 'v' && "velocity_avg"@[8] == '_'
            && "velocity_avg"@[9] == 'a' && all_of("velocity_avg"@, Class::NotBreak),
        "velocity_lock"@.len() == 13 && "velocity_lock"@[0] == 'v' && "velocity_lock"@[8] == '_'
            && "velocity_lock"@[9] == 'l' && all_of("velocity_lock"@, Class::NotBreak),
        "from "@.len() == 5 && "from "@[0] == 'f' && "from "@[4] == ' ' && all_of(
            "from "@,
            Class::NotBreak,
        ),
        "from"@.len() == 4 && "from"@[0] == 'f' && "from"@.is_prefix_of("from "@),
        " to "@.len() == 4 && " to "@[0] == ' ' && all_of(" to "@, Class::NotBreak),
        "look_at"@.len() == 7 && "look_at"@[0] == 'l' && all_of("look_at"@, Class::NotBreak),
        " entity "@.len() == 8 && " entity "@[0] == ' ' && " entity "@[1] == 'e' && all_of(
            " entity "@,
            Class::NotBreak,
        ),
        " +-"@.len() == 3 && " +-"@[0] == ' ' && all_of(" +-"@, Class::NotBreak),
        " +-"@ == seq![' '] + "+-"@,
        " "@ == seq![' '],
{
    reveal_strlit("velocity");
    reveal_strlit("velocity_avg");
    reveal_strlit("velocity_lock");
    reveal_strlit("from ");
    reveal_strlit("from");
    reveal_strlit(" to ");
    reveal_strlit("look_at");
    reveal_strlit(" entity ");
    reveal_strlit(" +-");
    reveal_strlit("+-");
    reveal_strlit(" ");
    assert(" +-"@ =~= seq![' '] + "+-"@);
    assert(" "@ =~= seq![' ']);
    assert("from "@.subrange(0, 4) =~= "from"@);
}

/// A tolerance is read back at the end of a value; what is written of it
/// fits in a line, and is empty or starts with a space.
pub proof fn lemma_tolerance(text: Seq<char>)
    requires
        valid::tolerance(text),
    ensures
        rules::tolerance(notation::tolerance(text)) == Ok::<_, Fault>(
            (Seq::<char>::empty(), text),
        ),
        all_of(notation::tolerance(text), Class::NotBreak),
        notation::tolerance(text).len() == 0 || notation::tolerance(text)[0] == ' ',
{
    lemma_constraint_words();
    if !is_zero(text) {
        let i = notation::tolerance(text);
        lemma_concat_assoc(seq![' '], "+-"@, text);
        lemma_first(seq![' '], "+-"@ + text);
        lemma_tag("+-"@, text);
        assert(text + Seq::<char>::empty() =~= text);
        lemma_float(text, Seq::<char>::empty());
        lemma_number_fits(text);
        lemma_all_of(" +-"@, text, Class::NotBreak);
        assert(i[0] == ' ');
    }
}

/// What stands behind `target_yaw` and a space in a constraints line.
pub open spec fn body(constraints: VectorialStrafingConstraintsView) -> Seq<char> {
    match constraints {
        VectorialStrafingConstraintsView::VelocityYaw { tolerance: t } => "velocity"@
            + notation::tolerance(t),
        VectorialStrafingConstraintsView::AvgVelocityYaw { tolerance: t } => "velocity_avg"@
            + notation::tolerance(t),
        VectorialStrafingConstraintsView::VelocityYawLocking { tolerance: t } => "velocity_lock"@
            + notation::tolerance(t),
        VectorialStrafingConstraintsView::Yaw { yaw, tolerance: t } => yaw + notation::tolerance(
            t,
        ),
        VectorialStrafingConstraintsView::YawRange { from, to } => "from "@ + (from + (" to "@
            + to)),
        VectorialStrafingConstraintsView::LookAt { entity: e, x, y, z } => "look_at"@ + (
        notation::entity(e) + (seq![' '] + (x + (seq![' '] + (y + (seq![' '] + z)))))),
    }
}

/// What is written of a constraints line is `target_yaw`, a space and the body.
pub proof fn lemma_body(constraints: VectorialStrafingConstraintsView, tail: Seq<char>)
    ensures
        notation::constraints(constraints) + tail == "target_yaw"@ + (seq![' '] + (body(
            constraints,
        ) + tail)),
{
    lemma_constraint_words();
    let w = "target_yaw"@;
    let sp = seq![' '];
    match constraints {
        VectorialStrafingConstraintsView::YawRange { from, to } => {
            assert("from "@ + from + " to "@ + to =~= body(constraints));
        },
        VectorialStrafingConstraintsView::LookAt { entity: e, x, y, z } => {
            lemma_joined_nine(
                "look_at"@,
                notation::entity(e),
                sp,
                x,
                sp,
                y,
                sp,
                z,
                Seq::<char>::empty(),
            );
            assert(z + Seq::<char>::empty() =~= z);
            assert(("look_at"@ + notation::entity(e) + sp + x + sp + y + sp + z)
                + Seq::<char>::empty() =~= "look_at"@ + notation::entity(e) + sp + x + sp + y + sp
                + z);
        },
        _ => {},
    }
    assert(w + sp + body(constraints) + tail =~= w + (sp + (body(constraints) + tail)));
}

/// Constraints about the velocity are read back.
pub proof fn lemma_velocity(constraints: VectorialStrafingConstraintsView)
    requires
        valid::constraints(constraints),
        constraints is VelocityYaw || constraints is AvgVelocityYaw
            || constraints is VelocityYawLocking,
    ensures
        rules::constraints(body(constraints)) == Ok::<_, Fault>(
            (Seq::<char>::empty(), constraints),
        ),
        valid::value_text(body(constraints)),
        body(constraints).len() > 0,
        body(constraints)[0] == 'v',
{
    reveal(rules::constraints);
    lemma_constraint_words();
    let i = body(constraints);
    match constraints {
        VectorialStrafingConstraintsView::VelocityYaw { tolerance: t } => {
            let n = notation::tolerance(t);
            lemma_tolerance(t);
            lemma_split("velocity"@, n);
            lemma_all_of("velocity"@, n, Class::NotBreak);
            assert(i[0] == 'v');
            if n.len() > 0 {
                assert(i[8] == n[0]);
            }
            lemma_not_tag(i, "velocity_avg"@, 8);
            lemma_not_tag(i, "velocity_lock"@, 8);
        },
        VectorialStrafingConstraintsView::AvgVelocityYaw { tolerance: t } => {
            let n = notation::tolerance(t);
            lemma_tolerance(t);
            lemma_split("velocity_avg"@, n);
            lemma_all_of("velocity_avg"@, n, Class::NotBreak);
            assert(i[0] == 'v');
        },
        VectorialStrafingConstraintsView::VelocityYawLocking { tolerance: t } => {
            let n = notation::tolerance(t);
            lemma_tolerance(t);
            lemma_split("velocity_lock"@, n);
            lemma_all_of("velocity_lock"@, n, Class::NotBreak);
            assert(i[0] == 'v');
            assert(i[9] == 'l');
            lemma_not_tag(i, "velocity_avg"@, 9);
        },
        _ => {},
    }
}

/// A text that starts with a letter is no number.
pub proof fn lemma_no_float(i: Seq<char>)
    requires
        i.len() > 0,
        i[0] == 'f' || i[0] == 'l',
    ensures
        rules::float(i) is Err,
{
    reveal(recognize_float);
}

/// A yaw with a tolerance is read back.
pub proof fn lemma_yaw(constraints: VectorialStrafingConstraintsView)
    requires
        valid::constraints(constraints),
        constraints is Yaw,
    ensures
        rules::constraints(body(constraints)) == Ok::<_, Fault>(
            (Seq::<char>::empty(), constraints),
        ),
        valid::value_text(body(constraints)),
        body(constraints).len() > 0,
        body(constraints)[0] != 'f',
{
    reveal(rules::constraints);
    lemma_constraint_words();
    let i = body(constraints);
    match constraints {
        VectorialStrafingConstraintsView::Yaw { yaw, tolerance: t } => {
            let n = notation::tolerance(t);
            lemma_tolerance(t);
            lemma_number_fits(yaw);
            lemma_all_of(yaw, n, Class::NotBreak);
            assert(i[0] == yaw[0]);
            lemma_not_tag(i, "velocity_avg"@, 0);
            lemma_not_tag(i, "velocity_lock"@, 0);
            lemma_not_tag(i, "velocity"@, 0);
            lemma_float(yaw, n);
        },
        _ => {},
    }
}

/// A range of yaws is read back.
pub proof fn lemma_yaw_range(constraints: VectorialStrafingConstraintsView)
    requires
        valid::constraints(constraints),
        constraints is YawRange,
    ensures
        rules::constraints(body(constraints)) == Ok::<_, Fault>(
            (Seq::<char>::empty(), constraints),
        ),
        valid::value_text(body(constraints)),
        body(constraints).len() > 0,
        !rules::bare_from(body(constraints)),
{
    reveal(rules::constraints);
    lemma_constraint_words();
    let i = body(constraints);
    match constraints {
        VectorialStrafingConstraintsView::YawRange { from, to } => {
            let i2 = " to "@ + to;
            let i1 = from + i2;
            lemma_number_fits(from);
            lemma_number_fits(to);
            lemma_all_of(" to "@, to, Class::NotBreak);
            lemma_all_of(from, i2, Class::NotBreak);
            lemma_all_of("from "@, i1, Class::NotBreak);
            assert(i[0] == 'f');
            lemma_not_tag(i, "velocity_avg"@, 0);
            lemma_not_tag(i, "velocity_lock"@, 0);
            lemma_not_tag(i, "velocity"@, 0);
            lemma_no_float(i);
            lemma_tag("from "@, i1);
            assert(i2[0] == ' ');
            lemma_float(from, i2);
            lemma_tag(" to "@, to);
            assert(to + Seq::<char>::empty() =~= to);
            lemma_float(to, Seq::<char>::empty());
            // Numbers follow `from`, so it does not stand alone.
            assert(i.skip(4)[0] == ' ');
            assert(i.skip(4)[1] == from[0]);
            assert(i.skip(4).skip(1)[0] == from[0]);
            assert(leading(i.skip(4).skip(1), Class::Space) == 0);
            assert(leading(i.skip(4), Class::Space) == 1);
        },
        _ => {},
    }
}

/// An entity is read back before a space.
pub proof fn lemma_entity(entity: Option<Positive>, next: Seq<char>)
    requires
        entity matches Some(index) ==> valid::count(index),
        next.len() > 0 && next[0] != 'e',
    ensures
        rules::entity(notation::entity(entity) + (seq![' '] + next)) == (
            seq![' '] + next,
            entity,
        ),
        all_of(notation::entity(entity), Class::NotBreak),
{
    lemma_constraint_words();
    let tail = seq![' '] + next;
    let i = notation::entity(entity) + tail;
    match entity {
        Some(index) => {
            let d = notation::digits(index.value() as nat);
            lemma_concat_assoc(" entity "@, d, tail);
            lemma_tag(" entity "@, d + tail);
            lemma_non_zero_u32(index, tail);
            lemma_digits_shape(index.value() as nat);
            lemma_all_of(" entity "@, d, Class::NotBreak);
        },
        None => {
            assert(i =~= tail);
            assert(i[1] == next[0]);
            lemma_not_tag(i, " entity "@, 1);
        },
    }
}

/// A number behind a space is read back.
pub proof fn lemma_spaced_float(text: Seq<char>, tail: Seq<char>)
    requires
        crate::grammar::is_float(text),
        ends_number(tail),
    ensures
        rules::spaced_float(seq![' '] + (text + tail)) == Ok::<_, Fault>((tail, text)),
{
    lemma_constraint_words();
    lemma_tag(" "@, text + tail);
    lemma_float(text, tail);
}

/// A point to look at is read back.
pub proof fn lemma_look_at(constraints: VectorialStrafingConstraintsView)
    requires
        valid::constraints(constraints),
        constraints is LookAt,
    ensures
        rules::constraints(body(constraints)) == Ok::<_, Fault>(
            (Seq::<char>::empty(), constraints),
        ),
        valid::value_text(body(constraints)),
        body(constraints).len() > 0,
        body(constraints)[0] == 'l',
{
    reveal(rules::constraints);
    lemma_constraint_words();
    let i = body(constraints);
    let sp = seq![' '];
    match constraints {
        VectorialStrafingConstraintsView::LookAt { entity: e, x, y, z } => {
            let i5 = sp + z;
            let i4 = y + i5;
            let i3 = sp + i4;
            let i2 = x + i3;
            let i1 = sp + i2;
            let n = notation::entity(e);
            lemma_number_fits(x);
            lemma_number_fits(y);
            lemma_number_fits(z);
            assert(i2[0] == x[0]);
            lemma_entity(e, i2);
            lemma_all_of(sp, z, Class::NotBreak);
            lemma_all_of(y, i5, Class::NotBreak);
            lemma_all_of(sp, i4, Class::NotBreak);
            lemma_all_of(x, i3, Class::NotBreak);
            lemma_all_of(sp, i2, Class::NotBreak);
            lemma_all_of(n, i1, Class::NotBreak);
            lemma_all_of("look_at"@, n + i1, Class::NotBreak);
            assert(i[0] == 'l');
            lemma_not_tag(i, "velocity_avg"@, 0);
            lemma_not_tag(i, "velocity_lock"@, 0);
            lemma_not_tag(i, "velocity"@, 0);
            lemma_not_tag(i, "from "@, 0);
            lemma_no_float(i);
            lemma_tag("look_at"@, n + i1);
            assert(i3[0] == ' ');
            assert(i5[0] == ' ');
            lemma_spaced_float(x, i3);
            lemma_spaced_float(y, i5);
            assert(z + Seq::<char>::empty() =~= z);
            lemma_spaced_float(z, Seq::<char>::empty());
        },
        _ => {},
    }
}

/// The constraints of a line are read back, and can be the value of a property.
pub proof fn lemma_constraints(constraints: VectorialStrafingConstraintsView)
    requires
        valid::constraints(constraints),
    ensures
        rules::constraints(body(constraints)) == Ok::<_, Fault>(
            (Seq::<char>::empty(), constraints),
        ),
        valid::value_text(body(constraints)),
        body(constraints).len() > 0,
        !rules::bare_from(body(constraints)),
{
    lemma_constraint_words();
    let i = body(constraints);
    match constraints {
        VectorialStrafingConstraintsView::Yaw { .. } => {
            lemma_yaw(constraints);
            lemma_not_tag(i, "from"@, 0);
        },
        VectorialStrafingConstraintsView::YawRange { .. } => {
            lemma_yaw_range(constraints);
        },
        VectorialStrafingConstraintsView::LookAt { .. } => {
            lemma_look_at(constraints);
            lemma_not_tag(i, "from"@, 0);
        },
        _ => {
            lemma_velocity(constraints);
            lemma_not_tag(i, "from"@, 0);
        },
    }
}

/// A constraints line is read back.
pub proof fn lemma_line_constraints(
    constraints: VectorialStrafingConstraintsView,
    tail: Seq<char>,
)
    requires
        valid::constraints(constraints),
        ends_line(tail),
    ensures
        rules::line(notation::line(LineView::VectorialStrafingConstraints(constraints)) + tail)
            == Ok::<_, Fault>((tail, LineView::VectorialStrafingConstraints(constraints))),
{
    reveal(rules::line_rest);
    reveal(rules::line_target_yaw);
    lemma_words();
    let word = "target_yaw"@;
    let value = body(constraints);
    lemma_constraints(constraints);
    lemma_body(constraints, tail);
    lemma_word_line(word, value, tail);
    lemma_other_words(word);
    lemma_line_rest(word + (seq![' '] + (value + tail)));
    lemma_keyed(word, word, value, tail);
    assert(word.is_prefix_of(word)) by {
        assert(word.subrange(0, 10) =~= word);
    }
}

} // verus!
