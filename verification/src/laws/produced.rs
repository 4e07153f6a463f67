//! What was read is well formed.

use vstd::prelude::*;
use crate::grammar::line as rules;
use crate::grammar::properties::{nl_property, properties, properties_onto, property, with_property};
use crate::grammar::{
    decimal, digit_value, hltas, is_zero, leading, lines, non_zero_u32, not_line_ending, parse,
    recognize_float, space1, zero, Class,
};
use crate::laws::valid;
use crate::number::{lemma_recognized_is_number, lemma_zero_is_number};
use crate::runs::{lemma_decimal_prefix, lemma_leading_bound, lemma_leading_members};
use crate::types::{AutoMovementView, PropertiesView};

verus! {

broadcast use crate::types::group_positive;

/// The rest of a line fits in a line.
pub proof fn lemma_rest_fits(i: Seq<char>)
    requires
        not_line_ending(i) is Ok,
    ensures
        valid::line_text(not_line_ending(i)->Ok_0.1),
        not_line_ending(i)->Ok_0.0.len() <= i.len(),
{
    lemma_leading_members(i, Class::NotBreak);
    lemma_leading_bound(i, Class::NotBreak);
}

/// The value of a property that was read can be the value of a property.
pub proof fn lemma_property_value(i: Seq<char>)
    requires
        property(i) is Ok,
    ensures
        valid::value_text(property(i)->Ok_0.1.1),
        property(i)->Ok_0.0.len() < i.len(),
{
    reveal(property);
    lemma_leading_bound(i, Class::Name);
    let i1 = i.skip(leading(i, Class::Name) as int);
    lemma_leading_members(i1, Class::Space);
    lemma_leading_bound(i1, Class::Space);
    let i2 = i1.skip(leading(i1, Class::Space) as int);
    lemma_rest_fits(i2);
    let value = not_line_ending(i2)->Ok_0.1;
    lemma_leading_bound(i2, Class::NotBreak);
    assert(value == i2.take(leading(i2, Class::NotBreak) as int));
    assert(property(i)->Ok_0.1.1 == value);
    if value.len() > 0 {
        assert(value[0] == i2[0]);
        assert(i2[0] == i1[leading(i1, Class::Space) as int]);
    }
}

/// A count that was read is at least 1.
pub proof fn lemma_count(i: Seq<char>)
    requires
        non_zero_u32(i) is Ok,
    ensures
        valid::count(non_zero_u32(i)->Ok_0.1),
{
    let n = 1 + leading(i.skip(1), Class::Digit);
    lemma_leading_bound(i.skip(1), Class::Digit);
    let digits = i.take(n as int);
    lemma_decimal_prefix(digits, 1);
    assert(digits.take(1).drop_last() =~= Seq::<char>::empty());
    assert(decimal(Seq::<char>::empty()) == 0);
    assert(digits.take(1).last() == i[0]);
    assert(decimal(digits.take(1)) == digit_value(i[0]));
}

/// A repeat count that was read is at least 1, if it is limited.
pub proof fn lemma_times(i: Seq<char>)
    ensures
        valid::times(rules::parse_times(i).1),
{
    if non_zero_u32(i) is Ok {
        lemma_count(i);
    }
}

/// A number that was read is a number.
pub proof fn lemma_float(i: Seq<char>)
    requires
        rules::float(i) is Ok,
    ensures
        crate::grammar::is_float(rules::float(i)->Ok_0.1),
{
    lemma_recognized_is_number(i);
}

/// A leave-ground action that was read has a count of at least 1, if any.
pub proof fn lemma_leave_ground_action(i: Seq<char>)
    requires
        rules::leave_ground_action(i) is Ok,
    ensures
        rules::leave_ground_action(i)->Ok_0.1 matches Some(a) ==> valid::times(a.times),
{
    reveal(rules::leave_ground_action);
    if rules::lgagst_action(i) is Ok {
        let i1 = rules::lgagst_action_speed(i)->Ok_0.0;
        lemma_times(i1);
    } else if rules::non_lgagst_action(i) is Ok {
        let i1 = i.skip(1);
        lemma_times(i1.skip(1));
        lemma_times(i1.skip(2));
    }
}

/// Automatic actions that were read are well formed.
pub proof fn lemma_auto_actions(i: Seq<char>)
    requires
        rules::auto_actions(i) is Ok,
    ensures
        valid::auto_actions(rules::auto_actions(i)->Ok_0.1),
        !(rules::auto_actions(i)->Ok_0.1.movement matches Some(AutoMovementView::SetYaw(_))),
{
    reveal(rules::auto_actions);
    lemma_zero_is_number();
    crate::number::lemma_zero_is_finite();
    let i1 = rules::strafe(i)->Ok_0.0;
    lemma_leave_ground_action(i1);
    let i2 = rules::leave_ground_action(i1)->Ok_0.0;
    lemma_counted(i2, 'b');
    let i3 = rules::jump_bug(i2)->Ok_0.0;
    lemma_times(i3.skip(1));
    let i4 = rules::duck_before_collision(i3)->Ok_0.0;
    lemma_counted(i4, 'g');
    let i5 = rules::duck_before_ground(i4)->Ok_0.0;
    lemma_counted(i5, 'w');
}

/// The count of an action that was read is at least 1, if there is one.
pub proof fn lemma_counted(i: Seq<char>, letter: char)
    requires
        rules::counted(i, letter) is Ok,
    ensures
        valid::counted(rules::counted(i, letter)->Ok_0.1),
{
    lemma_times(i.skip(1));
}

/// A movement whose numbers were read from the yaw field is well formed.
pub proof fn lemma_yaw_field(movement: Option<AutoMovementView>, i: Seq<char>)
    requires
        valid::movement(movement),
        !(movement matches Some(AutoMovementView::SetYaw(_))),
        rules::yaw_field(movement, i) is Ok,
    ensures
        valid::movement(rules::yaw_field(movement, i)->Ok_0.1),
{
    reveal(rules::yaw_field);
    if rules::float(i) is Ok {
        lemma_float(i);
        let i1 = rules::float(i)->Ok_0.0;
        if space1(i1) is Ok {
            let i2 = space1(i1)->Ok_0.0;
            if rules::float(i2) is Ok {
                lemma_float(i2);
            }
        }
    }
}

/// A console command that was read fits in a line.
pub proof fn lemma_console_command(i: Seq<char>)
    ensures
        rules::console_command(i).1 matches Some(text) ==> valid::line_text(text),
{
    if i.len() > 0 && not_line_ending(i.skip(1)) is Ok {
        lemma_rest_fits(i.skip(1));
    }
}

/// A frame bulk that was read is well formed.
pub proof fn lemma_frame_bulk(i: Seq<char>)
    requires
        rules::line_frame_bulk(i) is Ok,
    ensures
        valid::frame_bulk(rules::line_frame_bulk(i)->Ok_0.1),
{
    reveal(rules::line_frame_bulk);
    reveal(rules::frame_bulk_tail);
    lemma_auto_actions(i);
    let (i0, actions) = rules::auto_actions(i)->Ok_0;
    let i1 = rules::bar(i0.skip(leading(i0, Class::NotBar) as int))->Ok_0.0;
    let i2 = rules::movement_keys(i1)->Ok_0.0;
    let i3 = rules::bar(i2)->Ok_0.0;
    let i4 = rules::action_keys(i3)->Ok_0.0;
    let i5 = rules::bar(i4)->Ok_0.0;
    lemma_recognized_is_number(i5);
    let i6 = recognize_float(i5)->Ok_0.0;
    let i7 = rules::bar(i6)->Ok_0.0;
    lemma_yaw_field(actions.movement, i7);
    let i8 = rules::yaw_field(actions.movement, i7)->Ok_0.0;
    let i9 = rules::bar(i8)->Ok_0.0;
    if rules::float(i9) is Ok {
        lemma_float(i9);
    }
    let i10 = rules::pitch(i9)->Ok_0.0;
    let i11 = rules::bar(i10)->Ok_0.0;
    if non_zero_u32(i11) is Ok {
        lemma_count(i11);
    }
    let i12 = rules::frame_count(i11)->Ok_0.0;
    lemma_console_command(i12);
}

/// The value of a line that is a name and a value can be the value of a property.
pub proof fn lemma_keyed(i: Seq<char>, word: Seq<char>)
    requires
        rules::keyed(i, word) is Ok,
    ensures
        valid::value_text(rules::keyed(i, word)->Ok_0.1),
{
    reveal(rules::keyed);
    lemma_property_value(i);
}

/// A tolerance that was read is a number, and zero is written `0`.
pub proof fn lemma_tolerance(i: Seq<char>)
    requires
        rules::tolerance(i) is Ok,
    ensures
        valid::tolerance(rules::tolerance(i)->Ok_0.1),
{
    lemma_zero_is_number();
    crate::number::lemma_zero_is_finite();
    lemma_zero();
    if i.len() > 0 && i[0] == ' ' {
        let i1 = i.skip(1);
        let i2 = crate::grammar::tag(i1, "+-"@)->Ok_0.0;
        lemma_float(i2);
    }
}

/// `0` is zero.
pub proof fn lemma_zero()
    ensures
        is_zero(zero()),
{
    let z = zero();
    assert(z.skip(1) =~= Seq::<char>::empty());
    assert(crate::grammar::significand(z.skip(1)) =~= Seq::<char>::empty());
    assert(crate::grammar::significand(z) =~= seq!['0']);
    assert(crate::grammar::fraction(z.skip(1)) == 0);
    assert(crate::grammar::fraction(z) == 0);
    assert(crate::grammar::power(z.skip(1)) == 0);
    assert(crate::grammar::power(z) == 0);
    assert(seq!['0'].drop_last() =~= Seq::<char>::empty());
    assert(decimal(Seq::<char>::empty()) == 0);
    assert(decimal(seq!['0']) == 0);
    assert(0 * crate::grammar::pow10(150) == 0) by (nonlinear_arith);
}

/// Constraints that were read are well formed.
pub proof fn lemma_constraints(i: Seq<char>)
    requires
        rules::constraints(i) is Ok,
    ensures
        valid::constraints(rules::constraints(i)->Ok_0.1),
{
    reveal(rules::constraints);
    if crate::grammar::tag(i, "velocity_avg"@) is Ok {
        lemma_tolerance(i.skip(12));
    } else if crate::grammar::tag(i, "velocity_lock"@) is Ok {
        lemma_tolerance(i.skip(13));
    } else if crate::grammar::tag(i, "velocity"@) is Ok {
        lemma_tolerance(i.skip(8));
    } else if rules::float(i) is Ok {
        lemma_float(i);
        lemma_tolerance(rules::float(i)->Ok_0.0);
    } else {
        if crate::grammar::tag(i, "from "@) is Ok && rules::yaw_range(i.skip(5)) is Ok {
            let i0 = i.skip(5);
            lemma_float(i0);
            let i1 = rules::float(i0)->Ok_0.0;
            let i2 = crate::grammar::tag(i1, " to "@)->Ok_0.0;
            lemma_float(i2);
        } else {
            let i1 = crate::grammar::tag(i, "look_at"@)->Ok_0.0;
            lemma_look_at(i1);
        }
    }
}

/// A point to look at that was read is well formed.
pub proof fn lemma_look_at(i: Seq<char>)
    requires
        rules::look_at(i) is Ok,
    ensures
        valid::constraints(rules::look_at(i)->Ok_0.1),
{
    if crate::grammar::tag(i, " entity "@) is Ok && non_zero_u32(i.skip(8)) is Ok {
        lemma_count(i.skip(8));
    }
    let i1 = rules::entity(i).0;
    lemma_float(crate::grammar::tag(i1, " "@)->Ok_0.0);
    let i2 = rules::spaced_float(i1)->Ok_0.0;
    lemma_float(crate::grammar::tag(i2, " "@)->Ok_0.0);
    let i3 = rules::spaced_float(i2)->Ok_0.0;
    lemma_float(crate::grammar::tag(i3, " "@)->Ok_0.0);
}

/// A change that was read is well formed.
pub proof fn lemma_change(i: Seq<char>)
    requires
        rules::change(i) is Ok,
    ensures
        valid::change(rules::change(i)->Ok_0.1),
{
    reveal(rules::change);
    let i1 = rules::change_target(i)->Ok_0.0;
    let i2 = crate::grammar::tag(i1, " to "@)->Ok_0.0;
    lemma_float(i2);
    let i3 = rules::float(i2)->Ok_0.0;
    let i4 = crate::grammar::tag(i3, " over "@)->Ok_0.0;
    lemma_float(i4);
}

/// The numbers that were read behind the first are numbers.
pub proof fn lemma_more_floats(i: Seq<char>)
    ensures
        valid::numbers(rules::more_floats(i).1),
    decreases i.len(),
{
    if space1(i) is Ok {
        let i1 = space1(i)->Ok_0.0;
        if rules::float(i1) is Ok {
            let (i2, yaw) = rules::float(i1)->Ok_0;
            if i2.len() < i.len() {
                lemma_float(i1);
                lemma_more_floats(i2);
                let all = rules::more_floats(i).1;
                assert forall|k: int| 0 <= k < all.len() implies crate::grammar::is_float(#[trigger] all[k]) by {
                    if k > 0 {
                        assert(all[k] == rules::more_floats(i2).1[k - 1]);
                    }
                }
            }
        }
    }
}

/// The numbers of an override line that were read are numbers, at least one.
pub proof fn lemma_floats(i: Seq<char>)
    requires
        rules::floats(i) is Ok,
    ensures
        valid::numbers(rules::floats(i)->Ok_0.1),
        rules::floats(i)->Ok_0.1.len() > 0,
{
    lemma_float(i);
    let i1 = rules::float(i)->Ok_0.0;
    lemma_more_floats(i1);
    let all = rules::floats(i)->Ok_0.1;
    assert forall|k: int| 0 <= k < all.len() implies crate::grammar::is_float(#[trigger] all[k]) by {
        if k > 0 {
            assert(all[k] == rules::more_floats(i1).1[k - 1]);
        }
    }
}

/// A line that was read is well formed.
pub proof fn lemma_line(i: Seq<char>)
    requires
        rules::line(i) is Ok,
    ensures
        valid::line(rules::line(i)->Ok_0.1),
{
    reveal(rules::line);
    reveal(rules::line_rest);
    if rules::line_frame_bulk(i) is Ok {
        lemma_frame_bulk(i);
    } else if rules::line_save(i) is Ok {
        reveal(rules::line_save);
        lemma_keyed(i, "save"@);
    } else if rules::line_seed(i) is Ok {
    } else if rules::line_buttons(i) is Ok {
    } else if rules::line_lgagst_min_speed(i) is Ok {
        reveal(rules::line_lgagst_min_speed);
        lemma_float(rules::keyed(i, "lgagstminspeed"@)->Ok_0.1);
    } else if rules::line_reset(i) is Ok {
    } else if rules::line_comment(i) is Ok {
        reveal(rules::line_comment);
        lemma_rest_fits(crate::grammar::tag(i, "//"@)->Ok_0.0);
    } else if rules::line_strafing(i) is Ok {
    } else if rules::line_target_yaw_override(i) is Ok {
        reveal(rules::line_target_yaw_override);
        lemma_floats(rules::keyed(i, "target_yaw_override"@)->Ok_0.1);
    } else if rules::line_target_yaw(i) is Ok {
        reveal(rules::line_target_yaw);
        lemma_constraints(rules::keyed(i, "target_yaw"@)->Ok_0.1);
    } else {
        reveal(rules::line_change);
        lemma_change(rules::keyed(i, "change"@)->Ok_0.1);
    }
}

/// The lines that were read are well formed.
pub proof fn lemma_lines(i: Seq<char>)
    requires
        lines(i) is Ok,
    ensures
        valid::lines(lines(i)->Ok_0.1),
    decreases i.len(),
{
    if crate::grammar::multispace0(i).len() != 0 {
        let i1 = crate::grammar::whitespace(i)->Ok_0.0;
        let (i2, first) = rules::line(i1)->Ok_0;
        lemma_line(i1);
        lemma_lines(i2);
        let all = lines(i)->Ok_0.1;
        assert forall|k: int| 0 <= k < all.len() implies valid::line(#[trigger] all[k]) by {
            if k > 0 {
                assert(all[k] == lines(i2)->Ok_0.1[k - 1]);
            }
        }
    }
}

/// Properties to which one more was read are well formed.
pub proof fn lemma_with_property(p: PropertiesView, name: Seq<char>, value: Seq<char>, more: nat)
    requires
        valid::properties(p),
        valid::value_text(value),
        with_property(p, name, value, more) is Ok,
    ensures
        valid::properties(with_property(p, name, value, more)->Ok_0),
{
    reveal(with_property);
    if non_zero_u32(value) is Ok {
        lemma_count(value);
    }
}

/// The properties that were read on top of well-formed ones are well formed.
pub proof fn lemma_properties_onto(i: Seq<char>, p: PropertiesView)
    requires
        valid::properties(p),
        properties_onto(i, p) is Ok,
    ensures
        valid::properties(properties_onto(i, p)->Ok_0.1),
    decreases i.len(),
{
    if nl_property(i) is Ok {
        let (rest, (name, value)) = nl_property(i)->Ok_0;
        let after = crate::grammar::line_endings(i)->Ok_0.0;
        lemma_property_value(after);
        lemma_with_property(p, name, value, rest.len());
        if rest.len() < i.len() {
            lemma_properties_onto(rest, with_property(p, name, value, rest.len())->Ok_0);
        }
    }
}

/// A script that was read is well formed.
pub proof fn lemma_script(text: Seq<char>)
    requires
        parse(text) is Ok,
    ensures
        valid::script(parse(text)->Ok_0),
{
    reveal(hltas);
    let i1 = crate::grammar::version(text)->Ok_0.0;
    lemma_properties_onto(i1, PropertiesView::none());
    let i2 = properties(i1)->Ok_0.0;
    let i3 = crate::grammar::line_endings(i2)->Ok_0.0;
    let i4 = crate::grammar::tag(i3, "frames"@)->Ok_0.0;
    lemma_lines(i4);
}

} // verus!
