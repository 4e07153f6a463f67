//! Writing `.hltas` files.
//!
//! The text of each part is built as [`crate::notation`] says. The `gen_`
//! functions hand the finished text to a byte sink in one piece. The sink
//! is a `Vec<u8>`, which takes all that it is given.

use vstd::prelude::*;
use vstd::string::StringExecFns;
use vstd::string::StringSliceAdditionalSpecFns;
use cookie_factory::GenError;
use crate::notation;
use crate::number::Number;
use crate::text::push_char;
use crate::types::{
    lines_of, texts_of, view_of, ActionKeys, AutoActions, AutoMovement, Button, Buttons, Change,
    ChangeTarget, FrameBulk, LeaveGroundAction, LeaveGroundActionSpeed, LeaveGroundActionType,
    Line, MovementKeys, Positive, Properties, StrafeDir, StrafeSettings, StrafeType, Times,
    VectorialStrafingConstraints, HLTAS,
};

verus! {

broadcast use crate::text::group_concat;

/// The digit that stands for a number below ten.
pub fn digit(d: u64) -> (c: char)
    requires
        d < 10,
    ensures
        c == notation::digit(d as nat),
{
    if d == 0 {
        '0'
    } else if d == 1 {
        '1'
    } else if d == 2 {
        '2'
    } else if d == 3 {
        '3'
    } else if d == 4 {
        '4'
    } else if d == 5 {
        '5'
    } else if d == 6 {
        '6'
    } else if d == 7 {
        '7'
    } else if d == 8 {
        '8'
    } else {
        '9'
    }
}

/// Appends a number in decimal notation.
pub fn digits(out: &mut String, n: u64)
    ensures
        final(out)@ == old(out)@ + notation::digits(n as nat),
    decreases n,
{
    if n < 10 {
        push_char(out, digit(n));
        assert(out@ == old(out)@ + notation::digits(n as nat));
    } else {
        digits(out, n / 10);
        push_char(out, digit(n % 10));
        assert(out@ == old(out)@ + notation::digits(n as nat));
    }
}

/// Appends a number with a sign in decimal notation.
pub fn integer(out: &mut String, n: i64)
    ensures
        final(out)@ == old(out)@ + notation::integer(n as int),
{
    if n < 0 {
        push_char(out, '-');
        let magnitude: u64 = ((-(n + 1)) as u64) + 1;
        digits(out, magnitude);
        assert(out@ == old(out)@ + notation::integer(n as int));
    } else {
        digits(out, n as u64);
    }
}

/// Appends the digit of a strafing type.
pub fn strafe_type(out: &mut String, type_: StrafeType)
    ensures
        final(out)@ == old(out)@ + notation::strafe_type(type_),
{
    match type_ {
        StrafeType::MaxAccel => out.append("0"),
        StrafeType::MaxAngle => out.append("1"),
        StrafeType::MaxDeccel => out.append("2"),
        StrafeType::ConstSpeed => out.append("3"),
    }
}

/// Appends the digit of a strafing direction.
pub fn strafe_dir(out: &mut String, dir: &StrafeDir)
    ensures
        final(out)@ == old(out)@ + notation::strafe_dir(dir@),
{
    match dir {
        StrafeDir::Left => out.append("0"),
        StrafeDir::Right => out.append("1"),
        StrafeDir::Best => out.append("2"),
        StrafeDir::Yaw(_) => out.append("3"),
        StrafeDir::Point { .. } => out.append("4"),
        StrafeDir::Line { .. } => out.append("5"),
        StrafeDir::LeftRight(_) => out.append("6"),
        StrafeDir::RightLeft(_) => out.append("7"),
    }
}

/// Appends the strafing marker.
pub fn strafe(out: &mut String, settings: &StrafeSettings)
    ensures
        final(out)@ == old(out)@ + notation::strafe(settings@),
{
    out.append("s");
    strafe_type(out, settings.type_);
    strafe_dir(out, &settings.dir);
    assert(out@ == old(out)@ + notation::strafe(settings@));
}

/// Appends a repeat count: its digits if it is limited, nothing if it is not.
pub fn gen_times(out: &mut String, times: Times)
    ensures
        final(out)@ == old(out)@ + notation::times(times),
{
    match times {
        Times::Limited(count) => digits(out, count.get() as u64),
        Times::UnlimitedWithinFrameBulk => {
            assert(out@ == old(out)@ + notation::times(times));
        },
    }
}

/// Appends the two characters of a jump or a ducktap.
pub fn leave_ground_type(out: &mut String, type_: LeaveGroundActionType)
    ensures
        final(out)@ == old(out)@ + notation::leave_ground_type(type_),
{
    match type_ {
        LeaveGroundActionType::Jump => out.append("j-"),
        LeaveGroundActionType::DuckTap { zero_ms: false } => out.append("-d"),
        LeaveGroundActionType::DuckTap { zero_ms: true } => out.append("-D"),
    }
}

/// Appends the leave-ground marker.
pub fn leave_ground_action(out: &mut String, action: Option<LeaveGroundAction>)
    ensures
        final(out)@ == old(out)@ + notation::leave_ground_action(action),
{
    match action {
        None => out.append("---"),
        Some(LeaveGroundAction { speed, times, type_ }) => {
            match speed {
                LeaveGroundActionSpeed::Any => {
                    out.append("-");
                    match type_ {
                        LeaveGroundActionType::Jump => {
                            out.append("j");
                            gen_times(out, times);
                            out.append("-");
                        },
                        LeaveGroundActionType::DuckTap { zero_ms: false } => {
                            out.append("-d");
                            gen_times(out, times);
                        },
                        LeaveGroundActionType::DuckTap { zero_ms: true } => {
                            out.append("-D");
                            gen_times(out, times);
                        },
                    }
                },
                LeaveGroundActionSpeed::Optimal => {
                    out.append("l");
                    gen_times(out, times);
                    leave_ground_type(out, type_);
                },
                LeaveGroundActionSpeed::OptimalWithFullMaxspeed => {
                    out.append("L");
                    gen_times(out, times);
                    leave_ground_type(out, type_);
                },
            }
            assert(out@ == old(out)@ + notation::leave_ground_action(action));
        },
    }
}

/// Appends an action that is a letter and a count, or `-` if it is not there.
pub fn counted(out: &mut String, letter: &str, count: Option<Times>)
    ensures
        final(out)@ == old(out)@ + notation::counted(letter@, count),
{
    match count {
        None => out.append("-"),
        Some(count) => {
            out.append(letter);
            gen_times(out, count);
            assert(out@ == old(out)@ + notation::counted(letter@, Some(count)));
        },
    }
}

/// Appends the automatic actions, the first field of a frame bulk.
pub fn auto_actions(out: &mut String, aa: &AutoActions)
    ensures
        final(out)@ == old(out)@ + notation::auto_actions(aa@),
{
    match &aa.movement {
        Some(AutoMovement::Strafe(settings)) => strafe(out, settings),
        _ => out.append("---"),
    }
    leave_ground_action(out, aa.leave_ground_action);
    counted(
        out,
        "b",
        match aa.jump_bug {
            Some(a) => Some(a.times),
            None => None,
        },
    );
    match aa.duck_before_collision {
        Some(a) => counted(
            out,
            if a.including_ceilings {
                "C"
            } else {
                "c"
            },
            Some(a.times),
        ),
        None => counted(out, "c", None),
    }
    counted(
        out,
        "g",
        match aa.duck_before_ground {
            Some(a) => Some(a.times),
            None => None,
        },
    );
    counted(
        out,
        "w",
        match aa.duck_when_jump {
            Some(a) => Some(a.times),
            None => None,
        },
    );
    assert(out@ == old(out)@ + notation::auto_actions(aa@));
}

/// Appends a key: its letter if it is held, `-` if it is not.
pub fn key(out: &mut String, symbol: &str, enabled: bool)
    ensures
        final(out)@ == old(out)@ + notation::key(symbol@, enabled),
{
    out.append(
        if enabled {
            symbol
        } else {
            "-"
        },
    )
}

/// Appends the six movement keys.
pub fn movement_keys(out: &mut String, mk: MovementKeys)
    ensures
        final(out)@ == old(out)@ + notation::movement_keys(mk),
{
    key(out, "f", mk.forward);
    key(out, "l", mk.left);
    key(out, "r", mk.right);
    key(out, "b", mk.back);
    key(out, "u", mk.up);
    key(out, "d", mk.down);
    assert(out@ == old(out)@ + notation::movement_keys(mk));
}

/// Appends the six action keys.
pub fn action_keys(out: &mut String, ak: ActionKeys)
    ensures
        final(out)@ == old(out)@ + notation::action_keys(ak),
{
    key(out, "j", ak.jump);
    key(out, "d", ak.duck);
    key(out, "u", ak.use_);
    key(out, "1", ak.attack_1);
    key(out, "2", ak.attack_2);
    key(out, "r", ak.reload);
    assert(out@ == old(out)@ + notation::action_keys(ak));
}

/// Appends a number as it is written.
pub fn number(out: &mut String, number: &Number)
    ensures
        final(out)@ == old(out)@ + number@,
{
    out.append(number.as_str())
}

/// Appends the yaw field.
pub fn yaw_field(out: &mut String, movement: &Option<AutoMovement>)
    ensures
        final(out)@ == old(out)@ + notation::yaw_field(view_of(*movement)),
{
    match movement {
        None => out.append("-"),
        Some(AutoMovement::SetYaw(yaw)) => number(out, yaw),
        Some(AutoMovement::Strafe(StrafeSettings { dir, .. })) => match dir {
            StrafeDir::Yaw(yaw) => number(out, yaw),
            StrafeDir::Point { x, y } => {
                number(out, x);
                out.append(" ");
                number(out, y);
                assert(out@ == old(out)@ + notation::yaw_field(view_of(*movement)));
            },
            StrafeDir::Line { yaw } => number(out, yaw),
            StrafeDir::LeftRight(count) => digits(out, count.get() as u64),
            StrafeDir::RightLeft(count) => digits(out, count.get() as u64),
            _ => out.append("-"),
        },
    }
}

/// Appends the first fields of a frame bulk, each with `|` behind it.
pub fn frame_bulk_keys(out: &mut String, frame_bulk: &FrameBulk)
    ensures
        final(out)@ == old(out)@ + notation::frame_bulk_keys(frame_bulk@),
{
    auto_actions(out, &frame_bulk.auto_actions);
    out.append("|");
    movement_keys(out, frame_bulk.movement_keys);
    out.append("|");
    action_keys(out, frame_bulk.action_keys);
    out.append("|");
    out.append(frame_bulk.frame_time.as_str());
    out.append("|");
}

/// Appends the last fields of a frame bulk, with `|` between them.
pub fn frame_bulk_values(out: &mut String, frame_bulk: &FrameBulk)
    ensures
        final(out)@ == old(out)@ + notation::frame_bulk_values(frame_bulk@),
{
    yaw_field(out, &frame_bulk.auto_actions.movement);
    out.append("|");
    match &frame_bulk.pitch {
        Some(pitch) => number(out, pitch),
        None => out.append("-"),
    }
    out.append("|");
    digits(out, frame_bulk.frame_count.get() as u64);
    match &frame_bulk.console_command {
        Some(console_command) => {
            out.append("|");
            out.append(console_command.as_str());
        },
        None => {},
    }
}

/// Appends a frame bulk.
pub fn line_frame_bulk(out: &mut String, frame_bulk: &FrameBulk)
    ensures
        final(out)@ == old(out)@ + notation::frame_bulk(frame_bulk@),
{
    frame_bulk_keys(out, frame_bulk);
    frame_bulk_values(out, frame_bulk);
}

/// Appends the digit of a button.
pub fn button(out: &mut String, button: Button)
    ensures
        final(out)@ == old(out)@ + notation::button(button),
{
    match button {
        Button::Forward => out.append("0"),
        Button::ForwardLeft => out.append("1"),
        Button::Left => out.append("2"),
        Button::BackLeft => out.append("3"),
        Button::Back => out.append("4"),
        Button::BackRight => out.append("5"),
        Button::Right => out.append("6"),
        Button::ForwardRight => out.append("7"),
    }
}

/// Appends a buttons line.
pub fn line_buttons(out: &mut String, buttons: Buttons)
    ensures
        final(out)@ == old(out)@ + notation::buttons(buttons),
{
    out.append("buttons");
    match buttons {
        Buttons::Reset => {},
        Buttons::Assign { air_left, air_right, ground_left, ground_right } => {
            out.append(" ");
            button(out, air_left);
            out.append(" ");
            button(out, air_right);
            out.append(" ");
            button(out, ground_left);
            out.append(" ");
            button(out, ground_right);
            assert(out@ == old(out)@ + notation::buttons(buttons));
        },
    }
}

/// Appends the tolerance of a constraint: nothing if it is zero.
pub fn gen_tolerance(out: &mut String, tolerance: &Number)
    ensures
        final(out)@ == old(out)@ + notation::tolerance(tolerance@),
{
    if !tolerance.is_zero() {
        out.append(" +-");
        number(out, tolerance);
    }
    assert(out@ == old(out)@ + notation::tolerance(tolerance@));
}

/// Appends the entity of a look-at constraint: nothing if there is none.
pub fn gen_entity_index(out: &mut String, entity: Option<Positive>)
    ensures
        final(out)@ == old(out)@ + notation::entity(entity),
{
    match entity {
        Some(index) => {
            out.append(" entity ");
            digits(out, index.get() as u64);
        },
        None => {},
    }
    assert(out@ == old(out)@ + notation::entity(entity));
}

/// Appends a constraints line.
pub fn line_vectorial_strafing_constraints(
    out: &mut String,
    constraints: &VectorialStrafingConstraints,
)
    ensures
        final(out)@ == old(out)@ + notation::constraints(constraints@),
{
    out.append("target_yaw");
    out.append(" ");
    match constraints {
        VectorialStrafingConstraints::VelocityYaw { tolerance } => {
            out.append("velocity");
            gen_tolerance(out, tolerance);
        },
        VectorialStrafingConstraints::AvgVelocityYaw { tolerance } => {
            out.append("velocity_avg");
            gen_tolerance(out, tolerance);
        },
        VectorialStrafingConstraints::VelocityYawLocking { tolerance } => {
            out.append("velocity_lock");
            gen_tolerance(out, tolerance);
        },
        VectorialStrafingConstraints::Yaw { yaw, tolerance } => {
            number(out, yaw);
            gen_tolerance(out, tolerance);
        },
        VectorialStrafingConstraints::YawRange { from, to } => {
            out.append("from ");
            number(out, from);
            out.append(" to ");
            number(out, to);
        },
        VectorialStrafingConstraints::LookAt { entity, x, y, z } => {
            out.append("look_at");
            gen_entity_index(out, *entity);
            out.append(" ");
            number(out, x);
            out.append(" ");
            number(out, y);
            out.append(" ");
            number(out, z);
        },
    }
    assert(out@ == old(out)@ + notation::constraints(constraints@));
}

/// Appends the name of a value that a change line changes.
pub fn change_target(out: &mut String, target: ChangeTarget)
    ensures
        final(out)@ == old(out)@ + notation::change_target(target),
{
    match target {
        ChangeTarget::Yaw => out.append("yaw"),
        ChangeTarget::Pitch => out.append("pitch"),
        ChangeTarget::VectorialStrafingYaw => out.append("target_yaw"),
        ChangeTarget::VectorialStrafingYawOffset => out.append("target_yaw_offset"),
    }
}

/// Appends a change line.
pub fn line_change(out: &mut String, change: &Change)
    ensures
        final(out)@ == old(out)@ + notation::change(change@),
{
    out.append("change ");
    change_target(out, change.target);
    out.append(" to ");
    number(out, &change.final_value);
    out.append(" over ");
    number(out, &change.over);
    out.append(" s");
    assert(out@ == old(out)@ + notation::change(change@));
}

/// Appends the numbers, each behind a space.
pub fn spaced(out: &mut String, numbers: &Vec<Number>)
    ensures
        final(out)@ == old(out)@ + notation::spaced(texts_of(numbers@)),
{
    let mut k: usize = 0;
    assert(texts_of(numbers@).take(0) =~= Seq::<Seq<char>>::empty());
    assert(out@ == old(out)@ + notation::spaced(texts_of(numbers@).take(0)));
    while k < numbers.len()
        invariant
            k <= numbers@.len(),
            out@ == old(out)@ + notation::spaced(texts_of(numbers@).take(k as int)),
        decreases numbers@.len() - k,
    {
        let ghost before = out@;
        out.append(" ");
        number(out, &numbers[k]);
        proof {
            let all = texts_of(numbers@);
            assert(all.take(k + 1).drop_last() =~= all.take(k as int));
            assert(all.take(k + 1).last() == numbers@[k as int]@);
            assert(out@ == old(out)@ + notation::spaced(all.take(k + 1)));
        }
        k += 1;
    }
    assert(texts_of(numbers@).take(k as int) =~= texts_of(numbers@));
}

/// Appends one line of the frames section, without a line ending.
pub fn line(out: &mut String, line: &Line)
    ensures
        final(out)@ == old(out)@ + notation::line(line@),
{
    match line {
        Line::FrameBulk(frame_bulk) => line_frame_bulk(out, frame_bulk),
        Line::Save(save) => {
            out.append("save");
            out.append(" ");
            out.append(save.as_str());
        },
        Line::SharedSeed(seed) => {
            out.append("seed");
            out.append(" ");
            digits(out, *seed as u64);
        },
        Line::Buttons(buttons) => line_buttons(out, *buttons),
        Line::LGAGSTMinSpeed(lgagst_min_speed) => {
            out.append("lgagstminspeed");
            out.append(" ");
            number(out, lgagst_min_speed);
        },
        Line::Reset { non_shared_seed } => {
            out.append("reset");
            out.append(" ");
            integer(out, *non_shared_seed);
        },
        Line::Comment(comment) => {
            out.append("//");
            out.append(comment.as_str());
        },
        Line::VectorialStrafing(enabled) => {
            out.append("strafing");
            out.append(" ");
            out.append(
                if *enabled {
                    "vectorial"
                } else {
                    "yaw"
                },
            );
        },
        Line::VectorialStrafingConstraints(constraints) => line_vectorial_strafing_constraints(
            out,
            constraints,
        ),
        Line::Change(change) => line_change(out, change),
        Line::TargetYawOverride(yaws) => {
            out.append("target_yaw_override");
            spaced(out, yaws);
        },
    }
    assert(out@ == old(out)@ + notation::line(line@));
}

/// Appends the lines, each with a line feed behind it.
pub fn lines(out: &mut String, lines: &[Line])
    ensures
        final(out)@ == old(out)@ + notation::lines(lines_of(lines@)),
{
    let mut k: usize = 0;
    assert(lines_of(lines@).take(0) =~= Seq::<crate::types::LineView>::empty());
    assert(out@ == old(out)@ + notation::lines(lines_of(lines@).take(0)));
    while k < lines.len()
        invariant
            k <= lines@.len(),
            out@ == old(out)@ + notation::lines(lines_of(lines@).take(k as int)),
        decreases lines@.len() - k,
    {
        line(out, &lines[k]);
        out.append("\n");
        proof {
            let all = lines_of(lines@);
            assert(all.take(k + 1).drop_last() =~= all.take(k as int));
            assert(all.take(k + 1).last() == lines@[k as int]@);
            assert(out@ == old(out)@ + notation::lines(all.take(k + 1)));
        }
        k += 1;
    }
    assert(lines_of(lines@).take(k as int) =~= lines_of(lines@));
}

/// Appends a property line: the name, a space, the value and a line feed.
pub fn property(out: &mut String, name: &str, value: &str)
    ensures
        final(out)@ == old(out)@ + notation::property(name@, Some(value@)),
{
    out.append(name);
    out.append(" ");
    out.append(value);
    out.append("\n");
    assert(out@ == old(out)@ + notation::property(name@, Some(value@)));
}

/// Appends the line of a property that is a text, if it is set.
pub fn text_property(out: &mut String, name: &str, value: &Option<String>)
    ensures
        final(out)@ == old(out)@ + notation::property(name@, view_of(*value)),
{
    match value {
        Some(value) => property(out, name, value.as_str()),
        None => {
            assert(out@ == old(out)@ + notation::property(name@, None));
        },
    }
}

/// Appends the properties that are set, one line each.
pub fn properties(out: &mut String, p: &Properties)
    ensures
        final(out)@ == old(out)@ + notation::properties(p@),
{
    text_property(out, "demo", &p.demo);
    text_property(out, "save", &p.save);
    let ghost before_seeds = out@;
    match p.seeds {
        Some(seeds) => {
            let mut value = String::new();
            digits(&mut value, seeds.shared as u64);
            value.append(" ");
            integer(&mut value, seeds.non_shared);
            assert(value@ == notation::digits(seeds.shared as nat) + " "@ + notation::integer(
                seeds.non_shared as int,
            ));
            property(out, "seed", value.as_str());
        },
        None => {
            assert(out@ == before_seeds + notation::property("seed"@, None));
        },
    }
    text_property(out, "frametime0ms", &p.frametime_0ms);
    let ghost before_version = out@;
    match p.hlstrafe_version {
        Some(version) => {
            let mut value = String::new();
            digits(&mut value, version.get() as u64);
            assert(value@ == notation::digits(version.value() as nat));
            property(out, "hlstrafe_version", value.as_str());
        },
        None => {
            assert(out@ == before_version + notation::property("hlstrafe_version"@, None));
        },
    }
    text_property(out, "load_command", &p.load_command);
    assert(out@ == old(out)@ + notation::properties(p@));
}

/// Appends a whole script.
pub fn hltas(out: &mut String, hltas: &HLTAS)
    ensures
        final(out)@ == old(out)@ + notation::hltas(hltas@),
{
    out.append("version 1\n");
    properties(out, &hltas.properties);
    out.append("frames\n");
    lines(out, hltas.lines.as_slice());
    assert(out@ == old(out)@ + notation::hltas(hltas@));
}

/// The error type of the byte sink, `cookie_factory::GenError`.
#[verifier::external_type_specification]
#[verifier::external_body]
pub struct ExGenError(GenError);

/// Hands `text` to the sink `w`: `cookie_factory::gen_simple` run on
/// `cookie_factory::combinator::string`.
///
/// The combinator writes the UTF-8 bytes of the text with one call of the
/// sink's `write`, and fails only where that call fails or takes fewer bytes
/// than it was given. The sink here is always a `Vec<u8>`, whose `write`, as
/// the standard library says, appends to the vector, which grows as needed.
/// So the contract claims that the call succeeds and appends these bytes.
#[verifier::external_body]
fn put(w: &mut Vec<u8>, text: &str) -> (r: Result<(), GenError>)
    ensures
        (r is Ok) && final(w)@ == old(w)@ + text.spec_bytes(),
{
    match cookie_factory::gen_simple(cookie_factory::combinator::string(text), w) {
        Ok(_) => Ok(()),
        Err(e) => Err(e),
    }
}

/// Prints `StrafeSettings` into writer, which takes all of it.
pub fn gen_strafe(w: &mut Vec<u8>, value: &StrafeSettings) -> (r: Result<(), GenError>)
    ensures
        (r is Ok) && final(w)@ == old(w)@ + vstd::utf8::encode_utf8(notation::strafe(value@)),
{
    let mut text = String::new();
    strafe(&mut text, value);
    put(w, text.as_str())
}

/// Prints `FrameBulk` into writer, which takes all of it.
pub fn gen_frame_bulk(w: &mut Vec<u8>, value: &FrameBulk) -> (r: Result<(), GenError>)
    ensures
        (r is Ok) && final(w)@ == old(w)@ + vstd::utf8::encode_utf8(notation::frame_bulk(value@)),
{
    let mut text = String::new();
    line_frame_bulk(&mut text, value);
    put(w, text.as_str())
}

/// Prints [`Line`] into writer, which takes all of it.
pub fn gen_line(w: &mut Vec<u8>, value: &Line) -> (r: Result<(), GenError>)
    ensures
        (r is Ok) && final(w)@ == old(w)@ + vstd::utf8::encode_utf8(notation::line(value@)),
{
    let mut text = String::new();
    line(&mut text, value);
    put(w, text.as_str())
}

/// Prints newline-terminated [`Line`]s into writer, which takes all of them.
pub fn gen_lines(w: &mut Vec<u8>, value: &[Line]) -> (r: Result<(), GenError>)
    ensures
        (r is Ok) && final(w)@ == old(w)@ + vstd::utf8::encode_utf8(notation::lines(lines_of(value@))),
{
    let mut text = String::new();
    lines(&mut text, value);
    put(w, text.as_str())
}

/// Prints `HLTAS` into writer, which takes all of it.
pub fn gen_hltas(w: &mut Vec<u8>, value: &HLTAS) -> (r: Result<(), GenError>)
    ensures
        (r is Ok) && final(w)@ == old(w)@ + vstd::utf8::encode_utf8(notation::hltas(value@)),
{
    let mut text = String::new();
    hltas(&mut text, value);
    put(w, text.as_str())
}

} // verus!
