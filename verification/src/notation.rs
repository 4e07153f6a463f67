//! How each part of a script is written.
//!
//! These functions give the text of a value. What [`crate::write`] appends is
//! exactly this text, and [`crate::grammar`] reads it back.

use vstd::prelude::*;
use crate::grammar::is_zero;
use crate::types::{
    ActionKeys, AutoActionsView, AutoMovementView, Button, Buttons, ChangeTarget, ChangeView,
    DuckBeforeCollision, DuckBeforeGround, DuckWhenJump, FrameBulkView, JumpBug, HLTASView, LeaveGroundAction, LeaveGroundActionSpeed, LeaveGroundActionType,
    LineView, MovementKeys, Positive, PropertiesView, StrafeDirView, StrafeSettingsView,
    StrafeType, Times, VectorialStrafingConstraintsView,
};

verus! {

/// The digit that stands for a number below ten.
pub open spec fn digit(d: nat) -> char {
    if d == 0 {
        '0'
    } else if d == 1 {
        '1'
    } else if d == 2 {
        '2'
    } else if d == 3 {
        '3'
    } else if d == 4 {
        '4'
    } else if d == 5 {
        '5'
    } else if d == 6 {
        '6'
    } else if d == 7 {
        '7'
    } else if d == 8 {
        '8'
    } else {
        '9'
    }
}

/// A number in decimal notation, without a `0` in front unless it is zero.
pub open spec fn digits(n: nat) -> Seq<char>
    decreases n,
{
    if n < 10 {
        seq![digit(n)]
    } else {
        digits(n / 10).push(digit(n % 10))
    }
}

/// A number with a sign in decimal notation: `-` stands before one below zero.
pub open spec fn integer(n: int) -> Seq<char> {
    if n < 0 {
        seq!['-'] + digits((-n) as nat)
    } else {
        digits(n as nat)
    }
}

/// The digit of a strafing type.
pub open spec fn strafe_type(type_: StrafeType) -> Seq<char> {
    match type_ {
        StrafeType::MaxAccel => "0"@,
        StrafeType::MaxAngle => "1"@,
        StrafeType::MaxDeccel => "2"@,
        StrafeType::ConstSpeed => "3"@,
    }
}

/// The digit of a strafing direction.
pub open spec fn strafe_dir(dir: StrafeDirView) -> Seq<char> {
    match dir {
        StrafeDirView::Left => "0"@,
        StrafeDirView::Right => "1"@,
        StrafeDirView::Best => "2"@,
        StrafeDirView::Yaw(_) => "3"@,
        StrafeDirView::Point { .. } => "4"@,
        StrafeDirView::Line { .. } => "5"@,
        StrafeDirView::LeftRight(_) => "6"@,
        StrafeDirView::RightLeft(_) => "7"@,
    }
}

/// The strafing marker: `s` and the digits of type and direction.
pub open spec fn strafe(settings: StrafeSettingsView) -> Seq<char> {
    "s"@ + strafe_type(settings.type_) + strafe_dir(settings.dir)
}

/// A repeat count: its digits if it is limited, nothing if it is not.
pub open spec fn times(times: Times) -> Seq<char> {
    match times {
        Times::Limited(count) => digits(count.value() as nat),
        Times::UnlimitedWithinFrameBulk => Seq::empty(),
    }
}

/// The two characters of a jump or a ducktap.
pub open spec fn leave_ground_type(type_: LeaveGroundActionType) -> Seq<char> {
    match type_ {
        LeaveGroundActionType::Jump => "j-"@,
        LeaveGroundActionType::DuckTap { zero_ms: false } => "-d"@,
        LeaveGroundActionType::DuckTap { zero_ms: true } => "-D"@,
    }
}

/// The leave-ground marker. At any speed the count stands behind the letter
/// of the action; with a speed it stands behind the letter of the speed.
pub open spec fn leave_ground_action(action: Option<LeaveGroundAction>) -> Seq<char> {
    match action {
        None => "---"@,
        Some(LeaveGroundAction { speed, times: count, type_ }) => match speed {
            LeaveGroundActionSpeed::Any => match type_ {
                LeaveGroundActionType::Jump => "-"@ + "j"@ + times(count) + "-"@,
                LeaveGroundActionType::DuckTap { zero_ms: false } => "-"@ + "-d"@ + times(count),
                LeaveGroundActionType::DuckTap { zero_ms: true } => "-"@ + "-D"@ + times(count),
            },
            LeaveGroundActionSpeed::Optimal => "l"@ + times(count) + leave_ground_type(type_),
            LeaveGroundActionSpeed::OptimalWithFullMaxspeed => "L"@ + times(count)
                + leave_ground_type(type_),
        },
    }
}

/// An action that is a letter and a count, or `-` if it is not there.
pub open spec fn counted(letter: Seq<char>, count: Option<Times>) -> Seq<char> {
    match count {
        None => "-"@,
        Some(count) => letter + times(count),
    }
}

/// The strafing marker of a movement. A yaw that is set is no strafing: it
/// leaves `---` here and stands in the yaw field.
pub open spec fn movement_marker(movement: Option<AutoMovementView>) -> Seq<char> {
    match movement {
        Some(AutoMovementView::Strafe(settings)) => strafe(settings),
        _ => "---"@,
    }
}

/// The jumpbug marker.
pub open spec fn jump_bug(action: Option<JumpBug>) -> Seq<char> {
    counted(
        "b"@,
        match action {
            Some(a) => Some(a.times),
            None => None,
        },
    )
}

/// The duck-before-collision marker: `C` where ceilings count, else `c`.
pub open spec fn duck_before_collision(action: Option<DuckBeforeCollision>) -> Seq<char> {
    counted(
        if action matches Some(a) && a.including_ceilings {
            "C"@
        } else {
            "c"@
        },
        match action {
            Some(a) => Some(a.times),
            None => None,
        },
    )
}

/// The duck-before-ground marker.
pub open spec fn duck_before_ground(action: Option<DuckBeforeGround>) -> Seq<char> {
    counted(
        "g"@,
        match action {
            Some(a) => Some(a.times),
            None => None,
        },
    )
}

/// The duck-when-jump marker.
pub open spec fn duck_when_jump(action: Option<DuckWhenJump>) -> Seq<char> {
    counted(
        "w"@,
        match action {
            Some(a) => Some(a.times),
            None => None,
        },
    )
}

/// The automatic actions, the first field of a frame bulk: the six markers.
pub open spec fn auto_actions(actions: AutoActionsView) -> Seq<char> {
    movement_marker(actions.movement) + leave_ground_action(actions.leave_ground_action)
        + jump_bug(actions.jump_bug) + duck_before_collision(actions.duck_before_collision)
        + duck_before_ground(actions.duck_before_ground) + duck_when_jump(actions.duck_when_jump)
}

/// A key: its letter if it is held, `-` if it is not.
pub open spec fn key(symbol: Seq<char>, enabled: bool) -> Seq<char> {
    if enabled {
        symbol
    } else {
        "-"@
    }
}

/// The six movement keys, in the order `flrbud`.
pub open spec fn movement_keys(keys: MovementKeys) -> Seq<char> {
    key("f"@, keys.forward) + key("l"@, keys.left) + key("r"@, keys.right) + key("b"@, keys.back)
        + key("u"@, keys.up) + key("d"@, keys.down)
}

/// The six action keys, in the order `jdu12r`.
pub open spec fn action_keys(keys: ActionKeys) -> Seq<char> {
    key("j"@, keys.jump) + key("d"@, keys.duck) + key("u"@, keys.use_) + key("1"@, keys.attack_1)
        + key("2"@, keys.attack_2) + key("r"@, keys.reload)
}

/// The yaw field: the numbers of the movement, or `-` if it has none.
pub open spec fn yaw_field(movement: Option<AutoMovementView>) -> Seq<char> {
    match movement {
        None => "-"@,
        Some(AutoMovementView::SetYaw(yaw)) => yaw,
        Some(AutoMovementView::Strafe(settings)) => match settings.dir {
            StrafeDirView::Yaw(yaw) => yaw,
            StrafeDirView::Point { x, y } => x + " "@ + y,
            StrafeDirView::Line { yaw } => yaw,
            StrafeDirView::LeftRight(count) => digits(count.value() as nat),
            StrafeDirView::RightLeft(count) => digits(count.value() as nat),
            _ => "-"@,
        },
    }
}

/// A text that may be missing, behind `before`; nothing if it is missing.
pub open spec fn optional(before: Seq<char>, text: Option<Seq<char>>) -> Seq<char> {
    match text {
        Some(text) => before + text,
        None => Seq::empty(),
    }
}

/// The first fields of a frame bulk, each with `|` behind it: the automatic
/// actions, the movement keys, the action keys and the frame time.
pub open spec fn frame_bulk_keys(bulk: FrameBulkView) -> Seq<char> {
    auto_actions(bulk.auto_actions) + "|"@ + movement_keys(bulk.movement_keys) + "|"@
        + action_keys(bulk.action_keys) + "|"@ + bulk.frame_time + "|"@
}

/// The last fields of a frame bulk, with `|` between them: the yaw field,
/// the pitch (`-` if there is none) and the number of frames; a console
/// command, if there is one, follows behind one more `|`.
pub open spec fn frame_bulk_values(bulk: FrameBulkView) -> Seq<char> {
    yaw_field(bulk.auto_actions.movement) + "|"@ + (match bulk.pitch {
        Some(pitch) => pitch,
        None => "-"@,
    }) + "|"@ + digits(bulk.frame_count.value() as nat) + optional("|"@, bulk.console_command)
}

/// A frame bulk: its fields with `|` between them.
pub open spec fn frame_bulk(bulk: FrameBulkView) -> Seq<char> {
    frame_bulk_keys(bulk) + frame_bulk_values(bulk)
}

/// The digit of a button.
pub open spec fn button(button: Button) -> Seq<char> {
    match button {
        Button::Forward => "0"@,
        Button::ForwardLeft => "1"@,
        Button::Left => "2"@,
        Button::BackLeft => "3"@,
        Button::Back => "4"@,
        Button::BackRight => "5"@,
        Button::Right => "6"@,
        Button::ForwardRight => "7"@,
    }
}

/// A buttons line.
pub open spec fn buttons(buttons: Buttons) -> Seq<char> {
    match buttons {
        Buttons::Reset => "buttons"@,
        Buttons::Assign { air_left, air_right, ground_left, ground_right } => "buttons"@ + " "@
            + button(air_left) + " "@ + button(air_right) + " "@ + button(ground_left) + " "@
            + button(ground_right),
    }
}

/// The tolerance of a constraint: nothing if it is zero.
pub open spec fn tolerance(tolerance: Seq<char>) -> Seq<char> {
    if is_zero(tolerance) {
        Seq::empty()
    } else {
        " +-"@ + tolerance
    }
}

/// The entity of a look-at constraint: nothing if there is none.
pub open spec fn entity(entity: Option<Positive>) -> Seq<char> {
    match entity {
        Some(index) => " entity "@ + digits(index.value() as nat),
        None => Seq::empty(),
    }
}

/// A constraints line.
pub open spec fn constraints(constraints: VectorialStrafingConstraintsView) -> Seq<char> {
    "target_yaw"@ + " "@ + (match constraints {
        VectorialStrafingConstraintsView::VelocityYaw { tolerance: t } => "velocity"@ + tolerance(
            t,
        ),
        VectorialStrafingConstraintsView::AvgVelocityYaw { tolerance: t } => "velocity_avg"@
            + tolerance(t),
        VectorialStrafingConstraintsView::VelocityYawLocking { tolerance: t } => "velocity_lock"@
            + tolerance(t),
        VectorialStrafingConstraintsView::Yaw { yaw, tolerance: t } => yaw + tolerance(t),
        VectorialStrafingConstraintsView::YawRange { from, to } => "from "@ + from + " to "@ + to,
        VectorialStrafingConstraintsView::LookAt { entity: e, x, y, z } => "look_at"@ + entity(e)
            + " "@ + x + " "@ + y + " "@ + z,
    })
}

/// The name of a value that a change line changes.
pub open spec fn change_target(target: ChangeTarget) -> Seq<char> {
    match target {
        ChangeTarget::Yaw => "yaw"@,
        ChangeTarget::Pitch => "pitch"@,
        ChangeTarget::VectorialStrafingYaw => "target_yaw"@,
        ChangeTarget::VectorialStrafingYawOffset => "target_yaw_offset"@,
    }
}

/// A change line.
pub open spec fn change(change: ChangeView) -> Seq<char> {
    "change "@ + change_target(change.target) + " to "@ + change.final_value + " over "@
        + change.over + " s"@
}

/// The numbers, each behind a space.
pub open spec fn spaced(numbers: Seq<Seq<char>>) -> Seq<char>
    decreases numbers.len(),
{
    if numbers.len() == 0 {
        Seq::empty()
    } else {
        spaced(numbers.drop_last()) + " "@ + numbers.last()
    }
}

/// One line of the frames section, without a line ending.
pub open spec fn line(line: LineView) -> Seq<char> {
    match line {
        LineView::FrameBulk(bulk) => frame_bulk(bulk),
        LineView::Save(name) => "save"@ + " "@ + name,
        LineView::SharedSeed(seed) => "seed"@ + " "@ + digits(seed as nat),
        LineView::Buttons(b) => buttons(b),
        LineView::LGAGSTMinSpeed(speed) => "lgagstminspeed"@ + " "@ + speed,
        LineView::Reset { non_shared_seed } => "reset"@ + " "@ + integer(non_shared_seed as int),
        LineView::Comment(text) => "//"@ + text,
        LineView::VectorialStrafing(enabled) => "strafing"@ + " "@ + (if enabled {
            "vectorial"@
        } else {
            "yaw"@
        }),
        LineView::VectorialStrafingConstraints(c) => constraints(c),
        LineView::Change(c) => change(c),
        LineView::TargetYawOverride(yaws) => "target_yaw_override"@ + spaced(yaws),
    }
}

/// The lines, each with a line feed behind it.
pub open spec fn lines(lines: Seq<LineView>) -> Seq<char>
    decreases lines.len(),
{
    if lines.len() == 0 {
        Seq::empty()
    } else {
        self::lines(lines.drop_last()) + line(lines.last()) + "\n"@
    }
}

/// A property line: the name, a space, the value and a line feed; nothing
/// if the property is not set.
pub open spec fn property(name: Seq<char>, value: Option<Seq<char>>) -> Seq<char> {
    match value {
        Some(value) => name + " "@ + value + "\n"@,
        None => Seq::empty(),
    }
}

/// The properties that are set, one line each, in this order: `demo`, `save`,
/// `seed`, `frametime0ms`, `hlstrafe_version`, `load_command`.
pub open spec fn properties(p: PropertiesView) -> Seq<char> {
    property("demo"@, p.demo) + property("save"@, p.save) + property(
        "seed"@,
        match p.seeds {
            Some(seeds) => Some(
                digits(seeds.shared as nat) + " "@ + integer(seeds.non_shared as int),
            ),
            None => None,
        },
    ) + property("frametime0ms"@, p.frametime_0ms) + property(
        "hlstrafe_version"@,
        match p.hlstrafe_version {
            Some(version) => Some(digits(version.value() as nat)),
            None => None,
        },
    ) + property("load_command"@, p.load_command)
}

/// A whole script: the version line, the properties, the `frames` line, and
/// the lines of the frames section.
pub open spec fn hltas(script: HLTASView) -> Seq<char> {
    "version 1\n"@ + properties(script.properties) + "frames\n"@ + lines(script.lines)
}

} // verus!
