//! Which scripts are well formed.
//!
//! A script that was read is well formed, and a well-formed script is read
//! back from what is written of it.

use vstd::prelude::*;
use crate::grammar::{is_float, is_number, is_zero, zero, Class};
use crate::laws::pieces::{all_of, ends_run};
use crate::types::{
    AutoActionsView, AutoMovementView, ChangeView, FrameBulkView, HLTASView, LineView, Positive,
    PropertiesView, StrafeDirView, Times, VectorialStrafingConstraintsView,
};

verus! {

/// A text that fits in a line: it holds no line break.
pub open spec fn line_text(text: Seq<char>) -> bool {
    all_of(text, Class::NotBreak)
}

/// A text that can be the value of a property: it fits in a line and does
/// not start with a space or a tab.
pub open spec fn value_text(text: Seq<char>) -> bool {
    line_text(text) && ends_run(text, Class::Space)
}

/// A count is at least 1.
pub open spec fn count(count: Positive) -> bool {
    count.value() >= 1
}

/// A repeat count that is limited is at least 1.
pub open spec fn times(times: Times) -> bool {
    match times {
        Times::Limited(c) => count(c),
        Times::UnlimitedWithinFrameBulk => true,
    }
}

/// A count that may be missing is at least 1.
pub open spec fn counted(times: Option<Times>) -> bool {
    match times {
        Some(t) => self::times(t),
        None => true,
    }
}

/// A strafing direction that a frame bulk can state: its numbers are
/// numbers, and it is not one of the alternating directions.
pub open spec fn strafe_dir(dir: StrafeDirView) -> bool {
    match dir {
        StrafeDirView::Yaw(yaw) => is_float(yaw),
        StrafeDirView::Point { x, y } => is_float(x) && is_float(y),
        StrafeDirView::Line { yaw } => is_float(yaw),
        StrafeDirView::LeftRight(_) => false,
        StrafeDirView::RightLeft(_) => false,
        _ => true,
    }
}

/// A movement that a frame bulk can state.
pub open spec fn movement(movement: Option<AutoMovementView>) -> bool {
    match movement {
        None => true,
        Some(AutoMovementView::SetYaw(yaw)) => is_float(yaw),
        Some(AutoMovementView::Strafe(settings)) => strafe_dir(settings.dir),
    }
}

/// Automatic actions that a frame bulk can state.
pub open spec fn auto_actions(actions: AutoActionsView) -> bool {
    &&& movement(actions.movement)
    &&& actions.leave_ground_action matches Some(a) ==> times(a.times)
    &&& actions.jump_bug matches Some(a) ==> times(a.times)
    &&& actions.duck_before_collision matches Some(a) ==> times(a.times)
    &&& actions.duck_before_ground matches Some(a) ==> times(a.times)
    &&& actions.duck_when_jump matches Some(a) ==> times(a.times)
}

/// A frame bulk that a line can state.
pub open spec fn frame_bulk(bulk: FrameBulkView) -> bool {
    &&& auto_actions(bulk.auto_actions)
    &&& is_number(bulk.frame_time)
    &&& bulk.pitch matches Some(pitch) ==> is_float(pitch)
    &&& count(bulk.frame_count)
    &&& bulk.console_command matches Some(command) ==> line_text(command)
}

/// A tolerance is a number, and zero is written `0`.
pub open spec fn tolerance(text: Seq<char>) -> bool {
    is_float(text) && (is_zero(text) ==> text == zero())
}

/// Constraints that a line can state.
pub open spec fn constraints(constraints: VectorialStrafingConstraintsView) -> bool {
    match constraints {
        VectorialStrafingConstraintsView::VelocityYaw { tolerance: t } => tolerance(t),
        VectorialStrafingConstraintsView::AvgVelocityYaw { tolerance: t } => tolerance(t),
        VectorialStrafingConstraintsView::VelocityYawLocking { tolerance: t } => tolerance(t),
        VectorialStrafingConstraintsView::Yaw { yaw, tolerance: t } => is_float(yaw)
            && tolerance(t),
        VectorialStrafingConstraintsView::YawRange { from, to } => is_float(from) && is_float(
            to,
        ),
        VectorialStrafingConstraintsView::LookAt { entity, x, y, z } => {
            &&& entity matches Some(index) ==> count(index)
            &&& is_float(x)
            &&& is_float(y)
            &&& is_float(z)
        },
    }
}

/// A change that a line can state.
pub open spec fn change(change: ChangeView) -> bool {
    is_float(change.final_value) && is_float(change.over)
}

/// Whether every text of `numbers` is a number.
pub open spec fn numbers(numbers: Seq<Seq<char>>) -> bool {
    forall|k: int| 0 <= k < numbers.len() ==> is_float(#[trigger] numbers[k])
}

/// A line that a script can hold.
pub open spec fn line(line: LineView) -> bool {
    match line {
        LineView::FrameBulk(bulk) => frame_bulk(bulk),
        LineView::Save(name) => value_text(name) && name.len() > 0,
        LineView::LGAGSTMinSpeed(speed) => is_float(speed),
        LineView::Comment(text) => line_text(text),
        LineView::VectorialStrafingConstraints(c) => constraints(c),
        LineView::Change(c) => change(c),
        LineView::TargetYawOverride(yaws) => yaws.len() > 0 && numbers(yaws),
        _ => true,
    }
}

/// Whether every line of `lines` is one that a script can hold.
pub open spec fn lines(lines: Seq<LineView>) -> bool {
    forall|k: int| 0 <= k < lines.len() ==> line(#[trigger] lines[k])
}

/// A property that is a text can be the value of a property.
pub open spec fn property(value: Option<Seq<char>>) -> bool {
    match value {
        Some(text) => value_text(text),
        None => true,
    }
}

/// Properties that a script can hold.
pub open spec fn properties(p: PropertiesView) -> bool {
    &&& property(p.demo)
    &&& property(p.save)
    &&& property(p.frametime_0ms)
    &&& p.hlstrafe_version matches Some(version) ==> count(version)
    &&& property(p.load_command)
}

/// A script is well formed where its properties and its lines are.
pub open spec fn script(script: HLTASView) -> bool {
    properties(script.properties) && lines(script.lines)
}

} // verus!
