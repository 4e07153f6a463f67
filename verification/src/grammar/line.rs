//! The lines of the frames section.

use vstd::prelude::*;
use crate::grammar::properties::property;
use crate::grammar::{
    char, context, cut, fail, fault, giving, inner, non_shared_seed, non_zero_u32, not_line_ending,
    or, recognize_float, shared_seed, space1, starts_with, tag, to, zero, Class, Fault, Out,
    leading, is_zero, finite,
};
use crate::read::{Context, ErrorKind, Rule};
use crate::types::{
    ActionKeys, AutoActionsView, AutoMovementView, Button, Buttons, ChangeTarget, ChangeView,
    DuckBeforeCollision, DuckBeforeGround, DuckWhenJump, FrameBulkView, JumpBug,
    LeaveGroundAction, LeaveGroundActionSpeed, LeaveGroundActionType, LineView, MovementKeys,
    Positive, StrafeDirView, StrafeSettingsView, StrafeType, Times,
    VectorialStrafingConstraintsView,
};

verus! {

/// The digit of a strafing type.
pub open spec fn strafe_type(i: Seq<char>) -> Out<StrafeType> {
    if starts_with(i, '0') {
        Ok((i.skip(1), StrafeType::MaxAccel))
    } else if starts_with(i, '1') {
        Ok((i.skip(1), StrafeType::MaxAngle))
    } else if starts_with(i, '2') {
        Ok((i.skip(1), StrafeType::MaxDeccel))
    } else {
        giving(char(i, '3'), StrafeType::ConstSpeed)
    }
}

/// The digit of a strafing direction. The numbers of a direction that has
/// any stand in the yaw field; until that is read they are zero.
pub open spec fn strafe_dir(i: Seq<char>) -> Out<StrafeDirView> {
    if starts_with(i, '0') {
        Ok((i.skip(1), StrafeDirView::Left))
    } else if starts_with(i, '1') {
        Ok((i.skip(1), StrafeDirView::Right))
    } else if starts_with(i, '2') {
        Ok((i.skip(1), StrafeDirView::Best))
    } else if starts_with(i, '3') {
        Ok((i.skip(1), StrafeDirView::Yaw(zero())))
    } else if starts_with(i, '4') {
        Ok((i.skip(1), StrafeDirView::Point { x: zero(), y: zero() }))
    } else {
        giving(char(i, '5'), StrafeDirView::Line { yaw: zero() })
    }
}

/// The digits of a strafing type and direction.
pub open spec fn strafe_settings(i: Seq<char>) -> Out<StrafeSettingsView> {
    match strafe_type(i) {
        Err(e) => Err(e),
        Ok((i1, type_)) => match strafe_dir(i1) {
            Err(e) => Err(e),
            Ok((i2, dir)) => Ok((i2, StrafeSettingsView { type_, dir })),
        },
    }
}

/// The strafing marker: `---` for none, or `s` and the two digits.
pub open spec fn strafe(i: Seq<char>) -> Out<Option<StrafeSettingsView>> {
    if tag(i, "---"@) is Ok {
        giving(tag(i, "---"@), None)
    } else {
        match char(i, 's') {
            Err(e) => Err(e),
            Ok((i1, _)) => to(strafe_settings(i1), |s: StrafeSettingsView| Some(s)),
        }
    }
}

/// A repeat count, which may be missing: without one the action is unlimited
/// within the frame bulk. A count starts with a digit that is not `0`; one
/// that 32 bits cannot hold is not read as a count.
pub open spec fn parse_times(i: Seq<char>) -> (Seq<char>, Times) {
    match non_zero_u32(i) {
        Ok((rest, count)) => (rest, Times::Limited(count)),
        Err(_) => (i, Times::UnlimitedWithinFrameBulk),
    }
}

/// The letter of a speed-qualified leave-ground action.
pub open spec fn lgagst_action_speed(i: Seq<char>) -> Out<LeaveGroundActionSpeed> {
    if starts_with(i, 'l') {
        Ok((i.skip(1), LeaveGroundActionSpeed::Optimal))
    } else {
        giving(char(i, 'L'), LeaveGroundActionSpeed::OptimalWithFullMaxspeed)
    }
}

/// Whether `i` asks for a jump and for a ducktap at once: `j`, an optional
/// count, and `d` or `D`.
pub open spec fn jump_and_ducktap(i: Seq<char>) -> bool {
    starts_with(i, 'j') && {
        let after = parse_times(i.skip(1)).0;
        starts_with(after, 'd') || starts_with(after, 'D')
    }
}

/// Whether `i` starts with a jump or a ducktap that has a count of its own.
pub open spec fn counted_action(i: Seq<char>) -> bool {
    ||| starts_with(i, 'j') && non_zero_u32(i.skip(1)) is Ok
    ||| tag(i, "-d"@) is Ok && non_zero_u32(i.skip(2)) is Ok
    ||| tag(i, "-D"@) is Ok && non_zero_u32(i.skip(2)) is Ok
}

/// The fault of a check that found at `i` what may not stand there.
pub open spec fn refused(i: Seq<char>, meaning: Context) -> Fault {
    Fault {
        remaining: i.len(),
        kind: ErrorKind::Other(Rule::Not),
        context: Some(meaning),
        cut: true,
    }
}

/// Jump or ducktap, as two characters: `j-`, `-d` or `-D`.
pub open spec fn lgagst_action_type(i: Seq<char>) -> Out<LeaveGroundActionType> {
    if tag(i, "j-"@) is Ok {
        Ok((i.skip(2), LeaveGroundActionType::Jump))
    } else if tag(i, "-d"@) is Ok {
        Ok((i.skip(2), LeaveGroundActionType::DuckTap { zero_ms: false }))
    } else {
        giving(tag(i, "-D"@), LeaveGroundActionType::DuckTap { zero_ms: true })
    }
}

/// A speed-qualified leave-ground action: the speed letter, an optional
/// count, and the action. Once the letter is read the rest must follow.
pub open spec fn lgagst_action(i: Seq<char>) -> Out<LeaveGroundAction> {
    match lgagst_action_speed(i) {
        Err(e) => Err(e),
        Ok((i1, speed)) => {
            let (i2, times) = parse_times(i1);
            if jump_and_ducktap(i2) {
                Err(refused(i2, Context::BothAutoJumpAndDuckTap))
            } else if tag(i2, "--"@) is Ok {
                Err(refused(i2, Context::NoLeaveGroundAction))
            } else if counted_action(i2) {
                Err(refused(i2, Context::TimesOnLeaveGroundAction))
            } else {
                to(
                    cut(lgagst_action_type(i2)),
                    |type_: LeaveGroundActionType| LeaveGroundAction { speed, times, type_ },
                )
            }
        },
    }
}

/// A leave-ground action at any speed: `-`, then `j`, an optional count and
/// `-`, or `-d` or `-D` and an optional count.
pub open spec fn non_lgagst_action(i: Seq<char>) -> Out<LeaveGroundAction> {
    match char(i, '-') {
        Err(e) => Err(e),
        Ok((i1, _)) => if jump_and_ducktap(i1) {
            Err(refused(i1, Context::BothAutoJumpAndDuckTap))
        } else if starts_with(i1, 'j') && starts_with(parse_times(i1.skip(1)).0, '-') {
            Ok(
                (
                    parse_times(i1.skip(1)).0.skip(1),
                    LeaveGroundAction {
                        speed: LeaveGroundActionSpeed::Any,
                        times: parse_times(i1.skip(1)).1,
                        type_: LeaveGroundActionType::Jump,
                    },
                ),
            )
        } else if tag(i1, "-d"@) is Ok {
            Ok(
                (
                    parse_times(i1.skip(2)).0,
                    LeaveGroundAction {
                        speed: LeaveGroundActionSpeed::Any,
                        times: parse_times(i1.skip(2)).1,
                        type_: LeaveGroundActionType::DuckTap { zero_ms: false },
                    },
                ),
            )
        } else if tag(i1, "-D"@) is Ok {
            Ok(
                (
                    parse_times(i1.skip(2)).0,
                    LeaveGroundAction {
                        speed: LeaveGroundActionSpeed::Any,
                        times: parse_times(i1.skip(2)).1,
                        type_: LeaveGroundActionType::DuckTap { zero_ms: true },
                    },
                ),
            )
        } else {
            fail(i1, Rule::Tag)
        },
    }
}

/// The leave-ground marker: an action with a speed, one without, or `---`
/// for none.
#[verifier::opaque]
pub open spec fn leave_ground_action(i: Seq<char>) -> Out<Option<LeaveGroundAction>> {
    or(
        to(lgagst_action(i), |a: LeaveGroundAction| Some(a)),
        or(to(non_lgagst_action(i), |a: LeaveGroundAction| Some(a)), giving(tag(i, "---"@), None)),
    )
}

/// An action that is a letter and an optional count, or `-` for none: the
/// count, if the action is there.
pub open spec fn counted(i: Seq<char>, letter: char) -> Out<Option<Times>> {
    if starts_with(i, '-') {
        Ok((i.skip(1), None))
    } else {
        match char(i, letter) {
            Err(e) => Err(e),
            Ok((i1, _)) => Ok((parse_times(i1).0, Some(parse_times(i1).1))),
        }
    }
}

/// The jumpbug marker: `-`, or `b` and an optional count.
pub open spec fn jump_bug(i: Seq<char>) -> Out<Option<JumpBug>> {
    to(
        counted(i, 'b'),
        |t: Option<Times>|
            match t {
                Some(times) => Some(JumpBug { times }),
                None => None,
            },
    )
}

/// The duck-before-collision marker: `-`, or `c` (`C` with ceilings) and an
/// optional count.
pub open spec fn duck_before_collision(i: Seq<char>) -> Out<Option<DuckBeforeCollision>> {
    if starts_with(i, '-') {
        Ok((i.skip(1), None))
    } else if starts_with(i, 'c') {
        Ok(
            (
                parse_times(i.skip(1)).0,
                Some(
                    DuckBeforeCollision {
                        times: parse_times(i.skip(1)).1,
                        including_ceilings: false,
                    },
                ),
            ),
        )
    } else {
        match char(i, 'C') {
            Err(e) => Err(e),
            Ok((i1, _)) => Ok(
                (
                    parse_times(i1).0,
                    Some(DuckBeforeCollision { times: parse_times(i1).1, including_ceilings: true }),
                ),
            ),
        }
    }
}

/// The duck-before-ground marker: `-`, or `g` and an optional count.
pub open spec fn duck_before_ground(i: Seq<char>) -> Out<Option<DuckBeforeGround>> {
    to(
        counted(i, 'g'),
        |t: Option<Times>|
            match t {
                Some(times) => Some(DuckBeforeGround { times }),
                None => None,
            },
    )
}

/// The duck-when-jump marker: `-`, or `w` and an optional count.
pub open spec fn duck_when_jump(i: Seq<char>) -> Out<Option<DuckWhenJump>> {
    to(
        counted(i, 'w'),
        |t: Option<Times>|
            match t {
                Some(times) => Some(DuckWhenJump { times }),
                None => None,
            },
    )
}

/// The automatic actions, the first field of a frame bulk. Once the strafing
/// marker is read the line is a frame bulk, and the other markers must follow.
#[verifier::opaque]
pub open spec fn auto_actions(i: Seq<char>) -> Out<AutoActionsView> {
    match strafe(i) {
        Err(e) => Err(e),
        Ok((i1, settings)) => match cut(leave_ground_action(i1)) {
            Err(e) => Err(e),
            Ok((i2, leave_ground_action)) => match cut(jump_bug(i2)) {
                Err(e) => Err(e),
                Ok((i3, jump_bug)) => match cut(duck_before_collision(i3)) {
                    Err(e) => Err(e),
                    Ok((i4, duck_before_collision)) => match cut(duck_before_ground(i4)) {
                        Err(e) => Err(e),
                        Ok((i5, duck_before_ground)) => match cut(duck_when_jump(i5)) {
                            Err(e) => Err(e),
                            Ok((i6, duck_when_jump)) => Ok(
                                (
                                    i6,
                                    AutoActionsView {
                                        movement: match settings {
                                            Some(s) => Some(AutoMovementView::Strafe(s)),
                                            None => None,
                                        },
                                        leave_ground_action,
                                        jump_bug,
                                        duck_before_collision,
                                        duck_before_ground,
                                        duck_when_jump,
                                    },
                                ),
                            ),
                        },
                    },
                },
            },
        },
    }
}

/// A key: its letter if it is held, `-` if it is not.
#[verifier::opaque]
pub open spec fn key(i: Seq<char>, symbol: char) -> Out<bool> {
    if starts_with(i, symbol) {
        Ok((i.skip(1), true))
    } else {
        giving(char(i, '-'), false)
    }
}

/// The six movement keys, in the order `flrbud`.
#[verifier::opaque]
pub open spec fn movement_keys(i: Seq<char>) -> Out<MovementKeys> {
    match key(i, 'f') {
        Err(e) => Err(e),
        Ok((i1, forward)) => match key(i1, 'l') {
            Err(e) => Err(e),
            Ok((i2, left)) => match key(i2, 'r') {
                Err(e) => Err(e),
                Ok((i3, right)) => match key(i3, 'b') {
                    Err(e) => Err(e),
                    Ok((i4, back)) => match key(i4, 'u') {
                        Err(e) => Err(e),
                        Ok((i5, up)) => match key(i5, 'd') {
                            Err(e) => Err(e),
                            Ok((i6, down)) => Ok(
                                (i6, MovementKeys { forward, left, right, back, up, down }),
                            ),
                        },
                    },
                },
            },
        },
    }
}

/// The six action keys, in the order `jdu12r`.
#[verifier::opaque]
pub open spec fn action_keys(i: Seq<char>) -> Out<ActionKeys> {
    match key(i, 'j') {
        Err(e) => Err(e),
        Ok((i1, jump)) => match key(i1, 'd') {
            Err(e) => Err(e),
            Ok((i2, duck)) => match key(i2, 'u') {
                Err(e) => Err(e),
                Ok((i3, use_)) => match key(i3, '1') {
                    Err(e) => Err(e),
                    Ok((i4, attack_1)) => match key(i4, '2') {
                        Err(e) => Err(e),
                        Ok((i5, attack_2)) => match key(i5, 'r') {
                            Err(e) => Err(e),
                            Ok((i6, reload)) => Ok(
                                (i6, ActionKeys { jump, duck, use_, attack_1, attack_2, reload }),
                            ),
                        },
                    },
                },
            },
        },
    }
}

/// A number with a place in single precision, kept as it is written.
pub open spec fn float(i: Seq<char>) -> Out<Seq<char>> {
    match recognize_float(i) {
        Err(e) => Err(e),
        Ok((rest, text)) => if finite(text) {
            Ok((rest, text))
        } else {
            fail(i, Rule::Verify)
        },
    }
}

/// A number, or `-` for none.
pub open spec fn pitch(i: Seq<char>) -> Out<Option<Seq<char>>> {
    if float(i) is Ok {
        to(float(i), |t: Seq<char>| Some(t))
    } else {
        giving(char(i, '-'), None)
    }
}

/// Whether the yaw field holds `-`, and no number, where the strafing
/// direction needs a number.
pub open spec fn yaw_missing(i: Seq<char>) -> bool {
    recognize_float(i) is Err && starts_with(i, '-')
}

/// The fault of a yaw field that holds `-` where a number must stand.
pub open spec fn no_yaw(i: Seq<char>) -> Fault {
    Fault {
        remaining: i.len(),
        kind: ErrorKind::Other(Rule::Not),
        context: Some(Context::NoYaw),
        cut: false,
    }
}

/// The strafing with the given type and direction.
pub open spec fn strafing(type_: StrafeType, dir: StrafeDirView) -> Option<AutoMovementView> {
    Some(AutoMovementView::Strafe(StrafeSettingsView { type_, dir }))
}

/// The yaw field, which is read by what the strafing marker said:
/// - without strafing, a number (the yaw to set) or `-`;
/// - strafing towards a yaw or along a line, a number;
/// - strafing towards a point, two numbers with spaces between them;
/// - strafing in any other direction, `-`.
///
/// The result is the movement with the numbers filled in.
#[verifier::opaque]
pub open spec fn yaw_field(movement: Option<AutoMovementView>, i: Seq<char>) -> Out<
    Option<AutoMovementView>,
> {
    match movement {
        None => if float(i) is Ok {
            to(float(i), |t: Seq<char>| Some(AutoMovementView::SetYaw(t)))
        } else {
            giving(char(i, '-'), None)
        },
        Some(AutoMovementView::SetYaw(_)) => Ok((i, movement)),
        Some(AutoMovementView::Strafe(StrafeSettingsView { type_, dir })) => match dir {
            StrafeDirView::Yaw(_) => if yaw_missing(i) {
                Err(no_yaw(i))
            } else {
                to(float(i), |t: Seq<char>| strafing(type_, StrafeDirView::Yaw(t)))
            },
            StrafeDirView::Line { .. } => if yaw_missing(i) {
                Err(no_yaw(i))
            } else {
                to(float(i), |t: Seq<char>| strafing(type_, StrafeDirView::Line { yaw: t }))
            },
            StrafeDirView::Point { .. } => if yaw_missing(i) {
                Err(no_yaw(i))
            } else {
                match float(i) {
                    Err(e) => Err(e),
                    Ok((i1, x)) => match space1(i1) {
                        Err(e) => Err(e),
                        Ok((i2, _)) => to(
                            float(i2),
                            |y: Seq<char>| strafing(type_, StrafeDirView::Point { x, y }),
                        ),
                    },
                }
            },
            _ => giving(char(i, '-'), movement),
        },
    }
}

/// The number of frames: a number from 1, or `-` or `0`, which both stand for 1.
pub open spec fn frame_count(i: Seq<char>) -> Out<Positive> {
    if starts_with(i, '-') || starts_with(i, '0') {
        Ok((i.skip(1), Positive::of(1)))
    } else {
        non_zero_u32(i)
    }
}

/// The console command, if the line has one: `|` and the rest of the line.
pub open spec fn console_command(i: Seq<char>) -> (Seq<char>, Option<Seq<char>>) {
    if starts_with(i, '|') && not_line_ending(i.skip(1)) is Ok {
        (not_line_ending(i.skip(1))->Ok_0.0, Some(not_line_ending(i.skip(1))->Ok_0.1))
    } else {
        (i, None)
    }
}

/// `|` and then the field that `field` reads. The line is known to be a
/// frame bulk, so a fault closes the alternatives.
pub open spec fn bar(i: Seq<char>) -> Out<char> {
    cut(char(i, '|'))
}

/// A frame bulk: the automatic actions, anything up to the first `|`, and
/// behind one `|` each the movement keys, the action keys, the frame time,
/// the yaw field, the pitch and the number of frames; a console command may
/// follow.
#[verifier::opaque]
pub open spec fn line_frame_bulk(i: Seq<char>) -> Out<FrameBulkView> {
    match auto_actions(i) {
        Err(e) => Err(e),
        Ok((i0, actions)) => match bar(i0.skip(leading(i0, Class::NotBar) as int)) {
            Err(e) => Err(e),
            Ok((i1, _)) => match cut(movement_keys(i1)) {
                Err(e) => Err(e),
                Ok((i2, movement_keys)) => match bar(i2) {
                    Err(e) => Err(e),
                    Ok((i3, _)) => match cut(action_keys(i3)) {
                        Err(e) => Err(e),
                        Ok((i4, action_keys)) => match bar(i4) {
                            Err(e) => Err(e),
                            Ok((i5, _)) => match cut(recognize_float(i5)) {
                                Err(e) => Err(e),
                                Ok((i6, frame_time)) => frame_bulk_tail(
                                    i6,
                                    actions,
                                    movement_keys,
                                    action_keys,
                                    frame_time,
                                ),
                            },
                        },
                    },
                },
            },
        },
    }
}

/// The fields of a frame bulk from the yaw field on.
#[verifier::opaque]
pub open spec fn frame_bulk_tail(
    i: Seq<char>,
    actions: AutoActionsView,
    movement_keys: MovementKeys,
    action_keys: ActionKeys,
    frame_time: Seq<char>,
) -> Out<FrameBulkView> {
    match bar(i) {
        Err(e) => Err(e),
        Ok((i1, _)) => match cut(yaw_field(actions.movement, i1)) {
            Err(e) => Err(e),
            Ok((i2, movement)) => match bar(i2) {
                Err(e) => Err(e),
                Ok((i3, _)) => match cut(pitch(i3)) {
                    Err(e) => Err(e),
                    Ok((i4, pitch)) => match bar(i4) {
                        Err(e) => Err(e),
                        Ok((i5, _)) => match cut(frame_count(i5)) {
                            Err(e) => Err(e),
                            Ok((i6, frame_count)) => Ok(
                                (
                                    console_command(i6).0,
                                    FrameBulkView {
                                        auto_actions: AutoActionsView { movement, ..actions },
                                        movement_keys,
                                        action_keys,
                                        frame_time,
                                        pitch,
                                        frame_count,
                                        console_command: console_command(i6).1,
                                    },
                                ),
                            ),
                        },
                    },
                },
            },
        },
    }
}

/// A line that is a name and a value, where the name starts with `word`:
/// the value, with the input behind the line.
#[verifier::opaque]
pub open spec fn keyed(i: Seq<char>, word: Seq<char>) -> Out<Seq<char>> {
    match property(i) {
        Err(e) => Err(e),
        Ok((rest, (name, value))) => if tag(name, word) is Ok {
            Ok((rest, value))
        } else {
            fail(i, Rule::Tag)
        },
    }
}

/// The fault of a value that is empty where it may not be.
pub open spec fn missing(more: Seq<char>, meaning: Context) -> Fault {
    Fault {
        remaining: more.len(),
        kind: ErrorKind::Other(Rule::Eof),
        context: Some(meaning),
        cut: true,
    }
}

/// A save line: `save` and a name that is not empty.
#[verifier::opaque]
pub open spec fn line_save(i: Seq<char>) -> Out<Seq<char>> {
    match keyed(i, "save"@) {
        Err(e) => Err(e),
        Ok((rest, value)) => if value.len() == 0 {
            Err(missing(rest, Context::NoSaveName))
        } else {
            Ok((rest, value))
        },
    }
}

/// A seed line: `seed` and the shared seed.
#[verifier::opaque]
pub open spec fn line_seed(i: Seq<char>) -> Out<u32> {
    match keyed(i, "seed"@) {
        Err(e) => Err(e),
        Ok((rest, value)) => if value.len() == 0 {
            Err(missing(rest, Context::NoSeed))
        } else {
            inner(cut(shared_seed(value)), rest)
        },
    }
}

/// The digit of a button.
pub open spec fn button(i: Seq<char>) -> Out<Button> {
    if starts_with(i, '0') {
        Ok((i.skip(1), Button::Forward))
    } else if starts_with(i, '1') {
        Ok((i.skip(1), Button::ForwardLeft))
    } else if starts_with(i, '2') {
        Ok((i.skip(1), Button::Left))
    } else if starts_with(i, '3') {
        Ok((i.skip(1), Button::BackLeft))
    } else if starts_with(i, '4') {
        Ok((i.skip(1), Button::Back))
    } else if starts_with(i, '5') {
        Ok((i.skip(1), Button::BackRight))
    } else if starts_with(i, '6') {
        Ok((i.skip(1), Button::Right))
    } else {
        giving(char(i, '7'), Button::ForwardRight)
    }
}

/// Spaces and a button. That nothing follows, or nothing follows the
/// spaces, means that the buttons are missing.
pub open spec fn spaced_button(i: Seq<char>) -> Out<Button> {
    match space1(i) {
        Err(e) => Err(Fault { context: Some(Context::NoButtons), cut: true, ..e }),
        Ok((i1, _)) => if i1.len() == 0 {
            Err(missing(i1, Context::NoButtons))
        } else {
            button(i1)
        },
    }
}

/// The four buttons, each behind spaces: air left, air right, ground left,
/// ground right.
#[verifier::opaque]
pub open spec fn buttons(i: Seq<char>) -> Out<Buttons> {
    match spaced_button(i) {
        Err(e) => Err(e),
        Ok((i1, air_left)) => match spaced_button(i1) {
            Err(e) => Err(e),
            Ok((i2, air_right)) => match spaced_button(i2) {
                Err(e) => Err(e),
                Ok((i3, ground_left)) => match spaced_button(i3) {
                    Err(e) => Err(e),
                    Ok((i4, ground_right)) => Ok(
                        (i4, Buttons::Assign { air_left, air_right, ground_left, ground_right }),
                    ),
                },
            },
        },
    }
}

/// A buttons line: `buttons` alone resets the buttons; with spaces behind
/// it the four buttons must follow.
#[verifier::opaque]
pub open spec fn line_buttons(i: Seq<char>) -> Out<Buttons> {
    match tag(i, "buttons"@) {
        Err(e) => Err(e),
        Ok((i1, _)) => if space1(i1) is Ok && not_line_ending(space1(i1)->Ok_0.0) is Ok {
            cut(buttons(i1))
        } else {
            Ok((i1, Buttons::Reset))
        },
    }
}

/// A minimum-speed line: `lgagstminspeed` and a number.
#[verifier::opaque]
pub open spec fn line_lgagst_min_speed(i: Seq<char>) -> Out<Seq<char>> {
    match keyed(i, "lgagstminspeed"@) {
        Err(e) => Err(e),
        Ok((rest, value)) => if value.len() == 0 {
            Err(missing(rest, Context::NoLGAGSTMinSpeed))
        } else {
            inner(cut(float(value)), rest)
        },
    }
}

/// A reset line: `reset` and the non-shared seed.
#[verifier::opaque]
pub open spec fn line_reset(i: Seq<char>) -> Out<i64> {
    match keyed(i, "reset"@) {
        Err(e) => Err(e),
        Ok((rest, value)) => if value.len() == 0 {
            Err(missing(rest, Context::NoResetSeed))
        } else {
            inner(cut(non_shared_seed(value)), rest)
        },
    }
}

/// A comment line: `//` and the rest of the line.
#[verifier::opaque]
pub open spec fn line_comment(i: Seq<char>) -> Out<Seq<char>> {
    match tag(i, "//"@) {
        Err(e) => Err(e),
        Ok((i1, _)) => not_line_ending(i1),
    }
}

/// The strafing algorithm: `vectorial` or `yaw`.
pub open spec fn algorithm(i: Seq<char>) -> Out<bool> {
    if tag(i, "yaw"@) is Ok {
        giving(tag(i, "yaw"@), false)
    } else {
        giving(tag(i, "vectorial"@), true)
    }
}

/// A strafing line: `strafing` and the algorithm; the result says whether it
/// is the vectorial one.
#[verifier::opaque]
pub open spec fn line_strafing(i: Seq<char>) -> Out<bool> {
    match keyed(i, "strafing"@) {
        Err(e) => Err(e),
        Ok((rest, value)) => inner(
            cut(context(Context::InvalidStrafingAlgorithm, algorithm(value))),
            rest,
        ),
    }
}

/// A tolerance: `+-` and a number.
pub open spec fn parse_tolerance(i: Seq<char>) -> Out<Seq<char>> {
    match context(Context::NoPlusMinusBeforeTolerance, tag(i, "+-"@)) {
        Err(e) => Err(e),
        Ok((i1, _)) => float(i1),
    }
}

/// The tolerance as it is kept: zero is always written `0`.
pub open spec fn kept_tolerance(text: Seq<char>) -> Seq<char> {
    if is_zero(text) {
        zero()
    } else {
        text
    }
}

/// The tolerance of a constraint, which may be missing: a space and a
/// tolerance, which must follow the space. Without one the tolerance is zero.
pub open spec fn tolerance(i: Seq<char>) -> Out<Seq<char>> {
    if starts_with(i, ' ') {
        to(cut(parse_tolerance(i.skip(1))), |t: Seq<char>| kept_tolerance(t))
    } else {
        Ok((i, zero()))
    }
}

/// An entity of a look-at constraint, which may be missing: ` entity ` and
/// its index, a number from 1.
pub open spec fn entity(i: Seq<char>) -> (Seq<char>, Option<Positive>) {
    if tag(i, " entity "@) is Ok && non_zero_u32(i.skip(8)) is Ok {
        (non_zero_u32(i.skip(8))->Ok_0.0, Some(non_zero_u32(i.skip(8))->Ok_0.1))
    } else {
        (i, None)
    }
}

/// A space and a number.
pub open spec fn spaced_float(i: Seq<char>) -> Out<Seq<char>> {
    match tag(i, " "@) {
        Err(e) => Err(e),
        Ok((i1, _)) => float(i1),
    }
}

/// What follows `look_at`: an optional entity and the three numbers of a
/// point, each behind a space.
pub open spec fn look_at(i: Seq<char>) -> Out<VectorialStrafingConstraintsView> {
    let (i1, entity) = entity(i);
    match spaced_float(i1) {
        Err(e) => Err(e),
        Ok((i2, x)) => match spaced_float(i2) {
            Err(e) => Err(e),
            Ok((i3, y)) => match spaced_float(i3) {
                Err(e) => Err(e),
                Ok((i4, z)) => Ok((i4, VectorialStrafingConstraintsView::LookAt { entity, x, y, z })),
            },
        },
    }
}

/// What follows `from `: a number, ` to `, and a number.
pub open spec fn yaw_range(i: Seq<char>) -> Out<VectorialStrafingConstraintsView> {
    match float(i) {
        Err(e) => Err(e),
        Ok((i1, from)) => match cut(context(Context::NoTo, tag(i1, " to "@))) {
            Err(e) => Err(e),
            Ok((i2, _)) => to(
                float(i2),
                |to: Seq<char>| VectorialStrafingConstraintsView::YawRange { from, to },
            ),
        },
    }
}

/// A yaw with an optional tolerance.
pub open spec fn yaw_constraint(i: Seq<char>) -> Out<VectorialStrafingConstraintsView> {
    match float(i) {
        Err(e) => Err(e),
        Ok((i1, yaw)) => to(
            tolerance(i1),
            |tolerance: Seq<char>| VectorialStrafingConstraintsView::Yaw { yaw, tolerance },
        ),
    }
}

/// The constraints of a `target_yaw` line, tried in this order:
/// `velocity_avg`, `velocity_lock` and `velocity`, each with an optional
/// tolerance; a yaw with an optional tolerance; `from ` and a range;
/// `look_at` and a point.
#[verifier::opaque]
pub open spec fn constraints(i: Seq<char>) -> Out<VectorialStrafingConstraintsView> {
    if tag(i, "velocity_avg"@) is Ok {
        to(
            tolerance(i.skip(12)),
            |tolerance: Seq<char>| VectorialStrafingConstraintsView::AvgVelocityYaw { tolerance },
        )
    } else if tag(i, "velocity_lock"@) is Ok {
        to(
            tolerance(i.skip(13)),
            |tolerance: Seq<char>|
                VectorialStrafingConstraintsView::VelocityYawLocking { tolerance },
        )
    } else if tag(i, "velocity"@) is Ok {
        to(
            tolerance(i.skip(8)),
            |tolerance: Seq<char>| VectorialStrafingConstraintsView::VelocityYaw { tolerance },
        )
    } else if float(i) is Ok {
        yaw_constraint(i)
    } else if tag(i, "from "@) is Ok {
        or(yaw_range(i.skip(5)), after_look_at(i))
    } else {
        after_look_at(i)
    }
}

/// The last alternative of the constraints: `look_at` and what follows it.
pub open spec fn after_look_at(i: Seq<char>) -> Out<VectorialStrafingConstraintsView> {
    match tag(i, "look_at"@) {
        Err(e) => Err(e),
        Ok((i1, _)) => cut(look_at(i1)),
    }
}

/// Whether a value starts with `from` and holds nothing else but spaces.
pub open spec fn bare_from(value: Seq<char>) -> bool {
    tag(value, "from"@) is Ok && leading(value.skip(4), Class::Space) == value.len() - 4
}

/// A constraints line: `target_yaw` and the constraints.
#[verifier::opaque]
pub open spec fn line_target_yaw(i: Seq<char>) -> Out<VectorialStrafingConstraintsView> {
    match keyed(i, "target_yaw"@) {
        Err(e) => Err(e),
        Ok((rest, value)) => if value.len() == 0 {
            Err(missing(rest, Context::NoConstraints))
        } else if bare_from(value) {
            Err(missing(rest, Context::NoFromToParameters))
        } else {
            inner(cut(constraints(value)), rest)
        },
    }
}

/// The value that a change line names.
pub open spec fn change_target(i: Seq<char>) -> Out<ChangeTarget> {
    if tag(i, "yaw"@) is Ok {
        giving(tag(i, "yaw"@), ChangeTarget::Yaw)
    } else if tag(i, "pitch"@) is Ok {
        giving(tag(i, "pitch"@), ChangeTarget::Pitch)
    } else if tag(i, "target_yaw_offset"@) is Ok {
        giving(tag(i, "target_yaw_offset"@), ChangeTarget::VectorialStrafingYawOffset)
    } else {
        giving(tag(i, "target_yaw"@), ChangeTarget::VectorialStrafingYaw)
    }
}

/// What a change line holds behind `change`: the value to change, ` to `,
/// the final value, ` over `, the duration, and ` s`.
#[verifier::opaque]
pub open spec fn change(i: Seq<char>) -> Out<ChangeView> {
    match cut(change_target(i)) {
        Err(e) => Err(e),
        Ok((i1, target)) => match cut(tag(i1, " to "@)) {
            Err(e) => Err(e),
            Ok((i2, _)) => match float(i2) {
                Err(e) => Err(e),
                Ok((i3, final_value)) => match cut(tag(i3, " over "@)) {
                    Err(e) => Err(e),
                    Ok((i4, _)) => match float(i4) {
                        Err(e) => Err(e),
                        Ok((i5, over)) => giving(
                            cut(tag(i5, " s"@)),
                            ChangeView { target, final_value, over },
                        ),
                    },
                },
            },
        },
    }
}

/// A change line: `change` and what is to change.
#[verifier::opaque]
pub open spec fn line_change(i: Seq<char>) -> Out<ChangeView> {
    match keyed(i, "change"@) {
        Err(e) => Err(e),
        Ok((rest, value)) => inner(change(value), rest),
    }
}

/// The numbers that follow in `i`, each behind spaces, as far as they go,
/// and the input behind the last of them.
pub open spec fn more_floats(i: Seq<char>) -> (Seq<char>, Seq<Seq<char>>)
    decreases i.len(),
{
    match space1(i) {
        Err(_) => (i, Seq::empty()),
        Ok((i1, _)) => match float(i1) {
            Err(_) => (i, Seq::empty()),
            Ok((i2, yaw)) => if i2.len() < i.len() {
                (more_floats(i2).0, seq![yaw] + more_floats(i2).1)
            } else {
                (i, Seq::empty())
            },
        },
    }
}

/// One or more numbers with spaces between them.
pub open spec fn floats(i: Seq<char>) -> Out<Seq<Seq<char>>> {
    match float(i) {
        Err(e) => Err(e),
        Ok((i1, first)) => Ok((more_floats(i1).0, seq![first] + more_floats(i1).1)),
    }
}

/// An override line: `target_yaw_override` and one or more yaws.
#[verifier::opaque]
pub open spec fn line_target_yaw_override(i: Seq<char>) -> Out<Seq<Seq<char>>> {
    match keyed(i, "target_yaw_override"@) {
        Err(e) => Err(e),
        Ok((rest, value)) => inner(cut(floats(value)), rest),
    }
}

/// One line of the frames section. The kinds of line are tried in this
/// order, and the first that matches is taken: frame bulk, save, seed,
/// buttons, minimum speed, reset, comment, strafing, yaw override,
/// constraints, change. A fault that is cut ends the trying.
#[verifier::opaque]
pub open spec fn line(i: Seq<char>) -> Out<LineView> {
    or(
        to(line_frame_bulk(i), |b: FrameBulkView| LineView::FrameBulk(b)),
        or(
            to(line_save(i), |name: Seq<char>| LineView::Save(name)),
            or(
                to(line_seed(i), |seed: u32| LineView::SharedSeed(seed)),
                or(to(line_buttons(i), |b: Buttons| LineView::Buttons(b)), line_rest(i)),
            ),
        ),
    )
}

/// The kinds of line from the minimum speed on.
#[verifier::opaque]
pub open spec fn line_rest(i: Seq<char>) -> Out<LineView> {
    or(
        to(line_lgagst_min_speed(i), |speed: Seq<char>| LineView::LGAGSTMinSpeed(speed)),
        or(
            to(line_reset(i), |non_shared_seed: i64| LineView::Reset { non_shared_seed }),
            or(
                to(line_comment(i), |text: Seq<char>| LineView::Comment(text)),
                or(
                    to(line_strafing(i), |enabled: bool| LineView::VectorialStrafing(enabled)),
                    or(
                        to(
                            line_target_yaw_override(i),
                            |yaws: Seq<Seq<char>>| LineView::TargetYawOverride(yaws),
                        ),
                        or(
                            to(
                                line_target_yaw(i),
                                |c: VectorialStrafingConstraintsView|
                                    LineView::VectorialStrafingConstraints(c),
                            ),
                            to(line_change(i), |c: ChangeView| LineView::Change(c)),
                        ),
                    ),
                ),
            ),
        ),
    )
}

} // verus!
