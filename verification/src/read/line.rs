//! Reading the lines of the frames section.

use vstd::prelude::*;
use crate::grammar::line as rules;
use crate::grammar::{Class, Fault};
use crate::number::Number;
use crate::read::properties::property;
use crate::read::{
    agrees, agrees_in, char, context, cut, fail, has_tag, later, leading, lemma_fits,
    non_shared_seed, non_zero_u32, not_line_ending, recognize_float, shared_seed, skip, space1,
    starts_with, tag, Context, ErrorKind, Failure, PResult, Rule,
};
use crate::text::string_of;
use crate::types::{
    view_of, ActionKeys, AutoActions, AutoMovement, Button, Buttons, Change, ChangeTarget,
    DuckBeforeCollision, DuckBeforeGround, DuckWhenJump, FrameBulk, JumpBug, LeaveGroundAction,
    LeaveGroundActionSpeed, LeaveGroundActionType, Line, MovementKeys, Positive, StrafeDir,
    StrafeSettings, StrafeType, Times, VectorialStrafingConstraints,
};

verus! {

/// The digit of a strafing type.
pub fn strafe_type(i: &[char]) -> (r: PResult<StrafeType>)
    ensures
        agrees(r, i@, rules::strafe_type(i@)),
{
    if starts_with(i, '0') {
        Ok((skip(i, 1), StrafeType::MaxAccel))
    } else if starts_with(i, '1') {
        Ok((skip(i, 1), StrafeType::MaxAngle))
    } else if starts_with(i, '2') {
        Ok((skip(i, 1), StrafeType::MaxDeccel))
    } else {
        let (rest, _) = char(i, '3')?;
        Ok((rest, StrafeType::ConstSpeed))
    }
}

/// The digit of a strafing direction.
pub fn strafe_dir(i: &[char]) -> (r: PResult<StrafeDir>)
    ensures
        agrees_in(r, i@, rules::strafe_dir(i@)),
{
    // The actual values for Yaw, Point and Line are filled in later, while parsing the yaw field.
    if starts_with(i, '0') {
        Ok((skip(i, 1), StrafeDir::Left))
    } else if starts_with(i, '1') {
        Ok((skip(i, 1), StrafeDir::Right))
    } else if starts_with(i, '2') {
        Ok((skip(i, 1), StrafeDir::Best))
    } else if starts_with(i, '3') {
        Ok((skip(i, 1), StrafeDir::Yaw(Number::zero())))
    } else if starts_with(i, '4') {
        Ok((skip(i, 1), StrafeDir::Point { x: Number::zero(), y: Number::zero() }))
    } else {
        let (rest, _) = char(i, '5')?;
        Ok((rest, StrafeDir::Line { yaw: Number::zero() }))
    }
}

/// The digits of a strafing type and direction.
pub fn strafe_settings(i: &[char]) -> (r: PResult<StrafeSettings>)
    ensures
        agrees_in(r, i@, rules::strafe_settings(i@)),
{
    let (i1, type_) = strafe_type(i)?;
    let (i2, dir) = strafe_dir(i1)?;
    Ok((i2, StrafeSettings { type_, dir }))
}

/// The strafing marker: `---` for none, or `s` and the two digits.
pub fn strafe(i: &[char]) -> (r: PResult<Option<StrafeSettings>>)
    ensures
        match r {
            Ok((rest, settings)) => rules::strafe(i@) == Ok::<_, Fault>((rest@, view_of(settings)))
                && rest@.len() <= i@.len(),
            Err(e) => rules::strafe(i@) == Err::<
                (Seq<char>, Option<crate::types::StrafeSettingsView>),
                _,
            >(e@) && e.remaining <= i@.len(),
        },
{
    if has_tag(i, "---") {
        let (rest, _) = tag(i, "---")?;
        Ok((rest, None))
    } else {
        let (i1, _) = char(i, 's')?;
        let (i2, settings) = strafe_settings(i1)?;
        Ok((i2, Some(settings)))
    }
}

/// A repeat count, which may be missing.
pub fn parse_times(i: &[char]) -> (r: (&[char], Times))
    ensures
        (r.0@, r.1) == rules::parse_times(i@),
        r.0@.len() <= i@.len(),
{
    match non_zero_u32(i) {
        Ok((rest, count)) => (rest, Times::Limited(count)),
        Err(_) => (i, Times::UnlimitedWithinFrameBulk),
    }
}

/// The letter of a speed-qualified leave-ground action.
pub fn lgagst_action_speed(i: &[char]) -> (r: PResult<LeaveGroundActionSpeed>)
    ensures
        agrees(r, i@, rules::lgagst_action_speed(i@)),
{
    if starts_with(i, 'l') {
        Ok((skip(i, 1), LeaveGroundActionSpeed::Optimal))
    } else {
        let (rest, _) = char(i, 'L')?;
        Ok((rest, LeaveGroundActionSpeed::OptimalWithFullMaxspeed))
    }
}

/// Whether `i` asks for a jump and for a ducktap at once.
pub fn jump_and_ducktap(i: &[char]) -> (b: bool)
    ensures
        b == rules::jump_and_ducktap(i@),
{
    if starts_with(i, 'j') {
        let (after, _) = parse_times(skip(i, 1));
        starts_with(after, 'd') || starts_with(after, 'D')
    } else {
        false
    }
}

/// Whether `i` starts with a jump or a ducktap that has a count of its own.
pub fn counted_action(i: &[char]) -> (b: bool)
    ensures
        b == rules::counted_action(i@),
{
    proof {
        reveal_strlit("-d");
        reveal_strlit("-D");
    }
    (starts_with(i, 'j') && non_zero_u32(skip(i, 1)).is_ok()) || (has_tag(i, "-d")
        && non_zero_u32(skip(i, 2)).is_ok()) || (has_tag(i, "-D") && non_zero_u32(
        skip(i, 2),
    ).is_ok())
}

/// The failure of a check that found at `i` what may not stand there.
pub fn refused(i: &[char], meaning: Context) -> (e: Failure)
    ensures
        e@ == rules::refused(i@, meaning),
        e.remaining == i@.len(),
{
    Failure {
        remaining: i.len(),
        kind: ErrorKind::Other(Rule::Not),
        context: Some(meaning),
        cut: true,
    }
}

/// The failure of a value that is empty where it may not be.
pub fn missing(more: &[char], meaning: Context) -> (e: Failure)
    ensures
        e@ == rules::missing(more@, meaning),
        e.remaining == more@.len(),
{
    Failure {
        remaining: more.len(),
        kind: ErrorKind::Other(Rule::Eof),
        context: Some(meaning),
        cut: true,
    }
}

/// Jump or ducktap, as two characters: `j-`, `-d` or `-D`.
pub fn lgagst_action_type(i: &[char]) -> (r: PResult<LeaveGroundActionType>)
    ensures
        agrees(r, i@, rules::lgagst_action_type(i@)),
{
    proof {
        reveal_strlit("j-");
        reveal_strlit("-d");
        reveal_strlit("-D");
    }
    if has_tag(i, "j-") {
        Ok((skip(i, 2), LeaveGroundActionType::Jump))
    } else if has_tag(i, "-d") {
        Ok((skip(i, 2), LeaveGroundActionType::DuckTap { zero_ms: false }))
    } else {
        let (rest, _) = tag(i, "-D")?;
        Ok((rest, LeaveGroundActionType::DuckTap { zero_ms: true }))
    }
}

/// A speed-qualified leave-ground action.
pub fn lgagst_action(i: &[char]) -> (r: PResult<LeaveGroundAction>)
    ensures
        agrees(r, i@, rules::lgagst_action(i@)),
{
    let (i1, speed) = lgagst_action_speed(i)?;
    let (i2, times) = parse_times(i1);

    // Check for the both autojump and ducktap error.
    if jump_and_ducktap(i2) {
        return Err(refused(i2, Context::BothAutoJumpAndDuckTap));
    }
    // Check for the no leave ground action error.
    if has_tag(i2, "--") {
        return Err(refused(i2, Context::NoLeaveGroundAction));
    }
    // Check for the times on leave ground action error.
    if counted_action(i2) {
        return Err(refused(i2, Context::TimesOnLeaveGroundAction));
    }
    match lgagst_action_type(i2) {
        Ok((rest, type_)) => Ok((rest, LeaveGroundAction { speed, times, type_ })),
        Err(e) => Err(cut(e)),
    }
}

/// A leave-ground action at any speed.
pub fn non_lgagst_action(i: &[char]) -> (r: PResult<LeaveGroundAction>)
    ensures
        agrees(r, i@, rules::non_lgagst_action(i@)),
{
    let (i1, _) = char(i, '-')?;

    // Check for the both autojump and ducktap error.
    if jump_and_ducktap(i1) {
        return Err(refused(i1, Context::BothAutoJumpAndDuckTap));
    }
    proof {
        reveal_strlit("-d");
        reveal_strlit("-D");
    }
    if starts_with(i1, 'j') {
        let (after, times) = parse_times(skip(i1, 1));
        if starts_with(after, '-') {
            return Ok(
                (
                    skip(after, 1),
                    LeaveGroundAction {
                        speed: LeaveGroundActionSpeed::Any,
                        times,
                        type_: LeaveGroundActionType::Jump,
                    },
                ),
            );
        }
    }
    if has_tag(i1, "-d") {
        let (rest, times) = parse_times(skip(i1, 2));
        Ok(
            (
                rest,
                LeaveGroundAction {
                    speed: LeaveGroundActionSpeed::Any,
                    times,
                    type_: LeaveGroundActionType::DuckTap { zero_ms: false },
                },
            ),
        )
    } else if has_tag(i1, "-D") {
        let (rest, times) = parse_times(skip(i1, 2));
        Ok(
            (
                rest,
                LeaveGroundAction {
                    speed: LeaveGroundActionSpeed::Any,
                    times,
                    type_: LeaveGroundActionType::DuckTap { zero_ms: true },
                },
            ),
        )
    } else {
        Err(fail(i1, Rule::Tag))
    }
}

/// The leave-ground marker: an action with a speed, one without, or `---`
/// for none.
pub fn leave_ground_action(i: &[char]) -> (r: PResult<Option<LeaveGroundAction>>)
    ensures
        agrees(r, i@, rules::leave_ground_action(i@)),
{
    proof {
        reveal(rules::leave_ground_action);
    }
    match lgagst_action(i) {
        Ok((rest, action)) => {
            return Ok((rest, Some(action)));
        },
        Err(e) => {
            if e.cut {
                return Err(e);
            }
        },
    }
    match non_lgagst_action(i) {
        Ok((rest, action)) => {
            return Ok((rest, Some(action)));
        },
        Err(e) => {
            if e.cut {
                return Err(e);
            }
        },
    }
    let (rest, _) = tag(i, "---")?;
    Ok((rest, None))
}

/// An action that is a letter and an optional count, or `-` for none.
pub fn counted(i: &[char], letter: char) -> (r: PResult<Option<Times>>)
    ensures
        agrees(r, i@, rules::counted(i@, letter)),
{
    if starts_with(i, '-') {
        Ok((skip(i, 1), None))
    } else {
        let (i1, _) = char(i, letter)?;
        let (rest, times) = parse_times(i1);
        Ok((rest, Some(times)))
    }
}

/// The jumpbug marker: `-`, or `b` and an optional count.
pub fn jump_bug(i: &[char]) -> (r: PResult<Option<JumpBug>>)
    ensures
        agrees(r, i@, rules::jump_bug(i@)),
{
    let (rest, times) = counted(i, 'b')?;
    Ok(
        (
            rest,
            match times {
                Some(times) => Some(JumpBug { times }),
                None => None,
            },
        ),
    )
}

/// The duck-before-collision marker: `-`, or `c` (`C` with ceilings) and an
/// optional count.
pub fn duck_before_collision(i: &[char]) -> (r: PResult<Option<DuckBeforeCollision>>)
    ensures
        agrees(r, i@, rules::duck_before_collision(i@)),
{
    if starts_with(i, '-') {
        Ok((skip(i, 1), None))
    } else if starts_with(i, 'c') {
        let (rest, times) = parse_times(skip(i, 1));
        Ok((rest, Some(DuckBeforeCollision { times, including_ceilings: false })))
    } else {
        let (i1, _) = char(i, 'C')?;
        let (rest, times) = parse_times(i1);
        Ok((rest, Some(DuckBeforeCollision { times, including_ceilings: true })))
    }
}

/// The duck-before-ground marker: `-`, or `g` and an optional count.
pub fn duck_before_ground(i: &[char]) -> (r: PResult<Option<DuckBeforeGround>>)
    ensures
        agrees(r, i@, rules::duck_before_ground(i@)),
{
    let (rest, times) = counted(i, 'g')?;
    Ok(
        (
            rest,
            match times {
                Some(times) => Some(DuckBeforeGround { times }),
                None => None,
            },
        ),
    )
}

/// The duck-when-jump marker: `-`, or `w` and an optional count.
pub fn duck_when_jump(i: &[char]) -> (r: PResult<Option<DuckWhenJump>>)
    ensures
        agrees(r, i@, rules::duck_when_jump(i@)),
{
    let (rest, times) = counted(i, 'w')?;
    Ok(
        (
            rest,
            match times {
                Some(times) => Some(DuckWhenJump { times }),
                None => None,
            },
        ),
    )
}

/// The same result, but a failure closes the alternatives.
pub fn committed<'a, T>(r: PResult<'a, T>) -> (c: PResult<'a, T>)
    ensures
        c == (match r {
            Ok(done) => Ok(done),
            Err(e) => Err(Failure { cut: true, ..e }),
        }),
{
    match r {
        Ok(done) => Ok(done),
        Err(e) => Err(cut(e)),
    }
}

/// The automatic actions, the first field of a frame bulk.
pub fn auto_actions(i: &[char]) -> (r: PResult<AutoActions>)
    ensures
        agrees_in(r, i@, rules::auto_actions(i@)),
{
    proof {
        reveal(rules::auto_actions);
    }
    let (i1, settings) = strafe(i)?;
    let (i2, leave_ground_action) = committed(leave_ground_action(i1))?;
    let (i3, jump_bug) = committed(jump_bug(i2))?;
    let (i4, duck_before_collision) = committed(duck_before_collision(i3))?;
    let (i5, duck_before_ground) = committed(duck_before_ground(i4))?;
    let (i6, duck_when_jump) = committed(duck_when_jump(i5))?;
    Ok(
        (
            i6,
            AutoActions {
                movement: match settings {
                    Some(settings) => Some(AutoMovement::Strafe(settings)),
                    None => None,
                },
                leave_ground_action,
                jump_bug,
                duck_before_collision,
                duck_before_ground,
                duck_when_jump,
            },
        ),
    )
}

/// A key: its letter if it is held, `-` if it is not.
pub fn key(i: &[char], symbol: char) -> (r: PResult<bool>)
    ensures
        agrees(r, i@, rules::key(i@, symbol)),
{
    proof {
        reveal(rules::key);
    }
    if starts_with(i, symbol) {
        Ok((skip(i, 1), true))
    } else {
        let (rest, _) = char(i, '-')?;
        Ok((rest, false))
    }
}

/// The six movement keys, in the order `flrbud`.
pub fn movement_keys(i: &[char]) -> (r: PResult<MovementKeys>)
    ensures
        agrees(r, i@, rules::movement_keys(i@)),
{
    proof {
        reveal(rules::movement_keys);
    }
    let (i, forward) = key(i, 'f')?;
    let (i, left) = key(i, 'l')?;
    let (i, right) = key(i, 'r')?;
    let (i, back) = key(i, 'b')?;
    let (i, up) = key(i, 'u')?;
    let (i, down) = key(i, 'd')?;
    Ok((i, MovementKeys { forward, left, right, back, up, down }))
}

/// The six action keys, in the order `jdu12r`.
pub fn action_keys(i: &[char]) -> (r: PResult<ActionKeys>)
    ensures
        agrees(r, i@, rules::action_keys(i@)),
{
    proof {
        reveal(rules::action_keys);
    }
    let (i, jump) = key(i, 'j')?;
    let (i, duck) = key(i, 'd')?;
    let (i, use_) = key(i, 'u')?;
    let (i, attack_1) = key(i, '1')?;
    let (i, attack_2) = key(i, '2')?;
    let (i, reload) = key(i, 'r')?;
    Ok((i, ActionKeys { jump, duck, use_, attack_1, attack_2, reload }))
}

/// A number, kept as it is written.
pub fn float(i: &[char]) -> (r: PResult<Number>)
    ensures
        agrees_in(r, i@, rules::float(i@)),
        r is Ok ==> r->Ok_0.0@.len() < i@.len(),
{
    let (rest, text) = recognize_float(i)?;
    if crate::magnitude::finite(text) {
        Ok((rest, Number::of(text)))
    } else {
        Err(fail(i, Rule::Verify))
    }
}

/// A number, or `-` for none.
pub fn pitch(i: &[char]) -> (r: PResult<Option<Number>>)
    ensures
        match r {
            Ok((rest, pitch)) => rules::pitch(i@) == Ok::<_, Fault>((rest@, view_of(pitch)))
                && rest@.len() <= i@.len(),
            Err(e) => rules::pitch(i@) == Err::<(Seq<char>, Option<Seq<char>>), _>(e@)
                && e.remaining <= i@.len(),
        },
{
    match float(i) {
        Ok((rest, pitch)) => Ok((rest, Some(pitch))),
        Err(_) => {
            let (rest, _) = char(i, '-')?;
            Ok((rest, None))
        },
    }
}

/// The failure of a yaw field that holds `-` where a number must stand.
pub fn no_yaw(i: &[char]) -> (e: Failure)
    ensures
        e@ == rules::no_yaw(i@),
        e.remaining == i@.len(),
{
    Failure {
        remaining: i.len(),
        kind: ErrorKind::Other(Rule::Not),
        context: Some(Context::NoYaw),
        cut: false,
    }
}

/// Whether the yaw field holds `-` where a number must stand.
pub fn yaw_missing(i: &[char]) -> (b: bool)
    ensures
        b == rules::yaw_missing(i@),
{
    recognize_float(i).is_err() && starts_with(i, '-')
}

/// Reads the yaw field given an `AutoMovement`.
///
/// The yaw field contents depend on the strafing:
/// - If strafing is disabled, the yaw field can be either empty or contain one float (the yaw
///   angle).
/// - If strafing is enabled with Yaw or Line dir, then the yaw field should contain one float (the
///   yaw angle).
/// - If strafing is enabled with Point dir, the yaw field should contain two floats (X and Y
///   coordinates).
/// - If strafing is enabled with other dirs, the yaw field should be empty.
pub fn yaw_field(movement: Option<AutoMovement>, i: &[char]) -> (r: PResult<Option<AutoMovement>>)
    requires
        !(movement matches Some(AutoMovement::SetYaw(_))),
    ensures
        match r {
            Ok((rest, filled)) => rules::yaw_field(view_of(movement), i@) == Ok::<_, Fault>(
                (rest@, view_of(filled)),
            ) && rest@.len() <= i@.len(),
            Err(e) => rules::yaw_field(view_of(movement), i@) == Err::<
                (Seq<char>, Option<crate::types::AutoMovementView>),
                _,
            >(e@) && e.remaining <= i@.len(),
        },
{
    proof {
        reveal(rules::yaw_field);
    }
    match movement {
        None => match float(i) {
            Ok((rest, yaw)) => Ok((rest, Some(AutoMovement::SetYaw(yaw)))),
            Err(_) => {
                let (rest, _) = char(i, '-')?;
                Ok((rest, None))
            },
        },
        Some(AutoMovement::SetYaw(yaw)) => Ok((i, Some(AutoMovement::SetYaw(yaw)))),
        Some(AutoMovement::Strafe(StrafeSettings { type_, dir })) => match dir {
            StrafeDir::Yaw(_) => {
                if yaw_missing(i) {
                    return Err(no_yaw(i));
                }
                let (rest, yaw) = float(i)?;
                Ok((rest, Some(AutoMovement::Strafe(StrafeSettings { type_, dir: StrafeDir::Yaw(yaw) }))))
            },
            StrafeDir::Line { .. } => {
                if yaw_missing(i) {
                    return Err(no_yaw(i));
                }
                let (rest, yaw) = float(i)?;
                Ok(
                    (
                        rest,
                        Some(
                            AutoMovement::Strafe(
                                StrafeSettings { type_, dir: StrafeDir::Line { yaw } },
                            ),
                        ),
                    ),
                )
            },
            StrafeDir::Point { .. } => {
                if yaw_missing(i) {
                    return Err(no_yaw(i));
                }
                let (i1, x) = float(i)?;
                let (i2, _) = space1(i1)?;
                let (rest, y) = float(i2)?;
                Ok(
                    (
                        rest,
                        Some(
                            AutoMovement::Strafe(
                                StrafeSettings { type_, dir: StrafeDir::Point { x, y } },
                            ),
                        ),
                    ),
                )
            },
            dir => {
                let (rest, _) = char(i, '-')?;
                Ok((rest, Some(AutoMovement::Strafe(StrafeSettings { type_, dir }))))
            },
        },
    }
}

/// The number of frames: a number from 1, or `-` or `0`, which both stand for 1.
pub fn frame_count(i: &[char]) -> (r: PResult<Positive>)
    ensures
        agrees(r, i@, rules::frame_count(i@)),
{
    if starts_with(i, '-') || starts_with(i, '0') {
        // Backwards compatibility.
        Ok((skip(i, 1), Positive::one()))
    } else {
        non_zero_u32(i)
    }
}

/// The console command, if the line has one: `|` and the rest of the line.
pub fn console_command(i: &[char]) -> (r: (&[char], Option<String>))
    ensures
        (r.0@, view_of(r.1)) == rules::console_command(i@),
        r.0@.len() <= i@.len(),
{
    if starts_with(i, '|') {
        match not_line_ending(skip(i, 1)) {
            Ok((rest, text)) => (rest, Some(string_of(text))),
            Err(_) => (i, None),
        }
    } else {
        (i, None)
    }
}

/// `|`, which must stand where a frame bulk goes on.
pub fn bar(i: &[char]) -> (r: PResult<char>)
    ensures
        agrees(r, i@, rules::bar(i@)),
{
    committed(char(i, '|'))
}

/// A frame bulk.
pub fn line_frame_bulk(i: &[char]) -> (r: PResult<FrameBulk>)
    ensures
        agrees_in(r, i@, rules::line_frame_bulk(i@)),
{
    proof {
        reveal(rules::line_frame_bulk);
        reveal(rules::frame_bulk_tail);
        reveal(rules::auto_actions);
    }
    // The movement will be filled in later.
    let (i0, auto_actions) = auto_actions(i)?;
    // Backwards compatibility: HLTAS didn't check the first field length, so extra characters were
    // permitted.
    let (i1, _) = bar(skip(i0, leading(i0, Class::NotBar)))?;
    let (i2, movement_keys) = committed(movement_keys(i1))?;
    let (i3, _) = bar(i2)?;
    let (i4, action_keys) = committed(action_keys(i3))?;
    let (i5, _) = bar(i4)?;
    let (i6, frame_time) = match recognize_float(i5) {
        Ok(done) => done,
        Err(e) => {
            return Err(cut(e));
        },
    };

    // Parse the yaw field and get the updated movement.
    let AutoActions {
        movement,
        leave_ground_action,
        jump_bug,
        duck_before_collision,
        duck_before_ground,
        duck_when_jump,
    } = auto_actions;
    let (i7, _) = bar(i6)?;
    let (i8, movement) = match yaw_field(movement, i7) {
        Ok(done) => done,
        Err(e) => {
            return Err(cut(e));
        },
    };
    let (i9, _) = bar(i8)?;
    let (i10, pitch) = match pitch(i9) {
        Ok(done) => done,
        Err(e) => {
            return Err(cut(e));
        },
    };
    let (i11, _) = bar(i10)?;
    let (i12, frame_count) = committed(frame_count(i11))?;

    // The console command field is optional.
    let (rest, console_command) = console_command(i12);

    Ok(
        (
            rest,
            FrameBulk {
                auto_actions: AutoActions {
                    movement,
                    leave_ground_action,
                    jump_bug,
                    duck_before_collision,
                    duck_before_ground,
                    duck_when_jump,
                },
                movement_keys,
                action_keys,
                frame_time: string_of(frame_time),
                pitch,
                frame_count,
                console_command,
            },
        ),
    )
}

/// A line that is a name and a value, where the name starts with `word`.
pub fn keyed<'a>(i: &'a [char], word: &str) -> (r: PResult<'a, &'a [char]>)
    ensures
        match r {
            Ok((rest, value)) => rules::keyed(i@, word@) == Ok::<_, Fault>((rest@, value@))
                && value@.len() + rest@.len() < i@.len(),
            Err(e) => rules::keyed(i@, word@) == Err::<(Seq<char>, Seq<char>), _>(e@)
                && e.remaining <= i@.len(),
        },
{
    proof {
        reveal(rules::keyed);
    }
    let (rest, (name, value)) = property(i)?;
    if has_tag(name, word) {
        Ok((rest, value))
    } else {
        Err(fail(i, Rule::Tag))
    }
}

/// The result of reading a value that stands in front of `more`.
pub fn inner<'a, 'b, T>(r: PResult<'b, T>, more: &'a [char]) -> (c: PResult<'a, T>)
    requires
        r matches Err(e) ==> e.remaining + more@.len() <= usize::MAX,
    ensures
        c == (match r {
            Ok((_, value)) => Ok::<_, Failure>((more, value)),
            Err(e) => Err(
                Failure { remaining: (e.remaining + more@.len()) as usize, ..e },
            ),
        }),
{
    match r {
        Ok((_, value)) => Ok((more, value)),
        Err(e) => Err(later(e, more)),
    }
}

/// A save line: `save` and a name that is not empty.
pub fn line_save(i: &[char]) -> (r: PResult<String>)
    ensures
        agrees_in(r, i@, rules::line_save(i@)),
{
    proof {
        reveal(rules::line_save);
    }
    let (rest, value) = keyed(i, "save")?;
    if value.len() == 0 {
        Err(missing(rest, Context::NoSaveName))
    } else {
        Ok((rest, string_of(value)))
    }
}

/// A seed line: `seed` and the shared seed.
pub fn line_seed(i: &[char]) -> (r: PResult<u32>)
    ensures
        agrees(r, i@, rules::line_seed(i@)),
{
    proof {
        reveal(rules::line_seed);
    }
    let (rest, value) = keyed(i, "seed")?;
    if value.len() == 0 {
        Err(missing(rest, Context::NoSeed))
    } else {
        proof {
            lemma_fits(i);
        }
        inner(committed(shared_seed(value)), rest)
    }
}

/// The digit of a button.
pub fn button(i: &[char]) -> (r: PResult<Button>)
    ensures
        agrees(r, i@, rules::button(i@)),
{
    if starts_with(i, '0') {
        Ok((skip(i, 1), Button::Forward))
    } else if starts_with(i, '1') {
        Ok((skip(i, 1), Button::ForwardLeft))
    } else if starts_with(i, '2') {
        Ok((skip(i, 1), Button::Left))
    } else if starts_with(i, '3') {
        Ok((skip(i, 1), Button::BackLeft))
    } else if starts_with(i, '4') {
        Ok((skip(i, 1), Button::Back))
    } else if starts_with(i, '5') {
        Ok((skip(i, 1), Button::BackRight))
    } else if starts_with(i, '6') {
        Ok((skip(i, 1), Button::Right))
    } else {
        let (rest, _) = char(i, '7')?;
        Ok((rest, Button::ForwardRight))
    }
}

/// Spaces and a button.
pub fn spaced_button(i: &[char]) -> (r: PResult<Button>)
    ensures
        agrees(r, i@, rules::spaced_button(i@)),
{
    match space1(i) {
        Err(e) => Err(
            Failure {
                remaining: e.remaining,
                kind: e.kind,
                context: Some(Context::NoButtons),
                cut: true,
            },
        ),
        Ok((i1, _)) => {
            if i1.len() == 0 {
                Err(missing(i1, Context::NoButtons))
            } else {
                button(i1)
            }
        },
    }
}

/// The four buttons, each behind spaces.
pub fn buttons(i: &[char]) -> (r: PResult<Buttons>)
    ensures
        agrees(r, i@, rules::buttons(i@)),
{
    proof {
        reveal(rules::buttons);
    }
    let (i, air_left) = spaced_button(i)?;
    let (i, air_right) = spaced_button(i)?;
    let (i, ground_left) = spaced_button(i)?;
    let (i, ground_right) = spaced_button(i)?;
    Ok((i, Buttons::Assign { air_left, air_right, ground_left, ground_right }))
}

/// A buttons line.
pub fn line_buttons(i: &[char]) -> (r: PResult<Buttons>)
    ensures
        agrees(r, i@, rules::line_buttons(i@)),
{
    proof {
        reveal(rules::line_buttons);
    }
    let (i1, _) = tag(i, "buttons")?;
    let followed = match space1(i1) {
        Ok((i2, _)) => not_line_ending(i2).is_ok(),
        Err(_) => false,
    };
    if followed {
        committed(buttons(i1))
    } else {
        Ok((i1, Buttons::Reset))
    }
}

/// A minimum-speed line: `lgagstminspeed` and a number.
pub fn line_lgagst_min_speed(i: &[char]) -> (r: PResult<Number>)
    ensures
        agrees_in(r, i@, rules::line_lgagst_min_speed(i@)),
{
    proof {
        reveal(rules::line_lgagst_min_speed);
    }
    let (rest, value) = keyed(i, "lgagstminspeed")?;
    if value.len() == 0 {
        Err(missing(rest, Context::NoLGAGSTMinSpeed))
    } else {
        proof {
            lemma_fits(i);
        }
        inner(committed(float(value)), rest)
    }
}

/// A reset line: `reset` and the non-shared seed.
pub fn line_reset(i: &[char]) -> (r: PResult<i64>)
    ensures
        agrees(r, i@, rules::line_reset(i@)),
{
    proof {
        reveal(rules::line_reset);
    }
    let (rest, value) = keyed(i, "reset")?;
    if value.len() == 0 {
        Err(missing(rest, Context::NoResetSeed))
    } else {
        proof {
            lemma_fits(i);
        }
        inner(committed(non_shared_seed(value)), rest)
    }
}

/// A comment line: `//` and the rest of the line.
pub fn line_comment(i: &[char]) -> (r: PResult<String>)
    ensures
        agrees_in(r, i@, rules::line_comment(i@)),
{
    proof {
        reveal(rules::line_comment);
    }
    let (i1, _) = tag(i, "//")?;
    let (rest, text) = not_line_ending(i1)?;
    Ok((rest, string_of(text)))
}

/// The strafing algorithm: `vectorial` or `yaw`.
pub fn algorithm(i: &[char]) -> (r: PResult<bool>)
    ensures
        agrees(r, i@, rules::algorithm(i@)),
{
    if has_tag(i, "yaw") {
        let (rest, _) = tag(i, "yaw")?;
        Ok((rest, false))
    } else {
        let (rest, _) = tag(i, "vectorial")?;
        Ok((rest, true))
    }
}

/// The same result, but a failure without a meaning gets the given one.
pub fn explained<'a, T>(meaning: Context, r: PResult<'a, T>) -> (c: PResult<'a, T>)
    ensures
        match (r, c) {
            (Ok(a), Ok(b)) => a == b,
            (Err(a), Err(b)) => b@ == crate::grammar::explained(a@, meaning) && b.remaining
                == a.remaining,
            _ => false,
        },
{
    match r {
        Ok(done) => Ok(done),
        Err(e) => Err(context(meaning, e)),
    }
}

/// A strafing line: `strafing` and the algorithm.
pub fn line_strafing(i: &[char]) -> (r: PResult<bool>)
    ensures
        agrees(r, i@, rules::line_strafing(i@)),
{
    proof {
        reveal(rules::line_strafing);
    }
    let (rest, value) = keyed(i, "strafing")?;
    proof {
        lemma_fits(i);
    }
    inner(committed(explained(Context::InvalidStrafingAlgorithm, algorithm(value))), rest)
}

/// A tolerance: `+-` and a number.
pub fn parse_tolerance(i: &[char]) -> (r: PResult<Number>)
    ensures
        agrees_in(r, i@, rules::parse_tolerance(i@)),
{
    let (i1, _) = explained(Context::NoPlusMinusBeforeTolerance, tag(i, "+-"))?;
    float(i1)
}

/// The tolerance of a constraint, which may be missing.
pub fn tolerance(i: &[char]) -> (r: PResult<Number>)
    ensures
        agrees_in(r, i@, rules::tolerance(i@)),
{
    if starts_with(i, ' ') {
        let (rest, tolerance) = committed(parse_tolerance(skip(i, 1)))?;
        if tolerance.is_zero() {
            Ok((rest, Number::zero()))
        } else {
            Ok((rest, tolerance))
        }
    } else {
        Ok((i, Number::zero()))
    }
}

/// An entity of a look-at constraint, which may be missing.
pub fn entity(i: &[char]) -> (r: (&[char], Option<Positive>))
    ensures
        (r.0@, r.1) == rules::entity(i@),
        r.0@.len() <= i@.len(),
{
    proof {
        reveal_strlit(" entity ");
    }
    if has_tag(i, " entity ") {
        match non_zero_u32(skip(i, 8)) {
            Ok((rest, index)) => (rest, Some(index)),
            Err(_) => (i, None),
        }
    } else {
        (i, None)
    }
}

/// A space and a number.
pub fn spaced_float(i: &[char]) -> (r: PResult<Number>)
    ensures
        agrees_in(r, i@, rules::spaced_float(i@)),
{
    let (i1, _) = tag(i, " ")?;
    float(i1)
}

/// What follows `look_at`: an optional entity and the three numbers of a point.
pub fn look_at(i: &[char]) -> (r: PResult<VectorialStrafingConstraints>)
    ensures
        agrees_in(r, i@, rules::look_at(i@)),
{
    let (i1, entity) = entity(i);
    let (i2, x) = spaced_float(i1)?;
    let (i3, y) = spaced_float(i2)?;
    let (i4, z) = spaced_float(i3)?;
    Ok((i4, VectorialStrafingConstraints::LookAt { entity, x, y, z }))
}

/// What follows `from `: a number, ` to `, and a number.
pub fn yaw_range(i: &[char]) -> (r: PResult<VectorialStrafingConstraints>)
    ensures
        agrees_in(r, i@, rules::yaw_range(i@)),
{
    let (i1, from) = float(i)?;
    let (i2, _) = committed(explained(Context::NoTo, tag(i1, " to ")))?;
    let (i3, to) = float(i2)?;
    Ok((i3, VectorialStrafingConstraints::YawRange { from, to }))
}

/// The last alternative of the constraints: `look_at` and what follows it.
pub fn after_look_at(i: &[char]) -> (r: PResult<VectorialStrafingConstraints>)
    ensures
        agrees_in(r, i@, rules::after_look_at(i@)),
{
    let (i1, _) = tag(i, "look_at")?;
    committed(look_at(i1))
}

/// The constraints of a `target_yaw` line.
pub fn constraints(i: &[char]) -> (r: PResult<VectorialStrafingConstraints>)
    ensures
        agrees_in(r, i@, rules::constraints(i@)),
{
    proof {
        reveal(rules::constraints);
    }
    proof {
        reveal_strlit("velocity_avg");
        reveal_strlit("velocity_lock");
        reveal_strlit("velocity");
        reveal_strlit("from ");
    }
    if has_tag(i, "velocity_avg") {
        let (rest, tolerance) = tolerance(skip(i, 12))?;
        return Ok((rest, VectorialStrafingConstraints::AvgVelocityYaw { tolerance }));
    }
    if has_tag(i, "velocity_lock") {
        let (rest, tolerance) = tolerance(skip(i, 13))?;
        return Ok((rest, VectorialStrafingConstraints::VelocityYawLocking { tolerance }));
    }
    if has_tag(i, "velocity") {
        let (rest, tolerance) = tolerance(skip(i, 8))?;
        return Ok((rest, VectorialStrafingConstraints::VelocityYaw { tolerance }));
    }
    match float(i) {
        Ok((i1, yaw)) => {
            let (rest, tolerance) = tolerance(i1)?;
            return Ok((rest, VectorialStrafingConstraints::Yaw { yaw, tolerance }));
        },
        Err(_) => {},
    }
    if has_tag(i, "from ") {
        match yaw_range(skip(i, 5)) {
            Ok(done) => {
                return Ok(done);
            },
            Err(e) => {
                if e.cut {
                    return Err(e);
                }
            },
        }
    }
    after_look_at(i)
}

/// Whether a value starts with `from` and holds nothing else but spaces.
pub fn bare_from(value: &[char]) -> (b: bool)
    ensures
        b == rules::bare_from(value@),
{
    proof {
        reveal_strlit("from");
    }
    has_tag(value, "from") && leading(skip(value, 4), Class::Space) == value.len() - 4
}

/// A constraints line: `target_yaw` and the constraints.
pub fn line_target_yaw(i: &[char]) -> (r: PResult<VectorialStrafingConstraints>)
    ensures
        agrees_in(r, i@, rules::line_target_yaw(i@)),
{
    proof {
        reveal(rules::line_target_yaw);
    }
    let (rest, value) = keyed(i, "target_yaw")?;
    if value.len() == 0 {
        return Err(missing(rest, Context::NoConstraints));
    }
    // Check that from/to constraint parameters are present.
    if bare_from(value) {
        return Err(missing(rest, Context::NoFromToParameters));
    }
    proof {
        lemma_fits(i);
    }
    inner(committed(constraints(value)), rest)
}

/// The value that a change line names.
pub fn change_target(i: &[char]) -> (r: PResult<ChangeTarget>)
    ensures
        agrees(r, i@, rules::change_target(i@)),
{
    if has_tag(i, "yaw") {
        let (rest, _) = tag(i, "yaw")?;
        Ok((rest, ChangeTarget::Yaw))
    } else if has_tag(i, "pitch") {
        let (rest, _) = tag(i, "pitch")?;
        Ok((rest, ChangeTarget::Pitch))
    } else if has_tag(i, "target_yaw_offset") {
        let (rest, _) = tag(i, "target_yaw_offset")?;
        Ok((rest, ChangeTarget::VectorialStrafingYawOffset))
    } else {
        let (rest, _) = tag(i, "target_yaw")?;
        Ok((rest, ChangeTarget::VectorialStrafingYaw))
    }
}

/// What a change line holds behind `change`.
pub fn change(i: &[char]) -> (r: PResult<Change>)
    ensures
        agrees_in(r, i@, rules::change(i@)),
{
    proof {
        reveal(rules::change);
    }
    let (i1, target) = committed(change_target(i))?;
    let (i2, _) = committed(tag(i1, " to "))?;
    let (i3, final_value) = float(i2)?;
    let (i4, _) = committed(tag(i3, " over "))?;
    let (i5, over) = float(i4)?;
    let (i6, _) = committed(tag(i5, " s"))?;
    Ok((i6, Change { target, final_value, over }))
}

/// A change line: `change` and what is to change.
pub fn line_change(i: &[char]) -> (r: PResult<Change>)
    ensures
        agrees_in(r, i@, rules::line_change(i@)),
{
    proof {
        reveal(rules::line_change);
    }
    let (rest, value) = keyed(i, "change")?;
    proof {
        lemma_fits(i);
    }
    inner(change(value), rest)
}

/// One or more numbers with spaces between them.
pub fn floats(i: &[char]) -> (r: PResult<Vec<Number>>)
    ensures
        match r {
            Ok((rest, yaws)) => rules::floats(i@) == Ok::<_, Fault>(
                (rest@, crate::types::texts_of(yaws@)),
            ) && rest@.len() <= i@.len(),
            Err(e) => rules::floats(i@) == Err::<(Seq<char>, Seq<Seq<char>>), _>(e@)
                && e.remaining <= i@.len(),
        },
{
    let (i1, first) = float(i)?;
    let mut yaws: Vec<Number> = Vec::new();
    yaws.push(first);
    let mut rest = i1;
    assert(crate::types::texts_of(yaws@) =~= seq![first@]);
    loop
        invariant
            rest@.len() <= i@.len(),
            rules::float(i@) == Ok::<_, Fault>((i1@, first@)),
            rules::more_floats(i1@).0 == rules::more_floats(rest@).0,
            seq![first@] + rules::more_floats(i1@).1 == crate::types::texts_of(yaws@)
                + rules::more_floats(rest@).1,
        decreases rest@.len(),
    {
        let ghost before = crate::types::texts_of(yaws@);
        assert(before + Seq::<Seq<char>>::empty() =~= before);
        let after = match space1(rest) {
            Ok((after, _)) => after,
            Err(_) => {
                return Ok((rest, yaws));
            },
        };
        match float(after) {
            Ok((next, yaw)) => {
                proof {
                    assert(crate::types::texts_of(yaws@.push(yaw)) =~= before + seq![yaw@]);
                    assert((before + seq![yaw@]) + rules::more_floats(next@).1 =~= before + (
                    seq![yaw@] + rules::more_floats(next@).1));
                }
                yaws.push(yaw);
                rest = next;
            },
            Err(_) => {
                return Ok((rest, yaws));
            },
        }
    }
}

/// An override line: `target_yaw_override` and one or more yaws.
pub fn line_target_yaw_override(i: &[char]) -> (r: PResult<Vec<Number>>)
    ensures
        match r {
            Ok((rest, yaws)) => rules::line_target_yaw_override(i@) == Ok::<_, Fault>(
                (rest@, crate::types::texts_of(yaws@)),
            ) && rest@.len() <= i@.len(),
            Err(e) => rules::line_target_yaw_override(i@) == Err::<
                (Seq<char>, Seq<Seq<char>>),
                _,
            >(e@) && e.remaining <= i@.len(),
        },
{
    proof {
        reveal(rules::line_target_yaw_override);
    }
    let (rest, value) = keyed(i, "target_yaw_override")?;
    proof {
        lemma_fits(i);
    }
    inner(committed(floats(value)), rest)
}

/// One line of the frames section.
pub fn line(i: &[char]) -> (r: PResult<Line>)
    ensures
        agrees_in(r, i@, rules::line(i@)),
{
    proof {
        reveal(rules::line);
    }
    match line_frame_bulk(i) {
        Ok((rest, frame_bulk)) => {
            return Ok((rest, Line::FrameBulk(frame_bulk)));
        },
        Err(e) => {
            if e.cut {
                return Err(e);
            }
        },
    }
    match line_save(i) {
        Ok((rest, name)) => {
            return Ok((rest, Line::Save(name)));
        },
        Err(e) => {
            if e.cut {
                return Err(e);
            }
        },
    }
    match line_seed(i) {
        Ok((rest, seed)) => {
            return Ok((rest, Line::SharedSeed(seed)));
        },
        Err(e) => {
            if e.cut {
                return Err(e);
            }
        },
    }
    match line_buttons(i) {
        Ok((rest, buttons)) => {
            return Ok((rest, Line::Buttons(buttons)));
        },
        Err(e) => {
            if e.cut {
                return Err(e);
            }
        },
    }
    line_rest(i)
}

/// The kinds of line from the minimum speed on.
pub fn line_rest(i: &[char]) -> (r: PResult<Line>)
    ensures
        agrees_in(r, i@, rules::line_rest(i@)),
{
    proof {
        reveal(rules::line_rest);
    }
    match line_lgagst_min_speed(i) {
        Ok((rest, speed)) => {
            return Ok((rest, Line::LGAGSTMinSpeed(speed)));
        },
        Err(e) => {
            if e.cut {
                return Err(e);
            }
        },
    }
    match line_reset(i) {
        Ok((rest, non_shared_seed)) => {
            return Ok((rest, Line::Reset { non_shared_seed }));
        },
        Err(e) => {
            if e.cut {
                return Err(e);
            }
        },
    }
    match line_comment(i) {
        Ok((rest, text)) => {
            return Ok((rest, Line::Comment(text)));
        },
        Err(e) => {
            if e.cut {
                return Err(e);
            }
        },
    }
    match line_strafing(i) {
        Ok((rest, enabled)) => {
            return Ok((rest, Line::VectorialStrafing(enabled)));
        },
        Err(e) => {
            if e.cut {
                return Err(e);
            }
        },
    }
    match line_target_yaw_override(i) {
        Ok((rest, yaws)) => {
            return Ok((rest, Line::TargetYawOverride(yaws)));
        },
        Err(e) => {
            if e.cut {
                return Err(e);
            }
        },
    }
    match line_target_yaw(i) {
        Ok((rest, constraints)) => {
            return Ok((rest, Line::VectorialStrafingConstraints(constraints)));
        },
        Err(e) => {
            if e.cut {
                return Err(e);
            }
        },
    }
    match line_change(i) {
        Ok((rest, change)) => Ok((rest, Line::Change(change))),
        Err(e) => Err(e),
    }
}

} // verus!
