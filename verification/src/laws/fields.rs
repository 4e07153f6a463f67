//! How the fields of a frame bulk are read back.

use vstd::prelude::*;
use crate::grammar::line as rules;
use crate::grammar::{char, is_digit, non_zero_u32, recognize_float, zero, Class, Fault};
use crate::laws::pieces::{
    ends_number, ends_run, lemma_non_zero_u32, lemma_not_tag, lemma_number, lemma_number_chars,
    lemma_rest_of_line, lemma_space, lemma_split, lemma_tag, lemma_digits_shape,
};
use crate::laws::valid;
use crate::notation;
use crate::types::{
    ActionKeys, AutoActionsView, AutoMovementView, FrameBulkView, LeaveGroundAction,
    LeaveGroundActionSpeed, LeaveGroundActionType, MovementKeys, Positive, StrafeDirView,
    StrafeSettingsView, StrafeType, Times,
};

verus! {

/// What a text of one character followed by `tail` starts with, and what
/// is left behind that character.
pub proof fn lemma_first(a: Seq<char>, tail: Seq<char>)
    requires
        a.len() == 1,
    ensures
        (a + tail).len() > 0,
        (a + tail)[0] == a[0],
        (a + tail).skip(1) == tail,
{
    assert((a + tail).skip(1) =~= tail);
}

/// A repeat count is read back before anything that is no digit.
pub proof fn lemma_times(times: Times, tail: Seq<char>)
    requires
        valid::times(times),
        ends_run(tail, Class::Digit),
    ensures
        rules::parse_times(notation::times(times) + tail) == (tail, times),
{
    match times {
        Times::Limited(count) => {
            lemma_non_zero_u32(count, tail);
        },
        Times::UnlimitedWithinFrameBulk => {
            assert(notation::times(times) + tail =~= tail);
        },
    }
}

/// The direction as the strafing marker states it: with zero for each number.
pub open spec fn marked_dir(dir: StrafeDirView) -> StrafeDirView {
    match dir {
        StrafeDirView::Yaw(_) => StrafeDirView::Yaw(zero()),
        StrafeDirView::Point { .. } => StrafeDirView::Point { x: zero(), y: zero() },
        StrafeDirView::Line { .. } => StrafeDirView::Line { yaw: zero() },
        _ => dir,
    }
}

/// The movement as the strafing marker states it: none where a yaw is
/// set, and strafing with zero for each number.
pub open spec fn marked(movement: Option<AutoMovementView>) -> Option<AutoMovementView> {
    match movement {
        Some(AutoMovementView::Strafe(settings)) => Some(
            AutoMovementView::Strafe(
                StrafeSettingsView { type_: settings.type_, dir: marked_dir(settings.dir) },
            ),
        ),
        _ => None,
    }
}

/// The digit of a strafing type is read back.
pub proof fn lemma_strafe_type(type_: StrafeType, tail: Seq<char>)
    ensures
        rules::strafe_type(notation::strafe_type(type_) + tail) == Ok::<_, Fault>((tail, type_)),
{
    reveal_strlit("0");
    reveal_strlit("1");
    reveal_strlit("2");
    reveal_strlit("3");
    lemma_first(notation::strafe_type(type_), tail);
}

/// The digit of a strafing direction is read back, with zero for each number.
pub proof fn lemma_strafe_dir(dir: StrafeDirView, tail: Seq<char>)
    requires
        valid::strafe_dir(dir),
    ensures
        rules::strafe_dir(notation::strafe_dir(dir) + tail) == Ok::<_, Fault>(
            (tail, marked_dir(dir)),
        ),
{
    reveal_strlit("0");
    reveal_strlit("1");
    reveal_strlit("2");
    reveal_strlit("3");
    reveal_strlit("4");
    reveal_strlit("5");
    lemma_first(notation::strafe_dir(dir), tail);
}

/// The strafing marker is read back, with zero for each number.
pub proof fn lemma_strafe(movement: Option<AutoMovementView>, tail: Seq<char>)
    requires
        valid::movement(movement),
    ensures
        rules::strafe(notation::movement_marker(movement) + tail) == Ok::<_, Fault>(
            (
                tail,
                match marked(movement) {
                    Some(AutoMovementView::Strafe(settings)) => Some(settings),
                    _ => None,
                },
            ),
        ),
{
    reveal_strlit("---");
    reveal_strlit("s");
    match movement {
        Some(AutoMovementView::Strafe(settings)) => {
            let t = notation::strafe_type(settings.type_);
            let d = notation::strafe_dir(settings.dir);
            let i = notation::strafe(settings) + tail;
            assert(i =~= "s"@ + (t + (d + tail)));
            lemma_first("s"@, t + (d + tail));
            lemma_not_tag(i, "---"@, 0);
            lemma_strafe_type(settings.type_, d + tail);
            lemma_strafe_dir(settings.dir, tail);
        },
        _ => {
            lemma_tag("---"@, tail);
        },
    }
}

/// Whether `tail` starts with something that is no digit: with one of the
/// markers that follow a count.
pub open spec fn ends_count(tail: Seq<char>) -> bool {
    ends_run(tail, Class::Digit)
}

/// The two characters of a jump or a ducktap are read back.
pub proof fn lemma_leave_ground_type(type_: LeaveGroundActionType, tail: Seq<char>)
    ensures
        rules::lgagst_action_type(notation::leave_ground_type(type_) + tail) == Ok::<_, Fault>(
            (tail, type_),
        ),
        notation::leave_ground_type(type_).len() == 2,
{
    reveal_strlit("j-");
    reveal_strlit("-d");
    reveal_strlit("-D");
    let t = notation::leave_ground_type(type_);
    let i = t + tail;
    lemma_split(t, tail);
    assert(i[0] == t[0]);
    assert(i[1] == t[1]);
    match type_ {
        LeaveGroundActionType::Jump => {},
        LeaveGroundActionType::DuckTap { zero_ms: false } => {
            lemma_not_tag(i, "j-"@, 0);
        },
        LeaveGroundActionType::DuckTap { zero_ms: true } => {
            lemma_not_tag(i, "j-"@, 0);
            lemma_not_tag(i, "-d"@, 1);
        },
    }
}

/// A leave-ground action with a speed is read back.
pub proof fn lemma_lgagst_action(action: LeaveGroundAction, tail: Seq<char>)
    requires
        valid::times(action.times),
        action.speed != LeaveGroundActionSpeed::Any,
        ends_count(tail),
    ensures
        rules::lgagst_action(notation::leave_ground_action(Some(action)) + tail) == Ok::<
            _,
            Fault,
        >((tail, action)),
{
    reveal_strlit("l");
    reveal_strlit("L");
    reveal_strlit("j-");
    reveal_strlit("-d");
    reveal_strlit("-D");
    reveal_strlit("--");
    let letter = if action.speed == LeaveGroundActionSpeed::Optimal {
        "l"@
    } else {
        "L"@
    };
    let n = notation::times(action.times);
    let t = notation::leave_ground_type(action.type_);
    let i = notation::leave_ground_action(Some(action)) + tail;
    assert(i =~= letter + (n + (t + tail)));
    lemma_first(letter, n + (t + tail));
    let i2 = t + tail;
    assert(i2[0] == t[0]);
    assert(i2[1] == t[1]);
    lemma_times(action.times, i2);
    lemma_leave_ground_type(action.type_, tail);
    assert(i2.skip(1)[0] == t[1]);
    assert(i2.skip(2) =~= tail);
    // No jump and ducktap at once, no action missing, no count on the action.
    if action.type_ == LeaveGroundActionType::Jump {
        assert(non_zero_u32(i2.skip(1)) is Err);
        lemma_not_tag(i2, "--"@, 0);
        lemma_not_tag(i2, "-d"@, 0);
        lemma_not_tag(i2, "-D"@, 0);
    } else {
        lemma_not_tag(i2, "--"@, 1);
        assert(non_zero_u32(tail) is Err);
    }
}

/// A leave-ground action at any speed is read back.
pub proof fn lemma_non_lgagst_action(action: LeaveGroundAction, tail: Seq<char>)
    requires
        valid::times(action.times),
        action.speed == LeaveGroundActionSpeed::Any,
        ends_count(tail),
    ensures
        rules::non_lgagst_action(notation::leave_ground_action(Some(action)) + tail) == Ok::<
            _,
            Fault,
        >((tail, action)),
        rules::lgagst_action(notation::leave_ground_action(Some(action)) + tail) is Err,
        !rules::lgagst_action(notation::leave_ground_action(Some(action)) + tail)->Err_0.cut,
{
    reveal_strlit("-");
    reveal_strlit("j");
    reveal_strlit("-d");
    reveal_strlit("-D");
    let n = notation::times(action.times);
    let i = notation::leave_ground_action(Some(action)) + tail;
    match action.type_ {
        LeaveGroundActionType::Jump => {
            assert(i =~= "-"@ + ("j"@ + (n + ("-"@ + tail))));
            lemma_first("-"@, "j"@ + (n + ("-"@ + tail)));
            let i1 = i.skip(1);
            lemma_first("j"@, n + ("-"@ + tail));
            lemma_first("-"@, tail);
            lemma_times(action.times, "-"@ + tail);
            lemma_not_tag(i1, "-d"@, 0);
            lemma_not_tag(i1, "-D"@, 0);
        },
        LeaveGroundActionType::DuckTap { zero_ms } => {
            let d = if zero_ms {
                "-D"@
            } else {
                "-d"@
            };
            assert(i =~= "-"@ + (d + (n + tail)));
            lemma_first("-"@, d + (n + tail));
            let i1 = i.skip(1);
            lemma_split(d, n + tail);
            assert(i1[0] == d[0]);
            assert(i1[1] == d[1]);
            lemma_times(action.times, tail);
            if zero_ms {
                lemma_not_tag(i1, "-d"@, 1);
            }
        },
    }
}

/// The leave-ground marker is read back.
pub proof fn lemma_leave_ground_action(action: Option<LeaveGroundAction>, tail: Seq<char>)
    requires
        action matches Some(a) ==> valid::times(a.times),
        ends_count(tail),
    ensures
        rules::leave_ground_action(notation::leave_ground_action(action) + tail) == Ok::<
            _,
            Fault,
        >((tail, action)),
{
    reveal(rules::leave_ground_action);
    match action {
        None => {
            reveal_strlit("---");
            reveal_strlit("-d");
            reveal_strlit("-D");
            let i = "---"@ + tail;
            lemma_tag("---"@, tail);
            assert(i[0] == '-');
            assert(i[1] == '-');
            let i1 = i.skip(1);
            assert(i1[0] == '-');
            assert(i1[1] == '-');
            lemma_not_tag(i1, "-d"@, 1);
            lemma_not_tag(i1, "-D"@, 1);
        },
        Some(a) => {
            if a.speed == LeaveGroundActionSpeed::Any {
                lemma_non_lgagst_action(a, tail);
            } else {
                lemma_lgagst_action(a, tail);
            }
        },
    }
}

/// An action that is a letter and a count, or `-`, is read back.
pub proof fn lemma_counted(letter: char, count: Option<Times>, tail: Seq<char>)
    requires
        valid::counted(count),
        letter != '-',
        ends_count(tail),
    ensures
        rules::counted(notation::counted(seq![letter], count) + tail, letter) == Ok::<_, Fault>(
            (tail, count),
        ),
{
    reveal_strlit("-");
    match count {
        None => {
            lemma_first("-"@, tail);
        },
        Some(times) => {
            let n = notation::times(times);
            assert(notation::counted(seq![letter], count) + tail =~= seq![letter] + (n + tail));
            lemma_first(seq![letter], n + tail);
            lemma_times(times, tail);
        },
    }
}

/// The automatic actions as their field states them: with the movement
/// as the strafing marker states it.
pub open spec fn marked_actions(actions: AutoActionsView) -> AutoActionsView {
    AutoActionsView { movement: marked(actions.movement), ..actions }
}

/// The jumpbug marker is read back, and starts with no digit.
pub proof fn lemma_jump_bug(action: Option<crate::types::JumpBug>, tail: Seq<char>)
    requires
        action matches Some(a) ==> valid::times(a.times),
        ends_count(tail),
    ensures
        rules::jump_bug(notation::jump_bug(action) + tail) == Ok::<_, Fault>((tail, action)),
        ends_count(notation::jump_bug(action) + tail),
{
    reveal_strlit("b");
    assert("b"@ =~= seq!['b']);
    let count = match action {
        Some(a) => Some(a.times),
        None => None,
    };
    lemma_counted('b', count, tail);
    lemma_counted_starts(seq!['b'], count, tail);
}

/// The duck-before-ground marker is read back, and starts with no digit.
pub proof fn lemma_duck_before_ground(
    action: Option<crate::types::DuckBeforeGround>,
    tail: Seq<char>,
)
    requires
        action matches Some(a) ==> valid::times(a.times),
        ends_count(tail),
    ensures
        rules::duck_before_ground(notation::duck_before_ground(action) + tail) == Ok::<_, Fault>(
            (tail, action),
        ),
        ends_count(notation::duck_before_ground(action) + tail),
{
    reveal_strlit("g");
    assert("g"@ =~= seq!['g']);
    let count = match action {
        Some(a) => Some(a.times),
        None => None,
    };
    lemma_counted('g', count, tail);
    lemma_counted_starts(seq!['g'], count, tail);
}

/// The duck-when-jump marker is read back, and starts with no digit.
pub proof fn lemma_duck_when_jump(action: Option<crate::types::DuckWhenJump>, tail: Seq<char>)
    requires
        action matches Some(a) ==> valid::times(a.times),
        ends_count(tail),
    ensures
        rules::duck_when_jump(notation::duck_when_jump(action) + tail) == Ok::<_, Fault>(
            (tail, action),
        ),
        ends_count(notation::duck_when_jump(action) + tail),
{
    reveal_strlit("w");
    assert("w"@ =~= seq!['w']);
    let count = match action {
        Some(a) => Some(a.times),
        None => None,
    };
    lemma_counted('w', count, tail);
    lemma_counted_starts(seq!['w'], count, tail);
}

/// The duck-before-collision marker is read back, and starts with no digit.
pub proof fn lemma_duck_before_collision(
    action: Option<crate::types::DuckBeforeCollision>,
    tail: Seq<char>,
)
    requires
        action matches Some(a) ==> valid::times(a.times),
        ends_count(tail),
    ensures
        rules::duck_before_collision(notation::duck_before_collision(action) + tail) == Ok::<
            _,
            Fault,
        >((tail, action)),
        ends_count(notation::duck_before_collision(action) + tail),
{
    reveal_strlit("c");
    reveal_strlit("C");
    assert("c"@ =~= seq!['c']);
    assert("C"@ =~= seq!['C']);
    let count = match action {
        Some(a) => Some(a.times),
        None => None,
    };
    let letter = if action matches Some(a) && a.including_ceilings {
        'C'
    } else {
        'c'
    };
    lemma_counted(letter, count, tail);
    lemma_counted_starts(seq![letter], count, tail);
    lemma_collision(letter, count, tail);
}

/// Seven texts in a row, grouped from the left and from the right.
pub proof fn lemma_joined(
    a: Seq<char>,
    b: Seq<char>,
    c: Seq<char>,
    d: Seq<char>,
    e: Seq<char>,
    f: Seq<char>,
    g: Seq<char>,
)
    ensures
        a + b + c + d + e + f + g == a + (b + (c + (d + (e + (f + g))))),
{
    assert(a + b + c + d + e + f + g =~= a + (b + (c + (d + (e + (f + g))))));
}

/// The automatic actions are read back, the movement as its marker states it.
pub proof fn lemma_auto_actions(actions: AutoActionsView, tail: Seq<char>)
    requires
        valid::auto_actions(actions),
        ends_count(tail),
    ensures
        rules::auto_actions(notation::auto_actions(actions) + tail) == Ok::<_, Fault>(
            (tail, marked_actions(actions)),
        ),
{
    reveal(rules::auto_actions);
    let s = notation::movement_marker(actions.movement);
    let l = notation::leave_ground_action(actions.leave_ground_action);
    let b = notation::jump_bug(actions.jump_bug);
    let c = notation::duck_before_collision(actions.duck_before_collision);
    let g = notation::duck_before_ground(actions.duck_before_ground);
    let w = notation::duck_when_jump(actions.duck_when_jump);
    let i = notation::auto_actions(actions) + tail;
    lemma_joined(s, l, b, c, g, w, tail);
    lemma_duck_when_jump(actions.duck_when_jump, tail);
    lemma_duck_before_ground(actions.duck_before_ground, w + tail);
    lemma_duck_before_collision(actions.duck_before_collision, g + (w + tail));
    lemma_jump_bug(actions.jump_bug, c + (g + (w + tail)));
    lemma_leave_ground_action(actions.leave_ground_action, b + (c + (g + (w + tail))));
    lemma_strafe(actions.movement, l + (b + (c + (g + (w + tail)))));
}

/// The duck-before-collision marker is read as a letter with a count is.
pub proof fn lemma_collision(letter: char, count: Option<Times>, tail: Seq<char>)
    requires
        letter == 'c' || letter == 'C',
        rules::counted(notation::counted(seq![letter], count) + tail, letter) == Ok::<_, Fault>(
            (tail, count),
        ),
    ensures
        rules::duck_before_collision(notation::counted(seq![letter], count) + tail) == Ok::<
            _,
            Fault,
        >(
            (
                tail,
                match count {
                    Some(times) => Some(
                        crate::types::DuckBeforeCollision {
                            times,
                            including_ceilings: letter == 'C',
                        },
                    ),
                    None => None,
                },
            ),
        ),
{
    reveal_strlit("-");
    let i = notation::counted(seq![letter], count) + tail;
    match count {
        None => {
            lemma_first("-"@, tail);
        },
        Some(times) => {
            let n = notation::times(times);
            assert(i =~= seq![letter] + (n + tail));
            lemma_first(seq![letter], n + tail);
        },
    }
}

/// An action that is a letter and a count, or `-`, starts with no digit.
pub proof fn lemma_counted_starts(letter: Seq<char>, count: Option<Times>, tail: Seq<char>)
    requires
        letter.len() == 1,
        !is_digit(letter[0]),
    ensures
        ends_count(notation::counted(letter, count) + tail),
{
    reveal_strlit("-");
    match count {
        None => {
            lemma_first("-"@, tail);
        },
        Some(times) => {
            let n = notation::times(times);
            assert(notation::counted(letter, count) + tail =~= letter + (n + tail));
            lemma_first(letter, n + tail);
        },
    }
}

/// A key is read back.
pub proof fn lemma_key(symbol: Seq<char>, enabled: bool, tail: Seq<char>)
    requires
        symbol.len() == 1,
        symbol[0] != '-',
    ensures
        rules::key(notation::key(symbol, enabled) + tail, symbol[0]) == Ok::<_, Fault>(
            (tail, enabled),
        ),
{
    reveal(rules::key);
    reveal_strlit("-");
    lemma_first(notation::key(symbol, enabled), tail);
}

/// The letters of the movement keys.
pub proof fn lemma_movement_letters()
    ensures
        "f"@.len() == 1 && "f"@[0] == 'f',
        "l"@.len() == 1 && "l"@[0] == 'l',
        "r"@.len() == 1 && "r"@[0] == 'r',
        "b"@.len() == 1 && "b"@[0] == 'b',
        "u"@.len() == 1 && "u"@[0] == 'u',
        "d"@.len() == 1 && "d"@[0] == 'd',
{
    reveal_strlit("f");
    reveal_strlit("l");
    reveal_strlit("r");
    reveal_strlit("b");
    reveal_strlit("u");
    reveal_strlit("d");
}

/// The letters of the action keys.
pub proof fn lemma_action_letters()
    ensures
        "j"@.len() == 1 && "j"@[0] == 'j',
        "d"@.len() == 1 && "d"@[0] == 'd',
        "u"@.len() == 1 && "u"@[0] == 'u',
        "1"@.len() == 1 && "1"@[0] == '1',
        "2"@.len() == 1 && "2"@[0] == '2',
        "r"@.len() == 1 && "r"@[0] == 'r',
{
    reveal_strlit("j");
    reveal_strlit("d");
    reveal_strlit("u");
    reveal_strlit("1");
    reveal_strlit("2");
    reveal_strlit("r");
}

/// The movement keys are read back.
pub proof fn lemma_movement_keys(keys: MovementKeys, tail: Seq<char>)
    ensures
        rules::movement_keys(notation::movement_keys(keys) + tail) == Ok::<_, Fault>((tail, keys)),
{
    reveal(rules::movement_keys);
    lemma_movement_letters();
    let k1 = notation::key("f"@, keys.forward);
    let k2 = notation::key("l"@, keys.left);
    let k3 = notation::key("r"@, keys.right);
    let k4 = notation::key("b"@, keys.back);
    let k5 = notation::key("u"@, keys.up);
    let k6 = notation::key("d"@, keys.down);
    lemma_joined(k1, k2, k3, k4, k5, k6, tail);
    lemma_key("f"@, keys.forward, k2 + (k3 + (k4 + (k5 + (k6 + tail)))));
    lemma_key("l"@, keys.left, k3 + (k4 + (k5 + (k6 + tail))));
    lemma_key("r"@, keys.right, k4 + (k5 + (k6 + tail)));
    lemma_key("b"@, keys.back, k5 + (k6 + tail));
    lemma_key("u"@, keys.up, k6 + tail);
    lemma_key("d"@, keys.down, tail);
}

/// The action keys are read back.
pub proof fn lemma_action_keys(keys: ActionKeys, tail: Seq<char>)
    ensures
        rules::action_keys(notation::action_keys(keys) + tail) == Ok::<_, Fault>((tail, keys)),
{
    reveal(rules::action_keys);
    lemma_action_letters();
    let k1 = notation::key("j"@, keys.jump);
    let k2 = notation::key("d"@, keys.duck);
    let k3 = notation::key("u"@, keys.use_);
    let k4 = notation::key("1"@, keys.attack_1);
    let k5 = notation::key("2"@, keys.attack_2);
    let k6 = notation::key("r"@, keys.reload);
    lemma_joined(k1, k2, k3, k4, k5, k6, tail);
    lemma_key("j"@, keys.jump, k2 + (k3 + (k4 + (k5 + (k6 + tail)))));
    lemma_key("d"@, keys.duck, k3 + (k4 + (k5 + (k6 + tail))));
    lemma_key("u"@, keys.use_, k4 + (k5 + (k6 + tail)));
    lemma_key("1"@, keys.attack_1, k5 + (k6 + tail));
    lemma_key("2"@, keys.attack_2, k6 + tail);
    lemma_key("r"@, keys.reload, tail);
}

/// Whether `tail` starts with `|`.
pub open spec fn barred(tail: Seq<char>) -> bool {
    tail.len() > 0 && tail[0] == '|'
}

/// A number is read back before `|`, a space or the end of a line.
pub proof fn lemma_float(text: Seq<char>, tail: Seq<char>)
    requires
        crate::grammar::is_float(text),
        ends_number(tail),
    ensures
        rules::float(text + tail) == Ok::<_, Fault>((tail, text)),
{
    lemma_number(text, tail);
}

/// `-` before `|` is no number.
pub proof fn lemma_dash(tail: Seq<char>)
    requires
        tail.len() == 0 || !(is_digit(tail[0]) || tail[0] == '.'),
    ensures
        rules::float("-"@ + tail) is Err,
        char("-"@ + tail, '-') == Ok::<_, Fault>((tail, '-')),
{
    reveal(recognize_float);
    reveal_strlit("-");
    lemma_first("-"@, tail);
}

/// The yaw field is read back, and fills in the movement.
pub proof fn lemma_yaw_field(movement: Option<AutoMovementView>, tail: Seq<char>)
    requires
        valid::movement(movement),
        barred(tail),
    ensures
        rules::yaw_field(marked(movement), notation::yaw_field(movement) + tail) == Ok::<
            _,
            Fault,
        >((tail, movement)),
{
    reveal(rules::yaw_field);
    let i = notation::yaw_field(movement) + tail;
    match movement {
        None => {
            lemma_dash(tail);
        },
        Some(AutoMovementView::SetYaw(yaw)) => {
            lemma_float(yaw, tail);
        },
        Some(AutoMovementView::Strafe(settings)) => match settings.dir {
            StrafeDirView::Yaw(yaw) => {
                lemma_float(yaw, tail);
            },
            StrafeDirView::Line { yaw } => {
                lemma_float(yaw, tail);
            },
            StrafeDirView::Point { x, y } => {
                reveal_strlit(" ");
                assert(" "@ =~= seq![' ']);
                assert(i =~= x + (seq![' '] + (y + tail)));
                lemma_number_chars(y);
                assert((y + tail)[0] == y[0]);
                lemma_first(seq![' '], y + tail);
                lemma_float(x, seq![' '] + (y + tail));
                lemma_space(y + tail);
                lemma_float(y, tail);
            },
            _ => {
                lemma_dash(tail);
            },
        },
    }
}

/// The pitch is read back.
pub proof fn lemma_pitch(pitch: Option<Seq<char>>, tail: Seq<char>)
    requires
        pitch matches Some(text) ==> crate::grammar::is_float(text),
        barred(tail),
    ensures
        rules::pitch(
            (match pitch {
                Some(text) => text,
                None => "-"@,
            }) + tail,
        ) == Ok::<_, Fault>((tail, pitch)),
{
    match pitch {
        Some(text) => {
            lemma_float(text, tail);
        },
        None => {
            lemma_dash(tail);
        },
    }
}

/// The number of frames is read back.
pub proof fn lemma_frame_count(count: Positive, tail: Seq<char>)
    requires
        valid::count(count),
        ends_run(tail, Class::Digit),
    ensures
        rules::frame_count(digits_of(count) + tail) == Ok::<_, Fault>((tail, count)),
{
    lemma_digits_shape(count.value() as nat);
    lemma_non_zero_u32(count, tail);
    assert((digits_of(count) + tail)[0] == digits_of(count)[0]);
}

/// The digits of a count.
pub open spec fn digits_of(count: Positive) -> Seq<char> {
    notation::digits(count.value() as nat)
}

/// Whether a line ends where `tail` starts.
pub open spec fn ends_line(tail: Seq<char>) -> bool {
    tail.len() == 0 || tail[0] == '\n'
}

/// The console command is read back.
pub proof fn lemma_console_command(command: Option<Seq<char>>, tail: Seq<char>)
    requires
        command matches Some(text) ==> valid::line_text(text),
        ends_line(tail),
    ensures
        rules::console_command(notation::optional("|"@, command) + tail) == (tail, command),
{
    reveal_strlit("|");
    match command {
        Some(text) => {
            assert(notation::optional("|"@, command) + tail =~= "|"@ + (text + tail));
            lemma_first("|"@, text + tail);
            lemma_rest_of_line(text, tail);
        },
        None => {
            assert(notation::optional("|"@, command) + tail =~= tail);
        },
    }
}

/// The fields of a frame bulk from the yaw field on are read back.
pub proof fn lemma_frame_bulk_values(bulk: FrameBulkView, tail: Seq<char>)
    requires
        valid::frame_bulk(bulk),
        ends_line(tail),
    ensures
        rules::frame_bulk_tail(
            "|"@ + (notation::frame_bulk_values(bulk) + tail),
            marked_actions(bulk.auto_actions),
            bulk.movement_keys,
            bulk.action_keys,
            bulk.frame_time,
        ) == Ok::<_, Fault>((tail, bulk)),
{
    reveal(rules::frame_bulk_tail);
    reveal_strlit("|");
    let bar = "|"@;
    let y = notation::yaw_field(bulk.auto_actions.movement);
    let p = match bulk.pitch {
        Some(pitch) => pitch,
        None => "-"@,
    };
    let n = digits_of(bulk.frame_count);
    let c = notation::optional(bar, bulk.console_command);
    lemma_joined(y, bar, p, bar, n, c, tail);
    let i5 = n + (c + tail);
    let i3 = p + (bar + i5);
    let i1 = y + (bar + i3);
    lemma_first(bar, i1);
    lemma_first(bar, i3);
    lemma_first(bar, i5);
    lemma_yaw_field(bulk.auto_actions.movement, bar + i3);
    lemma_pitch(bulk.pitch, bar + i5);
    lemma_console_command(bulk.console_command, tail);
    assert(ends_run(c + tail, Class::Digit)) by {
        match bulk.console_command {
            Some(text) => {
                assert(c + tail =~= bar + (text + tail));
                lemma_first(bar, text + tail);
            },
            None => {
                assert(c + tail =~= tail);
            },
        }
    }
    lemma_frame_count(bulk.frame_count, c + tail);
    assert(AutoActionsView {
        movement: bulk.auto_actions.movement,
        ..marked_actions(bulk.auto_actions)
    } == bulk.auto_actions);
}

/// Nine texts in a row, grouped from the left and from the right.
pub proof fn lemma_joined_nine(
    a: Seq<char>,
    b: Seq<char>,
    c: Seq<char>,
    d: Seq<char>,
    e: Seq<char>,
    f: Seq<char>,
    g: Seq<char>,
    h: Seq<char>,
    i: Seq<char>,
)
    ensures
        (a + b + c + d + e + f + g + h) + i == a + (b + (c + (d + (e + (f + (g + (h + i))))))),
{
    assert((a + b + c + d + e + f + g + h) + i =~= a + (b + (c + (d + (e + (f + (g + (h
        + i))))))));
}

/// A frame bulk is read back.
pub proof fn lemma_frame_bulk(bulk: FrameBulkView, tail: Seq<char>)
    requires
        valid::frame_bulk(bulk),
        ends_line(tail),
    ensures
        rules::line_frame_bulk(notation::frame_bulk(bulk) + tail) == Ok::<_, Fault>((tail, bulk)),
{
    reveal(rules::line_frame_bulk);
    reveal_strlit("|");
    let bar = "|"@;
    let a = notation::auto_actions(bulk.auto_actions);
    let m = notation::movement_keys(bulk.movement_keys);
    let k = notation::action_keys(bulk.action_keys);
    let t = bulk.frame_time;
    let v = notation::frame_bulk_values(bulk) + tail;
    let i6 = bar + v;
    let i5 = t + i6;
    let i4 = bar + i5;
    let i3 = k + i4;
    let i2 = bar + i3;
    let i1 = m + i2;
    let i0 = bar + i1;
    lemma_joined_nine(a, bar, m, bar, k, bar, t, bar, v);
    crate::text::lemma_concat_assoc(
        notation::frame_bulk_keys(bulk),
        notation::frame_bulk_values(bulk),
        tail,
    );
    assert(notation::frame_bulk(bulk) + tail == a + i0);
    lemma_first(bar, i1);
    lemma_first(bar, i3);
    lemma_first(bar, i5);
    lemma_first(bar, v);
    lemma_auto_actions(bulk.auto_actions, i0);
    assert(crate::grammar::leading(i0, Class::NotBar) == 0);
    assert(i0.skip(0) =~= i0);
    lemma_movement_keys(bulk.movement_keys, i2);
    lemma_action_keys(bulk.action_keys, i4);
    lemma_number(t, i6);
    lemma_frame_bulk_values(bulk, tail);
}

} // verus!
