use hltas::number::Number;
use hltas::types::{
    AutoMovement, Button, Buttons, Change, ChangeTarget, DuckBeforeCollision, DuckBeforeGround,
    DuckWhenJump, FrameBulk, JumpBug, LeaveGroundAction, LeaveGroundActionSpeed,
    LeaveGroundActionType, Line, Positive, Seeds, StrafeDir, StrafeSettings, StrafeType, Times,
    VectorialStrafingConstraints, HLTAS,
};

fn number(text: &str) -> Number {
    Number::new(text).unwrap()
}

fn count(n: u32) -> Positive {
    Positive::new(n).unwrap()
}

fn reread(hltas: &HLTAS) -> HLTAS {
    let mut output = Vec::new();
    hltas.to_writer(&mut output).unwrap();
    HLTAS::from_str(std::str::from_utf8(&output).unwrap()).unwrap()
}

const EVERYTHING: &str = "version 1
demo a demo
save the save
seed 17 -42
frametime0ms 0.0000001
hlstrafe_version 3
load_command map c1a0;echo loaded
frames
----------|------|------|0.001|-|-|1
s00-j-----|f-----|------|0.001|-|-|1
s11-j3-----|-l----|j-----|0.01|-|10|2
s22--d----|--r---|-d----|0.010000001|-|-10.5|3
s33--D4----|---b--|--u---|1e-3|45.5|-|4
s04lj-b---|----u-|---1--|.1|1.5 -2.5|-|5
s15L-d-c2--|-----d|----2-|1.|270|+0|6
s03l7-D-Cg-|flrbud|jdu12r|0.001|-90|-|7|echo hi;wait
s03---b1c2g3w4|------|------|0.001|0|-|4294967295|
---------w|------|------|0.001|1e2|-|1
save quick
seed 4294967295
buttons
buttons 0 1 2 3
buttons 4 5 6 7
lgagstminspeed 30.5
reset 0
reset -9223372036854775808
reset 9223372036854775807
// a comment | with // things
//
strafing yaw
strafing vectorial
target_yaw velocity
target_yaw velocity +-0.1
target_yaw velocity_avg
target_yaw velocity_avg +-5
target_yaw velocity_lock
target_yaw velocity_lock +-1e1
target_yaw 90
target_yaw -90.5 +-2
target_yaw from -10 to 350
target_yaw look_at 1 2 3
target_yaw look_at entity 5 -1.5 .5 0
change yaw to 90 over 0.5 s
change pitch to -10 over 1 s
change target_yaw to 0 over 2 s
change target_yaw_offset to 1.5 over 3 s
target_yaw_override 1
target_yaw_override 1 2.5 -3 4e1
";

#[test]
fn reads_every_kind_of_line() {
    let hltas = HLTAS::from_str(EVERYTHING).unwrap();
    assert_eq!(hltas.properties.demo.as_deref(), Some("a demo"));
    assert_eq!(hltas.properties.save.as_deref(), Some("the save"));
    assert_eq!(hltas.properties.seeds, Some(Seeds { shared: 17, non_shared: -42 }));
    assert_eq!(hltas.properties.frametime_0ms.as_deref(), Some("0.0000001"));
    assert_eq!(hltas.properties.hlstrafe_version, Some(count(3)));
    assert_eq!(hltas.properties.load_command.as_deref(), Some("map c1a0;echo loaded"));
    assert_eq!(hltas.lines.len(), 40);

    let mut bulks = Vec::new();
    for line in &hltas.lines {
        if let Line::FrameBulk(bulk) = line {
            bulks.push(bulk.clone());
        }
    }
    assert_eq!(bulks.len(), 10);
    assert_eq!(bulks[0], FrameBulk::with_frame_time("0.001".to_owned()));

    let strafe = |type_, dir| Some(AutoMovement::Strafe(StrafeSettings { type_, dir }));
    let leave = |speed, times, type_| Some(LeaveGroundAction { speed, times, type_ });
    let unlimited = Times::UnlimitedWithinFrameBulk;

    assert_eq!(bulks[1].auto_actions.movement, strafe(StrafeType::MaxAccel, StrafeDir::Left));
    assert_eq!(
        bulks[1].auto_actions.leave_ground_action,
        leave(LeaveGroundActionSpeed::Any, unlimited, LeaveGroundActionType::Jump)
    );
    assert!(bulks[1].movement_keys.forward);

    assert_eq!(bulks[2].auto_actions.movement, strafe(StrafeType::MaxAngle, StrafeDir::Right));
    assert_eq!(
        bulks[2].auto_actions.leave_ground_action,
        leave(LeaveGroundActionSpeed::Any, Times::Limited(count(3)), LeaveGroundActionType::Jump)
    );
    assert_eq!(bulks[2].pitch, Some(number("10")));
    assert_eq!(bulks[2].frame_time, "0.01");

    assert_eq!(bulks[3].auto_actions.movement, strafe(StrafeType::MaxDeccel, StrafeDir::Best));
    assert_eq!(
        bulks[3].auto_actions.leave_ground_action,
        leave(
            LeaveGroundActionSpeed::Any,
            unlimited,
            LeaveGroundActionType::DuckTap { zero_ms: false }
        )
    );
    assert_eq!(bulks[3].pitch, Some(number("-10.5")));

    assert_eq!(
        bulks[4].auto_actions.movement,
        strafe(StrafeType::ConstSpeed, StrafeDir::Yaw(number("45.5")))
    );
    assert_eq!(
        bulks[4].auto_actions.leave_ground_action,
        leave(
            LeaveGroundActionSpeed::Any,
            Times::Limited(count(4)),
            LeaveGroundActionType::DuckTap { zero_ms: true }
        )
    );
    assert_eq!(bulks[4].frame_time, "1e-3");

    assert_eq!(
        bulks[5].auto_actions.movement,
        strafe(StrafeType::MaxAccel, StrafeDir::Point { x: number("1.5"), y: number("-2.5") })
    );
    assert_eq!(
        bulks[5].auto_actions.leave_ground_action,
        leave(LeaveGroundActionSpeed::Optimal, unlimited, LeaveGroundActionType::Jump)
    );
    assert_eq!(bulks[5].auto_actions.jump_bug, Some(JumpBug { times: unlimited }));

    assert_eq!(
        bulks[6].auto_actions.movement,
        strafe(StrafeType::MaxAngle, StrafeDir::Line { yaw: number("270") })
    );
    assert_eq!(
        bulks[6].auto_actions.leave_ground_action,
        leave(
            LeaveGroundActionSpeed::OptimalWithFullMaxspeed,
            unlimited,
            LeaveGroundActionType::DuckTap { zero_ms: false }
        )
    );
    assert_eq!(
        bulks[6].auto_actions.duck_before_collision,
        Some(DuckBeforeCollision { times: Times::Limited(count(2)), including_ceilings: false })
    );
    assert_eq!(bulks[6].pitch, Some(number("+0")));
    assert_eq!(bulks[6].frame_time, "1.");

    assert_eq!(
        bulks[7].auto_actions.leave_ground_action,
        leave(
            LeaveGroundActionSpeed::Optimal,
            Times::Limited(count(7)),
            LeaveGroundActionType::DuckTap { zero_ms: true }
        )
    );
    assert_eq!(
        bulks[7].auto_actions.duck_before_collision,
        Some(DuckBeforeCollision { times: unlimited, including_ceilings: true })
    );
    assert_eq!(
        bulks[7].auto_actions.duck_before_ground,
        Some(DuckBeforeGround { times: unlimited })
    );
    assert_eq!(bulks[7].console_command.as_deref(), Some("echo hi;wait"));
    assert!(bulks[7].movement_keys.down && bulks[7].action_keys.reload);

    assert_eq!(bulks[8].auto_actions.jump_bug, Some(JumpBug { times: Times::Limited(count(1)) }));
    assert_eq!(
        bulks[8].auto_actions.duck_when_jump,
        Some(DuckWhenJump { times: Times::Limited(count(4)) })
    );
    assert_eq!(bulks[8].frame_count.get(), 4294967295);
    assert_eq!(bulks[8].console_command.as_deref(), Some(""));

    assert_eq!(bulks[9].auto_actions.movement, Some(AutoMovement::SetYaw(number("1e2"))));
    assert_eq!(bulks[9].auto_actions.duck_when_jump, Some(DuckWhenJump { times: unlimited }));

    let rest: Vec<Line> = hltas.lines[10..].to_vec();
    let zero = Number::zero;
    let expected = vec![
        Line::Save("quick".to_owned()),
        Line::SharedSeed(4294967295),
        Line::Buttons(Buttons::Reset),
        Line::Buttons(Buttons::Assign {
            air_left: Button::Forward,
            air_right: Button::ForwardLeft,
            ground_left: Button::Left,
            ground_right: Button::BackLeft,
        }),
        Line::Buttons(Buttons::Assign {
            air_left: Button::Back,
            air_right: Button::BackRight,
            ground_left: Button::Right,
            ground_right: Button::ForwardRight,
        }),
        Line::LGAGSTMinSpeed(number("30.5")),
        Line::Reset { non_shared_seed: 0 },
        Line::Reset { non_shared_seed: i64::MIN },
        Line::Reset { non_shared_seed: i64::MAX },
        Line::Comment(" a comment | with // things".to_owned()),
        Line::Comment("".to_owned()),
        Line::VectorialStrafing(false),
        Line::VectorialStrafing(true),
        Line::VectorialStrafingConstraints(VectorialStrafingConstraints::VelocityYaw {
            tolerance: zero(),
        }),
        Line::VectorialStrafingConstraints(VectorialStrafingConstraints::VelocityYaw {
            tolerance: number("0.1"),
        }),
        Line::VectorialStrafingConstraints(VectorialStrafingConstraints::AvgVelocityYaw {
            tolerance: zero(),
        }),
        Line::VectorialStrafingConstraints(VectorialStrafingConstraints::AvgVelocityYaw {
            tolerance: number("5"),
        }),
        Line::VectorialStrafingConstraints(VectorialStrafingConstraints::VelocityYawLocking {
            tolerance: zero(),
        }),
        Line::VectorialStrafingConstraints(VectorialStrafingConstraints::VelocityYawLocking {
            tolerance: number("1e1"),
        }),
        Line::VectorialStrafingConstraints(VectorialStrafingConstraints::Yaw {
            yaw: number("90"),
            tolerance: zero(),
        }),
        Line::VectorialStrafingConstraints(VectorialStrafingConstraints::Yaw {
            yaw: number("-90.5"),
            tolerance: number("2"),
        }),
        Line::VectorialStrafingConstraints(VectorialStrafingConstraints::YawRange {
            from: number("-10"),
            to: number("350"),
        }),
        Line::VectorialStrafingConstraints(VectorialStrafingConstraints::LookAt {
            entity: None,
            x: number("1"),
            y: number("2"),
            z: number("3"),
        }),
        Line::VectorialStrafingConstraints(VectorialStrafingConstraints::LookAt {
            entity: Some(count(5)),
            x: number("-1.5"),
            y: number(".5"),
            z: number("0"),
        }),
        Line::Change(Change {
            target: ChangeTarget::Yaw,
            final_value: number("90"),
            over: number("0.5"),
        }),
        Line::Change(Change {
            target: ChangeTarget::Pitch,
            final_value: number("-10"),
            over: number("1"),
        }),
        Line::Change(Change {
            target: ChangeTarget::VectorialStrafingYaw,
            final_value: number("0"),
            over: number("2"),
        }),
        Line::Change(Change {
            target: ChangeTarget::VectorialStrafingYawOffset,
            final_value: number("1.5"),
            over: number("3"),
        }),
        Line::TargetYawOverride(vec![number("1")]),
        Line::TargetYawOverride(vec![number("1"), number("2.5"), number("-3"), number("4e1")]),
    ];
    assert_eq!(rest.len(), expected.len());
    for (line, expected) in rest.iter().zip(expected.iter()) {
        assert_eq!(line, expected);
    }
}

#[test]
fn writes_back_what_was_read_character_by_character() {
    let hltas = HLTAS::from_str(EVERYTHING).unwrap();
    assert_eq!(hltas.to_text(), EVERYTHING);
    let mut output = Vec::new();
    hltas.to_writer(&mut output).unwrap();
    assert_eq!(output, EVERYTHING.as_bytes());
}

#[test]
fn reads_again_what_was_written() {
    let hltas = HLTAS::from_str(EVERYTHING).unwrap();
    assert_eq!(reread(&hltas), hltas);
}

#[test]
fn writes_the_same_text_again() {
    let untidy = "version    1\n\n\nsave  x  \nunknown property\ndemo y\ndemo z\n\n\nframes\n\n  \
                  ------b---xyz|------|------|0.001|-|-|0\r\n\t----------|------|------|1|-|-|-\n\
                  target_yaw velocity +-0.0\nseeded 12 trailing\nbuttons 1 2 3 4\n   \n";
    let hltas = HLTAS::from_str(untidy).unwrap();
    let written = hltas.to_text();
    assert_eq!(
        written,
        "version 1\ndemo z\nsave x  \nframes\n------b---|------|------|0.001|-|-|1\n\
         ----------|------|------|1|-|-|1\ntarget_yaw velocity\nseed 12\nbuttons 1 2 3 4\n"
    );
    let again = HLTAS::from_str(&written).unwrap();
    assert_eq!(again, hltas);
    assert_eq!(again.to_text(), written);
}

#[test]
fn keeps_text_that_is_not_ascii() {
    let contents = "version 1\ndemo démo ✓\nframes\n// комментарий\nsave сохранение\n\
                    ----------|------|------|0.001|-|-|1|say 你好\n";
    let hltas = HLTAS::from_str(contents).unwrap();
    assert_eq!(hltas.properties.demo.as_deref(), Some("démo ✓"));
    assert_eq!(hltas.lines[0], Line::Comment(" комментарий".to_owned()));
    assert_eq!(hltas.lines[1], Line::Save("сохранение".to_owned()));
    let mut output = Vec::new();
    hltas.to_writer(&mut output).unwrap();
    assert_eq!(output, contents.as_bytes());
    assert_eq!(reread(&hltas), hltas);
}

#[test]
fn writes_the_alternating_directions_with_their_count() {
    let mut bulk = FrameBulk::with_frame_time("0.001".to_owned());
    bulk.auto_actions.movement = Some(AutoMovement::Strafe(StrafeSettings {
        type_: StrafeType::MaxAccel,
        dir: StrafeDir::LeftRight(count(10)),
    }));
    let mut buf = Vec::new();
    hltas::write::gen_frame_bulk(&mut buf, &bulk).unwrap();
    assert_eq!(buf, b"s06-------|------|------|0.001|10|-|1");

    bulk.auto_actions.movement = Some(AutoMovement::Strafe(StrafeSettings {
        type_: StrafeType::MaxAngle,
        dir: StrafeDir::RightLeft(count(3)),
    }));
    let mut buf = Vec::new();
    hltas::write::gen_frame_bulk(&mut buf, &bulk).unwrap();
    assert_eq!(buf, b"s17-------|------|------|0.001|3|-|1");
}

#[test]
fn leaves_out_a_tolerance_of_zero() {
    for tolerance in ["0", "0.000e5", "1e-46", "-0.0"] {
        let line = Line::VectorialStrafingConstraints(VectorialStrafingConstraints::Yaw {
            yaw: number("90"),
            tolerance: number(tolerance),
        });
        let mut buf = Vec::new();
        hltas::write::gen_line(&mut buf, &line).unwrap();
        assert_eq!(buf, b"target_yaw 90");
    }
    let hltas = HLTAS::from_str("version 1\nframes\ntarget_yaw velocity +-1e-50").unwrap();
    assert_eq!(
        hltas.lines[0],
        Line::VectorialStrafingConstraints(VectorialStrafingConstraints::VelocityYaw {
            tolerance: Number::zero(),
        })
    );
    let hltas = HLTAS::from_str("version 1\nframes\ntarget_yaw velocity +-1e-45").unwrap();
    assert_eq!(hltas.to_text(), "version 1\nframes\ntarget_yaw velocity +-1e-45\n");
}

#[test]
fn appends_to_what_the_sink_holds() {
    let mut buf = b"abc".to_vec();
    hltas::write::gen_line(&mut buf, &Line::SharedSeed(7)).unwrap();
    assert_eq!(buf, b"abcseed 7");
}
