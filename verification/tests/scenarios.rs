use hltas::number::Number;
use hltas::read::Context;
use hltas::types::{
    AutoActions, AutoMovement, FrameBulk, JumpBug, LeaveGroundAction, LeaveGroundActionSpeed,
    LeaveGroundActionType, Line, Positive, Properties, StrafeDir, StrafeSettings, StrafeType,
    Times, HLTAS,
};
use hltas::write::{gen_frame_bulk, gen_hltas, gen_line, gen_lines, gen_strafe};

#[test]
fn reads_the_example_script() {
    let contents = "\
version 1
demo test
frames
------b---|------|------|0.001|-|-|5";
    let hltas = HLTAS::from_str(contents).unwrap();
    assert_eq!(hltas.properties.demo.as_deref(), Some("test"));
    assert_eq!(hltas.lines.len(), 1);
    if let Line::FrameBulk(frame_bulk) = &hltas.lines[0] {
        assert_eq!(
            frame_bulk.auto_actions.jump_bug,
            Some(JumpBug { times: Times::UnlimitedWithinFrameBulk })
        );
        assert_eq!(&frame_bulk.frame_time, "0.001");
        assert_eq!(frame_bulk.frame_count.get(), 5);
    } else {
        unreachable!()
    }
}

#[test]
fn writes_a_frame_bulk() {
    let mut frame_bulk = FrameBulk::with_frame_time("0.001".to_owned());
    frame_bulk.movement_keys.left = true;
    frame_bulk.action_keys.jump = true;

    let mut buf = Vec::new();
    gen_frame_bulk(&mut buf, &frame_bulk).unwrap();
    assert_eq!(buf, b"----------|-l----|j-----|0.001|-|-|1");
}

#[test]
fn writes_a_reset_line() {
    let line = Line::Reset { non_shared_seed: 1234 };
    let mut buf = Vec::new();
    gen_line(&mut buf, &line).unwrap();
    assert_eq!(buf, b"reset 1234");
}

#[test]
fn writes_strafe_settings() {
    let settings = StrafeSettings { type_: StrafeType::MaxAngle, dir: StrafeDir::Left };
    let mut buf = Vec::new();
    gen_strafe(&mut buf, &settings).unwrap();
    assert_eq!(buf, b"s10");
}

#[test]
fn writes_lines() {
    let lines = [Line::Comment(" Hello World".to_string()), Line::Reset { non_shared_seed: 1234 }];
    let mut buf = Vec::new();
    gen_lines(&mut buf, &lines).unwrap();
    assert_eq!(buf, b"// Hello World\nreset 1234\n");
}

#[test]
fn writes_what_was_read() {
    let contents = "version 1
demo test
frames
------b---|------|------|0.001|-|-|5
";
    let hltas = HLTAS::from_str(contents).unwrap();
    let mut buf = Vec::new();
    gen_hltas(&mut buf, &hltas).unwrap();
    assert_eq!(buf, contents.as_bytes());
    assert_eq!(hltas.to_text(), contents);
}

fn frame_bulk(frame_count: u32) -> FrameBulk {
    let mut bulk = FrameBulk::with_frame_time("0.001".to_owned());
    bulk.frame_count = Positive::new(frame_count).unwrap();
    bulk
}

fn strafe_to(yaw: &str) -> Option<AutoMovement> {
    Some(AutoMovement::Strafe(StrafeSettings {
        type_: StrafeType::MaxAccel,
        dir: StrafeDir::Yaw(Number::new(yaw).unwrap()),
    }))
}

const BHOP: &str = "version 1
demo bhop
frametime0ms 0.0000001
hlstrafe_version 1
frames
----------|------|------|0.001|-|-|1|sensitivity 0;bxt_timer_reset;bxt_taslog
----------|------|------|0.001|-|-|5
s03-------|------|------|0.001|170|0|400
----------|------|------|0.001|-|-|2951
s03-------|------|------|0.001|90|-|1|bxt_timer_start
// More frames because some of them get converted to 0ms
s03l-D----|------|------|0.001|90|-|5315
----------|------|------|0.001|-|-|1|stop;bxt_timer_stop;pause;sensitivity 1;_bxt_taslog 0;bxt_taslog;//condebug
";

fn bhop_gt() -> HLTAS {
    let mut properties = Properties::default();
    properties.demo = Some("bhop".to_owned());
    properties.frametime_0ms = Some("0.0000001".to_owned());
    properties.hlstrafe_version = Positive::new(1);

    let mut first = frame_bulk(1);
    first.console_command = Some("sensitivity 0;bxt_timer_reset;bxt_taslog".to_owned());

    let mut third = frame_bulk(400);
    third.auto_actions.movement = strafe_to("170");
    third.pitch = Some(Number::new("0").unwrap());

    let mut fifth = frame_bulk(1);
    fifth.auto_actions.movement = strafe_to("90");
    fifth.console_command = Some("bxt_timer_start".to_owned());

    let mut sixth = frame_bulk(5315);
    sixth.auto_actions = AutoActions {
        movement: strafe_to("90"),
        leave_ground_action: Some(LeaveGroundAction {
            speed: LeaveGroundActionSpeed::Optimal,
            times: Times::UnlimitedWithinFrameBulk,
            type_: LeaveGroundActionType::DuckTap { zero_ms: true },
        }),
        ..AutoActions::default()
    };

    let mut last = frame_bulk(1);
    last.console_command = Some(
        "stop;bxt_timer_stop;pause;sensitivity 1;_bxt_taslog 0;bxt_taslog;//condebug".to_owned(),
    );

    HLTAS {
        properties,
        lines: vec![
            Line::FrameBulk(first),
            Line::FrameBulk(frame_bulk(5)),
            Line::FrameBulk(third),
            Line::FrameBulk(frame_bulk(2951)),
            Line::FrameBulk(fifth),
            Line::Comment(" More frames because some of them get converted to 0ms".to_owned()),
            Line::FrameBulk(sixth),
            Line::FrameBulk(last),
        ],
    }
}

#[test]
fn reads_a_bunnyhop_script() {
    let hltas = HLTAS::from_str(BHOP).unwrap();
    assert_eq!(hltas, bhop_gt());
}

#[test]
fn reads_back_a_written_bunnyhop_script() {
    let hltas = HLTAS::from_str(BHOP).unwrap();
    let mut output = Vec::new();
    hltas.to_writer(&mut output).unwrap();
    assert_eq!(std::str::from_utf8(&output).unwrap(), BHOP);
    let hltas = HLTAS::from_str(std::str::from_utf8(&output).unwrap()).unwrap();
    assert_eq!(hltas, bhop_gt());
}

#[test]
fn a_sink_that_is_too_small_says_so() {
    let hltas = HLTAS::from_str(BHOP).unwrap();
    let text = hltas.to_text();
    let mut buf = [0; 4];
    assert!(matches!(
        cookie_factory::gen_simple(cookie_factory::combinator::string(&text), &mut buf[..]),
        Err(cookie_factory::GenError::BufferTooSmall(_))
    ));
    assert_eq!(&buf, b"vers");
}

#[test]
fn a_sink_that_is_large_enough_takes_the_script() {
    let hltas = HLTAS::from_str(BHOP).unwrap();
    let text = hltas.to_text();
    let mut buf = [0; 1024];
    let rest = cookie_factory::gen_simple(cookie_factory::combinator::string(&text), &mut buf[..])
        .unwrap()
        .len();
    assert_eq!(1024 - rest, BHOP.len());
    assert_eq!(&buf[..BHOP.len()], BHOP.as_bytes());
}

#[test]
fn names_the_context_of_a_malformed_script() {
    let err = HLTAS::from_str("version 9").unwrap_err();
    assert_eq!(err.context, Some(Context::VersionTooHigh));
    let err = HLTAS::from_str("version x").unwrap_err();
    assert_eq!(err.context, Some(Context::ErrorReadingVersion));
    let err = HLTAS::from_str("version 1\nframes\nbuttons ").unwrap_err();
    assert_eq!(err.context, Some(Context::NoButtons));
    let err = HLTAS::from_str("version 1\nframes\n----jd----|------|------|0.001|-|-|1").unwrap_err();
    assert_eq!(err.context, Some(Context::BothAutoJumpAndDuckTap));
    let err = HLTAS::from_str("version 1\nframes\nwhat is this").unwrap_err();
    assert_eq!(err.context, Some(Context::ErrorParsingLine));
}
