use hltas::read::{Context, ErrorKind, Rule};
use hltas::types::HLTAS;

fn context_of(lines: &str) -> Option<Context> {
    let text = format!("version 1\nframes\n{}", lines);
    HLTAS::from_str(&text).unwrap_err().context
}

#[test]
fn names_what_is_wrong_with_a_line() {
    let cases = [
        ("----jd----|------|------|0.001|-|-|1", Context::BothAutoJumpAndDuckTap),
        ("---ljd----|------|------|0.001|-|-|1", Context::BothAutoJumpAndDuckTap),
        ("---lj2d2----|------|------|0.001|-|-|1", Context::BothAutoJumpAndDuckTap),
        ("---l------|------|------|0.001|-|-|1", Context::NoLeaveGroundAction),
        ("---lj2-----|------|------|0.001|-|-|1", Context::TimesOnLeaveGroundAction),
        ("---l-d2----|------|------|0.001|-|-|1", Context::TimesOnLeaveGroundAction),
        ("---L-D2----|------|------|0.001|-|-|1", Context::TimesOnLeaveGroundAction),
        ("save ", Context::NoSaveName),
        ("seed ", Context::NoSeed),
        ("s03-------|------|------|0.001|-|-|1", Context::NoYaw),
        ("s04-------|------|------|0.001|-|-|1", Context::NoYaw),
        ("s05-------|------|------|0.001|-|-|1", Context::NoYaw),
        ("buttons ", Context::NoButtons),
        ("buttons 1", Context::NoButtons),
        ("buttons 1 2 3", Context::NoButtons),
        ("lgagstminspeed ", Context::NoLGAGSTMinSpeed),
        ("reset ", Context::NoResetSeed),
        ("strafing sdfdsf", Context::InvalidStrafingAlgorithm),
        ("strafing ", Context::InvalidStrafingAlgorithm),
        ("target_yaw ", Context::NoConstraints),
        ("target_yaw velocity 1", Context::NoPlusMinusBeforeTolerance),
        ("target_yaw velocity_avg 1", Context::NoPlusMinusBeforeTolerance),
        ("target_yaw velocity_lock 1", Context::NoPlusMinusBeforeTolerance),
        ("target_yaw 90 1", Context::NoPlusMinusBeforeTolerance),
        ("target_yaw from", Context::NoFromToParameters),
        ("target_yaw from ", Context::NoFromToParameters),
        ("target_yaw from 123", Context::NoTo),
        ("target_yaw from 123 until 5", Context::NoTo),
        ("nonsense", Context::ErrorParsingLine),
        ("----------", Context::ErrorParsingLine),
        ("----------|------|------|x|-|-|1", Context::ErrorParsingLine),
        ("----------|------|------|0.001|-|-|99999999999", Context::ErrorParsingLine),
        ("buttons 1 2 3 9", Context::ErrorParsingLine),
        ("buttons 1 2 3 4 5", Context::ErrorParsingLine),
        ("seed x", Context::ErrorParsingLine),
        ("reset x", Context::ErrorParsingLine),
        ("lgagstminspeed x", Context::ErrorParsingLine),
        ("lgagstminspeed 1e39", Context::ErrorParsingLine),
        ("----------|------|------|0.001|4e38|-|1", Context::ErrorParsingLine),
        ("----------|------|------|0.001|-|4e38|1", Context::ErrorParsingLine),
        ("target_yaw_override 1e40", Context::ErrorParsingLine),
        ("target_yaw velocity +-x", Context::ErrorParsingLine),
        ("target_yaw look_at 1 2", Context::ErrorParsingLine),
        ("target_yaw sideways", Context::ErrorParsingLine),
        ("target_yaw_override ", Context::ErrorParsingLine),
        ("change yaw to 1 over 2", Context::ErrorParsingLine),
        ("change roll to 1 over 2 s", Context::ErrorParsingLine),
        ("// a\rb", Context::ErrorParsingLine),
    ];
    for (line, context) in cases {
        assert_eq!(context_of(line), Some(context), "{}", line);
    }
}

#[test]
fn names_what_is_wrong_with_the_version() {
    for text in ["", "version", "version ", "version 0", "version x", "versio 1", "Version 1"] {
        let err = HLTAS::from_str(text).unwrap_err();
        assert_eq!(err.context, Some(Context::ErrorReadingVersion), "{:?}", text);
    }
    for text in ["version 2", "version 9", "version 9\nframes"] {
        let err = HLTAS::from_str(text).unwrap_err();
        assert_eq!(err.context, Some(Context::VersionTooHigh), "{:?}", text);
        assert_eq!(err.kind, ErrorKind::Other(Rule::Verify));
    }
}

#[test]
fn gives_no_context_to_what_is_wrong_before_the_frames() {
    let cases = [
        ("version 1", Rule::CrLf, ""),
        ("version 1\n", Rule::Tag, ""),
        ("version 1\nframe", Rule::Tag, "frame"),
        ("version 1 \nframes", Rule::CrLf, " \nframes"),
        ("version 1\ndemo\nframes", Rule::Tag, "demo\nframes"),
        ("version 1\nseed 1\nframes", Rule::Space, "\nframes"),
        ("version 1\nseed 1 x\nframes", Rule::Digit, "x\nframes"),
        ("version 1\nseed 4294967296 1\nframes", Rule::MapRes, "4294967296 1\nframes"),
        ("version 1\nhlstrafe_version 0\nframes", Rule::OneOf, "0\nframes"),
        ("version 1\nhlstrafe_version 4294967296\nframes", Rule::MapRes, "4294967296\nframes"),
    ];
    for (text, rule, input) in cases {
        let err = HLTAS::from_str(text).unwrap_err();
        assert_eq!(err.context, None, "{:?}", text);
        assert_eq!(err.kind, ErrorKind::Other(rule), "{:?}", text);
        assert_eq!(err.input, input, "{:?}", text);
        assert_eq!(err.whole_input, text);
    }
}

#[test]
fn says_where_in_the_input_a_line_failed() {
    let text = "version 1\nframes\nsave x\n----------|------|-----|0.001|-|-|1\nsave y";
    let err = HLTAS::from_str(text).unwrap_err();
    assert_eq!(err.context, Some(Context::ErrorParsingLine));
    assert_eq!(err.kind, ErrorKind::ExpectedChar('-'));
    assert_eq!(err.input, "|0.001|-|-|1\nsave y");
    assert_eq!(err.line(), 3);
}

#[test]
fn passes_over_properties_that_are_not_known() {
    let hltas = HLTAS::from_str("version 1\nauthor me\ndemo x\nDemo y\nframes_ 1\nframes").unwrap();
    assert_eq!(hltas.properties.demo.as_deref(), Some("x"));
    assert_eq!(hltas.properties.save, None);
    assert_eq!(hltas.lines.len(), 0);
}

#[test]
fn leaves_what_follows_a_value_unread() {
    let text = "version 1\nframes\ntarget_yaw_override 1 2 1e40\nlgagstminspeed 5 or so\n\
                reset 7up\ntarget_yaw velocity+-1\nchange yaw to 1 over 2 seconds\n\
                strafing yawning\ntarget_yaw look_at 1 2 3 4";
    let hltas = HLTAS::from_str(text).unwrap();
    assert_eq!(
        hltas.to_text(),
        "version 1\nframes\ntarget_yaw_override 1 2\nlgagstminspeed 5\nreset 7\n\
         target_yaw velocity\nchange yaw to 1 over 2 s\nstrafing yaw\ntarget_yaw look_at 1 2 3\n"
    );
}

#[test]
fn takes_a_line_by_the_start_of_its_name() {
    let hltas = HLTAS::from_str("version 1\nframes\nsaved game\nseeds 5 6\nresetting -3").unwrap();
    assert_eq!(hltas.to_text(), "version 1\nframes\nsave game\nseed 5\nreset -3\n");
}

#[test]
fn does_not_read_past_the_end_of_the_script() {
    for text in ["version 1\nframes", "version 1\nframes\n", "version 1\nframes\n \n\t\r\n "] {
        let hltas = HLTAS::from_str(text).unwrap();
        assert_eq!(hltas, HLTAS::default());
    }
    let err = HLTAS::from_str("version 1\nframesx").unwrap_err();
    assert_eq!(err.context, Some(Context::ErrorParsingLine));
    assert_eq!(err.kind, ErrorKind::Other(Rule::CrLf));
    assert_eq!(err.input, "x");
    // `frames` with a space behind it is a property that is not known.
    let err = HLTAS::from_str("version 1\nframes \n").unwrap_err();
    assert_eq!(err.context, None);
    assert_eq!(err.kind, ErrorKind::Other(Rule::Tag));
    assert_eq!(err.input, "");
}
