use hltas::read::line::{auto_actions, float, line_save};
use hltas::read::properties::property;
use hltas::read::{Context, Error, ErrorKind, Rule};
use hltas::types::HLTAS;

#[test]
fn says_where_a_line_failed() {
    let err = HLTAS::from_str("version 1\nframes\nbuttons 1 2").unwrap_err();
    assert_eq!(err.context, Some(Context::NoButtons));
    assert_eq!(err.input, "");
    assert_eq!(err.line(), 2);
    assert_eq!(err.message(), "missing button values\n2 | buttons 1 2\n               ^");
}

#[test]
fn says_which_character_was_expected() {
    let err = HLTAS::from_str("version 1\nframes\n----------x").unwrap_err();
    assert_eq!(err.context, Some(Context::ErrorParsingLine));
    assert_eq!(err.kind, ErrorKind::ExpectedChar('|'));
    assert_eq!(err.line(), 2);
    assert_eq!(
        err.message(),
        "failed to parse the line\n2 | ----------x\n               ^ expected '|'"
    );
}

#[test]
fn says_what_stood_in_place_of_a_character() {
    let err = Error {
        input: "x".to_owned(),
        whole_input: "abx".to_owned(),
        kind: ErrorKind::ExpectedChar('|'),
        context: None,
    };
    assert_eq!(err.message(), "expected '|', got 'x'\n0 | abx\n      ^ expected '|'");
    let err = Error {
        input: "".to_owned(),
        whole_input: "ab".to_owned(),
        kind: ErrorKind::ExpectedChar('|'),
        context: None,
    };
    assert_eq!(err.message(), "expected '|', got EOF\n0 | ab\n      ^ expected '|'");
}

#[test]
fn names_the_rule_that_failed() {
    let err = HLTAS::from_str("version 1\nseed x\nframes\n").unwrap_err();
    assert_eq!(err.context, None);
    assert_eq!(err.kind, ErrorKind::Other(Rule::Digit));
    assert_eq!(err.input, "x\nframes\n");
    assert_eq!(err.line(), 1);
    assert_eq!(err.message(), "error applying Digit\n1 | seed x\n         ^");
}

#[test]
fn names_each_rule_as_nom_does() {
    let rules = [
        (Rule::Tag, "Tag"),
        (Rule::MapRes, "Map on Result"),
        (Rule::Digit, "Digit"),
        (Rule::Space, "Space"),
        (Rule::Eof, "End of file"),
        (Rule::OneOf, "OneOf"),
        (Rule::CrLf, "CrLf"),
        (Rule::TakeWhile1, "TakeWhile1"),
        (Rule::Not, "Negation"),
        (Rule::Verify, "predicate verification"),
        (Rule::Many1, "Many1"),
        (Rule::ManyTill, "ManyTill"),
    ];
    for (rule, name) in rules {
        let err = Error {
            input: "b".to_owned(),
            whole_input: "".to_owned(),
            kind: ErrorKind::Other(rule),
            context: None,
        };
        assert_eq!(err.message(), format!("error applying {}", name));
    }
}

#[test]
fn says_what_each_context_means() {
    let contexts = [
        (Context::ErrorReadingVersion, "failed to read version"),
        (Context::VersionTooHigh, "this version is not supported"),
        (
            Context::BothAutoJumpAndDuckTap,
            "both autojump and ducktap are specified at the same time",
        ),
        (
            Context::NoLeaveGroundAction,
            "no LGAGST action specified (either autojump or ducktap is required)",
        ),
        (
            Context::TimesOnLeaveGroundAction,
            "times on autojump or ducktap with LGAGST enabled (put times on LGAGST instead)",
        ),
        (Context::NoSaveName, "missing save name"),
        (Context::NoSeed, "missing seed value"),
        (Context::NoButtons, "missing button values"),
        (Context::NoLGAGSTMinSpeed, "missing lgagstminspeed value"),
        (Context::NoResetSeed, "missing reset seed"),
        (Context::NoYaw, "missing yaw value"),
        (Context::ErrorParsingLine, "failed to parse the line"),
        (
            Context::InvalidStrafingAlgorithm,
            "invalid strafing algorithm (only \"yaw\" and \"vectorial\" allowed)",
        ),
        (Context::NoConstraints, "missing constraints"),
        (Context::NoTolerance, "missing tolerance (e.g. \"+-0.1\")"),
        (Context::NoPlusMinusBeforeTolerance, "missing +- before tolerance"),
        (Context::NoFromToParameters, "missing from/to parameters"),
        (Context::NoTo, "missing \"to\" in the from/to constraint"),
    ];
    for (context, message) in contexts {
        assert_eq!(context.message(), message);
    }
}

#[test]
fn takes_one_character_for_each_line_ending() {
    let err = HLTAS::from_str("version 1\r\nseed x\r\nframes").unwrap_err();
    assert_eq!(err.kind, ErrorKind::Other(Rule::Digit));
    assert_eq!(err.input, "x\r\nframes");
    assert_eq!(err.line(), 1);
    assert_eq!(err.message(), "error applying Digit\n1 | seed x\n          ^");
}

#[test]
fn line_is_zero_where_the_lines_run_out() {
    let err = HLTAS::from_str("version 1\r\nframes\r\nsave ").unwrap_err();
    assert_eq!(err.context, Some(Context::NoSaveName));
    assert_eq!(err.line(), 0);
    assert_eq!(err.message(), "missing save name");
}

#[test]
fn line_is_zero_where_the_failure_lies_in_no_line() {
    let err = Error {
        input: "".to_owned(),
        whole_input: "".to_owned(),
        kind: ErrorKind::Other(Rule::Tag),
        context: None,
    };
    assert_eq!(err.line(), 0);
    assert_eq!(err.message(), "error applying Tag");
}

#[test]
fn says_which_rule_did_not_match() {
    let chars = |text: &str| text.chars().collect::<Vec<char>>();

    let err = line_save(&chars("save ")).unwrap_err();
    assert_eq!(err.kind, ErrorKind::Other(Rule::Eof));
    assert_eq!(err.remaining, 0);

    let err = auto_actions(&chars("----jd----")).unwrap_err();
    assert_eq!(err.kind, ErrorKind::Other(Rule::Not));
    assert_eq!(err.remaining, 6);

    let err = float(&chars("1e39|")).unwrap_err();
    assert_eq!(err.kind, ErrorKind::Other(Rule::Verify));
    assert_eq!(err.remaining, 5);
    assert!(!err.cut);

    let err = float(&chars("x")).unwrap_err();
    assert_eq!(err.kind, ErrorKind::ExpectedChar('.'));

    let err = float(&chars(".x")).unwrap_err();
    assert_eq!(err.kind, ErrorKind::Other(Rule::Digit));
    assert_eq!(err.remaining, 1);

    let err = property(&chars("?")).unwrap_err();
    assert_eq!(err.kind, ErrorKind::Other(Rule::TakeWhile1));

    let err = property(&chars("name")).unwrap_err();
    assert_eq!(err.kind, ErrorKind::Other(Rule::Space));
    assert_eq!(err.remaining, 0);

    let err = property(&chars("name a\rb")).unwrap_err();
    assert_eq!(err.kind, ErrorKind::Other(Rule::Tag));
    assert_eq!(err.remaining, 3);

    let input = chars("a_1 \t b c \r\nnext");
    let (rest, (name, value)) = property(&input).unwrap();
    assert_eq!(name.iter().collect::<String>(), "a_1");
    assert_eq!(value.iter().collect::<String>(), "b c ");
    assert_eq!(rest.iter().collect::<String>(), "\r\nnext");
}
