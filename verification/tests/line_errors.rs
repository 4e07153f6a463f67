use hltas::number::Number;
use hltas::read::line::{
    auto_actions, line_buttons, line_lgagst_min_speed, line_reset, line_save, line_seed,
    line_strafing, line_target_yaw, yaw_field,
};
use hltas::read::{version, Context};
use hltas::types::{AutoMovement, Buttons, StrafeDir, StrafeSettings, StrafeType};

fn chars(text: &str) -> Vec<char> {
    text.chars().collect()
}

#[test]
fn no_save_name() {
    let input = chars("save ");
    let err = line_save(&input).unwrap_err();
    assert!(err.cut);
    assert_eq!(err.context, Some(Context::NoSaveName));
}

#[test]
fn no_seed() {
    let input = chars("seed ");
    let err = line_seed(&input).unwrap_err();
    assert!(err.cut);
    assert_eq!(err.context, Some(Context::NoSeed));
}

#[test]
fn no_buttons() {
    let input = chars("buttons ");
    let err = line_buttons(&input).unwrap_err();
    assert!(err.cut);
    assert_eq!(err.context, Some(Context::NoButtons));
}

#[test]
fn no_buttons_1() {
    let input = chars("buttons 1");
    let err = line_buttons(&input).unwrap_err();
    assert!(err.cut);
    assert_eq!(err.context, Some(Context::NoButtons));
}

#[test]
fn buttons_reset() {
    let input = chars("buttons");
    let (rest, buttons) = line_buttons(&input).unwrap();
    assert_eq!(rest.len(), 0);
    assert_eq!(buttons, Buttons::Reset);
}

#[test]
fn no_lgagst_min_speed() {
    let input = chars("lgagstminspeed ");
    let err = line_lgagst_min_speed(&input).unwrap_err();
    assert!(err.cut);
    assert_eq!(err.context, Some(Context::NoLGAGSTMinSpeed));
}

#[test]
fn no_reset_seed() {
    let input = chars("reset ");
    let err = line_reset(&input).unwrap_err();
    assert!(err.cut);
    assert_eq!(err.context, Some(Context::NoResetSeed));
}

#[test]
fn both_autojump_ducktap() {
    let input = chars("----jd----");
    let err = auto_actions(&input).unwrap_err();
    assert!(err.cut);
    assert_eq!(err.context, Some(Context::BothAutoJumpAndDuckTap));
}

#[test]
fn both_autojump_ducktap_lgagst() {
    let input = chars("---ljd----");
    let err = auto_actions(&input).unwrap_err();
    assert!(err.cut);
    assert_eq!(err.context, Some(Context::BothAutoJumpAndDuckTap));
}

#[test]
fn no_leave_ground_action() {
    let input = chars("---l------");
    let err = auto_actions(&input).unwrap_err();
    assert!(err.cut);
    assert_eq!(err.context, Some(Context::NoLeaveGroundAction));
}

#[test]
fn times_on_leave_ground_action_autojump() {
    let input = chars("---lj2-----");
    let err = auto_actions(&input).unwrap_err();
    assert!(err.cut);
    assert_eq!(err.context, Some(Context::TimesOnLeaveGroundAction));
}

#[test]
fn times_on_leave_ground_action_ducktap() {
    let input = chars("---l-d2----");
    let err = auto_actions(&input).unwrap_err();
    assert!(err.cut);
    assert_eq!(err.context, Some(Context::TimesOnLeaveGroundAction));
}

#[test]
fn both_autojump_ducktap_with_times() {
    let input = chars("---lj2d2----");
    let err = auto_actions(&input).unwrap_err();
    assert!(err.cut);
    assert_eq!(err.context, Some(Context::BothAutoJumpAndDuckTap));
}

#[test]
fn no_yaw() {
    let input = chars("-");
    let err = yaw_field(
        Some(AutoMovement::Strafe(StrafeSettings {
            type_: StrafeType::MaxAccel,
            dir: StrafeDir::Yaw(Number::zero()),
        })),
        &input,
    )
    .unwrap_err();
    assert!(!err.cut);
    assert_eq!(err.context, Some(Context::NoYaw));
}

#[test]
fn yaw_negative() {
    let input = chars("-1");
    assert!(yaw_field(
        Some(AutoMovement::Strafe(StrafeSettings {
            type_: StrafeType::MaxAccel,
            dir: StrafeDir::Yaw(Number::zero()),
        })),
        &input
    )
    .is_ok());
}

#[test]
fn invalid_strafing_algorithm() {
    let input = chars("strafing sdfdsf");
    let err = line_strafing(&input).unwrap_err();
    assert!(err.cut);
    assert_eq!(err.context, Some(Context::InvalidStrafingAlgorithm));
}

#[test]
fn no_constraints() {
    let input = chars("target_yaw ");
    let err = line_target_yaw(&input).unwrap_err();
    assert!(err.cut);
    assert_eq!(err.context, Some(Context::NoConstraints));
}

#[test]
fn no_plus_minus_before_tolerance_velocity() {
    let input = chars("target_yaw velocity 1");
    let err = line_target_yaw(&input).unwrap_err();
    assert!(err.cut);
    assert_eq!(err.context, Some(Context::NoPlusMinusBeforeTolerance));
}

#[test]
fn no_plus_minus_before_tolerance_velocity_avg() {
    let input = chars("target_yaw velocity_avg 1");
    let err = line_target_yaw(&input).unwrap_err();
    assert!(err.cut);
    assert_eq!(err.context, Some(Context::NoPlusMinusBeforeTolerance));
}

#[test]
fn no_plus_minus_before_tolerance_velocity_lock() {
    let input = chars("target_yaw velocity_lock 1");
    let err = line_target_yaw(&input).unwrap_err();
    assert!(err.cut);
    assert_eq!(err.context, Some(Context::NoPlusMinusBeforeTolerance));
}

#[test]
fn no_plus_minus_before_tolerance_yaw() {
    let input = chars("target_yaw 90 1");
    let err = line_target_yaw(&input).unwrap_err();
    assert!(err.cut);
    assert_eq!(err.context, Some(Context::NoPlusMinusBeforeTolerance));
}

#[test]
fn no_from_to_parameters() {
    let input = chars("target_yaw from");
    let err = line_target_yaw(&input).unwrap_err();
    assert!(err.cut);
    assert_eq!(err.context, Some(Context::NoFromToParameters));
}

#[test]
fn no_from_to_parameters_space() {
    let input = chars("target_yaw from ");
    let err = line_target_yaw(&input).unwrap_err();
    assert!(err.cut);
    assert_eq!(err.context, Some(Context::NoFromToParameters));
}

#[test]
fn no_to() {
    let input = chars("target_yaw from 123");
    let err = line_target_yaw(&input).unwrap_err();
    assert!(err.cut);
    assert_eq!(err.context, Some(Context::NoTo));
}

#[test]
fn target_yaw_nom_float_issue() {
    let input = chars("target_yaw 0elocity +-0.1");
    let _ = line_target_yaw(&input);
}

#[test]
fn version_0() {
    let input = chars("version 0");
    let err = version(&input).unwrap_err();
    assert!(!err.cut);
    assert_eq!(err.context, Some(Context::ErrorReadingVersion));
}

#[test]
fn version_too_high() {
    let input = chars("version 9");
    let err = version(&input).unwrap_err();
    assert!(!err.cut);
    assert_eq!(err.context, Some(Context::VersionTooHigh));
}
