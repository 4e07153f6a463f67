//! Types representing various parts of `.hltas` scripts.
//!
//! Numbers with a fractional part are kept as they are written (see [`Number`]),
//! so a script that is read and written back keeps every digit. Each type that
//! holds text has a view in which the text is a sequence of characters; the
//! contracts of the reader and the writer are stated over these views.

use vstd::prelude::*;
use crate::grammar::{parse, Fault};
use crate::laws::round_trip::read_is_valid;
use crate::laws::valid;
use crate::number::Number;
use crate::read::{hltas, skip, Error};
use crate::text::{chars_of, string_of};

verus! {

/// A whole number that is at least 1.
#[derive(Debug, Clone, Copy, PartialEq, Eq, Hash)]
pub struct Positive {
    n: u32,
}

impl Positive {
    /// The number itself.
    pub closed spec fn value(self) -> u32 {
        self.n
    }

    /// The value with the given number.
    pub closed spec fn of(n: u32) -> Positive {
        Positive { n }
    }

    #[verifier::type_invariant]
    spec fn at_least_one(self) -> bool {
        self.n >= 1
    }

    /// `Some` for every number but 0.
    pub fn new(n: u32) -> (r: Option<Positive>)
        ensures
            r == (if n == 0 { None } else { Some(Positive::of(n)) }),
    {
        if n == 0 {
            None
        } else {
            Some(Positive { n })
        }
    }

    /// The number itself, which is never 0.
    pub fn get(self) -> (n: u32)
        ensures
            n == self.value(),
            n >= 1,
    {
        proof {
            use_type_invariant(self);
        }
        self.n
    }

    /// The number 1.
    pub fn one() -> (r: Positive)
        ensures
            r == Positive::of(1),
    {
        Positive { n: 1 }
    }
}

/// A value is the same as the one made of its number.
pub broadcast proof fn positive_of_value(p: Positive)
    ensures
        #[trigger] Positive::of(p.value()) == p,
{
}

/// The number of a value made of `n` is `n`.
pub broadcast proof fn positive_value_of(n: u32)
    ensures
        #[trigger] Positive::of(n).value() == n,
{
}

pub broadcast group group_positive {
    positive_of_value,
    positive_value_of,
}

/// Shared and non-shared RNG seeds.
#[derive(Debug, Clone, Copy, PartialEq, Eq)]
pub struct Seeds {
    /// The shared RNG seed, used by the weapon spread.
    pub shared: u32,
    /// The non-shared RNG seed, used by all other randomness.
    pub non_shared: i64,
}

/// Buttons which can be used for strafing.
#[derive(Debug, Clone, Copy, PartialEq, Eq)]
pub enum Button {
    /// `+forward`
    Forward,
    /// `+forward;+moveleft`
    ForwardLeft,
    /// `+moveleft`
    Left,
    /// `+back;+moveleft`
    BackLeft,
    /// `+back`
    Back,
    /// `+back;+moveright`
    BackRight,
    /// `+moveright`
    Right,
    /// `+forward;+moveright`
    ForwardRight,
}

/// A buttons line.
#[derive(Debug, Clone, Copy, PartialEq, Eq)]
pub enum Buttons {
    /// Reset the strafing buttons.
    Reset,
    /// Set the strafing buttons.
    Assign {
        /// Button to use when strafing left in the air.
        air_left: Button,
        /// Button to use when strafing right in the air.
        air_right: Button,
        /// Button to use when strafing left on the ground.
        ground_left: Button,
        /// Button to use when strafing right on the ground.
        ground_right: Button,
    },
}

/// Type of automatic strafing.
#[derive(Debug, Clone, Copy, PartialEq, Eq)]
pub enum StrafeType {
    /// Gain as much speed as possible.
    MaxAccel,
    /// Turn as quickly as possible.
    MaxAngle,
    /// Lose as much speed as possible.
    MaxDeccel,
    /// Turn without changing the velocity magnitude.
    ConstSpeed,
}

/// Number of times this action must be executed.
#[derive(Debug, Clone, Copy, PartialEq, Eq)]
pub enum Times {
    /// Any number of times over the duration of this frame bulk.
    UnlimitedWithinFrameBulk,
    /// This exact number of times, possibly past this frame bulk.
    ///
    /// The action is overridden by the next frame bulk with the same action.
    Limited(Positive),
}

impl From<u32> for Times {
    /// Unlimited for 0, and else limited to the number.
    fn from(x: u32) -> (r: Times) {
        match Positive::new(x) {
            Some(count) => Times::Limited(count),
            None => Times::UnlimitedWithinFrameBulk,
        }
    }
}

impl vstd::std_specs::convert::FromSpecImpl<u32> for Times {
    open spec fn obeys_from_spec() -> bool {
        true
    }

    open spec fn from_spec(x: u32) -> Times {
        if x == 0 {
            Times::UnlimitedWithinFrameBulk
        } else {
            Times::Limited(Positive::of(x))
        }
    }
}

impl From<Times> for u32 {
    /// The number of a limited count, and 0 for an unlimited one.
    fn from(x: Times) -> (r: u32) {
        match x {
            Times::Limited(count) => count.get(),
            Times::UnlimitedWithinFrameBulk => 0,
        }
    }
}

impl vstd::std_specs::convert::FromSpecImpl<Times> for u32 {
    open spec fn obeys_from_spec() -> bool {
        true
    }

    open spec fn from_spec(x: Times) -> u32 {
        match x {
            Times::Limited(count) => count.value(),
            Times::UnlimitedWithinFrameBulk => 0,
        }
    }
}

/// Speed at which to leave the ground.
#[derive(Debug, Clone, Copy, PartialEq, Eq)]
pub enum LeaveGroundActionSpeed {
    /// Any speed.
    Any,
    /// Leave the ground when it's better to strafe in the air than on the ground.
    Optimal,
    /// Leave the ground when it's better to strafe in the air than on the ground; doesn't take
    /// into account maxspeed reduction due to e.g. ducking.
    OptimalWithFullMaxspeed,
}

/// How to leave the ground.
#[derive(Debug, Clone, Copy, PartialEq, Eq)]
pub enum LeaveGroundActionType {
    /// By jumping.
    Jump,
    /// By ducktapping.
    DuckTap {
        /// Use 0 ms ducktapping.
        zero_ms: bool,
    },
}

/// Leave the ground automatically.
#[derive(Debug, Clone, Copy, PartialEq, Eq)]
pub struct LeaveGroundAction {
    /// Speed at which to leave the ground.
    pub speed: LeaveGroundActionSpeed,
    /// Number of times to do the action.
    pub times: Times,
    /// How to leave the ground.
    pub type_: LeaveGroundActionType,
}

/// Automatic jumpbug properties.
#[derive(Debug, Clone, Copy, PartialEq, Eq)]
pub struct JumpBug {
    /// Number of times to do the action.
    pub times: Times,
}

/// Duck-before-collision properties.
#[derive(Debug, Clone, Copy, PartialEq, Eq)]
pub struct DuckBeforeCollision {
    /// Number of times to do the action.
    pub times: Times,
    /// Whether ceilings count as collisions.
    pub including_ceilings: bool,
}

/// Duck-before-ground properties.
#[derive(Debug, Clone, Copy, PartialEq, Eq)]
pub struct DuckBeforeGround {
    /// Number of times to do the action.
    pub times: Times,
}

/// Duck-when-jump properties.
#[derive(Debug, Clone, Copy, PartialEq, Eq)]
pub struct DuckWhenJump {
    /// Number of times to do the action.
    pub times: Times,
}

/// Manually specified movement keys.
#[derive(Debug, Clone, Copy, PartialEq, Eq)]
pub struct MovementKeys {
    /// `+forward`
    pub forward: bool,
    /// `+moveleft`
    pub left: bool,
    /// `+moveright`
    pub right: bool,
    /// `+back`
    pub back: bool,
    /// `+moveup`
    pub up: bool,
    /// `+movedown`
    pub down: bool,
}

/// Manually specified action keys.
#[derive(Debug, Clone, Copy, PartialEq, Eq)]
pub struct ActionKeys {
    /// `+jump`
    pub jump: bool,
    /// `+duck`
    pub duck: bool,
    /// `+use`
    pub use_: bool,
    /// `+attack1`
    pub attack_1: bool,
    /// `+attack2`
    pub attack_2: bool,
    /// `+reload`
    pub reload: bool,
}

/// Values that can be affected by `Change`.
#[derive(Debug, Clone, Copy, PartialEq, Eq)]
pub enum ChangeTarget {
    /// The player's yaw angle.
    Yaw,
    /// The player's pitch angle.
    Pitch,
    /// The target yaw angle in the vectorial strafing constraints.
    VectorialStrafingYaw,
    /// The target yaw angle offset in the vectorial strafing constraints.
    VectorialStrafingYawOffset,
}

/// Direction of automatic strafing.
#[derive(Debug, Clone, PartialEq, Eq)]
pub enum StrafeDir {
    /// Turn left.
    Left,
    /// Turn right.
    Right,
    /// Let the strafing type decide. Most useful with maximum decceleration.
    Best,
    /// Strafe towards this yaw angle.
    Yaw(Number),
    /// Strafe towards this point.
    Point { x: Number, y: Number },
    /// Strafe along a line.
    Line {
        /// The line goes from the player position in the direction of this yaw angle.
        yaw: Number,
    },
    /// Alternate turning left and right for this number of frames each.
    LeftRight(Positive),
    /// Alternate turning right and left for this number of frames each.
    RightLeft(Positive),
}

/// What a [`StrafeDir`] holds, with each number as its text.
pub enum StrafeDirView {
    Left,
    Right,
    Best,
    Yaw(Seq<char>),
    Point { x: Seq<char>, y: Seq<char> },
    Line { yaw: Seq<char> },
    LeftRight(Positive),
    RightLeft(Positive),
}

impl View for StrafeDir {
    type V = StrafeDirView;

    open spec fn view(&self) -> StrafeDirView {
        match *self {
            StrafeDir::Left => StrafeDirView::Left,
            StrafeDir::Right => StrafeDirView::Right,
            StrafeDir::Best => StrafeDirView::Best,
            StrafeDir::Yaw(yaw) => StrafeDirView::Yaw(yaw@),
            StrafeDir::Point { x, y } => StrafeDirView::Point { x: x@, y: y@ },
            StrafeDir::Line { yaw } => StrafeDirView::Line { yaw: yaw@ },
            StrafeDir::LeftRight(count) => StrafeDirView::LeftRight(count),
            StrafeDir::RightLeft(count) => StrafeDirView::RightLeft(count),
        }
    }
}

/// Automatic strafing settings.
#[derive(Debug, Clone, PartialEq, Eq)]
pub struct StrafeSettings {
    /// Strafing type.
    pub type_: StrafeType,
    /// Strafing direction.
    pub dir: StrafeDir,
}

/// What a [`StrafeSettings`] holds, with each number as its text.
pub struct StrafeSettingsView {
    pub type_: StrafeType,
    pub dir: StrafeDirView,
}

impl View for StrafeSettings {
    type V = StrafeSettingsView;

    open spec fn view(&self) -> StrafeSettingsView {
        StrafeSettingsView { type_: self.type_, dir: self.dir@ }
    }
}

/// Automatic yaw angle adjustment and strafing.
#[derive(Debug, Clone, PartialEq, Eq)]
pub enum AutoMovement {
    /// Set the yaw angle to this value.
    SetYaw(Number),
    /// Automatic strafing.
    Strafe(StrafeSettings),
}

/// What an [`AutoMovement`] holds, with each number as its text.
pub enum AutoMovementView {
    SetYaw(Seq<char>),
    Strafe(StrafeSettingsView),
}

impl View for AutoMovement {
    type V = AutoMovementView;

    open spec fn view(&self) -> AutoMovementView {
        match *self {
            AutoMovement::SetYaw(yaw) => AutoMovementView::SetYaw(yaw@),
            AutoMovement::Strafe(settings) => AutoMovementView::Strafe(settings@),
        }
    }
}

/// The view of what an `Option` holds, if anything.
pub open spec fn view_of<T: View>(o: Option<T>) -> Option<T::V> {
    match o {
        Some(t) => Some(t@),
        None => None,
    }
}

/// Automatic actions such as strafing, auto-jump, etc.
#[derive(Debug, Clone, PartialEq, Eq)]
pub struct AutoActions {
    /// Yaw angle adjustment and strafing.
    pub movement: Option<AutoMovement>,
    /// Automatic jumping and ducktapping.
    pub leave_ground_action: Option<LeaveGroundAction>,
    /// Automatic jumpbug.
    pub jump_bug: Option<JumpBug>,
    /// Duck right before a non-ground collision would occur.
    pub duck_before_collision: Option<DuckBeforeCollision>,
    /// Duck before collision with ground would occur.
    pub duck_before_ground: Option<DuckBeforeGround>,
    /// Duck right before jumping, for example for the long jump module.
    pub duck_when_jump: Option<DuckWhenJump>,
}

/// What an [`AutoActions`] holds, with each number as its text.
pub struct AutoActionsView {
    pub movement: Option<AutoMovementView>,
    pub leave_ground_action: Option<LeaveGroundAction>,
    pub jump_bug: Option<JumpBug>,
    pub duck_before_collision: Option<DuckBeforeCollision>,
    pub duck_before_ground: Option<DuckBeforeGround>,
    pub duck_when_jump: Option<DuckWhenJump>,
}

impl View for AutoActions {
    type V = AutoActionsView;

    open spec fn view(&self) -> AutoActionsView {
        AutoActionsView {
            movement: view_of(self.movement),
            leave_ground_action: self.leave_ground_action,
            jump_bug: self.jump_bug,
            duck_before_collision: self.duck_before_collision,
            duck_before_ground: self.duck_before_ground,
            duck_when_jump: self.duck_when_jump,
        }
    }
}

impl Default for AutoActions {
    /// No automatic action at all.
    fn default() -> (r: AutoActions)
        ensures
            r@ == AutoActionsView::none(),
    {
        AutoActions {
            movement: None,
            leave_ground_action: None,
            jump_bug: None,
            duck_before_collision: None,
            duck_before_ground: None,
            duck_when_jump: None,
        }
    }
}

impl AutoActionsView {
    /// No automatic action at all.
    pub open spec fn none() -> AutoActionsView {
        AutoActionsView {
            movement: None,
            leave_ground_action: None,
            jump_bug: None,
            duck_before_collision: None,
            duck_before_ground: None,
            duck_when_jump: None,
        }
    }
}

impl MovementKeys {
    /// No key held.
    pub open spec fn released() -> MovementKeys {
        MovementKeys { forward: false, left: false, right: false, back: false, up: false, down: false }
    }

}

impl Default for MovementKeys {
    /// No key held.
    fn default() -> (r: MovementKeys)
        ensures
            r == MovementKeys::released(),
    {
        MovementKeys { forward: false, left: false, right: false, back: false, up: false, down: false }
    }
}

impl ActionKeys {
    /// No key held.
    pub open spec fn released() -> ActionKeys {
        ActionKeys {
            jump: false,
            duck: false,
            use_: false,
            attack_1: false,
            attack_2: false,
            reload: false,
        }
    }

}

impl Default for ActionKeys {
    /// No key held.
    fn default() -> (r: ActionKeys)
        ensures
            r == ActionKeys::released(),
    {
        ActionKeys {
            jump: false,
            duck: false,
            use_: false,
            attack_1: false,
            attack_2: false,
            reload: false,
        }
    }
}

/// Represents a number of similar frames.
#[derive(Debug, Clone, PartialEq, Eq)]
pub struct FrameBulk {
    /// Automatic actions such as strafing, auto-jump, etc.
    pub auto_actions: AutoActions,
    /// Manually specified movement keys.
    pub movement_keys: MovementKeys,
    /// Manually specified action keys.
    pub action_keys: ActionKeys,
    /// Frame time of each of this frame bulk's frames.
    pub frame_time: String,
    /// Pitch angle to set.
    pub pitch: Option<Number>,
    /// Number of frames in this frame bulk.
    pub frame_count: Positive,
    /// The console command to run every frame of this frame bulk.
    pub console_command: Option<String>,
}

/// What a [`FrameBulk`] holds, with each text as its characters.
pub struct FrameBulkView {
    pub auto_actions: AutoActionsView,
    pub movement_keys: MovementKeys,
    pub action_keys: ActionKeys,
    pub frame_time: Seq<char>,
    pub pitch: Option<Seq<char>>,
    pub frame_count: Positive,
    pub console_command: Option<Seq<char>>,
}

impl View for FrameBulk {
    type V = FrameBulkView;

    open spec fn view(&self) -> FrameBulkView {
        FrameBulkView {
            auto_actions: self.auto_actions@,
            movement_keys: self.movement_keys,
            action_keys: self.action_keys,
            frame_time: self.frame_time@,
            pitch: view_of(self.pitch),
            frame_count: self.frame_count,
            console_command: view_of(self.console_command),
        }
    }
}

impl FrameBulk {
    /// Returns a `FrameBulk` with the given frame time and frame count of 1 and otherwise empty.
    pub fn with_frame_time(frame_time: String) -> (r: FrameBulk)
        ensures
            r@ == FrameBulkView::with_frame_time(frame_time@),
    {
        FrameBulk {
            auto_actions: AutoActions::default(),
            movement_keys: MovementKeys::default(),
            action_keys: ActionKeys::default(),
            frame_time,
            pitch: None,
            frame_count: Positive::one(),
            console_command: None,
        }
    }
}

impl FrameBulkView {
    /// The frame bulk with the given frame time, one frame, and nothing else.
    pub open spec fn with_frame_time(frame_time: Seq<char>) -> FrameBulkView {
        FrameBulkView {
            auto_actions: AutoActionsView::none(),
            movement_keys: MovementKeys::released(),
            action_keys: ActionKeys::released(),
            frame_time,
            pitch: None,
            frame_count: Positive::of(1),
            console_command: None,
        }
    }
}

/// Constraints for the vectorial strafing algorithm.
///
/// A tolerance of zero stands for no tolerance at all.
#[derive(Debug, Clone, PartialEq, Eq)]
pub enum VectorialStrafingConstraints {
    /// Constrains the player yaw relative the velocity yaw.
    VelocityYaw {
        /// The player's yaw should remain within velocity yaw ± tolerance degrees.
        tolerance: Number,
    },
    /// Constrains the player yaw relative the yaw of velocity averaged over last two frames.
    AvgVelocityYaw {
        /// The player's yaw should remain within average velocity yaw ± tolerance degrees.
        tolerance: Number,
    },
    /// Constrains the player yaw to the velocity yaw, locking to the target strafing yaw.
    ///
    /// When the velocity yaw rotates past the target strafing yaw (usually the frame bulk yaw),
    /// the constraint locks the player yaw to the target strafing yaw. When the target strafing
    /// yaw changes, the yaw is unlocked and follows the velocity yaw until the next time it
    /// reaches the target strafing yaw, and so on.
    VelocityYawLocking {
        /// The player's yaw should remain within velocity yaw or target strafing yaw ± tolerance
        /// degrees.
        tolerance: Number,
    },
    /// Constrains the player yaw relative to the given yaw.
    Yaw {
        /// The target yaw in degrees.
        yaw: Number,
        /// The player's yaw should remain within yaw ± tolerance degrees.
        tolerance: Number,
    },
    /// Constrains the player yaw to the given range.
    ///
    /// The range is in degrees, mod 360, inclusive from both sides. The order matters: from 10 to
    /// 350 results in a wide angle range, and from 350 to 10 results in a narrow angle range
    /// opposite to the first one.
    YawRange {
        /// The lowest yaw angle of the range in degrees.
        from: Number,
        /// The highest yaw angle of the range in degrees.
        to: Number,
    },
    /// Constrains the player yaw to look at the given point.
    LookAt {
        /// The entity whose origin the point is relative to, if any.
        entity: Option<Positive>,
        /// Specified origin or offset from entity origin.
        x: Number,
        y: Number,
        z: Number,
    },
}

/// What a [`VectorialStrafingConstraints`] holds, with each number as its text.
pub enum VectorialStrafingConstraintsView {
    VelocityYaw { tolerance: Seq<char> },
    AvgVelocityYaw { tolerance: Seq<char> },
    VelocityYawLocking { tolerance: Seq<char> },
    Yaw { yaw: Seq<char>, tolerance: Seq<char> },
    YawRange { from: Seq<char>, to: Seq<char> },
    LookAt { entity: Option<Positive>, x: Seq<char>, y: Seq<char>, z: Seq<char> },
}

impl View for VectorialStrafingConstraints {
    type V = VectorialStrafingConstraintsView;

    open spec fn view(&self) -> VectorialStrafingConstraintsView {
        match *self {
            VectorialStrafingConstraints::VelocityYaw { tolerance } =>
                VectorialStrafingConstraintsView::VelocityYaw { tolerance: tolerance@ },
            VectorialStrafingConstraints::AvgVelocityYaw { tolerance } =>
                VectorialStrafingConstraintsView::AvgVelocityYaw { tolerance: tolerance@ },
            VectorialStrafingConstraints::VelocityYawLocking { tolerance } =>
                VectorialStrafingConstraintsView::VelocityYawLocking { tolerance: tolerance@ },
            VectorialStrafingConstraints::Yaw { yaw, tolerance } =>
                VectorialStrafingConstraintsView::Yaw { yaw: yaw@, tolerance: tolerance@ },
            VectorialStrafingConstraints::YawRange { from, to } =>
                VectorialStrafingConstraintsView::YawRange { from: from@, to: to@ },
            VectorialStrafingConstraints::LookAt { entity, x, y, z } =>
                VectorialStrafingConstraintsView::LookAt { entity, x: x@, y: y@, z: z@ },
        }
    }
}

/// Description of the value to change.
#[derive(Debug, Clone, PartialEq, Eq)]
pub struct Change {
    /// The value to change.
    pub target: ChangeTarget,
    /// The final value after the change.
    pub final_value: Number,
    /// Duration, in seconds, over which to change the value.
    pub over: Number,
}

/// What a [`Change`] holds, with each number as its text.
pub struct ChangeView {
    pub target: ChangeTarget,
    pub final_value: Seq<char>,
    pub over: Seq<char>,
}

impl View for Change {
    type V = ChangeView;

    open spec fn view(&self) -> ChangeView {
        ChangeView { target: self.target, final_value: self.final_value@, over: self.over@ }
    }
}

/// A line in the frames section.
#[derive(Debug, Clone, PartialEq, Eq)]
pub enum Line {
    /// A frame bulk.
    FrameBulk(FrameBulk),
    /// A save-load.
    Save(String),
    /// A line that sets the shared seed to use next load.
    SharedSeed(u32),
    /// Sets or resets the strafing buttons.
    Buttons(Buttons),
    /// Minimum speed for the optimal leave-ground-action speed.
    LGAGSTMinSpeed(Number),
    /// An engine reset.
    Reset {
        /// The non-shared seed to use for this reset.
        non_shared_seed: i64,
    },
    /// A comment line.
    Comment(String),
    /// Enables or disables vectorial strafing.
    VectorialStrafing(bool),
    /// Sets the constraints for vectorial strafing.
    VectorialStrafingConstraints(VectorialStrafingConstraints),
    /// Starts smoothly changing a value.
    Change(Change),
    /// Overrides yaw and target yaw for the subsequent frames.
    TargetYawOverride(Vec<Number>),
}

/// What a [`Line`] holds, with each text as its characters.
pub enum LineView {
    FrameBulk(FrameBulkView),
    Save(Seq<char>),
    SharedSeed(u32),
    Buttons(Buttons),
    LGAGSTMinSpeed(Seq<char>),
    Reset { non_shared_seed: i64 },
    Comment(Seq<char>),
    VectorialStrafing(bool),
    VectorialStrafingConstraints(VectorialStrafingConstraintsView),
    Change(ChangeView),
    TargetYawOverride(Seq<Seq<char>>),
}

/// The texts of the numbers of `v`, in order.
pub open spec fn texts_of(v: Seq<Number>) -> Seq<Seq<char>> {
    Seq::new(v.len(), |k: int| v[k]@)
}

impl View for Line {
    type V = LineView;

    open spec fn view(&self) -> LineView {
        match *self {
            Line::FrameBulk(frame_bulk) => LineView::FrameBulk(frame_bulk@),
            Line::Save(name) => LineView::Save(name@),
            Line::SharedSeed(seed) => LineView::SharedSeed(seed),
            Line::Buttons(buttons) => LineView::Buttons(buttons),
            Line::LGAGSTMinSpeed(speed) => LineView::LGAGSTMinSpeed(speed@),
            Line::Reset { non_shared_seed } => LineView::Reset { non_shared_seed },
            Line::Comment(text) => LineView::Comment(text@),
            Line::VectorialStrafing(enabled) => LineView::VectorialStrafing(enabled),
            Line::VectorialStrafingConstraints(constraints) =>
                LineView::VectorialStrafingConstraints(constraints@),
            Line::Change(change) => LineView::Change(change@),
            Line::TargetYawOverride(yaws) => LineView::TargetYawOverride(texts_of(yaws@)),
        }
    }
}

/// Recognized HLTAS properties.
#[derive(Debug, Clone, PartialEq, Eq)]
pub struct Properties {
    /// Name of the demo to record.
    pub demo: Option<String>,
    /// Name of the save file to use for saving after the script has finished.
    pub save: Option<String>,
    /// Frametime for 0 ms ducktaps.
    pub frametime_0ms: Option<String>,
    /// RNG seeds.
    pub seeds: Option<Seeds>,
    /// Version of the HLStrafe prediction this TAS was made for.
    ///
    /// This controls some inner workings of HLStrafe and is used to update the prediction code
    /// without causing old scripts to desync.
    pub hlstrafe_version: Option<Positive>,
    /// The command that loads the map or save before running the TAS.
    pub load_command: Option<String>,
}

/// What a [`Properties`] holds, with each text as its characters.
pub struct PropertiesView {
    pub demo: Option<Seq<char>>,
    pub save: Option<Seq<char>>,
    pub frametime_0ms: Option<Seq<char>>,
    pub seeds: Option<Seeds>,
    pub hlstrafe_version: Option<Positive>,
    pub load_command: Option<Seq<char>>,
}

impl View for Properties {
    type V = PropertiesView;

    open spec fn view(&self) -> PropertiesView {
        PropertiesView {
            demo: view_of(self.demo),
            save: view_of(self.save),
            frametime_0ms: view_of(self.frametime_0ms),
            seeds: self.seeds,
            hlstrafe_version: self.hlstrafe_version,
            load_command: view_of(self.load_command),
        }
    }
}

impl PropertiesView {
    /// No property set.
    pub open spec fn none() -> PropertiesView {
        PropertiesView {
            demo: None,
            save: None,
            frametime_0ms: None,
            seeds: None,
            hlstrafe_version: None,
            load_command: None,
        }
    }
}

impl Default for Properties {
    fn default() -> (r: Properties)
        ensures
            r@ == PropertiesView::none(),
    {
        Properties {
            demo: None,
            save: None,
            frametime_0ms: None,
            seeds: None,
            hlstrafe_version: None,
            load_command: None,
        }
    }
}

/// The views of the lines of `v`, in order.
pub open spec fn lines_of(v: Seq<Line>) -> Seq<LineView> {
    Seq::new(v.len(), |k: int| v[k]@)
}

/// A HLTAS script.
#[derive(Debug, Clone, PartialEq, Eq)]
pub struct HLTAS {
    /// Properties before the frames section.
    pub properties: Properties,
    /// Contents of the frames section.
    pub lines: Vec<Line>,
}

/// What a [`HLTAS`] holds, with each text as its characters.
pub struct HLTASView {
    pub properties: PropertiesView,
    pub lines: Seq<LineView>,
}

impl Default for HLTAS {
    /// The script without properties and lines.
    fn default() -> (r: HLTAS)
        ensures
            r@ == (HLTASView { properties: PropertiesView::none(), lines: Seq::empty() }),
    {
        let r = HLTAS { properties: Properties::default(), lines: Vec::new() };
        assert(lines_of(r.lines@) =~= Seq::<LineView>::empty());
        r
    }
}

impl HLTAS {
    /// Parses a `.hltas` script.
    ///
    /// The result is what the format says of the text: the script, which is
    /// then well formed, or an error that holds the input left at the point
    /// of failure, the kind of the failure and its meaning.
    pub fn from_str(input: &str) -> (r: Result<HLTAS, Error>)
        ensures
            match r {
                Ok(script) => parse(input@) == Ok::<_, Fault>(script@) && valid::script(script@),
                Err(e) => parse(input@) is Err && e.reports(input@, parse(input@)->Err_0),
            },
    {
        let chars = chars_of(input);
        match hltas(chars.as_slice()) {
            Ok((_, script)) => {
                proof {
                    read_is_valid(input@);
                }
                Ok(script)
            },
            Err(e) => {
                // Keep the whole input to get correct line and column numbers in the error
                // message.
                let at = chars.len() - e.remaining;
                Err(
                    Error {
                        input: string_of(skip(chars.as_slice(), at)),
                        whole_input: input.to_owned(),
                        kind: e.kind,
                        context: e.context,
                    },
                )
            },
        }
    }

    /// Outputs the script in the `.hltas` format: the sink takes all of it,
    /// and then holds, behind what it held, the bytes of the script's text.
    pub fn to_writer(&self, writer: &mut Vec<u8>) -> (r: Result<(), cookie_factory::GenError>)
        ensures
            (r is Ok) && final(writer)@ == old(writer)@ + vstd::utf8::encode_utf8(
                crate::notation::hltas(self@),
            ),
    {
        crate::write::gen_hltas(writer, self)
    }

    /// The script in the `.hltas` format.
    pub fn to_text(&self) -> (text: String)
        ensures
            text@ == crate::notation::hltas(self@),
    {
        let mut text = String::new();
        crate::write::hltas(&mut text, self);
        proof {
            crate::text::lemma_concat_empty(crate::notation::hltas(self@));
        }
        text
    }
}

impl View for HLTAS {
    type V = HLTASView;

    open spec fn view(&self) -> HLTASView {
        HLTASView { properties: self.properties@, lines: lines_of(self.lines@) }
    }
}

} // verus!
