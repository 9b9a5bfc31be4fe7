//! The settings the runner is configured with.
use vstd::prelude::*;

verus! {

/// Where screenshots come from.
#[derive(Debug, Clone, Copy, PartialEq, Eq, Structural)]
pub enum CaptureBackendKind {
    /// MaaFramework's EmulatorExtras capture.
    MaaEmulatorExtras,
    /// `adb exec-out screencap`.
    AdbScreencap,
}

/// How the runner picks its presses.
#[derive(Debug, Clone, Copy, PartialEq, Eq, Hash, Structural)]
pub enum StrategyMode {
    /// The planner that weighs expected equipment score against cost.
    EquipmentScore,
    /// The 200m-first fixed route.
    Reward32Fixed,
}

/// The state entered by hand for a takeover in the middle of a round.
#[derive(Debug, Clone, Copy, PartialEq, Eq, Structural)]
pub struct ManualStateConfig {
    pub pos: i32,
    pub shield: i32,
    pub boost: i32,
    pub lucky: i32,
}

} // verus!
