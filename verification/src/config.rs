//! The sequencer configuration's channel names and gripper mode.

use vstd::prelude::*;


verus! {

/// The PV names the sequencer connects to.
pub struct EpicsConfig {
    pub trigger_pv: String,
    pub start_step_pv: String,
    pub wait_pv: String,
    pub holder_pv: String,
    pub stop_pv: String,
    pub current_step_pv: String,
    pub gripper_pv: String,
    pub gripper_rbv_pv: String,
    pub pause_step_pv: String,
    pub calib_mode_pv: String,
    pub loaded_pv: String,
    pub jog_x_pv: String,
    pub jog_y_pv: String,
    pub jog_z_pv: String,
    pub jog_step_pv: String,
    /// Defaulted so configs that predate the record keep loading; the
    /// channel itself is optional for the same reason.
    pub map_source_pv: String,
}

/// The map-source PV a config names when it names none.
pub fn default_map_source_pv() -> (name: String)
    ensures
        name@ == "Robot:MapSource"@,
{
    String::from_str("Robot:MapSource")
}

/// Which gripper the sequence drives.
#[derive(Debug, Clone, Copy, PartialEq, Eq, Structural)]
pub enum GripperMode {
    /// The real Hand-E over the tool-communication bridge.
    Hande,
    /// A simulated gripper for a robot simulator without tool
    /// communication.
    Simulated,
}

/// Hand-E background communication rate a config gets when it names
/// none, Hz. Every cycle is two Modbus transactions, and the bridge drops
/// roughly one transaction in a few thousand, so a lower rate costs less.
pub fn default_gripper_poll_hz() -> (hz: u32)
    ensures
        hz == 50,
{
    50
}

} // verus!
