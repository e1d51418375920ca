//! Decision logic of the UR3e sample changer: the sequencer daemon's
//! PV decoding and reply parsing, and the operator panel's choices,
//! as verified functions over plain values.

pub mod text;
pub mod pvs;
pub mod daemon;
pub mod epics;
pub mod ops;
pub mod yamledit;
pub mod calib;
pub mod camera;
pub mod config;
pub mod error;
pub mod gripper;
pub mod motion;
pub mod handeye;
pub mod seatcheck;
