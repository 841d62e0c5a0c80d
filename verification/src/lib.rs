//! Verified core of the MiMo Code <-> herdr custom-agent bridge.

pub mod cli;
pub mod herdr;
pub mod install;
pub mod json;
pub mod path;
pub mod spawn;
pub mod status;
pub mod text;
pub mod verify;
pub mod watch;
