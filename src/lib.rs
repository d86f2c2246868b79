//! Discovery of human-interface devices and a registry of arrival/removal
//! monitors, with the decisions behind a flat C-compatible surface.

pub mod backend;
pub mod c_abi;
pub mod channel;
pub mod device;
pub mod monitor;
pub mod registry;
pub mod vid_pid;
