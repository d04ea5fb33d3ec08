//! Core logic of the Only Climb launcher, with contracts checked by Verus:
//! the license file format, the device fingerprint, version comparison and
//! update decisions, the sealed game binary, the license server's answer and
//! the launcher's state machine.

pub mod text;
pub mod json;
pub mod crypto;
pub mod paths;
pub mod license;
pub mod fingerprint;
pub mod protect;
pub mod api;
pub mod updater;
pub mod display;
pub mod launcher;
