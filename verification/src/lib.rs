//! Verified core of a live mirror for the Kinesis Advantage 360 Pro: which
//! raw HID key usages to draw, and when.

pub mod held;
pub mod hid;
pub mod text;
pub mod tray;
pub mod ui_log;
