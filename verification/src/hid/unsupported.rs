//! Fallback for platforms without a capture backend.

use vstd::prelude::*;

use super::{Access, KeyEvent};

verus! {

/// Capture is never possible here.
pub fn check_access() -> (access: Access)
    ensures
        access == Access::Denied,
{
    Access::Denied
}

/// There is nothing to request here.
pub fn request_access() -> (granted: bool)
    ensures
        !granted,
{
    false
}

/// Refuses to start capture, with the reason.
pub fn spawn<F: Fn(KeyEvent) + Send + Sync + 'static>(_sink: F) -> (started: Result<(), String>)
    ensures
        started matches Err(message) && message@
            == "HID capture is only implemented for macOS and Linux"@,
{
    Err(String::from_str("HID capture is only implemented for macOS and Linux"))
}

} // verus!
