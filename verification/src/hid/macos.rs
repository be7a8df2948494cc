//! macOS capture via IOHIDManager: the decisions, on plain values.
//!
//! The callback of `IOHIDManagerRegisterInputValueCallback` hands over
//! per-element value changes on a device that is never exclusively owned,
//! so the keyboard keeps working normally while it is watched.

use vstd::prelude::*;

use super::{Access, KeyEvent, USAGE_PAGE_KEYBOARD};

verus! {

/// `kIOHIDAccessTypeGranted`, as `IOHIDCheckAccess` reports it.
pub const IOHID_ACCESS_GRANTED: u32 = 0;

/// `kIOHIDAccessTypeDenied`, as `IOHIDCheckAccess` reports it.
pub const IOHID_ACCESS_DENIED: u32 = 1;

/// The access state that an `IOHIDCheckAccess` answer stands for; any other
/// answer means the user was never asked.
pub open spec fn access_of_check(code: u32) -> Access {
    if code == IOHID_ACCESS_GRANTED {
        Access::Granted
    } else if code == IOHID_ACCESS_DENIED {
        Access::Denied
    } else {
        Access::Unknown
    }
}

/// Reads the answer of `IOHIDCheckAccess(kIOHIDRequestTypeListenEvent)`.
pub fn access_from_check(code: u32) -> (access: Access)
    ensures
        access == access_of_check(code),
{
    if code == IOHID_ACCESS_GRANTED {
        Access::Granted
    } else if code == IOHID_ACCESS_DENIED {
        Access::Denied
    } else {
        Access::Unknown
    }
}

/// The key edge, if any, that one HID element value change stands for:
/// only the keyboard page counts, usages 0..=3 are the error/rollover
/// sentinels and never real keys, and any nonzero value means pressed.
pub open spec fn macos_key_event(usage_page: u32, usage: u32, value: isize) -> Option<KeyEvent> {
    if usage_page != USAGE_PAGE_KEYBOARD || usage <= 3 {
        None
    } else {
        Some(KeyEvent { usage, down: value != 0 })
    }
}

/// Turns one element value change (usage page, usage, integer value) into
/// the key edge to report.
pub fn key_event_from_value(usage_page: u32, usage: u32, value: isize) -> (event: Option<KeyEvent>)
    ensures
        event == macos_key_event(usage_page, usage, value),
{
    if usage_page != USAGE_PAGE_KEYBOARD {
        return None;
    }
    if usage <= 3 {
        return None;
    }
    Some(KeyEvent { usage, down: value != 0 })
}

/// Whether capture may be started: refused only when Input Monitoring was
/// explicitly denied (when it was never asked, opening the manager triggers
/// the prompt).
pub fn capture_precheck(access: Access) -> (started: Result<(), String>)
    ensures
        started is Err <==> access == Access::Denied,
        started matches Err(message) ==> message@ == "Input Monitoring permission denied"@,
{
    match access {
        Access::Denied => Err(String::from_str("Input Monitoring permission denied")),
        _ => Ok(()),
    }
}

} // verus!
