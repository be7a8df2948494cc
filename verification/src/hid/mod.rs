//! Passive HID capture for the Kinesis Advantage 360 Pro.
//!
//! Both platforms report the raw HID usage the keyboard sent, not whatever
//! the OS layout turned it into: the board resolves its own layers and
//! remaps onboard, so the usage is the closest thing the host can see to
//! "which physical key moved".

use vstd::prelude::*;

pub mod linux;
pub mod macos;
pub mod node_path;
pub mod unsupported;

verus! {

/// HID usage page 0x07 = Keyboard/Keypad. Everything else (consumer
/// controls, LEDs, system power) is ignored.
pub const USAGE_PAGE_KEYBOARD: u32 = 0x07;

/// Vendor and product ID of the board over USB.
pub const KINESIS_USB_ID: (u16, u16) = (0x29EA, 0x0362);

/// Vendor and product ID of the board over Bluetooth LE (shared ZMK vendor ID).
pub const KINESIS_BLE_ID: (u16, u16) = (0x1D50, 0x615E);

/// One key edge as the frontend sees it.
#[derive(Debug, Clone, Copy, PartialEq, Eq, Structural)]
pub struct KeyEvent {
    /// HID usage ID within the keyboard page, e.g. 0x04 = A.
    pub usage: u32,
    pub down: bool,
}

/// Whether we are allowed to observe input at all.
#[derive(Debug, Clone, Copy, PartialEq, Eq, Structural)]
pub enum Access {
    Granted,
    Denied,
    /// Never asked yet (macOS), or device nodes unreadable (Linux).
    Unknown,
}

/// The IDs the board enumerates under, in the order they are watched. It
/// can be connected over both transports at once, so both are watched.
pub open spec fn spec_kinesis_ids() -> Seq<(u16, u16)> {
    seq![KINESIS_USB_ID, KINESIS_BLE_ID]
}

/// The vendor/product IDs of the board, one entry per transport.
pub fn kinesis_ids() -> (ids: Vec<(u16, u16)>)
    ensures
        ids@ == spec_kinesis_ids(),
{
    let mut ids: Vec<(u16, u16)> = Vec::new();
    ids.push(KINESIS_USB_ID);
    ids.push(KINESIS_BLE_ID);
    ids
}

} // verus!

verus! {

/// Both platforms give the frontend one event shape: any edge the Linux path
/// reports for a key event (values 0 and 1) is exactly the edge the macOS
/// path reports for the same usage on the keyboard page with the same value.
pub proof fn lemma_platforms_agree(event_type: u16, code: u16, value: i32)
    ensures
        linux::linux_key_event(event_type, code, value) matches Some(event) ==> macos::macos_key_event(
            USAGE_PAGE_KEYBOARD,
            event.usage,
            value as isize,
        ) == Some(event),
{
    linux::lemma_table_usages_are_keys(code);
}

} // verus!
