use kinesis_360_mirror::hid::macos::{access_from_check, capture_precheck, key_event_from_value};
use kinesis_360_mirror::hid::unsupported::{check_access, request_access, spawn};
use kinesis_360_mirror::hid::{linux, Access, KeyEvent, USAGE_PAGE_KEYBOARD};

#[test]
fn macos_access_codes() {
    assert_eq!(access_from_check(0), Access::Granted);
    assert_eq!(access_from_check(1), Access::Denied);
    assert_eq!(access_from_check(2), Access::Unknown);
    assert_eq!(access_from_check(u32::MAX), Access::Unknown);
}

#[test]
fn macos_value_changes() {
    assert_eq!(
        key_event_from_value(USAGE_PAGE_KEYBOARD, 0x04, 1),
        Some(KeyEvent { usage: 0x04, down: true })
    );
    assert_eq!(
        key_event_from_value(0x07, 0xE1, 0),
        Some(KeyEvent { usage: 0xE1, down: false })
    );
    assert_eq!(
        key_event_from_value(0x07, 0x2C, -3),
        Some(KeyEvent { usage: 0x2C, down: true })
    );
    // Rollover/error sentinels.
    assert_eq!(key_event_from_value(0x07, 0, 1), None);
    assert_eq!(key_event_from_value(0x07, 3, 1), None);
    // Consumer page, LEDs.
    assert_eq!(key_event_from_value(0x0C, 0xE9, 1), None);
    assert_eq!(key_event_from_value(0x08, 0x01, 1), None);
}

#[test]
fn macos_capture_refused_only_when_denied() {
    assert_eq!(
        capture_precheck(Access::Denied),
        Err("Input Monitoring permission denied".to_string())
    );
    assert_eq!(capture_precheck(Access::Granted), Ok(()));
    assert_eq!(capture_precheck(Access::Unknown), Ok(()));
}

#[test]
fn platforms_report_same_event_shape() {
    for code in 0..=200u16 {
        for value in [0, 1] {
            if let Some(event) = linux::key_event_from_input(linux::EV_KEY, code, value) {
                assert_eq!(
                    key_event_from_value(USAGE_PAGE_KEYBOARD, event.usage, value as isize),
                    Some(event)
                );
            }
        }
    }
}

#[test]
fn unsupported_platform() {
    assert_eq!(check_access(), Access::Denied);
    assert!(!request_access());
    assert_eq!(
        spawn(|_event: KeyEvent| {}),
        Err("HID capture is only implemented for macOS and Linux".to_string())
    );
}
