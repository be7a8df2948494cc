use kinesis_360_mirror::hid::linux::{
    is_event_node, is_kinesis, key_event_from_input, request_access, to_hid, AccessScan, OpenNodes,
    EV_KEY,
};
use kinesis_360_mirror::hid::{kinesis_ids, Access, KeyEvent};

#[test]
fn to_hid_maps_table_entries() {
    assert_eq!(to_hid(1), Some(0x29)); // ESC
    assert_eq!(to_hid(30), Some(0x04)); // A
    assert_eq!(to_hid(44), Some(0x1D)); // Z
    assert_eq!(to_hid(57), Some(0x2C)); // SPACE
    assert_eq!(to_hid(126), Some(0xE7)); // RMETA, last row
    assert_eq!(to_hid(103), Some(0x52)); // UP
}

#[test]
fn to_hid_rejects_codes_outside_table() {
    assert_eq!(to_hid(0), None);
    assert_eq!(to_hid(84), None);
    assert_eq!(to_hid(127), None);
    assert_eq!(to_hid(u16::MAX), None);
}

#[test]
fn to_hid_is_injective_over_all_codes() {
    let mut seen = std::collections::HashMap::new();
    for code in 0..=u16::MAX {
        if let Some(usage) = to_hid(code) {
            assert!(usage >= 4 && usage <= 0xE7);
            assert!(seen.insert(usage, code).is_none(), "usage {usage:#x} twice");
        }
    }
    assert_eq!(seen.len(), 104);
}

#[test]
fn key_events_from_evdev() {
    assert_eq!(
        key_event_from_input(EV_KEY, 30, 1),
        Some(KeyEvent { usage: 0x04, down: true })
    );
    assert_eq!(
        key_event_from_input(EV_KEY, 30, 0),
        Some(KeyEvent { usage: 0x04, down: false })
    );
    // Autorepeat is not a new press.
    assert_eq!(key_event_from_input(EV_KEY, 30, 2), None);
    // Not a key event (EV_SYN, EV_MSC).
    assert_eq!(key_event_from_input(0, 30, 1), None);
    assert_eq!(key_event_from_input(4, 30, 1), None);
    // A key outside the table.
    assert_eq!(key_event_from_input(EV_KEY, 0x110, 1), None);
    assert_eq!(key_event_from_input(EV_KEY, 29, -1), None);
}

#[test]
fn kinesis_ids_on_both_transports() {
    assert_eq!(kinesis_ids(), vec![(0x29EA, 0x0362), (0x1D50, 0x615E)]);
    assert!(is_kinesis(0x29EA, 0x0362));
    assert!(is_kinesis(0x1D50, 0x615E));
    assert!(!is_kinesis(0x29EA, 0x615E));
    assert!(!is_kinesis(0x046D, 0xC52B));
}

#[test]
fn linux_request_access_reports_grant() {
    assert!(request_access(Access::Granted));
    assert!(!request_access(Access::Denied));
    assert!(!request_access(Access::Unknown));
}

#[test]
fn event_nodes_by_path() {
    assert!(is_event_node("/dev/input/event3"));
    assert!(is_event_node("/dev/input/by-id/usb-Kinesis-event-kbd"));
    assert!(!is_event_node("/dev/input/mice"));
    assert!(!is_event_node("/dev/input/js0"));
    assert!(!is_event_node("/dev/input/even"));
    assert!(!is_event_node(""));
}

#[test]
fn access_scan_granted_at_first_open_node() {
    let mut scan = AccessScan::new();
    assert!(!scan.should_probe("/dev/input/mice"));
    assert!(scan.should_probe("/dev/input/event0"));
    assert!(!scan.record_open(false));
    assert!(scan.should_probe("/dev/input/event1"));
    assert!(scan.record_open(true));
    assert_eq!(scan.verdict(), Access::Granted);
}

#[test]
fn access_scan_unknown_when_no_node_opens() {
    let mut scan = AccessScan::new();
    assert!(scan.should_probe("/dev/input/event0"));
    assert!(!scan.record_open(false));
    assert!(!scan.should_probe("/dev/input/by-path"));
    assert_eq!(scan.verdict(), Access::Unknown);
}

#[test]
fn access_scan_unknown_without_event_nodes() {
    let scan = AccessScan::new();
    assert!(!scan.should_probe("/dev/input/mice"));
    assert_eq!(scan.verdict(), Access::Unknown);
    assert_eq!(AccessScan::verdict_unlisted(), Access::Denied);
}

#[test]
fn readers_start_only_for_the_board_once() {
    let mut open = OpenNodes::new();
    // A different keyboard is never read.
    assert!(!open.start_reader(0x046D, 0xC52B, b"/dev/input/event2"));
    assert!(!open.is_open(b"/dev/input/event2"));
    // The board over USB and over BLE.
    assert!(open.start_reader(0x29EA, 0x0362, b"/dev/input/event5"));
    assert!(open.start_reader(0x1D50, 0x615E, b"/dev/input/event9"));
    // The next scan starts no second reader.
    assert!(!open.start_reader(0x29EA, 0x0362, b"/dev/input/event5"));
    // After unplug the reader gives the node back; the next scan restarts it.
    open.release(b"/dev/input/event5");
    assert!(open.start_reader(0x29EA, 0x0362, b"/dev/input/event5"));
    assert!(open.is_open(b"/dev/input/event9"));
}

#[test]
fn open_nodes_never_double_read() {
    let mut open = OpenNodes::new();
    assert!(!open.is_open(b"/dev/input/event5"));
    assert!(open.claim(b"/dev/input/event5"));
    assert!(open.is_open(b"/dev/input/event5"));
    assert!(!open.claim(b"/dev/input/event5"));
    assert!(open.claim(b"/dev/input/event6"));
    open.release(b"/dev/input/event5");
    assert!(!open.is_open(b"/dev/input/event5"));
    assert!(open.is_open(b"/dev/input/event6"));
    assert!(open.claim(b"/dev/input/event5"));
    open.release(b"/dev/input/event7");
    assert!(open.is_open(b"/dev/input/event6"));
}

#[test]
fn open_nodes_compare_paths_by_components() {
    let mut open = OpenNodes::new();
    assert!(open.claim(b"/dev/input/event7"));
    assert!(!open.claim(b"/dev/input//event7"));
    assert!(!open.claim(b"/dev/input/./event7"));
    assert!(!open.claim(b"/dev/input/event7/"));
    assert!(!open.claim(b"//dev///input/event7//"));
    assert!(open.is_open(b"/dev/./input/event7"));
    // Different nodes stay different.
    assert!(open.claim(b"dev/input/event7"));
    assert!(open.claim(b"./dev/input/event7"));
    assert!(open.claim(b"/dev/input/../input/event7"));
    assert!(open.claim(b"/dev/input/event70"));
    // Releasing under another spelling frees the node.
    open.release(b"/dev//input/event7/.");
    assert!(!open.is_open(b"/dev/input/event7"));
    assert!(open.is_open(b"dev/input/event7"));
}
