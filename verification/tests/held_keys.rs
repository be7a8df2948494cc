use kinesis_360_mirror::held::HeldKeys;
use kinesis_360_mirror::hid::KeyEvent;

fn press(usage: u32) -> KeyEvent {
    KeyEvent { usage, down: true }
}

fn release(usage: u32) -> KeyEvent {
    KeyEvent { usage, down: false }
}

#[test]
fn duplicate_press_is_not_drawn() {
    let mut held = HeldKeys::new();
    assert!(held.apply(press(0x04)));
    assert!(held.is_held(0x04));
    assert!(!held.apply(press(0x04)));
    assert!(held.is_held(0x04));
}

#[test]
fn duplicate_release_is_not_drawn() {
    let mut held = HeldKeys::new();
    assert!(!held.apply(release(0x04)));
    assert!(held.apply(press(0x04)));
    assert!(held.apply(release(0x04)));
    assert!(!held.apply(release(0x04)));
    assert!(!held.is_held(0x04));
}

#[test]
fn keys_are_tracked_independently() {
    let mut held = HeldKeys::new();
    assert!(held.apply(press(0xE1)));
    assert!(held.apply(press(0x04)));
    assert!(held.apply(release(0xE1)));
    assert!(!held.is_held(0xE1));
    assert!(held.is_held(0x04));
    assert!(!held.apply(press(0x04)));
}

#[test]
fn drawn_edges_alternate_under_double_reporting() {
    // USB and BLE both report the same edges during a handoff.
    let events = [
        press(0x04), press(0x04), press(0x05), release(0x04), release(0x04),
        press(0x04), release(0x05), release(0x05), release(0x04),
    ];
    let mut held = HeldKeys::new();
    let drawn: Vec<KeyEvent> = events.iter().copied().filter(|e| held.apply(*e)).collect();
    assert_eq!(
        drawn,
        vec![press(0x04), press(0x05), release(0x04), press(0x04), release(0x05), release(0x04)]
    );
    assert!(!held.is_held(0x04));
    assert!(!held.is_held(0x05));
}
