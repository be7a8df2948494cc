//! Linux capture via evdev: the decisions, on plain values.
//!
//! Reading `/dev/input/event*` sits below the compositor, so this works the
//! same on X11 and Wayland. evdev normalizes to its own keycode space, so
//! codes are translated back to raw HID usages to give the frontend one
//! event shape on every platform.

use vstd::prelude::*;

use super::{kinesis_ids, spec_kinesis_ids, Access, KeyEvent};
use super::node_path::{path_components, PathKey};
use crate::text::{chars_of, contains_infix, has_infix};

verus! {

/// The Linux input-event code to HID keyboard-page usage table, one arm per
/// key the board can send.
pub open spec fn linux_key_usage(code: u16) -> Option<u32> {
    match code {
        1 => Some(0x29u32),
        2 => Some(0x1Eu32),
        3 => Some(0x1Fu32),
        4 => Some(0x20u32),
        5 => Some(0x21u32),
        6 => Some(0x22u32),
        7 => Some(0x23u32),
        8 => Some(0x24u32),
        9 => Some(0x25u32),
        10 => Some(0x26u32),
        11 => Some(0x27u32),
        12 => Some(0x2Du32),
        13 => Some(0x2Eu32),
        14 => Some(0x2Au32),
        15 => Some(0x2Bu32),
        16 => Some(0x14u32),
        17 => Some(0x1Au32),
        18 => Some(0x08u32),
        19 => Some(0x15u32),
        20 => Some(0x17u32),
        21 => Some(0x1Cu32),
        22 => Some(0x18u32),
        23 => Some(0x0Cu32),
        24 => Some(0x12u32),
        25 => Some(0x13u32),
        26 => Some(0x2Fu32),
        27 => Some(0x30u32),
        28 => Some(0x28u32),
        29 => Some(0xE0u32),
        30 => Some(0x04u32),
        31 => Some(0x16u32),
        32 => Some(0x07u32),
        33 => Some(0x09u32),
        34 => Some(0x0Au32),
        35 => Some(0x0Bu32),
        36 => Some(0x0Du32),
        37 => Some(0x0Eu32),
        38 => Some(0x0Fu32),
        39 => Some(0x33u32),
        40 => Some(0x34u32),
        41 => Some(0x35u32),
        42 => Some(0xE1u32),
        43 => Some(0x31u32),
        44 => Some(0x1Du32),
        45 => Some(0x1Bu32),
        46 => Some(0x06u32),
        47 => Some(0x19u32),
        48 => Some(0x05u32),
        49 => Some(0x11u32),
        50 => Some(0x10u32),
        51 => Some(0x36u32),
        52 => Some(0x37u32),
        53 => Some(0x38u32),
        54 => Some(0xE5u32),
        55 => Some(0x55u32),
        56 => Some(0xE2u32),
        57 => Some(0x2Cu32),
        58 => Some(0x39u32),
        59 => Some(0x3Au32),
        60 => Some(0x3Bu32),
        61 => Some(0x3Cu32),
        62 => Some(0x3Du32),
        63 => Some(0x3Eu32),
        64 => Some(0x3Fu32),
        65 => Some(0x40u32),
        66 => Some(0x41u32),
        67 => Some(0x42u32),
        68 => Some(0x43u32),
        69 => Some(0x53u32),
        70 => Some(0x47u32),
        71 => Some(0x5Fu32),
        72 => Some(0x60u32),
        73 => Some(0x61u32),
        74 => Some(0x56u32),
        75 => Some(0x5Cu32),
        76 => Some(0x5Du32),
        77 => Some(0x5Eu32),
        78 => Some(0x57u32),
        79 => Some(0x59u32),
        80 => Some(0x5Au32),
        81 => Some(0x5Bu32),
        82 => Some(0x62u32),
        83 => Some(0x63u32),
        87 => Some(0x44u32),
        88 => Some(0x45u32),
        96 => Some(0x58u32),
        97 => Some(0xE4u32),
        98 => Some(0x54u32),
        99 => Some(0x46u32),
        100 => Some(0xE6u32),
        102 => Some(0x4Au32),
        103 => Some(0x52u32),
        104 => Some(0x4Bu32),
        105 => Some(0x50u32),
        106 => Some(0x4Fu32),
        107 => Some(0x4Du32),
        108 => Some(0x51u32),
        109 => Some(0x4Eu32),
        110 => Some(0x49u32),
        111 => Some(0x4Cu32),
        117 => Some(0x67u32),
        119 => Some(0x48u32),
        125 => Some(0xE3u32),
        126 => Some(0xE7u32),
        _ => None,
    }
}

/// The same table read backwards: the Linux code that a usage comes from.
pub open spec fn linux_code_of_usage(usage: u32) -> Option<u16> {
    match usage {
        0x29 => Some(1u16),
        0x1E => Some(2u16),
        0x1F => Some(3u16),
        0x20 => Some(4u16),
        0x21 => Some(5u16),
        0x22 => Some(6u16),
        0x23 => Some(7u16),
        0x24 => Some(8u16),
        0x25 => Some(9u16),
        0x26 => Some(10u16),
        0x27 => Some(11u16),
        0x2D => Some(12u16),
        0x2E => Some(13u16),
        0x2A => Some(14u16),
        0x2B => Some(15u16),
        0x14 => Some(16u16),
        0x1A => Some(17u16),
        0x08 => Some(18u16),
        0x15 => Some(19u16),
        0x17 => Some(20u16),
        0x1C => Some(21u16),
        0x18 => Some(22u16),
        0x0C => Some(23u16),
        0x12 => Some(24u16),
        0x13 => Some(25u16),
        0x2F => Some(26u16),
        0x30 => Some(27u16),
        0x28 => Some(28u16),
        0xE0 => Some(29u16),
        0x04 => Some(30u16),
        0x16 => Some(31u16),
        0x07 => Some(32u16),
        0x09 => Some(33u16),
        0x0A => Some(34u16),
        0x0B => Some(35u16),
        0x0D => Some(36u16),
        0x0E => Some(37u16),
        0x0F => Some(38u16),
        0x33 => Some(39u16),
        0x34 => Some(40u16),
        0x35 => Some(41u16),
        0xE1 => Some(42u16),
        0x31 => Some(43u16),
        0x1D => Some(44u16),
        0x1B => Some(45u16),
        0x06 => Some(46u16),
        0x19 => Some(47u16),
        0x05 => Some(48u16),
        0x11 => Some(49u16),
        0x10 => Some(50u16),
        0x36 => Some(51u16),
        0x37 => Some(52u16),
        0x38 => Some(53u16),
        0xE5 => Some(54u16),
        0x55 => Some(55u16),
        0xE2 => Some(56u16),
        0x2C => Some(57u16),
        0x39 => Some(58u16),
        0x3A => Some(59u16),
        0x3B => Some(60u16),
        0x3C => Some(61u16),
        0x3D => Some(62u16),
        0x3E => Some(63u16),
        0x3F => Some(64u16),
        0x40 => Some(65u16),
        0x41 => Some(66u16),
        0x42 => Some(67u16),
        0x43 => Some(68u16),
        0x53 => Some(69u16),
        0x47 => Some(70u16),
        0x5F => Some(71u16),
        0x60 => Some(72u16),
        0x61 => Some(73u16),
        0x56 => Some(74u16),
        0x5C => Some(75u16),
        0x5D => Some(76u16),
        0x5E => Some(77u16),
        0x57 => Some(78u16),
        0x59 => Some(79u16),
        0x5A => Some(80u16),
        0x5B => Some(81u16),
        0x62 => Some(82u16),
        0x63 => Some(83u16),
        0x44 => Some(87u16),
        0x45 => Some(88u16),
        0x58 => Some(96u16),
        0xE4 => Some(97u16),
        0x54 => Some(98u16),
        0x46 => Some(99u16),
        0xE6 => Some(100u16),
        0x4A => Some(102u16),
        0x52 => Some(103u16),
        0x4B => Some(104u16),
        0x50 => Some(105u16),
        0x4F => Some(106u16),
        0x4D => Some(107u16),
        0x51 => Some(108u16),
        0x4E => Some(109u16),
        0x49 => Some(110u16),
        0x4C => Some(111u16),
        0x67 => Some(117u16),
        0x48 => Some(119u16),
        0xE3 => Some(125u16),
        0xE7 => Some(126u16),
        _ => None,
    }
}

/// Translates a Linux input-event key code to its HID keyboard usage, or
/// `None` for a key outside the table.
pub fn to_hid(code: u16) -> (usage: Option<u32>)
    ensures
        usage == linux_key_usage(code),
{
    let table: [(u16, u32); 104] = [
        (1, 0x29), (2, 0x1E), (3, 0x1F), (4, 0x20), (5, 0x21), (6, 0x22), (7, 0x23), (8, 0x24),
        (9, 0x25), (10, 0x26), (11, 0x27), (12, 0x2D), (13, 0x2E), (14, 0x2A), (15, 0x2B),
        (16, 0x14), (17, 0x1A), (18, 0x08), (19, 0x15), (20, 0x17), (21, 0x1C), (22, 0x18),
        (23, 0x0C), (24, 0x12), (25, 0x13), (26, 0x2F), (27, 0x30), (28, 0x28), (29, 0xE0),
        (30, 0x04), (31, 0x16), (32, 0x07), (33, 0x09), (34, 0x0A), (35, 0x0B), (36, 0x0D),
        (37, 0x0E), (38, 0x0F), (39, 0x33), (40, 0x34), (41, 0x35), (42, 0xE1), (43, 0x31),
        (44, 0x1D), (45, 0x1B), (46, 0x06), (47, 0x19), (48, 0x05), (49, 0x11), (50, 0x10),
        (51, 0x36), (52, 0x37), (53, 0x38), (54, 0xE5), (55, 0x55), (56, 0xE2), (57, 0x2C),
        (58, 0x39), (59, 0x3A), (60, 0x3B), (61, 0x3C), (62, 0x3D), (63, 0x3E), (64, 0x3F),
        (65, 0x40), (66, 0x41), (67, 0x42), (68, 0x43), (69, 0x53), (70, 0x47), (71, 0x5F),
        (72, 0x60), (73, 0x61), (74, 0x56), (75, 0x5C), (76, 0x5D), (77, 0x5E), (78, 0x57),
        (79, 0x59), (80, 0x5A), (81, 0x5B), (82, 0x62), (83, 0x63), (87, 0x44), (88, 0x45),
        (96, 0x58), (97, 0xE4), (98, 0x54), (99, 0x46), (100, 0xE6), (102, 0x4A), (103, 0x52),
        (104, 0x4B), (105, 0x50), (106, 0x4F), (107, 0x4D), (108, 0x51), (109, 0x4E),
        (110, 0x49), (111, 0x4C), (117, 0x67), (119, 0x48), (125, 0xE3), (126, 0xE7),
    ];
    assert(forall|j: int|
        0 <= j < 104 ==> linux_key_usage((#[trigger] table@[j]).0) == Some(table@[j].1));
    let mut i: usize = 0;
    while i < 104
        invariant
            0 <= i <= 104,
            forall|j: int|
                0 <= j < 104 ==> linux_key_usage((#[trigger] table@[j]).0) == Some(table@[j].1),
            forall|j: int| 0 <= j < i ==> (#[trigger] table@[j]).0 != code,
        decreases 104 - i,
    {
        if table[i].0 == code {
            return Some(table[i].1);
        }
        i = i + 1;
    }
    None
}

/// Every usage in the table is a real key of the keyboard page: never one of
/// the error/rollover sentinels 0..=3, and at most 0xE7 (right GUI).
pub proof fn lemma_table_usages_are_keys(code: u16)
    ensures
        linux_key_usage(code) matches Some(usage) ==> 4 <= usage <= 0xE7,
{
}

/// Reading the table backwards gives back the code: each usage comes from
/// exactly one Linux code.
pub proof fn lemma_table_inverse(code: u16)
    ensures
        linux_key_usage(code) matches Some(usage) ==> linux_code_of_usage(usage) == Some(code),
{
}

/// Distinct Linux keys never collapse onto one usage, so the held-key
/// bookkeeping, which works per usage, never confuses two physical keys.
pub proof fn lemma_to_hid_injective(a: u16, b: u16)
    ensures
        linux_key_usage(a) is Some && linux_key_usage(a) == linux_key_usage(b) ==> a == b,
{
    lemma_table_inverse(a);
    lemma_table_inverse(b);
}

/// The evdev event type of key events (`EV_KEY`).
pub const EV_KEY: u16 = 0x01;

/// What evdev's `InputEvent::kind` says of an event: a key with its code
/// exactly when the event type is `EV_KEY`.
pub open spec fn evdev_key_code(event_type: u16, code: u16) -> Option<u16> {
    if event_type == EV_KEY {
        Some(code)
    } else {
        None
    }
}

/// Builds an evdev `InputEvent` from its raw fields and asks
/// `InputEvent::kind` whether it is a key event. The contract claims what
/// evdev's source does: `kind` maps the event type `EventType::KEY` (0x01)
/// to `InputEventKind::Key(Key::new(code))`, and `Key::code` gives the code
/// back; every other type is some other kind.
#[verifier::external_body]
fn key_code_of(event_type: u16, code: u16, value: i32) -> (key: Option<u16>)
    ensures
        key == evdev_key_code(event_type, code),
{
    match evdev::InputEvent::new(evdev::EventType(event_type), code, value).kind() {
        evdev::InputEventKind::Key(key) => Some(key.code()),
        _ => None,
    }
}

/// The key edge, if any, that one raw evdev event stands for: key events
/// only; value 0 is a release, 1 a press, and 2 (autorepeat) is not a new
/// press; keys outside the table are dropped.
pub open spec fn linux_key_event(event_type: u16, code: u16, value: i32) -> Option<KeyEvent> {
    match evdev_key_code(event_type, code) {
        None => None,
        Some(key) => if value != 0 && value != 1 {
            None
        } else {
            match linux_key_usage(key) {
                None => None,
                Some(usage) => Some(KeyEvent { usage, down: value == 1 }),
            }
        },
    }
}

/// Turns one raw evdev event (type, code, value) into the key edge to
/// report, or `None` for anything that is not a press or release of a key in
/// the table.
pub fn key_event_from_input(event_type: u16, code: u16, value: i32) -> (event: Option<KeyEvent>)
    ensures
        event == linux_key_event(event_type, code, value),
{
    let key = match key_code_of(event_type, code, value) {
        Some(key) => key,
        None => return None,
    };
    let down = if value == 0 {
        false
    } else if value == 1 {
        true
    } else {
        return None;
    };
    match to_hid(key) {
        Some(usage) => Some(KeyEvent { usage, down }),
        None => None,
    }
}

/// No key press or release in the table is ever dropped: an `EV_KEY` event
/// with value 0 or 1 for a code that the table maps to usage `u` is always
/// reported, as a release (0) or press (1) of `u`. An event is dropped
/// exactly when it is not `EV_KEY`, its value is not 0 or 1 (autorepeat and
/// the like), or its code is outside the table.
pub proof fn lemma_key_events_dropped_only_outside_table(event_type: u16, code: u16, value: i32)
    ensures
        event_type == 1 && (value == 0 || value == 1) && linux_key_usage(code) is Some
            ==> linux_key_event(event_type, code, value) == Some(
            KeyEvent { usage: linux_key_usage(code)->0, down: value == 1 },
        ),
        linux_key_event(event_type, code, value) is None <==> (event_type != 1 || (value != 0
            && value != 1) || linux_key_usage(code) is None),
{
}

/// Whether a device with this vendor and product ID is the board, on
/// either transport.
pub fn is_kinesis(vendor: u16, product: u16) -> (board: bool)
    ensures
        board == spec_kinesis_ids().contains((vendor, product)),
{
    let ids = kinesis_ids();
    let mut i: usize = 0;
    while i < ids.len()
        invariant
            ids@ == spec_kinesis_ids(),
            0 <= i <= ids.len(),
            forall|j: int| 0 <= j < i ==> ids@[j] != (vendor, product),
        decreases ids.len() - i,
    {
        let (vid, pid) = ids[i];
        if vid == vendor && pid == product {
            assert(ids@[i as int] == (vendor, product));
            return true;
        }
        i = i + 1;
    }
    false
}

/// There is nothing to prompt for on Linux: access is a udev or group
/// matter fixed out of band, so "requesting" it reports whether the scan of
/// the device nodes found it granted.
pub fn request_access(access: Access) -> (granted: bool)
    ensures
        granted == (access == Access::Granted),
{
    match access {
        Access::Granted => true,
        _ => false,
    }
}

/// Whether a directory entry under `/dev/input` is an event node, judged by
/// its path: it holds the word "event".
pub open spec fn is_event_path(path: Seq<char>) -> bool {
    has_infix(path, "event"@)
}

/// Whether `path` names an event node (`/dev/input/event*`).
pub fn is_event_node(path: &str) -> (event: bool)
    ensures
        event == is_event_path(path@),
{
    let text = chars_of(path);
    let word = chars_of("event");
    contains_infix(&text, &word)
}

/// A directory entry is probed exactly when its path holds the letters
/// `e`, `v`, `e`, `n`, `t` one after the other; any other path (`mouse0`,
/// `js0`, `by-id`, ...) is never probed.
pub proof fn lemma_probed_iff_path_says_event(path: Seq<char>)
    ensures
        is_event_path(path) <==> exists|i: int|
            0 <= i && i + 5 <= path.len() && #[trigger] path[i] == 'e' && path[i + 1] == 'v'
                && path[i + 2] == 'e' && path[i + 3] == 'n' && path[i + 4] == 't',
{
    reveal_strlit("event");
    let word = "event"@;
    assert(word.len() == 5);
    if is_event_path(path) {
        let i = choose|i: int| 0 <= i && i + word.len() <= path.len() && #[trigger] path.subrange(i, i + word.len()) == word;
        assert(path.subrange(i, i + 5)[0] == path[i]);
        assert(path.subrange(i, i + 5)[1] == path[i + 1]);
        assert(path.subrange(i, i + 5)[2] == path[i + 2]);
        assert(path.subrange(i, i + 5)[3] == path[i + 3]);
        assert(path.subrange(i, i + 5)[4] == path[i + 4]);
    }
    if exists|i: int|
        0 <= i && i + 5 <= path.len() && #[trigger] path[i] == 'e' && path[i + 1] == 'v'
            && path[i + 2] == 'e' && path[i + 3] == 'n' && path[i + 4] == 't' {
        let i = choose|i: int|
            0 <= i && i + 5 <= path.len() && #[trigger] path[i] == 'e' && path[i + 1] == 'v'
                && path[i + 2] == 'e' && path[i + 3] == 'n' && path[i + 4] == 't';
        assert(path.subrange(i, i + 5) =~= word);
    }
}

/// The verdict of a scan of `/dev/input` that could list the directory:
/// granted if some event node could be opened; otherwise unknown, whether
/// the event nodes are unreadable or there are none at all. (Denied is kept
/// for a `/dev/input` that cannot even be listed.)
pub open spec fn scan_verdict(opened_node: bool) -> Access {
    if opened_node {
        Access::Granted
    } else {
        Access::Unknown
    }
}

/// The permission check on Linux. A device that cannot be opened cannot be
/// seen, so "can any input event node be opened" stands in for it. The
/// caller lists `/dev/input`, asks `should_probe` for each entry, tries to
/// open those it is told to, reports each attempt with `record_open`, stops
/// once that says the scan is decided, and finally asks for the `verdict`.
pub struct AccessScan {
    opened_node: bool,
}

impl AccessScan {
    /// Whether an event node could be opened so far.
    pub closed spec fn opened_node(&self) -> bool {
        self.opened_node
    }

    /// A scan that has seen nothing yet.
    pub fn new() -> (scan: Self)
        ensures
            !scan.opened_node(),
    {
        AccessScan { opened_node: false }
    }

    /// Looks at one directory entry and says whether it must be probed by
    /// opening it: exactly the event nodes are.
    pub fn should_probe(&self, path: &str) -> (probe: bool)
        ensures
            probe == is_event_path(path@),
    {
        is_event_node(path)
    }

    /// Records whether opening a probed node worked, and says whether the
    /// scan is decided (some node opened: access granted).
    pub fn record_open(&mut self, opened: bool) -> (decided: bool)
        ensures
            final(self).opened_node() == (old(self).opened_node() || opened),
            decided == final(self).opened_node(),
    {
        if opened {
            self.opened_node = true;
        }
        self.opened_node
    }

    /// The verdict of the scan so far.
    pub fn verdict(&self) -> (access: Access)
        ensures
            access == scan_verdict(self.opened_node()),
    {
        if self.opened_node {
            Access::Granted
        } else {
            Access::Unknown
        }
    }

    /// The verdict when `/dev/input` cannot even be listed.
    pub fn verdict_unlisted() -> (access: Access)
        ensures
            access == Access::Denied,
    {
        Access::Denied
    }
}

/// Whether some node could be opened after a listing whose entries are given
/// as (is an event node, opening it works), when every event node is probed
/// and only those are.
pub open spec fn scan_opened(entries: Seq<(bool, bool)>) -> bool
    decreases entries.len(),
{
    if entries.len() == 0 {
        false
    } else {
        let (event, opens) = entries.last();
        scan_opened(entries.drop_last()) || (event && opens)
    }
}

/// Over a whole listing, the scan says granted exactly when some event node
/// opens, and unknown otherwise (no event node, or none readable). Whether a
/// non-event entry could be opened never matters, and the scan never says
/// denied.
pub proof fn lemma_scan_verdict(entries: Seq<(bool, bool)>)
    ensures
        (scan_verdict(scan_opened(entries)) == Access::Granted) == (exists|i: int|
            0 <= i < entries.len() && (#[trigger] entries[i]).0 && entries[i].1),
        (scan_verdict(scan_opened(entries)) == Access::Unknown) == (forall|i: int|
            0 <= i < entries.len() ==> !((#[trigger] entries[i]).0 && entries[i].1)),
        scan_verdict(scan_opened(entries)) != Access::Denied,
    decreases entries.len(),
{
    if entries.len() > 0 {
        let prefix = entries.drop_last();
        lemma_scan_verdict(prefix);
        assert(forall|i: int| 0 <= i < prefix.len() ==> prefix[i] == entries[i]);
        let last = entries.len() - 1;
        assert(entries[last] == entries.last());
        if exists|i: int| 0 <= i < prefix.len() && (#[trigger] prefix[i]).0 && prefix[i].1 {
            let i = choose|i: int| 0 <= i < prefix.len() && (#[trigger] prefix[i]).0 && prefix[i].1;
            assert(entries[i].0 && entries[i].1);
        }
    }
}

/// A device node as paths compare: its components (see `node_path`).
pub type NodeName = (bool, bool, Seq<Seq<u8>>);

/// The node a path names.
pub open spec fn node_of(path: Seq<u8>) -> NodeName {
    path_components(path)
}

/// The device nodes that currently have a reader, by their path's
/// components. The supervisor rescans for the board every few seconds, so
/// that unplug/replug and USB<->BLE handoff recover on their own; this
/// registry makes sure a node already being read does not get a second
/// reader.
pub struct OpenNodes {
    keys: Vec<PathKey>,
}

impl OpenNodes {
    /// The nodes in the order they were claimed.
    closed spec fn key_seq(&self) -> Seq<NodeName> {
        self.keys@.map_values(|k: PathKey| k@)
    }

    #[verifier::type_invariant]
    closed spec fn no_duplicates(&self) -> bool {
        self.key_seq().no_duplicates()
    }

    /// The set of nodes being read.
    pub closed spec fn nodes(&self) -> Set<NodeName> {
        self.key_seq().to_set()
    }

    /// No node is being read.
    pub fn new() -> (open: Self)
        ensures
            open.nodes() == Set::<NodeName>::empty(),
    {
        let open = OpenNodes { keys: Vec::new() };
        assert(open.key_seq() =~= Seq::<NodeName>::empty());
        assert(open.nodes() =~= Set::<NodeName>::empty());
        open
    }

    /// Where the node `key` stands in the registry, if it is there.
    fn position(&self, key: &PathKey) -> (pos: Option<usize>)
        ensures
            match pos {
                Some(i) => i < self.keys@.len() && self.key_seq()[i as int] == key@,
                None => !self.nodes().contains(key@),
            },
    {
        let mut i: usize = 0;
        while i < self.keys.len()
            invariant
                0 <= i <= self.keys@.len(),
                forall|k: int| 0 <= k < i ==> self.key_seq()[k] != key@,
            decreases self.keys.len() - i,
        {
            if self.keys[i].same(key) {
                return Some(i);
            }
            i = i + 1;
        }
        proof {
            if self.nodes().contains(key@) {
                let k = choose|k: int| 0 <= k < self.key_seq().len() && self.key_seq()[k] == key@;
                assert(self.key_seq()[k] == key@);
            }
        }
        None
    }

    /// Whether the node `path` names is being read.
    pub fn is_open(&self, path: &[u8]) -> (open: bool)
        ensures
            open == self.nodes().contains(node_of(path@)),
    {
        let key = PathKey::of(path);
        match self.position(&key) {
            Some(i) => {
                assert(self.key_seq().contains(key@)) by {
                    assert(self.key_seq()[i as int] == key@);
                }
                true
            },
            None => false,
        }
    }

    /// Claims the node `path` names for a new reader. Says `true` if the
    /// node was free and is now taken, `false` if it already has a reader
    /// (nothing changes), however the path spells it.
    pub fn claim(&mut self, path: &[u8]) -> (claimed: bool)
        ensures
            claimed == !old(self).nodes().contains(node_of(path@)),
            final(self).nodes() == old(self).nodes().insert(node_of(path@)),
    {
        proof {
            use_type_invariant(&*self);
        }
        let key = PathKey::of(path);
        let ghost node = key@;
        if let Some(i) = self.position(&key) {
            assert(self.key_seq()[i as int] == node);
            assert(old(self).nodes().insert(node) =~= old(self).nodes());
            return false;
        }
        let ghost before = self.key_seq();
        let mut keys: Vec<PathKey> = Vec::new();
        std::mem::swap(&mut keys, &mut self.keys);
        keys.push(key);
        let ghost after = keys@.map_values(|k: PathKey| k@);
        assert(after =~= before.push(node));
        assert(after.no_duplicates()) by {
            assert forall|a: int, b: int| 0 <= a < b < after.len() implies after[a] != after[b] by {
                if b == before.len() {
                    assert(before[a] == after[a]);
                    assert(before.contains(before[a]));
                }
            }
        }
        self.keys = keys;
        assert(self.key_seq() =~= before.push(node));
        assert(self.nodes() =~= before.to_set().insert(node)) by {
            assert forall|x: NodeName| before.to_set().insert(node).contains(x) implies #[trigger] self.nodes().contains(x) by {
                if x == node {
                    assert(self.key_seq()[before.len() as int] == x);
                } else {
                    let k = choose|k: int| 0 <= k < before.len() && before[k] == x;
                    assert(self.key_seq()[k] == x);
                }
            }
            assert forall|x: NodeName| self.nodes().contains(x) implies #[trigger] before.to_set().insert(node).contains(x) by {
                if x != node {
                    let k = choose|k: int| 0 <= k < self.key_seq().len() && self.key_seq()[k] == x;
                    assert(k < before.len());
                    assert(before[k] == x);
                }
            }
        }
        true
    }

    /// Gives the node `path` names back when its reader ends (the device
    /// was unplugged), so a later rescan can pick the node up again.
    pub fn release(&mut self, path: &[u8])
        ensures
            final(self).nodes() == old(self).nodes().remove(node_of(path@)),
    {
        proof {
            use_type_invariant(&*self);
        }
        let key = PathKey::of(path);
        let ghost node = key@;
        match self.position(&key) {
            None => {
                assert(old(self).nodes().remove(node) =~= old(self).nodes());
            },
            Some(i) => {
                let ghost before = self.key_seq();
                let mut keys: Vec<PathKey> = Vec::new();
                std::mem::swap(&mut keys, &mut self.keys);
                keys.remove(i);
                let ghost after = keys@.map_values(|k: PathKey| k@);
                assert(after =~= before.remove(i as int));
                assert forall|a: int, b: int| 0 <= a < b < after.len() implies after[a] != after[b] by {
                    let a0 = if a < i { a } else { a + 1 };
                    let b0 = if b < i { b } else { b + 1 };
                    assert(after[a] == before[a0]);
                    assert(after[b] == before[b0]);
                }
                self.keys = keys;
                assert(self.key_seq() =~= after);
                assert(self.nodes() =~= before.to_set().remove(node)) by {
                    assert forall|x: NodeName| before.to_set().remove(node).contains(x) implies #[trigger] self.nodes().contains(x) by {
                        let k = choose|k: int| 0 <= k < before.len() && before[k] == x;
                        assert(k != i);
                        let k2 = if k < i { k } else { k - 1 };
                        assert(self.key_seq()[k2] == x);
                    }
                    assert forall|x: NodeName| self.nodes().contains(x) implies #[trigger] before.to_set().remove(node).contains(x) by {
                        let k = choose|k: int| 0 <= k < self.key_seq().len() && self.key_seq()[k] == x;
                        let k0 = if k < i { k } else { k + 1 };
                        assert(before[k0] == x);
                        assert(k0 != i);
                    }
                }
            },
        }
    }
}

/// Whether a scan starts a reader for the device with these IDs at a node:
/// only for the board, and only if the node has no reader yet.
pub open spec fn starts_reader(open: Set<NodeName>, vendor: u16, product: u16, node: NodeName) -> bool {
    spec_kinesis_ids().contains((vendor, product)) && !open.contains(node)
}

/// The nodes being read after a scan has looked at one listed device.
pub open spec fn open_after_scan(open: Set<NodeName>, vendor: u16, product: u16, node: NodeName) -> Set<
    NodeName,
> {
    if spec_kinesis_ids().contains((vendor, product)) {
        open.insert(node)
    } else {
        open
    }
}

impl OpenNodes {
    /// One step of the supervisor's scan: looks at a listed device with
    /// these vendor/product IDs at node `path`, and says whether a reader
    /// must be started for it. Devices other than the board are never read;
    /// a node that already has a reader gets no second one.
    pub fn start_reader(&mut self, vendor: u16, product: u16, path: &[u8]) -> (start: bool)
        ensures
            start == starts_reader(old(self).nodes(), vendor, product, node_of(path@)),
            final(self).nodes() == open_after_scan(old(self).nodes(), vendor, product, node_of(path@)),
    {
        if !is_kinesis(vendor, product) {
            return false;
        }
        self.claim(path)
    }
}

/// Only the board is ever read: a reader is started only for a device whose
/// vendor/product IDs are the board's, and a scan that looks at any other
/// device changes nothing.
pub proof fn lemma_only_board_is_read(open: Set<NodeName>, vendor: u16, product: u16, node: NodeName)
    ensures
        starts_reader(open, vendor, product, node) ==> (vendor, product) == (0x29EAu16, 0x0362u16)
            || (vendor, product) == (0x1D50u16, 0x615Eu16),
        !spec_kinesis_ids().contains((vendor, product)) ==> open_after_scan(
            open,
            vendor,
            product,
            node,
        ) == open,
{
    if spec_kinesis_ids().contains((vendor, product)) {
        let i = choose|i: int| 0 <= i < spec_kinesis_ids().len() && spec_kinesis_ids()[i] == (vendor, product);
        assert(i == 0 || i == 1);
    }
}

/// The life of a reader: while a node has a reader, later scans start no
/// second one for it; once that reader ends (the device was unplugged) and
/// gives the node back, the next scan that lists the board at that node
/// starts a new reader, and the node has a reader again.
pub proof fn lemma_reader_restarts_after_release(
    open: Set<NodeName>,
    vendor: u16,
    product: u16,
    node: NodeName,
)
    requires
        spec_kinesis_ids().contains((vendor, product)),
    ensures
        !starts_reader(open_after_scan(open, vendor, product, node), vendor, product, node),
        open_after_scan(open_after_scan(open, vendor, product, node), vendor, product, node)
            == open_after_scan(open, vendor, product, node),
        starts_reader(open_after_scan(open, vendor, product, node).remove(node), vendor, product, node),
        open_after_scan(open_after_scan(open, vendor, product, node).remove(node), vendor, product, node).contains(node),
{
    assert(open.insert(node).insert(node) =~= open.insert(node));
}

} // verus!
