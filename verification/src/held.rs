//! Which key usages are currently held, so that duplicate edges are dropped.
//!
//! The board can be attached over USB and BLE at the same time; it normally
//! sends to one endpoint, but a transport handoff can briefly double-report.
//! An edge is drawn only if it changes the set of held usages.

use std::collections::HashSet;

use vstd::prelude::*;

use crate::hid::KeyEvent;

verus! {

broadcast use vstd::std_specs::hash::group_hash_axioms;

/// The held usages after one key edge.
pub open spec fn held_after(held: Set<u32>, event: KeyEvent) -> Set<u32> {
    if event.down {
        held.insert(event.usage)
    } else {
        held.remove(event.usage)
    }
}

/// An edge is new, and must be drawn, when it changes what is held: a press
/// of a key that is up, or a release of a key that is down.
pub open spec fn is_new_edge(held: Set<u32>, event: KeyEvent) -> bool {
    if event.down {
        !held.contains(event.usage)
    } else {
        held.contains(event.usage)
    }
}

/// The held usages after a run of edges, starting from `held`.
pub open spec fn replay(held: Set<u32>, events: Seq<KeyEvent>) -> Set<u32>
    decreases events.len(),
{
    if events.len() == 0 {
        held
    } else {
        held_after(replay(held, events.drop_last()), events.last())
    }
}

/// The edges of a run that are drawn, in order, starting from `held`.
pub open spec fn drawn(held: Set<u32>, events: Seq<KeyEvent>) -> Seq<KeyEvent>
    decreases events.len(),
{
    if events.len() == 0 {
        Seq::empty()
    } else {
        let before = drawn(held, events.drop_last());
        if is_new_edge(replay(held, events.drop_last()), events.last()) {
            before.push(events.last())
        } else {
            before
        }
    }
}

/// The edges of `events` that concern the key `usage`.
pub open spec fn edges_of(events: Seq<KeyEvent>, usage: u32) -> Seq<KeyEvent> {
    events.filter(|e: KeyEvent| e.usage == usage)
}

/// The set of usages currently held down.
pub struct HeldKeys {
    held: HashSet<u32>,
}

impl View for HeldKeys {
    type V = Set<u32>;

    closed spec fn view(&self) -> Set<u32> {
        self.held@
    }
}

impl HeldKeys {
    /// Nothing held.
    pub fn new() -> (keys: Self)
        ensures
            keys@ == Set::<u32>::empty(),
    {
        HeldKeys { held: HashSet::new() }
    }

    /// Whether `usage` is currently held.
    pub fn is_held(&self, usage: u32) -> (held: bool)
        ensures
            held == self@.contains(usage),
    {
        self.held.contains(&usage)
    }

    /// Records one key edge and says whether it must be drawn: `true` for a
    /// press of a key that was up or a release of a key that was down,
    /// `false` for a duplicate edge, which leaves the set as it was.
    pub fn apply(&mut self, event: KeyEvent) -> (changed: bool)
        ensures
            changed == is_new_edge(old(self)@, event),
            final(self)@ == held_after(old(self)@, event),
    {
        if event.down {
            self.held.insert(event.usage)
        } else {
            self.held.remove(&event.usage)
        }
    }
}

/// An edge is drawn exactly when it changes the set of held usages.
pub proof fn lemma_drawn_iff_changed(held: Set<u32>, event: KeyEvent)
    ensures
        is_new_edge(held, event) <==> held_after(held, event) != held,
{
    if is_new_edge(held, event) {
        if event.down {
            assert(held_after(held, event).contains(event.usage));
        } else {
            assert(!held_after(held, event).contains(event.usage));
        }
    } else {
        assert(held_after(held, event) =~= held);
    }
}

/// A repeated edge is never drawn twice: right after any edge, the same edge
/// again is a duplicate.
pub proof fn lemma_repeat_suppressed(held: Set<u32>, event: KeyEvent)
    ensures
        !is_new_edge(held_after(held, event), event),
        held_after(held_after(held, event), event) == held_after(held, event),
{
    assert(held_after(held_after(held, event), event) =~= held_after(held, event));
}

/// Pressing a key that is up and then releasing it draws both edges and
/// leaves the held set as it was.
pub proof fn lemma_press_release_restores(held: Set<u32>, usage: u32)
    requires
        !held.contains(usage),
    ensures
        is_new_edge(held, KeyEvent { usage, down: true }),
        is_new_edge(held_after(held, KeyEvent { usage, down: true }), KeyEvent { usage, down: false }),
        held_after(held_after(held, KeyEvent { usage, down: true }), KeyEvent { usage, down: false })
            == held,
{
    assert(held_after(held_after(held, KeyEvent { usage, down: true }), KeyEvent { usage, down: false })
        =~= held);
}

/// For every key, the drawn edges alternate: press, release, press, ...,
/// starting with a press if the key was up (a release if it was down), and
/// the key is held at the end exactly when the alternation ends on its
/// opposite. So a key held down is never drawn as pressed twice in a row.
pub proof fn lemma_drawn_edges_alternate(held: Set<u32>, events: Seq<KeyEvent>, usage: u32)
    ensures
        forall|k: int|
            0 <= k < edges_of(drawn(held, events), usage).len() ==> (#[trigger] edges_of(
                drawn(held, events),
                usage,
            )[k]).down == ((k % 2 == 0) == !held.contains(usage)),
        replay(held, events).contains(usage) == ((edges_of(drawn(held, events), usage).len() % 2
            == 1) != held.contains(usage)),
    decreases events.len(),
{
    broadcast use Seq::lemma_filter_push;

    if events.len() > 0 {
        let prefix = events.drop_last();
        let e = events.last();
        lemma_drawn_edges_alternate(held, prefix, usage);
        let d = drawn(held, prefix);
        let pred = |x: KeyEvent| x.usage == usage;
        let h = replay(held, prefix);
        if is_new_edge(h, e) {
            assert(drawn(held, events) == d.push(e));
            assert(d.push(e).filter(pred) == if pred(e) {
                d.filter(pred).push(e)
            } else {
                d.filter(pred)
            });
        } else {
            assert(drawn(held, events) == d);
        }
    }
}

} // verus!
