//! The tray menu. The red title-bar button hides the window rather than
//! quitting, so the tray is the way back to a hidden window, and the only
//! way to actually quit.

use vstd::prelude::*;

use crate::text::str_eq;

verus! {

/// The entries of the tray menu, top to bottom.
#[derive(Debug, Clone, Copy, PartialEq, Eq, Structural)]
pub enum MenuItem {
    /// Check item: show or hide the mirror window.
    Visible,
    /// Check item: keep the window above others.
    OnTop,
    /// Check item: let clicks pass through the window to what is under it.
    ClickThrough,
    /// Plain item: quit the app.
    Quit,
}

/// What the app does in answer to a tray menu event.
#[derive(Debug, Clone, Copy, PartialEq, Eq, Structural)]
pub enum TrayAction {
    Quit,
    ShowWindow,
    HideWindow,
    SetAlwaysOnTop(bool),
    SetClickThrough(bool),
}

/// The menu ID of each entry.
pub open spec fn menu_id(item: MenuItem) -> Seq<char> {
    match item {
        MenuItem::Visible => "visible"@,
        MenuItem::OnTop => "on_top"@,
        MenuItem::ClickThrough => "click_through"@,
        MenuItem::Quit => "quit"@,
    }
}

/// The entry a menu ID names, if any.
pub open spec fn menu_item_of(id: Seq<char>) -> Option<MenuItem> {
    if id == menu_id(MenuItem::Visible) {
        Some(MenuItem::Visible)
    } else if id == menu_id(MenuItem::OnTop) {
        Some(MenuItem::OnTop)
    } else if id == menu_id(MenuItem::ClickThrough) {
        Some(MenuItem::ClickThrough)
    } else if id == menu_id(MenuItem::Quit) {
        Some(MenuItem::Quit)
    } else {
        None
    }
}

/// The state a check entry starts in: the window starts shown and on top,
/// and interactive (not click-through), so that on first run it can be
/// positioned and the permission gate can be clicked. `None` for a plain
/// entry.
pub open spec fn initially_checked(item: MenuItem) -> Option<bool> {
    match item {
        MenuItem::Visible => Some(true),
        MenuItem::OnTop => Some(true),
        MenuItem::ClickThrough => Some(false),
        MenuItem::Quit => None,
    }
}

/// What a click on an entry does, given the state its check mark has
/// already flipped to (`None` when it cannot be read, which counts as
/// checked).
pub open spec fn action_of(item: MenuItem, checked: Option<bool>) -> TrayAction {
    let on = match checked {
        Some(b) => b,
        None => true,
    };
    match item {
        MenuItem::Quit => TrayAction::Quit,
        MenuItem::Visible => if on {
            TrayAction::ShowWindow
        } else {
            TrayAction::HideWindow
        },
        MenuItem::OnTop => TrayAction::SetAlwaysOnTop(on),
        MenuItem::ClickThrough => TrayAction::SetClickThrough(on),
    }
}

impl MenuItem {
    /// All entries, top to bottom.
    pub fn all() -> (items: Vec<MenuItem>)
        ensures
            items@ == seq![MenuItem::Visible, MenuItem::OnTop, MenuItem::ClickThrough, MenuItem::Quit],
    {
        let mut items: Vec<MenuItem> = Vec::new();
        items.push(MenuItem::Visible);
        items.push(MenuItem::OnTop);
        items.push(MenuItem::ClickThrough);
        items.push(MenuItem::Quit);
        items
    }

    /// The menu ID of this entry.
    pub fn id(&self) -> (id: &'static str)
        ensures
            id@ == menu_id(*self),
    {
        match self {
            MenuItem::Visible => "visible",
            MenuItem::OnTop => "on_top",
            MenuItem::ClickThrough => "click_through",
            MenuItem::Quit => "quit",
        }
    }

    /// The label shown for this entry.
    pub fn label(&self) -> (label: &'static str)
        ensures
            label@ == match *self {
                MenuItem::Visible => "Show window"@,
                MenuItem::OnTop => "Always on top"@,
                MenuItem::ClickThrough => "Click-through"@,
                MenuItem::Quit => "Quit Kinesis 360 Mirror"@,
            },
    {
        match self {
            MenuItem::Visible => "Show window",
            MenuItem::OnTop => "Always on top",
            MenuItem::ClickThrough => "Click-through",
            MenuItem::Quit => "Quit Kinesis 360 Mirror",
        }
    }

    /// The state a check entry starts in, `None` for a plain entry.
    pub fn initially_checked(&self) -> (checked: Option<bool>)
        ensures
            checked == initially_checked(*self),
    {
        match self {
            MenuItem::Visible => Some(true),
            MenuItem::OnTop => Some(true),
            MenuItem::ClickThrough => Some(false),
            MenuItem::Quit => None,
        }
    }
}

/// The entry that a menu event's ID names, or `None` for an ID the menu
/// does not have (such events are ignored).
pub fn menu_item(id: &str) -> (item: Option<MenuItem>)
    ensures
        item == menu_item_of(id@),
{
    if str_eq(id, MenuItem::Visible.id()) {
        Some(MenuItem::Visible)
    } else if str_eq(id, MenuItem::OnTop.id()) {
        Some(MenuItem::OnTop)
    } else if str_eq(id, MenuItem::ClickThrough.id()) {
        Some(MenuItem::ClickThrough)
    } else if str_eq(id, MenuItem::Quit.id()) {
        Some(MenuItem::Quit)
    } else {
        None
    }
}

/// Decides what a click on a tray entry does. The check item has already
/// flipped by the time the event arrives, so its state is the value to
/// apply.
pub fn tray_action(item: MenuItem, checked: Option<bool>) -> (action: TrayAction)
    ensures
        action == action_of(item, checked),
{
    let on = match checked {
        Some(b) => b,
        None => true,
    };
    match item {
        MenuItem::Quit => TrayAction::Quit,
        MenuItem::Visible => if on {
            TrayAction::ShowWindow
        } else {
            TrayAction::HideWindow
        },
        MenuItem::OnTop => TrayAction::SetAlwaysOnTop(on),
        MenuItem::ClickThrough => TrayAction::SetClickThrough(on),
    }
}

/// Each entry is found again by its own ID, so every menu event reaches the
/// entry that raised it.
pub proof fn lemma_menu_ids_round_trip(item: MenuItem)
    ensures
        menu_item_of(menu_id(item)) == Some(item),
{
    reveal_strlit("visible");
    reveal_strlit("on_top");
    reveal_strlit("click_through");
    reveal_strlit("quit");
    assert(menu_id(MenuItem::Visible) != menu_id(MenuItem::OnTop)) by {
        assert(menu_id(MenuItem::Visible).len() != menu_id(MenuItem::OnTop).len());
    }
    assert(menu_id(MenuItem::Visible) != menu_id(MenuItem::ClickThrough)) by {
        assert(menu_id(MenuItem::Visible).len() != menu_id(MenuItem::ClickThrough).len());
    }
    assert(menu_id(MenuItem::Visible) != menu_id(MenuItem::Quit)) by {
        assert(menu_id(MenuItem::Visible).len() != menu_id(MenuItem::Quit).len());
    }
    assert(menu_id(MenuItem::OnTop) != menu_id(MenuItem::ClickThrough)) by {
        assert(menu_id(MenuItem::OnTop).len() != menu_id(MenuItem::ClickThrough).len());
    }
    assert(menu_id(MenuItem::OnTop) != menu_id(MenuItem::Quit)) by {
        assert(menu_id(MenuItem::OnTop).len() != menu_id(MenuItem::Quit).len());
    }
    assert(menu_id(MenuItem::ClickThrough) != menu_id(MenuItem::Quit)) by {
        assert(menu_id(MenuItem::ClickThrough).len() != menu_id(MenuItem::Quit).len());
    }
}

/// Clicking a check entry applies the state its mark flipped to, and
/// clicking it again (mark flipped back) undoes it.
pub proof fn lemma_toggle_undoes(item: MenuItem, checked: bool)
    requires
        item != MenuItem::Quit,
    ensures
        action_of(item, Some(checked)) != action_of(item, Some(!checked)),
        action_of(item, Some(true)) == action_of(item, None),
{
}

/// A click applies the state the entry's check mark flipped to, to the
/// setting that entry names and no other: `Click-through` sets
/// click-through, `Always on top` sets always-on-top, `Show window` shows
/// when checked and hides when unchecked; an unreadable mark counts as
/// checked; `Quit` quits.
pub proof fn lemma_clicks_apply_flipped_state(checked: bool)
    ensures
        action_of(MenuItem::ClickThrough, Some(checked)) == TrayAction::SetClickThrough(checked),
        action_of(MenuItem::OnTop, Some(checked)) == TrayAction::SetAlwaysOnTop(checked),
        action_of(MenuItem::Visible, Some(checked)) == (if checked {
            TrayAction::ShowWindow
        } else {
            TrayAction::HideWindow
        }),
        action_of(MenuItem::ClickThrough, None) == TrayAction::SetClickThrough(true),
        action_of(MenuItem::OnTop, None) == TrayAction::SetAlwaysOnTop(true),
        action_of(MenuItem::Visible, None) == TrayAction::ShowWindow,
        action_of(MenuItem::Quit, None) == TrayAction::Quit,
        action_of(MenuItem::Quit, Some(checked)) == TrayAction::Quit,
{
}

} // verus!
