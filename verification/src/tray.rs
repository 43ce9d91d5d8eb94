//! The tray menu: its actions, its item texts, and which action a clicked
//! item stands for.

use vstd::prelude::*;

verus! {

/// An action chosen from the tray menu.
#[derive(Debug, Clone, Copy, PartialEq, Eq, Structural)]
pub enum TrayAction {
    OpenGui,
    ToggleBubble,
    ToggleSound(bool),
    TestSound,
    ScaleUp,
    ScaleDown,
    ScaleReset,
    Quit,
}

/// The number of menu items that carry an action, in menu order: open GUI,
/// toggle bubble, sound, test sound, scale up, scale down, scale reset, quit.
pub const MENU_ITEM_COUNT: usize = 8;

/// The action of the `index`-th item that carries one, in menu order. The
/// sound item stands for toggling the sound; its new value is decided by the
/// caller, so it carries `true`.
pub open spec fn action_for_item_spec(index: usize) -> Option<TrayAction> {
    if index == 0 {
        Some(TrayAction::OpenGui)
    } else if index == 1 {
        Some(TrayAction::ToggleBubble)
    } else if index == 2 {
        Some(TrayAction::ToggleSound(true))
    } else if index == 3 {
        Some(TrayAction::TestSound)
    } else if index == 4 {
        Some(TrayAction::ScaleUp)
    } else if index == 5 {
        Some(TrayAction::ScaleDown)
    } else if index == 6 {
        Some(TrayAction::ScaleReset)
    } else if index == 7 {
        Some(TrayAction::Quit)
    } else {
        None
    }
}

/// The action of the clicked menu item, given its position among the items
/// that carry one; `None` for any other item.
pub fn action_for_item(index: usize) -> (r: Option<TrayAction>)
    ensures
        r == action_for_item_spec(index),
{
    if index == 0 {
        Some(TrayAction::OpenGui)
    } else if index == 1 {
        Some(TrayAction::ToggleBubble)
    } else if index == 2 {
        Some(TrayAction::ToggleSound(true))
    } else if index == 3 {
        Some(TrayAction::TestSound)
    } else if index == 4 {
        Some(TrayAction::ScaleUp)
    } else if index == 5 {
        Some(TrayAction::ScaleDown)
    } else if index == 6 {
        Some(TrayAction::ScaleReset)
    } else if index == 7 {
        Some(TrayAction::Quit)
    } else {
        None
    }
}

/// The text of the bubble item: what clicking it will do.
pub fn bubble_item_label(bubble_visible: bool) -> (r: &'static str)
    ensures
        r@ == (if bubble_visible {
            "隐藏气泡"@
        } else {
            "显示气泡"@
        }),
{
    if bubble_visible {
        "隐藏气泡"
    } else {
        "显示气泡"
    }
}

/// The text of the sound item, checked when the sound is on.
pub fn sound_item_label(sound_on: bool) -> (r: &'static str)
    ensures
        r@ == (if sound_on {
            "✓ 状态提示音"@
        } else {
            "  状态提示音"@
        }),
{
    if sound_on {
        "✓ 状态提示音"
    } else {
        "  状态提示音"
    }
}

/// The items that carry an action are, in menu order: open the GUI, show or
/// hide the bubble, the sound switch, test the sound, enlarge, shrink, reset
/// the size, quit; no other position carries one.
pub proof fn law_items_follow_menu_order(index: usize)
    ensures
        action_for_item_spec(index) == if index < 8 {
            Some(
                seq![
                    TrayAction::OpenGui,
                    TrayAction::ToggleBubble,
                    TrayAction::ToggleSound(true),
                    TrayAction::TestSound,
                    TrayAction::ScaleUp,
                    TrayAction::ScaleDown,
                    TrayAction::ScaleReset,
                    TrayAction::Quit,
                ][index as int],
            )
        } else {
            None
        },
{
}

} // verus!
