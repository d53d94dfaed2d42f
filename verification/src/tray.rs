//! The tray menu.

use vstd::prelude::*;
use vstd::string::*;

use crate::text::same_text;

verus! {

/// The label of the menu entry that pauses or resumes polling.
pub open spec fn pause_text(is_paused: bool) -> Seq<char> {
    if is_paused {
        "Resume"@
    } else {
        "Pause"@
    }
}

/// The label of the menu entry that pauses or resumes polling.
pub fn pause_label(is_paused: bool) -> (label: &'static str)
    ensures
        label@ == pause_text(is_paused),
{
    if is_paused {
        "Resume"
    } else {
        "Pause"
    }
}

/// What the user wants.
#[derive(Clone, Copy, PartialEq, Eq, Structural, Debug)]
pub enum MenuAction {
    /// Leave the program.
    Quit,
    /// Pause polling, or resume it.
    TogglePause,
}

/// What a menu entry stands for.
pub open spec fn action_of(id: Seq<char>) -> Option<MenuAction> {
    if id == "pause"@ {
        Some(MenuAction::TogglePause)
    } else if id == "quit"@ {
        Some(MenuAction::Quit)
    } else {
        None
    }
}

/// What a menu entry stands for.
pub fn menu_action(id: &str) -> (action: Option<MenuAction>)
    ensures
        action == action_of(id@),
{
    if same_text(id, "pause") {
        Some(MenuAction::TogglePause)
    } else if same_text(id, "quit") {
        Some(MenuAction::Quit)
    } else {
        None
    }
}

/// The entry that pauses says `Resume` while polling is paused and `Pause` while it is not, and
/// choosing it toggles; the other one quits. No other entry does anything.
pub proof fn law_menu(is_paused: bool, label: &'static str, id: &str, action: Option<MenuAction>)
    requires
        call_ensures(pause_label, (is_paused,), label),
        call_ensures(menu_action, (id,), action),
    ensures
        is_paused ==> label@ == "Resume"@,
        !is_paused ==> label@ == "Pause"@,
        action == Some(MenuAction::TogglePause) <==> id@ == "pause"@,
        action == Some(MenuAction::Quit) <==> id@ == "quit"@,
        id@ != "pause"@ && id@ != "quit"@ ==> action is None,
{
    reveal_strlit("pause");
    reveal_strlit("quit");
    assert("pause"@[0] != "quit"@[0]);
}

} // verus!
