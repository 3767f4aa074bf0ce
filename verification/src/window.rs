//! What the application window and its tray icon do with user actions.

use vstd::prelude::*;
use crate::text::{owned, str_eq};

verus! {

/// One entry of the tray menu.
pub enum MenuEntry {
    Item { id: String, label: String },
    Separator,
}

/// A menu entry as plain values: its id and label, or `None` for a separator.
pub open spec fn entry_view(e: MenuEntry) -> Option<(Seq<char>, Seq<char>)> {
    match e {
        MenuEntry::Item { id, label } => Some((id@, label@)),
        MenuEntry::Separator => None,
    }
}

/// The tray menu: show, hide, a separator, quit.
pub open spec fn tray_menu_view() -> Seq<Option<(Seq<char>, Seq<char>)>> {
    seq![
        Some(("show"@, "Show CliDesk"@)),
        Some(("hide"@, "Hide to Tray"@)),
        None,
        Some(("quit"@, "Quit"@)),
    ]
}

/// What to do with the main window.
#[derive(Debug, Clone, Copy, PartialEq, Eq, Structural)]
pub enum WindowAction {
    /// Show the main window and give it the focus.
    ShowAndFocus,
    /// Hide the main window.
    Hide,
    /// Kill every terminal, then end the application.
    Quit,
    /// Nothing.
    Nothing,
}

/// The tray menu entries, in order.
pub fn tray_menu() -> (r: Vec<MenuEntry>)
    ensures
        r@.map_values(|e: MenuEntry| entry_view(e)) == tray_menu_view(),
{
    let mut v: Vec<MenuEntry> = Vec::new();
    v.push(MenuEntry::Item { id: owned("show"), label: owned("Show CliDesk") });
    v.push(MenuEntry::Item { id: owned("hide"), label: owned("Hide to Tray") });
    v.push(MenuEntry::Separator);
    v.push(MenuEntry::Item { id: owned("quit"), label: owned("Quit") });
    assert(v@.map_values(|e: MenuEntry| entry_view(e)) =~= tray_menu_view());
    v
}

/// The action of a tray menu entry, by id; an unknown id does nothing.
pub fn tray_menu_action(id: &str) -> (r: WindowAction)
    ensures
        r == if id@ == "show"@ {
            WindowAction::ShowAndFocus
        } else if id@ == "hide"@ {
            WindowAction::Hide
        } else if id@ == "quit"@ {
            WindowAction::Quit
        } else {
            WindowAction::Nothing
        },
{
    if str_eq(id, "show") {
        WindowAction::ShowAndFocus
    } else if str_eq(id, "hide") {
        WindowAction::Hide
    } else if str_eq(id, "quit") {
        WindowAction::Quit
    } else {
        WindowAction::Nothing
    }
}

/// The action of a click on the tray icon: a double click brings the
/// window back; other clicks do nothing.
pub fn tray_icon_action(double_click: bool) -> (r: WindowAction)
    ensures
        r == if double_click {
            WindowAction::ShowAndFocus
        } else {
            WindowAction::Nothing
        },
{
    if double_click {
        WindowAction::ShowAndFocus
    } else {
        WindowAction::Nothing
    }
}

/// The label of the window the actions apply to.
pub fn main_window_label() -> (r: &'static str)
    ensures
        r@ == "main"@,
{
    "main"
}

/// The event sent to the interface when the user asks to close the window;
/// the window itself stays open until the interface decides.
pub fn close_requested_event() -> (r: &'static str)
    ensures
        r@ == "app://close-requested"@,
{
    "app://close-requested"
}

/// What answers the user's request to close the window.
pub struct CloseResponse {
    /// Whether the default close is prevented (the window stays open).
    pub prevent_close: bool,
    /// The event sent to the interface, which asks the user what to do.
    pub event: String,
}

/// The answer to a close request: the default close is always prevented,
/// and the interface is sent `close_requested_event`.
pub fn close_request_response() -> (r: CloseResponse)
    ensures
        r.prevent_close,
        r.event@ == "app://close-requested"@,
{
    let event = owned(close_requested_event());
    CloseResponse { prevent_close: true, event }
}

} // verus!
