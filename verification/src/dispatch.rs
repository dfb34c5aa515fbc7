//! The closed command surface of the tray menu, and the routing table from
//! commands to supervisor and window actions.

use vstd::prelude::*;
use vstd::string::StrSliceExecFns;
use vstd::string::StringSliceAdditionalSpecFns;
use crate::text::bytes_eq;

verus! {

/// A user command from the tray or its menu. `Separator` is the
/// non-interactive marker between menu entries; `Unknown` stands for any
/// identifier outside the closed set.
#[derive(Clone, Copy, PartialEq, Eq, Structural, Debug)]
pub enum Command {
    Show,
    Hide,
    Rescan,
    Quit,
    Separator,
    Unknown,
}

/// What the dispatcher tells the host to do for one command.
#[derive(Clone, Copy, PartialEq, Eq, Structural, Debug)]
pub enum Action {
    /// Show the window, creating it first if needed.
    ShowWindow,
    /// Hide the window.
    HideWindow,
    /// Fire the detached rescan notification.
    FireRescan,
    /// Terminate the supervised child, then exit with a success status.
    Shutdown,
    /// Do nothing.
    Nothing,
}

/// The command named by a menu identifier.
pub open spec fn spec_command_of(id: Seq<u8>) -> Command {
    if id == "show".spec_bytes() {
        Command::Show
    } else if id == "hide".spec_bytes() {
        Command::Hide
    } else if id == "rescan".spec_bytes() {
        Command::Rescan
    } else if id == "quit".spec_bytes() {
        Command::Quit
    } else if id == "sep".spec_bytes() {
        Command::Separator
    } else {
        Command::Unknown
    }
}

/// Decode a menu identifier into a [`Command`].
pub fn command_of(id: &Vec<u8>) -> (r: Command)
    ensures
        r == spec_command_of(id@),
{
    if bytes_eq(id, &"show".as_bytes_vec()) {
        Command::Show
    } else if bytes_eq(id, &"hide".as_bytes_vec()) {
        Command::Hide
    } else if bytes_eq(id, &"rescan".as_bytes_vec()) {
        Command::Rescan
    } else if bytes_eq(id, &"quit".as_bytes_vec()) {
        Command::Quit
    } else if bytes_eq(id, &"sep".as_bytes_vec()) {
        Command::Separator
    } else {
        Command::Unknown
    }
}

/// The routing table: show and hide go to the window controller, rescan to
/// the rescan trigger, quit to the supervisor followed by process exit;
/// the separator and unknown identifiers do nothing.
pub open spec fn spec_dispatch(c: Command) -> Action {
    match c {
        Command::Show => Action::ShowWindow,
        Command::Hide => Action::HideWindow,
        Command::Rescan => Action::FireRescan,
        Command::Quit => Action::Shutdown,
        Command::Separator => Action::Nothing,
        Command::Unknown => Action::Nothing,
    }
}

/// Route one command to its action. Total: every command, including the
/// separator and unknown identifiers, has exactly one action.
pub fn dispatch(c: Command) -> (a: Action)
    ensures
        a == spec_dispatch(c),
{
    match c {
        Command::Show => Action::ShowWindow,
        Command::Hide => Action::HideWindow,
        Command::Rescan => Action::FireRescan,
        Command::Quit => Action::Shutdown,
        Command::Separator => Action::Nothing,
        Command::Unknown => Action::Nothing,
    }
}

} // verus!
