//! Visibility state machine for the singleton application window.
//!
//! The controller owns the logical state {Absent, Visible, Hidden} and, for
//! each operation, returns the platform call the event loop must make. The
//! windowing layer itself is an external collaborator: the host performs the
//! returned command and reports a construction failure back through
//! [`WindowController::creation_failed`], which reverts the optimistic
//! transition (fail-soft: the operation becomes a no-op).

use vstd::prelude::*;

verus! {

/// Visibility of the singleton application window. `Absent` means the window
/// object does not exist yet; it is the only initial state.
#[derive(Clone, Copy, PartialEq, Eq, Structural, Debug)]
pub enum WindowState {
    Absent,
    Visible,
    Hidden,
}

/// Platform call that the event loop must perform after a controller step.
#[derive(Clone, Copy, PartialEq, Eq, Structural, Debug)]
pub enum WindowCmd {
    /// Construct the window pointed at the server's root URL, then show and
    /// focus it.
    CreateShowFocus,
    /// Show and focus the existing window.
    ShowFocus,
    /// Hide the existing window.
    Hide,
    /// Touch nothing.
    Nothing,
}

/// State after a show-or-create operation: always `Visible`.
pub open spec fn spec_show(s: WindowState) -> WindowState {
    WindowState::Visible
}

/// State after a hide operation: `Absent` stays `Absent`, any existing
/// window ends `Hidden`.
pub open spec fn spec_hide(s: WindowState) -> WindowState {
    if s == WindowState::Absent {
        WindowState::Absent
    } else {
        WindowState::Hidden
    }
}

/// State after a toggle: an absent window is created and shown, a visible
/// one is hidden, a hidden one is shown again.
pub open spec fn spec_toggle(s: WindowState) -> WindowState {
    match s {
        WindowState::Absent => WindowState::Visible,
        WindowState::Visible => WindowState::Hidden,
        WindowState::Hidden => WindowState::Visible,
    }
}

/// Controller for the one application window.
pub struct WindowController {
    st: WindowState,
}

impl WindowController {
    /// Logical visibility state tracked by the controller.
    pub closed spec fn state(&self) -> WindowState {
        self.st
    }

    /// A fresh controller: no window exists yet.
    pub fn new() -> (r: WindowController)
        ensures
            r.state() == WindowState::Absent,
    {
        WindowController { st: WindowState::Absent }
    }

    /// Read the tracked state.
    pub fn current(&self) -> (s: WindowState)
        ensures
            s == self.state(),
    {
        self.st
    }

    /// Make the window visible and focused, constructing it first if it does
    /// not exist. Idempotent on visibility: the state always ends `Visible`.
    pub fn show_or_create(&mut self) -> (cmd: WindowCmd)
        ensures
            final(self).state() == spec_show(old(self).state()),
            cmd == (if old(self).state() == WindowState::Absent {
                WindowCmd::CreateShowFocus
            } else {
                WindowCmd::ShowFocus
            }),
    {
        let cmd = if let WindowState::Absent = self.st {
            WindowCmd::CreateShowFocus
        } else {
            WindowCmd::ShowFocus
        };
        self.st = WindowState::Visible;
        cmd
    }

    /// Revert after the platform refused to construct the window: the failure
    /// is swallowed and the state returns to `Absent`.
    pub fn creation_failed(&mut self)
        ensures
            final(self).state() == WindowState::Absent,
    {
        self.st = WindowState::Absent;
    }

    /// Hide the window if it exists; a no-op when no window exists.
    pub fn hide_window(&mut self) -> (cmd: WindowCmd)
        ensures
            final(self).state() == spec_hide(old(self).state()),
            cmd == (if old(self).state() == WindowState::Absent {
                WindowCmd::Nothing
            } else {
                WindowCmd::Hide
            }),
    {
        if let WindowState::Absent = self.st {
            WindowCmd::Nothing
        } else {
            self.st = WindowState::Hidden;
            WindowCmd::Hide
        }
    }

    /// Toggle visibility: create-and-show when absent, hide when visible,
    /// show-and-focus when hidden.
    pub fn toggle(&mut self) -> (cmd: WindowCmd)
        ensures
            final(self).state() == spec_toggle(old(self).state()),
            cmd == (match old(self).state() {
                WindowState::Absent => WindowCmd::CreateShowFocus,
                WindowState::Visible => WindowCmd::Hide,
                WindowState::Hidden => WindowCmd::ShowFocus,
            }),
    {
        match self.st {
            WindowState::Absent => {
                self.st = WindowState::Visible;
                WindowCmd::CreateShowFocus
            },
            WindowState::Visible => {
                self.st = WindowState::Hidden;
                WindowCmd::Hide
            },
            WindowState::Hidden => {
                self.st = WindowState::Visible;
                WindowCmd::ShowFocus
            },
        }
    }
}

/// From `Absent`, hiding is a no-op: the state remains `Absent`.
pub proof fn lemma_hide_on_absent_is_noop()
    ensures
        spec_hide(WindowState::Absent) == WindowState::Absent,
{
}

/// Two consecutive show-or-create operations leave the state `Visible` from
/// any starting state, and the second one changes nothing.
pub proof fn lemma_show_idempotent(s: WindowState)
    ensures
        spec_show(spec_show(s)) == WindowState::Visible,
        spec_show(spec_show(s)) == spec_show(s),
{
}

/// Toggling twice restores the starting state, for every state in which the
/// window already exists (from `Absent` the first toggle creates the window,
/// which is not undone).
pub proof fn lemma_toggle_twice_restores(s: WindowState)
    requires
        s != WindowState::Absent,
    ensures
        spec_toggle(spec_toggle(s)) == s,
{
}

} // verus!
