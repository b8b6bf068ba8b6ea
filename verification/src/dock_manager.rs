//! The dock-visibility rule on the primary platform.
//!
//! The dock icon is shown while the user wants it shown or any window is
//! open. Setting the activation policy is an OS setter the embedding
//! application performs with the answer computed here.

use vstd::prelude::*;

verus! {

/// The user preference and the last observed window count.
pub struct DockManager {
    should_show_in_dock: bool,
    window_count: usize,
}

impl DockManager {
    /// The stored user preference.
    pub closed spec fn show_pref(&self) -> bool {
        self.should_show_in_dock
    }

    /// The window count recorded by the last visibility update.
    pub closed spec fn windows_seen(&self) -> usize {
        self.window_count
    }

    /// A manager that shows the dock, with no windows seen yet.
    pub fn new() -> (r: Self)
        ensures
            r.show_pref(),
            r.windows_seen() == 0,
    {
        DockManager { should_show_in_dock: true, window_count: 0 }
    }

    /// Update the user preference for dock visibility.
    pub fn set_show_in_dock(&mut self, show: bool)
        ensures
            final(self).show_pref() == show,
            final(self).windows_seen() == old(self).windows_seen(),
    {
        self.should_show_in_dock = show;
    }

    /// The current dock preference.
    pub fn get_show_in_dock(&self) -> (r: bool)
        ensures
            r == self.show_pref(),
    {
        self.should_show_in_dock
    }

    /// Record the visible-window count and decide dock visibility: the dock
    /// is shown when the user wants it shown or any window is open. The
    /// embedding application applies the returned choice to the activation
    /// policy.
    pub fn update_dock_visibility(&mut self, visible_window_count: usize) -> (r: bool)
        ensures
            final(self).show_pref() == old(self).show_pref(),
            final(self).windows_seen() == visible_window_count,
            r == (old(self).show_pref() || visible_window_count > 0),
    {
        self.window_count = visible_window_count;
        self.should_show_in_dock || visible_window_count > 0
    }
}

} // verus!
