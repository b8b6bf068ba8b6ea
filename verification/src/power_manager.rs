//! Tracking of the sleep-prevention state.
//!
//! The OS power assertion itself is a platform setter the embedding
//! application owns (out of this crate, like the other OS setters); it makes
//! that call when the tracked state changes. This mirrors the no-op platform
//! backend, where requesting and releasing the assertion always succeed.

use vstd::prelude::*;

verus! {

/// Whether the system is currently asked not to sleep.
pub struct PowerManager {
    is_prevented: bool,
}

impl PowerManager {
    /// Whether sleep prevention is requested.
    pub closed spec fn prevented(&self) -> bool {
        self.is_prevented
    }

    /// A manager that allows sleep.
    pub fn new() -> (r: Self)
        ensures
            !r.prevented(),
    {
        PowerManager { is_prevented: false }
    }

    /// Request that the system stay awake; idempotent.
    pub fn prevent_sleep(&mut self) -> (r: Result<(), String>)
        ensures
            r is Ok,
            final(self).prevented(),
    {
        if self.is_prevented {
            return Ok(());
        }
        self.is_prevented = true;
        Ok(())
    }

    /// Allow the system to sleep again; idempotent.
    pub fn allow_sleep(&mut self) -> (r: Result<(), String>)
        ensures
            r is Ok,
            !final(self).prevented(),
    {
        if !self.is_prevented {
            return Ok(());
        }
        self.is_prevented = false;
        Ok(())
    }

    /// Whether sleep is currently prevented.
    pub fn is_sleep_prevented(&self) -> (r: bool)
        ensures
            r == self.prevented(),
    {
        self.is_prevented
    }

    /// Keep the system awake exactly while sessions are running and the user
    /// preference asks for it.
    pub fn update_for_sessions(&mut self, session_count: usize, prevent_sleep_enabled: bool)
        ensures
            final(self).prevented() == (prevent_sleep_enabled && session_count > 0),
    {
        if prevent_sleep_enabled && session_count > 0 {
            let _ = self.prevent_sleep();
        } else {
            let _ = self.allow_sleep();
        }
    }
}

} // verus!
