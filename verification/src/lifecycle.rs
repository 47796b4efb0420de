//! Mount lifecycle decisions.
//!
//! The blocking, the signal handler and the unmount watcher live with the
//! binary; what is decided — which mountpoint to use, and that the first
//! shutdown cause wins and sticks — is decided here, where it is checked.

use vstd::prelude::*;

use crate::config::Config;

verus! {

/// Where to mount, and what to remember.
#[derive(Clone, Debug)]
pub enum MountDecision {
    /// Mount at the explicitly given mountpoint and persist it as the
    /// new default.
    UseGiven(String),
    /// Mount at the previously configured mountpoint.
    UseConfigured(String),
    /// Nothing given and nothing configured: refuse to mount, before
    /// any serving starts.
    NoMountpoint,
}

/// Picks the mountpoint: an explicit one wins and is remembered; else
/// the configured one serves; else mounting is refused.
pub fn choose_mountpoint(given: Option<String>, config: &Config) -> (r: MountDecision)
    ensures
        r == match given {
            Some(m) => MountDecision::UseGiven(m),
            None => match config.mountpoint {
                Some(ref m) => MountDecision::UseConfigured(*m),
                None => MountDecision::NoMountpoint,
            },
        },
{
    match given {
        Some(m) => MountDecision::UseGiven(m),
        None => match config.mountpoint() {
            Some(m) => MountDecision::UseConfigured(m.clone()),
            None => MountDecision::NoMountpoint,
        },
    }
}

/// What can end the serving loop: the process is signalled, or the
/// filesystem is unmounted from outside.
#[derive(Clone, Copy, Debug, PartialEq, Eq, Structural)]
pub enum ShutdownEvent {
    /// An interrupt signal arrived.
    Signal,
    /// The kernel session ended on its own (external unmount).
    Unmounted,
}

/// The shared shutdown flag: set by the first of {signal handler,
/// unmount watcher}, never cleared, observed by the blocked main thread.
pub struct ShutdownState {
    /// Whether shutdown was requested.
    pub requested: bool,
}

impl ShutdownState {
    /// A fresh state: no shutdown requested yet.
    pub fn new() -> (r: ShutdownState)
        ensures
            !r.requested,
    {
        ShutdownState { requested: false }
    }

    /// Records a shutdown cause. Both causes lead to the same terminal
    /// state, whichever arrives first, and the state never leaves it.
    pub fn observe(&mut self, event: &ShutdownEvent)
        ensures
            final(self).requested,
    {
        let _ = event;
        self.requested = true;
    }

    /// Whether the blocked thread may return and let the process exit.
    pub fn should_exit(&self) -> (r: bool)
        ensures
            r == self.requested,
    {
        self.requested
    }
}

} // verus!
