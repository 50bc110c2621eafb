//! Global atomic counters for input events.

use vstd::prelude::*;
use std::sync::atomic::AtomicU64;
use std::sync::atomic::Ordering;

verus! {

/// Snapshot of all counter values, returned by [`GlobalCounters::swap_all`].
#[derive(Debug, Default, Clone, Copy)]
pub struct CounterSnapshot {
    pub keystrokes: u64,
    pub mouse_clicks: u64,
    pub characters: u64,
    pub ctrl_c: u64,
    pub ctrl_v: u64,
}

impl CounterSnapshot {
    /// Whether nothing at all was counted.
    pub open spec fn idle(&self) -> bool {
        &&& self.keystrokes == 0
        &&& self.mouse_clicks == 0
        &&& self.characters == 0
        &&& self.ctrl_c == 0
        &&& self.ctrl_v == 0
    }

    /// Whether nothing at all was counted.
    pub fn is_idle(&self) -> (r: bool)
        ensures
            r == self.idle(),
    {
        self.keystrokes == 0 && self.mouse_clicks == 0 && self.characters == 0 && self.ctrl_c == 0
            && self.ctrl_v == 0
    }
}

/// Five lock-free counters that can be incremented from any thread and
/// atomically drained by the writer thread.
///
/// The counters are shared between threads, so a value read here depends on
/// what other threads did in between: the contracts below promise nothing
/// about the numbers themselves.
pub struct GlobalCounters {
    pub keystrokes: AtomicU64,
    pub mouse_clicks: AtomicU64,
    pub characters: AtomicU64,
    pub ctrl_c: AtomicU64,
    pub ctrl_v: AtomicU64,
}

impl GlobalCounters {
    /// Five counters starting at zero.
    pub fn new() -> Self {
        GlobalCounters {
            keystrokes: AtomicU64::new(0),
            mouse_clicks: AtomicU64::new(0),
            characters: AtomicU64::new(0),
            ctrl_c: AtomicU64::new(0),
            ctrl_v: AtomicU64::new(0),
        }
    }

    /// Atomically read and reset all counters, returning the previous values.
    /// Uses `Relaxed` ordering — only atomicity is required here; no
    /// cross-thread synchronisation ordering is needed for these independent
    /// counters.
    pub fn swap_all(&self) -> CounterSnapshot {
        CounterSnapshot {
            keystrokes: self.keystrokes.swap(0, Ordering::Relaxed),
            mouse_clicks: self.mouse_clicks.swap(0, Ordering::Relaxed),
            characters: self.characters.swap(0, Ordering::Relaxed),
            ctrl_c: self.ctrl_c.swap(0, Ordering::Relaxed),
            ctrl_v: self.ctrl_v.swap(0, Ordering::Relaxed),
        }
    }
}

} // verus!
