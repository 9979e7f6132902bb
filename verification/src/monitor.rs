//! When the clipboard watcher takes a change, and how it restarts.
//!
//! The watcher runs until it is stopped. Copies that the program makes itself pause it
//! for their duration (pauses nest: each pause is undone by one resume), and the user
//! can pause it from the tray independently of those. A change is taken only while the
//! watcher runs and neither kind of pause holds. When the watcher dies, it is restarted
//! after a delay that doubles with each failure in a row, up to a ceiling.
use vstd::prelude::*;

verus! {

/// The delay before the first restart, in milliseconds.
pub const RESTART_BASE_MS: u64 = 100;

/// The longest delay before a restart, in milliseconds.
pub const MAX_BACKOFF_MS: u64 = 5000;

/// Whether the watcher runs, how many pauses are outstanding, and whether the user
/// paused it.
#[derive(Debug, Clone, Copy, PartialEq, Eq, Structural)]
pub struct MonitorState {
    pub running: bool,
    pub pause_count: u32,
    pub user_paused: bool,
}

/// The state after one more pause (the count wraps as an atomic counter does).
pub open spec fn paused_once(s: MonitorState) -> MonitorState {
    MonitorState {
        pause_count: if s.pause_count == u32::MAX {
            0
        } else {
            (s.pause_count + 1) as u32
        },
        ..s
    }
}

/// The state after a resume: one pause fewer, nothing when none is outstanding.
pub open spec fn resumed_once(s: MonitorState) -> MonitorState {
    MonitorState {
        pause_count: if s.pause_count > 0 {
            (s.pause_count - 1) as u32
        } else {
            0
        },
        ..s
    }
}

/// The state after the user's pause is switched.
pub open spec fn user_toggled(s: MonitorState) -> MonitorState {
    MonitorState { user_paused: !s.user_paused, ..s }
}

/// Whether a clipboard change is taken.
pub open spec fn takes_change(s: MonitorState) -> bool {
    s.running && s.pause_count == 0 && !s.user_paused
}

impl MonitorState {
    /// Not running, not paused.
    pub fn new() -> (s: Self)
        ensures
            !s.running,
            s.pause_count == 0,
            !s.user_paused,
    {
        MonitorState { running: false, pause_count: 0, user_paused: false }
    }

    /// Starts the watcher; false, with nothing changed, when it already runs.
    pub fn start(&mut self) -> (started: bool)
        ensures
            started == !old(self).running,
            *final(self) == (MonitorState { running: true, ..*old(self) }),
    {
        if self.running {
            false
        } else {
            self.running = true;
            true
        }
    }

    /// Stops the watcher.
    pub fn stop(&mut self)
        ensures
            *final(self) == (MonitorState { running: false, ..*old(self) }),
    {
        self.running = false;
    }

    /// One more pause.
    pub fn pause(&mut self)
        ensures
            *final(self) == paused_once(*old(self)),
    {
        self.pause_count = self.pause_count.wrapping_add(1);
    }

    /// Undoes one pause; false, with nothing changed, when none is outstanding.
    pub fn resume(&mut self) -> (undone: bool)
        ensures
            undone == (old(self).pause_count > 0),
            *final(self) == resumed_once(*old(self)),
    {
        if self.pause_count > 0 {
            self.pause_count = self.pause_count - 1;
            true
        } else {
            false
        }
    }

    /// Whether a pause of the program's own is outstanding.
    pub fn is_paused(&self) -> (b: bool)
        ensures
            b == (self.pause_count > 0),
    {
        self.pause_count > 0
    }

    /// Whether the watcher runs.
    pub fn is_running(&self) -> (b: bool)
        ensures
            b == self.running,
    {
        self.running
    }

    /// Switches the user's pause; whether it holds now.
    pub fn toggle_user_pause(&mut self) -> (now: bool)
        ensures
            now == !old(self).user_paused,
            *final(self) == user_toggled(*old(self)),
    {
        self.user_paused = !self.user_paused;
        self.user_paused
    }

    /// Whether a clipboard change is taken now.
    pub fn accepts_change(&self) -> (b: bool)
        ensures
            b == takes_change(*self),
    {
        self.running && self.pause_count == 0 && !self.user_paused
    }
}

/// `2^e`.
pub open spec fn pow2(e: nat) -> nat
    decreases e,
{
    if e == 0 {
        1
    } else {
        2 * pow2((e - 1) as nat)
    }
}

/// The delay before restarting after this many failures in a row: the base delay
/// doubled once per failure (at most six times), and never above the ceiling.
pub open spec fn backoff_spec(failures: u32) -> nat {
    let e: nat = if failures < 6 {
        failures as nat
    } else {
        6
    };
    let d = RESTART_BASE_MS * pow2(e);
    if d < MAX_BACKOFF_MS {
        d as nat
    } else {
        MAX_BACKOFF_MS as nat
    }
}

/// The delay in milliseconds before restarting the watcher after `failures` failures
/// in a row.
pub fn restart_backoff_ms(failures: u32) -> (ms: u64)
    ensures
        ms == backoff_spec(failures),
{
    let e: u32 = if failures < 6 {
        failures
    } else {
        6
    };
    let mut d: u64 = RESTART_BASE_MS;
    let mut i: u32 = 0;
    while i < e
        invariant
            i <= e <= 6,
            d == RESTART_BASE_MS * pow2(i as nat),
        decreases e - i,
    {
        proof {
            lemma_pow2_le_64(i as nat);
        }
        d = d * 2;
        i = i + 1;
    }
    if d < MAX_BACKOFF_MS {
        d
    } else {
        MAX_BACKOFF_MS
    }
}

proof fn lemma_pow2_le_64(e: nat)
    requires
        e <= 6,
    ensures
        pow2(e) <= 64,
{
    reveal_with_fuel(pow2, 7);
}

proof fn lemma_pow2_monotone(a: nat, b: nat)
    requires
        a <= b,
    ensures
        pow2(a) <= pow2(b),
    decreases b,
{
    if a < b {
        lemma_pow2_monotone(a, (b - 1) as nat);
    }
}

/// Each pause is undone by one resume: pausing and then resuming leaves the state as
/// it was (while the count has room).
pub proof fn lemma_resume_undoes_pause(s: MonitorState)
    requires
        s.pause_count < u32::MAX,
    ensures
        resumed_once(paused_once(s)) == s,
{
}

/// Switching the user's pause twice leaves the state as it was.
pub proof fn lemma_user_toggle_twice(s: MonitorState)
    ensures
        user_toggled(user_toggled(s)) == s,
{
}

/// No change is taken right after a pause, while any pause is outstanding, or while
/// the user's pause holds.
pub proof fn lemma_paused_takes_nothing(s: MonitorState)
    requires
        s.pause_count < u32::MAX,
    ensures
        !takes_change(paused_once(s)),
        s.user_paused ==> !takes_change(s),
        s.pause_count > 0 ==> !takes_change(s),
{
}

/// The restart delay never shrinks as failures accumulate, and never passes the
/// ceiling.
pub proof fn lemma_backoff_grows_to_ceiling(a: u32, b: u32)
    requires
        a <= b,
    ensures
        backoff_spec(a) <= backoff_spec(b),
        backoff_spec(b) <= MAX_BACKOFF_MS,
{
    let ea: nat = if a < 6 {
        a as nat
    } else {
        6
    };
    let eb: nat = if b < 6 {
        b as nat
    } else {
        6
    };
    lemma_pow2_monotone(ea, eb);
    assert(RESTART_BASE_MS * pow2(ea) <= RESTART_BASE_MS * pow2(eb)) by (nonlinear_arith)
        requires
            pow2(ea) <= pow2(eb),
    ;
}

/// Of the captures waiting for the worker, the newest is processed: returns it, and
/// the older ones (the first one and all but the last of the newer ones, in order),
/// which are discarded.
pub fn newest_capture<T>(first: T, newer: Vec<T>) -> (r: (T, Vec<T>))
    ensures
        newer@.len() == 0 ==> r.0 == first && r.1@.len() == 0,
        newer@.len() > 0 ==> r.0 == newer@.last() && r.1@ == seq![first] + newer@.drop_last(),
{
    let mut rest = newer;
    match rest.pop() {
        None => (first, rest),
        Some(last) => {
            rest.insert(0, first);
            assert(rest@ =~= seq![first] + newer@.drop_last());
            (last, rest)
        },
    }
}

} // verus!
