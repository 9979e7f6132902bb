//! Reading the clipboard after it changed. Another application may still hold the
//! clipboard or still be writing it, so a read that finds nothing is retried after
//! growing delays, and a read during which the clipboard's sequence number moved is
//! read again at once (twice at most), as its formats may come from two writes.
//!
//! `begin` and `step` decide what comes next; the caller waits or reads and reports
//! what the read found.
use vstd::prelude::*;

verus! {

/// How many times a read that finds nothing is tried in all.
pub const READ_ATTEMPTS: u8 = 7;

/// How many times a read is repeated when the clipboard changed under it.
pub const MAX_REREADS: u8 = 2;

/// The delay before each attempt, in milliseconds.
pub open spec fn read_delay_spec(attempt: int) -> u64 {
    if attempt <= 0 {
        0
    } else if attempt == 1 {
        40
    } else if attempt == 2 {
        80
    } else if attempt == 3 {
        140
    } else if attempt == 4 {
        220
    } else if attempt == 5 {
        360
    } else {
        560
    }
}

/// The delay before attempt `attempt` (from 0), in milliseconds.
pub fn read_delay_ms(attempt: u8) -> (ms: u64)
    ensures
        ms == read_delay_spec(attempt as int),
{
    match attempt {
        0 => 0,
        1 => 40,
        2 => 80,
        3 => 140,
        4 => 220,
        5 => 360,
        _ => 560,
    }
}

/// What the reader does next.
#[derive(Clone, Copy, Debug, PartialEq, Eq, Structural)]
pub enum ReadAction {
    /// Wait this many milliseconds, then report.
    Wait(u64),
    /// Read the clipboard, noting its sequence number before and after.
    Read,
    /// Hand on the content of the last read.
    Deliver,
    /// Give up: the clipboard held nothing readable.
    GiveUp,
}

/// Where a read stands: the attempt (from 0), how often the current attempt was read
/// again because the clipboard changed, and whether a wait is under way.
#[derive(Clone, Copy, Debug, PartialEq, Eq, Structural)]
pub struct ReadState {
    pub attempt: u8,
    pub rereads: u8,
    pub waiting: bool,
}

/// The state and action after the last action: for a read, `found` says whether it
/// found content and `changed` whether the sequence number moved during it; after a
/// wait both are ignored.
pub open spec fn read_step_spec(s: ReadState, found: bool, changed: bool) -> (ReadState, ReadAction) {
    if s.waiting {
        (ReadState { waiting: false, ..s }, ReadAction::Read)
    } else if changed && s.rereads < MAX_REREADS {
        (ReadState { rereads: (s.rereads + 1) as u8, ..s }, ReadAction::Read)
    } else if found {
        (s, ReadAction::Deliver)
    } else if s.attempt + 1 < READ_ATTEMPTS {
        (
            ReadState { attempt: (s.attempt + 1) as u8, rereads: 0, waiting: true },
            ReadAction::Wait(read_delay_spec(s.attempt + 1)),
        )
    } else {
        (s, ReadAction::GiveUp)
    }
}

/// The first state and action: the first attempt reads at once.
pub fn begin_read() -> (r: (ReadState, ReadAction))
    ensures
        r == (ReadState { attempt: 0, rereads: 0, waiting: false }, ReadAction::Read),
{
    (ReadState { attempt: 0, rereads: 0, waiting: false }, ReadAction::Read)
}

impl ReadState {
    /// The next state and action; see `read_step_spec`.
    pub fn step(self, found: bool, changed: bool) -> (r: (ReadState, ReadAction))
        ensures
            r == read_step_spec(self, found, changed),
    {
        if self.waiting {
            (ReadState { waiting: false, ..self }, ReadAction::Read)
        } else if changed && self.rereads < MAX_REREADS {
            (ReadState { rereads: self.rereads + 1, ..self }, ReadAction::Read)
        } else if found {
            (self, ReadAction::Deliver)
        } else if self.attempt < READ_ATTEMPTS - 1 {
            let next = self.attempt + 1;
            (
                ReadState { attempt: next, rereads: 0, waiting: true },
                ReadAction::Wait(read_delay_ms(next)),
            )
        } else {
            (self, ReadAction::GiveUp)
        }
    }
}

/// The states a read passes through.
pub open spec fn read_well_formed(s: ReadState) -> bool {
    s.attempt < READ_ATTEMPTS && s.rereads <= MAX_REREADS && (s.waiting ==> s.rereads == 0)
}

/// Reads and waits left at most.
pub open spec fn read_rank(s: ReadState) -> nat {
    ((READ_ATTEMPTS - 1 - s.attempt) * 5 + (MAX_REREADS - s.rereads) + if s.waiting {
        1int
    } else {
        0
    }) as nat
}

/// Reading always ends: each step keeps the state well formed and, unless it
/// delivers or gives up, lowers the rank; so at most `READ_ATTEMPTS` attempts of at
/// most `MAX_REREADS + 1` reads each are made.
pub proof fn lemma_read_ends(s: ReadState, found: bool, changed: bool)
    requires
        read_well_formed(s),
    ensures
        read_well_formed(read_step_spec(s, found, changed).0),
        read_step_spec(s, found, changed).1 != ReadAction::Deliver && read_step_spec(
            s,
            found,
            changed,
        ).1 != ReadAction::GiveUp ==> read_rank(read_step_spec(s, found, changed).0) < read_rank(
            s,
        ),
{
}

/// Content read while the clipboard changed is read again instead of being handed on,
/// unless the read was already repeated `MAX_REREADS` times.
pub proof fn lemma_changed_read_is_repeated(s: ReadState, found: bool)
    requires
        read_well_formed(s),
        !s.waiting,
        s.rereads < MAX_REREADS,
    ensures
        read_step_spec(s, found, true).1 == ReadAction::Read,
{
}

/// Nothing is given up while attempts remain, and the waits between attempts grow.
pub proof fn lemma_gives_up_only_after_last_attempt(s: ReadState, found: bool, changed: bool)
    requires
        read_well_formed(s),
        read_step_spec(s, found, changed).1 == ReadAction::GiveUp,
    ensures
        s.attempt == READ_ATTEMPTS - 1,
        !found,
        forall|i: int, j: int| 0 <= i < j < READ_ATTEMPTS ==> read_delay_spec(i) < read_delay_spec(j),
{
}

} // verus!
