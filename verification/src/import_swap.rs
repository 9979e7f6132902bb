//! Putting an imported database in place of the current one.
//!
//! A backup restore leaves the imported database staged next to the live one. On the
//! next start it is swapped in: the three database files (the database, its `-wal`
//! and its `-shm` file) are renamed to backups, the staged file is renamed over the
//! database, and the backups are deleted. When a rename fails the backups are renamed
//! back, and after a pause the swap is tried again, up to `MAX_SWAP_ATTEMPTS` times;
//! then the staged file is copied over the database instead.
//!
//! The decisions are a state machine: `begin` and `step` say which file operation
//! comes next, and the caller performs it and reports whether it succeeded.
use vstd::prelude::*;

verus! {

/// How many times the rename of the staged database is tried.
pub const MAX_SWAP_ATTEMPTS: u8 = 10;

/// How many files make up a database: the database, its `-wal` and its `-shm` file.
pub const DATABASE_FILES: u8 = 3;

/// A file operation of the swap. `k` numbers the database files: 0 the database,
/// 1 its `-wal` file, 2 its `-shm` file.
#[derive(Clone, Copy, Debug, PartialEq, Eq, Structural)]
pub enum SwapAction {
    /// Wait before trying (half a second).
    Wait,
    /// Rename database file `k` to its backup name, if the file exists. Succeeds when
    /// the file is missing or was renamed.
    BackUp(u8),
    /// Rename backup `k` back to database file `k`; the outcome does not matter.
    Restore(u8),
    /// Rename the staged database over the database.
    Install,
    /// Delete backup `k`; the outcome does not matter.
    RemoveBackup(u8),
    /// Copy the staged database over the database.
    CopyStaged,
    /// Delete the staged database.
    RemoveStaged,
    /// The swap is over.
    Finish,
}

/// What the swap is waiting to hear about: the outcome of the action it asked for.
#[derive(Clone, Copy, Debug, PartialEq, Eq, Structural)]
pub enum SwapPhase {
    /// The first pause; `has_dir` says whether the database path has a directory.
    Settling { has_dir: bool },
    BackingUp(u8),
    Installing,
    Restoring(u8),
    Waiting,
    Copying,
    RemovingBackup(u8),
    RemovingStaged,
    Finished,
}

/// The swap's state: the attempt under way (from 1) and the phase.
#[derive(Clone, Copy, Debug, PartialEq, Eq, Structural)]
pub struct SwapState {
    pub attempt: u8,
    pub phase: SwapPhase,
}

/// The state and first action of a swap: nothing to do unless a staged database
/// exists; else a pause first.
pub open spec fn begin_spec(staged_exists: bool, has_dir: bool) -> (SwapState, SwapAction) {
    if staged_exists {
        (SwapState { attempt: 1, phase: SwapPhase::Settling { has_dir } }, SwapAction::Wait)
    } else {
        (SwapState { attempt: 1, phase: SwapPhase::Finished }, SwapAction::Finish)
    }
}

/// The next state and action after the last action's outcome `ok`.
pub open spec fn step_spec(s: SwapState, ok: bool) -> (SwapState, SwapAction) {
    let a = s.attempt;
    match s.phase {
        SwapPhase::Settling { has_dir } => if has_dir {
            (SwapState { attempt: a, phase: SwapPhase::BackingUp(0) }, SwapAction::BackUp(0))
        } else {
            (SwapState { attempt: a, phase: SwapPhase::Finished }, SwapAction::Finish)
        },
        SwapPhase::BackingUp(k) => if !ok {
            (SwapState { attempt: a, phase: SwapPhase::Restoring(0) }, SwapAction::Restore(0))
        } else if k + 1 < DATABASE_FILES {
            (
                SwapState { attempt: a, phase: SwapPhase::BackingUp((k + 1) as u8) },
                SwapAction::BackUp((k + 1) as u8),
            )
        } else {
            (SwapState { attempt: a, phase: SwapPhase::Installing }, SwapAction::Install)
        },
        SwapPhase::Installing => if ok {
            (
                SwapState { attempt: a, phase: SwapPhase::RemovingBackup(0) },
                SwapAction::RemoveBackup(0),
            )
        } else {
            (SwapState { attempt: a, phase: SwapPhase::Restoring(0) }, SwapAction::Restore(0))
        },
        SwapPhase::Restoring(k) => if k + 1 < DATABASE_FILES {
            (
                SwapState { attempt: a, phase: SwapPhase::Restoring((k + 1) as u8) },
                SwapAction::Restore((k + 1) as u8),
            )
        } else if a < MAX_SWAP_ATTEMPTS {
            (SwapState { attempt: a, phase: SwapPhase::Waiting }, SwapAction::Wait)
        } else {
            (SwapState { attempt: a, phase: SwapPhase::Copying }, SwapAction::CopyStaged)
        },
        SwapPhase::Waiting => if a < MAX_SWAP_ATTEMPTS {
            (
                SwapState { attempt: (a + 1) as u8, phase: SwapPhase::BackingUp(0) },
                SwapAction::BackUp(0),
            )
        } else {
            (SwapState { attempt: a, phase: SwapPhase::Copying }, SwapAction::CopyStaged)
        },
        SwapPhase::RemovingBackup(k) => if k + 1 < DATABASE_FILES {
            (
                SwapState { attempt: a, phase: SwapPhase::RemovingBackup((k + 1) as u8) },
                SwapAction::RemoveBackup((k + 1) as u8),
            )
        } else {
            (SwapState { attempt: a, phase: SwapPhase::Finished }, SwapAction::Finish)
        },
        SwapPhase::Copying => if ok {
            (SwapState { attempt: a, phase: SwapPhase::RemovingStaged }, SwapAction::RemoveStaged)
        } else {
            (SwapState { attempt: a, phase: SwapPhase::Finished }, SwapAction::Finish)
        },
        SwapPhase::RemovingStaged => (
            SwapState { attempt: a, phase: SwapPhase::Finished },
            SwapAction::Finish,
        ),
        SwapPhase::Finished => (
            SwapState { attempt: a, phase: SwapPhase::Finished },
            SwapAction::Finish,
        ),
    }
}

/// The state and first action of a swap; see `begin_spec`.
pub fn begin(staged_exists: bool, has_dir: bool) -> (r: (SwapState, SwapAction))
    ensures
        r == begin_spec(staged_exists, has_dir),
{
    if staged_exists {
        (SwapState { attempt: 1, phase: SwapPhase::Settling { has_dir } }, SwapAction::Wait)
    } else {
        (SwapState { attempt: 1, phase: SwapPhase::Finished }, SwapAction::Finish)
    }
}

impl SwapState {
    /// The next state and action once the last action's outcome `ok` is known.
    pub fn step(self, ok: bool) -> (r: (SwapState, SwapAction))
        ensures
            r == step_spec(self, ok),
    {
        let a = self.attempt;
        match self.phase {
            SwapPhase::Settling { has_dir } => if has_dir {
                (SwapState { attempt: a, phase: SwapPhase::BackingUp(0) }, SwapAction::BackUp(0))
            } else {
                (SwapState { attempt: a, phase: SwapPhase::Finished }, SwapAction::Finish)
            },
            SwapPhase::BackingUp(k) => if !ok {
                (SwapState { attempt: a, phase: SwapPhase::Restoring(0) }, SwapAction::Restore(0))
            } else if k < DATABASE_FILES - 1 {
                (
                    SwapState { attempt: a, phase: SwapPhase::BackingUp(k + 1) },
                    SwapAction::BackUp(k + 1),
                )
            } else {
                (SwapState { attempt: a, phase: SwapPhase::Installing }, SwapAction::Install)
            },
            SwapPhase::Installing => if ok {
                (
                    SwapState { attempt: a, phase: SwapPhase::RemovingBackup(0) },
                    SwapAction::RemoveBackup(0),
                )
            } else {
                (SwapState { attempt: a, phase: SwapPhase::Restoring(0) }, SwapAction::Restore(0))
            },
            SwapPhase::Restoring(k) => if k < DATABASE_FILES - 1 {
                (
                    SwapState { attempt: a, phase: SwapPhase::Restoring(k + 1) },
                    SwapAction::Restore(k + 1),
                )
            } else if a < MAX_SWAP_ATTEMPTS {
                (SwapState { attempt: a, phase: SwapPhase::Waiting }, SwapAction::Wait)
            } else {
                (SwapState { attempt: a, phase: SwapPhase::Copying }, SwapAction::CopyStaged)
            },
            SwapPhase::Waiting => if a < MAX_SWAP_ATTEMPTS {
                (SwapState { attempt: a + 1, phase: SwapPhase::BackingUp(0) }, SwapAction::BackUp(0))
            } else {
                (SwapState { attempt: a, phase: SwapPhase::Copying }, SwapAction::CopyStaged)
            },
            SwapPhase::RemovingBackup(k) => if k < DATABASE_FILES - 1 {
                (
                    SwapState { attempt: a, phase: SwapPhase::RemovingBackup(k + 1) },
                    SwapAction::RemoveBackup(k + 1),
                )
            } else {
                (SwapState { attempt: a, phase: SwapPhase::Finished }, SwapAction::Finish)
            },
            SwapPhase::Copying => if ok {
                (
                    SwapState { attempt: a, phase: SwapPhase::RemovingStaged },
                    SwapAction::RemoveStaged,
                )
            } else {
                (SwapState { attempt: a, phase: SwapPhase::Finished }, SwapAction::Finish)
            },
            SwapPhase::RemovingStaged => (
                SwapState { attempt: a, phase: SwapPhase::Finished },
                SwapAction::Finish,
            ),
            SwapPhase::Finished => (
                SwapState { attempt: a, phase: SwapPhase::Finished },
                SwapAction::Finish,
            ),
        }
    }
}

/// The states a swap passes through: an attempt between 1 and `MAX_SWAP_ATTEMPTS`,
/// and file numbers below `DATABASE_FILES`.
pub open spec fn well_formed(s: SwapState) -> bool {
    &&& 1 <= s.attempt <= MAX_SWAP_ATTEMPTS
    &&& match s.phase {
        SwapPhase::BackingUp(k) => k < DATABASE_FILES,
        SwapPhase::Restoring(k) => k < DATABASE_FILES,
        SwapPhase::RemovingBackup(k) => k < DATABASE_FILES,
        _ => true,
    }
}

/// Steps left in an attempt, counted from the phase.
pub open spec fn phase_rank(p: SwapPhase) -> nat {
    match p {
        SwapPhase::Settling { .. } => 19,
        SwapPhase::BackingUp(k) => (18 - k) as nat,
        SwapPhase::Installing => 15,
        SwapPhase::Restoring(k) => (14 - k) as nat,
        SwapPhase::Waiting => 11,
        SwapPhase::Copying => 10,
        SwapPhase::RemovingBackup(k) => (9 - k) as nat,
        SwapPhase::RemovingStaged => 6,
        SwapPhase::Finished => 0,
    }
}

/// A bound on the steps a swap has left.
pub open spec fn rank(s: SwapState) -> nat {
    ((MAX_SWAP_ATTEMPTS - s.attempt) * 20 + phase_rank(s.phase)) as nat
}

/// A swap starts in a well-formed state, at its first attempt.
pub proof fn lemma_begin_well_formed(staged_exists: bool, has_dir: bool)
    ensures
        well_formed(begin_spec(staged_exists, has_dir).0),
        begin_spec(staged_exists, has_dir).0.attempt == 1,
        !staged_exists ==> begin_spec(staged_exists, has_dir).1 == SwapAction::Finish,
{
}

/// Every step keeps the state well formed, so no more than `MAX_SWAP_ATTEMPTS`
/// attempts are made, and the attempt count never goes back.
pub proof fn lemma_step_keeps_well_formed(s: SwapState, ok: bool)
    requires
        well_formed(s),
    ensures
        well_formed(step_spec(s, ok).0),
        s.attempt <= step_spec(s, ok).0.attempt,
{
}

/// The swap always ends: every step from an unfinished state lowers the rank, and a
/// finished swap stays finished and asks for nothing more.
pub proof fn lemma_step_makes_progress(s: SwapState, ok: bool)
    requires
        well_formed(s),
    ensures
        s.phase != SwapPhase::Finished ==> rank(step_spec(s, ok).0) < rank(s),
        s.phase == SwapPhase::Finished ==> step_spec(s, ok) == (s, SwapAction::Finish),
        step_spec(s, ok).1 == SwapAction::Finish <==> step_spec(s, ok).0.phase
            == SwapPhase::Finished,
{
}

/// The staged database is renamed over the database only once all three database
/// files were backed up in this attempt.
pub proof fn lemma_install_only_after_backups(s: SwapState, ok: bool)
    requires
        well_formed(s),
    ensures
        step_spec(s, ok).1 == SwapAction::Install ==> s.phase == SwapPhase::BackingUp(
            (DATABASE_FILES - 1) as u8,
        ) && ok,
{
}

/// When a backup rename or the install fails, the next three actions rename every
/// backup back, whatever their outcomes, and then the swap waits for another attempt,
/// or, at the last attempt, copies the staged database instead.
pub proof fn lemma_failure_restores_every_file(s: SwapState, e1: bool, e2: bool, e3: bool)
    requires
        well_formed(s),
        s.phase is BackingUp || s.phase is Installing,
    ensures
        ({
            let (s1, a1) = step_spec(s, false);
            let (s2, a2) = step_spec(s1, e1);
            let (s3, a3) = step_spec(s2, e2);
            let (s4, a4) = step_spec(s3, e3);
            &&& a1 == SwapAction::Restore(0)
            &&& a2 == SwapAction::Restore(1)
            &&& a3 == SwapAction::Restore(2)
            &&& a4 == if s.attempt < MAX_SWAP_ATTEMPTS {
                SwapAction::Wait
            } else {
                SwapAction::CopyStaged
            }
            &&& s4.attempt == s.attempt
        }),
{
}

/// A backup is deleted only after the staged database was installed: the first right
/// after a successful install, each other right after the one before it.
pub proof fn lemma_backups_deleted_only_after_install(s: SwapState, ok: bool, k: u8)
    requires
        well_formed(s),
        step_spec(s, ok).1 == SwapAction::RemoveBackup(k),
    ensures
        k == 0 ==> s.phase == SwapPhase::Installing && ok,
        k > 0 ==> s.phase == SwapPhase::RemovingBackup((k - 1) as u8),
{
}

/// The staged database is copied only when the last attempt has failed.
pub proof fn lemma_copy_only_after_last_attempt(s: SwapState, ok: bool)
    requires
        well_formed(s),
        step_spec(s, ok).1 == SwapAction::CopyStaged,
    ensures
        s.attempt == MAX_SWAP_ATTEMPTS,
        s.phase == SwapPhase::Restoring((DATABASE_FILES - 1) as u8) || s.phase
            == SwapPhase::Waiting,
{
}

} // verus!
