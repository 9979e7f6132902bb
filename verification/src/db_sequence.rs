//! The order of the file and database work when switching to another database and
//! when moving the active database's data to a new directory, once their checks have
//! passed (`databases`). The caller performs each action and reports whether it
//! succeeded; `step` says what comes next.
//!
//! A switch opens the new database, saves it as the active one, and only then puts it
//! in place of the current one; a failure on the way leaves the current database in
//! use. A move copies the data, opens it at the new place, repoints the active
//! registration, and only then puts it in place; a target directory made by the move
//! is removed again when the copy fails or is incomplete, and one that existed before
//! is never removed.
use vstd::prelude::*;

verus! {

/// Why a switch or a move failed after its checks.
#[derive(Clone, Copy, Debug, PartialEq, Eq, Structural)]
pub enum SequenceFailure {
    /// The database could not be opened (`OPEN_FAILED`).
    OpenFailed,
    /// The configuration could not be saved (`CONFIG_SAVE`).
    ConfigSave,
}

/// The error code of a failure.
pub fn failure_code(f: SequenceFailure) -> (c: &'static str)
    ensures
        c@ == match f {
            SequenceFailure::OpenFailed => "OPEN_FAILED"@,
            SequenceFailure::ConfigSave => "CONFIG_SAVE"@,
        },
{
    match f {
        SequenceFailure::OpenFailed => "OPEN_FAILED",
        SequenceFailure::ConfigSave => "CONFIG_SAVE",
    }
}

// ------------------------------------------------------------------ switching

/// A step of a switch.
#[derive(Clone, Copy, Debug, PartialEq, Eq, Structural)]
pub enum SwitchAction {
    /// Open the target database.
    Open,
    /// Save the target as the active database.
    Save,
    /// Put the opened database in place of the current one, and forget the active
    /// group.
    SwapIn,
    /// Tell the windows that the database changed; the outcome does not matter.
    Announce,
    /// The switch is done.
    Succeed,
    /// The switch failed; the current database stays in use.
    Fail(SequenceFailure),
}

/// What a switch is waiting to hear about.
#[derive(Clone, Copy, Debug, PartialEq, Eq, Structural)]
pub enum SwitchPhase {
    Opening,
    Saving,
    Swapping,
    Announcing,
    Over(SwitchAction),
}

/// The first step of a switch.
pub fn begin_switch() -> (r: (SwitchPhase, SwitchAction))
    ensures
        r == (SwitchPhase::Opening, SwitchAction::Open),
{
    (SwitchPhase::Opening, SwitchAction::Open)
}

/// The next phase and action of a switch, given whether the last action succeeded.
pub open spec fn switch_step_spec(p: SwitchPhase, ok: bool) -> (SwitchPhase, SwitchAction) {
    match p {
        SwitchPhase::Opening => if ok {
            (SwitchPhase::Saving, SwitchAction::Save)
        } else {
            let a = SwitchAction::Fail(SequenceFailure::OpenFailed);
            (SwitchPhase::Over(a), a)
        },
        SwitchPhase::Saving => if ok {
            (SwitchPhase::Swapping, SwitchAction::SwapIn)
        } else {
            let a = SwitchAction::Fail(SequenceFailure::ConfigSave);
            (SwitchPhase::Over(a), a)
        },
        SwitchPhase::Swapping => (SwitchPhase::Announcing, SwitchAction::Announce),
        SwitchPhase::Announcing => (SwitchPhase::Over(SwitchAction::Succeed), SwitchAction::Succeed),
        SwitchPhase::Over(a) => (SwitchPhase::Over(a), a),
    }
}

/// The next phase and action of a switch (see `switch_step_spec`).
pub fn switch_step(p: SwitchPhase, ok: bool) -> (r: (SwitchPhase, SwitchAction))
    ensures
        r == switch_step_spec(p, ok),
{
    match p {
        SwitchPhase::Opening => if ok {
            (SwitchPhase::Saving, SwitchAction::Save)
        } else {
            let a = SwitchAction::Fail(SequenceFailure::OpenFailed);
            (SwitchPhase::Over(a), a)
        },
        SwitchPhase::Saving => if ok {
            (SwitchPhase::Swapping, SwitchAction::SwapIn)
        } else {
            let a = SwitchAction::Fail(SequenceFailure::ConfigSave);
            (SwitchPhase::Over(a), a)
        },
        SwitchPhase::Swapping => (SwitchPhase::Announcing, SwitchAction::Announce),
        SwitchPhase::Announcing => (SwitchPhase::Over(SwitchAction::Succeed), SwitchAction::Succeed),
        SwitchPhase::Over(a) => (SwitchPhase::Over(a), a),
    }
}

/// The switch ends after at most four reports.
pub open spec fn switch_rank(p: SwitchPhase) -> nat {
    match p {
        SwitchPhase::Opening => 4,
        SwitchPhase::Saving => 3,
        SwitchPhase::Swapping => 2,
        SwitchPhase::Announcing => 1,
        SwitchPhase::Over(_) => 0,
    }
}

/// A switch is over only with its final answer; it starts well formed.
pub open spec fn switch_well_formed(p: SwitchPhase) -> bool {
    p matches SwitchPhase::Over(a) ==> (a == SwitchAction::Succeed || a is Fail)
}

/// The current database is replaced only after the target opened and was saved as
/// the active one: the swap comes right after a successful save, which comes right
/// after a successful open. A failure is final, whether the announcement reaches the
/// windows does not matter, and every step brings the end nearer.
pub proof fn lemma_switch_swaps_only_after_open_and_save(p: SwitchPhase, ok: bool)
    requires
        switch_well_formed(p),
    ensures
        switch_well_formed(switch_step_spec(p, ok).0),
        switch_step_spec(p, ok).1 == SwitchAction::SwapIn ==> p == SwitchPhase::Saving && ok,
        switch_step_spec(p, ok).0 == SwitchPhase::Saving ==> p == SwitchPhase::Opening && ok,
        p is Over ==> switch_step_spec(p, ok).0 == p,
        switch_step_spec(SwitchPhase::Announcing, true) == switch_step_spec(
            SwitchPhase::Announcing,
            false,
        ),
        !(p is Over) ==> switch_rank(switch_step_spec(p, ok).0) < switch_rank(p),
{
}

// ------------------------------------------------------------------ moving the data

/// How copying the data went.
#[derive(Clone, Copy, Debug, PartialEq, Eq, Structural)]
pub enum MoveOutcome {
    /// It stopped with an error.
    Failed,
    /// It ended, but some files were not copied.
    Incomplete,
    /// Everything was copied.
    Complete,
}

/// A step of a move.
#[derive(Clone, Copy, Debug, PartialEq, Eq, Structural)]
pub enum MoveAction {
    /// Copy the data to the target.
    CopyData,
    /// Remove the target directory and what was copied into it.
    RemoveTarget,
    /// Open the database at the target.
    Open,
    /// Repoint the active registration and the data path at the target.
    Save,
    /// Put the opened database in place of the current one.
    SwapIn,
    /// Report the error of the copy.
    ReportCopyError,
    /// Report what the copy did and did not do.
    ReportIncomplete,
    /// The move is done.
    Succeed,
    /// The move failed after the copy; the current database stays in use.
    Fail(SequenceFailure),
}

/// What a move is waiting to hear about; `existed` says whether the target
/// directory existed before.
#[derive(Clone, Copy, Debug, PartialEq, Eq, Structural)]
pub enum MovePhase {
    Copying { existed: bool },
    RemovingAfterError,
    RemovingAfterIncomplete,
    Opening,
    Saving,
    Swapping,
    Over(MoveAction),
}

/// The first step of a move to a target that existed (`true`) or not.
pub fn begin_move(existed: bool) -> (r: (MovePhase, MoveAction))
    ensures
        r == (MovePhase::Copying { existed }, MoveAction::CopyData),
{
    (MovePhase::Copying { existed }, MoveAction::CopyData)
}

/// The next phase and action of a move: `copied` is how the copy went (read after
/// `CopyData`), `ok` whether any other action succeeded.
pub open spec fn move_step_spec(p: MovePhase, copied: MoveOutcome, ok: bool) -> (
    MovePhase,
    MoveAction,
) {
    match p {
        MovePhase::Copying { existed } => match copied {
            MoveOutcome::Failed => if existed {
                (MovePhase::Over(MoveAction::ReportCopyError), MoveAction::ReportCopyError)
            } else {
                (MovePhase::RemovingAfterError, MoveAction::RemoveTarget)
            },
            MoveOutcome::Incomplete => if existed {
                (MovePhase::Over(MoveAction::ReportIncomplete), MoveAction::ReportIncomplete)
            } else {
                (MovePhase::RemovingAfterIncomplete, MoveAction::RemoveTarget)
            },
            MoveOutcome::Complete => (MovePhase::Opening, MoveAction::Open),
        },
        MovePhase::RemovingAfterError => (
            MovePhase::Over(MoveAction::ReportCopyError),
            MoveAction::ReportCopyError,
        ),
        MovePhase::RemovingAfterIncomplete => (
            MovePhase::Over(MoveAction::ReportIncomplete),
            MoveAction::ReportIncomplete,
        ),
        MovePhase::Opening => if ok {
            (MovePhase::Saving, MoveAction::Save)
        } else {
            let a = MoveAction::Fail(SequenceFailure::OpenFailed);
            (MovePhase::Over(a), a)
        },
        MovePhase::Saving => if ok {
            (MovePhase::Swapping, MoveAction::SwapIn)
        } else {
            let a = MoveAction::Fail(SequenceFailure::ConfigSave);
            (MovePhase::Over(a), a)
        },
        MovePhase::Swapping => (MovePhase::Over(MoveAction::Succeed), MoveAction::Succeed),
        MovePhase::Over(a) => (MovePhase::Over(a), a),
    }
}

/// The next phase and action of a move (see `move_step_spec`).
pub fn move_step(p: MovePhase, copied: MoveOutcome, ok: bool) -> (r: (MovePhase, MoveAction))
    ensures
        r == move_step_spec(p, copied, ok),
{
    match p {
        MovePhase::Copying { existed } => match copied {
            MoveOutcome::Failed => if existed {
                (MovePhase::Over(MoveAction::ReportCopyError), MoveAction::ReportCopyError)
            } else {
                (MovePhase::RemovingAfterError, MoveAction::RemoveTarget)
            },
            MoveOutcome::Incomplete => if existed {
                (MovePhase::Over(MoveAction::ReportIncomplete), MoveAction::ReportIncomplete)
            } else {
                (MovePhase::RemovingAfterIncomplete, MoveAction::RemoveTarget)
            },
            MoveOutcome::Complete => (MovePhase::Opening, MoveAction::Open),
        },
        MovePhase::RemovingAfterError => (
            MovePhase::Over(MoveAction::ReportCopyError),
            MoveAction::ReportCopyError,
        ),
        MovePhase::RemovingAfterIncomplete => (
            MovePhase::Over(MoveAction::ReportIncomplete),
            MoveAction::ReportIncomplete,
        ),
        MovePhase::Opening => if ok {
            (MovePhase::Saving, MoveAction::Save)
        } else {
            let a = MoveAction::Fail(SequenceFailure::OpenFailed);
            (MovePhase::Over(a), a)
        },
        MovePhase::Saving => if ok {
            (MovePhase::Swapping, MoveAction::SwapIn)
        } else {
            let a = MoveAction::Fail(SequenceFailure::ConfigSave);
            (MovePhase::Over(a), a)
        },
        MovePhase::Swapping => (MovePhase::Over(MoveAction::Succeed), MoveAction::Succeed),
        MovePhase::Over(a) => (MovePhase::Over(a), a),
    }
}

/// The move ends after at most four reports.
pub open spec fn move_rank(p: MovePhase) -> nat {
    match p {
        MovePhase::Copying { .. } => 4,
        MovePhase::Opening => 3,
        MovePhase::Saving => 2,
        MovePhase::RemovingAfterError => 1,
        MovePhase::RemovingAfterIncomplete => 1,
        MovePhase::Swapping => 1,
        MovePhase::Over(_) => 0,
    }
}

/// A move is over only with its final answer.
pub open spec fn move_well_formed(p: MovePhase) -> bool {
    p matches MovePhase::Over(a) ==> (a == MoveAction::Succeed || a is Fail || a
        == MoveAction::ReportCopyError || a == MoveAction::ReportIncomplete)
}

/// The target directory is removed only right after a copy that failed or was
/// incomplete, and only when the move made it; the current database is replaced only
/// after a complete copy, a successful open and a successful save; every step brings
/// the end nearer.
pub proof fn lemma_move_removes_only_its_own_target(p: MovePhase, copied: MoveOutcome, ok: bool)
    requires
        move_well_formed(p),
    ensures
        move_well_formed(move_step_spec(p, copied, ok).0),
        move_step_spec(p, copied, ok).1 == MoveAction::RemoveTarget ==> (p matches MovePhase::Copying {
            existed,
        } && !existed && copied != MoveOutcome::Complete),
        move_step_spec(p, copied, ok).1 == MoveAction::SwapIn ==> p == MovePhase::Saving && ok,
        move_step_spec(p, copied, ok).0 == MovePhase::Saving ==> p == MovePhase::Opening && ok,
        move_step_spec(p, copied, ok).0 == MovePhase::Opening ==> (p is Copying && copied
            == MoveOutcome::Complete),
        !(p is Over) ==> move_rank(move_step_spec(p, copied, ok).0) < move_rank(p),
{
}

} // verus!
