use elegant_clipboard::db_sequence::{
    begin_move, begin_switch, failure_code, move_step, switch_step, MoveAction, MoveOutcome,
    MovePhase, SequenceFailure, SwitchAction, SwitchPhase,
};

fn run_switch(outcomes: &[bool]) -> Vec<SwitchAction> {
    let (mut p, mut a) = begin_switch();
    let mut trace = vec![a];
    let mut i = 0;
    while !matches!(p, SwitchPhase::Over(_)) {
        let ok = outcomes.get(i).copied().unwrap_or(true);
        i += 1;
        let (np, na) = switch_step(p, ok);
        p = np;
        a = na;
        trace.push(a);
    }
    trace
}

#[test]
fn switch_opens_saves_then_swaps() {
    assert_eq!(
        run_switch(&[]),
        vec![SwitchAction::Open, SwitchAction::Save, SwitchAction::SwapIn, SwitchAction::Announce, SwitchAction::Succeed]
    );
    assert_eq!(
        run_switch(&[false]),
        vec![SwitchAction::Open, SwitchAction::Fail(SequenceFailure::OpenFailed)]
    );
    assert_eq!(
        run_switch(&[true, false]),
        vec![SwitchAction::Open, SwitchAction::Save, SwitchAction::Fail(SequenceFailure::ConfigSave)]
    );
    // a failed announcement does not fail the switch
    assert_eq!(run_switch(&[true, true, true, false]).last(), Some(&SwitchAction::Succeed));
}

fn run_move(existed: bool, copied: MoveOutcome, outcomes: &[bool]) -> Vec<MoveAction> {
    let (mut p, mut a) = begin_move(existed);
    let mut trace = vec![a];
    let mut i = 0;
    while !matches!(p, MovePhase::Over(_)) {
        let ok = outcomes.get(i).copied().unwrap_or(true);
        i += 1;
        let (np, na) = move_step(p, copied, ok);
        p = np;
        a = na;
        trace.push(a);
    }
    trace
}

#[test]
fn move_removes_only_a_target_it_made() {
    assert_eq!(
        run_move(false, MoveOutcome::Failed, &[]),
        vec![MoveAction::CopyData, MoveAction::RemoveTarget, MoveAction::ReportCopyError]
    );
    assert_eq!(
        run_move(true, MoveOutcome::Failed, &[]),
        vec![MoveAction::CopyData, MoveAction::ReportCopyError]
    );
    assert_eq!(
        run_move(false, MoveOutcome::Incomplete, &[]),
        vec![MoveAction::CopyData, MoveAction::RemoveTarget, MoveAction::ReportIncomplete]
    );
    assert_eq!(
        run_move(true, MoveOutcome::Incomplete, &[]),
        vec![MoveAction::CopyData, MoveAction::ReportIncomplete]
    );
}

#[test]
fn complete_move_opens_saves_and_swaps() {
    assert_eq!(
        run_move(false, MoveOutcome::Complete, &[]),
        vec![MoveAction::CopyData, MoveAction::Open, MoveAction::Save, MoveAction::SwapIn, MoveAction::Succeed]
    );
    assert_eq!(
        run_move(false, MoveOutcome::Complete, &[true, false]),
        vec![MoveAction::CopyData, MoveAction::Open, MoveAction::Fail(SequenceFailure::OpenFailed)]
    );
    assert_eq!(
        run_move(false, MoveOutcome::Complete, &[true, true, false]),
        vec![MoveAction::CopyData, MoveAction::Open, MoveAction::Save, MoveAction::Fail(SequenceFailure::ConfigSave)]
    );
}

#[test]
fn failure_codes() {
    assert_eq!(failure_code(SequenceFailure::OpenFailed), "OPEN_FAILED");
    assert_eq!(failure_code(SequenceFailure::ConfigSave), "CONFIG_SAVE");
}
