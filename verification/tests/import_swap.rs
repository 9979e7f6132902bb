use elegant_clipboard::import_swap::{begin, SwapAction, SwapPhase, SwapState, MAX_SWAP_ATTEMPTS};
use elegant_clipboard::import_swap::SwapAction::{
    BackUp, CopyStaged, Finish, Install, RemoveBackup, RemoveStaged, Restore, Wait,
};

/// Runs a swap, answering each action with the next outcome of `outcomes`
/// (or success once they run out), and returns the actions in order.
fn run(staged_exists: bool, outcomes: &[bool]) -> Vec<SwapAction> {
    let (mut state, mut action) = begin(staged_exists, true);
    let mut trace = vec![action];
    let mut i = 0;
    while action != SwapAction::Finish {
        let ok = outcomes.get(i).copied().unwrap_or(true);
        i += 1;
        let (s, a) = state.step(ok);
        state = s;
        action = a;
        trace.push(action);
        assert!(trace.len() < 500, "swap does not end");
    }
    trace
}

#[test]
fn nothing_staged_means_nothing_to_do() {
    assert_eq!(run(false, &[]), vec![SwapAction::Finish]);
}

#[test]
fn missing_directory_stops_after_the_pause() {
    let (state, action) = begin(true, false);
    assert_eq!(action, SwapAction::Wait);
    assert_eq!(state.step(true), (SwapState { attempt: 1, phase: SwapPhase::Finished }, SwapAction::Finish));
}

#[test]
fn clean_swap_backs_up_installs_and_removes_backups() {
    assert_eq!(
        run(true, &[]),
        vec![
            Wait,
            BackUp(0),
            BackUp(1),
            BackUp(2),
            Install,
            RemoveBackup(0),
            RemoveBackup(1),
            RemoveBackup(2),
            Finish
        ]
    );
}

#[test]
fn failed_install_restores_and_retries() {
    // pause, three backups succeed, install fails, restores, wait, then all succeed
    let outcomes = [true, true, true, true, false, true, true, true, true];
    assert_eq!(
        run(true, &outcomes),
        vec![
            Wait,
            BackUp(0),
            BackUp(1),
            BackUp(2),
            Install,
            Restore(0),
            Restore(1),
            Restore(2),
            Wait,
            BackUp(0),
            BackUp(1),
            BackUp(2),
            Install,
            RemoveBackup(0),
            RemoveBackup(1),
            RemoveBackup(2),
            Finish
        ]
    );
}

#[test]
fn failed_backup_restores_all_files() {
    let trace = run(true, &[true, true, false]);
    assert_eq!(&trace[..7], &[Wait, BackUp(0), BackUp(1), Restore(0), Restore(1), Restore(2), Wait]);
}

#[test]
fn ten_failed_attempts_fall_back_to_copy() {
    // Every backup of the database fails; the copy succeeds.
    let mut state_action = begin(true, true);
    let mut trace = vec![state_action.1];
    while state_action.1 != Finish {
        let ok = !matches!(state_action.1, BackUp(_));
        state_action = state_action.0.step(ok);
        trace.push(state_action.1);
    }
    let backups = trace.iter().filter(|a| **a == BackUp(0)).count();
    assert_eq!(backups, MAX_SWAP_ATTEMPTS as usize);
    assert!(!trace.contains(&Install));
    assert_eq!(&trace[trace.len() - 6..], &[Restore(0), Restore(1), Restore(2), CopyStaged, RemoveStaged, Finish]);
    assert_eq!(state_action.0.attempt, MAX_SWAP_ATTEMPTS);
}

#[test]
fn failed_copy_keeps_the_staged_file() {
    let state = SwapState { attempt: MAX_SWAP_ATTEMPTS, phase: SwapPhase::Copying };
    assert_eq!(state.step(false).1, SwapAction::Finish);
    assert_eq!(state.step(true).1, SwapAction::RemoveStaged);
}
