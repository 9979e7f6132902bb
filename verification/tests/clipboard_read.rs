use elegant_clipboard::clipboard_read::{begin_read, read_delay_ms, ReadAction, READ_ATTEMPTS};

/// Runs a read; `reads` gives (found, changed) for each read in turn, then
/// (false, false). Returns the actions.
fn run(reads: &[(bool, bool)]) -> Vec<ReadAction> {
    let (mut state, mut action) = begin_read();
    let mut trace = vec![action];
    let mut i = 0;
    while action != ReadAction::Deliver && action != ReadAction::GiveUp {
        let (found, changed) = if action == ReadAction::Read {
            let r = reads.get(i).copied().unwrap_or((false, false));
            i += 1;
            r
        } else {
            (false, false)
        };
        let (s, a) = state.step(found, changed);
        state = s;
        action = a;
        trace.push(action);
        assert!(trace.len() < 100);
    }
    trace
}

#[test]
fn first_read_with_content_is_delivered() {
    assert_eq!(run(&[(true, false)]), vec![ReadAction::Read, ReadAction::Deliver]);
}

#[test]
fn read_during_a_change_is_repeated_twice_at_most() {
    assert_eq!(
        run(&[(true, true), (true, true), (true, true)]),
        vec![ReadAction::Read, ReadAction::Read, ReadAction::Read, ReadAction::Deliver]
    );
}

#[test]
fn empty_reads_back_off_then_give_up() {
    let trace = run(&[]);
    let waits: Vec<u64> = trace
        .iter()
        .filter_map(|a| match a {
            ReadAction::Wait(ms) => Some(*ms),
            _ => None,
        })
        .collect();
    assert_eq!(waits, vec![40, 80, 140, 220, 360, 560]);
    assert_eq!(trace.iter().filter(|a| **a == ReadAction::Read).count(), READ_ATTEMPTS as usize);
    assert_eq!(trace.last(), Some(&ReadAction::GiveUp));
}

#[test]
fn later_attempt_can_still_deliver() {
    assert_eq!(
        run(&[(false, false), (true, false)]),
        vec![ReadAction::Read, ReadAction::Wait(40), ReadAction::Read, ReadAction::Deliver]
    );
}

#[test]
fn read_delays() {
    assert_eq!(read_delay_ms(0), 0);
    assert_eq!(read_delay_ms(3), 140);
    assert_eq!(read_delay_ms(6), 560);
}
