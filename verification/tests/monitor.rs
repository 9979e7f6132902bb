use elegant_clipboard::monitor::{newest_capture, restart_backoff_ms, MonitorState};

#[test]
fn pauses_nest_and_resume_undoes_one() {
    let mut m = MonitorState::new();
    assert!(!m.accepts_change());
    assert!(m.start());
    assert!(!m.start());
    assert!(m.accepts_change());
    m.pause();
    m.pause();
    assert!(m.is_paused());
    assert!(!m.accepts_change());
    assert!(m.resume());
    assert!(m.is_paused());
    assert!(m.resume());
    assert!(!m.is_paused());
    assert!(!m.resume());
    assert_eq!(m.pause_count, 0);
    assert!(m.accepts_change());
}

#[test]
fn user_pause_is_separate_from_internal_pauses() {
    let mut m = MonitorState::new();
    m.start();
    assert!(m.toggle_user_pause());
    assert!(!m.is_paused());
    assert!(!m.accepts_change());
    assert!(!m.toggle_user_pause());
    assert!(m.accepts_change());
    m.stop();
    assert!(!m.is_running());
    assert!(!m.accepts_change());
}

#[test]
fn pause_count_wraps_like_an_atomic() {
    let mut m = MonitorState { running: true, pause_count: u32::MAX, user_paused: false };
    m.pause();
    assert_eq!(m.pause_count, 0);
}

#[test]
fn restart_delay_doubles_up_to_the_ceiling() {
    let got: Vec<u64> = (0..9).map(restart_backoff_ms).collect();
    assert_eq!(got, vec![100, 200, 400, 800, 1600, 3200, 5000, 5000, 5000]);
    assert_eq!(restart_backoff_ms(u32::MAX), 5000);
}

#[test]
fn only_the_newest_waiting_capture_is_processed() {
    let (kept, dropped) = newest_capture(1, vec![2, 3, 4]);
    assert_eq!(kept, 4);
    assert_eq!(dropped, vec![1, 2, 3]);
    let (only, none) = newest_capture("a", vec![]);
    assert_eq!(only, "a");
    assert!(none.is_empty());
}
