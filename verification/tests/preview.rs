use elegant_clipboard::preview::PreviewLease;

#[test]
fn newest_lease_wins() {
    let mut l = PreviewLease::new();
    let a = l.allocate();
    let b = l.allocate();
    assert_eq!((a, b), (1, 2));
    assert!(!l.admits(a));
    assert!(l.admits(b));
    assert!(l.still_current(b));
    assert!(l.admits(0));
    assert!(l.still_current(0));
}

#[test]
fn a_request_newer_than_any_lease_is_recorded() {
    let mut l = PreviewLease::new();
    assert!(l.promote(7));
    assert_eq!(l.latest, 7);
    assert!(!l.promote(3));
    assert_eq!(l.latest, 7);
    assert!(l.is_current(7));
}

#[test]
fn hiding_retires_every_lease() {
    let mut l = PreviewLease::new();
    let a = l.allocate();
    l.invalidate();
    assert!(!l.is_current(a));
    assert!(!l.admits(a));
    let b = l.allocate();
    assert!(l.admits(b));
}

#[test]
fn counter_wraps_like_an_atomic() {
    let mut l = PreviewLease { latest: u64::MAX };
    assert_eq!(l.allocate(), 0);
}

#[test]
fn hide_with_a_lease_blocks_its_late_show() {
    let mut l = PreviewLease::new();
    let t = l.allocate();
    assert!(l.hide_request(t));
    assert_eq!(l.latest, t + 1);
    assert!(!l.admits(t));
}

#[test]
fn hide_with_an_old_lease_leaves_the_newer_preview() {
    let mut l = PreviewLease::new();
    let old = l.allocate();
    let newer = l.allocate();
    assert!(!l.hide_request(old));
    assert_eq!(l.latest, newer);
    assert!(l.still_current(newer));
    assert!(l.hide_request(0));
    assert_eq!(l.latest, newer);
}

#[test]
fn hide_before_the_show_is_seen_still_blocks_it() {
    let mut l = PreviewLease::new();
    assert!(!l.hide_request(5));
    assert_eq!(l.latest, 6);
    assert!(!l.admits(5));
}
