use elegant_clipboard::win_v::{disable_change, enable_change, is_disabled, ValueChange};

#[test]
fn disabling_appends_v_once() {
    assert_eq!(disable_change(""), ValueChange::Write("V".into()));
    assert_eq!(disable_change("AB"), ValueChange::Write("ABV".into()));
    assert_eq!(disable_change("AVB"), ValueChange::Keep);
    assert!(is_disabled("xV"));
    assert!(!is_disabled("v"));
}

#[test]
fn enabling_removes_every_v() {
    assert_eq!(enable_change("V"), ValueChange::Delete);
    assert_eq!(enable_change(""), ValueChange::Delete);
    assert_eq!(enable_change("AVBV"), ValueChange::Write("AB".into()));
    assert_eq!(enable_change("AB"), ValueChange::Keep);
}
