use elegant_clipboard::input_hook::{
    is_outside, nav_key, on_click, on_key, HookSwitches, KeyHookDecision, NavKey, WindowRect,
    VK_DOWN, VK_ESCAPE, VK_RETURN,
};

fn switches(nav: bool) -> HookSwitches {
    HookSwitches { mouse_monitoring: true, window_pinned: false, translate_pinned: false, keyboard_nav: nav }
}

#[test]
fn navigation_keys_go_to_the_clipboard_window() {
    assert_eq!(nav_key(VK_RETURN), Some(NavKey::Enter));
    assert_eq!(nav_key(0x41), None);
    assert_eq!(NavKey::ArrowDown.name(), "ArrowDown");
    let d = on_key(switches(true), true, false, VK_DOWN, 100, 200);
    assert_eq!(d, KeyHookDecision { escape: false, navigate: Some(NavKey::ArrowDown), swallow: true });
    let up = on_key(switches(true), false, true, VK_DOWN, 100, 200);
    assert_eq!(up, KeyHookDecision { escape: false, navigate: None, swallow: true });
    let focused = on_key(switches(true), true, false, VK_DOWN, 100, 100);
    assert!(!focused.swallow);
    let off = on_key(switches(false), true, false, VK_DOWN, 100, 200);
    assert!(!off.swallow && off.navigate.is_none());
}

#[test]
fn escape_is_passed_on_while_active() {
    let d = on_key(switches(true), true, false, VK_ESCAPE, 100, 200);
    assert!(d.escape && !d.swallow);
    let mut pinned = switches(true);
    pinned.window_pinned = true;
    assert!(!on_key(pinned, true, false, VK_ESCAPE, 100, 200).escape);
}

#[test]
fn clicks_check_unpinned_windows() {
    assert_eq!(on_click(switches(false)), (true, true));
    let mut s = switches(false);
    s.translate_pinned = true;
    assert_eq!(on_click(s), (false, true));
    s.mouse_monitoring = false;
    assert_eq!(on_click(s), (false, false));
    let r = WindowRect { left: 0, top: 0, right: 10, bottom: 10 };
    assert!(!is_outside(10, 10, r));
    assert!(is_outside(11, 5, r));
    assert!(is_outside(5, -1, r));
}
