//! What the global mouse and keyboard hooks do with an event.
//!
//! A click outside the clipboard window hides it (unless it is pinned), and one outside
//! the translation window closes that (unless it is pinned); Escape is passed to the
//! window. While keyboard navigation is on and another window has the focus, the arrow
//! keys, Enter and Delete go to the clipboard window instead of the focused one.
use vstd::prelude::*;

verus! {

/// Windows virtual-key codes the hooks look at.
pub const VK_RETURN: u32 = 0x0D;
pub const VK_ESCAPE: u32 = 0x1B;
pub const VK_LEFT: u32 = 0x25;
pub const VK_UP: u32 = 0x26;
pub const VK_RIGHT: u32 = 0x27;
pub const VK_DOWN: u32 = 0x28;
pub const VK_DELETE: u32 = 0x2E;

/// The switches the hooks consult.
#[derive(Debug, Clone, Copy, PartialEq, Eq, Structural)]
pub struct HookSwitches {
    /// The mouse is watched (the clipboard window is shown).
    pub mouse_monitoring: bool,
    /// The clipboard window stays open on a click outside.
    pub window_pinned: bool,
    /// The translation window stays open on a click outside.
    pub translate_pinned: bool,
    /// Navigation keys go to the clipboard window.
    pub keyboard_nav: bool,
}

/// A key the clipboard window navigates with.
#[derive(Debug, Clone, Copy, PartialEq, Eq, Structural)]
pub enum NavKey {
    ArrowUp,
    ArrowDown,
    ArrowLeft,
    ArrowRight,
    Enter,
    Delete,
}

pub open spec fn nav_key_spec(vk: u32) -> Option<NavKey> {
    if vk == VK_UP {
        Some(NavKey::ArrowUp)
    } else if vk == VK_DOWN {
        Some(NavKey::ArrowDown)
    } else if vk == VK_LEFT {
        Some(NavKey::ArrowLeft)
    } else if vk == VK_RIGHT {
        Some(NavKey::ArrowRight)
    } else if vk == VK_RETURN {
        Some(NavKey::Enter)
    } else if vk == VK_DELETE {
        Some(NavKey::Delete)
    } else {
        None
    }
}

/// The navigation key a virtual key is, if any.
pub fn nav_key(vk: u32) -> (k: Option<NavKey>)
    ensures
        k == nav_key_spec(vk),
{
    if vk == VK_UP {
        Some(NavKey::ArrowUp)
    } else if vk == VK_DOWN {
        Some(NavKey::ArrowDown)
    } else if vk == VK_LEFT {
        Some(NavKey::ArrowLeft)
    } else if vk == VK_RIGHT {
        Some(NavKey::ArrowRight)
    } else if vk == VK_RETURN {
        Some(NavKey::Enter)
    } else if vk == VK_DELETE {
        Some(NavKey::Delete)
    } else {
        None
    }
}

impl NavKey {
    /// The key's name as the window receives it.
    pub fn name(self) -> (n: &'static str)
        ensures
            n@ == match self {
                NavKey::ArrowUp => "ArrowUp"@,
                NavKey::ArrowDown => "ArrowDown"@,
                NavKey::ArrowLeft => "ArrowLeft"@,
                NavKey::ArrowRight => "ArrowRight"@,
                NavKey::Enter => "Enter"@,
                NavKey::Delete => "Delete"@,
            },
    {
        match self {
            NavKey::ArrowUp => "ArrowUp",
            NavKey::ArrowDown => "ArrowDown",
            NavKey::ArrowLeft => "ArrowLeft",
            NavKey::ArrowRight => "ArrowRight",
            NavKey::Enter => "Enter",
            NavKey::Delete => "Delete",
        }
    }
}

/// What the keyboard hook does with a key event.
#[derive(Debug, Clone, Copy, PartialEq, Eq, Structural)]
pub struct KeyHookDecision {
    /// Tell the clipboard window that Escape was pressed.
    pub escape: bool,
    /// Send this navigation key to the clipboard window.
    pub navigate: Option<NavKey>,
    /// Keep the event from the focused window.
    pub swallow: bool,
}

/// Whether the hooks act on the clipboard window: the mouse is watched and the window
/// is not pinned.
pub open spec fn active(s: HookSwitches) -> bool {
    s.mouse_monitoring && !s.window_pinned
}

/// What the keyboard hook does with a key going down (`down`) or up (`up`): Escape
/// down is passed on while the hooks are active; a navigation key, while navigation is
/// on and the clipboard window is known (`main_window != 0`) but not the foreground
/// window, is kept from the focused window, and sent (on key down) to the clipboard
/// window.
pub open spec fn key_decision(
    s: HookSwitches,
    down: bool,
    up: bool,
    vk: u32,
    main_window: int,
    foreground: int,
) -> KeyHookDecision {
    let redirect = s.keyboard_nav && (down || up) && main_window != 0 && foreground != main_window
        && nav_key_spec(vk) is Some;
    KeyHookDecision {
        escape: down && vk == VK_ESCAPE && active(s),
        navigate: if redirect && down {
            nav_key_spec(vk)
        } else {
            None
        },
        swallow: redirect,
    }
}

/// What the keyboard hook does with a key event (see `key_decision`).
pub fn on_key(
    s: HookSwitches,
    down: bool,
    up: bool,
    vk: u32,
    main_window: isize,
    foreground: isize,
) -> (d: KeyHookDecision)
    ensures
        d == key_decision(s, down, up, vk, main_window as int, foreground as int),
{
    let key = nav_key(vk);
    let redirect = s.keyboard_nav && (down || up) && main_window != 0 && foreground != main_window
        && key.is_some();
    KeyHookDecision {
        escape: down && vk == VK_ESCAPE && s.mouse_monitoring && !s.window_pinned,
        navigate: if redirect && down {
            key
        } else {
            None
        },
        swallow: redirect,
    }
}

/// Which windows a click checks: the translation window unless pinned, the clipboard
/// window unless pinned; neither while the mouse is not watched.
pub fn on_click(s: HookSwitches) -> (r: (bool, bool))
    ensures
        r.0 == (s.mouse_monitoring && !s.translate_pinned),
        r.1 == (s.mouse_monitoring && !s.window_pinned),
{
    if !s.mouse_monitoring {
        (false, false)
    } else {
        (!s.translate_pinned, !s.window_pinned)
    }
}

/// A window's rectangle, edges included.
#[derive(Debug, Clone, Copy, PartialEq, Eq, Structural)]
pub struct WindowRect {
    pub left: i32,
    pub top: i32,
    pub right: i32,
    pub bottom: i32,
}

/// Whether a point is outside the rectangle (its edges count as inside).
pub fn is_outside(x: i32, y: i32, rect: WindowRect) -> (b: bool)
    ensures
        b == (x < rect.left || x > rect.right || y < rect.top || y > rect.bottom),
{
    x < rect.left || x > rect.right || y < rect.top || y > rect.bottom
}

/// A key event is kept from the focused window only while navigation is on, the
/// clipboard window is not the foreground window, and the key is a navigation key;
/// Escape is never kept from it.
pub proof fn lemma_only_navigation_keys_are_taken(
    s: HookSwitches,
    down: bool,
    up: bool,
    vk: u32,
    main_window: int,
    foreground: int,
)
    ensures
        key_decision(s, down, up, vk, main_window, foreground).swallow ==> s.keyboard_nav
            && foreground != main_window && nav_key_spec(vk) is Some,
        !key_decision(s, down, up, VK_ESCAPE, main_window, foreground).swallow,
        key_decision(s, down, up, vk, main_window, foreground).navigate is Some ==> key_decision(
            s,
            down,
            up,
            vk,
            main_window,
            foreground,
        ).swallow,
{
}

} // verus!
