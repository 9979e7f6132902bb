//! Where the main window appears: next to the cursor, centred on the cursor's
//! monitor, or where it was.
use vstd::prelude::*;
use crate::text::{chars_of, chars_eq};

verus! {

/// How the window is placed when it is shown.
#[derive(Debug, Clone, Copy, PartialEq, Eq, Structural)]
pub enum PositionMode {
    /// Below and to the right of the cursor, kept on its monitor.
    FollowCursor,
    /// Centred on the cursor's monitor.
    ScreenCenter,
    /// Left where it was.
    FixedPosition,
}

/// The mode a setting value names; unknown and older values follow the cursor.
pub open spec fn position_mode_spec(s: Seq<char>) -> PositionMode {
    if s == "screen_center"@ {
        PositionMode::ScreenCenter
    } else if s == "fixed_position"@ {
        PositionMode::FixedPosition
    } else {
        PositionMode::FollowCursor
    }
}

fn same(a: &str, b: &str) -> (r: bool)
    ensures
        r == (a@ == b@),
{
    let x = chars_of(a);
    let y = chars_of(b);
    chars_eq(x.as_slice(), y.as_slice())
}

impl PositionMode {
    /// The mode a setting value names (`screen_center`, `fixed_position`; anything
    /// else, older values included, follows the cursor).
    pub fn from_str(s: &str) -> (m: Self)
        ensures
            m == position_mode_spec(s@),
    {
        if same(s, "screen_center") {
            PositionMode::ScreenCenter
        } else if same(s, "fixed_position") {
            PositionMode::FixedPosition
        } else {
            PositionMode::FollowCursor
        }
    }
}

/// A monitor's area in physical pixels.
#[derive(Debug, Clone, Copy, PartialEq, Eq, Structural)]
pub struct MonitorRect {
    pub x: i32,
    pub y: i32,
    pub width: i32,
    pub height: i32,
}

/// The gap between the cursor and the window.
pub const GAP: i32 = 12;

/// The monitor shown when none can be found.
pub open spec fn fallback_monitor() -> MonitorRect {
    MonitorRect { x: 0, y: 0, width: 1920, height: 1080 }
}

/// The point lies on the monitor.
pub open spec fn contains_point(m: MonitorRect, x: int, y: int) -> bool {
    m.x <= x < m.x + m.width && m.y <= y < m.y + m.height
}

/// The first monitor from `k` on holding the point.
pub open spec fn monitor_index_from(monitors: Seq<MonitorRect>, x: int, y: int, k: int) -> Option<
    int,
>
    decreases monitors.len() - k,
{
    if k < 0 || k >= monitors.len() {
        None
    } else if contains_point(monitors[k], x, y) {
        Some(k)
    } else {
        monitor_index_from(monitors, x, y, k + 1)
    }
}

/// The monitor under a point: the first that holds it, else the primary monitor,
/// else a 1920×1080 screen at the origin.
pub open spec fn monitor_at_spec(
    monitors: Seq<MonitorRect>,
    primary: Option<MonitorRect>,
    x: int,
    y: int,
) -> MonitorRect {
    match monitor_index_from(monitors, x, y, 0) {
        Some(k) => monitors[k],
        None => match primary {
            Some(p) => p,
            None => fallback_monitor(),
        },
    }
}

/// The monitor under the point `(x, y)`.
pub fn monitor_at(monitors: &[MonitorRect], primary: Option<MonitorRect>, x: i32, y: i32) -> (m:
    MonitorRect)
    ensures
        m == monitor_at_spec(monitors@, primary, x as int, y as int),
{
    let mut i: usize = 0;
    while i < monitors.len()
        invariant
            i <= monitors@.len(),
            monitor_index_from(monitors@, x as int, y as int, 0) == monitor_index_from(
                monitors@,
                x as int,
                y as int,
                i as int,
            ),
        decreases monitors.len() - i,
    {
        let m = monitors[i];
        let right = m.x as i64 + m.width as i64;
        let bottom = m.y as i64 + m.height as i64;
        if x >= m.x && (x as i64) < right && y >= m.y && (y as i64) < bottom {
            return m;
        }
        i += 1;
    }
    match primary {
        Some(p) => p,
        None => MonitorRect { x: 0, y: 0, width: 1920, height: 1080 },
    }
}

pub open spec fn in_i32(v: int) -> bool {
    i32::MIN <= v <= i32::MAX
}

pub open spec fn clamp_spec(v: int, lo: int, hi: int) -> int {
    let a = if v >= lo {
        v
    } else {
        lo
    };
    if a <= hi {
        a
    } else {
        hi
    }
}

/// The sums that following the cursor computes all fit in `i32`.
pub open spec fn follow_cursor_fits(cx: int, cy: int, w: int, h: int, m: MonitorRect) -> bool {
    &&& in_i32(cx + GAP)
    &&& in_i32(cy + GAP)
    &&& in_i32(cx + GAP + w)
    &&& in_i32(m.x + m.width)
    &&& (cx + GAP + w > m.x + m.width ==> in_i32(cx - w) && in_i32(cx - w - GAP))
    &&& in_i32(m.x + m.width - w)
    &&& in_i32(m.y + m.height)
    &&& in_i32(m.y + m.height - h)
}

/// Below and right of the cursor; to its left when the window would cross the
/// monitor's right edge; then kept inside the monitor (its left and top edges win
/// when the window is larger than the monitor).
pub open spec fn follow_cursor_spec(cx: int, cy: int, w: int, h: int, m: MonitorRect) -> (int, int) {
    let x0 = if cx + GAP + w > m.x + m.width {
        cx - w - GAP
    } else {
        cx + GAP
    };
    (
        clamp_spec(x0, m.x as int, m.x + m.width - w),
        clamp_spec(cy + GAP, m.y as int, m.y + m.height - h),
    )
}

/// The window position that follows the cursor at `(cx, cy)` for a window of
/// `w`×`h` on monitor `m`.
pub fn calc_follow_cursor(cx: i32, cy: i32, w: i32, h: i32, m: &MonitorRect) -> (p: (i32, i32))
    requires
        follow_cursor_fits(cx as int, cy as int, w as int, h as int, *m),
    ensures
        (p.0 as int, p.1 as int) == follow_cursor_spec(cx as int, cy as int, w as int, h as int, *m),
{
    let mut x = cx + GAP;
    let y = cy + GAP;
    if x + w > m.x + m.width {
        x = cx - w - GAP;
    }
    let hi_x = m.x + m.width - w;
    let x = if x >= m.x {
        x
    } else {
        m.x
    };
    let x = if x <= hi_x {
        x
    } else {
        hi_x
    };
    let hi_y = m.y + m.height - h;
    let y = if y >= m.y {
        y
    } else {
        m.y
    };
    let y = if y <= hi_y {
        y
    } else {
        hi_y
    };
    (x, y)
}

/// Integer division rounding toward zero, as `/` on `i32` does.
pub open spec fn div_toward_zero(a: int, b: int) -> int {
    if a >= 0 {
        a / b
    } else {
        -((-a) / b)
    }
}

/// The position that centres a `w`×`h` window on monitor `m`.
pub fn calc_screen_center(w: i32, h: i32, m: &MonitorRect) -> (p: (i32, i32))
    requires
        in_i32(m.width - w),
        in_i32(m.height - h),
        in_i32(m.x + div_toward_zero(m.width - w, 2)),
        in_i32(m.y + div_toward_zero(m.height - h, 2)),
    ensures
        p.0 == m.x + div_toward_zero(m.width - w, 2),
        p.1 == m.y + div_toward_zero(m.height - h, 2),
{
    let dx = m.width - w;
    let dy = m.height - h;
    (m.x + dx / 2, m.y + dy / 2)
}

/// Following the cursor keeps the window's left and top edges on the monitor, and
/// its right and bottom edges too whenever the window fits on the monitor.
pub proof fn lemma_follow_cursor_stays_on_monitor(cx: int, cy: int, w: int, h: int, m: MonitorRect)
    requires
        0 <= w <= m.width,
        0 <= h <= m.height,
    ensures
        m.x <= follow_cursor_spec(cx, cy, w, h, m).0,
        follow_cursor_spec(cx, cy, w, h, m).0 + w <= m.x + m.width,
        m.y <= follow_cursor_spec(cx, cy, w, h, m).1,
        follow_cursor_spec(cx, cy, w, h, m).1 + h <= m.y + m.height,
{
}

} // verus!
