use elegant_clipboard::positioning::{
    calc_follow_cursor, calc_screen_center, monitor_at, MonitorRect, PositionMode,
};

const SCREEN: MonitorRect = MonitorRect { x: 0, y: 0, width: 1920, height: 1080 };

#[test]
fn position_modes_from_settings() {
    assert_eq!(PositionMode::from_str("screen_center"), PositionMode::ScreenCenter);
    assert_eq!(PositionMode::from_str("fixed_position"), PositionMode::FixedPosition);
    assert_eq!(PositionMode::from_str("follow_cursor"), PositionMode::FollowCursor);
    assert_eq!(PositionMode::from_str("cursor_top_aligned"), PositionMode::FollowCursor);
    assert_eq!(PositionMode::from_str("anything"), PositionMode::FollowCursor);
}

#[test]
fn follow_cursor_flips_and_clamps() {
    assert_eq!(calc_follow_cursor(100, 100, 400, 500, &SCREEN), (112, 112));
    // too far right: flips to the left of the cursor
    assert_eq!(calc_follow_cursor(1800, 100, 400, 500, &SCREEN), (1388, 112));
    // too low: clamped to the bottom edge
    assert_eq!(calc_follow_cursor(100, 900, 400, 500, &SCREEN), (112, 580));
    // flipped beyond the left edge: clamped to it
    assert_eq!(calc_follow_cursor(300, 0, 1800, 100, &SCREEN), (0, 12));
}

#[test]
fn centre_and_monitor_lookup() {
    assert_eq!(calc_screen_center(400, 500, &SCREEN), (760, 290));
    let second = MonitorRect { x: 1920, y: 0, width: 1280, height: 1024 };
    let monitors = [SCREEN, second];
    assert_eq!(monitor_at(&monitors, None, 2000, 10), second);
    assert_eq!(monitor_at(&monitors, None, 10, 10), SCREEN);
    assert_eq!(monitor_at(&monitors, Some(second), -5, 10), second);
    assert_eq!(monitor_at(&[], None, 5, 5), SCREEN);
}
