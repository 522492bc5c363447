use calendar::taskbar::{clock_click_event, walk_step, WalkStep, CLOCK_SEARCH_DEPTH};
use calendar::taskbar::{in_clock_area, is_clock_class, is_taskbar_class, ScreenPoint, ScreenRect};

#[test]
fn clock_classes() {
    assert!(is_clock_class("TrayClockWClass"));
    assert!(is_clock_class("ClockButton"));
    assert!(is_clock_class("XDateTimeY"));
    assert!(!is_clock_class("Button"));
    assert!(!is_clock_class("clock"));
    assert!(!is_clock_class(""));
    assert!(is_taskbar_class("Shell_TrayWnd"));
    assert!(!is_taskbar_class("Shell_TrayWndX"));
}

#[test]
fn clock_area_of_horizontal_and_vertical_taskbars() {
    let bottom_bar = ScreenRect { left: 0, top: 1040, right: 1920, bottom: 1080 };
    assert!(in_clock_area(ScreenPoint { x: 1800, y: 1060 }, bottom_bar));
    assert!(!in_clock_area(ScreenPoint { x: 100, y: 1060 }, bottom_bar));
    assert!(in_clock_area(ScreenPoint { x: 1700, y: 1060 }, bottom_bar));
    assert!(!in_clock_area(ScreenPoint { x: 1699, y: 1060 }, bottom_bar));
    let left_bar = ScreenRect { left: 0, top: 0, right: 60, bottom: 1080 };
    assert!(in_clock_area(ScreenPoint { x: 10, y: 1000 }, left_bar));
    assert!(!in_clock_area(ScreenPoint { x: 10, y: 100 }, left_bar));
    let extreme = ScreenRect { left: i32::MIN, top: i32::MIN, right: i32::MAX, bottom: i32::MIN };
    assert!(!in_clock_area(ScreenPoint { x: 0, y: 0 }, extreme));
}

#[test]
fn window_walk_steps() {
    assert_eq!(CLOCK_SEARCH_DEPTH, 8);
    assert_eq!(walk_step(0, "TrayClockWClass"), WalkStep::ClockFound);
    assert_eq!(walk_step(7, "ClockButton"), WalkStep::ClockFound);
    assert_eq!(walk_step(0, "Button"), WalkStep::AskParent);
    assert_eq!(walk_step(6, "Button"), WalkStep::AskParent);
    assert_eq!(walk_step(7, "Button"), WalkStep::CheckTaskbar);
    assert_eq!(walk_step(u32::MAX, "Button"), WalkStep::CheckTaskbar);
}

#[test]
fn clock_click_events() {
    assert_eq!(clock_click_event(true, true, false), Some("taskbar-calendar-click"));
    assert_eq!(clock_click_event(true, false, true), Some("taskbar-calendar-context"));
    assert_eq!(clock_click_event(true, false, false), None);
    assert_eq!(clock_click_event(false, true, false), None);
    assert_eq!(clock_click_event(false, false, true), None);
}
