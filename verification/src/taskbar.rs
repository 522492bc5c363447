//! Recognising a click on the taskbar clock: the window classes that belong to the
//! clock, and the corner of the taskbar where the clock sits.

use vstd::prelude::*;

use crate::text::{chars_of, contains_chars, contains_text};

verus! {

/// A point on the screen, in pixels.
#[derive(Debug, Clone, Copy, PartialEq, Eq)]
pub struct ScreenPoint {
    pub x: i32,
    pub y: i32,
}

/// A rectangle on the screen, in pixels.
#[derive(Debug, Clone, Copy, PartialEq, Eq)]
pub struct ScreenRect {
    pub left: i32,
    pub top: i32,
    pub right: i32,
    pub bottom: i32,
}

/// A window class that belongs to the taskbar clock: its name contains `Clock` or
/// `DateTime`, or it is `TrayClockWClass`.
pub open spec fn clock_class(name: Seq<char>) -> bool {
    contains_text(name, "Clock"@) || contains_text(name, "DateTime"@) || name == "TrayClockWClass"@
}

/// Whether a window class belongs to the taskbar clock.
pub fn is_clock_class(name: &str) -> (r: bool)
    ensures
        r == clock_class(name@),
{
    let n = chars_of(name);
    if contains_chars(&n, &chars_of("Clock")) {
        return true;
    }
    if contains_chars(&n, &chars_of("DateTime")) {
        return true;
    }
    String::from_str(name) == String::from_str("TrayClockWClass")
}

/// How many windows, from the one under the pointer upwards, are looked at for a clock class.
pub const CLOCK_SEARCH_DEPTH: u32 = 8;

/// What the walk up the window tree does after reading one window's class.
#[derive(Debug, Clone, Copy, PartialEq, Eq)]
pub enum WalkStep {
    /// The window belongs to the clock: the click is on the clock.
    ClockFound,
    /// Look at the parent window next (when there is none, test the taskbar instead).
    AskParent,
    /// Stop walking and test whether the click is in the clock corner of the taskbar.
    CheckTaskbar,
}

/// Decides the walk after reading the class `name` of the window `depth` steps above the
/// one under the pointer: a clock class ends it; otherwise the parent is looked at until
/// `CLOCK_SEARCH_DEPTH` windows have been, and then the taskbar is tested.
pub fn walk_step(depth: u32, name: &str) -> (r: WalkStep)
    ensures
        r == if clock_class(name@) {
            WalkStep::ClockFound
        } else if depth + 1 < CLOCK_SEARCH_DEPTH {
            WalkStep::AskParent
        } else {
            WalkStep::CheckTaskbar
        },
{
    if is_clock_class(name) {
        WalkStep::ClockFound
    } else if depth < CLOCK_SEARCH_DEPTH - 1 {
        WalkStep::AskParent
    } else {
        WalkStep::CheckTaskbar
    }
}

/// The event a mouse-button release announces when it lands on the taskbar clock: a
/// left-button release is a click, a right-button release asks for the context menu; none
/// for anything else, or when the hook is not told to act.
pub open spec fn clock_event(action: bool, left_up: bool, right_up: bool) -> Option<Seq<char>> {
    if action && left_up {
        Some("taskbar-calendar-click"@)
    } else if action && right_up {
        Some("taskbar-calendar-context"@)
    } else {
        None
    }
}

/// The event a mouse hook announces for a button release on the taskbar clock.
pub fn clock_click_event(action: bool, left_up: bool, right_up: bool) -> (r: Option<&'static str>)
    ensures
        match r {
            Some(e) => clock_event(action, left_up, right_up) == Some(e@),
            None => clock_event(action, left_up, right_up) is None,
        },
{
    if action && left_up {
        Some("taskbar-calendar-click")
    } else if action && right_up {
        Some("taskbar-calendar-context")
    } else {
        None
    }
}

/// Whether a window class is the taskbar's (`Shell_TrayWnd`).
pub fn is_taskbar_class(name: &str) -> (r: bool)
    ensures
        r == (name@ == "Shell_TrayWnd"@),
{
    String::from_str(name) == String::from_str("Shell_TrayWnd")
}

/// A point of the taskbar `rect` falls in the area of its clock: for a horizontal
/// taskbar, within 80 pixels of its top or bottom edge and 220 of its right end;
/// for a vertical one, within 80 pixels of its left or right edge and 220 of its bottom.
pub open spec fn clock_area(p: ScreenPoint, rect: ScreenRect) -> bool {
    let width = rect.right - rect.left;
    let height = rect.bottom - rect.top;
    let near_bottom = p.y >= rect.bottom - 80 && p.x >= rect.right - 220;
    let near_top = p.y <= rect.top + 80 && p.x >= rect.right - 220;
    let near_right = p.x >= rect.right - 80 && p.y >= rect.bottom - 220;
    let near_left = p.x <= rect.left + 80 && p.y >= rect.bottom - 220;
    (width > height && (near_bottom || near_top)) || (height >= width && (near_right || near_left))
}

/// On a horizontal taskbar the clock area is its right end: a point within 220 pixels of
/// the right edge and within 80 of the top or bottom edge is in it, and no point further
/// than 220 pixels from the right edge is.
pub proof fn law_horizontal_clock_area(p: ScreenPoint, rect: ScreenRect)
    requires
        rect.right - rect.left > rect.bottom - rect.top,
    ensures
        p.x < rect.right - 220 ==> !clock_area(p, rect),
        p.x >= rect.right - 220 && (p.y >= rect.bottom - 80 || p.y <= rect.top + 80) ==> clock_area(p, rect),
{
}

/// On a vertical taskbar the clock area is its bottom end: a point within 220 pixels of the
/// bottom edge and within 80 of the left or right edge is in it, and no point further than
/// 220 pixels above the bottom edge is.
pub proof fn law_vertical_clock_area(p: ScreenPoint, rect: ScreenRect)
    requires
        rect.bottom - rect.top >= rect.right - rect.left,
    ensures
        p.y < rect.bottom - 220 ==> !clock_area(p, rect),
        p.y >= rect.bottom - 220 && (p.x >= rect.right - 80 || p.x <= rect.left + 80) ==> clock_area(p, rect),
{
}

/// Whether a point of the taskbar falls in the area of its clock.
pub fn in_clock_area(p: ScreenPoint, rect: ScreenRect) -> (r: bool)
    ensures
        r == clock_area(p, rect),
{
    let (x, y) = (p.x as i64, p.y as i64);
    let (left, top, right, bottom) = (rect.left as i64, rect.top as i64, rect.right as i64, rect.bottom as i64);
    let width = right - left;
    let height = bottom - top;
    let near_bottom = y >= bottom - 80 && x >= right - 220;
    let near_top = y <= top + 80 && x >= right - 220;
    let near_right = x >= right - 80 && y >= bottom - 220;
    let near_left = x <= left + 80 && y >= bottom - 220;
    (width > height && (near_bottom || near_top)) || (height >= width && (near_right || near_left))
}

} // verus!
