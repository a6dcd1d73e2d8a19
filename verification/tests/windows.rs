use mac_window_resizer::attributes::{
    attribute_outcome, boolean_attribute, Readings, NOTIFICATION_ALREADY_REGISTERED, NO_VALUE,
    SUCCESS,
};
use mac_window_resizer::config::Rule;
use mac_window_resizer::listener::{
    Request, WindowContext, MAIN_WINDOW_CHANGED, WINDOW_CREATED, WINDOW_DESTROYED,
};
use mac_window_resizer::windows::CreatedWindows;

fn rule() -> Rule {
    Rule {
        bundle_id: "com.apple.finder".to_string(),
        width: 860.0f64.to_bits(),
        height: 660.0f64.to_bits(),
        x: None,
        y: None,
    }
}

fn readings(main: Option<bool>, subrole: Option<&str>) -> Readings {
    Readings {
        main,
        subrole: subrole.map(|subrole| subrole.to_string()),
        full_screen: Some(false),
        minimized: None,
    }
}

fn main_window() -> Readings {
    readings(Some(true), Some("AXStandardWindow"))
}

#[test]
fn newly_created_windows_are_adjusted_only_once_when_they_become_main() {
    let mut windows = CreatedWindows { entries: Vec::new() };
    // An already-open window becoming main must not be resized.
    assert!(!windows.claim(&1));
    // Creation may precede becoming main; retain the pending window.
    windows.entries.push((2, false));
    assert!(windows.contains(&2));
    assert!(windows.claim(&2));
    // Returning to this window or receiving a duplicate creation changes nothing.
    assert!(windows.contains(&2));
    assert!(!windows.claim(&2));
}

#[test]
fn destroyed_windows_are_forgotten_without_affecting_other_windows() {
    let mut windows = CreatedWindows { entries: vec![(1, false), (2, true), (3, false)] };
    windows.forget(&1);
    windows.forget(&2);
    assert!(!windows.claim(&1));
    assert!(!windows.contains(&2));
    assert!(windows.claim(&3));
    // A closed window's identifier may later be reused by a new window.
    windows.entries.push((2, false));
    assert!(windows.claim(&2));
}

#[test]
fn forgetting_removes_every_entry_of_the_window_and_keeps_the_order() {
    let mut windows = CreatedWindows { entries: vec![(1, true), (2, false), (1, false), (3, true)] };
    windows.forget(&1);
    assert_eq!(windows.entries, vec![(2, false), (3, true)]);
    windows.forget(&9);
    assert_eq!(windows.entries, vec![(2, false), (3, true)]);
}

#[test]
fn a_new_window_is_watched_and_then_adjusted_once() {
    let mut context = WindowContext::new(rule());
    assert_eq!(context.handle(&7, WINDOW_CREATED), Request::WatchDestruction);
    assert!(context.windows.entries.is_empty());
    assert_eq!(context.destruction_watched(7, SUCCESS), Request::ReadMainState);
    assert_eq!(context.main_state_read(&7, &readings(Some(false), None)), Request::Nothing);
    assert_eq!(context.windows.entries, vec![(7, false)]);
    assert_eq!(context.handle(&7, WINDOW_CREATED), Request::Nothing);
    assert_eq!(context.handle(&7, MAIN_WINDOW_CHANGED), Request::ReadMainState);
    assert_eq!(context.main_state_read(&7, &main_window()), Request::Adjust);
    assert_eq!(context.windows.entries, vec![(7, true)]);
    assert_eq!(context.handle(&7, MAIN_WINDOW_CHANGED), Request::ReadMainState);
    assert_eq!(context.main_state_read(&7, &main_window()), Request::Nothing);
    assert_eq!(context.handle(&7, WINDOW_DESTROYED), Request::Nothing);
    assert!(context.windows.entries.is_empty());
    assert_eq!(context.handle(&7, WINDOW_CREATED), Request::WatchDestruction);
}

#[test]
fn windows_open_before_and_other_notifications_are_left_alone() {
    let mut context = WindowContext::new(rule());
    assert_eq!(context.handle(&1, MAIN_WINDOW_CHANGED), Request::Nothing);
    assert_eq!(context.handle(&1, "AXFocusedWindowChanged"), Request::Nothing);
    assert_eq!(context.handle(&1, WINDOW_DESTROYED), Request::Nothing);
    assert!(context.windows.entries.is_empty());
}

#[test]
fn a_window_whose_destruction_would_go_unnoticed_is_left_out() {
    let mut context = WindowContext::new(rule());
    assert_eq!(context.destruction_watched(1, -25211), Request::ReportUnwatched(-25211));
    assert!(context.windows.entries.is_empty());
    assert_eq!(
        context.destruction_watched(1, NOTIFICATION_ALREADY_REGISTERED),
        Request::ReadMainState
    );
    assert_eq!(context.windows.entries, vec![(1, false)]);
}

#[test]
fn no_window_gets_two_entries() {
    let mut context = WindowContext::new(rule());
    for window in [1, 2, 1, 2, 1] {
        if context.handle(&window, WINDOW_CREATED) == Request::WatchDestruction {
            context.destruction_watched(window, SUCCESS);
        }
    }
    assert_eq!(context.windows.entries, vec![(1, false), (2, false)]);
}

#[test]
fn the_order_of_claims_and_removals_does_not_matter() {
    let windows = || CreatedWindows { entries: vec![(1, false), (2, false), (3, true)] };
    let (mut a, mut b) = (windows(), windows());
    assert!(a.claim(&1) && a.claim(&2));
    assert!(b.claim(&2) && b.claim(&1));
    assert_eq!(a.entries, b.entries);
    for window in [1, 3, 1] {
        a.forget(&window);
    }
    for window in [3, 1] {
        b.forget(&window);
    }
    assert_eq!(a.entries, vec![(2, true)]);
    assert_eq!(a.entries, b.entries);
    a.entries.push((9, false));
    a.forget(&9);
    assert_eq!(a.entries, b.entries);
}

#[test]
fn requests_name_the_notification_they_ask_for() {
    assert_eq!(Request::WatchDestruction.notification(), Some("AXUIElementDestroyed"));
    assert_eq!(Request::ReadMainState.notification(), None);
    assert_eq!(Request::Adjust.notification(), None);
}

#[test]
fn a_main_window_is_a_standard_window() {
    assert!(main_window().is_main_window());
    assert!(!readings(None, Some("AXStandardWindow")).is_main_window());
    assert!(!readings(Some(true), Some("AXDialog")).is_main_window());
    assert!(!readings(Some(true), None).is_main_window());
    assert!(main_window().is_adjustable());
    assert!(!Readings { full_screen: Some(true), ..main_window() }.is_adjustable());
    assert!(!Readings { minimized: Some(true), ..main_window() }.is_adjustable());
    assert!(!boolean_attribute(None));
    assert!(boolean_attribute(Some(true)));
}

#[test]
fn attributes_without_a_value_are_errors() {
    assert_eq!(attribute_outcome(SUCCESS, true), Ok(()));
    assert_eq!(attribute_outcome(SUCCESS, false), Err(NO_VALUE));
    assert_eq!(attribute_outcome(-25205, true), Err(-25205));
    assert_eq!(NO_VALUE, -25212);
    assert_eq!(NOTIFICATION_ALREADY_REGISTERED, -25209);
}
