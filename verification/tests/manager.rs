use mac_window_resizer::manager::{Application, Manager, WorkspaceEvent};
use mac_window_resizer::parse::parse_config;
use mac_window_resizer::setup::{Outcome, Progress, Setup};

fn manager() -> Manager<&'static str> {
    Manager::new(parse_config("[com.apple.finder]\nwidth = 860\nheight = 660\n").unwrap())
}

fn finder(process: i32) -> Application {
    Application { bundle_id: Some("com.apple.finder".to_string()), process, terminated: false }
}

#[test]
fn configured_applications_are_observed_once() {
    let mut manager = manager();
    assert_eq!(
        manager.attach(&finder(7), true).map(|rule| rule.bundle_id.as_str()),
        Some("com.apple.finder")
    );
    assert_eq!(manager.attached::<String>(7, Ok("observation")), Ok(()));
    assert!(manager.attach(&finder(7), true).is_none());
    assert!(manager.attach(&finder(8), true).is_some());
    assert!(manager.notified(WorkspaceEvent::Activated, &finder(7), true).is_none());
    assert!(manager.notified(WorkspaceEvent::Terminated, &finder(7), true).is_none());
    assert!(manager.observations.is_empty());
    assert!(manager.notified(WorkspaceEvent::Launched, &finder(7), true).is_some());
}

#[test]
fn other_applications_are_not_observed() {
    let manager = manager();
    assert!(manager.attach(&finder(7), false).is_none());
    assert!(manager.attach(&Application { terminated: true, ..finder(7) }, true).is_none());
    assert!(manager.attach(&Application { bundle_id: None, ..finder(7) }, true).is_none());
    let mail = Application { bundle_id: Some("com.apple.mail".to_string()), ..finder(7) };
    assert!(manager.attach(&mail, true).is_none());
}

#[test]
fn a_failed_observation_is_not_kept() {
    let mut manager = manager();
    assert_eq!(manager.attached(7, Err("no")), Err("no"));
    assert!(manager.attach(&finder(7), true).is_some());
}

fn failure(progress: Progress) -> String {
    match progress {
        Progress::Fail(reason) => reason,
        other => panic!("{other:?}"),
    }
}

#[test]
fn observations_are_set_up_step_by_step() {
    let mut step = Setup::FindRunLoop;
    for outcome in
        [Outcome::RunLoop(true), Outcome::Observer(0, true), Outcome::Watched(0), Outcome::Watched(0)]
    {
        step = match step.advance(outcome) {
            Progress::Continue(next) => next,
            other => panic!("{other:?}"),
        };
    }
    assert_eq!(step, Setup::Ready);
}

#[test]
fn steps_name_the_notifications_they_ask_for() {
    assert_eq!(Setup::WatchCreation.notification(), Some("AXWindowCreated"));
    assert_eq!(Setup::WatchMainWindow.notification(), Some("AXMainWindowChanged"));
    assert_eq!(Setup::FindRunLoop.notification(), None);
    assert_eq!(Setup::CreateObserver.notification(), None);
    assert_eq!(Setup::Ready.notification(), None);
}

#[test]
fn observations_fail_for_a_reason() {
    assert_eq!(
        failure(Setup::FindRunLoop.advance(Outcome::RunLoop(false))),
        "main run loop unavailable"
    );
    assert_eq!(
        failure(Setup::CreateObserver.advance(Outcome::Observer(-25204, true))),
        "AXObserverCreate: -25204"
    );
    assert_eq!(
        failure(Setup::CreateObserver.advance(Outcome::Observer(0, false))),
        "AXObserverCreate returned a null observer"
    );
    assert_eq!(
        failure(Setup::WatchCreation.advance(Outcome::Watched(-25207))),
        "AXObserverAddNotification: -25207"
    );
    assert!(matches!(
        Setup::WatchMainWindow.advance(Outcome::Watched(-25207)),
        Progress::Warn(Setup::Ready, -25207)
    ));
}
