//! Setting up the observation of one application.
use vstd::prelude::*;

use crate::attributes::SUCCESS;
use crate::listener::MAIN_WINDOW_CHANGED;
use crate::listener::WINDOW_CREATED;
use crate::text::decimal;
use crate::text::integer;

verus! {

/// What has to be done next.
#[derive(Clone, Copy, Debug, PartialEq, Eq, Structural)]
pub enum Setup {
    /// Find the main run loop.
    FindRunLoop,
    /// Create an observer for the application.
    CreateObserver,
    /// Ask to be notified of new windows.
    WatchCreation,
    /// Ask to be notified of changes of the main window: a new window may
    /// become the main window only after its creation was reported.
    WatchMainWindow,
    /// Add the observer to the run loop: the application is observed.
    Ready,
}

/// What came of a step.
#[derive(Clone, Copy, Debug, PartialEq, Eq, Structural)]
pub enum Outcome {
    /// Whether there is a main run loop.
    RunLoop(bool),
    /// The code of creating the observer, and whether there is one.
    Observer(i32, bool),
    /// The code of asking for a notification.
    Watched(i32),
}

/// Where the setup stands after a step.
#[derive(Debug)]
pub enum Progress {
    /// Go on with this step.
    Continue(Setup),
    /// Go on with this step, and tell the user that changes of the main window
    /// go unnoticed, for this code.
    Warn(Setup, i32),
    /// Give up, for this reason.
    Fail(String),
}

/// The mathematical value of a progress.
pub ghost enum ProgressView {
    Continue(Setup),
    Warn(Setup, i32),
    Fail(Seq<char>),
}

impl View for Progress {
    type V = ProgressView;

    open spec fn view(&self) -> ProgressView {
        match *self {
            Progress::Continue(setup) => ProgressView::Continue(setup),
            Progress::Warn(setup, code) => ProgressView::Warn(setup, code),
            Progress::Fail(reason) => ProgressView::Fail(reason@),
        }
    }
}

impl Setup {
    /// The notification that the step asks to be sent.
    pub open spec fn asks_for(self) -> Option<Seq<char>> {
        match self {
            Setup::WatchCreation => Some(WINDOW_CREATED@),
            Setup::WatchMainWindow => Some(MAIN_WINDOW_CHANGED@),
            Setup::FindRunLoop | Setup::CreateObserver | Setup::Ready => None,
        }
    }

    /// Tells which notification the step asks to be sent.
    pub fn notification(self) -> (r: Option<&'static str>)
        ensures
            match r {
                Some(notification) => self.asks_for() == Some(notification@),
                None => self.asks_for() is None,
            },
    {
        match self {
            Setup::WatchCreation => Some(WINDOW_CREATED),
            Setup::WatchMainWindow => Some(MAIN_WINDOW_CHANGED),
            Setup::FindRunLoop | Setup::CreateObserver | Setup::Ready => None,
        }
    }

    /// Where the setup stands once this step had the outcome.
    pub open spec fn next(self, outcome: Outcome) -> ProgressView {
        match (self, outcome) {
            (Setup::FindRunLoop, Outcome::RunLoop(found)) => if found {
                ProgressView::Continue(Setup::CreateObserver)
            } else {
                ProgressView::Fail("main run loop unavailable"@)
            },
            (Setup::CreateObserver, Outcome::Observer(code, present)) => if code != SUCCESS {
                ProgressView::Fail("AXObserverCreate: "@ + decimal(code as int))
            } else if !present {
                ProgressView::Fail("AXObserverCreate returned a null observer"@)
            } else {
                ProgressView::Continue(Setup::WatchCreation)
            },
            (Setup::WatchCreation, Outcome::Watched(code)) => if code != SUCCESS {
                ProgressView::Fail("AXObserverAddNotification: "@ + decimal(code as int))
            } else {
                ProgressView::Continue(Setup::WatchMainWindow)
            },
            (Setup::WatchMainWindow, Outcome::Watched(code)) => if code != SUCCESS {
                ProgressView::Warn(Setup::Ready, code)
            } else {
                ProgressView::Continue(Setup::Ready)
            },
            _ => ProgressView::Continue(self),
        }
    }

    /// Tells how to go on once this step had the outcome. An outcome of another
    /// step changes nothing.
    pub fn advance(self, outcome: Outcome) -> (r: Progress)
        ensures
            r@ == self.next(outcome),
    {
        match (self, outcome) {
            (Setup::FindRunLoop, Outcome::RunLoop(found)) => if found {
                Progress::Continue(Setup::CreateObserver)
            } else {
                Progress::Fail("main run loop unavailable".to_owned())
            },
            (Setup::CreateObserver, Outcome::Observer(code, present)) => if code != SUCCESS {
                Progress::Fail(with_code("AXObserverCreate: ", code))
            } else if !present {
                Progress::Fail("AXObserverCreate returned a null observer".to_owned())
            } else {
                Progress::Continue(Setup::WatchCreation)
            },
            (Setup::WatchCreation, Outcome::Watched(code)) => if code != SUCCESS {
                Progress::Fail(with_code("AXObserverAddNotification: ", code))
            } else {
                Progress::Continue(Setup::WatchMainWindow)
            },
            (Setup::WatchMainWindow, Outcome::Watched(code)) => if code != SUCCESS {
                Progress::Warn(Setup::Ready, code)
            } else {
                Progress::Continue(Setup::Ready)
            },
            _ => Progress::Continue(self),
        }
    }
}

fn with_code(call: &str, code: i32) -> (r: String)
    ensures
        r@ == call@ + decimal(code as int),
{
    let mut out = call.to_owned();
    out.append(integer(code).as_str());
    out
}

/// The setup after a series of outcomes, or `None` where one of them made it
/// fail.
pub open spec fn set_up(outcomes: Seq<Outcome>) -> Option<Setup>
    decreases outcomes.len(),
{
    if outcomes.len() == 0 {
        Some(Setup::FindRunLoop)
    } else {
        match set_up(outcomes.drop_last()) {
            None => None,
            Some(setup) => match setup.next(outcomes.last()) {
                ProgressView::Continue(next) => Some(next),
                ProgressView::Warn(next, _) => Some(next),
                ProgressView::Fail(_) => None,
            },
        }
    }
}

/// An application is observed exactly if there is a run loop, the observer was
/// created, and new windows are reported. That changes of the main window are
/// reported is not needed.
pub proof fn law_what_an_observation_needs(
    found: bool,
    created: i32,
    present: bool,
    creation: i32,
    main_window: i32,
)
    ensures
        set_up(
            seq![
                Outcome::RunLoop(found),
                Outcome::Observer(created, present),
                Outcome::Watched(creation),
                Outcome::Watched(main_window),
            ],
        ) == if found && created == SUCCESS && present && creation == SUCCESS {
            Some(Setup::Ready)
        } else {
            None
        },
{
    let d = seq![
        Outcome::RunLoop(found),
        Outcome::Observer(created, present),
        Outcome::Watched(creation),
        Outcome::Watched(main_window),
    ];
    let c = d.drop_last();
    let b = c.drop_last();
    let a = b.drop_last();
    assert(a.drop_last() =~= seq![]);
    reveal_with_fuel(set_up, 5);
}

/// Windows are watched for their creation first, and for becoming the main window
/// then.
pub proof fn law_what_is_watched(step: Setup)
    ensures
        Setup::WatchCreation.asks_for() == Some("AXWindowCreated"@),
        Setup::WatchMainWindow.asks_for() == Some("AXMainWindowChanged"@),
        step != Setup::WatchCreation && step != Setup::WatchMainWindow ==> step.asks_for() is None,
{
}

/// Each failure of the setup has its own reason, which tells the code where there is
/// one. Only that changes of the main window go unnoticed is no failure.
pub proof fn law_failures_of_the_setup(code: i32)
    ensures
        Setup::FindRunLoop.next(Outcome::RunLoop(false)) == ProgressView::Fail(
            "main run loop unavailable"@,
        ),
        Setup::FindRunLoop.next(Outcome::RunLoop(true)) == ProgressView::Continue(
            Setup::CreateObserver,
        ),
        Setup::CreateObserver.next(Outcome::Observer(0, true)) == ProgressView::Continue(
            Setup::WatchCreation,
        ),
        Setup::CreateObserver.next(Outcome::Observer(0, false)) == ProgressView::Fail(
            "AXObserverCreate returned a null observer"@,
        ),
        Setup::WatchCreation.next(Outcome::Watched(0)) == ProgressView::Continue(
            Setup::WatchMainWindow,
        ),
        Setup::WatchMainWindow.next(Outcome::Watched(0)) == ProgressView::Continue(Setup::Ready),
        code != 0 ==> {
            &&& Setup::CreateObserver.next(Outcome::Observer(code, true)) == ProgressView::Fail(
                "AXObserverCreate: "@ + decimal(code as int),
            )
            &&& Setup::CreateObserver.next(Outcome::Observer(code, false)) == ProgressView::Fail(
                "AXObserverCreate: "@ + decimal(code as int),
            )
            &&& Setup::WatchCreation.next(Outcome::Watched(code)) == ProgressView::Fail(
                "AXObserverAddNotification: "@ + decimal(code as int),
            )
            &&& Setup::WatchMainWindow.next(Outcome::Watched(code)) == ProgressView::Warn(
                Setup::Ready,
                code,
            )
        },
{
}

/// A progress is what it says.
pub proof fn law_values_of_progress(progress: Progress)
    ensures
        progress matches Progress::Continue(step) ==> progress@ == ProgressView::Continue(step),
        progress matches Progress::Warn(step, code) ==> progress@ == ProgressView::Warn(step, code),
        progress matches Progress::Fail(reason) ==> progress@ == ProgressView::Fail(reason@),
{
}

/// A setup goes on as the laws on its steps say.
pub proof fn law_functions_on_setups(
    step: Setup,
    outcome: Outcome,
    progress: Progress,
    notification: Option<&'static str>,
)
    requires
        call_ensures(Setup::advance, (step, outcome), progress),
        call_ensures(Setup::notification, (step,), notification),
    ensures
        progress@ == step.next(outcome),
        step == Setup::WatchCreation ==> notification is Some && notification->Some_0@
            == "AXWindowCreated"@,
        step == Setup::WatchMainWindow ==> notification is Some && notification->Some_0@
            == "AXMainWindowChanged"@,
{
}

/// An outcome of another step than the pending one changes nothing.
pub proof fn law_stray_outcomes_change_nothing(step: Setup, outcome: Outcome)
    requires
        outcome is RunLoop ==> step != Setup::FindRunLoop,
        outcome is Observer ==> step != Setup::CreateObserver,
        outcome is Watched ==> step != Setup::WatchCreation && step != Setup::WatchMainWindow,
    ensures
        step.next(outcome) == ProgressView::Continue(step),
{
}

} // verus!
