//! Removing the program.
use vstd::prelude::*;

use crate::task::operation::Argument;
use crate::task::operation::ArgumentView;
use crate::task::operation::CommandView;
use crate::task::operation::Notice;
use crate::task::operation::Operation;
use crate::task::operation::OperationView;
use crate::task::operation::Place;
use crate::task::operation::Program;
use crate::task::operation::call;
use crate::task::operation::check_app;
use crate::task::operation::command;
use crate::task::operation::identifier_call;
use crate::task::operation::service_call;
use crate::task::operation::service_command;
use crate::task::operation::text;
use crate::task::paths::LABEL;
use crate::task::progress::Phase;
use crate::task::progress::Progress;
use crate::task::progress::Reply;
use crate::task::progress::RunView;
use crate::task::progress::Steps;
use crate::task::progress::attempted;
use crate::task::progress::comes_to;
use crate::task::progress::lemma_performed;
use crate::task::progress::lemma_performed_last;
use crate::task::progress::performed;
use crate::task::progress::phase;

verus! {

/// The steps of a removal, in order.
#[derive(Clone, Copy, Debug, PartialEq, Eq, Structural)]
pub enum DisableStep {
    CheckApp,
    ProbeService,
    StopService,
    DisableService,
    FindApp,
    ResetPermission,
    UnregisterApp,
    RemoveApp,
    RemoveAgent,
    RemoveLogs,
    Announce,
}

impl DisableStep {
    /// The number of the step.
    pub open spec fn rank(self) -> int {
        match self {
            DisableStep::CheckApp => 0,
            DisableStep::ProbeService => 1,
            DisableStep::StopService => 2,
            DisableStep::DisableService => 3,
            DisableStep::FindApp => 4,
            DisableStep::ResetPermission => 5,
            DisableStep::UnregisterApp => 6,
            DisableStep::RemoveApp => 7,
            DisableStep::RemoveAgent => 8,
            DisableStep::RemoveLogs => 9,
            DisableStep::Announce => 10,
        }
    }

    /// The steps in order.
    pub open spec fn order() -> Seq<DisableStep> {
        seq![
            DisableStep::CheckApp,
            DisableStep::ProbeService,
            DisableStep::StopService,
            DisableStep::DisableService,
            DisableStep::FindApp,
            DisableStep::ResetPermission,
            DisableStep::UnregisterApp,
            DisableStep::RemoveApp,
            DisableStep::RemoveAgent,
            DisableStep::RemoveLogs,
            DisableStep::Announce,
        ]
    }

    /// The failure of the step does not end the removal.
    pub open spec fn optional(self) -> bool {
        self == DisableStep::ResetPermission || self == DisableStep::UnregisterApp
    }

    /// How many steps are left out after this one: a service that does not run is
    /// not stopped, and an app that is not there is not removed.
    pub open spec fn skipped(self, reply: Reply) -> int {
        if self == DisableStep::ProbeService && reply == Reply::No {
            1
        } else if self == DisableStep::FindApp && reply == Reply::No {
            3
        } else {
            0
        }
    }

    /// What the step does, given the name of the service.
    pub open spec fn does(self, service: Seq<char>) -> OperationView {
        match self {
            DisableStep::CheckApp => OperationView::CheckApp(identifier_call()),
            DisableStep::ProbeService => OperationView::Probe(service_call("print"@, service)),
            DisableStep::StopService => OperationView::Run(service_call("bootout"@, service)),
            DisableStep::DisableService => OperationView::Run(service_call("disable"@, service)),
            DisableStep::FindApp => OperationView::Find(Place::App),
            DisableStep::ResetPermission => OperationView::Run(
                call(
                    Program::Tccutil,
                    seq![
                        ArgumentView::Text("reset"@),
                        ArgumentView::Text("Accessibility"@),
                        ArgumentView::Text(LABEL@),
                    ],
                ),
            ),
            DisableStep::UnregisterApp => OperationView::Run(
                call(
                    Program::LsRegister,
                    seq![ArgumentView::Text("-u"@), ArgumentView::Path(Place::App)],
                ),
            ),
            DisableStep::RemoveApp => OperationView::RemoveDirectory(Place::App),
            DisableStep::RemoveAgent => OperationView::RemoveFile(Place::Agent),
            DisableStep::RemoveLogs => OperationView::RemoveDirectory(Place::Logs),
            DisableStep::Announce => OperationView::Announce(Notice::Removed),
        }
    }

    /// Tells what the step does, given the name of the service.
    pub fn operation(self, service: &str) -> (r: Operation)
        ensures
            r@ == self.does(service@),
    {
        match self {
            DisableStep::CheckApp => check_app(),
            DisableStep::ProbeService => Operation::Probe(service_command("print", service)),
            DisableStep::StopService => Operation::Run(service_command("bootout", service)),
            DisableStep::DisableService => Operation::Run(service_command("disable", service)),
            DisableStep::FindApp => Operation::Find(Place::App),
            DisableStep::ResetPermission => {
                let reset = command(
                    Program::Tccutil,
                    vec![text("reset"), text("Accessibility"), text(LABEL)],
                );
                assert(reset@.arguments =~= self.does(service@)->Run_0.arguments);
                Operation::Run(reset)
            },
            DisableStep::UnregisterApp => {
                let unregister = command(
                    Program::LsRegister,
                    vec![text("-u"), Argument::Path(Place::App)],
                );
                assert(unregister@.arguments =~= self.does(service@)->Run_0.arguments);
                Operation::Run(unregister)
            },
            DisableStep::RemoveApp => Operation::RemoveDirectory(Place::App),
            DisableStep::RemoveAgent => Operation::RemoveFile(Place::Agent),
            DisableStep::RemoveLogs => Operation::RemoveDirectory(Place::Logs),
            DisableStep::Announce => Operation::Announce(Notice::Removed),
        }
    }

    /// What the user is told where the step failed for a reason, and the removal
    /// goes on.
    pub open spec fn complaint(self, reason: Seq<char>) -> Option<Seq<char>> {
        match self {
            DisableStep::ResetPermission => Some(
                "Could not reset Accessibility permission: "@ + reason
                    + ". Remove MacWindowResizer manually in System Settings."@,
            ),
            DisableStep::UnregisterApp => Some("Could not unregister application: "@ + reason),
            _ => None,
        }
    }

    /// Puts into words that the step failed, for a reason, and the removal goes on.
    pub fn warning(self, reason: &str) -> (r: Option<String>)
        ensures
            match r {
                Some(words) => self.complaint(reason@) == Some(words@),
                None => self.complaint(reason@) is None,
            },
    {
        match self {
            DisableStep::ResetPermission => {
                let mut out = "Could not reset Accessibility permission: ".to_owned();
                out.append(reason);
                out.append(". Remove MacWindowResizer manually in System Settings.");
                Some(out)
            },
            DisableStep::UnregisterApp => {
                let mut out = "Could not unregister application: ".to_owned();
                out.append(reason);
                Some(out)
            },
            _ => None,
        }
    }
}

impl Steps for DisableStep {
    /// With the next step, unless this one failed and could not be done without.
    open spec fn followed_by(self, reply: Reply) -> Progress<DisableStep> {
        if reply == Reply::Failed && !self.optional() {
            Progress::Abort
        } else if self == DisableStep::Announce {
            Progress::Finish
        } else if reply == Reply::Failed {
            Progress::Warn(DisableStep::order()[self.rank() + 1])
        } else {
            Progress::Continue(DisableStep::order()[self.rank() + 1 + self.skipped(reply)])
        }
    }

    fn next(self, reply: Reply) -> (r: Progress<DisableStep>) {
        let failed = reply == Reply::Failed;
        match self {
            DisableStep::ResetPermission => if failed {
                Progress::Warn(DisableStep::UnregisterApp)
            } else {
                Progress::Continue(DisableStep::UnregisterApp)
            },
            DisableStep::UnregisterApp => if failed {
                Progress::Warn(DisableStep::RemoveApp)
            } else {
                Progress::Continue(DisableStep::RemoveApp)
            },
            _ if failed => Progress::Abort,
            DisableStep::CheckApp => Progress::Continue(DisableStep::ProbeService),
            DisableStep::ProbeService => if reply == Reply::No {
                Progress::Continue(DisableStep::DisableService)
            } else {
                Progress::Continue(DisableStep::StopService)
            },
            DisableStep::StopService => Progress::Continue(DisableStep::DisableService),
            DisableStep::DisableService => Progress::Continue(DisableStep::FindApp),
            DisableStep::FindApp => if reply == Reply::No {
                Progress::Continue(DisableStep::RemoveAgent)
            } else {
                Progress::Continue(DisableStep::ResetPermission)
            },
            DisableStep::RemoveApp => Progress::Continue(DisableStep::RemoveAgent),
            DisableStep::RemoveAgent => Progress::Continue(DisableStep::RemoveLogs),
            DisableStep::RemoveLogs => Progress::Continue(DisableStep::Announce),
            DisableStep::Announce => Progress::Finish,
        }
    }
}

/// Where a removal stands after its steps had these outcomes.
pub open spec fn disabling(outcomes: Seq<Result<bool, Seq<char>>>) -> Phase<DisableStep> {
    phase(DisableStep::CheckApp, outcomes)
}

/// The step of a removal was performed, without a failure.
pub open spec fn disabled_by(outcomes: Seq<Result<bool, Seq<char>>>, step: DisableStep) -> bool {
    performed(DisableStep::CheckApp, outcomes, step)
}

/// The step may be left out: the service does not run, or the app is not there.
pub open spec fn conditional(step: DisableStep) -> bool {
    ||| step == DisableStep::StopService
    ||| step == DisableStep::ResetPermission
    ||| step == DisableStep::UnregisterApp
    ||| step == DisableStep::RemoveApp
}

proof fn lemma_order(step: DisableStep)
    ensures
        0 <= step.rank() < DisableStep::order().len(),
        DisableStep::order()[step.rank()] == step,
{
}

/// Each step of a removal is performed only after all those before it were, but
/// for those that may be left out.
pub proof fn law_steps_of_a_removal(outcomes: Seq<Result<bool, Seq<char>>>, step: DisableStep)
    requires
        disabling(outcomes) matches Phase::Running(run) && step.rank() < run.step.rank(),
        !conditional(step),
    ensures
        disabled_by(outcomes, step),
    decreases outcomes.len(),
{
    let first = DisableStep::CheckApp;
    let front = outcomes.drop_last();
    let last = disabling(front)->Running_0.step;
    lemma_order(last);
    lemma_order(disabling(outcomes)->Running_0.step);
    lemma_order(step);
    if step.rank() < last.rank() {
        law_steps_of_a_removal(front, step);
        lemma_performed(first, outcomes, step);
    } else {
        assert(step == last);
        lemma_performed_last(first, outcomes, step);
    }
}

/// Nothing is removed before an installed app was found to be this one and the
/// service was disabled.
pub proof fn law_removal_comes_after_the_check(outcomes: Seq<Result<bool, Seq<char>>>)
    requires
        disabling(outcomes) matches Phase::Running(run) && run.step.rank()
            >= DisableStep::RemoveApp.rank(),
    ensures
        disabled_by(outcomes, DisableStep::CheckApp),
        disabled_by(outcomes, DisableStep::DisableService),
{
    law_steps_of_a_removal(outcomes, DisableStep::CheckApp);
    law_steps_of_a_removal(outcomes, DisableStep::DisableService);
}

/// That the permission could not be reset, or the app not be unregistered, does
/// not keep the removal from going on.
pub proof fn law_removal_goes_on_without_optional_steps(step: DisableStep)
    requires
        step.optional(),
    ensures
        step.followed_by(Reply::Failed) == Progress::Warn(DisableStep::order()[step.rank() + 1]),
        step.followed_by(Reply::Yes) == Progress::Continue(DisableStep::order()[step.rank() + 1]),
{
}

/// A removal ends at once with the first failure of a step that it cannot do
/// without, and with the reason of that failure.
pub proof fn law_a_failure_ends_the_removal(
    outcomes: Seq<Result<bool, Seq<char>>>,
    k: int,
    run: RunView<DisableStep>,
    reason: Seq<char>,
)
    requires
        0 <= k < outcomes.len(),
        disabling(outcomes.take(k)) == Phase::Running(run),
        !run.step.optional(),
        outcomes[k] == Err::<bool, Seq<char>>(reason),
    ensures
        disabling(outcomes) == Phase::<DisableStep>::Ended(Err(reason)),
    decreases outcomes.len(),
{
    let front = outcomes.drop_last();
    if k < front.len() {
        assert(front.take(k) =~= outcomes.take(k));
        law_a_failure_ends_the_removal(front, k, run, reason);
    } else {
        assert(outcomes.take(k) =~= front);
    }
}

/// A removal in which no step fails that it cannot do without succeeds.
pub proof fn law_a_removal_without_a_failure_succeeds(outcomes: Seq<Result<bool, Seq<char>>>)
    requires
        forall|k: int, step: DisableStep|
            0 <= k < outcomes.len() && outcomes[k] is Err && #[trigger] comes_to(
                DisableStep::CheckApp,
                outcomes,
                k,
                step,
            ) ==> step.optional(),
    ensures
        match disabling(outcomes) {
            Phase::Running(run) => run.failure is None,
            Phase::Ended(result) => result is Ok,
        },
    decreases outcomes.len(),
{
    let first = DisableStep::CheckApp;
    if outcomes.len() > 0 {
        let front = outcomes.drop_last();
        let last = outcomes.len() - 1;
        assert forall|k: int, step: DisableStep|
            0 <= k < front.len() && front[k] is Err && #[trigger] comes_to(
                first,
                front,
                k,
                step,
            ) implies step.optional() by {
            assert(outcomes.take(k) =~= front.take(k));
            assert(comes_to(first, outcomes, k, step));
        }
        law_a_removal_without_a_failure_succeeds(front);
        assert(outcomes.take(last) =~= front);
        if disabling(front) is Running {
            assert(comes_to(first, outcomes, last, disabling(front)->Running_0.step));
        }
    }
}

/// A removal has an end.
pub proof fn law_removals_end(outcomes: Seq<Result<bool, Seq<char>>>)
    ensures
        disabling(outcomes) matches Phase::Running(run) ==> outcomes.len() <= run.step.rank(),
        outcomes.len() >= DisableStep::order().len() ==> disabling(outcomes) is Ended,
    decreases outcomes.len(),
{
    if outcomes.len() > 0 {
        law_removals_end(outcomes.drop_last());
        if disabling(outcomes.drop_last()) is Running {
            lemma_order(disabling(outcomes.drop_last())->Running_0.step);
        }
    }
    if disabling(outcomes) is Running {
        lemma_order(disabling(outcomes)->Running_0.step);
    }
}

/// The order of a removal.
pub proof fn law_order_of_a_removal()
    ensures
        DisableStep::CheckApp.rank() < DisableStep::ProbeService.rank()
            < DisableStep::StopService.rank() < DisableStep::DisableService.rank()
            < DisableStep::FindApp.rank() < DisableStep::ResetPermission.rank()
            < DisableStep::UnregisterApp.rank() < DisableStep::RemoveApp.rank()
            < DisableStep::RemoveAgent.rank() < DisableStep::RemoveLogs.rank()
            < DisableStep::Announce.rank(),
{
}

/// A service is stopped before it is disabled, unless it was seen not to run.
pub proof fn law_a_running_service_is_stopped(outcomes: Seq<Result<bool, Seq<char>>>)
    requires
        disabling(outcomes) matches Phase::Running(run) && run.step == DisableStep::DisableService,
    ensures
        disabled_by(outcomes, DisableStep::StopService) || outcomes.last() == Ok::<bool, Seq<char>>(
            false,
        ),
{
    let last = disabling(outcomes.drop_last())->Running_0.step;
    lemma_order(last);
    lemma_performed_last(DisableStep::CheckApp, outcomes, last);
}

/// The app is removed before its property list is, unless it was seen not to be there.
/// Before that, its permission is reset and it is unregistered, as far as possible.
pub proof fn law_an_app_that_is_there_is_removed(outcomes: Seq<Result<bool, Seq<char>>>)
    requires
        disabling(outcomes) matches Phase::Running(run) && run.step == DisableStep::RemoveAgent,
    ensures
        outcomes.last() == Ok::<bool, Seq<char>>(false) || (disabled_by(
            outcomes,
            DisableStep::RemoveApp,
        ) && attempted(DisableStep::CheckApp, outcomes, DisableStep::ResetPermission) && attempted(
            DisableStep::CheckApp,
            outcomes,
            DisableStep::UnregisterApp,
        )),
{
    let first = DisableStep::CheckApp;
    let a = outcomes.drop_last();
    let last = disabling(a)->Running_0.step;
    lemma_order(last);
    lemma_performed_last(first, outcomes, last);
    if last == DisableStep::RemoveApp {
        let b = a.drop_last();
        lemma_order(disabling(b)->Running_0.step);
        lemma_performed_last(first, a, disabling(b)->Running_0.step);
        let c = b.drop_last();
        lemma_order(disabling(c)->Running_0.step);
        lemma_performed_last(first, b, disabling(c)->Running_0.step);
        lemma_performed(first, a, DisableStep::ResetPermission);
        lemma_performed(first, outcomes, DisableStep::ResetPermission);
        lemma_performed(first, outcomes, DisableStep::UnregisterApp);
    }
}

/// A removal that succeeded performed all its steps, but for those that may be left
/// out.
pub proof fn law_a_successful_removal_is_complete(
    outcomes: Seq<Result<bool, Seq<char>>>,
    step: DisableStep,
)
    requires
        disabling(outcomes) == Phase::<DisableStep>::Ended(Ok(())),
        !conditional(step),
    ensures
        disabled_by(outcomes, step),
    decreases outcomes.len(),
{
    let front = outcomes.drop_last();
    if disabling(front) is Ended {
        law_a_successful_removal_is_complete(front, step);
    } else {
        law_order_of_a_removal();
        lemma_order(step);
        if step == DisableStep::Announce {
            lemma_performed_last(DisableStep::CheckApp, outcomes, step);
        } else {
            law_steps_of_a_removal(front, step);
        }
    }
    lemma_performed(DisableStep::CheckApp, outcomes, step);
}

/// Only the app, its property list and its logs are removed, and nothing is written,
/// moved or copied.
pub proof fn law_what_is_removed(step: DisableStep, service: Seq<char>, place: Place)
    ensures
        step.does(service) == OperationView::RemoveDirectory(place) ==> (step
            == DisableStep::RemoveApp && place == Place::App) || (step == DisableStep::RemoveLogs
            && place == Place::Logs),
        step.does(service) == OperationView::RemoveFile(place) ==> step == DisableStep::RemoveAgent
            && place == Place::Agent,
        DisableStep::RemoveApp.does(service) == OperationView::RemoveDirectory(Place::App),
        DisableStep::RemoveAgent.does(service) == OperationView::RemoveFile(Place::Agent),
        DisableStep::RemoveLogs.does(service) == OperationView::RemoveDirectory(Place::Logs),
        DisableStep::FindApp.does(service) == OperationView::Find(Place::App),
        DisableStep::CheckApp.does(service) == OperationView::CheckApp(identifier_call()),
        DisableStep::Announce.does(service) == OperationView::Announce(Notice::Removed),
{
}

/// The one service is asked for, stopped and disabled; the permission is reset for the
/// label of the program, and the installed app is unregistered.
pub proof fn law_calls_of_a_removal(service: Seq<char>)
    ensures
        DisableStep::ProbeService.does(service) == OperationView::Probe(
            CommandView {
                program: Program::Launchctl,
                arguments: seq![ArgumentView::Text("print"@), ArgumentView::Text(service)],
            },
        ),
        DisableStep::StopService.does(service) == OperationView::Run(
            CommandView {
                program: Program::Launchctl,
                arguments: seq![ArgumentView::Text("bootout"@), ArgumentView::Text(service)],
            },
        ),
        DisableStep::DisableService.does(service) == OperationView::Run(
            CommandView {
                program: Program::Launchctl,
                arguments: seq![ArgumentView::Text("disable"@), ArgumentView::Text(service)],
            },
        ),
        DisableStep::ResetPermission.does(service) == OperationView::Run(
            CommandView {
                program: Program::Tccutil,
                arguments: seq![
                    ArgumentView::Text("reset"@),
                    ArgumentView::Text("Accessibility"@),
                    ArgumentView::Text("com.marcell.MacWindowResizer"@),
                ],
            },
        ),
        DisableStep::UnregisterApp.does(service) == OperationView::Run(
            CommandView {
                program: Program::LsRegister,
                arguments: seq![ArgumentView::Text("-u"@), ArgumentView::Path(Place::App)],
            },
        ),
{
}

/// What the user is told of a step that a removal does without, whatever the reason.
pub proof fn law_warnings(step: DisableStep, reason: Seq<char>)
    ensures
        step.optional() <==> step == DisableStep::ResetPermission || step
            == DisableStep::UnregisterApp,
        step.complaint(reason) is Some <==> step.optional(),
        DisableStep::ResetPermission.complaint(reason) == Some(
            "Could not reset Accessibility permission: "@ + reason
                + ". Remove MacWindowResizer manually in System Settings."@,
        ),
        DisableStep::UnregisterApp.complaint(reason) == Some(
            "Could not unregister application: "@ + reason,
        ),
{
}

/// A step of a removal does what the laws say, and is followed as they say.
pub proof fn law_functions_on_removals(
    step: DisableStep,
    service: &str,
    operation: Operation,
    reply: Reply,
    next: Progress<DisableStep>,
    reason: &str,
    words: Option<String>,
)
    requires
        call_ensures(DisableStep::operation, (step, service), operation),
        call_ensures(<DisableStep as Steps>::next, (step, reply), next),
        call_ensures(DisableStep::warning, (step, reason), words),
    ensures
        operation@ == step.does(service@),
        next == step.followed_by(reply),
        words is Some <==> step.complaint(reason@) is Some,
        words matches Some(told) ==> step.complaint(reason@) == Some(told@),
{
}

/// Only the questions whether the service runs and whether the app is there have
/// answers that matter: where not, it is not stopped, or not removed.
pub proof fn law_answers_to_a_removal(step: DisableStep)
    ensures
        step != DisableStep::ProbeService && step != DisableStep::FindApp ==> step.followed_by(
            Reply::No,
        ) == step.followed_by(Reply::Yes),
        DisableStep::ProbeService.followed_by(Reply::Yes) == Progress::Continue(
            DisableStep::StopService,
        ),
        DisableStep::ProbeService.followed_by(Reply::No) == Progress::Continue(
            DisableStep::DisableService,
        ),
        DisableStep::FindApp.followed_by(Reply::Yes) == Progress::Continue(
            DisableStep::ResetPermission,
        ),
        DisableStep::FindApp.followed_by(Reply::No) == Progress::Continue(
            DisableStep::RemoveAgent,
        ),
{
}

} // verus!
