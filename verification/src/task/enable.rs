//! Installing and starting the program.
use vstd::prelude::*;

use crate::task::operation::Argument;
use crate::task::operation::ArgumentView;
use crate::task::operation::CommandView;
use crate::task::operation::Notice;
use crate::task::operation::Operation;
use crate::task::operation::OperationView;
use crate::task::operation::Place;
use crate::task::operation::Program;
use crate::task::operation::call;
use crate::task::operation::check_app;
use crate::task::operation::command;
use crate::task::operation::identifier_call;
use crate::task::operation::service_call;
use crate::task::operation::service_command;
use crate::task::operation::text;
use crate::task::progress::Phase;
use crate::task::progress::Progress;
use crate::task::progress::Reply;
use crate::task::progress::RunView;
use crate::task::progress::Steps;
use crate::task::progress::attempted;
use crate::task::progress::comes_to;
use crate::task::progress::lemma_performed;
use crate::task::progress::lemma_performed_last;
use crate::task::progress::performed;
use crate::task::progress::phase;

verus! {

/// The steps of an installation, in order.
#[derive(Clone, Copy, Debug, PartialEq, Eq, Structural)]
pub enum EnableStep {
    CheckApp,
    BuildBundle,
    MakeApplications,
    MakeLaunchAgents,
    MakeLogs,
    Stage,
    CopyBundle,
    WriteAgent,
    LintAgent,
    ProbeService,
    StopService,
    RemoveOldApp,
    MoveApp,
    MoveAgent,
    RegisterApp,
    EnableService,
    StartService,
    Announce,
    RemoveStaging,
}

impl EnableStep {
    /// The number of the step.
    pub open spec fn rank(self) -> int {
        match self {
            EnableStep::CheckApp => 0,
            EnableStep::BuildBundle => 1,
            EnableStep::MakeApplications => 2,
            EnableStep::MakeLaunchAgents => 3,
            EnableStep::MakeLogs => 4,
            EnableStep::Stage => 5,
            EnableStep::CopyBundle => 6,
            EnableStep::WriteAgent => 7,
            EnableStep::LintAgent => 8,
            EnableStep::ProbeService => 9,
            EnableStep::StopService => 10,
            EnableStep::RemoveOldApp => 11,
            EnableStep::MoveApp => 12,
            EnableStep::MoveAgent => 13,
            EnableStep::RegisterApp => 14,
            EnableStep::EnableService => 15,
            EnableStep::StartService => 16,
            EnableStep::Announce => 17,
            EnableStep::RemoveStaging => 18,
        }
    }

    /// The steps in order.
    pub open spec fn order() -> Seq<EnableStep> {
        seq![
            EnableStep::CheckApp,
            EnableStep::BuildBundle,
            EnableStep::MakeApplications,
            EnableStep::MakeLaunchAgents,
            EnableStep::MakeLogs,
            EnableStep::Stage,
            EnableStep::CopyBundle,
            EnableStep::WriteAgent,
            EnableStep::LintAgent,
            EnableStep::ProbeService,
            EnableStep::StopService,
            EnableStep::RemoveOldApp,
            EnableStep::MoveApp,
            EnableStep::MoveAgent,
            EnableStep::RegisterApp,
            EnableStep::EnableService,
            EnableStep::StartService,
            EnableStep::Announce,
            EnableStep::RemoveStaging,
        ]
    }

    /// What the step does, given the name of the service and its domain.
    pub open spec fn does(self, service: Seq<char>, domain: Seq<char>) -> OperationView {
        match self {
            EnableStep::CheckApp => OperationView::CheckApp(identifier_call()),
            EnableStep::BuildBundle => OperationView::BuildBundle,
            EnableStep::MakeApplications => OperationView::CreateDirectory(Place::Applications),
            EnableStep::MakeLaunchAgents => OperationView::CreateDirectory(Place::LaunchAgents),
            EnableStep::MakeLogs => OperationView::CreateDirectory(Place::Logs),
            EnableStep::Stage => OperationView::Stage(Place::Applications),
            EnableStep::CopyBundle => OperationView::Run(
                call(
                    Program::Ditto,
                    seq![ArgumentView::Path(Place::Bundle), ArgumentView::Path(Place::StagedApp)],
                ),
            ),
            EnableStep::WriteAgent => OperationView::WriteAgent(
                Place::AgentTemplate,
                Place::AppExecutable,
                Place::LogFile,
                Place::StagedAgent,
            ),
            EnableStep::LintAgent => OperationView::Run(
                call(
                    Program::Plutil,
                    seq![ArgumentView::Text("-lint"@), ArgumentView::Path(Place::StagedAgent)],
                ),
            ),
            EnableStep::ProbeService => OperationView::Probe(service_call("print"@, service)),
            EnableStep::StopService => OperationView::Run(service_call("bootout"@, service)),
            EnableStep::RemoveOldApp => OperationView::RemoveDirectory(Place::App),
            EnableStep::MoveApp => OperationView::Rename(Place::StagedApp, Place::App),
            EnableStep::MoveAgent => OperationView::Rename(Place::StagedAgent, Place::Agent),
            EnableStep::RegisterApp => OperationView::Run(
                call(
                    Program::LsRegister,
                    seq![ArgumentView::Text("-f"@), ArgumentView::Path(Place::App)],
                ),
            ),
            EnableStep::EnableService => OperationView::Run(service_call("enable"@, service)),
            EnableStep::StartService => OperationView::Run(
                call(
                    Program::Launchctl,
                    seq![
                        ArgumentView::Text("bootstrap"@),
                        ArgumentView::Text(domain),
                        ArgumentView::Path(Place::Agent),
                    ],
                ),
            ),
            EnableStep::Announce => OperationView::Announce(Notice::Installed),
            EnableStep::RemoveStaging => OperationView::RemoveStaging,
        }
    }

    /// Tells what the step does, given the name of the service and its domain.
    pub fn operation(self, service: &str, domain: &str) -> (r: Operation)
        ensures
            r@ == self.does(service@, domain@),
    {
        match self {
            EnableStep::CheckApp => check_app(),
            EnableStep::BuildBundle => Operation::BuildBundle,
            EnableStep::MakeApplications => Operation::CreateDirectory(Place::Applications),
            EnableStep::MakeLaunchAgents => Operation::CreateDirectory(Place::LaunchAgents),
            EnableStep::MakeLogs => Operation::CreateDirectory(Place::Logs),
            EnableStep::Stage => Operation::Stage(Place::Applications),
            EnableStep::CopyBundle => {
                let ditto = command(
                    Program::Ditto,
                    vec![Argument::Path(Place::Bundle), Argument::Path(Place::StagedApp)],
                );
                assert(ditto@.arguments =~= self.does(service@, domain@)->Run_0.arguments);
                Operation::Run(ditto)
            },
            EnableStep::WriteAgent => Operation::WriteAgent(
                Place::AgentTemplate,
                Place::AppExecutable,
                Place::LogFile,
                Place::StagedAgent,
            ),
            EnableStep::LintAgent => {
                let plutil = command(
                    Program::Plutil,
                    vec![text("-lint"), Argument::Path(Place::StagedAgent)],
                );
                assert(plutil@.arguments =~= self.does(service@, domain@)->Run_0.arguments);
                Operation::Run(plutil)
            },
            EnableStep::ProbeService => Operation::Probe(service_command("print", service)),
            EnableStep::StopService => Operation::Run(service_command("bootout", service)),
            EnableStep::RemoveOldApp => Operation::RemoveDirectory(Place::App),
            EnableStep::MoveApp => Operation::Rename(Place::StagedApp, Place::App),
            EnableStep::MoveAgent => Operation::Rename(Place::StagedAgent, Place::Agent),
            EnableStep::RegisterApp => {
                let register = command(
                    Program::LsRegister,
                    vec![text("-f"), Argument::Path(Place::App)],
                );
                assert(register@.arguments =~= self.does(service@, domain@)->Run_0.arguments);
                Operation::Run(register)
            },
            EnableStep::EnableService => Operation::Run(service_command("enable", service)),
            EnableStep::StartService => {
                let start = command(
                    Program::Launchctl,
                    vec![text("bootstrap"), text(domain), Argument::Path(Place::Agent)],
                );
                assert(start@.arguments =~= self.does(service@, domain@)->Run_0.arguments);
                Operation::Run(start)
            },
            EnableStep::Announce => Operation::Announce(Notice::Installed),
            EnableStep::RemoveStaging => Operation::RemoveStaging,
        }
    }

    /// The staging directory stands while the step is performed.
    pub open spec fn staged(self) -> bool {
        self.rank() > EnableStep::Stage.rank()
    }
}

impl Steps for EnableStep {
    /// With the next step, unless this one failed. A service that does not run is
    /// not stopped. After a failure nothing is left to do but to remove the
    /// staging directory, if it stands; that this fails is ignored.
    open spec fn followed_by(self, reply: Reply) -> Progress<EnableStep> {
        let skipped: int = if self == EnableStep::ProbeService && reply == Reply::No {
            1
        } else {
            0
        };
        if self == EnableStep::RemoveStaging {
            Progress::Finish
        } else if reply == Reply::Failed {
            if self.staged() {
                Progress::Retreat(EnableStep::RemoveStaging)
            } else {
                Progress::Abort
            }
        } else {
            Progress::Continue(EnableStep::order()[self.rank() + 1 + skipped])
        }
    }

    fn next(self, reply: Reply) -> (r: Progress<EnableStep>) {
        if reply == Reply::Failed {
            return match self {
                EnableStep::CheckApp | EnableStep::BuildBundle | EnableStep::MakeApplications
                | EnableStep::MakeLaunchAgents | EnableStep::MakeLogs
                | EnableStep::Stage => Progress::Abort,
                EnableStep::RemoveStaging => Progress::Finish,
                _ => Progress::Retreat(EnableStep::RemoveStaging),
            };
        }
        match self {
            EnableStep::CheckApp => Progress::Continue(EnableStep::BuildBundle),
            EnableStep::BuildBundle => Progress::Continue(EnableStep::MakeApplications),
            EnableStep::MakeApplications => Progress::Continue(EnableStep::MakeLaunchAgents),
            EnableStep::MakeLaunchAgents => Progress::Continue(EnableStep::MakeLogs),
            EnableStep::MakeLogs => Progress::Continue(EnableStep::Stage),
            EnableStep::Stage => Progress::Continue(EnableStep::CopyBundle),
            EnableStep::CopyBundle => Progress::Continue(EnableStep::WriteAgent),
            EnableStep::WriteAgent => Progress::Continue(EnableStep::LintAgent),
            EnableStep::LintAgent => Progress::Continue(EnableStep::ProbeService),
            EnableStep::ProbeService => if reply == Reply::No {
                Progress::Continue(EnableStep::RemoveOldApp)
            } else {
                Progress::Continue(EnableStep::StopService)
            },
            EnableStep::StopService => Progress::Continue(EnableStep::RemoveOldApp),
            EnableStep::RemoveOldApp => Progress::Continue(EnableStep::MoveApp),
            EnableStep::MoveApp => Progress::Continue(EnableStep::MoveAgent),
            EnableStep::MoveAgent => Progress::Continue(EnableStep::RegisterApp),
            EnableStep::RegisterApp => Progress::Continue(EnableStep::EnableService),
            EnableStep::EnableService => Progress::Continue(EnableStep::StartService),
            EnableStep::StartService => Progress::Continue(EnableStep::Announce),
            EnableStep::Announce => Progress::Continue(EnableStep::RemoveStaging),
            EnableStep::RemoveStaging => Progress::Finish,
        }
    }
}

/// Where an installation stands after its steps had these outcomes.
pub open spec fn enabling(outcomes: Seq<Result<bool, Seq<char>>>) -> Phase<EnableStep> {
    phase(EnableStep::CheckApp, outcomes)
}

/// The step of an installation was performed, without a failure.
pub open spec fn enabled_by(outcomes: Seq<Result<bool, Seq<char>>>, step: EnableStep) -> bool {
    performed(EnableStep::CheckApp, outcomes, step)
}

proof fn lemma_order(step: EnableStep)
    ensures
        0 <= step.rank() < EnableStep::order().len(),
        EnableStep::order()[step.rank()] == step,
{
}

/// An installation that failed only cleans up.
proof fn lemma_failed(outcomes: Seq<Result<bool, Seq<char>>>)
    ensures
        enabling(outcomes) matches Phase::Running(run) ==> run.failure is Some ==> run.step
            == EnableStep::RemoveStaging,
    decreases outcomes.len(),
{
    if outcomes.len() > 0 {
        lemma_failed(outcomes.drop_last());
    }
}

/// Each step of an installation is performed only after all those before it
/// were, without a failure. Only the stopping of the service may be left out, and
/// after a failure only the staging directory is removed.
pub proof fn law_steps_of_an_installation(
    outcomes: Seq<Result<bool, Seq<char>>>,
    step: EnableStep,
)
    requires
        enabling(outcomes) matches Phase::Running(run) && run.failure is None && step.rank()
            < run.step.rank(),
        step != EnableStep::StopService,
    ensures
        enabled_by(outcomes, step),
    decreases outcomes.len(),
{
    let first = EnableStep::CheckApp;
    let front = outcomes.drop_last();
    lemma_failed(front);
    let last = enabling(front)->Running_0.step;
    lemma_order(last);
    lemma_order(enabling(outcomes)->Running_0.step);
    lemma_order(step);
    if step.rank() < last.rank() {
        law_steps_of_an_installation(front, step);
        lemma_performed(first, outcomes, step);
    } else {
        assert(step == last);
        lemma_performed_last(first, outcomes, step);
    }
}

/// An installed app is removed only after it was found to be this one, its
/// successor was staged, the property list of the service was found to be
/// well-formed, and the service was seen not to run or was stopped.
pub proof fn law_an_app_is_replaced_last(outcomes: Seq<Result<bool, Seq<char>>>)
    requires
        enabling(outcomes) matches Phase::Running(run) && run.step == EnableStep::RemoveOldApp,
    ensures
        enabled_by(outcomes, EnableStep::CheckApp),
        enabled_by(outcomes, EnableStep::CopyBundle),
        enabled_by(outcomes, EnableStep::LintAgent),
        enabled_by(outcomes, EnableStep::StopService) || outcomes.last() == Ok::<bool, Seq<char>>(
            false,
        ),
{
    lemma_failed(outcomes);
    law_steps_of_an_installation(outcomes, EnableStep::CheckApp);
    law_steps_of_an_installation(outcomes, EnableStep::CopyBundle);
    law_steps_of_an_installation(outcomes, EnableStep::LintAgent);
    let last = enabling(outcomes.drop_last())->Running_0.step;
    lemma_order(last);
    lemma_performed_last(EnableStep::CheckApp, outcomes, last);
}

/// An installation whose step fails ends with the reason of that failure, and
/// does nothing more but remove the staging directory, if it stands.
pub proof fn law_a_failure_ends_the_installation(
    outcomes: Seq<Result<bool, Seq<char>>>,
    k: int,
    run: RunView<EnableStep>,
    reason: Seq<char>,
)
    requires
        0 <= k < outcomes.len(),
        enabling(outcomes.take(k)) == Phase::Running(run),
        run.step != EnableStep::RemoveStaging,
        outcomes[k] == Err::<bool, Seq<char>>(reason),
    ensures
        match enabling(outcomes) {
            Phase::Running(now) => run.step.staged() && now == (RunView {
                step: EnableStep::RemoveStaging,
                failure: Some(reason),
            }),
            Phase::Ended(result) => result == Err::<(), Seq<char>>(reason),
        },
    decreases outcomes.len(),
{
    let front = outcomes.drop_last();
    if k < front.len() {
        assert(front.take(k) =~= outcomes.take(k));
        law_a_failure_ends_the_installation(front, k, run, reason);
    } else {
        assert(outcomes.take(k) =~= front);
        lemma_failed(front);
    }
}

/// An installation without a failure, but for one in removing the staging
/// directory, succeeds.
pub proof fn law_an_installation_without_a_failure_succeeds(
    outcomes: Seq<Result<bool, Seq<char>>>,
)
    requires
        forall|k: int|
            0 <= k < outcomes.len() && outcomes[k] is Err ==> #[trigger] comes_to(
                EnableStep::CheckApp,
                outcomes,
                k,
                EnableStep::RemoveStaging,
            ),
    ensures
        match enabling(outcomes) {
            Phase::Running(run) => run.failure is None,
            Phase::Ended(result) => result is Ok,
        },
    decreases outcomes.len(),
{
    let first = EnableStep::CheckApp;
    if outcomes.len() > 0 {
        let front = outcomes.drop_last();
        let last = outcomes.len() - 1;
        assert forall|k: int| 0 <= k < front.len() && front[k] is Err implies #[trigger] comes_to(
            first,
            front,
            k,
            EnableStep::RemoveStaging,
        ) by {
            assert(comes_to(first, outcomes, k, EnableStep::RemoveStaging));
            assert(outcomes.take(k) =~= front.take(k));
        }
        law_an_installation_without_a_failure_succeeds(front);
        assert(outcomes.take(last) =~= front);
        if outcomes[last] is Err {
            assert(comes_to(first, outcomes, last, EnableStep::RemoveStaging));
        }
    }
}

/// Once the staging directory was made, it stands until it is removed.
proof fn lemma_staged(outcomes: Seq<Result<bool, Seq<char>>>)
    requires
        enabled_by(outcomes, EnableStep::Stage),
    ensures
        match enabling(outcomes) {
            Phase::Running(run) => run.step.staged(),
            Phase::Ended(_) => attempted(
                EnableStep::CheckApp,
                outcomes,
                EnableStep::RemoveStaging,
            ),
        },
    decreases outcomes.len(),
{
    let first = EnableStep::CheckApp;
    let front = outcomes.drop_last();
    let k = choose|k: int|
        0 <= k < outcomes.len() && #[trigger] comes_to(first, outcomes, k, EnableStep::Stage)
            && outcomes[k] is Ok;
    if k < front.len() {
        assert(front.take(k) =~= outcomes.take(k));
        assert(comes_to(first, front, k, EnableStep::Stage));
        lemma_staged(front);
        lemma_performed(first, outcomes, EnableStep::RemoveStaging);
        if enabling(front) is Running {
            let step = enabling(front)->Running_0.step;
            lemma_order(step);
            lemma_performed_last(first, outcomes, step);
        }
    } else {
        assert(outcomes.take(k) =~= front);
    }
}

/// However an installation ends, its staging directory is removed, if it was
/// made.
pub proof fn law_an_installation_leaves_no_staging_directory(
    outcomes: Seq<Result<bool, Seq<char>>>,
)
    requires
        enabling(outcomes) is Ended,
        enabled_by(outcomes, EnableStep::Stage),
    ensures
        attempted(EnableStep::CheckApp, outcomes, EnableStep::RemoveStaging),
{
    lemma_staged(outcomes);
}

/// An installation has an end.
pub proof fn law_installations_end(outcomes: Seq<Result<bool, Seq<char>>>)
    ensures
        enabling(outcomes) matches Phase::Running(run) ==> outcomes.len() <= run.step.rank(),
        outcomes.len() >= EnableStep::order().len() ==> enabling(outcomes) is Ended,
    decreases outcomes.len(),
{
    if outcomes.len() > 0 {
        law_installations_end(outcomes.drop_last());
        if enabling(outcomes.drop_last()) is Running {
            lemma_order(enabling(outcomes.drop_last())->Running_0.step);
        }
    }
    if enabling(outcomes) is Running {
        lemma_order(enabling(outcomes)->Running_0.step);
    }
}

/// The order of an installation.
pub proof fn law_order_of_an_installation()
    ensures
        EnableStep::CheckApp.rank() < EnableStep::BuildBundle.rank()
            < EnableStep::MakeApplications.rank() < EnableStep::MakeLaunchAgents.rank()
            < EnableStep::MakeLogs.rank() < EnableStep::Stage.rank() < EnableStep::CopyBundle.rank()
            < EnableStep::WriteAgent.rank() < EnableStep::LintAgent.rank()
            < EnableStep::ProbeService.rank() < EnableStep::StopService.rank()
            < EnableStep::RemoveOldApp.rank() < EnableStep::MoveApp.rank()
            < EnableStep::MoveAgent.rank() < EnableStep::RegisterApp.rank()
            < EnableStep::EnableService.rank() < EnableStep::StartService.rank()
            < EnableStep::Announce.rank() < EnableStep::RemoveStaging.rank(),
{
}

/// An installation that succeeded performed all its steps; only the stopping of the
/// service may have been left out.
pub proof fn law_a_successful_installation_is_complete(
    outcomes: Seq<Result<bool, Seq<char>>>,
    step: EnableStep,
)
    requires
        enabling(outcomes) == Phase::<EnableStep>::Ended(Ok(())),
        step != EnableStep::StopService,
        step != EnableStep::RemoveStaging,
    ensures
        enabled_by(outcomes, step),
    decreases outcomes.len(),
{
    let front = outcomes.drop_last();
    if enabling(front) is Ended {
        law_a_successful_installation_is_complete(front, step);
    } else {
        law_order_of_an_installation();
        lemma_order(step);
        law_steps_of_an_installation(front, step);
    }
    lemma_performed(EnableStep::CheckApp, outcomes, step);
}

/// The new app is copied whole out of the built bundle into the staging directory, and
/// moved from there to where the old one was removed, as is the property list.
pub proof fn law_what_is_installed(service: Seq<char>, domain: Seq<char>)
    ensures
        EnableStep::CheckApp.does(service, domain) == OperationView::CheckApp(identifier_call()),
        EnableStep::BuildBundle.does(service, domain) == OperationView::BuildBundle,
        EnableStep::MakeApplications.does(service, domain) == OperationView::CreateDirectory(
            Place::Applications,
        ),
        EnableStep::MakeLaunchAgents.does(service, domain) == OperationView::CreateDirectory(
            Place::LaunchAgents,
        ),
        EnableStep::MakeLogs.does(service, domain) == OperationView::CreateDirectory(Place::Logs),
        EnableStep::Stage.does(service, domain) == OperationView::Stage(Place::Applications),
        EnableStep::CopyBundle.does(service, domain) == OperationView::Run(
            CommandView {
                program: Program::Ditto,
                arguments: seq![
                    ArgumentView::Path(Place::Bundle),
                    ArgumentView::Path(Place::StagedApp),
                ],
            },
        ),
        EnableStep::WriteAgent.does(service, domain) == OperationView::WriteAgent(
            Place::AgentTemplate,
            Place::AppExecutable,
            Place::LogFile,
            Place::StagedAgent,
        ),
        EnableStep::LintAgent.does(service, domain) == OperationView::Run(
            CommandView {
                program: Program::Plutil,
                arguments: seq![
                    ArgumentView::Text("-lint"@),
                    ArgumentView::Path(Place::StagedAgent),
                ],
            },
        ),
        EnableStep::RemoveOldApp.does(service, domain) == OperationView::RemoveDirectory(
            Place::App,
        ),
        EnableStep::MoveApp.does(service, domain) == OperationView::Rename(
            Place::StagedApp,
            Place::App,
        ),
        EnableStep::MoveAgent.does(service, domain) == OperationView::Rename(
            Place::StagedAgent,
            Place::Agent,
        ),
        EnableStep::RegisterApp.does(service, domain) == OperationView::Run(
            CommandView {
                program: Program::LsRegister,
                arguments: seq![ArgumentView::Text("-f"@), ArgumentView::Path(Place::App)],
            },
        ),
        EnableStep::Announce.does(service, domain) == OperationView::Announce(Notice::Installed),
        EnableStep::RemoveStaging.does(service, domain) == OperationView::RemoveStaging,
{
}

/// The one service is asked for, stopped, enabled, and started in its domain from the
/// installed property list.
pub proof fn law_the_service_of_an_installation(service: Seq<char>, domain: Seq<char>)
    ensures
        EnableStep::ProbeService.does(service, domain) == OperationView::Probe(
            CommandView {
                program: Program::Launchctl,
                arguments: seq![ArgumentView::Text("print"@), ArgumentView::Text(service)],
            },
        ),
        EnableStep::StopService.does(service, domain) == OperationView::Run(
            CommandView {
                program: Program::Launchctl,
                arguments: seq![ArgumentView::Text("bootout"@), ArgumentView::Text(service)],
            },
        ),
        EnableStep::EnableService.does(service, domain) == OperationView::Run(
            CommandView {
                program: Program::Launchctl,
                arguments: seq![ArgumentView::Text("enable"@), ArgumentView::Text(service)],
            },
        ),
        EnableStep::StartService.does(service, domain) == OperationView::Run(
            CommandView {
                program: Program::Launchctl,
                arguments: seq![
                    ArgumentView::Text("bootstrap"@),
                    ArgumentView::Text(domain),
                    ArgumentView::Path(Place::Agent),
                ],
            },
        ),
{
}

/// A step of an installation does what the laws say, and is followed as they say.
pub proof fn law_functions_on_installations(
    step: EnableStep,
    service: &str,
    domain: &str,
    operation: Operation,
    reply: Reply,
    next: Progress<EnableStep>,
)
    requires
        call_ensures(EnableStep::operation, (step, service, domain), operation),
        call_ensures(<EnableStep as Steps>::next, (step, reply), next),
    ensures
        operation@ == step.does(service@, domain@),
        next == step.followed_by(reply),
{
}

/// Only the question whether the service runs has an answer that matters: where it does
/// not, it is not stopped.
pub proof fn law_answers_to_an_installation(step: EnableStep)
    ensures
        step != EnableStep::ProbeService ==> step.followed_by(Reply::No) == step.followed_by(
            Reply::Yes,
        ),
        EnableStep::ProbeService.followed_by(Reply::Yes) == Progress::Continue(
            EnableStep::StopService,
        ),
        EnableStep::ProbeService.followed_by(Reply::No) == Progress::Continue(
            EnableStep::RemoveOldApp,
        ),
{
}

} // verus!
