//! How a task goes on from step to step, and what becomes of it.
use vstd::prelude::*;

verus! {

/// What came of a step.
#[derive(Clone, Copy, Debug, PartialEq, Eq, Structural)]
pub enum Reply {
    /// It was done, or what was looked for is so.
    Yes,
    /// What was looked for is not so.
    No,
    /// It failed.
    Failed,
}

/// How a task goes on.
#[derive(Debug, PartialEq, Eq, Structural)]
pub enum Progress<S> {
    /// With this step.
    Continue(S),
    /// With this step, after telling the user that the last one failed.
    Warn(S),
    /// With this step, to clean up: the last one failed, and the task with it.
    Retreat(S),
    /// Not at all: the last step failed, and the task with it.
    Abort,
    /// Not at all: there is nothing left to do.
    Finish,
}

/// The steps of a task.
pub trait Steps: Sized + Copy {
    /// How the task goes on once this step was replied to.
    spec fn followed_by(self, reply: Reply) -> Progress<Self>;

    /// Tells how the task goes on once this step was replied to.
    fn next(self, reply: Reply) -> (r: Progress<Self>)
        ensures
            r == self.followed_by(reply),
    ;
}

/// A task in progress: the step it has come to, and why it failed, if it did.
#[derive(Debug)]
pub struct Run<S> {
    pub step: S,
    pub failure: Option<String>,
}

/// The mathematical value of a task in progress.
pub ghost struct RunView<S> {
    pub step: S,
    pub failure: Option<Seq<char>>,
}

impl<S> View for Run<S> {
    type V = RunView<S>;

    open spec fn view(&self) -> RunView<S> {
        RunView {
            step: self.step,
            failure: match self.failure {
                Some(reason) => Some(reason@),
                None => None,
            },
        }
    }
}

/// What there is to do between two steps.
#[derive(Debug)]
pub enum Turn {
    /// Go on.
    Continue,
    /// Tell the user that the last step failed, for this reason, and go on.
    Warn(String),
    /// Stop: the task was done, or failed for this reason.
    End(Result<(), String>),
}

/// The mathematical value of a turn.
pub ghost enum TurnView {
    Continue,
    Warn(Seq<char>),
    End(Result<(), Seq<char>>),
}

impl View for Turn {
    type V = TurnView;

    open spec fn view(&self) -> TurnView {
        match *self {
            Turn::Continue => TurnView::Continue,
            Turn::Warn(reason) => TurnView::Warn(reason@),
            Turn::End(Ok(_)) => TurnView::End(Ok(())),
            Turn::End(Err(reason)) => TurnView::End(Err(reason@)),
        }
    }
}

/// The answer of a step, or the reason why it failed.
pub open spec fn outcome_view(outcome: Result<bool, String>) -> Result<bool, Seq<char>> {
    match outcome {
        Ok(answer) => Ok(answer),
        Err(reason) => Err(reason@),
    }
}

/// What an outcome replies to its step.
pub open spec fn reply_of(outcome: Result<bool, Seq<char>>) -> Reply {
    match outcome {
        Ok(true) => Reply::Yes,
        Ok(false) => Reply::No,
        Err(_) => Reply::Failed,
    }
}

/// The reason that an outcome gives, if it gives one.
pub open spec fn reason_of(outcome: Result<bool, Seq<char>>) -> Seq<char> {
    match outcome {
        Ok(_) => seq![],
        Err(reason) => reason,
    }
}

impl<S: Steps> RunView<S> {
    /// The task after the step it has come to had an outcome, and what there is
    /// to do then. A task that failed ends with the reason of its failure.
    pub open spec fn next(self, outcome: Result<bool, Seq<char>>) -> (RunView<S>, TurnView) {
        let reason = reason_of(outcome);
        match self.step.followed_by(reply_of(outcome)) {
            Progress::Continue(step) => (RunView { step, ..self }, TurnView::Continue),
            Progress::Warn(step) => (RunView { step, ..self }, TurnView::Warn(reason)),
            Progress::Retreat(step) => (
                RunView { step, failure: Some(reason) },
                TurnView::Continue,
            ),
            Progress::Abort => (self, TurnView::End(Err(reason))),
            Progress::Finish => (
                self,
                TurnView::End(
                    match self.failure {
                        Some(reason) => Err(reason),
                        None => Ok(()),
                    },
                ),
            ),
        }
    }
}

impl<S: Steps> Run<S> {
    /// A task at its first step.
    pub fn new(step: S) -> (r: Self)
        ensures
            r@ == (RunView::<S> { step, failure: None }),
    {
        Run { step, failure: None }
    }

    /// Takes note of what came of the step that the task has come to.
    pub fn advance(&mut self, outcome: Result<bool, String>) -> (r: Turn)
        ensures
            (final(self)@, r@) == old(self)@.next(outcome_view(outcome)),
    {
        let (reply, reason) = match outcome {
            Ok(true) => (Reply::Yes, String::new()),
            Ok(false) => (Reply::No, String::new()),
            Err(reason) => (Reply::Failed, reason),
        };
        match self.step.next(reply) {
            Progress::Continue(step) => {
                self.step = step;
                Turn::Continue
            },
            Progress::Warn(step) => {
                self.step = step;
                Turn::Warn(reason)
            },
            Progress::Retreat(step) => {
                self.step = step;
                self.failure = Some(reason);
                Turn::Continue
            },
            Progress::Abort => Turn::End(Err(reason)),
            Progress::Finish => match &self.failure {
                Some(failure) => Turn::End(Err(failure.clone())),
                None => Turn::End(Ok(())),
            },
        }
    }
}

/// Where a task stands.
pub ghost enum Phase<S> {
    Running(RunView<S>),
    Ended(Result<(), Seq<char>>),
}

/// Where a task that starts with `first` stands after its steps had these
/// outcomes.
pub open spec fn phase<S: Steps>(first: S, outcomes: Seq<Result<bool, Seq<char>>>) -> Phase<S>
    decreases outcomes.len(),
{
    if outcomes.len() == 0 {
        Phase::Running(RunView { step: first, failure: None })
    } else {
        match phase(first, outcomes.drop_last()) {
            Phase::Ended(result) => Phase::Ended(result),
            Phase::Running(run) => {
                let (next, turn) = run.next(outcomes.last());
                match turn {
                    TurnView::End(result) => Phase::Ended(result),
                    _ => Phase::Running(next),
                }
            },
        }
    }
}

/// The task comes to the step once `k` steps had their outcomes.
pub open spec fn comes_to<S: Steps>(
    first: S,
    outcomes: Seq<Result<bool, Seq<char>>>,
    k: int,
    step: S,
) -> bool {
    phase(first, outcomes.take(k)) matches Phase::Running(run) && run.step == step
}

/// The step was performed, without a failure.
pub open spec fn performed<S: Steps>(
    first: S,
    outcomes: Seq<Result<bool, Seq<char>>>,
    step: S,
) -> bool {
    exists|k: int|
        0 <= k < outcomes.len() && #[trigger] comes_to(first, outcomes, k, step) && outcomes[k] is Ok
}

/// The step was performed, whether it failed or not.
pub open spec fn attempted<S: Steps>(
    first: S,
    outcomes: Seq<Result<bool, Seq<char>>>,
    step: S,
) -> bool {
    exists|k: int| 0 <= k < outcomes.len() && #[trigger] comes_to(first, outcomes, k, step)
}

/// What was performed stays so.
pub proof fn lemma_performed<S: Steps>(
    first: S,
    outcomes: Seq<Result<bool, Seq<char>>>,
    step: S,
)
    requires
        outcomes.len() > 0,
    ensures
        performed(first, outcomes.drop_last(), step) ==> performed(first, outcomes, step),
        attempted(first, outcomes.drop_last(), step) ==> attempted(first, outcomes, step),
{
    let front = outcomes.drop_last();
    if performed(first, front, step) {
        let k = choose|k: int|
            0 <= k < front.len() && #[trigger] comes_to(first, front, k, step) && front[k] is Ok;
        assert(outcomes.take(k) =~= front.take(k));
        assert(comes_to(first, outcomes, k, step));
    }
    if attempted(first, front, step) {
        let k = choose|k: int| 0 <= k < front.len() && #[trigger] comes_to(first, front, k, step);
        assert(outcomes.take(k) =~= front.take(k));
        assert(comes_to(first, outcomes, k, step));
    }
}

/// The step before the last outcome was performed, without a failure if that
/// outcome is none.
pub proof fn lemma_performed_last<S: Steps>(
    first: S,
    outcomes: Seq<Result<bool, Seq<char>>>,
    step: S,
)
    requires
        outcomes.len() > 0,
        phase(first, outcomes.drop_last()) matches Phase::Running(run) && run.step == step,
    ensures
        outcomes.last() is Ok ==> performed(first, outcomes, step),
        attempted(first, outcomes, step),
{
    let k = outcomes.len() - 1;
    assert(outcomes.take(k) =~= outcomes.drop_last());
    assert(comes_to(first, outcomes, k, step));
}

/// A task in progress, a turn and an outcome are worth what they hold.
pub proof fn law_values_of_runs<S>(run: Run<S>, turn: Turn, outcome: Result<bool, String>)
    ensures
        run@.step == run.step,
        run.failure is None <==> run@.failure is None,
        run.failure matches Some(reason) ==> run@.failure == Some(reason@),
        turn matches Turn::Continue ==> turn@ == TurnView::Continue,
        turn matches Turn::Warn(reason) ==> turn@ == TurnView::Warn(reason@),
        turn matches Turn::End(Ok(_)) ==> turn@ == TurnView::End(Ok(())),
        turn matches Turn::End(Err(reason)) ==> turn@ == TurnView::End(Err(reason@)),
        outcome matches Ok(answer) ==> outcome_view(outcome) == Ok::<bool, Seq<char>>(answer),
        outcome matches Err(reason) ==> outcome_view(outcome) == Err::<bool, Seq<char>>(reason@),
{
}

/// A step that succeeds leaves a task at the next step, with the failure that it had
/// or with none, and one that fails never without telling why: the reason is told at
/// once, or is that of the task.
pub proof fn law_reasons_are_kept<S: Steps>(
    run: RunView<S>,
    answer: bool,
    reason: Seq<char>,
    step: S,
)
    ensures
        run.step.followed_by(
            if answer {
                Reply::Yes
            } else {
                Reply::No
            },
        ) == Progress::Continue(step) ==> run.next(Ok(answer)) == (
            RunView { step, failure: run.failure },
            TurnView::Continue,
        ),
        run.step.followed_by(Reply::Failed) == Progress::Warn(step) ==> run.next(Err(reason)) == (
            RunView { step, failure: run.failure },
            TurnView::Warn(reason),
        ),
        run.step.followed_by(Reply::Failed) == Progress::Retreat(step) ==> run.next(Err(reason))
            == (RunView { step, failure: Some(reason) }, TurnView::Continue),
        run.step.followed_by(Reply::Failed) == Progress::<S>::Abort ==> run.next(Err(reason)).1
            == TurnView::End(Err(reason)),
{
}

/// A task starts at its first step, without a failure, and goes on as the laws say.
pub proof fn law_functions_on_runs<S: Steps>(
    step: S,
    start: Run<S>,
    run: &mut Run<S>,
    outcome: Result<bool, String>,
    turn: Turn,
)
    requires
        call_ensures(Run::<S>::new, (step,), start),
        call_ensures(Run::<S>::advance, (run, outcome), turn),
    ensures
        start.step == step,
        start.failure is None,
        (final(run)@, turn@) == old(run)@.next(outcome_view(outcome)),
{
}

} // verus!
