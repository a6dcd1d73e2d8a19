//! Building the app bundle.
use vstd::prelude::*;

use crate::json::Json;
use crate::json::JsonView;
use crate::json::json_document;
use crate::task::cargo::PRODUCT;
use crate::task::cargo::built;
use crate::task::cargo::built_executable;
use crate::task::cargo::described_by;
use crate::task::cargo::described_package;
use crate::task::cargo::documents;
use crate::task::files::ad_hoc;
use crate::task::files::bytes;
use crate::task::files::chosen_identity;
use crate::task::files::is_ad_hoc;
use crate::task::files::signing_identity;
use crate::task::operation::Argument;
use crate::task::operation::ArgumentView;
use crate::task::operation::Command;
use crate::task::operation::CommandView;
use crate::task::operation::Notice;
use crate::task::operation::Operation;
use crate::task::operation::OperationView;
use crate::task::operation::Place;
use crate::task::operation::Program;
use crate::task::operation::call;
use crate::task::operation::command;
use crate::task::operation::text;
use crate::task::progress::Phase;
use crate::task::progress::Progress;
use crate::task::progress::Reply;
use crate::task::progress::Run;
use crate::task::progress::RunView;
use crate::task::progress::Steps;
use crate::task::progress::Turn;
use crate::task::progress::TurnView;
use crate::task::progress::attempted;
use crate::task::progress::comes_to;
use crate::task::progress::lemma_performed;
use crate::task::progress::lemma_performed_last;
use crate::task::progress::performed;
use crate::task::progress::phase;
use crate::text::lines_of;

verus! {

/// The steps of a build, in order.
#[derive(Clone, Copy, Debug, PartialEq, Eq, Structural)]
pub enum BundleStep {
    ReadMetadata,
    Compile,
    MakeDist,
    Stage,
    MakePrograms,
    MakeResources,
    CopyExecutable,
    CopyIcon,
    CopyAssets,
    CopyInfo,
    SetVersion,
    SetShortVersion,
    Sign,
    VerifySignature,
    RemoveOldBundle,
    MoveBundle,
    Announce,
    RemoveStaging,
}

/// The call that reads the description of the project.
pub open spec fn metadata_call() -> CommandView {
    call(
        Program::Cargo,
        seq![
            ArgumentView::Text("metadata"@),
            ArgumentView::Text("--no-deps"@),
            ArgumentView::Text("--format-version=1"@),
            ArgumentView::Text("--locked"@),
        ],
    )
}

/// The call that compiles the program.
pub open spec fn compile_call() -> CommandView {
    call(
        Program::Cargo,
        seq![
            ArgumentView::Text("build"@),
            ArgumentView::Text("--release"@),
            ArgumentView::Text("--locked"@),
            ArgumentView::Text("--bin"@),
            ArgumentView::Text(PRODUCT@),
            ArgumentView::Text("--message-format=json-render-diagnostics"@),
        ],
    )
}

/// The call that writes the version into the description of the bundle.
pub open spec fn version_call(key: Seq<char>, version: Seq<char>) -> CommandView {
    call(
        Program::Plutil,
        seq![
            ArgumentView::Text("-replace"@),
            ArgumentView::Text(key),
            ArgumentView::Text("-string"@),
            ArgumentView::Text(version),
            ArgumentView::Path(Place::StagedInfo),
        ],
    )
}

/// The call that signs the bundle with an identity.
pub open spec fn sign_call(identity: Seq<u8>) -> CommandView {
    call(
        Program::CodeSign,
        seq![
            ArgumentView::Text("--force"@),
            ArgumentView::Text("--sign"@),
            ArgumentView::Bytes(identity),
            ArgumentView::Path(Place::StagedApp),
        ],
    )
}

/// The call that verifies the signature of the bundle.
pub open spec fn verify_call() -> CommandView {
    call(
        Program::CodeSign,
        seq![
            ArgumentView::Text("--verify"@),
            ArgumentView::Text("--strict"@),
            ArgumentView::Path(Place::StagedApp),
        ],
    )
}

fn metadata_command() -> (r: Command)
    ensures
        r@ == metadata_call(),
{
    let metadata = command(
        Program::Cargo,
        vec![text("metadata"), text("--no-deps"), text("--format-version=1"), text("--locked")],
    );
    assert(metadata@ =~= metadata_call());
    metadata
}

fn compile_command() -> (r: Command)
    ensures
        r@ == compile_call(),
{
    let compile = command(
        Program::Cargo,
        vec![
            text("build"),
            text("--release"),
            text("--locked"),
            text("--bin"),
            text(PRODUCT),
            text("--message-format=json-render-diagnostics"),
        ],
    );
    assert(compile@ =~= compile_call());
    compile
}

fn version_command(key: &str, version: &str) -> (r: Command)
    ensures
        r@ == version_call(key@, version@),
{
    let replace = command(
        Program::Plutil,
        vec![
            text("-replace"),
            text(key),
            text("-string"),
            text(version),
            Argument::Path(Place::StagedInfo),
        ],
    );
    assert(replace@ =~= version_call(key@, version@));
    replace
}

fn sign_command(identity: &Vec<u8>) -> (r: Command)
    ensures
        r@ == sign_call(identity@),
{
    let sign = command(
        Program::CodeSign,
        vec![
            text("--force"),
            text("--sign"),
            Argument::Bytes(identity.clone()),
            Argument::Path(Place::StagedApp),
        ],
    );
    assert(sign@ =~= sign_call(identity@));
    sign
}

fn verify_command() -> (r: Command)
    ensures
        r@ == verify_call(),
{
    let verify = command(
        Program::CodeSign,
        vec![text("--verify"), text("--strict"), Argument::Path(Place::StagedApp)],
    );
    assert(verify@ =~= verify_call());
    verify
}

impl BundleStep {
    /// The number of the step.
    pub open spec fn rank(self) -> int {
        match self {
            BundleStep::ReadMetadata => 0,
            BundleStep::Compile => 1,
            BundleStep::MakeDist => 2,
            BundleStep::Stage => 3,
            BundleStep::MakePrograms => 4,
            BundleStep::MakeResources => 5,
            BundleStep::CopyExecutable => 6,
            BundleStep::CopyIcon => 7,
            BundleStep::CopyAssets => 8,
            BundleStep::CopyInfo => 9,
            BundleStep::SetVersion => 10,
            BundleStep::SetShortVersion => 11,
            BundleStep::Sign => 12,
            BundleStep::VerifySignature => 13,
            BundleStep::RemoveOldBundle => 14,
            BundleStep::MoveBundle => 15,
            BundleStep::Announce => 16,
            BundleStep::RemoveStaging => 17,
        }
    }

    /// The steps in order.
    pub open spec fn order() -> Seq<BundleStep> {
        seq![
            BundleStep::ReadMetadata,
            BundleStep::Compile,
            BundleStep::MakeDist,
            BundleStep::Stage,
            BundleStep::MakePrograms,
            BundleStep::MakeResources,
            BundleStep::CopyExecutable,
            BundleStep::CopyIcon,
            BundleStep::CopyAssets,
            BundleStep::CopyInfo,
            BundleStep::SetVersion,
            BundleStep::SetShortVersion,
            BundleStep::Sign,
            BundleStep::VerifySignature,
            BundleStep::RemoveOldBundle,
            BundleStep::MoveBundle,
            BundleStep::Announce,
            BundleStep::RemoveStaging,
        ]
    }

    /// The staging directory stands while the step is performed.
    pub open spec fn staged(self) -> bool {
        self.rank() > BundleStep::Stage.rank()
    }
}

impl Steps for BundleStep {
    /// With the next step, unless this one failed. After a failure nothing is left
    /// to do but to remove the staging directory, if it stands; that this fails is
    /// ignored.
    open spec fn followed_by(self, reply: Reply) -> Progress<BundleStep> {
        if self == BundleStep::RemoveStaging {
            Progress::Finish
        } else if reply == Reply::Failed {
            if self.staged() {
                Progress::Retreat(BundleStep::RemoveStaging)
            } else {
                Progress::Abort
            }
        } else {
            Progress::Continue(BundleStep::order()[self.rank() + 1])
        }
    }

    fn next(self, reply: Reply) -> (r: Progress<BundleStep>) {
        if reply == Reply::Failed {
            return match self {
                BundleStep::ReadMetadata | BundleStep::Compile | BundleStep::MakeDist
                | BundleStep::Stage => Progress::Abort,
                BundleStep::RemoveStaging => Progress::Finish,
                _ => Progress::Retreat(BundleStep::RemoveStaging),
            };
        }
        match self {
            BundleStep::ReadMetadata => Progress::Continue(BundleStep::Compile),
            BundleStep::Compile => Progress::Continue(BundleStep::MakeDist),
            BundleStep::MakeDist => Progress::Continue(BundleStep::Stage),
            BundleStep::Stage => Progress::Continue(BundleStep::MakePrograms),
            BundleStep::MakePrograms => Progress::Continue(BundleStep::MakeResources),
            BundleStep::MakeResources => Progress::Continue(BundleStep::CopyExecutable),
            BundleStep::CopyExecutable => Progress::Continue(BundleStep::CopyIcon),
            BundleStep::CopyIcon => Progress::Continue(BundleStep::CopyAssets),
            BundleStep::CopyAssets => Progress::Continue(BundleStep::CopyInfo),
            BundleStep::CopyInfo => Progress::Continue(BundleStep::SetVersion),
            BundleStep::SetVersion => Progress::Continue(BundleStep::SetShortVersion),
            BundleStep::SetShortVersion => Progress::Continue(BundleStep::Sign),
            BundleStep::Sign => Progress::Continue(BundleStep::VerifySignature),
            BundleStep::VerifySignature => Progress::Continue(BundleStep::RemoveOldBundle),
            BundleStep::RemoveOldBundle => Progress::Continue(BundleStep::MoveBundle),
            BundleStep::MoveBundle => Progress::Continue(BundleStep::Announce),
            BundleStep::Announce => Progress::Continue(BundleStep::RemoveStaging),
            BundleStep::RemoveStaging => Progress::Finish,
        }
    }
}

/// A build in progress, and what its steps brought to light.
#[derive(Debug)]
pub struct Build {
    pub run: Run<BundleStep>,
    /// The name of the package.
    pub name: String,
    /// The identity to sign with.
    pub identity: Vec<u8>,
    /// The version of the package, once it was read.
    pub version: String,
    /// The ID of the package, once it was read.
    pub id: Json,
    /// The path of the executable, once it was built.
    pub executable: String,
}

/// The mathematical value of a build.
pub ghost struct BuildView {
    pub run: RunView<BundleStep>,
    pub name: Seq<char>,
    pub identity: Seq<u8>,
    pub version: Seq<char>,
    pub id: JsonView,
    pub executable: Seq<char>,
}

impl View for Build {
    type V = BuildView;

    open spec fn view(&self) -> BuildView {
        BuildView {
            run: self.run@,
            name: self.name@,
            identity: self.identity@,
            version: self.version@,
            id: self.id@,
            executable: self.executable@,
        }
    }
}

/// What a program printed, or why the step failed.
pub open spec fn printed_view(outcome: Result<String, String>) -> Result<Seq<char>, Seq<char>> {
    match outcome {
        Ok(printed) => Ok(printed@),
        Err(reason) => Err(reason@),
    }
}

impl BuildView {
    /// The start of a build of the package of that name, given the identity that
    /// the environment names.
    pub open spec fn starts(self, name: Seq<char>, named: Option<Seq<u8>>) -> bool {
        &&& self.run == (RunView { step: BundleStep::ReadMetadata, failure: None })
        &&& self.name == name
        &&& self.identity == chosen_identity(named)
    }

    /// What the pending step does.
    pub open spec fn does(self) -> OperationView {
        match self.run.step {
            BundleStep::ReadMetadata => OperationView::Read(metadata_call()),
            BundleStep::Compile => OperationView::Read(compile_call()),
            BundleStep::MakeDist => OperationView::CreateDirectory(Place::Dist),
            BundleStep::Stage => OperationView::Stage(Place::Dist),
            BundleStep::MakePrograms => OperationView::CreateDirectory(Place::StagedPrograms),
            BundleStep::MakeResources => OperationView::CreateDirectory(Place::StagedResources),
            BundleStep::CopyExecutable => OperationView::CopyBuilt(
                self.executable,
                Place::StagedExecutable,
            ),
            BundleStep::CopyIcon => OperationView::Copy(Place::Icon, Place::StagedIcon),
            BundleStep::CopyAssets => OperationView::Copy(Place::Assets, Place::StagedAssets),
            BundleStep::CopyInfo => OperationView::Copy(Place::Info, Place::StagedInfo),
            BundleStep::SetVersion => OperationView::Run(
                version_call("CFBundleVersion"@, self.version),
            ),
            BundleStep::SetShortVersion => OperationView::Run(
                version_call("CFBundleShortVersionString"@, self.version),
            ),
            BundleStep::Sign => OperationView::Run(sign_call(self.identity)),
            BundleStep::VerifySignature => OperationView::Run(verify_call()),
            BundleStep::RemoveOldBundle => OperationView::RemoveDirectory(Place::Bundle),
            BundleStep::MoveBundle => OperationView::Rename(Place::StagedApp, Place::Bundle),
            BundleStep::Announce => OperationView::Announce(
                if self.identity == ad_hoc() {
                    Notice::AdHocSigning
                } else {
                    Notice::Nothing
                },
            ),
            BundleStep::RemoveStaging => OperationView::RemoveStaging,
        }
    }

    /// What the pending step came to, given what its program printed: a
    /// description without the package fails, and so do messages without the
    /// executable.
    pub open spec fn verdict(self, outcome: Result<Seq<char>, Seq<char>>) -> Result<
        bool,
        Seq<char>,
    > {
        match outcome {
            Err(reason) => Err(reason),
            Ok(printed) => match self.run.step {
                BundleStep::ReadMetadata => match described_by(json_document(printed), self.name) {
                    Ok(_) => Ok(true),
                    Err(reason) => Err(reason),
                },
                BundleStep::Compile => match built(documents(lines_of(printed)), self.id) {
                    Ok(_) => Ok(true),
                    Err(reason) => Err(reason),
                },
                _ => Ok(true),
            },
        }
    }

    /// The build with what the pending step brought to light: the version and the
    /// ID of the package, or the path of the executable.
    pub open spec fn informed(self, outcome: Result<Seq<char>, Seq<char>>) -> BuildView {
        match (self.run.step, outcome) {
            (BundleStep::ReadMetadata, Ok(printed)) => match described_by(
                json_document(printed),
                self.name,
            ) {
                Ok((version, id)) => BuildView { version, id, ..self },
                Err(_) => self,
            },
            (BundleStep::Compile, Ok(printed)) => match built(
                documents(lines_of(printed)),
                self.id,
            ) {
                Ok(executable) => BuildView { executable, ..self },
                Err(_) => self,
            },
            _ => self,
        }
    }

    /// The build after the pending step had an outcome, and what there is to do
    /// then.
    pub open spec fn next(self, outcome: Result<Seq<char>, Seq<char>>) -> (BuildView, TurnView) {
        let (run, turn) = self.run.next(self.verdict(outcome));
        (BuildView { run, ..self.informed(outcome) }, turn)
    }
}

impl Build {
    /// Starts a build of the package of that name, given the identity that the
    /// environment names.
    pub fn new(name: &str, named: Option<Vec<u8>>) -> (r: Self)
        ensures
            r@.starts(name@, bytes(named)),
    {
        Build {
            run: Run::new(BundleStep::ReadMetadata),
            name: name.to_owned(),
            identity: signing_identity(named),
            version: String::new(),
            id: Json::Null,
            executable: String::new(),
        }
    }

    /// Tells what the pending step does.
    pub fn operation(&self) -> (r: Operation)
        ensures
            r@ == self@.does(),
    {
        match self.run.step {
            BundleStep::ReadMetadata => Operation::Read(metadata_command()),
            BundleStep::Compile => Operation::Read(compile_command()),
            BundleStep::MakeDist => Operation::CreateDirectory(Place::Dist),
            BundleStep::Stage => Operation::Stage(Place::Dist),
            BundleStep::MakePrograms => Operation::CreateDirectory(Place::StagedPrograms),
            BundleStep::MakeResources => Operation::CreateDirectory(Place::StagedResources),
            BundleStep::CopyExecutable => Operation::CopyBuilt(
                self.executable.clone(),
                Place::StagedExecutable,
            ),
            BundleStep::CopyIcon => Operation::Copy(Place::Icon, Place::StagedIcon),
            BundleStep::CopyAssets => Operation::Copy(Place::Assets, Place::StagedAssets),
            BundleStep::CopyInfo => Operation::Copy(Place::Info, Place::StagedInfo),
            BundleStep::SetVersion => Operation::Run(
                version_command("CFBundleVersion", self.version.as_str()),
            ),
            BundleStep::SetShortVersion => Operation::Run(
                version_command("CFBundleShortVersionString", self.version.as_str()),
            ),
            BundleStep::Sign => Operation::Run(sign_command(&self.identity)),
            BundleStep::VerifySignature => Operation::Run(verify_command()),
            BundleStep::RemoveOldBundle => Operation::RemoveDirectory(Place::Bundle),
            BundleStep::MoveBundle => Operation::Rename(Place::StagedApp, Place::Bundle),
            BundleStep::Announce => if is_ad_hoc(&self.identity) {
                Operation::Announce(Notice::AdHocSigning)
            } else {
                Operation::Announce(Notice::Nothing)
            },
            BundleStep::RemoveStaging => Operation::RemoveStaging,
        }
    }

    /// Takes note of what the program of the pending step printed, if it ran one,
    /// or why the step failed.
    pub fn advance(&mut self, outcome: Result<String, String>) -> (r: Turn)
        ensures
            (final(self)@, r@) == old(self)@.next(printed_view(outcome)),
    {
        let verdict = match outcome {
            Err(reason) => Err(reason),
            Ok(printed) => match self.run.step {
                BundleStep::ReadMetadata => match described_package(
                    printed.as_str(),
                    self.name.as_str(),
                ) {
                    Ok(package) => {
                        self.version = package.version;
                        self.id = package.id;
                        Ok(true)
                    },
                    Err(reason) => Err(reason),
                },
                BundleStep::Compile => match built_executable(printed.as_str(), &self.id) {
                    Ok(executable) => {
                        self.executable = executable;
                        Ok(true)
                    },
                    Err(reason) => Err(reason),
                },
                _ => Ok(true),
            },
        };
        self.run.advance(verdict)
    }
}

/// Where a build stands.
pub ghost enum BuildPhase {
    Running(BuildView),
    Ended(Result<(), Seq<char>>),
}

/// Where a build stands after its steps had these outcomes.
pub open spec fn build_phase(
    start: BuildView,
    outcomes: Seq<Result<Seq<char>, Seq<char>>>,
) -> BuildPhase
    decreases outcomes.len(),
{
    if outcomes.len() == 0 {
        BuildPhase::Running(start)
    } else {
        match build_phase(start, outcomes.drop_last()) {
            BuildPhase::Ended(result) => BuildPhase::Ended(result),
            BuildPhase::Running(build) => {
                let (next, turn) = build.next(outcomes.last());
                match turn {
                    TurnView::End(result) => BuildPhase::Ended(result),
                    _ => BuildPhase::Running(next),
                }
            },
        }
    }
}

/// What the steps of a build came to, given their outcomes.
pub open spec fn verdicts(
    start: BuildView,
    outcomes: Seq<Result<Seq<char>, Seq<char>>>,
) -> Seq<Result<bool, Seq<char>>>
    decreases outcomes.len(),
{
    if outcomes.len() == 0 {
        seq![]
    } else {
        let front = outcomes.drop_last();
        verdicts(start, front).push(
            match build_phase(start, front) {
                BuildPhase::Running(build) => build.verdict(outcomes.last()),
                BuildPhase::Ended(_) => Ok(true),
            },
        )
    }
}

/// Where a build stands after its steps came to this.
pub open spec fn building(verdicts: Seq<Result<bool, Seq<char>>>) -> Phase<BundleStep> {
    phase(BundleStep::ReadMetadata, verdicts)
}

/// The step of a build was performed, without a failure.
pub open spec fn built_by(verdicts: Seq<Result<bool, Seq<char>>>, step: BundleStep) -> bool {
    performed(BundleStep::ReadMetadata, verdicts, step)
}

/// A build goes on by what its steps come to.
pub proof fn law_a_build_goes_by_its_verdicts(
    start: BuildView,
    outcomes: Seq<Result<Seq<char>, Seq<char>>>,
    name: Seq<char>,
    named: Option<Seq<u8>>,
)
    requires
        start.starts(name, named),
    ensures
        verdicts(start, outcomes).len() == outcomes.len(),
        match (build_phase(start, outcomes), building(verdicts(start, outcomes))) {
            (BuildPhase::Running(build), Phase::Running(run)) => build.run == run,
            (BuildPhase::Ended(a), Phase::Ended(b)) => a == b,
            _ => false,
        },
    decreases outcomes.len(),
{
    if outcomes.len() > 0 {
        let front = outcomes.drop_last();
        law_a_build_goes_by_its_verdicts(start, front, name, named);
        assert(verdicts(start, outcomes).drop_last() =~= verdicts(start, front));
    }
}

/// The name and the identity of a build stay, and once they were read, so do the
/// version, the ID and the path of the executable.
pub proof fn law_what_a_build_knows(
    start: BuildView,
    outcomes: Seq<Result<Seq<char>, Seq<char>>>,
    name: Seq<char>,
    named: Option<Seq<u8>>,
)
    requires
        start.starts(name, named),
        build_phase(start, outcomes) is Running,
    ensures
        ({
            let build = build_phase(start, outcomes)->Running_0;
            &&& build.name == name
            &&& build.identity == chosen_identity(named)
            &&& build.run.step.rank() > BundleStep::ReadMetadata.rank() ==> outcomes.len() >= 1
                && outcomes[0] is Ok && described_by(json_document(outcomes[0]->Ok_0), name) == Ok::<
                (Seq<char>, JsonView),
                Seq<char>,
            >((build.version, build.id))
            &&& build.run.step.rank() > BundleStep::Compile.rank() ==> outcomes.len() >= 2
                && outcomes[1] is Ok && built(
                documents(lines_of(outcomes[1]->Ok_0)),
                build.id,
            ) == Ok::<Seq<char>, Seq<char>>(build.executable)
        }),
    decreases outcomes.len(),
{
    if outcomes.len() > 0 {
        let front = outcomes.drop_last();
        law_what_a_build_knows(start, front, name, named);
        law_a_build_goes_by_its_verdicts(start, front, name, named);
        law_steps_of_a_build(verdicts(start, front));
        lemma_failed(verdicts(start, front));
        lemma_order(build_phase(start, front)->Running_0.run.step);
    }
}

proof fn lemma_order(step: BundleStep)
    ensures
        0 <= step.rank() < BundleStep::order().len(),
        BundleStep::order()[step.rank()] == step,
{
}

/// A build that failed only cleans up.
proof fn lemma_failed(verdicts: Seq<Result<bool, Seq<char>>>)
    ensures
        building(verdicts) matches Phase::Running(run) ==> run.failure is Some ==> run.step
            == BundleStep::RemoveStaging,
    decreases verdicts.len(),
{
    if verdicts.len() > 0 {
        lemma_failed(verdicts.drop_last());
    }
}

/// A build that has come to a step without a failure performed each step before
/// it, in order. So an earlier bundle is removed only after the signature of the
/// new one was verified.
#[verifier::rlimit(60)]
#[verifier::spinoff_prover]
pub proof fn law_steps_of_a_build(verdicts: Seq<Result<bool, Seq<char>>>)
    ensures
        building(verdicts) matches Phase::Running(run) ==> run.failure is None ==> {
            &&& verdicts.len() == run.step.rank()
            &&& forall|k: int|
                0 <= k < verdicts.len() ==> #[trigger] verdicts[k] is Ok && comes_to(
                    BundleStep::ReadMetadata,
                    verdicts,
                    k,
                    BundleStep::order()[k],
                )
        },
    decreases verdicts.len(),
{
    let first = BundleStep::ReadMetadata;
    if verdicts.len() > 0 && building(verdicts) is Running && building(
        verdicts,
    )->Running_0.failure is None {
        let front = verdicts.drop_last();
        lemma_failed(front);
        lemma_order(building(front)->Running_0.step);
        lemma_ranks_differ(building(front)->Running_0.step.rank() + 1);
        law_steps_of_a_build(front);
        assert forall|k: int| 0 <= k < verdicts.len() implies #[trigger] verdicts[k] is Ok
            && comes_to(first, verdicts, k, BundleStep::order()[k]) by {
            if k < front.len() {
                assert(front[k] == verdicts[k]);
                assert(verdicts.take(k) =~= front.take(k));
            } else {
                assert(verdicts.take(k) =~= front);
            }
        }
    }
}

/// A build whose step fails ends with the reason of that failure, and does nothing
/// more but remove the staging directory, if it stands. So a failure up to the
/// verification of the signature leaves an earlier bundle as it is.
pub proof fn law_a_failure_ends_the_build(
    verdicts: Seq<Result<bool, Seq<char>>>,
    k: int,
    run: RunView<BundleStep>,
    reason: Seq<char>,
)
    requires
        0 <= k < verdicts.len(),
        building(verdicts.take(k)) == Phase::Running(run),
        run.step != BundleStep::RemoveStaging,
        verdicts[k] == Err::<bool, Seq<char>>(reason),
    ensures
        match building(verdicts) {
            Phase::Running(now) => run.step.staged() && now == (RunView {
                step: BundleStep::RemoveStaging,
                failure: Some(reason),
            }),
            Phase::Ended(result) => result == Err::<(), Seq<char>>(reason),
        },
    decreases verdicts.len(),
{
    let front = verdicts.drop_last();
    if k < front.len() {
        assert(front.take(k) =~= verdicts.take(k));
        law_a_failure_ends_the_build(front, k, run, reason);
    } else {
        assert(verdicts.take(k) =~= front);
        lemma_failed(front);
    }
}

/// Before and after a failure up to the verification of the signature, a build
/// comes to no step after that verification but the last.
proof fn lemma_failed_early(
    verdicts: Seq<Result<bool, Seq<char>>>,
    k: int,
    run: RunView<BundleStep>,
    j: int,
    step: BundleStep,
)
    requires
        0 <= k < verdicts.len(),
        building(verdicts.take(k)) == Phase::Running(run),
        run.step.rank() <= BundleStep::VerifySignature.rank(),
        verdicts[k] is Err,
        0 <= j < verdicts.len(),
        comes_to(BundleStep::ReadMetadata, verdicts, j, step),
    ensures
        step.rank() <= BundleStep::VerifySignature.rank() || step == BundleStep::RemoveStaging,
{
    let early = verdicts.take(k);
    if j < k {
        lemma_failed(early);
        law_steps_of_a_build(early);
        assert(early[j] is Ok);
        assert(early.take(j) =~= verdicts.take(j));
        assert(step == BundleStep::order()[j]);
        lemma_ranks_differ(j);
    } else if j > k {
        let late = verdicts.take(j);
        assert(late.take(k) =~= early);
        law_a_failure_ends_the_build(late, k, run, verdicts[k]->Err_0);
    }
}

proof fn lemma_ranks_differ(i: int)
    requires
        0 <= i < BundleStep::order().len(),
    ensures
        BundleStep::order()[i].rank() == i,
{
}

/// A build that failed up to the verification of the signature never comes to the
/// steps that remove or replace an earlier bundle.
pub proof fn law_a_failed_build_spares_the_earlier_bundle(
    verdicts: Seq<Result<bool, Seq<char>>>,
    k: int,
    run: RunView<BundleStep>,
)
    requires
        0 <= k < verdicts.len(),
        building(verdicts.take(k)) == Phase::Running(run),
        run.step.rank() <= BundleStep::VerifySignature.rank(),
        verdicts[k] is Err,
    ensures
        !attempted(BundleStep::ReadMetadata, verdicts, BundleStep::RemoveOldBundle),
        !attempted(BundleStep::ReadMetadata, verdicts, BundleStep::MoveBundle),
{
    let first = BundleStep::ReadMetadata;
    if attempted(first, verdicts, BundleStep::RemoveOldBundle) {
        let j = choose|j: int|
            0 <= j < verdicts.len() && #[trigger] comes_to(
                first,
                verdicts,
                j,
                BundleStep::RemoveOldBundle,
            );
        lemma_failed_early(verdicts, k, run, j, BundleStep::RemoveOldBundle);
    }
    if attempted(first, verdicts, BundleStep::MoveBundle) {
        let j = choose|j: int|
            0 <= j < verdicts.len() && #[trigger] comes_to(
                first,
                verdicts,
                j,
                BundleStep::MoveBundle,
            );
        lemma_failed_early(verdicts, k, run, j, BundleStep::MoveBundle);
    }
}

/// A build without a failure, but for one in removing the staging directory,
/// succeeds.
pub proof fn law_a_build_without_a_failure_succeeds(verdicts: Seq<Result<bool, Seq<char>>>)
    requires
        forall|k: int|
            0 <= k < verdicts.len() && verdicts[k] is Err ==> #[trigger] comes_to(
                BundleStep::ReadMetadata,
                verdicts,
                k,
                BundleStep::RemoveStaging,
            ),
    ensures
        match building(verdicts) {
            Phase::Running(run) => run.failure is None,
            Phase::Ended(result) => result is Ok,
        },
    decreases verdicts.len(),
{
    let first = BundleStep::ReadMetadata;
    if verdicts.len() > 0 {
        let front = verdicts.drop_last();
        let last = verdicts.len() - 1;
        assert forall|k: int| 0 <= k < front.len() && front[k] is Err implies #[trigger] comes_to(
            first,
            front,
            k,
            BundleStep::RemoveStaging,
        ) by {
            assert(comes_to(first, verdicts, k, BundleStep::RemoveStaging));
            assert(verdicts.take(k) =~= front.take(k));
        }
        law_a_build_without_a_failure_succeeds(front);
        assert(verdicts.take(last) =~= front);
        if verdicts[last] is Err {
            assert(comes_to(first, verdicts, last, BundleStep::RemoveStaging));
        }
    }
}

/// Once the staging directory was made, it stands until it is removed.
proof fn lemma_staged(verdicts: Seq<Result<bool, Seq<char>>>)
    requires
        built_by(verdicts, BundleStep::Stage),
    ensures
        match building(verdicts) {
            Phase::Running(run) => run.step.staged(),
            Phase::Ended(_) => attempted(
                BundleStep::ReadMetadata,
                verdicts,
                BundleStep::RemoveStaging,
            ),
        },
    decreases verdicts.len(),
{
    let first = BundleStep::ReadMetadata;
    let front = verdicts.drop_last();
    let k = choose|k: int|
        0 <= k < verdicts.len() && #[trigger] comes_to(first, verdicts, k, BundleStep::Stage)
            && verdicts[k] is Ok;
    if k < front.len() {
        assert(front.take(k) =~= verdicts.take(k));
        assert(comes_to(first, front, k, BundleStep::Stage));
        lemma_staged(front);
        lemma_performed(first, verdicts, BundleStep::RemoveStaging);
        if building(front) is Running {
            let step = building(front)->Running_0.step;
            lemma_order(step);
            lemma_performed_last(first, verdicts, step);
        }
    } else {
        assert(verdicts.take(k) =~= front);
    }
}

/// However a build ends, its staging directory is removed, if it was made.
pub proof fn law_a_build_leaves_no_staging_directory(verdicts: Seq<Result<bool, Seq<char>>>)
    requires
        building(verdicts) is Ended,
        built_by(verdicts, BundleStep::Stage),
    ensures
        attempted(BundleStep::ReadMetadata, verdicts, BundleStep::RemoveStaging),
{
    lemma_staged(verdicts);
}

/// A build has an end.
pub proof fn law_builds_end(verdicts: Seq<Result<bool, Seq<char>>>)
    ensures
        building(verdicts) matches Phase::Running(run) ==> verdicts.len() <= run.step.rank(),
        verdicts.len() >= BundleStep::order().len() ==> building(verdicts) is Ended,
    decreases verdicts.len(),
{
    if verdicts.len() > 0 {
        law_builds_end(verdicts.drop_last());
        if building(verdicts.drop_last()) is Running {
            lemma_order(building(verdicts.drop_last())->Running_0.step);
        }
    }
    if building(verdicts) is Running {
        lemma_order(building(verdicts)->Running_0.step);
    }
}

/// The order of a build.
pub proof fn law_order_of_a_build()
    ensures
        BundleStep::ReadMetadata.rank() < BundleStep::Compile.rank() < BundleStep::MakeDist.rank()
            < BundleStep::Stage.rank() < BundleStep::MakePrograms.rank()
            < BundleStep::MakeResources.rank() < BundleStep::CopyExecutable.rank()
            < BundleStep::CopyIcon.rank() < BundleStep::CopyAssets.rank()
            < BundleStep::CopyInfo.rank() < BundleStep::SetVersion.rank()
            < BundleStep::SetShortVersion.rank() < BundleStep::Sign.rank()
            < BundleStep::VerifySignature.rank() < BundleStep::RemoveOldBundle.rank()
            < BundleStep::MoveBundle.rank() < BundleStep::Announce.rank()
            < BundleStep::RemoveStaging.rank(),
{
}

/// A build that succeeded performed all its steps.
pub proof fn law_a_successful_build_is_complete(
    verdicts: Seq<Result<bool, Seq<char>>>,
    step: BundleStep,
)
    requires
        building(verdicts) == Phase::<BundleStep>::Ended(Ok(())),
        step != BundleStep::RemoveStaging,
    ensures
        built_by(verdicts, step),
    decreases verdicts.len(),
{
    let first = BundleStep::ReadMetadata;
    let front = verdicts.drop_last();
    if building(front) is Ended {
        law_a_successful_build_is_complete(front, step);
    } else {
        law_order_of_a_build();
        lemma_order(step);
        law_steps_of_a_build(front);
        let k = step.rank();
        assert(front[k] is Ok);
        assert(comes_to(first, front, k, step));
    }
    lemma_performed(first, verdicts, step);
}

/// The program is what Cargo built, and stands in the bundle with the assets of the
/// project, wherever Cargo put it.
pub proof fn law_what_is_bundled(build: BuildView)
    ensures
        build.run.step == BundleStep::MakeDist ==> build.does() == OperationView::CreateDirectory(
            Place::Dist,
        ),
        build.run.step == BundleStep::Stage ==> build.does() == OperationView::Stage(Place::Dist),
        build.run.step == BundleStep::MakePrograms ==> build.does()
            == OperationView::CreateDirectory(Place::StagedPrograms),
        build.run.step == BundleStep::MakeResources ==> build.does()
            == OperationView::CreateDirectory(Place::StagedResources),
        build.run.step == BundleStep::CopyExecutable ==> build.does() == OperationView::CopyBuilt(
            build.executable,
            Place::StagedExecutable,
        ),
        build.run.step == BundleStep::CopyIcon ==> build.does() == OperationView::Copy(
            Place::Icon,
            Place::StagedIcon,
        ),
        build.run.step == BundleStep::CopyAssets ==> build.does() == OperationView::Copy(
            Place::Assets,
            Place::StagedAssets,
        ),
        build.run.step == BundleStep::CopyInfo ==> build.does() == OperationView::Copy(
            Place::Info,
            Place::StagedInfo,
        ),
        build.run.step == BundleStep::RemoveOldBundle ==> build.does()
            == OperationView::RemoveDirectory(Place::Bundle),
        build.run.step == BundleStep::MoveBundle ==> build.does() == OperationView::Rename(
            Place::StagedApp,
            Place::Bundle,
        ),
        build.run.step == BundleStep::RemoveStaging ==> build.does()
            == OperationView::RemoveStaging,
{
}

/// Cargo is asked for the description of the project, and then to build the program.
/// The version of the package is written into the bundle in both its places, whatever
/// it is, and the bundle is signed with the identity, whatever that is, and verified.
pub proof fn law_calls_of_a_build(build: BuildView)
    ensures
        build.run.step == BundleStep::ReadMetadata ==> build.does() == OperationView::Read(
            CommandView {
                program: Program::Cargo,
                arguments: seq![
                    ArgumentView::Text("metadata"@),
                    ArgumentView::Text("--no-deps"@),
                    ArgumentView::Text("--format-version=1"@),
                    ArgumentView::Text("--locked"@),
                ],
            },
        ),
        build.run.step == BundleStep::Compile ==> build.does() == OperationView::Read(
            CommandView {
                program: Program::Cargo,
                arguments: seq![
                    ArgumentView::Text("build"@),
                    ArgumentView::Text("--release"@),
                    ArgumentView::Text("--locked"@),
                    ArgumentView::Text("--bin"@),
                    ArgumentView::Text("MacWindowResizer"@),
                    ArgumentView::Text("--message-format=json-render-diagnostics"@),
                ],
            },
        ),
        build.run.step == BundleStep::SetVersion ==> build.does() == OperationView::Run(
            CommandView {
                program: Program::Plutil,
                arguments: seq![
                    ArgumentView::Text("-replace"@),
                    ArgumentView::Text("CFBundleVersion"@),
                    ArgumentView::Text("-string"@),
                    ArgumentView::Text(build.version),
                    ArgumentView::Path(Place::StagedInfo),
                ],
            },
        ),
        build.run.step == BundleStep::SetShortVersion ==> build.does() == OperationView::Run(
            CommandView {
                program: Program::Plutil,
                arguments: seq![
                    ArgumentView::Text("-replace"@),
                    ArgumentView::Text("CFBundleShortVersionString"@),
                    ArgumentView::Text("-string"@),
                    ArgumentView::Text(build.version),
                    ArgumentView::Path(Place::StagedInfo),
                ],
            },
        ),
        build.run.step == BundleStep::Sign ==> build.does() == OperationView::Run(
            CommandView {
                program: Program::CodeSign,
                arguments: seq![
                    ArgumentView::Text("--force"@),
                    ArgumentView::Text("--sign"@),
                    ArgumentView::Bytes(build.identity),
                    ArgumentView::Path(Place::StagedApp),
                ],
            },
        ),
        build.run.step == BundleStep::VerifySignature ==> build.does() == OperationView::Run(
            CommandView {
                program: Program::CodeSign,
                arguments: seq![
                    ArgumentView::Text("--verify"@),
                    ArgumentView::Text("--strict"@),
                    ArgumentView::Path(Place::StagedApp),
                ],
            },
        ),
{
}

/// The user is told of a signature without an identity, and of no other.
pub proof fn law_the_user_is_told_of_ad_hoc_signing(build: BuildView)
    requires
        build.run.step == BundleStep::Announce,
    ensures
        build.identity == seq![45u8] ==> build.does() == OperationView::Announce(
            Notice::AdHocSigning,
        ),
        build.identity != seq![45u8] ==> build.does() == OperationView::Announce(Notice::Nothing),
{
}

/// A step that only does something succeeds if it is done. One that reads what Cargo
/// prints also fails for what it does not find there.
pub proof fn law_verdicts(build: BuildView, printed: Seq<char>, reason: Seq<char>)
    ensures
        build.verdict(Err(reason)) == Err::<bool, Seq<char>>(reason),
        build.run.step != BundleStep::ReadMetadata && build.run.step != BundleStep::Compile
            ==> build.verdict(Ok(printed)) == Ok::<bool, Seq<char>>(true),
        build.run.step == BundleStep::ReadMetadata ==> {
            &&& described_by(json_document(printed), build.name) is Ok ==> build.verdict(
                Ok(printed),
            ) == Ok::<bool, Seq<char>>(true)
            &&& described_by(json_document(printed), build.name) matches Err(why)
                ==> build.verdict(Ok(printed)) == Err::<bool, Seq<char>>(why)
        },
        build.run.step == BundleStep::Compile ==> {
            &&& built(documents(lines_of(printed)), build.id) is Ok ==> build.verdict(Ok(printed))
                == Ok::<bool, Seq<char>>(true)
            &&& built(documents(lines_of(printed)), build.id) matches Err(why) ==> build.verdict(
                Ok(printed),
            ) == Err::<bool, Seq<char>>(why)
        },
{
}

/// A build and an outcome of its steps are worth what they hold.
pub proof fn law_values_of_builds(build: Build, outcome: Result<String, String>)
    ensures
        build@.run == build.run@,
        build@.name == build.name@,
        build@.identity == build.identity@,
        build@.version == build.version@,
        build@.id == build.id@,
        build@.executable == build.executable@,
        outcome matches Ok(printed) ==> printed_view(outcome) == Ok::<Seq<char>, Seq<char>>(
            printed@,
        ),
        outcome matches Err(reason) ==> printed_view(outcome) == Err::<Seq<char>, Seq<char>>(
            reason@,
        ),
{
}

/// A build starts, does and goes on as the laws say.
pub proof fn law_functions_on_builds(
    name: &str,
    named: Option<Vec<u8>>,
    start: Build,
    build: &mut Build,
    operation: Operation,
    outcome: Result<String, String>,
    turn: Turn,
)
    requires
        call_ensures(Build::new, (name, named), start),
        call_ensures(Build::operation, (&*old(build),), operation),
        call_ensures(Build::advance, (build, outcome), turn),
    ensures
        start.run.step == BundleStep::ReadMetadata,
        start.run.failure is None,
        start.name@ == name@,
        named matches Some(given) ==> (given@.len() > 0 ==> start.identity@ == given@),
        named is None || named->Some_0@.len() == 0 ==> start.identity@ == seq![45u8],
        operation@ == old(build)@.does(),
        (final(build)@, turn@) == old(build)@.next(printed_view(outcome)),
{
}

} // verus!
