//! The operations that a task is made of.
//!
//! Operations name files and directories by the part they play. Where these
//! are is told relative to a few directories.
use vstd::prelude::*;

use crate::task::paths::LABEL;

verus! {

/// A directory that is known only where the task runs.
#[derive(Clone, Copy, Debug, PartialEq, Eq, Structural)]
pub enum Base {
    /// The user's home directory.
    Home,
    /// The directory of the project.
    Project,
    /// The staging directory of the task.
    Staging,
}

/// A file or directory that a task works on.
#[derive(Clone, Copy, Debug, PartialEq, Eq, Structural)]
pub enum Place {
    App,
    AppInfo,
    AppExecutable,
    Applications,
    Agent,
    LaunchAgents,
    Logs,
    LogFile,
    Project,
    AgentTemplate,
    Icon,
    Assets,
    Info,
    Dist,
    Bundle,
    StagedApp,
    StagedAgent,
    StagedPrograms,
    StagedExecutable,
    StagedResources,
    StagedIcon,
    StagedAssets,
    StagedInfo,
}

impl Place {
    /// The directory that the place is told by.
    pub open spec fn origin(self) -> Base {
        match self {
            Place::App | Place::AppInfo | Place::AppExecutable | Place::Applications | Place::Agent
            | Place::LaunchAgents | Place::Logs | Place::LogFile => Base::Home,
            Place::Project | Place::AgentTemplate | Place::Icon | Place::Assets | Place::Info
            | Place::Dist | Place::Bundle => Base::Project,
            Place::StagedApp | Place::StagedAgent | Place::StagedPrograms | Place::StagedExecutable
            | Place::StagedResources | Place::StagedIcon | Place::StagedAssets
            | Place::StagedInfo => Base::Staging,
        }
    }

    /// The way from there to the place, if it is another.
    pub open spec fn way(self) -> Option<Seq<char>> {
        match self {
            Place::App => Some("Applications/MacWindowResizer.app"@),
            Place::AppInfo => Some("Applications/MacWindowResizer.app/Contents/Info.plist"@),
            Place::AppExecutable => Some(
                "Applications/MacWindowResizer.app/Contents/MacOS/MacWindowResizer"@,
            ),
            Place::Applications => Some("Applications"@),
            Place::Agent => Some("Library/LaunchAgents/com.marcell.MacWindowResizer.plist"@),
            Place::LaunchAgents => Some("Library/LaunchAgents"@),
            Place::Logs => Some("Library/Logs/MacWindowResizer"@),
            Place::LogFile => Some("Library/Logs/MacWindowResizer/service.log"@),
            Place::Project => None,
            Place::AgentTemplate => Some("assets/LaunchAgent.plist"@),
            Place::Icon => Some("assets/AppIcon.icns"@),
            Place::Assets => Some("assets/Assets.car"@),
            Place::Info => Some("assets/Info.plist"@),
            Place::Dist => Some("dist"@),
            Place::Bundle => Some("dist/MacWindowResizer.app"@),
            Place::StagedApp => Some("MacWindowResizer.app"@),
            Place::StagedAgent => Some("agent.plist"@),
            Place::StagedPrograms => Some("MacWindowResizer.app/Contents/MacOS"@),
            Place::StagedExecutable => Some(
                "MacWindowResizer.app/Contents/MacOS/MacWindowResizer"@,
            ),
            Place::StagedResources => Some("MacWindowResizer.app/Contents/Resources"@),
            Place::StagedIcon => Some("MacWindowResizer.app/Contents/Resources/AppIcon.icns"@),
            Place::StagedAssets => Some("MacWindowResizer.app/Contents/Resources/Assets.car"@),
            Place::StagedInfo => Some("MacWindowResizer.app/Contents/Info.plist"@),
        }
    }

    /// The directory that the place is told by.
    pub fn base(self) -> (r: Base)
        ensures
            r == self.origin(),
    {
        match self {
            Place::App | Place::AppInfo | Place::AppExecutable | Place::Applications | Place::Agent
            | Place::LaunchAgents | Place::Logs | Place::LogFile => Base::Home,
            Place::Project | Place::AgentTemplate | Place::Icon | Place::Assets | Place::Info
            | Place::Dist | Place::Bundle => Base::Project,
            _ => Base::Staging,
        }
    }

    /// The way from there to the place, if it is another.
    pub fn relative(self) -> (r: Option<&'static str>)
        ensures
            match r {
                Some(way) => self.way() == Some(way@),
                None => self.way() is None,
            },
    {
        match self {
            Place::App => Some("Applications/MacWindowResizer.app"),
            Place::AppInfo => Some("Applications/MacWindowResizer.app/Contents/Info.plist"),
            Place::AppExecutable => Some(
                "Applications/MacWindowResizer.app/Contents/MacOS/MacWindowResizer",
            ),
            Place::Applications => Some("Applications"),
            Place::Agent => Some("Library/LaunchAgents/com.marcell.MacWindowResizer.plist"),
            Place::LaunchAgents => Some("Library/LaunchAgents"),
            Place::Logs => Some("Library/Logs/MacWindowResizer"),
            Place::LogFile => Some("Library/Logs/MacWindowResizer/service.log"),
            Place::Project => None,
            Place::AgentTemplate => Some("assets/LaunchAgent.plist"),
            Place::Icon => Some("assets/AppIcon.icns"),
            Place::Assets => Some("assets/Assets.car"),
            Place::Info => Some("assets/Info.plist"),
            Place::Dist => Some("dist"),
            Place::Bundle => Some("dist/MacWindowResizer.app"),
            Place::StagedApp => Some("MacWindowResizer.app"),
            Place::StagedAgent => Some("agent.plist"),
            Place::StagedPrograms => Some("MacWindowResizer.app/Contents/MacOS"),
            Place::StagedExecutable => Some("MacWindowResizer.app/Contents/MacOS/MacWindowResizer"),
            Place::StagedResources => Some("MacWindowResizer.app/Contents/Resources"),
            Place::StagedIcon => Some("MacWindowResizer.app/Contents/Resources/AppIcon.icns"),
            Place::StagedAssets => Some("MacWindowResizer.app/Contents/Resources/Assets.car"),
            Place::StagedInfo => Some("MacWindowResizer.app/Contents/Info.plist"),
        }
    }
}

/// A program that a task runs.
#[derive(Clone, Copy, Debug, PartialEq, Eq, Structural)]
pub enum Program {
    Cargo,
    CodeSign,
    Ditto,
    Launchctl,
    LsRegister,
    Plutil,
    Tccutil,
}

impl Program {
    /// The name or path by which the program is called.
    pub open spec fn file(self) -> Seq<char> {
        match self {
            Program::Cargo => "cargo"@,
            Program::CodeSign => "codesign"@,
            Program::Ditto => "/usr/bin/ditto"@,
            Program::Launchctl => "launchctl"@,
            Program::LsRegister => "/System/Library/Frameworks/CoreServices.framework/Frameworks/LaunchServices.framework/Support/lsregister"@,
            Program::Plutil => "plutil"@,
            Program::Tccutil => "tccutil"@,
        }
    }

    /// The name or path by which the program is called. Cargo may be told to be
    /// another program by the environment.
    pub fn path(self) -> (r: &'static str)
        ensures
            r@ == self.file(),
    {
        match self {
            Program::Cargo => "cargo",
            Program::CodeSign => "codesign",
            Program::Ditto => "/usr/bin/ditto",
            Program::Launchctl => "launchctl",
            Program::LsRegister => "/System/Library/Frameworks/CoreServices.framework/Frameworks/LaunchServices.framework/Support/lsregister",
            Program::Plutil => "plutil",
            Program::Tccutil => "tccutil",
        }
    }
}

/// An argument of a program.
#[derive(Debug)]
pub enum Argument {
    Text(String),
    Path(Place),
    /// Bytes that need not be text.
    Bytes(Vec<u8>),
}

/// The mathematical value of an argument.
pub ghost enum ArgumentView {
    Text(Seq<char>),
    Path(Place),
    Bytes(Seq<u8>),
}

impl View for Argument {
    type V = ArgumentView;

    open spec fn view(&self) -> ArgumentView {
        match *self {
            Argument::Text(text) => ArgumentView::Text(text@),
            Argument::Path(place) => ArgumentView::Path(place),
            Argument::Bytes(bytes) => ArgumentView::Bytes(bytes@),
        }
    }
}

/// A call of a program.
#[derive(Debug)]
pub struct Command {
    pub program: Program,
    pub arguments: Vec<Argument>,
}

/// The mathematical value of a call.
#[verifier::ext_equal]
pub ghost struct CommandView {
    pub program: Program,
    pub arguments: Seq<ArgumentView>,
}

impl View for Command {
    type V = CommandView;

    open spec fn view(&self) -> CommandView {
        CommandView {
            program: self.program,
            arguments: Seq::new(self.arguments@.len(), |i: int| self.arguments@[i]@),
        }
    }
}

/// A call of a program with these arguments.
pub open spec fn call(program: Program, arguments: Seq<ArgumentView>) -> CommandView {
    CommandView { program, arguments }
}

/// A text as an argument.
pub fn text(value: &str) -> (r: Argument)
    ensures
        r@ == ArgumentView::Text(value@),
{
    Argument::Text(value.to_owned())
}

/// A call of a program.
pub fn command(program: Program, arguments: Vec<Argument>) -> (r: Command)
    ensures
        r@ == call(program, Seq::new(arguments@.len(), |i: int| arguments@[i]@)),
{
    let command = Command { program, arguments };
    assert(command@ =~= call(program, Seq::new(arguments@.len(), |i: int| arguments@[i]@)));
    command
}

/// What a task tells the user.
#[derive(Clone, Copy, Debug, PartialEq, Eq, Structural)]
pub enum Notice {
    Nothing,
    /// The app was installed and started.
    Installed,
    /// The app was removed.
    Removed,
    /// The bundle was signed without an identity.
    AdHocSigning,
}

impl Notice {
    /// The words of the notice, given the path of the app as it is shown.
    pub open spec fn words(self, app: Seq<char>) -> Option<Seq<char>> {
        match self {
            Notice::Nothing => None,
            Notice::Installed => Some("Installed and started "@ + app),
            Notice::Removed => Some(
                "MacWindowResizer uninstalled. App, login service, and logs were removed."@,
            ),
            Notice::AdHocSigning => Some(
                "Ad-hoc signing: rebuilding may require granting Accessibility again."@,
            ),
        }
    }

    /// Puts the notice into words, given the path of the app as it is shown.
    pub fn told(self, app: &str) -> (r: Option<String>)
        ensures
            match r {
                Some(told) => self.words(app@) == Some(told@),
                None => self.words(app@) is None,
            },
    {
        match self {
            Notice::Nothing => None,
            Notice::Installed => {
                let mut told = "Installed and started ".to_owned();
                told.append(app);
                Some(told)
            },
            Notice::Removed => Some(
                "MacWindowResizer uninstalled. App, login service, and logs were removed."
                    .to_owned(),
            ),
            Notice::AdHocSigning => Some(
                "Ad-hoc signing: rebuilding may require granting Accessibility again.".to_owned(),
            ),
        }
    }
}

/// One operation of a task.
#[derive(Debug)]
pub enum Operation {
    /// Make sure that an app in the place of this one is this one.
    CheckApp(Command),
    /// Build the app bundle, as a `Build` tells.
    BuildBundle,
    /// Create a directory and those above it.
    CreateDirectory(Place),
    /// Create a staging directory below this one.
    Stage(Place),
    /// Copy a file.
    Copy(Place, Place),
    /// Copy the file at the path that Cargo told.
    CopyBuilt(String, Place),
    /// Write the property list of the login service, as `agent_list` makes it of
    /// the template in the first place, for the executable in the second and the
    /// log file in the third, to the fourth.
    WriteAgent(Place, Place, Place, Place),
    /// Move a file or directory.
    Rename(Place, Place),
    /// Remove a directory with all it holds, if it is there.
    RemoveDirectory(Place),
    /// Remove a file, if it is there.
    RemoveFile(Place),
    /// See whether a file or directory is there.
    Find(Place),
    /// Run a program.
    Run(Command),
    /// Run a program, silently, only to see whether it succeeds.
    Probe(Command),
    /// Run a program in the directory of the project, and read what it prints.
    Read(Command),
    /// Remove the staging directory of the task with all it holds, if it can be.
    RemoveStaging,
    /// Tell the user something.
    Announce(Notice),
}

/// The mathematical value of an operation.
pub ghost enum OperationView {
    CheckApp(CommandView),
    BuildBundle,
    CreateDirectory(Place),
    Stage(Place),
    Copy(Place, Place),
    CopyBuilt(Seq<char>, Place),
    WriteAgent(Place, Place, Place, Place),
    Rename(Place, Place),
    RemoveDirectory(Place),
    RemoveFile(Place),
    Find(Place),
    Run(CommandView),
    Probe(CommandView),
    Read(CommandView),
    RemoveStaging,
    Announce(Notice),
}

impl View for Operation {
    type V = OperationView;

    open spec fn view(&self) -> OperationView {
        match *self {
            Operation::CheckApp(command) => OperationView::CheckApp(command@),
            Operation::BuildBundle => OperationView::BuildBundle,
            Operation::CreateDirectory(place) => OperationView::CreateDirectory(place),
            Operation::Stage(place) => OperationView::Stage(place),
            Operation::Copy(from, to) => OperationView::Copy(from, to),
            Operation::CopyBuilt(path, to) => OperationView::CopyBuilt(path@, to),
            Operation::WriteAgent(template, executable, log, to) => OperationView::WriteAgent(
                template,
                executable,
                log,
                to,
            ),
            Operation::Rename(from, to) => OperationView::Rename(from, to),
            Operation::RemoveDirectory(place) => OperationView::RemoveDirectory(place),
            Operation::RemoveFile(place) => OperationView::RemoveFile(place),
            Operation::Find(place) => OperationView::Find(place),
            Operation::Run(command) => OperationView::Run(command@),
            Operation::Probe(command) => OperationView::Probe(command@),
            Operation::Read(command) => OperationView::Read(command@),
            Operation::RemoveStaging => OperationView::RemoveStaging,
            Operation::Announce(notice) => OperationView::Announce(notice),
        }
    }
}

/// The call that reads the identifier of the installed app.
pub open spec fn identifier_call() -> CommandView {
    call(
        Program::Plutil,
        seq![
            ArgumentView::Text("-extract"@),
            ArgumentView::Text("CFBundleIdentifier"@),
            ArgumentView::Text("raw"@),
            ArgumentView::Path(Place::AppInfo),
        ],
    )
}

/// The call that asks for, or changes, the state of the service.
pub open spec fn service_call(verb: Seq<char>, service: Seq<char>) -> CommandView {
    call(Program::Launchctl, seq![ArgumentView::Text(verb), ArgumentView::Text(service)])
}

/// The operation that checks the installed app.
pub fn check_app() -> (r: Operation)
    ensures
        r@ == OperationView::CheckApp(identifier_call()),
{
    let command = command(
        Program::Plutil,
        vec![
            text("-extract"),
            text("CFBundleIdentifier"),
            text("raw"),
            Argument::Path(Place::AppInfo),
        ],
    );
    assert(command@ =~= identifier_call());
    Operation::CheckApp(command)
}

/// The call that asks for, or changes, the state of the service.
pub fn service_command(verb: &str, service: &str) -> (r: Command)
    ensures
        r@ == service_call(verb@, service@),
{
    let command = command(Program::Launchctl, vec![text(verb), text(service)]);
    assert(command@ =~= service_call(verb@, service@));
    command
}

/// The place lies below another, this way.
pub open spec fn lies_below(place: Place, outer: Place, way: Seq<char>) -> bool {
    &&& place.origin() == outer.origin()
    &&& outer.way() is Some
    &&& place.way() == Some(outer.way()->Some_0 + seq!['/'] + way)
}

/// The place stands in a directory, this way.
pub open spec fn stands_in(place: Place, base: Base, way: Seq<char>) -> bool {
    place.origin() == base && place.way() == Some(way)
}

/// The installed app stands in the user's directory for applications, and its parts
/// below it, where a bundle has them.
pub proof fn law_places_of_the_app()
    ensures
        stands_in(Place::Applications, Base::Home, "Applications"@),
        lies_below(Place::App, Place::Applications, "MacWindowResizer.app"@),
        lies_below(Place::AppInfo, Place::App, "Contents/Info.plist"@),
        lies_below(Place::AppExecutable, Place::App, "Contents/MacOS/MacWindowResizer"@),
{
    reveal_strlit("Applications");
    reveal_strlit("MacWindowResizer.app");
    reveal_strlit("Applications/MacWindowResizer.app");
    reveal_strlit("Contents/Info.plist");
    reveal_strlit("Applications/MacWindowResizer.app/Contents/Info.plist");
    reveal_strlit("Contents/MacOS/MacWindowResizer");
    reveal_strlit("Applications/MacWindowResizer.app/Contents/MacOS/MacWindowResizer");
    assert("Applications/MacWindowResizer.app"@ =~= "Applications"@ + seq!['/']
        + "MacWindowResizer.app"@);
    assert("Applications/MacWindowResizer.app/Contents/Info.plist"@
        =~= "Applications/MacWindowResizer.app"@ + seq!['/'] + "Contents/Info.plist"@);
    assert("Applications/MacWindowResizer.app/Contents/MacOS/MacWindowResizer"@
        =~= "Applications/MacWindowResizer.app"@ + seq!['/'] + "Contents/MacOS/MacWindowResizer"@);
}

/// The login service has its property list, named after the label of the program, in
/// the user's directory for such lists. The program's logs have a directory of their
/// own below the one for logs.
pub proof fn law_places_of_the_service()
    ensures
        stands_in(Place::LaunchAgents, Base::Home, "Library/LaunchAgents"@),
        lies_below(Place::Agent, Place::LaunchAgents, LABEL@ + ".plist"@),
        stands_in(Place::Logs, Base::Home, "Library/Logs"@ + seq!['/'] + "MacWindowResizer"@),
        lies_below(Place::LogFile, Place::Logs, "service.log"@),
{
    reveal_strlit("Library/LaunchAgents");
    reveal_strlit("com.marcell.MacWindowResizer");
    reveal_strlit(".plist");
    reveal_strlit("Library/LaunchAgents/com.marcell.MacWindowResizer.plist");
    reveal_strlit("Library/Logs");
    reveal_strlit("MacWindowResizer");
    reveal_strlit("Library/Logs/MacWindowResizer");
    reveal_strlit("service.log");
    reveal_strlit("Library/Logs/MacWindowResizer/service.log");
    assert("Library/LaunchAgents/com.marcell.MacWindowResizer.plist"@ =~= "Library/LaunchAgents"@
        + seq!['/'] + (LABEL@ + ".plist"@));
    assert("Library/Logs/MacWindowResizer"@ =~= "Library/Logs"@ + seq!['/'] + "MacWindowResizer"@);
    assert("Library/Logs/MacWindowResizer/service.log"@ =~= "Library/Logs/MacWindowResizer"@
        + seq!['/'] + "service.log"@);
}

/// The bundle is built below the project, of what its directory of assets holds.
pub proof fn law_places_of_the_project()
    ensures
        Place::Project.origin() == Base::Project,
        Place::Project.way() is None,
        stands_in(Place::Dist, Base::Project, "dist"@),
        lies_below(Place::Bundle, Place::Dist, "MacWindowResizer.app"@),
        stands_in(
            Place::AgentTemplate,
            Base::Project,
            "assets"@ + seq!['/'] + "LaunchAgent.plist"@,
        ),
        stands_in(Place::Icon, Base::Project, "assets"@ + seq!['/'] + "AppIcon.icns"@),
        stands_in(Place::Assets, Base::Project, "assets"@ + seq!['/'] + "Assets.car"@),
        stands_in(Place::Info, Base::Project, "assets"@ + seq!['/'] + "Info.plist"@),
{
    reveal_strlit("dist");
    reveal_strlit("MacWindowResizer.app");
    reveal_strlit("dist/MacWindowResizer.app");
    reveal_strlit("assets");
    reveal_strlit("LaunchAgent.plist");
    reveal_strlit("AppIcon.icns");
    reveal_strlit("Assets.car");
    reveal_strlit("Info.plist");
    reveal_strlit("assets/LaunchAgent.plist");
    reveal_strlit("assets/AppIcon.icns");
    reveal_strlit("assets/Assets.car");
    reveal_strlit("assets/Info.plist");
    assert("dist/MacWindowResizer.app"@ =~= "dist"@ + seq!['/'] + "MacWindowResizer.app"@);
    assert("assets/LaunchAgent.plist"@ =~= "assets"@ + seq!['/'] + "LaunchAgent.plist"@);
    assert("assets/AppIcon.icns"@ =~= "assets"@ + seq!['/'] + "AppIcon.icns"@);
    assert("assets/Assets.car"@ =~= "assets"@ + seq!['/'] + "Assets.car"@);
    assert("assets/Info.plist"@ =~= "assets"@ + seq!['/'] + "Info.plist"@);
}

/// What is staged stands in the staging directory, and the parts of the staged app
/// where those of the installed one do.
pub proof fn law_places_of_the_staged_app()
    ensures
        stands_in(Place::StagedApp, Base::Staging, "MacWindowResizer.app"@),
        stands_in(Place::StagedAgent, Base::Staging, "agent.plist"@),
        lies_below(Place::StagedInfo, Place::StagedApp, "Contents/Info.plist"@),
        lies_below(Place::StagedPrograms, Place::StagedApp, "Contents/MacOS"@),
        lies_below(Place::StagedExecutable, Place::StagedPrograms, "MacWindowResizer"@),
        lies_below(Place::StagedResources, Place::StagedApp, "Contents/Resources"@),
        lies_below(Place::StagedIcon, Place::StagedResources, "AppIcon.icns"@),
        lies_below(Place::StagedAssets, Place::StagedResources, "Assets.car"@),
{
    reveal_strlit("MacWindowResizer.app");
    reveal_strlit("Contents/Info.plist");
    reveal_strlit("MacWindowResizer.app/Contents/Info.plist");
    reveal_strlit("Contents/MacOS");
    reveal_strlit("MacWindowResizer.app/Contents/MacOS");
    reveal_strlit("MacWindowResizer");
    reveal_strlit("MacWindowResizer.app/Contents/MacOS/MacWindowResizer");
    reveal_strlit("Contents/Resources");
    reveal_strlit("MacWindowResizer.app/Contents/Resources");
    reveal_strlit("AppIcon.icns");
    reveal_strlit("MacWindowResizer.app/Contents/Resources/AppIcon.icns");
    reveal_strlit("Assets.car");
    reveal_strlit("MacWindowResizer.app/Contents/Resources/Assets.car");
    assert("MacWindowResizer.app/Contents/Info.plist"@ =~= "MacWindowResizer.app"@ + seq!['/']
        + "Contents/Info.plist"@);
    assert("MacWindowResizer.app/Contents/MacOS"@ =~= "MacWindowResizer.app"@ + seq!['/']
        + "Contents/MacOS"@);
    assert("MacWindowResizer.app/Contents/MacOS/MacWindowResizer"@
        =~= "MacWindowResizer.app/Contents/MacOS"@ + seq!['/'] + "MacWindowResizer"@);
    assert("MacWindowResizer.app/Contents/Resources"@ =~= "MacWindowResizer.app"@ + seq!['/']
        + "Contents/Resources"@);
    assert("MacWindowResizer.app/Contents/Resources/AppIcon.icns"@
        =~= "MacWindowResizer.app/Contents/Resources"@ + seq!['/'] + "AppIcon.icns"@);
    assert("MacWindowResizer.app/Contents/Resources/Assets.car"@
        =~= "MacWindowResizer.app/Contents/Resources"@ + seq!['/'] + "Assets.car"@);
}

/// Programs are called by their names, but for those that have a place of their own
/// in the system.
pub proof fn law_programs()
    ensures
        Program::Cargo.file() == "cargo"@,
        Program::CodeSign.file() == "codesign"@,
        Program::Launchctl.file() == "launchctl"@,
        Program::Plutil.file() == "plutil"@,
        Program::Tccutil.file() == "tccutil"@,
        Program::Ditto.file() == "/usr/bin/"@ + "ditto"@,
        Program::LsRegister.file() == "/System/Library/Frameworks/CoreServices.framework"@
            + "/Frameworks/LaunchServices.framework/Support/lsregister"@,
{
    reveal_strlit("/usr/bin/");
    reveal_strlit("ditto");
    reveal_strlit("/usr/bin/ditto");
    reveal_strlit("/System/Library/Frameworks/CoreServices.framework");
    reveal_strlit("/Frameworks/LaunchServices.framework/Support/lsregister");
    reveal_strlit("/System/Library/Frameworks/CoreServices.framework/Frameworks/LaunchServices.framework/Support/lsregister");
    assert("/usr/bin/ditto"@ =~= "/usr/bin/"@ + "ditto"@);
    assert("/System/Library/Frameworks/CoreServices.framework/Frameworks/LaunchServices.framework/Support/lsregister"@
        =~= "/System/Library/Frameworks/CoreServices.framework"@
        + "/Frameworks/LaunchServices.framework/Support/lsregister"@);
}

/// An argument, a call and an operation are worth what they hold, in its order.
pub proof fn law_values_of_operations(
    argument: Argument,
    command: Command,
    operation: Operation,
    i: int,
)
    ensures
        argument matches Argument::Text(text) ==> argument@ == ArgumentView::Text(text@),
        argument matches Argument::Path(place) ==> argument@ == ArgumentView::Path(place),
        argument matches Argument::Bytes(bytes) ==> argument@ == ArgumentView::Bytes(bytes@),
        command@.program == command.program,
        command@.arguments.len() == command.arguments@.len(),
        0 <= i < command.arguments@.len() ==> command@.arguments[i] == command.arguments@[i]@,
        operation matches Operation::CheckApp(call) ==> operation@ == OperationView::CheckApp(
            call@,
        ),
        operation matches Operation::Run(call) ==> operation@ == OperationView::Run(call@),
        operation matches Operation::Probe(call) ==> operation@ == OperationView::Probe(call@),
        operation matches Operation::Read(call) ==> operation@ == OperationView::Read(call@),
        operation matches Operation::BuildBundle ==> operation@ == OperationView::BuildBundle,
        operation matches Operation::RemoveStaging ==> operation@ == OperationView::RemoveStaging,
        operation matches Operation::CreateDirectory(a) ==> operation@
            == OperationView::CreateDirectory(a),
        operation matches Operation::Stage(a) ==> operation@ == OperationView::Stage(a),
        operation matches Operation::RemoveDirectory(a) ==> operation@
            == OperationView::RemoveDirectory(a),
        operation matches Operation::RemoveFile(a) ==> operation@ == OperationView::RemoveFile(a),
        operation matches Operation::Find(a) ==> operation@ == OperationView::Find(a),
        operation matches Operation::Copy(a, b) ==> operation@ == OperationView::Copy(a, b),
        operation matches Operation::Rename(a, b) ==> operation@ == OperationView::Rename(a, b),
        operation matches Operation::CopyBuilt(path, a) ==> operation@ == OperationView::CopyBuilt(
            path@,
            a,
        ),
        operation matches Operation::WriteAgent(a, b, c, d) ==> operation@
            == OperationView::WriteAgent(a, b, c, d),
        operation matches Operation::Announce(notice) ==> operation@ == OperationView::Announce(
            notice,
        ),
{
}

/// What the user is told, of whatever app.
pub proof fn law_notices(app: Seq<char>)
    ensures
        Notice::Nothing.words(app) is None,
        Notice::Installed.words(app) == Some("Installed and started "@ + app),
        Notice::Removed.words(app) == Some(
            "MacWindowResizer uninstalled. "@ + "App, login service, and logs were removed."@,
        ),
        Notice::AdHocSigning.words(app) == Some(
            "Ad-hoc signing: "@ + "rebuilding may require granting Accessibility again."@,
        ),
{
    reveal_strlit("MacWindowResizer uninstalled. ");
    reveal_strlit("App, login service, and logs were removed.");
    reveal_strlit("MacWindowResizer uninstalled. App, login service, and logs were removed.");
    reveal_strlit("Ad-hoc signing: ");
    reveal_strlit("rebuilding may require granting Accessibility again.");
    reveal_strlit("Ad-hoc signing: rebuilding may require granting Accessibility again.");
    assert("MacWindowResizer uninstalled. App, login service, and logs were removed."@
        =~= "MacWindowResizer uninstalled. "@ + "App, login service, and logs were removed."@);
    assert("Ad-hoc signing: rebuilding may require granting Accessibility again."@
        =~= "Ad-hoc signing: "@ + "rebuilding may require granting Accessibility again."@);
}

/// The identifier is read out of the description of the installed app, and the state
/// of the service is asked for, or changed, by its name.
pub proof fn law_shared_calls(verb: Seq<char>, service: Seq<char>)
    ensures
        identifier_call().program == Program::Plutil,
        identifier_call().arguments == seq![
            ArgumentView::Text("-extract"@),
            ArgumentView::Text("CFBundleIdentifier"@),
            ArgumentView::Text("raw"@),
            ArgumentView::Path(Place::AppInfo),
        ],
        service_call(verb, service).program == Program::Launchctl,
        service_call(verb, service).arguments == seq![
            ArgumentView::Text(verb),
            ArgumentView::Text(service),
        ],
{
}

/// Where a place is, what a program is called and how a notice is worded is what the
/// laws on them say.
pub proof fn law_functions_on_operations(
    place: Place,
    base: Base,
    way: Option<&'static str>,
    program: Program,
    file: &'static str,
    notice: Notice,
    app: &str,
    told: Option<String>,
)
    requires
        call_ensures(Place::base, (place,), base),
        call_ensures(Place::relative, (place,), way),
        call_ensures(Program::path, (program,), file),
        call_ensures(Notice::told, (notice, app), told),
    ensures
        base == place.origin(),
        way is Some <==> place.way() is Some,
        way matches Some(found) ==> place.way() == Some(found@),
        file@ == program.file(),
        told is Some <==> notice.words(app@) is Some,
        told matches Some(words) ==> notice.words(app@) == Some(words@),
        place == Place::Logs ==> way is Some && base == Base::Home && way->Some_0@
            == "Library/Logs/MacWindowResizer"@,
        place == Place::App ==> way is Some && base == Base::Home && way->Some_0@
            == "Applications/MacWindowResizer.app"@,
        place == Place::Agent ==> way is Some && base == Base::Home && way->Some_0@
            == "Library/LaunchAgents/com.marcell.MacWindowResizer.plist"@,
        place == Place::Bundle ==> way is Some && base == Base::Project && way->Some_0@
            == "dist/MacWindowResizer.app"@,
{
}

} // verus!
