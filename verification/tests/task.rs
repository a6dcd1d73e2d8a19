use std::io;

use mac_window_resizer::json::parse_json;
use mac_window_resizer::task::bundle::{Build, BundleStep};
use mac_window_resizer::task::disable::DisableStep;
use mac_window_resizer::task::enable::EnableStep;
use mac_window_resizer::task::files::{
    agent_list, ignore_missing, is_ad_hoc, signing_identity, staging_name,
};
use mac_window_resizer::task::invocation::{invocation, Invocation, Job};
use mac_window_resizer::task::operation::{
    Argument, Base, Command, Notice, Operation, Place, Program,
};
use mac_window_resizer::task::paths::{check_host, domain, Paths, LABEL};
use mac_window_resizer::task::progress::{Progress, Reply, Run, Steps, Turn};

fn paths() -> Paths<String> {
    Paths {
        project: "/project".to_string(),
        app: "/home/Applications/MacWindowResizer.app".to_string(),
        agent: "/home/agent".to_string(),
        logs: "/home/logs".to_string(),
        domain: "gui/501".to_string(),
    }
}

fn shown(command: &Command) -> String {
    let mut out = command.program.path().to_string();
    for argument in &command.arguments {
        out.push(' ');
        match argument {
            Argument::Text(text) => out.push_str(text),
            Argument::Path(place) => out.push_str(&format!("<{place:?}>")),
            Argument::Bytes(bytes) => out.push_str(&String::from_utf8_lossy(bytes)),
        }
    }
    out
}

fn told(operation: &Operation) -> String {
    match operation {
        Operation::CheckApp(command) => format!("check {}", shown(command)),
        Operation::Run(command) => format!("run {}", shown(command)),
        Operation::Probe(command) => format!("probe {}", shown(command)),
        Operation::Read(command) => format!("read {}", shown(command)),
        other => format!("{other:?}"),
    }
}

#[test]
fn the_service_is_named_after_the_label() {
    assert_eq!(paths().service(), "gui/501/com.marcell.MacWindowResizer");
    assert_eq!(domain("501\n"), "gui/501");
}

#[test]
fn an_unrelated_app_is_left_alone() {
    let paths = paths();
    assert_eq!(paths.validate_app(None, "/a"), Ok(()));
    assert_eq!(paths.validate_app(Some("com.marcell.MacWindowResizer\n"), "/a"), Ok(()));
    assert_eq!(
        paths.validate_app(Some("com.example.Other"), "/a"),
        Err("refusing to replace or remove unrelated app: /a".to_string())
    );
}

#[test]
fn the_host_is_checked() {
    assert_eq!(check_host(true, true), Ok(()));
    assert_eq!(check_host(false, false), Err("these commands require macOS".to_string()));
    assert_eq!(check_host(true, false), Err("HOME is not set".to_string()));
}

#[test]
fn only_a_missing_file_is_no_error() {
    assert!(ignore_missing(Ok(())).is_ok());
    assert!(ignore_missing(Err(io::Error::from(io::ErrorKind::NotFound))).is_ok());
    let error = ignore_missing(Err(io::Error::from(io::ErrorKind::PermissionDenied))).unwrap_err();
    assert_eq!(error.kind(), io::ErrorKind::PermissionDenied);
}

#[test]
fn command_lines_are_read() {
    let read = |words: &[&str]| {
        invocation(&words.iter().map(|word| word.to_string()).collect::<Vec<_>>())
    };
    assert_eq!(read(&["enable"]), Invocation::Enable);
    assert_eq!(read(&["disable"]), Invocation::Disable);
    assert_eq!(read(&["refresh"]), Invocation::Refresh);
    assert_eq!(read(&["enable", "--help"]), Invocation::Help);
    assert_eq!(read(&["anything", "-h"]), Invocation::Help);
    assert_eq!(read(&["--help"]), Invocation::Unknown);
    assert_eq!(read(&[]), Invocation::Unknown);
    assert_eq!(read(&["enable", "now"]), Invocation::Unknown);
}

#[test]
fn a_refresh_installs_only_after_a_removal() {
    assert_eq!(Invocation::Refresh.job(0, false), Some(Job::Disable));
    assert_eq!(Invocation::Refresh.job(1, false), Some(Job::Enable));
    assert_eq!(Invocation::Refresh.job(1, true), None);
    assert_eq!(Invocation::Refresh.job(2, false), None);
    assert_eq!(Invocation::Enable.job(0, false), Some(Job::Enable));
    assert_eq!(Invocation::Enable.job(1, false), None);
    assert_eq!(Invocation::Disable.job(0, false), Some(Job::Disable));
    assert_eq!(Invocation::Disable.job(1, false), None);
    assert_eq!(Invocation::Help.job(0, false), None);
    assert_eq!(Invocation::Unknown.job(0, false), None);
}

#[test]
fn staging_directories_and_identities_are_named() {
    assert_eq!(staging_name(42, 1700000000000000001), ".MacWindowResizer-42-1700000000000000001");
    assert_eq!(signing_identity(None), b"-");
    assert_eq!(signing_identity(Some(Vec::new())), b"-");
    assert_eq!(signing_identity(Some(b"Developer ID".to_vec())), b"Developer ID");
    assert_eq!(signing_identity(Some(vec![0xff])), [0xff]);
    assert!(is_ad_hoc(&b"-".to_vec()) && !is_ad_hoc(&b"Developer ID".to_vec()));
    assert!(!is_ad_hoc(&b"--".to_vec()) && !is_ad_hoc(&Vec::new()));
}

#[test]
fn the_agent_is_written_by_its_template() {
    assert_eq!(
        agent_list(
            "<string>{LABEL}</string>{{<a>{executable}</a>}}<b>{log}</b>{other}",
            "/Users/a&b/{log}",
            "<log>"
        ),
        "<string>com.marcell.MacWindowResizer</string>{<a>/Users/a&amp;b/{log}</a>}<b>&lt;log&gt;</b>{other}"
    );
    assert_eq!(agent_list("", "a", "b"), "");
    assert_eq!(LABEL, "com.marcell.MacWindowResizer");
}

#[test]
fn places_are_told_by_their_bases() {
    assert_eq!(Place::App.base(), Base::Home);
    assert_eq!(Place::App.relative(), Some("Applications/MacWindowResizer.app"));
    assert_eq!(
        Place::Agent.relative(),
        Some(format!("Library/LaunchAgents/{LABEL}.plist").as_str())
    );
    assert_eq!((Place::Bundle.base(), Place::Bundle.relative()), (
        Base::Project,
        Some("dist/MacWindowResizer.app")
    ));
    assert_eq!(Place::Project.relative(), None);
    assert_eq!(Place::StagedInfo.base(), Base::Staging);
}

fn ended(turn: Turn) -> Option<Result<(), String>> {
    match turn {
        Turn::End(result) => Some(result),
        _ => None,
    }
}

/// Installs, with a failure at one step, and tells the steps and the result.
fn installed(failing: Option<EnableStep>) -> (Vec<EnableStep>, Result<(), String>) {
    let mut run = Run::new(EnableStep::CheckApp);
    let mut steps = Vec::new();
    loop {
        steps.push(run.step);
        let outcome = if failing == Some(run.step) { Err("no".to_string()) } else { Ok(true) };
        if let Some(result) = ended(run.advance(outcome)) {
            return (steps, result);
        }
    }
}

#[test]
fn an_installation_works_in_order() {
    let (steps, result) = installed(None);
    assert_eq!(result, Ok(()));
    let done: Vec<String> = steps.iter().map(|step| told(&step.operation("S", "D"))).collect();
    assert_eq!(
        done,
        vec![
            "check plutil -extract CFBundleIdentifier raw <AppInfo>",
            "BuildBundle",
            "CreateDirectory(Applications)",
            "CreateDirectory(LaunchAgents)",
            "CreateDirectory(Logs)",
            "Stage(Applications)",
            "run /usr/bin/ditto <Bundle> <StagedApp>",
            "WriteAgent(AgentTemplate, AppExecutable, LogFile, StagedAgent)",
            "run plutil -lint <StagedAgent>",
            "probe launchctl print S",
            "run launchctl bootout S",
            "RemoveDirectory(App)",
            "Rename(StagedApp, App)",
            "Rename(StagedAgent, Agent)",
            "run /System/Library/Frameworks/CoreServices.framework/Frameworks/LaunchServices.framework/Support/lsregister -f <App>",
            "run launchctl enable S",
            "run launchctl bootstrap D <Agent>",
            "Announce(Installed)",
            "RemoveStaging",
        ]
    );
    assert_eq!(
        EnableStep::ProbeService.next(Reply::No),
        Progress::Continue(EnableStep::RemoveOldApp)
    );
}

#[test]
fn a_failed_installation_removes_its_staging_directory() {
    let (all, _) = installed(None);
    for (index, step) in all.iter().enumerate() {
        let (steps, result) = installed(Some(*step));
        let mut expected = all[..=index].to_vec();
        if index > 5 && *step != EnableStep::RemoveStaging {
            expected.push(EnableStep::RemoveStaging);
        }
        assert_eq!(steps, expected);
        let failed = *step != EnableStep::RemoveStaging;
        assert_eq!(result, if failed { Err("no".to_string()) } else { Ok(()) });
    }
}

#[test]
fn a_removal_works_in_order() {
    let mut run = Run::new(DisableStep::CheckApp);
    let mut done = Vec::new();
    let mut warnings = Vec::new();
    let result = loop {
        let step = run.step;
        done.push(told(&step.operation("S")));
        let failed = step == DisableStep::ResetPermission || step == DisableStep::UnregisterApp;
        match run.advance(if failed { Err("no".to_string()) } else { Ok(true) }) {
            Turn::Continue => {}
            Turn::Warn(reason) => warnings.push(step.warning(&reason).unwrap()),
            Turn::End(result) => break result,
        }
    };
    assert_eq!(result, Ok(()));
    assert_eq!(
        warnings,
        vec![
            "Could not reset Accessibility permission: no. Remove MacWindowResizer manually in System Settings.",
            "Could not unregister application: no",
        ]
    );
    assert_eq!(
        done,
        vec![
            "check plutil -extract CFBundleIdentifier raw <AppInfo>",
            "probe launchctl print S",
            "run launchctl bootout S",
            "run launchctl disable S",
            "Find(App)",
            "run tccutil reset Accessibility com.marcell.MacWindowResizer",
            "run /System/Library/Frameworks/CoreServices.framework/Frameworks/LaunchServices.framework/Support/lsregister -u <App>",
            "RemoveDirectory(App)",
            "RemoveFile(Agent)",
            "RemoveDirectory(Logs)",
            "Announce(Removed)",
        ]
    );
    for step in [DisableStep::CheckApp, DisableStep::DisableService, DisableStep::RemoveApp] {
        assert_eq!(step.next(Reply::Failed), Progress::Abort);
        assert_eq!(step.warning("no"), None);
        let mut run = Run::new(step);
        assert_eq!(ended(run.advance(Err("no".to_string()))), Some(Err("no".to_string())));
    }
    assert_eq!(
        DisableStep::FindApp.next(Reply::No),
        Progress::Continue(DisableStep::RemoveAgent)
    );
    assert_eq!(
        DisableStep::ProbeService.next(Reply::No),
        Progress::Continue(DisableStep::DisableService)
    );
}

const METADATA: &str = r#"{"packages": [{"name": "app", "version": "1.2.3", "id": "app 1"}]}"#;
const MESSAGES: &str = r#"{"reason": "compiler-artifact", "package_id": "app 1", "target": {"name": "MacWindowResizer"}, "executable": "/built/app"}"#;

fn printed(step: BundleStep) -> String {
    match step {
        BundleStep::ReadMetadata => METADATA.to_string(),
        BundleStep::Compile => MESSAGES.to_string(),
        _ => String::new(),
    }
}

/// Builds, with a failure at one step, and tells the operations and the result.
fn bundled(
    identity: Option<&[u8]>,
    failing: Option<BundleStep>,
) -> (Vec<BundleStep>, Vec<String>, Result<(), String>) {
    let mut build = Build::new("app", identity.map(|bytes| bytes.to_vec()));
    let (mut steps, mut done) = (Vec::new(), Vec::new());
    loop {
        let step = build.run.step;
        steps.push(step);
        done.push(told(&build.operation()));
        let outcome = if failing == Some(step) { Err("no".to_string()) } else { Ok(printed(step)) };
        if let Some(result) = ended(build.advance(outcome)) {
            return (steps, done, result);
        }
    }
}

#[test]
fn a_build_works_in_order() {
    let (_, done, result) = bundled(Some(b"Me"), None);
    assert_eq!(result, Ok(()));
    assert_eq!(
        done,
        vec![
            "read cargo metadata --no-deps --format-version=1 --locked",
            "read cargo build --release --locked --bin MacWindowResizer --message-format=json-render-diagnostics",
            "CreateDirectory(Dist)",
            "Stage(Dist)",
            "CreateDirectory(StagedPrograms)",
            "CreateDirectory(StagedResources)",
            "CopyBuilt(\"/built/app\", StagedExecutable)",
            "Copy(Icon, StagedIcon)",
            "Copy(Assets, StagedAssets)",
            "Copy(Info, StagedInfo)",
            "run plutil -replace CFBundleVersion -string 1.2.3 <StagedInfo>",
            "run plutil -replace CFBundleShortVersionString -string 1.2.3 <StagedInfo>",
            "run codesign --force --sign Me <StagedApp>",
            "run codesign --verify --strict <StagedApp>",
            "RemoveDirectory(Bundle)",
            "Rename(StagedApp, Bundle)",
            "Announce(Nothing)",
            "RemoveStaging",
        ]
    );
    assert_eq!(Program::Cargo.path(), "cargo");
}

#[test]
fn a_build_without_an_identity_says_so() {
    for identity in [None, Some(&b""[..]), Some(&b"-"[..])] {
        let (_, done, _) = bundled(identity, None);
        assert_eq!(done[12], "run codesign --force --sign - <StagedApp>");
        assert_eq!(done[16], "Announce(AdHocSigning)");
    }
}

#[test]
fn a_failed_build_removes_its_staging_directory_and_spares_the_earlier_bundle() {
    let (all, _, _) = bundled(None, None);
    for (index, step) in all.iter().enumerate() {
        let (steps, done, result) = bundled(None, Some(*step));
        let mut expected = all[..=index].to_vec();
        if index > 3 && *step != BundleStep::RemoveStaging {
            expected.push(BundleStep::RemoveStaging);
        }
        assert_eq!(steps, expected);
        let failed = *step != BundleStep::RemoveStaging;
        assert_eq!(result, if failed { Err("no".to_string()) } else { Ok(()) });
        if index <= 13 {
            assert!(!done.iter().any(|line| line.contains("(Bundle)") || line.contains(", Bundle)")));
        }
    }
}

#[test]
fn what_cargo_prints_can_end_a_build() {
    let mut build = Build::new("other", None);
    assert_eq!(
        ended(build.advance(Ok(METADATA.to_string()))),
        Some(Err("application package not found".to_string()))
    );
    let mut build = Build::new("app", None);
    assert_eq!(
        ended(build.advance(Ok("{".to_string()))),
        Some(Err(parse_json("{").unwrap_err()))
    );
    let mut build = Build::new("app", None);
    assert_eq!(ended(build.advance(Ok(METADATA.to_string()))), None);
    assert_eq!((build.version.as_str(), build.id.text()), ("1.2.3", Some("app 1")));
    assert_eq!(
        ended(build.advance(Ok(String::new()))),
        Some(Err("Cargo did not report the application executable".to_string()))
    );
}

#[test]
fn notices_are_put_into_words() {
    assert_eq!(Notice::Nothing.told("/a"), None);
    assert_eq!(Notice::Installed.told("/a").unwrap(), "Installed and started /a");
    assert_eq!(
        Notice::Removed.told("/a").unwrap(),
        "MacWindowResizer uninstalled. App, login service, and logs were removed."
    );
    assert_eq!(
        Notice::AdHocSigning.told("/a").unwrap(),
        "Ad-hoc signing: rebuilding may require granting Accessibility again."
    );
}
