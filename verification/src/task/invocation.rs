//! What the user asks for on the command line.
use vstd::prelude::*;

use crate::text::same;

verus! {

/// How to use the tasks.
pub const USAGE: &'static str =
    "cargo enable   Build, install, start, and enable login startup.\ncargo disable  Uninstall the app and login service, reset permission, and remove logs.\ncargo refresh  Run disable, then enable after a successful uninstall.";

/// What is wrong with a command line that asks for nothing known.
pub const EXPECTED: &'static str = "expected enable, disable, or refresh";

/// What the user asks for.
#[derive(Clone, Copy, Debug, PartialEq, Eq, Structural)]
pub enum Invocation {
    Help,
    Enable,
    Disable,
    Refresh,
    Unknown,
}

/// A task.
#[derive(Clone, Copy, Debug, PartialEq, Eq, Structural)]
pub enum Job {
    Enable,
    Disable,
}

/// What the arguments, without the name of the program, ask for.
pub open spec fn asked(arguments: Seq<String>) -> Invocation {
    if arguments.len() == 2 && (arguments[1]@ == "--help"@ || arguments[1]@ == "-h"@) {
        Invocation::Help
    } else if arguments.len() != 1 {
        Invocation::Unknown
    } else if arguments[0]@ == "enable"@ {
        Invocation::Enable
    } else if arguments[0]@ == "refresh"@ {
        Invocation::Refresh
    } else if arguments[0]@ == "disable"@ {
        Invocation::Disable
    } else {
        Invocation::Unknown
    }
}

/// Reads the arguments, without the name of the program.
pub fn invocation(arguments: &Vec<String>) -> (r: Invocation)
    ensures
        r == asked(arguments@),
{
    if arguments.len() == 2 && (same(arguments[1].as_str(), "--help") || same(
        arguments[1].as_str(),
        "-h",
    )) {
        return Invocation::Help;
    }
    if arguments.len() != 1 {
        return Invocation::Unknown;
    }
    let word = arguments[0].as_str();
    if same(word, "enable") {
        Invocation::Enable
    } else if same(word, "refresh") {
        Invocation::Refresh
    } else if same(word, "disable") {
        Invocation::Disable
    } else {
        Invocation::Unknown
    }
}

impl Invocation {
    /// The tasks to perform, in order.
    pub open spec fn tasks(self) -> Seq<Job> {
        match self {
            Invocation::Enable => seq![Job::Enable],
            Invocation::Disable => seq![Job::Disable],
            Invocation::Refresh => seq![Job::Disable, Job::Enable],
            Invocation::Help | Invocation::Unknown => seq![],
        }
    }

    /// The task that is due once so many were performed, and the last of them
    /// failed or did not: the next one, unless a task failed.
    pub open spec fn due(self, performed: int, failed: bool) -> Option<Job> {
        if !failed && 0 <= performed < self.tasks().len() {
            Some(self.tasks()[performed])
        } else {
            None
        }
    }

    /// Tells which task is due once so many were performed, and the last of them
    /// failed or did not.
    pub fn job(self, performed: usize, failed: bool) -> (r: Option<Job>)
        ensures
            r == self.due(performed as int, failed),
    {
        if failed {
            return None;
        }
        match self {
            Invocation::Enable => if performed == 0 {
                Some(Job::Enable)
            } else {
                None
            },
            Invocation::Disable => if performed == 0 {
                Some(Job::Disable)
            } else {
                None
            },
            Invocation::Refresh => if performed == 0 {
                Some(Job::Disable)
            } else if performed == 1 {
                Some(Job::Enable)
            } else {
                None
            },
            Invocation::Help | Invocation::Unknown => None,
        }
    }
}

/// A refresh installs the program exactly once it was removed, and not if the
/// removal failed.
pub proof fn law_a_refresh_installs_after_a_removal(performed: int, failed: bool)
    ensures
        Invocation::Refresh.due(0, false) == Some(Job::Disable),
        Invocation::Refresh.due(performed, failed) == Some(Job::Enable) <==> performed == 1
            && !failed,
{
}

/// One word asks for its task. Two words, of which the second asks for help, get it.
/// Anything else is unknown.
pub proof fn law_what_arguments_ask_for(arguments: Seq<String>)
    ensures
        arguments.len() == 0 || arguments.len() > 2 ==> asked(arguments) == Invocation::Unknown,
        arguments.len() == 2 ==> (asked(arguments) == Invocation::Help <==> arguments[1]@
            == "--help"@ || arguments[1]@ == "-h"@),
        arguments.len() == 2 ==> asked(arguments) == Invocation::Help || asked(arguments)
            == Invocation::Unknown,
        arguments.len() == 1 ==> {
            &&& asked(arguments) == Invocation::Enable <==> arguments[0]@ == "enable"@
            &&& asked(arguments) == Invocation::Disable <==> arguments[0]@ == "disable"@
            &&& asked(arguments) == Invocation::Refresh <==> arguments[0]@ == "refresh"@
            &&& asked(arguments) != Invocation::Help
        },
{
    reveal_strlit("enable");
    reveal_strlit("disable");
    reveal_strlit("refresh");
    assert("enable"@.len() == 6 && "disable"@.len() == 7 && "refresh"@.len() == 7);
    assert("disable"@[0] == 'd' && "refresh"@[0] == 'r');
}

/// Enabling and disabling is one task each, and nothing else is asked for any.
pub proof fn law_single_tasks(asked: Invocation, performed: int, failed: bool)
    ensures
        asked == Invocation::Enable ==> (asked.due(performed, failed) == Some(Job::Enable)
            <==> performed == 0 && !failed),
        asked == Invocation::Disable ==> (asked.due(performed, failed) == Some(Job::Disable)
            <==> performed == 0 && !failed),
        asked == Invocation::Enable ==> asked.due(performed, failed) != Some(Job::Disable),
        asked == Invocation::Disable ==> asked.due(performed, failed) != Some(Job::Enable),
        asked == Invocation::Help || asked == Invocation::Unknown ==> asked.due(
            performed,
            failed,
        ) is None,
        asked == Invocation::Refresh ==> (asked.due(performed, failed) == Some(Job::Disable)
            <==> performed == 0 && !failed),
{
}

/// What is asked for is what is due.
pub proof fn law_functions_on_invocations(
    arguments: &Vec<String>,
    asked_for: Invocation,
    performed: usize,
    failed: bool,
    due: Option<Job>,
)
    requires
        call_ensures(invocation, (arguments,), asked_for),
        call_ensures(Invocation::job, (asked_for, performed, failed), due),
    ensures
        asked_for == asked(arguments@),
        due == asked_for.due(performed as int, failed),
        failed ==> due is None,
{
}

/// The usage tells of each task on a line of its own.
pub proof fn law_usage()
    ensures
        USAGE@ == "cargo enable   Build, install, start, and enable login startup."@ + seq!['\n']
            + "cargo disable  Uninstall the app and login service, reset permission, and remove logs."@
            + seq!['\n'] + "cargo refresh  Run disable, then enable after a successful uninstall."@,
        EXPECTED@ == "expected enable, disable, or refresh"@,
{
    reveal_strlit("cargo enable   Build, install, start, and enable login startup.");
    reveal_strlit("cargo disable  Uninstall the app and login service, reset permission, and remove logs.");
    reveal_strlit("cargo refresh  Run disable, then enable after a successful uninstall.");
    reveal_strlit("cargo enable   Build, install, start, and enable login startup.\ncargo disable  Uninstall the app and login service, reset permission, and remove logs.\ncargo refresh  Run disable, then enable after a successful uninstall.");
    assert(USAGE@ =~= "cargo enable   Build, install, start, and enable login startup."@ + seq![
        '\n',
    ]
        + "cargo disable  Uninstall the app and login service, reset permission, and remove logs."@
        + seq!['\n'] + "cargo refresh  Run disable, then enable after a successful uninstall."@);
}

} // verus!
