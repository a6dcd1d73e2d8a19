//! Which applications are observed.
use std::collections::HashMap;
use vstd::prelude::*;

use crate::config::Config;
use crate::config::Rule;

verus! {

broadcast use vstd::std_specs::hash::group_hash_axioms;

/// What the workspace reports about an application.
#[derive(Clone, Copy, Debug, PartialEq, Eq, Structural)]
pub enum WorkspaceEvent {
    Launched,
    Activated,
    Terminated,
}

/// What is known of a running application. An application without a bundle ID
/// has none here.
#[derive(Debug)]
pub struct Application {
    pub bundle_id: Option<String>,
    pub process: i32,
    pub terminated: bool,
}

/// The configuration, and the observations by process.
#[derive(Debug)]
pub struct Manager<O> {
    pub config: Config,
    pub observations: HashMap<i32, O>,
}

impl<O> Manager<O> {
    /// The application is to be observed: there is a rule for it, it runs, it is
    /// not observed yet, and the user permits it.
    pub open spec fn wants(self, application: Application, permitted: bool) -> bool {
        &&& application.bundle_id is Some
        &&& self.config@.contains_key(application.bundle_id->Some_0@)
        &&& !application.terminated
        &&& !self.observations@.contains_key(application.process)
        &&& permitted
    }

    /// A manager that observes nothing yet.
    pub fn new(config: Config) -> (r: Self)
        ensures
            r.config == config,
            r.observations@ == Map::<i32, O>::empty(),
    {
        Manager { config, observations: HashMap::new() }
    }

    /// The rule by which an application is to be observed, if it is.
    pub fn attach(&self, application: &Application, permitted: bool) -> (r: Option<&Rule>)
        ensures
            match r {
                Some(rule) => self.wants(*application, permitted) && rule@
                    == self.config@[application.bundle_id->Some_0@],
                None => !self.wants(*application, permitted),
            },
    {
        let bundle_id = match &application.bundle_id {
            Some(bundle_id) => bundle_id,
            None => return None,
        };
        let rule = match self.config.get(bundle_id.as_str()) {
            Some(rule) => rule,
            None => return None,
        };
        if application.terminated || self.observations.contains_key(&application.process)
            || !permitted {
            return None;
        }
        Some(rule)
    }

    /// Keeps the observation of a process, if there is one. Without one, the
    /// process is tried again on a later occasion.
    pub fn attached<E>(&mut self, process: i32, observation: Result<O, E>) -> (r: Result<(), E>)
        ensures
            final(self).config == old(self).config,
            match observation {
                Ok(observation) => r is Ok && final(self).observations@
                    == old(self).observations@.insert(process, observation),
                Err(error) => r == Err::<(), E>(error) && final(self).observations@
                    == old(self).observations@,
            },
    {
        match observation {
            Ok(observation) => {
                self.observations.insert(process, observation);
                Ok(())
            },
            Err(error) => Err(error),
        }
    }

    /// Takes note of what the workspace reports about an application. The
    /// observation of a process that ended is dropped; any other report gives
    /// the rule by which the application is to be observed, if it is.
    pub fn notified(
        &mut self,
        event: WorkspaceEvent,
        application: &Application,
        permitted: bool,
    ) -> (r: Option<&Rule>)
        ensures
            final(self).config == old(self).config,
            event == WorkspaceEvent::Terminated ==> r is None && final(self).observations@
                == old(self).observations@.remove(application.process),
            event != WorkspaceEvent::Terminated ==> final(self).observations@
                == old(self).observations@ && match r {
                Some(rule) => old(self).wants(*application, permitted) && rule@
                    == old(self).config@[application.bundle_id->Some_0@],
                None => !old(self).wants(*application, permitted),
            },
    {
        match event {
            WorkspaceEvent::Terminated => {
                self.observations.remove(&application.process);
                None
            },
            _ => self.attach(application, permitted),
        }
    }
}

/// A process is observed at most once at a time: as long as its observation is
/// kept, it is not to be observed.
pub proof fn law_a_process_is_observed_once<O>(
    before: Manager<O>,
    after: Manager<O>,
    observation: O,
    application: Application,
    permitted: bool,
)
    requires
        after.config == before.config,
        after.observations@ == before.observations@.insert(application.process, observation),
    ensures
        !after.wants(application, permitted),
{
}

/// Once a process ended, its number stands for no observation: a configured
/// application that runs under it is observed as if it were the first.
pub proof fn law_a_process_number_can_be_used_again<O>(
    before: Manager<O>,
    after: Manager<O>,
    application: Application,
)
    requires
        after.config == before.config,
        after.observations@ == before.observations@.remove(application.process),
        application.bundle_id is Some,
        before.config@.contains_key(application.bundle_id->Some_0@),
        !application.terminated,
    ensures
        after.wants(application, true),
{
}

/// A configured application that runs is observed as soon as the user permits it,
/// whatever other processes are observed, and as long as it is not observed yet.
pub proof fn law_configured_applications_are_observed<O>(
    manager: Manager<O>,
    application: Application,
    permitted: bool,
)
    ensures
        !permitted || application.terminated ==> !manager.wants(application, permitted),
        application.bundle_id is None ==> !manager.wants(application, permitted),
        manager.observations@.contains_key(application.process) ==> !manager.wants(
            application,
            permitted,
        ),
        application.bundle_id matches Some(id) ==> {
            &&& !manager.config@.contains_key(id@) ==> !manager.wants(application, permitted)
            &&& permitted && !application.terminated && manager.config@.contains_key(id@)
                && !manager.observations@.contains_key(application.process) ==> manager.wants(
                application,
                permitted,
            )
        },
{
}

/// Whether an application is to be observed does not depend on what else is.
pub proof fn law_observations_are_independent<O>(
    before: Manager<O>,
    after: Manager<O>,
    process: i32,
    observation: O,
    application: Application,
    permitted: bool,
)
    requires
        after.config == before.config,
        after.observations@ == before.observations@.insert(process, observation)
            || after.observations@ == before.observations@.remove(process),
        process != application.process,
    ensures
        after.wants(application, permitted) == before.wants(application, permitted),
{
}

/// A configured application that runs, is permitted and is not observed yet is observed
/// by its own rule, and no other is.
pub proof fn law_applications_are_observed_by_their_rules<O>(
    manager: &Manager<O>,
    application: &Application,
    permitted: bool,
    r: Option<&Rule>,
)
    requires
        call_ensures(Manager::<O>::attach, (manager, application, permitted), r),
    ensures
        r is Some <==> permitted && !application.terminated && application.bundle_id is Some
            && manager.config@.contains_key(application.bundle_id->Some_0@)
            && !manager.observations@.contains_key(application.process),
        r is Some ==> r->Some_0@ == manager.config@[application.bundle_id->Some_0@],
{
}

/// An observation is kept under its process, and one that failed changes nothing; no
/// other process is touched.
pub proof fn law_observations_are_kept<O, E>(
    manager: &mut Manager<O>,
    process: i32,
    observation: Result<O, E>,
    r: Result<(), E>,
    other: i32,
)
    requires
        call_ensures(Manager::<O>::attached::<E>, (manager, process, observation), r),
    ensures
        final(manager).config == old(manager).config,
        observation matches Ok(kept) ==> r is Ok && final(manager).observations@.contains_key(
            process,
        ) && final(manager).observations@[process] == kept,
        observation matches Err(error) ==> r == Err::<(), E>(error) && final(manager).observations@
            == old(manager).observations@,
        other != process ==> (final(manager).observations@.contains_key(other)
            <==> old(manager).observations@.contains_key(other)),
        other != process && old(manager).observations@.contains_key(other)
            ==> final(manager).observations@[other] == old(manager).observations@[other],
{
}

/// A process that ended is not observed any more, and no other is touched. Any other
/// report about an application is an occasion to observe it by its own rule.
pub proof fn law_reports_of_the_workspace<O>(
    manager: &mut Manager<O>,
    event: WorkspaceEvent,
    application: &Application,
    permitted: bool,
    r: Option<&Rule>,
    other: i32,
)
    requires
        call_ensures(Manager::<O>::notified, (manager, event, application, permitted), r),
    ensures
        final(manager).config == old(manager).config,
        event == WorkspaceEvent::Terminated ==> r is None && !final(manager).observations@.contains_key(application.process),
        event != WorkspaceEvent::Terminated ==> final(manager).observations@ == old(manager).observations@,
        other != application.process ==> (final(manager).observations@.contains_key(other)
            <==> old(manager).observations@.contains_key(other)),
        event != WorkspaceEvent::Terminated ==> (r is Some <==> permitted && !application.terminated
            && application.bundle_id is Some && old(manager).config@.contains_key(
            application.bundle_id->Some_0@,
        ) && !old(manager).observations@.contains_key(application.process)),
        r is Some ==> application.bundle_id is Some && r->Some_0@
            == old(manager).config@[application.bundle_id->Some_0@],
{
}

} // verus!
