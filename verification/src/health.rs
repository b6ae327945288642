//! Health checks that validate the host after servicing: scripts and
//! systemd-service checks, each deciding whether it runs for a given
//! servicing category.

use vstd::prelude::*;

verus! {

/// The category of the current OS lifecycle operation.
#[derive(Clone, Copy, Debug, PartialEq, Eq, Structural)]
pub enum ServicingType {
    /// A from-scratch installation.
    CleanInstall,
    /// An in-place update.
    NormalUpdate,
    /// An A/B update that switches to a freshly serviced target.
    AbUpdate,
    /// No servicing operation is under way.
    NoActiveServicing,
}

/// The servicing categories a script opts into.
#[derive(Clone, Copy, Debug, PartialEq, Eq, Structural)]
pub enum ServicingTypeSelection {
    /// Every category.
    All,
    CleanInstall,
    NormalUpdate,
    AbUpdate,
}

/// Where a script's text comes from.
#[derive(Clone, Debug)]
pub enum ScriptSource {
    /// Raw contents of the script.
    Content(String),
    /// Path to a script in the execution OS.
    Path(String),
}

/// A script run on the host during servicing stages.
#[derive(Clone, Debug)]
pub struct Script {
    /// Name of the script.
    pub name: String,
    /// The servicing categories the script runs on.
    pub run_on: Vec<ServicingTypeSelection>,
    /// Interpreter the script runs under, if any.
    pub interpreter: Option<String>,
    /// Arguments handed to the script.
    pub arguments: Vec<String>,
    /// The script's source.
    pub source: ScriptSource,
}

impl Default for Script {
    /// An empty script: no name, no selections, no interpreter, no
    /// arguments, and empty raw content.
    fn default() -> (r: Self)
        ensures
            r.name@ == Seq::<char>::empty(),
            r.run_on@ == Seq::<ServicingTypeSelection>::empty(),
            r.interpreter is None,
            r.arguments@ == Seq::<String>::empty(),
            r.source matches ScriptSource::Content(c) && c@ == Seq::<char>::empty(),
    {
        Script {
            name: String::new(),
            run_on: Vec::new(),
            interpreter: None,
            arguments: Vec::new(),
            source: ScriptSource::Content(String::new()),
        }
    }
}

/// A systemd-service health check: a set of services that must be in a
/// successful state within a timeout.
#[derive(Clone, Debug)]
pub struct SystemdCheck {
    /// Name of the check.
    pub name: String,
    /// Systemd services that need to be in a successful state.
    pub systemd_services: Vec<String>,
    /// Timeout for the check, in seconds.
    pub timeout_seconds: usize,
}

/// A health check run before an updated target OS is committed: either
/// a raw script or a systemd-service check. On the wire the two are
/// told apart structurally, by which fields are present, not by a
/// variant tag.
#[derive(Clone, Debug)]
pub enum Check {
    /// Raw contents of the script.
    Script(Script),
    /// A systemd-service check.
    SystemdCheck(SystemdCheck),
}

impl Check {
    /// Whether this check runs for the given servicing category: checks
    /// run only for A/B updates.
    pub fn should_run(&self, servicing_type: ServicingType) -> (r: bool)
        ensures
            r == (servicing_type == ServicingType::AbUpdate),
    {
        servicing_type == ServicingType::AbUpdate
    }
}

/// The health checks of a host configuration, in definition order.
#[derive(Clone, Debug)]
pub struct Health {
    /// Checks run before an updated target OS is committed as
    /// provisioned; a failing check triggers rollback.
    pub checks: Vec<Check>,
}

impl Default for Health {
    /// No checks.
    fn default() -> (r: Self)
        ensures
            r.checks@ == Seq::<Check>::empty(),
    {
        Health { checks: Vec::new() }
    }
}

} // verus!
