//! Dispatching one tool call.
//!
//! A call names an environment, carries code, and may carry a session id. The
//! dispatcher looks the environment up — an unknown name is an
//! invalid-argument error listing the available names — resolves the project
//! directory and mount point, and routes the call to session or ephemeral
//! execution. Performing the execution, and formatting errors for the wire,
//! happen outside the library.

use vstd::prelude::*;

verus! {

use crate::config::{Config, EnvironmentMeta};

/// Parameters of the one tool, `run`.
#[derive(Debug)]
pub struct RunParams {
    /// The code to run in the sandbox.
    pub code: String,
    /// Execution environment; must name a configured environment.
    pub env: String,
    /// Optional session id for persistent state across calls. A session is
    /// bound to its creation environment.
    pub session: Option<String>,
}

/// Where a call goes.
#[derive(Debug)]
pub enum RunRoute {
    /// No session id: one sandbox for this call alone.
    Ephemeral,
    /// A session id: the call goes to the session manager.
    Session { session_id: String },
}

/// Errors of the dispatcher.
#[derive(Debug)]
pub enum DispatchError {
    /// The named environment is not configured; `available` lists the names
    /// that are.
    UnknownEnvironment { requested: String, available: Vec<String> },
}

/// Everything decided about a call before any process runs.
#[derive(Debug)]
pub struct RunPlan {
    /// The resolved project directory, if one is configured.
    pub project_dir: Option<String>,
    /// The resolved mount point.
    pub project_mount: String,
    /// Session or ephemeral execution.
    pub route: RunRoute,
}

/// Decide one call: look the environment up, resolve the project directory
/// (host override first, then the declared path) and the mount point, and
/// route by the presence of a session id.
pub fn plan_run<'a>(
    config: &'a Config,
    params: &RunParams,
    dir_override: Option<String>,
    override_is_dir: bool,
    cwd: &str,
    mount_override: Option<String>,
) -> (r: Result<(RunPlan, &'a EnvironmentMeta), DispatchError>)
    ensures
        match r {
            Ok((plan, meta)) => {
                &&& config.environments.spec_get(params.env@) == Some(*meta)
                &&& match plan.project_dir {
                    Some(d) => config.spec_resolved_project_dir(
                        match dir_override {
                            Some(o) => Some(o@),
                            None => None,
                        },
                        override_is_dir,
                        cwd@,
                    ) == Some(d@),
                    None => config.spec_resolved_project_dir(
                        match dir_override {
                            Some(o) => Some(o@),
                            None => None,
                        },
                        override_is_dir,
                        cwd@,
                    ) is None,
                }
                &&& plan.project_mount@ == config.spec_project_mount(
                    match mount_override {
                        Some(m) => Some(m@),
                        None => None,
                    },
                )
                &&& match params.session {
                    Some(sid) => plan.route matches RunRoute::Session { session_id } && session_id@
                        == sid@,
                    None => plan.route is Ephemeral,
                }
            },
            Err(DispatchError::UnknownEnvironment { requested, available }) => {
                &&& config.environments.spec_get(params.env@) is None
                &&& requested@ == params.env@
                &&& forall|j: int|
                    0 <= j < available@.len() ==> config.environments.spec_get(
                        available@[j]@,
                    ) is Some
                &&& forall|k: Seq<char>|
                    config.environments.spec_get(k) is Some ==> exists|j: int|
                        0 <= j < available@.len() && available@[j]@ == k
            },
        },
{
    let meta = match config.environments.get(params.env.as_str()) {
        Some(m) => m,
        None => {
            return Err(DispatchError::UnknownEnvironment {
                requested: params.env.clone(),
                available: config.environments.names(),
            });
        },
    };
    let project_dir = config.resolved_project_dir(dir_override, override_is_dir, cwd);
    let project_mount = config.project_mount(mount_override);
    let route = match &params.session {
        Some(sid) => RunRoute::Session { session_id: sid.clone() },
        None => RunRoute::Ephemeral,
    };
    Ok((RunPlan { project_dir, project_mount, route }, meta))
}

} // verus!
