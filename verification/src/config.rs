//! Environment configuration.
//!
//! Environments are immutable descriptors assembled once at startup from two
//! sources: declared metadata and a scanned artifact directory. The library
//! holds the descriptors, the name-keyed table with its override rule, and the
//! resolution of the project directory and mount point; reading environment
//! variables, the filesystem and JSON happens outside and hands in plain
//! values.

use vstd::prelude::*;

verus! {

use crate::text::{join_path, starts_with_slash, str_eq};
use vstd::string::StringExecFns;

/// Default execution timeout in seconds.
pub fn default_timeout() -> (r: u64)
    ensures
        r == 30,
{
    30
}

/// Default memory budget in megabytes.
pub fn default_memory() -> (r: u64)
    ensures
        r == 512,
{
    512
}

/// Default idle timeout of a session in seconds.
pub fn default_idle_timeout() -> (r: u64)
    ensures
        r == 300,
{
    300
}

/// Default maximum lifetime of a session in seconds.
pub fn default_max_lifetime() -> (r: u64)
    ensures
        r == 3600,
{
    3600
}

/// Default project path: the current directory.
pub fn default_project_path() -> (r: String)
    ensures
        r@ == "."@,
{
    String::from_str(".")
}

/// Default mount point of the project inside the sandbox.
pub fn default_mount_point() -> (r: String)
    ensures
        r@ == "/project"@,
{
    String::from_str("/project")
}

/// Available isolation backends.
#[derive(Debug, Clone, Copy, PartialEq, Eq, Structural)]
pub enum BackendType {
    /// Namespace isolation through an external jail wrapper.
    Jail,
    /// Hardware VM isolation.
    Microvm,
}

/// Metadata for a single execution environment.
#[derive(Debug)]
pub struct EnvironmentMeta {
    /// Which backend runs this environment.
    pub backend: BackendType,
    /// Path of the executable that runs code ephemerally in this environment.
    pub exec_path: String,
    /// Path of the session wrapper that runs the persistent agent. If absent,
    /// sessions are not supported for this environment.
    pub session_exec: Option<String>,
    /// Maximum execution time in seconds.
    pub timeout_seconds: u64,
    /// Memory limit in megabytes.
    pub memory_mb: u64,
    /// Explicit interpreter tag for the agent protocol. If absent, the
    /// interpreter is resolved from the environment name.
    pub interpreter_type: Option<String>,
}

/// Character-level equality of two environment descriptors.
pub open spec fn meta_equiv(a: EnvironmentMeta, b: EnvironmentMeta) -> bool {
    &&& a.backend == b.backend
    &&& a.exec_path@ == b.exec_path@
    &&& match (a.session_exec, b.session_exec) {
        (Some(x), Some(y)) => x@ == y@,
        (None, None) => true,
        _ => false,
    }
    &&& a.timeout_seconds == b.timeout_seconds
    &&& a.memory_mb == b.memory_mb
    &&& match (a.interpreter_type, b.interpreter_type) {
        (Some(x), Some(y)) => x@ == y@,
        (None, None) => true,
        _ => false,
    }
}

impl Clone for EnvironmentMeta {
    /// The clone holds the same descriptor, character for character.
    fn clone(&self) -> (r: Self)
        ensures
            meta_equiv(*self, r),
    {
        EnvironmentMeta {
            backend: self.backend,
            exec_path: self.exec_path.clone(),
            session_exec: match &self.session_exec {
                Some(p) => Some(p.clone()),
                None => None,
            },
            timeout_seconds: self.timeout_seconds,
            memory_mb: self.memory_mb,
            interpreter_type: match &self.interpreter_type {
                Some(t) => Some(t.clone()),
                None => None,
            },
        }
    }
}

/// One named environment in the table.
#[derive(Debug, Clone)]
pub struct EnvironmentEntry {
    /// The environment's name, the table's key.
    pub name: String,
    /// The environment's descriptor.
    pub meta: EnvironmentMeta,
}

/// Look a name up in a sequence of entries; a later entry overrides an
/// earlier one of the same name.
pub open spec fn spec_lookup(s: Seq<EnvironmentEntry>, name: Seq<char>) -> Option<EnvironmentMeta>
    decreases s.len(),
{
    if s.len() == 0 {
        None
    } else if s.last().name@ == name {
        Some(s.last().meta)
    } else {
        spec_lookup(s.drop_last(), name)
    }
}

/// The table of configured environments, keyed by name.
///
/// Later insertions override earlier ones of the same name; that is the merge
/// rule for scanned sandbox artifacts over declared metadata.
#[derive(Debug)]
pub struct EnvironmentTable {
    entries: Vec<EnvironmentEntry>,
}

impl EnvironmentTable {
    /// The entries, oldest first, as the lookup rule sees them.
    pub closed spec fn spec_entries(&self) -> Seq<EnvironmentEntry> {
        self.entries@
    }

    /// What the table maps `name` to.
    pub open spec fn spec_get(&self, name: Seq<char>) -> Option<EnvironmentMeta> {
        spec_lookup(self.spec_entries(), name)
    }

    /// An empty table.
    pub fn new() -> (r: Self)
        ensures
            r.spec_entries() == Seq::<EnvironmentEntry>::empty(),
    {
        EnvironmentTable { entries: Vec::new() }
    }

    /// Bind `name` to `meta`, overriding any earlier binding of that name.
    pub fn insert(&mut self, name: String, meta: EnvironmentMeta)
        ensures
            final(self).spec_entries() == old(self).spec_entries().push(
                EnvironmentEntry { name, meta },
            ),
            forall|k: Seq<char>|
                #![auto]
                final(self).spec_get(k) == if k == name@ {
                    Some(meta)
                } else {
                    old(self).spec_get(k)
                },
    {
        self.entries.push(EnvironmentEntry { name, meta });
        proof {
            assert(self.entries@.drop_last() =~= old(self).entries@);
        }
    }

    /// Whether the table has an environment of this name.
    pub fn contains(&self, name: &str) -> (r: bool)
        ensures
            r == (self.spec_get(name@) is Some),
    {
        let mut i: usize = self.entries.len();
        proof {
            assert(self.entries@.subrange(0, self.entries@.len() as int) =~= self.entries@);
        }
        while i > 0
            invariant
                i <= self.entries@.len(),
                spec_lookup(self.entries@, name@) == spec_lookup(
                    self.entries@.subrange(0, i as int),
                    name@,
                ),
            decreases i,
        {
            i = i - 1;
            if str_eq(self.entries[i].name.as_str(), name) {
                proof {
                    assert(self.entries@.subrange(0, i + 1).last() == self.entries@[i as int]);
                }
                return true;
            }
            proof {
                assert(self.entries@.subrange(0, i + 1).last() == self.entries@[i as int]);
                assert(self.entries@.subrange(0, i + 1).drop_last() =~= self.entries@.subrange(
                    0,
                    i as int,
                ));
            }
        }
        false
    }

    /// The descriptor bound to this name, if any.
    pub fn get(&self, name: &str) -> (r: Option<&EnvironmentMeta>)
        ensures
            match r {
                Some(m) => self.spec_get(name@) == Some(*m),
                None => self.spec_get(name@) is None,
            },
    {
        let mut i: usize = self.entries.len();
        proof {
            assert(self.entries@.subrange(0, self.entries@.len() as int) =~= self.entries@);
        }
        while i > 0
            invariant
                i <= self.entries@.len(),
                spec_lookup(self.entries@, name@) == spec_lookup(
                    self.entries@.subrange(0, i as int),
                    name@,
                ),
            decreases i,
        {
            i = i - 1;
            proof {
                assert(self.entries@.subrange(0, i + 1).last() == self.entries@[i as int]);
                assert(self.entries@.subrange(0, i + 1).drop_last() =~= self.entries@.subrange(
                    0,
                    i as int,
                ));
            }
            if str_eq(self.entries[i].name.as_str(), name) {
                return Some(&self.entries[i].meta);
            }
        }
        None
    }

    /// The configured names, each once, in first-seen order.
    pub fn names(&self) -> (r: Vec<String>)
        ensures
            forall|j: int| 0 <= j < r@.len() ==> self.spec_get(r@[j]@) is Some,
            forall|k: Seq<char>|
                self.spec_get(k) is Some ==> exists|j: int| 0 <= j < r@.len() && r@[j]@ == k,
            forall|i: int, j: int| 0 <= i < j < r@.len() ==> r@[i]@ != r@[j]@,
    {
        let mut out: Vec<String> = Vec::new();
        let mut i: usize = 0;
        while i < self.entries.len()
            invariant
                i <= self.entries@.len(),
                forall|j: int| 0 <= j < out@.len() ==> self.spec_get(out@[j]@) is Some,
                forall|k: Seq<char>|
                    spec_lookup(self.entries@.subrange(0, i as int), k) is Some ==> exists|j: int|
                        0 <= j < out@.len() && out@[j]@ == k,
                forall|l: int, j: int| 0 <= l < j < out@.len() ==> out@[l]@ != out@[j]@,
            decreases self.entries@.len() - i,
        {
            let ghost prior = out@;
            let name = &self.entries[i].name;
            let present = self.contains_in(&out, name.as_str());
            if !present {
                out.push(name.clone());
            }
            proof {
                let e_name = self.entries@[i as int].name@;
                assert(exists|j: int|
                    0 <= j < self.entries@.len() && self.entries@[j].name@ == e_name) by {
                    assert(self.entries@[i as int].name@ == e_name);
                }
                lemma_lookup_found(self.entries@, e_name);
                assert(exists|j: int| 0 <= j < out@.len() && out@[j]@ == e_name) by {
                    if present {
                        let j = choose|j: int| 0 <= j < prior.len() && prior[j]@ == e_name;
                        assert(out@[j]@ == e_name);
                    } else {
                        assert(out@[out@.len() - 1]@ == e_name);
                    }
                }
                let step = self.entries@.subrange(0, i + 1);
                assert(step.last() == self.entries@[i as int]);
                assert(step.drop_last() =~= self.entries@.subrange(0, i as int));
                assert forall|k: Seq<char>| spec_lookup(step, k) is Some implies exists|j: int|
                    0 <= j < out@.len() && out@[j]@ == k by {
                    if k != e_name {
                        assert(spec_lookup(self.entries@.subrange(0, i as int), k) is Some);
                        let j = choose|j: int| 0 <= j < prior.len() && prior[j]@ == k;
                        assert(out@[j]@ == k);
                    }
                }
            }
            i += 1;
        }
        proof {
            assert(self.entries@.subrange(0, self.entries@.len() as int) =~= self.entries@);
        }
        out
    }

    /// Whether `name` already occurs in the list.
    fn contains_in(&self, list: &Vec<String>, name: &str) -> (r: bool)
        ensures
            r == (exists|j: int| 0 <= j < list@.len() && list@[j]@ == name@),
    {
        let mut i: usize = 0;
        while i < list.len()
            invariant
                i <= list@.len(),
                forall|j: int| 0 <= j < i ==> list@[j]@ != name@,
            decreases list@.len() - i,
        {
            if str_eq(list[i].as_str(), name) {
                return true;
            }
            i += 1;
        }
        false
    }
}

/// If some entry carries this name, the lookup finds a binding.
proof fn lemma_lookup_found(s: Seq<EnvironmentEntry>, name: Seq<char>)
    requires
        exists|j: int| 0 <= j < s.len() && s[j].name@ == name,
    ensures
        spec_lookup(s, name) is Some,
    decreases s.len(),
{
    if s.last().name@ != name {
        let j = choose|j: int| 0 <= j < s.len() && s[j].name@ == name;
        assert(s.drop_last()[j] == s[j]);
        lemma_lookup_found(s.drop_last(), name);
    }
}

/// Session persistence configuration as declared in the metadata document.
#[derive(Debug, Clone)]
pub struct SessionConfigToml {
    /// Idle timeout in seconds before a session is reaped.
    pub idle_timeout_seconds: u64,
    /// Maximum session lifetime in seconds, regardless of activity.
    pub max_lifetime_seconds: u64,
}

/// Project directory configuration. The project is always mounted read-only.
#[derive(Debug, Clone)]
pub struct ProjectConfig {
    /// Path of the project directory on the host.
    pub path: String,
    /// Mount point inside the sandbox.
    pub mount_point: String,
    /// Whether to use the project's own development shell.
    pub use_flake: bool,
    /// Environment variables to inherit from the host.
    pub inherit_env: InheritEnv,
}

/// Environment variables to inherit into the sandbox.
#[derive(Debug, Clone)]
pub struct InheritEnv {
    /// Names of the variables to pass through.
    pub vars: Vec<String>,
}

/// Metadata read from one sandbox artifact's metadata document.
#[derive(Debug, Clone)]
pub struct SandboxArtifactMeta {
    /// The environment name the artifact contributes.
    pub name: String,
    /// Interpreter tag of the artifact.
    pub interpreter_type: String,
    /// Maximum execution time in seconds.
    pub timeout_seconds: u64,
    /// Memory limit in megabytes.
    pub memory_mb: u64,
}

/// The environment descriptor a scanned sandbox artifact contributes: its
/// `bin/run` as the ephemeral wrapper, its `bin/session-run` (when present) as
/// the session wrapper, and the artifact's own interpreter tag and budgets.
pub fn artifact_environment(run_path: String, session_run_path: Option<String>, meta:
    &SandboxArtifactMeta) -> (r: EnvironmentMeta)
    ensures
        r.backend == BackendType::Jail,
        r.exec_path == run_path,
        r.session_exec == session_run_path,
        r.timeout_seconds == meta.timeout_seconds,
        r.memory_mb == meta.memory_mb,
        r.interpreter_type matches Some(t) && t@ == meta.interpreter_type@,
{
    EnvironmentMeta {
        backend: BackendType::Jail,
        exec_path: run_path,
        session_exec: session_run_path,
        timeout_seconds: meta.timeout_seconds,
        memory_mb: meta.memory_mb,
        interpreter_type: Some(meta.interpreter_type.clone()),
    }
}

/// Top-level configuration of the broker.
#[derive(Debug)]
pub struct Config {
    /// Available execution environments, keyed by name.
    pub environments: EnvironmentTable,
    /// Project configuration, if declared.
    pub project: Option<ProjectConfig>,
    /// Session persistence configuration, if declared.
    pub session: Option<SessionConfigToml>,
}

impl Config {
    /// Merge discovered sandbox environments into the configuration. A
    /// discovered environment overrides a declared one of the same name.
    pub fn merge_environments(&mut self, extra: EnvironmentTable)
        ensures
            forall|k: Seq<char>|
                #![auto]
                final(self).environments.spec_get(k) == match extra.spec_get(k) {
                    Some(m) => Some(m),
                    None => old(self).environments.spec_get(k),
                },
            final(self).project == old(self).project,
            final(self).session == old(self).session,
    {
        let mut extra = extra;
        let ghost orig: Seq<EnvironmentEntry> = extra.entries@;
        let n = extra.entries.len();
        let mut i: usize = 0;
        proof {
            assert(orig.subrange(0, 0) =~= Seq::<EnvironmentEntry>::empty());
            assert(extra.entries@ =~= orig.subrange(0, n as int));
        }
        while i < n
            invariant
                i <= n,
                n == orig.len(),
                extra.entries@ == orig.subrange(i as int, n as int),
                forall|k: Seq<char>|
                    #![auto]
                    self.environments.spec_get(k) == match spec_lookup(
                        orig.subrange(0, i as int),
                        k,
                    ) {
                        Some(m) => Some(m),
                        None => old(self).environments.spec_get(k),
                    },
                self.project == old(self).project,
                self.session == old(self).session,
            decreases n - i,
        {
            let e = extra.entries.remove(0);
            proof {
                assert(e == orig[i as int]);
                assert(extra.entries@ =~= orig.subrange(i + 1, n as int));
            }
            self.environments.insert(e.name, e.meta);
            proof {
                let step = orig.subrange(0, i + 1);
                assert(step.last() == orig[i as int]);
                assert(step.drop_last() =~= orig.subrange(0, i as int));
            }
            i += 1;
        }
        proof {
            assert(orig.subrange(0, n as int) =~= orig);
        }
    }

    /// What the project directory resolves to, given the host override (the
    /// `PROJECT_DIR` variable, if set, and whether it names a directory) and
    /// the host's current directory. The override wins when it is a
    /// directory; otherwise the declared path is used, made absolute against
    /// the current directory when it is relative.
    pub open spec fn spec_resolved_project_dir(
        &self,
        dir_override: Option<Seq<char>>,
        override_is_dir: bool,
        cwd: Seq<char>,
    ) -> Option<Seq<char>> {
        if dir_override is Some && override_is_dir {
            Some(dir_override->Some_0)
        } else {
            match self.project {
                Some(p) => if p.path@.len() > 0 && p.path@[0] == '/' {
                    Some(p.path@)
                } else {
                    Some(crate::text::spec_join_path(cwd, p.path@))
                },
                None => None,
            }
        }
    }

    /// Resolve the project directory to an absolute path.
    pub fn resolved_project_dir(&self, dir_override: Option<String>, override_is_dir: bool, cwd:
        &str) -> (r: Option<String>)
        ensures
            match r {
                Some(d) => self.spec_resolved_project_dir(
                    match dir_override {
                        Some(o) => Some(o@),
                        None => None,
                    },
                    override_is_dir,
                    cwd@,
                ) == Some(d@),
                None => self.spec_resolved_project_dir(
                    match dir_override {
                        Some(o) => Some(o@),
                        None => None,
                    },
                    override_is_dir,
                    cwd@,
                ) is None,
            },
    {
        if let Some(d) = dir_override {
            if override_is_dir {
                return Some(d);
            }
        }
        match &self.project {
            Some(p) => {
                if starts_with_slash(p.path.as_str()) {
                    Some(p.path.clone())
                } else {
                    Some(join_path(cwd, p.path.as_str()))
                }
            },
            None => None,
        }
    }

    /// What the mount point resolves to: the `PROJECT_MOUNT` override wins,
    /// then the declared mount point, then `/project`.
    pub open spec fn spec_project_mount(&self, mount_override: Option<Seq<char>>) -> Seq<char> {
        match mount_override {
            Some(m) => m,
            None => match self.project {
                Some(p) => p.mount_point@,
                None => "/project"@,
            },
        }
    }

    /// The project mount point inside the sandbox.
    pub fn project_mount(&self, mount_override: Option<String>) -> (r: String)
        ensures
            r@ == self.spec_project_mount(
                match mount_override {
                    Some(m) => Some(m@),
                    None => None,
                },
            ),
    {
        match mount_override {
            Some(m) => m,
            None => match &self.project {
                Some(p) => p.mount_point.clone(),
                None => default_mount_point(),
            },
        }
    }
}

} // verus!
