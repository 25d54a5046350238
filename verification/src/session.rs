//! Session lifecycle and multiplexing.
//!
//! A session is a named, persistent interpreter bound to one environment for
//! its whole life. The manager keeps the registry keyed by the client's
//! session id, decides creation and affinity, tracks use for the reaper's idle
//! and lifetime expiry, and hands removed sessions out exactly once for
//! teardown. Time enters as a monotonic tick count and the live transport is
//! named by a plain token; the clock, the child processes and the locks that
//! drive concurrent calls live outside the library.

use vstd::prelude::*;

verus! {

use crate::backend::ExecutionResult;
use crate::config::{EnvironmentMeta, SessionConfigToml};
use crate::protocol::AgentResponse;
use crate::text::str_eq;
use vstd::string::StringExecFns;

/// Parsed session configuration, every field in seconds.
#[derive(Debug, Clone, Copy, PartialEq, Eq, Structural)]
pub struct SessionConfig {
    /// How long a session can be idle before the reaper removes it.
    pub idle_timeout: u64,
    /// Maximum total lifetime of a session, regardless of activity.
    pub max_lifetime: u64,
    /// How long to wait for the agent's `Ready` message on startup.
    pub agent_ready_timeout: u64,
    /// Interval between reaper sweeps.
    pub reaper_interval: u64,
}

/// The configuration used when nothing overrides it: 300 s idle timeout,
/// 3600 s lifetime, 30 s ready timeout, 60 s reaper interval.
pub open spec fn spec_default_session_config() -> SessionConfig {
    SessionConfig { idle_timeout: 300, max_lifetime: 3600, agent_ready_timeout: 30, reaper_interval: 60 }
}

impl Default for SessionConfig {
    /// The default timeouts.
    fn default() -> (r: Self)
        ensures
            r == spec_default_session_config(),
    {
        SessionConfig { idle_timeout: 300, max_lifetime: 3600, agent_ready_timeout: 30, reaper_interval: 60 }
    }
}

impl SessionConfig {
    /// Create from declared configuration values; the timeouts that the
    /// declaration does not carry keep their defaults.
    pub fn from_toml(toml: &SessionConfigToml) -> (r: Self)
        ensures
            r == (SessionConfig {
                idle_timeout: toml.idle_timeout_seconds,
                max_lifetime: toml.max_lifetime_seconds,
                ..spec_default_session_config()
            }),
    {
        SessionConfig {
            idle_timeout: toml.idle_timeout_seconds,
            max_lifetime: toml.max_lifetime_seconds,
            agent_ready_timeout: 30,
            reaper_interval: 60,
        }
    }

    /// Create from host overrides (the values read from the environment
    /// variables, already parsed), falling back to the defaults.
    pub fn from_env(idle_override: Option<u64>, max_lifetime_override: Option<u64>) -> (r: Self)
        ensures
            r == (SessionConfig {
                idle_timeout: match idle_override {
                    Some(v) => v,
                    None => 300,
                },
                max_lifetime: match max_lifetime_override {
                    Some(v) => v,
                    None => 3600,
                },
                ..spec_default_session_config()
            }),
    {
        SessionConfig {
            idle_timeout: match idle_override {
                Some(v) => v,
                None => 300,
            },
            max_lifetime: match max_lifetime_override {
                Some(v) => v,
                None => 3600,
            },
            agent_ready_timeout: 30,
            reaper_interval: 60,
        }
    }
}

/// A persistent sandbox session.
///
/// Timestamps are monotonic ticks handed in by the caller; the transport
/// field is the token under which the owner of the child processes knows this
/// session's transport.
#[derive(Debug)]
pub struct Session {
    /// Client-provided session identifier.
    pub id: String,
    /// Environment this session is bound to, immutable for its lifetime.
    pub env_name: String,
    /// When this session was created.
    pub created_at: u64,
    /// Last time this session was used; advances monotonically.
    pub last_used: u64,
    /// Token naming the transport that owns this session's agent process.
    pub transport: u64,
}

/// Idle expiry: more than `timeout` ticks have passed since the last use.
pub open spec fn spec_idle_expired(s: Session, timeout: u64, now: u64) -> bool {
    now > s.last_used + timeout
}

/// Lifetime expiry: more than `max_lifetime` ticks have passed since creation.
pub open spec fn spec_lifetime_expired(s: Session, max_lifetime: u64, now: u64) -> bool {
    now > s.created_at + max_lifetime
}

/// A session expires when either deadline has passed.
pub open spec fn spec_expired(s: Session, config: SessionConfig, now: u64) -> bool {
    spec_idle_expired(s, config.idle_timeout, now) || spec_lifetime_expired(
        s,
        config.max_lifetime,
        now,
    )
}

impl Session {
    /// A fresh session, created and last used now.
    pub fn new(id: String, env_name: String, transport: u64, now: u64) -> (r: Self)
        ensures
            r == (Session { id, env_name, created_at: now, last_used: now, transport }),
    {
        Session { id, env_name, created_at: now, last_used: now, transport }
    }

    /// Record a use. `last_used` never moves backwards, so it stays monotonic
    /// even if the caller's clock readings race.
    pub fn touch(&mut self, now: u64)
        ensures
            final(self).last_used == if now > old(self).last_used {
                now
            } else {
                old(self).last_used
            },
            final(self).id == old(self).id,
            final(self).env_name == old(self).env_name,
            final(self).created_at == old(self).created_at,
            final(self).transport == old(self).transport,
    {
        if now > self.last_used {
            self.last_used = now;
        }
    }

    /// Whether this session has exceeded its idle timeout.
    pub fn is_idle_expired(&self, timeout: u64, now: u64) -> (r: bool)
        ensures
            r == spec_idle_expired(*self, timeout, now),
    {
        if now > timeout {
            now - timeout > self.last_used
        } else {
            false
        }
    }

    /// Whether this session has exceeded its maximum lifetime.
    pub fn is_lifetime_expired(&self, max_lifetime: u64, now: u64) -> (r: bool)
        ensures
            r == spec_lifetime_expired(*self, max_lifetime, now),
    {
        if now > max_lifetime {
            now - max_lifetime > self.created_at
        } else {
            false
        }
    }
}

/// Errors of the session execute path.
#[derive(Debug, Clone)]
pub enum SessionError {
    /// The session exists but is bound to another environment; the session is
    /// left untouched.
    AffinityMismatch { session_id: String, bound_env: String, requested_env: String },
    /// The environment has no session wrapper, so sessions are refused.
    NoSessionSupport { env_name: String },
    /// The agent answered an execute request with something other than a
    /// result or an error.
    UnexpectedResponse { response: AgentResponse },
}

/// What an execute call should do next, once the registry has been consulted.
#[derive(Debug)]
pub enum ExecuteStep {
    /// The session exists and is bound to this environment: forward the
    /// request through this transport.
    UseExisting { transport: u64 },
    /// No session of this id yet: spawn the session wrapper at this path,
    /// then insert the session that owns the new transport.
    SpawnNew { session_exec: String },
}

/// First index holding this session id, if any.
pub open spec fn spec_find(s: Seq<Session>, id: Seq<char>) -> Option<Session>
    decreases s.len(),
{
    if s.len() == 0 {
        None
    } else if s.first().id@ == id {
        Some(s.first())
    } else {
        spec_find(s.drop_first(), id)
    }
}

/// No two registered sessions share an id, and no session was last used
/// before it was created.
pub open spec fn spec_registry_wf(s: Seq<Session>) -> bool {
    &&& forall|i: int, j: int| 0 <= i < j < s.len() ==> s[i].id@ != s[j].id@
    &&& forall|i: int| 0 <= i < s.len() ==> #[trigger] s[i].last_used >= s[i].created_at
}

/// Manages the lifecycle of persistent sandbox sessions.
///
/// The manager is the sequential core: each operation is one step of the
/// broker's state. Callers serialize steps for one session id behind that
/// session's execute lock and may interleave steps of different ids freely.
pub struct SessionManager {
    sessions: Vec<Session>,
    config: SessionConfig,
}

impl SessionManager {
    /// The registered sessions, oldest first.
    pub closed spec fn spec_sessions(&self) -> Seq<Session> {
        self.sessions@
    }

    /// The manager's timeouts.
    pub closed spec fn spec_config(&self) -> SessionConfig {
        self.config
    }

    /// The registry's well-formedness; every operation preserves it.
    pub open spec fn wf(&self) -> bool {
        spec_registry_wf(self.spec_sessions())
    }

    /// A manager with no sessions.
    pub fn new(config: SessionConfig) -> (r: Self)
        ensures
            r.wf(),
            r.spec_sessions() == Seq::<Session>::empty(),
            r.spec_config() == config,
    {
        SessionManager { sessions: Vec::new(), config }
    }

    /// The manager's timeouts.
    pub fn config(&self) -> (r: SessionConfig)
        ensures
            r == self.spec_config(),
    {
        self.config
    }

    /// Index of the session with this id.
    fn find_index(&self, session_id: &str) -> (r: Option<usize>)
        ensures
            match r {
                Some(ix) => ix < self.spec_sessions().len() && self.spec_sessions()[ix as int].id@
                    == session_id@ && spec_find(self.spec_sessions(), session_id@) == Some(
                    self.spec_sessions()[ix as int],
                ),
                None => spec_find(self.spec_sessions(), session_id@) is None,
            },
    {
        let n = self.sessions.len();
        let mut i: usize = 0;
        proof {
            assert(self.sessions@.subrange(0, n as int) =~= self.sessions@);
        }
        while i < n
            invariant
                i <= n,
                n == self.sessions@.len(),
                spec_find(self.sessions@, session_id@) == spec_find(
                    self.sessions@.subrange(i as int, n as int),
                    session_id@,
                ),
            decreases n - i,
        {
            proof {
                let tail = self.sessions@.subrange(i as int, n as int);
                assert(tail.first() == self.sessions@[i as int]);
                assert(tail.drop_first() =~= self.sessions@.subrange(i + 1, n as int));
            }
            if str_eq(self.sessions[i].id.as_str(), session_id) {
                return Some(i);
            }
            i += 1;
        }
        None
    }

    /// Consult the registry for one execute call: use the existing session
    /// when the environment matches, refuse an affinity mismatch without
    /// touching anything, and otherwise ask for a spawn if and only if the
    /// environment declares a session wrapper.
    pub fn prepare_execute(&self, session_id: &str, env_name: &str, env_meta: &EnvironmentMeta)
        -> (r: Result<ExecuteStep, SessionError>)
        ensures
            match spec_find(self.spec_sessions(), session_id@) {
                Some(s) => if s.env_name@ == env_name@ {
                    r matches Ok(ExecuteStep::UseExisting { transport }) && transport == s.transport
                } else {
                    r matches Err(SessionError::AffinityMismatch {
                        session_id: sid,
                        bound_env,
                        requested_env,
                    }) && sid@ == session_id@ && bound_env@ == s.env_name@ && requested_env@
                        == env_name@
                },
                None => match env_meta.session_exec {
                    Some(p) => r matches Ok(ExecuteStep::SpawnNew { session_exec })
                        && session_exec@ == p@,
                    None => r matches Err(SessionError::NoSessionSupport { env_name: e }) && e@
                        == env_name@,
                },
            },
    {
        match self.find_index(session_id) {
            Some(ix) => {
                let s = &self.sessions[ix];
                if str_eq(s.env_name.as_str(), env_name) {
                    Ok(ExecuteStep::UseExisting { transport: s.transport })
                } else {
                    Err(SessionError::AffinityMismatch {
                        session_id: session_id.to_owned(),
                        bound_env: s.env_name.clone(),
                        requested_env: env_name.to_owned(),
                    })
                }
            },
            None => {
                match &env_meta.session_exec {
                    Some(p) => Ok(ExecuteStep::SpawnNew { session_exec: p.clone() }),
                    None => Err(SessionError::NoSessionSupport { env_name: env_name.to_owned() }),
                }
            },
        }
    }

    /// Register a freshly spawned session. The caller holds this id's execute
    /// lock and has just seen the id absent, so the insertion races with
    /// nothing.
    pub fn insert_session(&mut self, session_id: &str, env_name: &str, transport: u64, now: u64)
        requires
            old(self).wf(),
            spec_find(old(self).spec_sessions(), session_id@) is None,
        ensures
            final(self).wf(),
            final(self).spec_sessions().len() == old(self).spec_sessions().len() + 1,
            final(self).spec_sessions().drop_last() == old(self).spec_sessions(),
            final(self).spec_sessions().last() == (Session {
                id: final(self).spec_sessions().last().id,
                env_name: final(self).spec_sessions().last().env_name,
                created_at: now,
                last_used: now,
                transport,
            }),
            final(self).spec_sessions().last().id@ == session_id@,
            final(self).spec_sessions().last().env_name@ == env_name@,
            final(self).spec_config() == old(self).spec_config(),
    {
        proof {
            lemma_find_none(self.sessions@, session_id@);
        }
        let s = Session::new(session_id.to_owned(), env_name.to_owned(), transport, now);
        self.sessions.push(s);
        proof {
            assert(self.sessions@.drop_last() =~= old(self).sessions@);
        }
    }

    /// Record a use of this session, before its request is forwarded. Returns
    /// whether the session was found.
    pub fn touch_session(&mut self, session_id: &str, now: u64) -> (r: bool)
        requires
            old(self).wf(),
        ensures
            final(self).wf(),
            r == (spec_find(old(self).spec_sessions(), session_id@) is Some),
            final(self).spec_sessions().len() == old(self).spec_sessions().len(),
            forall|i: int|
                0 <= i < old(self).spec_sessions().len() ==> {
                    let s = old(self).spec_sessions()[i];
                    #[trigger] final(self).spec_sessions()[i] == if s.id@ == session_id@ {
                        Session {
                            last_used: if now > s.last_used {
                                now
                            } else {
                                s.last_used
                            },
                            ..s
                        }
                    } else {
                        s
                    }
                },
            final(self).spec_config() == old(self).spec_config(),
    {
        match self.find_index(session_id) {
            Some(ix) => {
                let mut s = self.sessions.remove(ix);
                s.touch(now);
                self.sessions.insert(ix, s);
                proof {
                    assert(forall|i: int|
                        0 <= i < old(self).sessions@.len() && i != ix ==> final(self).sessions@[i]
                            == old(self).sessions@[i]);
                    lemma_find_unique_index(old(self).sessions@, session_id@, ix as int);
                }
                true
            },
            None => {
                proof {
                    lemma_find_none(self.sessions@, session_id@);
                }
                false
            },
        }
    }
}

impl SessionManager {
    /// One reaper sweep: remove every expired session from the registry and
    /// hand the removed sessions back, each exactly once, for shutdown. What
    /// stays is exactly what had not expired, in its old order.
    pub fn cleanup_expired(&mut self, now: u64) -> (r: Vec<Session>)
        requires
            old(self).wf(),
        ensures
            final(self).wf(),
            final(self).spec_sessions() == old(self).spec_sessions().filter(
                (|s: Session| !spec_expired(s, old(self).spec_config(), now)),
            ),
            r@ == old(self).spec_sessions().filter(
                (|s: Session| spec_expired(s, old(self).spec_config(), now)),
            ),
            spec_registry_wf(r@),
            final(self).spec_config() == old(self).spec_config(),
    {
        let ghost orig = self.sessions@;
        let ghost keep_pred = (|s: Session| !spec_expired(s, old(self).spec_config(), now));
        let ghost drop_pred = (|s: Session| spec_expired(s, old(self).spec_config(), now));
        let config = self.config;
        let n = self.sessions.len();
        let mut kept: Vec<Session> = Vec::new();
        let mut removed: Vec<Session> = Vec::new();
        let mut i: usize = 0;
        proof {
            reveal(Seq::filter);
            assert(orig.subrange(0, 0) =~= Seq::<Session>::empty());
            assert(self.sessions@ =~= orig.subrange(0, n as int));
        }
        while i < n
            invariant
                i <= n,
                n == orig.len(),
                self.sessions@ == orig.subrange(i as int, n as int),
                kept@ == orig.subrange(0, i as int).filter(keep_pred),
                removed@ == orig.subrange(0, i as int).filter(drop_pred),
                config == old(self).spec_config(),
                self.config == old(self).spec_config(),
                keep_pred == (|s: Session| !spec_expired(s, old(self).spec_config(), now)),
                drop_pred == (|s: Session| spec_expired(s, old(self).spec_config(), now)),
            decreases n - i,
        {
            let s = self.sessions.remove(0);
            proof {
                assert(s == orig[i as int]);
                assert(self.sessions@ =~= orig.subrange(i + 1, n as int));
            }
            let expired = s.is_idle_expired(config.idle_timeout, now) || s.is_lifetime_expired(
                config.max_lifetime,
                now,
            );
            proof {
                reveal(Seq::filter);
                let step = orig.subrange(0, i + 1);
                assert(step.last() == orig[i as int]);
                assert(step.drop_last() =~= orig.subrange(0, i as int));
            }
            if expired {
                removed.push(s);
            } else {
                kept.push(s);
            }
            i += 1;
        }
        proof {
            assert(orig.subrange(0, n as int) =~= orig);
            lemma_filter_preserves_wf(orig, keep_pred);
            lemma_filter_preserves_wf(orig, drop_pred);
        }
        self.sessions = kept;
        removed
    }

    /// Bulk teardown: drain the whole registry and hand every session back,
    /// each exactly once, for shutdown.
    pub fn destroy_all(&mut self) -> (r: Vec<Session>)
        requires
            old(self).wf(),
        ensures
            final(self).wf(),
            final(self).spec_sessions() == Seq::<Session>::empty(),
            r@ == old(self).spec_sessions(),
            final(self).spec_config() == old(self).spec_config(),
    {
        let mut out: Vec<Session> = Vec::new();
        core::mem::swap(&mut out, &mut self.sessions);
        out
    }
}

/// The match on the agent's answer to an execute request: a result is
/// returned as it stands; an agent-side error becomes a result with exit code
/// 1 and the message on stderr; anything else is refused, and the session is
/// kept.
pub fn result_of_response(resp: AgentResponse) -> (r: Result<ExecutionResult, SessionError>)
    ensures
        match resp {
            AgentResponse::Result { id, stdout, stderr, exit_code } => r matches Ok(x)
                && x.exit_code == exit_code && x.stdout == stdout && x.stderr == stderr,
            AgentResponse::Error { message } => r matches Ok(x) && x.exit_code == 1 && x.stdout@
                == Seq::<char>::empty() && x.stderr == message,
            _ => r matches Err(SessionError::UnexpectedResponse { response }) && response == resp,
        },
{
    match resp {
        AgentResponse::Result { id: _, stdout, stderr, exit_code } => Ok(
            ExecutionResult { exit_code, stdout, stderr },
        ),
        AgentResponse::Error { message } => Ok(
            ExecutionResult { exit_code: 1, stdout: String::new(), stderr: message },
        ),
        other => Err(SessionError::UnexpectedResponse { response: other }),
    }
}

/// The interpreter the agent is asked for: the environment's explicit tag
/// when it has one, else the bundled presets by name (`python` to `python`,
/// `shell` to `bash`, `node` to `node`), else the name passed through.
pub open spec fn spec_interpreter(env_name: Seq<char>, meta: EnvironmentMeta) -> Seq<char> {
    match meta.interpreter_type {
        Some(t) => t@,
        None => if env_name == "python"@ {
            "python"@
        } else if env_name == "shell"@ {
            "bash"@
        } else if env_name == "node"@ {
            "node"@
        } else {
            env_name
        },
    }
}

/// Map an environment name to the interpreter name for the agent protocol.
pub fn env_to_interpreter(env_name: &str, env_meta: &EnvironmentMeta) -> (r: String)
    ensures
        r@ == spec_interpreter(env_name@, *env_meta),
{
    if let Some(t) = &env_meta.interpreter_type {
        return t.clone();
    }
    if str_eq(env_name, "python") {
        String::from_str("python")
    } else if str_eq(env_name, "shell") {
        String::from_str("bash")
    } else if str_eq(env_name, "node") {
        String::from_str("node")
    } else {
        env_name.to_owned()
    }
}

/// The idle rule of the reaper: a session last used within the idle timeout
/// of the collection instant, and still within its lifetime, has not expired,
/// so a sweep at that instant keeps it in the registry — it stands in what
/// `cleanup_expired` retains and not in what it removes.
pub proof fn lemma_reaper_spares_active(sessions: Seq<Session>, config: SessionConfig, now: u64, i:
    int)
    requires
        0 <= i < sessions.len(),
        now <= sessions[i].last_used + config.idle_timeout,
        now <= sessions[i].created_at + config.max_lifetime,
    ensures
        !spec_expired(sessions[i], config, now),
        sessions.filter((|s: Session| !spec_expired(s, config, now))).contains(sessions[i]),
{
    sessions.lemma_filter_contains((|s: Session| !spec_expired(s, config, now)), i);
}

/// A hit of the lookup is an entry of the registry carrying the id.
proof fn lemma_find_some(s: Seq<Session>, id: Seq<char>)
    requires
        spec_find(s, id) is Some,
    ensures
        s.contains(spec_find(s, id)->Some_0),
        spec_find(s, id)->Some_0.id@ == id,
    decreases s.len(),
{
    if s.first().id@ == id {
        assert(s[0] == s.first());
    } else {
        lemma_find_some(s.drop_first(), id);
        let x = spec_find(s.drop_first(), id)->Some_0;
        let j = choose|j: int| 0 <= j < s.drop_first().len() && s.drop_first()[j] == x;
        assert(s[j + 1] == x);
    }
}

/// A session that a sweep removes is really gone: after the sweep its id no
/// longer resolves in the registry, so shutdown is attempted on the one copy
/// the sweep handed out, and on nothing else.
pub proof fn lemma_removed_session_gone(
    sessions: Seq<Session>,
    config: SessionConfig,
    now: u64,
    i: int,
)
    requires
        spec_registry_wf(sessions),
        0 <= i < sessions.len(),
        spec_expired(sessions[i], config, now),
    ensures
        spec_find(
            sessions.filter((|s: Session| !spec_expired(s, config, now))),
            sessions[i].id@,
        ) is None,
{
    let keep_pred = (|s: Session| !spec_expired(s, config, now));
    let kept = sessions.filter(keep_pred);
    if spec_find(kept, sessions[i].id@) is Some {
        lemma_find_some(kept, sessions[i].id@);
        let x = spec_find(kept, sessions[i].id@)->Some_0;
        let k = choose|k: int| 0 <= k < kept.len() && kept[k] == x;
        sessions.lemma_filter_pred(keep_pred, k);
        lemma_filter_elements(sessions, keep_pred);
        let j = choose|j: int| 0 <= j < sessions.len() && sessions[j] == x;
        assert(sessions[j].id@ == sessions[i].id@);
        assert(j == i);
        assert(false);
    }
}

/// Every element of a filtered sequence occurs in the sequence itself.
proof fn lemma_filter_elements(s: Seq<Session>, pred: spec_fn(Session) -> bool)
    ensures
        forall|i: int| 0 <= i < s.filter(pred).len() ==> s.contains(#[trigger] s.filter(pred)[i]),
    decreases s.len(),
{
    reveal(Seq::filter);
    if s.len() > 0 {
        let d = s.drop_last();
        lemma_filter_elements(d, pred);
        assert forall|i: int| 0 <= i < s.filter(pred).len() implies s.contains(
            #[trigger] s.filter(pred)[i],
        ) by {
            if i < d.filter(pred).len() {
                assert(d.contains(d.filter(pred)[i]));
                let j = choose|j: int| 0 <= j < d.len() && d[j] == d.filter(pred)[i];
                assert(s[j] == d[j]);
            } else {
                assert(s.filter(pred)[i] == s.last());
                assert(s[s.len() - 1] == s.last());
            }
        }
    }
}

/// Filtering a well-formed registry leaves it well-formed: removal never
/// introduces a duplicate id.
proof fn lemma_filter_preserves_wf(s: Seq<Session>, pred: spec_fn(Session) -> bool)
    requires
        spec_registry_wf(s),
    ensures
        spec_registry_wf(s.filter(pred)),
    decreases s.len(),
{
    reveal(Seq::filter);
    if s.len() > 0 {
        let d = s.drop_last();
        assert(spec_registry_wf(d)) by {
            assert(forall|i: int| 0 <= i < d.len() ==> d[i] == s[i]);
        }
        lemma_filter_preserves_wf(d, pred);
        lemma_filter_elements(d, pred);
        if pred(s.last()) {
            let f = d.filter(pred).push(s.last());
            assert forall|i: int, j: int| 0 <= i < j < f.len() implies f[i].id@ != f[j].id@ by {
                if j == f.len() - 1 {
                    assert(d.contains(d.filter(pred)[i]));
                    let m = choose|m: int| 0 <= m < d.len() && d[m] == d.filter(pred)[i];
                    assert(s[m] == d[m]);
                    assert(s[m].id@ != s[s.len() - 1].id@);
                }
            }
            assert forall|i: int| 0 <= i < f.len() implies #[trigger] f[i].last_used
                >= f[i].created_at by {
                if i < f.len() - 1 {
                    assert(d.contains(d.filter(pred)[i]));
                    let m = choose|m: int| 0 <= m < d.len() && d[m] == d.filter(pred)[i];
                }
            }
        }
    }
}

/// When the lookup misses, no entry carries the id.
proof fn lemma_find_none(s: Seq<Session>, id: Seq<char>)
    requires
        spec_find(s, id) is None,
    ensures
        forall|i: int| 0 <= i < s.len() ==> s[i].id@ != id,
    decreases s.len(),
{
    if s.len() > 0 {
        lemma_find_none(s.drop_first(), id);
        assert(forall|i: int| 1 <= i < s.len() ==> s[i] == s.drop_first()[i - 1]);
    }
}

/// In a well-formed registry, an index holding the id is the only one, and
/// the lookup returns its session.
proof fn lemma_find_unique_index(s: Seq<Session>, id: Seq<char>, ix: int)
    requires
        spec_registry_wf(s),
        0 <= ix < s.len(),
        s[ix].id@ == id,
    ensures
        spec_find(s, id) == Some(s[ix]),
        forall|j: int| 0 <= j < s.len() && j != ix ==> s[j].id@ != id,
    decreases s.len(),
{
    if ix == 0 {
    } else {
        assert(s.drop_first()[ix - 1] == s[ix]);
        assert(spec_registry_wf(s.drop_first())) by {
            assert(forall|i: int, j: int|
                0 <= i < j < s.drop_first().len() ==> s.drop_first()[i] == s[i + 1]
                    && s.drop_first()[j] == s[j + 1]);
        }
        lemma_find_unique_index(s.drop_first(), id, ix - 1);
    }
}

} // verus!
