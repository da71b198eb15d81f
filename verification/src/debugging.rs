//! Debugging: configuration, sessions and the table that routes session
//! requests to their adapters, breakpoints, call stacks, variables and watch
//! expressions. The adapters that run the debugged programs are outside the
//! library; paths are strings, times are milliseconds since the Unix epoch,
//! durations are milliseconds.
use vstd::prelude::*;
use crate::cloud::{join_path, join_path_spec};
use crate::stamp::now_millis;
use crate::strmap::StrMap;
use crate::text::{concat2, owned, u64_to_string, decimal, views};

pub mod breakpoint;
pub mod callstack;
pub mod variables;
pub mod watch;
pub mod dap;

use crate::debugging::breakpoint::{Breakpoint, BreakpointManager};
use crate::debugging::callstack::{CallstackManager, StackFrame};
use crate::debugging::variables::{Variable, VariableScope, VariablesManager};
use crate::debugging::watch::{WatchExpression, WatchManager};

verus! {

/// Debugger error, with its message.
#[derive(Debug)]
pub struct DebugError(pub String);

/// Debugger configuration.
#[derive(Debug)]
pub struct DebuggerConfig {
    pub adapters_dir: String,
    pub log_dir: String,
    pub default_timeout_ms: u64,
    pub max_variables_depth: usize,
    pub max_children: usize,
    pub evaluate_timeout_ms: u64,
}

impl DebuggerConfig {
    /// The default configuration under a data directory (or "." without
    /// one): adapters in `parsec/debug/adapters`, logs in `parsec/debug/logs`,
    /// a 30 s timeout, 5 levels and 100 children of variables, a 5 s
    /// evaluation timeout.
    pub fn with_data_dir(data_dir: Option<&str>) -> (c: Self)
        ensures
            ({
                let base = join_path_spec(match data_dir {
                    Some(d) => d@,
                    None => "."@,
                }, "parsec/debug"@);
                &&& c.adapters_dir@ == join_path_spec(base, "adapters"@)
                &&& c.log_dir@ == join_path_spec(base, "logs"@)
            }),
            c.default_timeout_ms == 30000,
            c.max_variables_depth == 5,
            c.max_children == 100,
            c.evaluate_timeout_ms == 5000,
    {
        let base = match data_dir {
            Some(d) => join_path(d, "parsec/debug"),
            None => join_path(".", "parsec/debug"),
        };
        DebuggerConfig {
            adapters_dir: join_path(base.as_str(), "adapters"),
            log_dir: join_path(base.as_str(), "logs"),
            default_timeout_ms: 30000,
            max_variables_depth: 5,
            max_children: 100,
            evaluate_timeout_ms: 5000,
        }
    }
}

/// State of a debug session.
#[derive(Debug, Clone, Copy, PartialEq, Eq, Structural)]
pub enum DebugState {
    Initializing,
    Running,
    Paused,
    Stepping,
    Stopped,
    Terminated,
    Error,
}

/// A debug session.
#[derive(Debug)]
pub struct DebugSession {
    pub id: String,
    pub name: String,
    pub process_id: Option<u32>,
    pub adapter: String,
    pub state: DebugState,
    pub thread_id: Option<usize>,
    pub start_time: i64,
}

impl DebugSession {
    /// A copy of the session.
    pub fn duplicate(&self) -> (s: Self)
        ensures s == *self,
    {
        DebugSession {
            id: self.id.clone(),
            name: self.name.clone(),
            process_id: self.process_id,
            adapter: self.adapter.clone(),
            state: self.state,
            thread_id: self.thread_id,
            start_time: self.start_time,
        }
    }
}

/// How an adapter process is started.
pub struct AdapterConfig {
    pub command: String,
    pub args: Vec<String>,
    pub cwd: Option<String>,
    pub env: StrMap<String>,
}

/// A debug adapter, implemented by the users of the library for their
/// languages and runtimes.
pub trait DebugAdapter {
    fn name(&self) -> &str;

    fn languages(&self) -> Vec<String>;

    fn start(&self, config: AdapterConfig) -> Result<String, DebugError>;

    fn stop(&self, session_id: &str) -> Result<(), DebugError>;

    fn attach(&self, process_id: u32) -> Result<String, DebugError>;

    fn launch(&self, program: &str, args: Vec<String>) -> Result<String, DebugError>;

    fn pause(&self, session_id: &str) -> Result<(), DebugError>;

    fn resume(&self, session_id: &str) -> Result<(), DebugError>;

    fn step_over(&self, session_id: &str, thread_id: usize) -> Result<(), DebugError>;

    fn step_into(&self, session_id: &str, thread_id: usize) -> Result<(), DebugError>;

    fn step_out(&self, session_id: &str, thread_id: usize) -> Result<(), DebugError>;

    fn set_breakpoint(&self, session_id: &str, bp: Breakpoint) -> Result<(), DebugError>;

    fn remove_breakpoint(&self, session_id: &str, bp_id: usize) -> Result<(), DebugError>;

    fn get_breakpoints(&self, session_id: &str) -> Result<Vec<Breakpoint>, DebugError>;

    fn get_stack_trace(&self, session_id: &str, thread_id: usize) -> Result<Vec<StackFrame>, DebugError>;

    fn get_scopes(&self, session_id: &str, frame_id: usize) -> Result<Vec<VariableScope>, DebugError>;

    fn get_variables(&self, session_id: &str, var_ref: usize) -> Result<Vec<Variable>, DebugError>;

    fn evaluate(&self, session_id: &str, expression: &str, frame_id: Option<usize>) -> Result<Variable, DebugError>;

    fn terminate(&self, session_id: &str) -> Result<(), DebugError>;

    fn disconnect(&self, session_id: &str) -> Result<(), DebugError>;
}

/// The debugger's sessions by id and the languages of its adapters by adapter
/// name. The adapters themselves sit beside it, under the same names.
pub struct DebuggerManager {
    sessions: StrMap<DebugSession>,
    adapters: StrMap<Vec<String>>,
    breakpoint_manager: BreakpointManager,
    callstack_manager: CallstackManager,
    variables_manager: VariablesManager,
    watch_manager: WatchManager,
    config: DebuggerConfig,
}

/// The languages of each adapter, as views.
pub open spec fn adapter_langs(m: Map<Seq<char>, Vec<String>>) -> Map<Seq<char>, Seq<Seq<char>>> {
    m.map_values(|l: Vec<String>| views(l@))
}

/// The name of a launched session.
pub open spec fn launch_name(program: Seq<char>) -> Seq<char> {
    "Debug "@ + program
}

/// The name of an attached session.
pub open spec fn attach_name(process_id: u32) -> Seq<char> {
    "Attach to PID "@ + decimal(process_id as nat)
}

impl DebuggerManager {
    pub closed spec fn wf(&self) -> bool {
        &&& self.sessions.wf() && self.adapters.wf()
        &&& self.breakpoint_manager.wf() && self.callstack_manager.wf()
        &&& self.variables_manager.wf() && self.watch_manager.wf()
    }

    pub closed spec fn bp_state(&self) -> BreakpointManager {
        self.breakpoint_manager
    }

    pub closed spec fn stack_state(&self) -> CallstackManager {
        self.callstack_manager
    }

    pub closed spec fn vars_state(&self) -> VariablesManager {
        self.variables_manager
    }

    pub closed spec fn watch_state(&self) -> WatchManager {
        self.watch_manager
    }

    pub closed spec fn config_spec(&self) -> DebuggerConfig {
        self.config
    }

    /// Why a request on a session is refused before it reaches an adapter: an
    /// unknown session, or a session whose adapter is not registered.
    pub open spec fn route_refusal(&self, session_id: Seq<char>) -> Option<Seq<char>> {
        if !self.sessions_view().contains_key(session_id) {
            Some("Session not found"@)
        } else if !self.adapters_view().contains_key(self.sessions_view()[session_id].adapter@) {
            Some("Adapter not found"@)
        } else {
            None
        }
    }

    /// The sessions by id.
    pub closed spec fn sessions_view(&self) -> Map<Seq<char>, DebugSession> {
        self.sessions@
    }

    /// The sessions in the order started.
    pub closed spec fn session_seq(&self) -> Seq<DebugSession> {
        self.sessions.value_seq()
    }

    /// The languages of each adapter, by adapter name.
    pub closed spec fn adapters_view(&self) -> Map<Seq<char>, Seq<Seq<char>>> {
        adapter_langs(self.adapters@)
    }

    /// A debugger with the given configuration, no sessions, no adapters,
    /// and empty breakpoint, call-stack, variables and watch managers.
    pub fn new(config: DebuggerConfig) -> (r: Result<Self, DebugError>)
        ensures
            r matches Ok(t) && t.wf()
                && t.sessions_view() == Map::<Seq<char>, DebugSession>::empty()
                && t.adapters_view() == Map::<Seq<char>, Seq<Seq<char>>>::empty()
                && t.bp_state().bp_view() == Map::<usize, Breakpoint>::empty()
                && t.stack_state().frames_view() == Map::<usize, Seq<StackFrame>>::empty()
                && t.vars_state().variables_view() == Map::<usize, Seq<Variable>>::empty()
                && t.vars_state().scopes_view() == Map::<usize, Seq<VariableScope>>::empty()
                && t.watch_state().watches_view() == Map::<usize, WatchExpression>::empty()
                && t.config_spec() == config,
    {
        let breakpoint_manager = BreakpointManager::new()?;
        let callstack_manager = CallstackManager::new()?;
        let variables_manager = VariablesManager::new()?;
        let watch_manager = WatchManager::new()?;
        let t = DebuggerManager {
            sessions: StrMap::new(),
            adapters: StrMap::new(),
            breakpoint_manager,
            callstack_manager,
            variables_manager,
            watch_manager,
            config,
        };
        assert(t.adapters_view() =~= Map::<Seq<char>, Seq<Seq<char>>>::empty());
        Ok(t)
    }

    /// The breakpoint manager.
    pub fn breakpoints(&mut self) -> (r: &mut BreakpointManager)
        ensures
            *r == old(self).bp_state(),
            final(self).bp_state() == *final(r),
            final(self).sessions_view() == old(self).sessions_view(),
            final(self).adapters_view() == old(self).adapters_view(),
            final(self).stack_state() == old(self).stack_state(),
            final(self).vars_state() == old(self).vars_state(),
            final(self).watch_state() == old(self).watch_state(),
            old(self).wf() && final(r).wf() ==> final(self).wf(),
    {
        &mut self.breakpoint_manager
    }

    /// The call-stack manager.
    pub fn callstack(&mut self) -> (r: &mut CallstackManager)
        ensures
            *r == old(self).stack_state(),
            final(self).stack_state() == *final(r),
            final(self).sessions_view() == old(self).sessions_view(),
            final(self).adapters_view() == old(self).adapters_view(),
            final(self).bp_state() == old(self).bp_state(),
            final(self).vars_state() == old(self).vars_state(),
            final(self).watch_state() == old(self).watch_state(),
            old(self).wf() && final(r).wf() ==> final(self).wf(),
    {
        &mut self.callstack_manager
    }

    /// The variables manager.
    pub fn variables(&mut self) -> (r: &mut VariablesManager)
        ensures
            *r == old(self).vars_state(),
            final(self).vars_state() == *final(r),
            final(self).sessions_view() == old(self).sessions_view(),
            final(self).adapters_view() == old(self).adapters_view(),
            final(self).bp_state() == old(self).bp_state(),
            final(self).stack_state() == old(self).stack_state(),
            final(self).watch_state() == old(self).watch_state(),
            old(self).wf() && final(r).wf() ==> final(self).wf(),
    {
        &mut self.variables_manager
    }

    /// The watch manager.
    pub fn watch(&mut self) -> (r: &mut WatchManager)
        ensures
            *r == old(self).watch_state(),
            final(self).watch_state() == *final(r),
            final(self).sessions_view() == old(self).sessions_view(),
            final(self).adapters_view() == old(self).adapters_view(),
            final(self).bp_state() == old(self).bp_state(),
            final(self).stack_state() == old(self).stack_state(),
            final(self).vars_state() == old(self).vars_state(),
            old(self).wf() && final(r).wf() ==> final(self).wf(),
    {
        &mut self.watch_manager
    }

    /// Register an adapter's languages under its name, replacing one of that name.
    pub fn register_adapter(&mut self, name: &str, languages: Vec<String>)
        requires old(self).wf(),
        ensures
            final(self).wf(),
            final(self).adapters_view() == old(self).adapters_view().insert(name@, views(languages@)),
            final(self).sessions_view() == old(self).sessions_view(),
    {
        let ghost before = self.adapters@;
        let ghost l = languages@;
        self.adapters.insert(owned(name), languages);
        proof {
            assert(adapter_langs(self.adapters@) =~= adapter_langs(before).insert(name@, views(l)));
        }
    }

    /// An adapter for a language: one whose languages include it, if any.
    pub fn get_adapter_for_language(&self, language: &str) -> (r: Option<String>)
        requires self.wf(),
        ensures
            match r {
                Some(a) => self.adapters_view().contains_key(a@) && self.adapters_view()[a@].contains(language@),
                None => forall|a: Seq<char>| #[trigger] self.adapters_view().contains_key(a)
                    ==> !self.adapters_view()[a].contains(language@),
            },
    {
        let n = self.adapters.len();
        let mut i: usize = 0;
        proof {
            self.adapters.lemma_key_seq();
        }
        while i < n
            invariant
                self.wf(),
                n == self.adapters.entries().len(),
                i <= n,
                self.adapters.key_seq().len() == n,
                forall|k: Seq<char>| #[trigger] self.adapters@.contains_key(k) <==> self.adapters.key_seq().contains(k),
                forall|j: int| 0 <= j < n ==> #[trigger] self.adapters@[self.adapters.key_seq()[j]] == self.adapters.value_seq()[j],
                forall|j: int| 0 <= j < i ==> !views(#[trigger] self.adapters.value_seq()[j]@).contains(language@),
            decreases n - i,
        {
            let (name, langs) = self.adapters.entry_at(i);
            let mut t: usize = 0;
            let mut found = false;
            while t < langs.len()
                invariant
                    t <= langs@.len(),
                    !found ==> forall|u: int| 0 <= u < t ==> langs@[u]@ != language@,
                    found ==> views(langs@).contains(language@),
                decreases langs.len() - t,
            {
                if crate::text::str_eq(langs[t].as_str(), language) {
                    found = true;
                    assert(views(langs@)[t as int] == language@);
                }
                t = t + 1;
            }
            if found {
                proof {
                    assert(self.adapters.key_seq()[i as int] == name@);
                    assert(self.adapters.value_seq()[i as int] == *langs);
                }
                return Some(name.clone());
            }
            proof {
                assert(self.adapters.value_seq()[i as int] == *langs);
                assert forall|u: int| 0 <= u < views(langs@).len() implies views(langs@)[u] != language@ by {
                    assert(views(langs@)[u] == langs@[u]@);
                }
            }
            i = i + 1;
        }
        proof {
            assert forall|a: Seq<char>| #[trigger] self.adapters_view().contains_key(a)
                implies !self.adapters_view()[a].contains(language@) by {
                assert(self.adapters.key_seq().contains(a));
                let j = choose|j: int| 0 <= j < n && self.adapters.key_seq()[j] == a;
                assert(self.adapters@[a] == self.adapters.value_seq()[j]);
            }
        }
        None
    }

    /// Whether an adapter is registered under `name`; an unknown one is refused.
    pub fn check_adapter(&self, name: &str) -> (r: Result<(), DebugError>)
        requires self.wf(),
        ensures
            self.adapters_view().contains_key(name@) ==> r is Ok,
            !self.adapters_view().contains_key(name@) ==> (r matches Err(DebugError(m))
                && m@ == "Adapter not found: "@ + name@),
    {
        if self.adapters.contains_key(name) {
            Ok(())
        } else {
            Err(DebugError(concat2("Adapter not found: ", name)))
        }
    }

    fn record(&mut self, session: DebugSession) -> (s: DebugSession)
        requires old(self).wf(),
        ensures
            final(self).wf(),
            final(self).sessions_view() == old(self).sessions_view().insert(session.id@, session),
            final(self).adapters_view() == old(self).adapters_view(),
            s == session,
    {
        let copy = session.duplicate();
        let id = session.id.clone();
        self.sessions.insert(id, session);
        copy
    }

    /// Keep the session an adapter launched for `program`: named "Debug
    /// <program>", initializing, with no process or thread yet.
    pub fn record_launch(&mut self, session_id: String, program: &str, adapter: &str, start_time: i64)
        -> (s: DebugSession)
        requires old(self).wf(),
        ensures
            final(self).wf(),
            s.id == session_id && s.name@ == launch_name(program@) && s.process_id is None,
            s.adapter@ == adapter@ && s.state == DebugState::Initializing && s.thread_id is None,
            s.start_time == start_time,
            final(self).sessions_view() == old(self).sessions_view().insert(session_id@, s),
            final(self).adapters_view() == old(self).adapters_view(),
    {
        let session = DebugSession {
            id: session_id,
            name: concat2("Debug ", program),
            process_id: None,
            adapter: owned(adapter),
            state: DebugState::Initializing,
            thread_id: None,
            start_time,
        };
        self.record(session)
    }

    /// Keep the session an adapter attached to a process: named "Attach to
    /// PID <pid>", initializing, with no thread yet.
    pub fn record_attach(&mut self, session_id: String, process_id: u32, adapter: &str, start_time: i64)
        -> (s: DebugSession)
        requires old(self).wf(),
        ensures
            final(self).wf(),
            s.id == session_id && s.name@ == attach_name(process_id) && s.process_id == Some(process_id),
            s.adapter@ == adapter@ && s.state == DebugState::Initializing && s.thread_id is None,
            s.start_time == start_time,
            final(self).sessions_view() == old(self).sessions_view().insert(session_id@, s),
            final(self).adapters_view() == old(self).adapters_view(),
    {
        let pid = u64_to_string(process_id as u64);
        let session = DebugSession {
            id: session_id,
            name: concat2("Attach to PID ", pid.as_str()),
            process_id: Some(process_id),
            adapter: owned(adapter),
            state: DebugState::Initializing,
            thread_id: None,
            start_time,
        };
        self.record(session)
    }

    /// Launch `program` with the adapter registered under `adapter_name`
    /// (`adapter` is that adapter): an unknown name is refused; otherwise the
    /// session the adapter starts, under the id the adapter gives, is kept (see
    /// `record_launch`), stamped with the current time; the adapter is handed
    /// `program` and `args` as they are, and its own refusal is passed on.
    pub fn launch<A: DebugAdapter>(&mut self, adapter_name: &str, adapter: &A, program: &str, args: Vec<String>)
        -> (r: Result<DebugSession, DebugError>)
        requires old(self).wf(),
        ensures
            final(self).wf(),
            final(self).adapters_view() == old(self).adapters_view(),
            !old(self).adapters_view().contains_key(adapter_name@) ==> (r matches Err(DebugError(m))
                && m@ == "Adapter not found: "@ + adapter_name@),
            r is Err ==> final(self).sessions_view() == old(self).sessions_view(),
            r matches Ok(s) ==> s.name@ == launch_name(program@) && s.process_id is None
                && s.adapter@ == adapter_name@ && s.state == DebugState::Initializing && s.thread_id is None
                && final(self).sessions_view() == old(self).sessions_view().insert(s.id@, s),
            old(self).adapters_view().contains_key(adapter_name@) ==> match r {
                Ok(s) => call_ensures(A::launch, (adapter, program, args), Ok::<String, DebugError>(s.id)),
                Err(e) => call_ensures(A::launch, (adapter, program, args), Err::<String, DebugError>(e)),
            },
    {
        match self.check_adapter(adapter_name) {
            Ok(()) => {},
            Err(e) => {
                return Err(e);
            },
        }
        let answer = adapter.launch(program, args);
        match answer {
            Ok(session_id) => {
                let now = now_millis();
                Ok(self.record_launch(session_id, program, adapter_name, now))
            },
            Err(e) => Err(e),
        }
    }

    /// Attach the adapter registered under `adapter_name` (`adapter` is that
    /// adapter) to a process: an unknown name is refused; otherwise the session
    /// the adapter starts, under the id the adapter gives, is kept (see
    /// `record_attach`), stamped with the current time; the adapter is handed
    /// `process_id`, and its own refusal is passed on.
    pub fn attach<A: DebugAdapter>(&mut self, adapter_name: &str, adapter: &A, process_id: u32)
        -> (r: Result<DebugSession, DebugError>)
        requires old(self).wf(),
        ensures
            final(self).wf(),
            final(self).adapters_view() == old(self).adapters_view(),
            !old(self).adapters_view().contains_key(adapter_name@) ==> (r matches Err(DebugError(m))
                && m@ == "Adapter not found: "@ + adapter_name@),
            r is Err ==> final(self).sessions_view() == old(self).sessions_view(),
            r matches Ok(s) ==> s.name@ == attach_name(process_id) && s.process_id == Some(process_id)
                && s.adapter@ == adapter_name@ && s.state == DebugState::Initializing && s.thread_id is None
                && final(self).sessions_view() == old(self).sessions_view().insert(s.id@, s),
            old(self).adapters_view().contains_key(adapter_name@) ==> match r {
                Ok(s) => call_ensures(A::attach, (adapter, process_id), Ok::<String, DebugError>(s.id)),
                Err(e) => call_ensures(A::attach, (adapter, process_id), Err::<String, DebugError>(e)),
            },
    {
        match self.check_adapter(adapter_name) {
            Ok(()) => {},
            Err(e) => {
                return Err(e);
            },
        }
        let answer = adapter.attach(process_id);
        match answer {
            Ok(session_id) => {
                let now = now_millis();
                Ok(self.record_attach(session_id, process_id, adapter_name, now))
            },
            Err(e) => Err(e),
        }
    }

    /// The session under `id`.
    pub fn get_session(&self, id: &str) -> (r: Option<DebugSession>)
        requires self.wf(),
        ensures
            match r {
                Some(s) => self.sessions_view().contains_key(id@) && s == self.sessions_view()[id@],
                None => !self.sessions_view().contains_key(id@),
            },
    {
        match self.sessions.get(id) {
            Some(s) => Some(s.duplicate()),
            None => None,
        }
    }

    /// The sessions, in the order started.
    pub fn list_sessions(&self) -> (r: Vec<DebugSession>)
        ensures r@ == self.session_seq(),
    {
        let vals = self.sessions.values();
        let mut r: Vec<DebugSession> = Vec::new();
        let mut i: usize = 0;
        while i < vals.len()
            invariant
                i <= vals@.len(),
                vals@.len() == self.sessions.entries().len(),
                forall|j: int| 0 <= j < vals@.len() ==> *#[trigger] vals@[j] == self.sessions.value_seq()[j],
                r@ == self.sessions.value_seq().subrange(0, i as int),
            decreases vals.len() - i,
        {
            r.push(vals[i].duplicate());
            i = i + 1;
            assert(r@ =~= self.sessions.value_seq().subrange(0, i as int));
        }
        assert(r@ =~= self.session_seq());
        r
    }

    /// End the session under `id`: it is forgotten, and the name of its
    /// adapter is given back when that adapter is registered, to be stopped.
    pub fn stop_session(&mut self, id: &str) -> (r: Result<Option<String>, DebugError>)
        requires old(self).wf(),
        ensures
            final(self).wf(),
            final(self).sessions_view() == old(self).sessions_view().remove(id@),
            final(self).adapters_view() == old(self).adapters_view(),
            match r {
                Ok(Some(a)) => old(self).sessions_view().contains_key(id@)
                    && a@ == old(self).sessions_view()[id@].adapter@ && old(self).adapters_view().contains_key(a@),
                Ok(None) => !old(self).sessions_view().contains_key(id@)
                    || !old(self).adapters_view().contains_key(old(self).sessions_view()[id@].adapter@),
                Err(_) => false,
            },
    {
        match self.sessions.remove(id) {
            Some(s) => {
                if self.adapters.contains_key(s.adapter.as_str()) {
                    Ok(Some(s.adapter))
                } else {
                    Ok(None)
                }
            },
            None => Ok(None),
        }
    }

    /// Pause execution in a session, through `adapter`, the adapter registered under the
    /// session's adapter name, handed the arguments as they are: refused,
    /// without asking it, when `route` refuses the session; otherwise the
    /// adapter's own answer.
    pub fn pause<A: DebugAdapter>(&self, session_id: &str, adapter: &A) -> (r: Result<(), DebugError>)
        requires self.wf(),
        ensures
            self.route_refusal(session_id@) matches Some(m) ==> (r matches Err(DebugError(e)) && e@ == m),
            self.route_refusal(session_id@) is None ==> call_ensures(A::pause, (adapter, session_id), r),
    {
        match self.route(session_id) {
            Ok(_) => {},
            Err(e) => {
                return Err(e);
            },
        }
        adapter.pause(session_id)
    }

    /// Resume execution in a session, through `adapter`, the adapter registered under the
    /// session's adapter name, handed the arguments as they are: refused,
    /// without asking it, when `route` refuses the session; otherwise the
    /// adapter's own answer.
    pub fn resume<A: DebugAdapter>(&self, session_id: &str, adapter: &A) -> (r: Result<(), DebugError>)
        requires self.wf(),
        ensures
            self.route_refusal(session_id@) matches Some(m) ==> (r matches Err(DebugError(e)) && e@ == m),
            self.route_refusal(session_id@) is None ==> call_ensures(A::resume, (adapter, session_id), r),
    {
        match self.route(session_id) {
            Ok(_) => {},
            Err(e) => {
                return Err(e);
            },
        }
        adapter.resume(session_id)
    }

    /// Step over in a session, through `adapter`, the adapter registered under the
    /// session's adapter name, handed the arguments as they are: refused,
    /// without asking it, when `route` refuses the session; otherwise the
    /// adapter's own answer.
    pub fn step_over<A: DebugAdapter>(&self, session_id: &str, thread_id: usize, adapter: &A) -> (r: Result<(), DebugError>)
        requires self.wf(),
        ensures
            self.route_refusal(session_id@) matches Some(m) ==> (r matches Err(DebugError(e)) && e@ == m),
            self.route_refusal(session_id@) is None ==> call_ensures(A::step_over, (adapter, session_id, thread_id), r),
    {
        match self.route(session_id) {
            Ok(_) => {},
            Err(e) => {
                return Err(e);
            },
        }
        adapter.step_over(session_id, thread_id)
    }

    /// Step into in a session, through `adapter`, the adapter registered under the
    /// session's adapter name, handed the arguments as they are: refused,
    /// without asking it, when `route` refuses the session; otherwise the
    /// adapter's own answer.
    pub fn step_into<A: DebugAdapter>(&self, session_id: &str, thread_id: usize, adapter: &A) -> (r: Result<(), DebugError>)
        requires self.wf(),
        ensures
            self.route_refusal(session_id@) matches Some(m) ==> (r matches Err(DebugError(e)) && e@ == m),
            self.route_refusal(session_id@) is None ==> call_ensures(A::step_into, (adapter, session_id, thread_id), r),
    {
        match self.route(session_id) {
            Ok(_) => {},
            Err(e) => {
                return Err(e);
            },
        }
        adapter.step_into(session_id, thread_id)
    }

    /// Step out in a session, through `adapter`, the adapter registered under the
    /// session's adapter name, handed the arguments as they are: refused,
    /// without asking it, when `route` refuses the session; otherwise the
    /// adapter's own answer.
    pub fn step_out<A: DebugAdapter>(&self, session_id: &str, thread_id: usize, adapter: &A) -> (r: Result<(), DebugError>)
        requires self.wf(),
        ensures
            self.route_refusal(session_id@) matches Some(m) ==> (r matches Err(DebugError(e)) && e@ == m),
            self.route_refusal(session_id@) is None ==> call_ensures(A::step_out, (adapter, session_id, thread_id), r),
    {
        match self.route(session_id) {
            Ok(_) => {},
            Err(e) => {
                return Err(e);
            },
        }
        adapter.step_out(session_id, thread_id)
    }

    /// Set a breakpoint in a session, through `adapter`, the adapter registered under the
    /// session's adapter name, handed the arguments as they are: refused,
    /// without asking it, when `route` refuses the session; otherwise the
    /// adapter's own answer.
    pub fn set_breakpoint<A: DebugAdapter>(&self, session_id: &str, bp: Breakpoint, adapter: &A) -> (r: Result<(), DebugError>)
        requires self.wf(),
        ensures
            self.route_refusal(session_id@) matches Some(m) ==> (r matches Err(DebugError(e)) && e@ == m),
            self.route_refusal(session_id@) is None ==> call_ensures(A::set_breakpoint, (adapter, session_id, bp), r),
    {
        match self.route(session_id) {
            Ok(_) => {},
            Err(e) => {
                return Err(e);
            },
        }
        adapter.set_breakpoint(session_id, bp)
    }

    /// Remove a breakpoint in a session, through `adapter`, the adapter registered under the
    /// session's adapter name, handed the arguments as they are: refused,
    /// without asking it, when `route` refuses the session; otherwise the
    /// adapter's own answer.
    pub fn remove_breakpoint<A: DebugAdapter>(&self, session_id: &str, bp_id: usize, adapter: &A) -> (r: Result<(), DebugError>)
        requires self.wf(),
        ensures
            self.route_refusal(session_id@) matches Some(m) ==> (r matches Err(DebugError(e)) && e@ == m),
            self.route_refusal(session_id@) is None ==> call_ensures(A::remove_breakpoint, (adapter, session_id, bp_id), r),
    {
        match self.route(session_id) {
            Ok(_) => {},
            Err(e) => {
                return Err(e);
            },
        }
        adapter.remove_breakpoint(session_id, bp_id)
    }

    /// The stack trace of a thread in a session, through `adapter`, the adapter registered under the
    /// session's adapter name, handed the arguments as they are: refused,
    /// without asking it, when `route` refuses the session; otherwise the
    /// adapter's own answer.
    pub fn get_stack_trace<A: DebugAdapter>(&self, session_id: &str, thread_id: usize, adapter: &A) -> (r: Result<Vec<StackFrame>, DebugError>)
        requires self.wf(),
        ensures
            self.route_refusal(session_id@) matches Some(m) ==> (r matches Err(DebugError(e)) && e@ == m),
            self.route_refusal(session_id@) is None ==> call_ensures(A::get_stack_trace, (adapter, session_id, thread_id), r),
    {
        match self.route(session_id) {
            Ok(_) => {},
            Err(e) => {
                return Err(e);
            },
        }
        adapter.get_stack_trace(session_id, thread_id)
    }

    /// The scopes of a frame in a session, through `adapter`, the adapter registered under the
    /// session's adapter name, handed the arguments as they are: refused,
    /// without asking it, when `route` refuses the session; otherwise the
    /// adapter's own answer.
    pub fn get_scopes<A: DebugAdapter>(&self, session_id: &str, frame_id: usize, adapter: &A) -> (r: Result<Vec<VariableScope>, DebugError>)
        requires self.wf(),
        ensures
            self.route_refusal(session_id@) matches Some(m) ==> (r matches Err(DebugError(e)) && e@ == m),
            self.route_refusal(session_id@) is None ==> call_ensures(A::get_scopes, (adapter, session_id, frame_id), r),
    {
        match self.route(session_id) {
            Ok(_) => {},
            Err(e) => {
                return Err(e);
            },
        }
        adapter.get_scopes(session_id, frame_id)
    }

    /// The variables of a reference in a session, through `adapter`, the adapter registered under the
    /// session's adapter name, handed the arguments as they are: refused,
    /// without asking it, when `route` refuses the session; otherwise the
    /// adapter's own answer.
    pub fn get_variables<A: DebugAdapter>(&self, session_id: &str, var_ref: usize, adapter: &A) -> (r: Result<Vec<Variable>, DebugError>)
        requires self.wf(),
        ensures
            self.route_refusal(session_id@) matches Some(m) ==> (r matches Err(DebugError(e)) && e@ == m),
            self.route_refusal(session_id@) is None ==> call_ensures(A::get_variables, (adapter, session_id, var_ref), r),
    {
        match self.route(session_id) {
            Ok(_) => {},
            Err(e) => {
                return Err(e);
            },
        }
        adapter.get_variables(session_id, var_ref)
    }

    /// Evaluate an expression in a session, through `adapter`, the adapter registered under the
    /// session's adapter name, handed the arguments as they are: refused,
    /// without asking it, when `route` refuses the session; otherwise the
    /// adapter's own answer.
    pub fn evaluate<A: DebugAdapter>(&self, session_id: &str, expression: &str, frame_id: Option<usize>, adapter: &A) -> (r: Result<Variable, DebugError>)
        requires self.wf(),
        ensures
            self.route_refusal(session_id@) matches Some(m) ==> (r matches Err(DebugError(e)) && e@ == m),
            self.route_refusal(session_id@) is None ==> call_ensures(A::evaluate, (adapter, session_id, expression, frame_id), r),
    {
        match self.route(session_id) {
            Ok(_) => {},
            Err(e) => {
                return Err(e);
            },
        }
        adapter.evaluate(session_id, expression, frame_id)
    }

    /// The adapter a request on a session goes to: an unknown session, and a
    /// session whose adapter is not registered, are refused.
    pub fn route(&self, session_id: &str) -> (r: Result<String, DebugError>)
        requires self.wf(),
        ensures
            !self.sessions_view().contains_key(session_id@) ==> (r matches Err(DebugError(m))
                && m@ == "Session not found"@),
            self.sessions_view().contains_key(session_id@) ==> ({
                let a = self.sessions_view()[session_id@].adapter@;
                if self.adapters_view().contains_key(a) {
                    r matches Ok(x) && x@ == a
                } else {
                    r matches Err(DebugError(m)) && m@ == "Adapter not found"@
                }
            }),
    {
        let session = match self.sessions.get(session_id) {
            Some(s) => s,
            None => {
                return Err(DebugError(owned("Session not found")));
            },
        };
        if self.adapters.contains_key(session.adapter.as_str()) {
            Ok(session.adapter.clone())
        } else {
            Err(DebugError(owned("Adapter not found")))
        }
    }
}

} // verus!
