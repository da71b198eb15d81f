//! Breakpoints: line, function and exception breakpoints under ids drawn
//! from one counter, and their changes.
use vstd::prelude::*;
use crate::debugging::DebugError;
use crate::idmap::IdMap;
use crate::text::str_eq;

verus! {

/// A line breakpoint.
#[derive(Debug)]
pub struct Breakpoint {
    pub id: usize,
    pub file: String,
    pub line: usize,
    pub column: Option<usize>,
    pub condition: Option<String>,
    pub hit_condition: Option<String>,
    pub log_message: Option<String>,
    pub enabled: bool,
    pub verified: bool,
}

/// A function breakpoint.
#[derive(Debug)]
pub struct FunctionBreakpoint {
    pub id: usize,
    pub name: String,
    pub condition: Option<String>,
    pub hit_condition: Option<String>,
    pub enabled: bool,
}

/// An exception breakpoint.
#[derive(Debug)]
pub struct ExceptionBreakpoint {
    pub id: usize,
    pub exception: String,
    pub condition: Option<String>,
    pub enabled: bool,
}

fn copy_opt(o: &Option<String>) -> (r: Option<String>)
    ensures r == *o,
{
    match o {
        Some(s) => Some(s.clone()),
        None => None,
    }
}

impl Breakpoint {
    /// A copy of the breakpoint.
    pub fn duplicate(&self) -> (b: Self)
        ensures b == *self,
    {
        Breakpoint {
            id: self.id,
            file: self.file.clone(),
            line: self.line,
            column: self.column,
            condition: copy_opt(&self.condition),
            hit_condition: copy_opt(&self.hit_condition),
            log_message: copy_opt(&self.log_message),
            enabled: self.enabled,
            verified: self.verified,
        }
    }
}

/// A change to a line breakpoint.
pub enum BreakpointChange {
    Enabled(bool),
    Condition(Option<String>),
    HitCondition(Option<String>),
    LogMessage(Option<String>),
    Verified(bool),
}

/// A breakpoint after a change.
pub open spec fn changed(b: Breakpoint, c: BreakpointChange) -> Breakpoint {
    match c {
        BreakpointChange::Enabled(e) => Breakpoint { enabled: e, ..b },
        BreakpointChange::Condition(x) => Breakpoint { condition: x, ..b },
        BreakpointChange::HitCondition(x) => Breakpoint { hit_condition: x, ..b },
        BreakpointChange::LogMessage(x) => Breakpoint { log_message: x, ..b },
        BreakpointChange::Verified(v) => Breakpoint { verified: v, ..b },
    }
}

/// The map after changing the breakpoint under `id`, when there is one.
pub open spec fn changed_at(m: Map<usize, Breakpoint>, id: usize, c: BreakpointChange) -> Map<usize, Breakpoint> {
    if m.contains_key(id) {
        m.insert(id, changed(m[id], c))
    } else {
        m
    }
}

/// The breakpoints of `s` in `file`, in order.
pub open spec fn in_file(s: Seq<Breakpoint>, file: Seq<char>) -> Seq<Breakpoint>
    decreases s.len(),
{
    if s.len() == 0 {
        s
    } else if s.last().file@ == file {
        in_file(s.drop_last(), file).push(s.last())
    } else {
        in_file(s.drop_last(), file)
    }
}

/// The breakpoint manager.
pub struct BreakpointManager {
    breakpoints: IdMap<Breakpoint>,
    function_breakpoints: IdMap<FunctionBreakpoint>,
    exception_breakpoints: IdMap<ExceptionBreakpoint>,
    next_id: usize,
}

impl BreakpointManager {
    /// The line breakpoints by id.
    pub closed spec fn bp_view(&self) -> Map<usize, Breakpoint> {
        self.breakpoints@
    }

    /// The line breakpoints in the order added.
    pub closed spec fn bp_seq(&self) -> Seq<Breakpoint> {
        self.breakpoints.value_seq()
    }

    /// The function breakpoints by id.
    pub closed spec fn function_view(&self) -> Map<usize, FunctionBreakpoint> {
        self.function_breakpoints@
    }

    /// The exception breakpoints by id.
    pub closed spec fn exception_view(&self) -> Map<usize, ExceptionBreakpoint> {
        self.exception_breakpoints@
    }

    /// The id the next breakpoint gets.
    pub closed spec fn next_id_view(&self) -> usize {
        self.next_id
    }

    /// Every breakpoint is stored under its own id, and every id in use is
    /// below the next one.
    pub closed spec fn wf(&self) -> bool {
        &&& self.breakpoints.wf()
        &&& self.function_breakpoints.wf()
        &&& self.exception_breakpoints.wf()
        &&& self.next_id >= 1
        &&& forall|k: usize| #[trigger] self.breakpoints@.contains_key(k) ==> k < self.next_id && self.breakpoints@[k].id == k
        &&& forall|k: usize| #[trigger] self.function_breakpoints@.contains_key(k) ==> k < self.next_id
            && self.function_breakpoints@[k].id == k
        &&& forall|k: usize| #[trigger] self.exception_breakpoints@.contains_key(k) ==> k < self.next_id
            && self.exception_breakpoints@[k].id == k
    }

    /// A manager with no breakpoints; the first id is 1.
    pub fn new() -> (r: Result<Self, DebugError>)
        ensures
            r matches Ok(m) && m.wf() && m.bp_view() == Map::<usize, Breakpoint>::empty()
                && m.function_view() == Map::<usize, FunctionBreakpoint>::empty()
                && m.exception_view() == Map::<usize, ExceptionBreakpoint>::empty()
                && m.next_id_view() == 1,
    {
        Ok(BreakpointManager {
            breakpoints: IdMap::new(),
            function_breakpoints: IdMap::new(),
            exception_breakpoints: IdMap::new(),
            next_id: 1,
        })
    }

    /// The id the next breakpoint gets.
    pub fn next_id(&self) -> (n: usize)
        ensures n == self.next_id_view(),
    {
        self.next_id
    }

    /// Add an enabled, unverified breakpoint at a line of a file, with no
    /// column, condition or log message, under the next id.
    pub fn add_breakpoint(&mut self, file: String, line: usize) -> (r: Result<usize, DebugError>)
        requires
            old(self).wf(),
            old(self).next_id_view() < usize::MAX,
        ensures
            final(self).wf(),
            r == Ok::<usize, DebugError>(old(self).next_id_view()),
            !old(self).bp_view().contains_key(old(self).next_id_view()),
            final(self).bp_view() == old(self).bp_view().insert(old(self).next_id_view(), Breakpoint {
                id: old(self).next_id_view(),
                file,
                line,
                column: None,
                condition: None,
                hit_condition: None,
                log_message: None,
                enabled: true,
                verified: false,
            }),
            final(self).function_view() == old(self).function_view(),
            final(self).exception_view() == old(self).exception_view(),
            final(self).next_id_view() == old(self).next_id_view() + 1,
    {
        let id = self.next_id;
        self.next_id = self.next_id + 1;
        let bp = Breakpoint {
            id,
            file,
            line,
            column: None,
            condition: None,
            hit_condition: None,
            log_message: None,
            enabled: true,
            verified: false,
        };
        self.breakpoints.insert(id, bp);
        Ok(id)
    }

    /// Remove the breakpoint under `id`, if any.
    pub fn remove_breakpoint(&mut self, id: usize) -> (r: Result<(), DebugError>)
        requires old(self).wf(),
        ensures
            final(self).wf(),
            r is Ok,
            final(self).bp_view() == old(self).bp_view().remove(id),
            final(self).function_view() == old(self).function_view(),
            final(self).exception_view() == old(self).exception_view(),
            final(self).next_id_view() == old(self).next_id_view(),
    {
        self.breakpoints.remove(id);
        Ok(())
    }

    /// A copy of the breakpoint under `id`.
    pub fn get_breakpoint(&self, id: usize) -> (r: Option<Breakpoint>)
        requires self.wf(),
        ensures
            match r {
                Some(b) => self.bp_view().contains_key(id) && b == self.bp_view()[id],
                None => !self.bp_view().contains_key(id),
            },
    {
        match self.breakpoints.get(id) {
            Some(b) => Some(b.duplicate()),
            None => None,
        }
    }

    /// Copies of all line breakpoints, in the order added.
    pub fn get_breakpoints(&self) -> (r: Vec<Breakpoint>)
        ensures r@ == self.bp_seq(),
    {
        let vals = self.breakpoints.values();
        let mut r: Vec<Breakpoint> = Vec::new();
        let mut i: usize = 0;
        while i < vals.len()
            invariant
                i <= vals@.len(),
                vals@.len() == self.breakpoints.entries().len(),
                forall|j: int| 0 <= j < vals@.len() ==> *#[trigger] vals@[j] == self.breakpoints.value_seq()[j],
                r@ == self.breakpoints.value_seq().subrange(0, i as int),
            decreases vals.len() - i,
        {
            r.push(vals[i].duplicate());
            i = i + 1;
            assert(r@ =~= self.breakpoints.value_seq().subrange(0, i as int));
        }
        assert(r@ =~= self.bp_seq());
        r
    }

    /// Copies of the line breakpoints in `file`, in the order added.
    pub fn get_breakpoints_for_file(&self, file: &str) -> (r: Vec<Breakpoint>)
        ensures r@ == in_file(self.bp_seq(), file@),
    {
        let vals = self.breakpoints.values();
        let mut r: Vec<Breakpoint> = Vec::new();
        let mut i: usize = 0;
        proof {
            assert(self.breakpoints.value_seq().subrange(0, 0) =~= Seq::<Breakpoint>::empty());
        }
        while i < vals.len()
            invariant
                i <= vals@.len(),
                vals@.len() == self.breakpoints.entries().len(),
                forall|j: int| 0 <= j < vals@.len() ==> *#[trigger] vals@[j] == self.breakpoints.value_seq()[j],
                r@ == in_file(self.breakpoints.value_seq().subrange(0, i as int), file@),
            decreases vals.len() - i,
        {
            proof {
                let s = self.breakpoints.value_seq().subrange(0, i + 1);
                assert(s.drop_last() =~= self.breakpoints.value_seq().subrange(0, i as int));
                assert(s.last() == *vals@[i as int]);
            }
            if str_eq(vals[i].file.as_str(), file) {
                r.push(vals[i].duplicate());
            }
            i = i + 1;
        }
        assert(self.breakpoints.value_seq().subrange(0, vals@.len() as int) =~= self.bp_seq());
        r
    }

    /// Change the breakpoint under `id`, if there is one; see `changed`.
    pub fn change_breakpoint(&mut self, id: usize, change: BreakpointChange) -> (r: Result<(), DebugError>)
        requires old(self).wf(),
        ensures
            final(self).wf(),
            r is Ok,
            final(self).bp_view() == changed_at(old(self).bp_view(), id, change),
            final(self).function_view() == old(self).function_view(),
            final(self).exception_view() == old(self).exception_view(),
            final(self).next_id_view() == old(self).next_id_view(),
    {
        match self.breakpoints.find(id) {
            Some(i) => {
                let ghost before = self.breakpoints;
                proof {
                    self.breakpoints.lemma_index_of(i as int);
                }
                let ghost b = self.breakpoints.entries()[i as int].1;
                let slot = self.breakpoints.value_at_mut(i);
                match change {
                    BreakpointChange::Enabled(e) => { slot.enabled = e; },
                    BreakpointChange::Condition(x) => { slot.condition = x; },
                    BreakpointChange::HitCondition(x) => { slot.hit_condition = x; },
                    BreakpointChange::LogMessage(x) => { slot.log_message = x; },
                    BreakpointChange::Verified(v) => { slot.verified = v; },
                }
                proof {
                    IdMap::lemma_update_value(before, self.breakpoints, i as int, changed(b, change));
                }
            },
            None => {},
        }
        Ok(())
    }

    /// Enable the breakpoint under `id`, if any.
    pub fn enable_breakpoint(&mut self, id: usize) -> (r: Result<(), DebugError>)
        requires old(self).wf(),
        ensures
            final(self).wf(),
            r is Ok,
            final(self).bp_view() == changed_at(old(self).bp_view(), id, BreakpointChange::Enabled(true)),
            final(self).next_id_view() == old(self).next_id_view(),
            old(self).bp_view().contains_key(id) ==> ({
                let (n, o) = (final(self).bp_view()[id], old(self).bp_view()[id]);
                &&& same_location(n, o)
                &&& n.enabled == true
                &&& n.condition == o.condition
                &&& n.hit_condition == o.hit_condition
                &&& n.log_message == o.log_message
                &&& n.verified == o.verified
            }),
            final(self).bp_view().dom() == old(self).bp_view().dom(),
            forall|k: usize| k != id && #[trigger] old(self).bp_view().contains_key(k) ==> final(self).bp_view()[k] == old(self).bp_view()[k],
    {
        self.change_breakpoint(id, BreakpointChange::Enabled(true))
    }

    /// Disable the breakpoint under `id`, if any.
    pub fn disable_breakpoint(&mut self, id: usize) -> (r: Result<(), DebugError>)
        requires old(self).wf(),
        ensures
            final(self).wf(),
            r is Ok,
            final(self).bp_view() == changed_at(old(self).bp_view(), id, BreakpointChange::Enabled(false)),
            final(self).next_id_view() == old(self).next_id_view(),
            old(self).bp_view().contains_key(id) ==> ({
                let (n, o) = (final(self).bp_view()[id], old(self).bp_view()[id]);
                &&& same_location(n, o)
                &&& n.enabled == false
                &&& n.condition == o.condition
                &&& n.hit_condition == o.hit_condition
                &&& n.log_message == o.log_message
                &&& n.verified == o.verified
            }),
            final(self).bp_view().dom() == old(self).bp_view().dom(),
            forall|k: usize| k != id && #[trigger] old(self).bp_view().contains_key(k) ==> final(self).bp_view()[k] == old(self).bp_view()[k],
    {
        self.change_breakpoint(id, BreakpointChange::Enabled(false))
    }

    /// Set the condition of the breakpoint under `id`, if any.
    pub fn set_condition(&mut self, id: usize, condition: Option<String>) -> (r: Result<(), DebugError>)
        requires old(self).wf(),
        ensures
            final(self).wf(),
            r is Ok,
            final(self).bp_view() == changed_at(old(self).bp_view(), id, BreakpointChange::Condition(condition)),
            final(self).next_id_view() == old(self).next_id_view(),
            old(self).bp_view().contains_key(id) ==> ({
                let (n, o) = (final(self).bp_view()[id], old(self).bp_view()[id]);
                &&& same_location(n, o)
                &&& n.condition == condition
                &&& n.enabled == o.enabled
                &&& n.hit_condition == o.hit_condition
                &&& n.log_message == o.log_message
                &&& n.verified == o.verified
            }),
            final(self).bp_view().dom() == old(self).bp_view().dom(),
            forall|k: usize| k != id && #[trigger] old(self).bp_view().contains_key(k) ==> final(self).bp_view()[k] == old(self).bp_view()[k],
    {
        self.change_breakpoint(id, BreakpointChange::Condition(condition))
    }

    /// Set the hit condition of the breakpoint under `id`, if any.
    pub fn set_hit_condition(&mut self, id: usize, condition: Option<String>) -> (r: Result<(), DebugError>)
        requires old(self).wf(),
        ensures
            final(self).wf(),
            r is Ok,
            final(self).bp_view() == changed_at(old(self).bp_view(), id, BreakpointChange::HitCondition(condition)),
            final(self).next_id_view() == old(self).next_id_view(),
            old(self).bp_view().contains_key(id) ==> ({
                let (n, o) = (final(self).bp_view()[id], old(self).bp_view()[id]);
                &&& same_location(n, o)
                &&& n.hit_condition == condition
                &&& n.enabled == o.enabled
                &&& n.condition == o.condition
                &&& n.log_message == o.log_message
                &&& n.verified == o.verified
            }),
            final(self).bp_view().dom() == old(self).bp_view().dom(),
            forall|k: usize| k != id && #[trigger] old(self).bp_view().contains_key(k) ==> final(self).bp_view()[k] == old(self).bp_view()[k],
    {
        self.change_breakpoint(id, BreakpointChange::HitCondition(condition))
    }

    /// Set the log message of the breakpoint under `id`, if any.
    pub fn set_log_message(&mut self, id: usize, message: Option<String>) -> (r: Result<(), DebugError>)
        requires old(self).wf(),
        ensures
            final(self).wf(),
            r is Ok,
            final(self).bp_view() == changed_at(old(self).bp_view(), id, BreakpointChange::LogMessage(message)),
            final(self).next_id_view() == old(self).next_id_view(),
            old(self).bp_view().contains_key(id) ==> ({
                let (n, o) = (final(self).bp_view()[id], old(self).bp_view()[id]);
                &&& same_location(n, o)
                &&& n.log_message == message
                &&& n.enabled == o.enabled
                &&& n.condition == o.condition
                &&& n.hit_condition == o.hit_condition
                &&& n.verified == o.verified
            }),
            final(self).bp_view().dom() == old(self).bp_view().dom(),
            forall|k: usize| k != id && #[trigger] old(self).bp_view().contains_key(k) ==> final(self).bp_view()[k] == old(self).bp_view()[k],
    {
        self.change_breakpoint(id, BreakpointChange::LogMessage(message))
    }

    /// Record whether the adapter verified the breakpoint under `id`, if any.
    pub fn verify_breakpoint(&mut self, id: usize, verified: bool) -> (r: Result<(), DebugError>)
        requires old(self).wf(),
        ensures
            final(self).wf(),
            r is Ok,
            final(self).bp_view() == changed_at(old(self).bp_view(), id, BreakpointChange::Verified(verified)),
            final(self).next_id_view() == old(self).next_id_view(),
            old(self).bp_view().contains_key(id) ==> ({
                let (n, o) = (final(self).bp_view()[id], old(self).bp_view()[id]);
                &&& same_location(n, o)
                &&& n.verified == verified
                &&& n.enabled == o.enabled
                &&& n.condition == o.condition
                &&& n.hit_condition == o.hit_condition
                &&& n.log_message == o.log_message
            }),
            final(self).bp_view().dom() == old(self).bp_view().dom(),
            forall|k: usize| k != id && #[trigger] old(self).bp_view().contains_key(k) ==> final(self).bp_view()[k] == old(self).bp_view()[k],
    {
        self.change_breakpoint(id, BreakpointChange::Verified(verified))
    }

    /// Add an enabled function breakpoint with no conditions, under the next id.
    pub fn add_function_breakpoint(&mut self, name: String) -> (r: Result<usize, DebugError>)
        requires
            old(self).wf(),
            old(self).next_id_view() < usize::MAX,
        ensures
            final(self).wf(),
            r == Ok::<usize, DebugError>(old(self).next_id_view()),
            !old(self).function_view().contains_key(old(self).next_id_view()),
            final(self).function_view() == old(self).function_view().insert(old(self).next_id_view(),
                FunctionBreakpoint { id: old(self).next_id_view(), name, condition: None, hit_condition: None, enabled: true }),
            final(self).bp_view() == old(self).bp_view(),
            final(self).exception_view() == old(self).exception_view(),
            final(self).next_id_view() == old(self).next_id_view() + 1,
    {
        let id = self.next_id;
        self.next_id = self.next_id + 1;
        self.function_breakpoints.insert(id, FunctionBreakpoint {
            id,
            name,
            condition: None,
            hit_condition: None,
            enabled: true,
        });
        Ok(id)
    }

    /// Add an enabled exception breakpoint with no condition, under the next id.
    pub fn add_exception_breakpoint(&mut self, exception: String) -> (r: Result<usize, DebugError>)
        requires
            old(self).wf(),
            old(self).next_id_view() < usize::MAX,
        ensures
            final(self).wf(),
            r == Ok::<usize, DebugError>(old(self).next_id_view()),
            !old(self).exception_view().contains_key(old(self).next_id_view()),
            final(self).exception_view() == old(self).exception_view().insert(old(self).next_id_view(),
                ExceptionBreakpoint { id: old(self).next_id_view(), exception, condition: None, enabled: true }),
            final(self).bp_view() == old(self).bp_view(),
            final(self).function_view() == old(self).function_view(),
            final(self).next_id_view() == old(self).next_id_view() + 1,
    {
        let id = self.next_id;
        self.next_id = self.next_id + 1;
        self.exception_breakpoints.insert(id, ExceptionBreakpoint { id, exception, condition: None, enabled: true });
        Ok(id)
    }

    /// Remove every breakpoint; ids keep counting.
    pub fn clear(&mut self)
        requires old(self).wf(),
        ensures
            final(self).wf(),
            final(self).bp_view() == Map::<usize, Breakpoint>::empty(),
            final(self).function_view() == Map::<usize, FunctionBreakpoint>::empty(),
            final(self).exception_view() == Map::<usize, ExceptionBreakpoint>::empty(),
            final(self).next_id_view() == old(self).next_id_view(),
    {
        self.breakpoints.clear();
        self.function_breakpoints.clear();
        self.exception_breakpoints.clear();
    }
}

/// The location of a breakpoint: id, file, line and column.
pub open spec fn same_location(a: Breakpoint, b: Breakpoint) -> bool {
    &&& a.id == b.id
    &&& a.file@ == b.file@
    &&& a.line == b.line
    &&& a.column == b.column
}

/// A change sets the one field it names to the value it carries, and leaves
/// every other field of the breakpoint as it was: the location, and the four
/// settings it does not name.
pub proof fn law_change_sets_only_its_field(b: Breakpoint, c: BreakpointChange)
    ensures
        same_location(changed(b, c), b),
        changed(b, c).enabled == (match c {
            BreakpointChange::Enabled(e) => e,
            _ => b.enabled,
        }),
        changed(b, c).condition == (match c {
            BreakpointChange::Condition(x) => x,
            _ => b.condition,
        }),
        changed(b, c).hit_condition == (match c {
            BreakpointChange::HitCondition(x) => x,
            _ => b.hit_condition,
        }),
        changed(b, c).log_message == (match c {
            BreakpointChange::LogMessage(x) => x,
            _ => b.log_message,
        }),
        changed(b, c).verified == (match c {
            BreakpointChange::Verified(v) => v,
            _ => b.verified,
        }),
{
}

/// Ids are never reused: a breakpoint added after another, with any removals
/// in between, gets a different id, since ids only grow and every id in use
/// is below the next one.
pub proof fn law_fresh_ids(m: BreakpointManager, k: usize)
    requires
        m.wf(),
        m.bp_view().contains_key(k) || m.function_view().contains_key(k) || m.exception_view().contains_key(k),
    ensures
        k < m.next_id_view(),
{
}

} // verus!
