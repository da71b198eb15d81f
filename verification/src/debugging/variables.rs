//! Variables: the scopes of each frame and the variables behind each
//! variables reference.
use vstd::prelude::*;
use crate::debugging::DebugError;
use crate::idmap::IdMap;
use crate::text::str_eq;

verus! {

/// A scope of a frame.
#[derive(Debug)]
pub struct VariableScope {
    pub name: String,
    pub var_ref: usize,
    pub expensive: bool,
}

/// A variable. `variable_type` is the type the adapter reports.
#[derive(Debug)]
pub struct Variable {
    pub name: String,
    pub value: String,
    pub variable_type: Option<String>,
    pub var_ref: usize,
    pub indexed_variables: Option<usize>,
    pub named_variables: Option<usize>,
}

impl VariableScope {
    /// A copy of the scope.
    pub fn duplicate(&self) -> (s: Self)
        ensures s == *self,
    {
        VariableScope { name: self.name.clone(), var_ref: self.var_ref, expensive: self.expensive }
    }
}

impl Variable {
    /// A copy of the variable.
    pub fn duplicate(&self) -> (v: Self)
        ensures v == *self,
    {
        Variable {
            name: self.name.clone(),
            value: self.value.clone(),
            variable_type: match &self.variable_type {
                Some(t) => Some(t.clone()),
                None => None,
            },
            var_ref: self.var_ref,
            indexed_variables: self.indexed_variables,
            named_variables: self.named_variables,
        }
    }
}

fn copy_scopes(v: &Vec<VariableScope>) -> (r: Vec<VariableScope>)
    ensures r@ == v@,
{
    let mut r: Vec<VariableScope> = Vec::new();
    let mut i: usize = 0;
    while i < v.len()
        invariant
            i <= v@.len(),
            r@ == v@.subrange(0, i as int),
        decreases v.len() - i,
    {
        r.push(v[i].duplicate());
        i = i + 1;
        assert(r@ =~= v@.subrange(0, i as int));
    }
    assert(r@ =~= v@);
    r
}

fn copy_variables(v: &Vec<Variable>) -> (r: Vec<Variable>)
    ensures r@ == v@,
{
    let mut r: Vec<Variable> = Vec::new();
    let mut i: usize = 0;
    while i < v.len()
        invariant
            i <= v@.len(),
            r@ == v@.subrange(0, i as int),
        decreases v.len() - i,
    {
        r.push(v[i].duplicate());
        i = i + 1;
        assert(r@ =~= v@.subrange(0, i as int));
    }
    assert(r@ =~= v@);
    r
}

/// The scope lists of a map, as sequences.
pub open spec fn scope_lists(m: Map<usize, Vec<VariableScope>>) -> Map<usize, Seq<VariableScope>> {
    m.map_values(|v: Vec<VariableScope>| v@)
}

/// The variable lists of a map, as sequences.
pub open spec fn variable_lists(m: Map<usize, Vec<Variable>>) -> Map<usize, Seq<Variable>> {
    m.map_values(|v: Vec<Variable>| v@)
}

/// Position of the first variable named `name`.
pub open spec fn first_variable(s: Seq<Variable>, name: Seq<char>) -> Option<int>
    decreases s.len(),
{
    if s.len() == 0 {
        None
    } else {
        match first_variable(s.drop_last(), name) {
            Some(i) => Some(i),
            None => if s.last().name@ == name {
                Some(s.len() - 1)
            } else {
                None
            },
        }
    }
}

proof fn lemma_first_variable_prefix(s: Seq<Variable>, name: Seq<char>, k: int)
    requires
        0 <= k <= s.len(),
        first_variable(s.subrange(0, k), name) is Some,
    ensures
        first_variable(s, name) == first_variable(s.subrange(0, k), name),
    decreases s.len(),
{
    if k == s.len() {
        assert(s.subrange(0, k) =~= s);
    } else {
        let t = s.drop_last();
        assert(t.subrange(0, k) =~= s.subrange(0, k));
        lemma_first_variable_prefix(t, name, k);
    }
}

/// The variables manager.
pub struct VariablesManager {
    variables: IdMap<Vec<Variable>>,
    scopes: IdMap<Vec<VariableScope>>,
}

impl VariablesManager {
    pub closed spec fn wf(&self) -> bool {
        self.variables.wf() && self.scopes.wf()
    }

    /// The scopes of each frame, by frame id.
    pub closed spec fn scopes_view(&self) -> Map<usize, Seq<VariableScope>> {
        scope_lists(self.scopes@)
    }

    /// The variables behind each reference.
    pub closed spec fn variables_view(&self) -> Map<usize, Seq<Variable>> {
        variable_lists(self.variables@)
    }

    /// A manager with nothing recorded.
    pub fn new() -> (r: Result<Self, DebugError>)
        ensures
            r matches Ok(m) && m.wf() && m.scopes_view() == Map::<usize, Seq<VariableScope>>::empty()
                && m.variables_view() == Map::<usize, Seq<Variable>>::empty(),
    {
        let m = VariablesManager { variables: IdMap::new(), scopes: IdMap::new() };
        assert(scope_lists(m.scopes@) =~= Map::<usize, Seq<VariableScope>>::empty());
        assert(variable_lists(m.variables@) =~= Map::<usize, Seq<Variable>>::empty());
        Ok(m)
    }

    /// Set the scopes of a frame.
    pub fn set_scopes(&mut self, frame_id: usize, scopes: Vec<VariableScope>)
        requires old(self).wf(),
        ensures
            final(self).wf(),
            final(self).scopes_view() == old(self).scopes_view().insert(frame_id, scopes@),
            final(self).variables_view() == old(self).variables_view(),
    {
        let ghost before = self.scopes@;
        let ghost s = scopes@;
        self.scopes.insert(frame_id, scopes);
        assert(scope_lists(self.scopes@) =~= scope_lists(before).insert(frame_id, s));
    }

    /// A copy of the scopes of a frame.
    pub fn get_scopes(&self, frame_id: usize) -> (r: Option<Vec<VariableScope>>)
        requires self.wf(),
        ensures
            match r {
                Some(v) => self.scopes_view().contains_key(frame_id) && v@ == self.scopes_view()[frame_id],
                None => !self.scopes_view().contains_key(frame_id),
            },
    {
        match self.scopes.get(frame_id) {
            Some(v) => Some(copy_scopes(v)),
            None => None,
        }
    }

    /// Set the variables behind a reference.
    pub fn set_variables(&mut self, var_ref: usize, variables: Vec<Variable>)
        requires old(self).wf(),
        ensures
            final(self).wf(),
            final(self).variables_view() == old(self).variables_view().insert(var_ref, variables@),
            final(self).scopes_view() == old(self).scopes_view(),
    {
        let ghost before = self.variables@;
        let ghost s = variables@;
        self.variables.insert(var_ref, variables);
        assert(variable_lists(self.variables@) =~= variable_lists(before).insert(var_ref, s));
    }

    /// A copy of the variables behind a reference.
    pub fn get_variables(&self, var_ref: usize) -> (r: Option<Vec<Variable>>)
        requires self.wf(),
        ensures
            match r {
                Some(v) => self.variables_view().contains_key(var_ref) && v@ == self.variables_view()[var_ref],
                None => !self.variables_view().contains_key(var_ref),
            },
    {
        match self.variables.get(var_ref) {
            Some(v) => Some(copy_variables(v)),
            None => None,
        }
    }

    /// A copy of the first variable named `name` behind a reference.
    pub fn get_variable(&self, var_ref: usize, name: &str) -> (r: Option<Variable>)
        requires self.wf(),
        ensures
            match r {
                Some(v) => self.variables_view().contains_key(var_ref)
                    && (first_variable(self.variables_view()[var_ref], name@) matches Some(i)
                    && v == self.variables_view()[var_ref][i]),
                None => !self.variables_view().contains_key(var_ref)
                    || first_variable(self.variables_view()[var_ref], name@) is None,
            },
    {
        let vars = match self.variables.get(var_ref) {
            Some(v) => v,
            None => {
                return None;
            },
        };
        let ghost all = vars@;
        let n = vars.len();
        let mut i: usize = 0;
        proof {
            assert(all.subrange(0, 0) =~= Seq::<Variable>::empty());
        }
        while i < n
            invariant
                n == all.len(),
                all == vars@,
                all == self.variables_view()[var_ref],
                self.variables_view().contains_key(var_ref),
                i <= n,
                first_variable(all.subrange(0, i as int), name@) is None,
            decreases n - i,
        {
            proof {
                assert(all.subrange(0, i + 1).drop_last() =~= all.subrange(0, i as int));
            }
            if str_eq(vars[i].name.as_str(), name) {
                proof {
                    let p = all.subrange(0, i + 1);
                    assert(p.last() == all[i as int]);
                    lemma_first_variable_prefix(all, name@, i + 1);
                }
                return Some(vars[i].duplicate());
            }
            i = i + 1;
        }
        proof {
            assert(all.subrange(0, n as int) =~= all);
        }
        None
    }

    /// Forget the scopes of a frame.
    pub fn clear(&mut self, frame_id: usize)
        requires old(self).wf(),
        ensures
            final(self).wf(),
            final(self).scopes_view() == old(self).scopes_view().remove(frame_id),
            final(self).variables_view() == old(self).variables_view(),
    {
        let ghost before = self.scopes@;
        self.scopes.remove(frame_id);
        assert(scope_lists(self.scopes@) =~= scope_lists(before).remove(frame_id));
    }

    /// Forget everything.
    pub fn clear_all(&mut self)
        ensures
            final(self).wf(),
            final(self).scopes_view() == Map::<usize, Seq<VariableScope>>::empty(),
            final(self).variables_view() == Map::<usize, Seq<Variable>>::empty(),
    {
        self.variables.clear();
        self.scopes.clear();
        assert(scope_lists(self.scopes@) =~= Map::<usize, Seq<VariableScope>>::empty());
        assert(variable_lists(self.variables@) =~= Map::<usize, Seq<Variable>>::empty());
    }
}

} // verus!
