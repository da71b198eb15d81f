//! Watch expressions under ids from a counter, and their changes.
use vstd::prelude::*;
use crate::debugging::DebugError;
use crate::idmap::IdMap;

verus! {

/// A watch expression.
#[derive(Debug)]
pub struct WatchExpression {
    pub id: usize,
    pub expression: String,
    pub last_value: Option<String>,
    pub enabled: bool,
    pub expanded: bool,
}

impl WatchExpression {
    /// A copy of the watch.
    pub fn duplicate(&self) -> (w: Self)
        ensures w == *self,
    {
        WatchExpression {
            id: self.id,
            expression: self.expression.clone(),
            last_value: match &self.last_value {
                Some(v) => Some(v.clone()),
                None => None,
            },
            enabled: self.enabled,
            expanded: self.expanded,
        }
    }
}

/// A change to a watch.
pub enum WatchChange {
    Value(String),
    Enabled(bool),
    ToggleExpanded,
}

/// A watch after a change.
pub open spec fn watch_changed(w: WatchExpression, c: WatchChange) -> WatchExpression {
    match c {
        WatchChange::Value(v) => WatchExpression { last_value: Some(v), ..w },
        WatchChange::Enabled(e) => WatchExpression { enabled: e, ..w },
        WatchChange::ToggleExpanded => WatchExpression { expanded: !w.expanded, ..w },
    }
}

/// The map after changing the watch under `id`, when there is one.
pub open spec fn watch_changed_at(m: Map<usize, WatchExpression>, id: usize, c: WatchChange) -> Map<usize, WatchExpression> {
    if m.contains_key(id) {
        m.insert(id, watch_changed(m[id], c))
    } else {
        m
    }
}

/// The watch manager.
pub struct WatchManager {
    watches: IdMap<WatchExpression>,
    next_id: usize,
}

impl WatchManager {
    /// The watches by id.
    pub closed spec fn watches_view(&self) -> Map<usize, WatchExpression> {
        self.watches@
    }

    /// The watches in the order added.
    pub closed spec fn watch_seq(&self) -> Seq<WatchExpression> {
        self.watches.value_seq()
    }

    /// The id the next watch gets.
    pub closed spec fn next_id_view(&self) -> usize {
        self.next_id
    }

    /// Every watch is stored under its own id, below the next one.
    pub closed spec fn wf(&self) -> bool {
        &&& self.watches.wf()
        &&& self.next_id >= 1
        &&& forall|k: usize| #[trigger] self.watches@.contains_key(k) ==> k < self.next_id && self.watches@[k].id == k
    }

    /// A manager with no watches; the first id is 1.
    pub fn new() -> (r: Result<Self, DebugError>)
        ensures
            r matches Ok(m) && m.wf() && m.watches_view() == Map::<usize, WatchExpression>::empty()
                && m.next_id_view() == 1,
    {
        Ok(WatchManager { watches: IdMap::new(), next_id: 1 })
    }

    /// The id the next watch gets.
    pub fn next_id(&self) -> (n: usize)
        ensures n == self.next_id_view(),
    {
        self.next_id
    }

    /// Add an enabled, collapsed watch of an expression with no value yet,
    /// under the next id.
    pub fn add_watch(&mut self, expression: String) -> (r: Result<usize, DebugError>)
        requires
            old(self).wf(),
            old(self).next_id_view() < usize::MAX,
        ensures
            final(self).wf(),
            r == Ok::<usize, DebugError>(old(self).next_id_view()),
            !old(self).watches_view().contains_key(old(self).next_id_view()),
            final(self).watches_view() == old(self).watches_view().insert(old(self).next_id_view(), WatchExpression {
                id: old(self).next_id_view(),
                expression,
                last_value: None,
                enabled: true,
                expanded: false,
            }),
            final(self).next_id_view() == old(self).next_id_view() + 1,
    {
        let id = self.next_id;
        self.next_id = self.next_id + 1;
        self.watches.insert(id, WatchExpression { id, expression, last_value: None, enabled: true, expanded: false });
        Ok(id)
    }

    /// Remove the watch under `id`, if any.
    pub fn remove_watch(&mut self, id: usize) -> (r: Result<(), DebugError>)
        requires old(self).wf(),
        ensures
            final(self).wf(),
            r is Ok,
            final(self).watches_view() == old(self).watches_view().remove(id),
            final(self).next_id_view() == old(self).next_id_view(),
    {
        self.watches.remove(id);
        Ok(())
    }

    /// A copy of the watch under `id`.
    pub fn get_watch(&self, id: usize) -> (r: Option<WatchExpression>)
        requires self.wf(),
        ensures
            match r {
                Some(w) => self.watches_view().contains_key(id) && w == self.watches_view()[id],
                None => !self.watches_view().contains_key(id),
            },
    {
        match self.watches.get(id) {
            Some(w) => Some(w.duplicate()),
            None => None,
        }
    }

    /// Copies of all watches, in the order added.
    pub fn get_watches(&self) -> (r: Vec<WatchExpression>)
        ensures r@ == self.watch_seq(),
    {
        let vals = self.watches.values();
        let mut r: Vec<WatchExpression> = Vec::new();
        let mut i: usize = 0;
        while i < vals.len()
            invariant
                i <= vals@.len(),
                vals@.len() == self.watches.entries().len(),
                forall|j: int| 0 <= j < vals@.len() ==> *#[trigger] vals@[j] == self.watches.value_seq()[j],
                r@ == self.watches.value_seq().subrange(0, i as int),
            decreases vals.len() - i,
        {
            r.push(vals[i].duplicate());
            i = i + 1;
            assert(r@ =~= self.watches.value_seq().subrange(0, i as int));
        }
        assert(r@ =~= self.watch_seq());
        r
    }

    /// Change the watch under `id`, if there is one; see `watch_changed`.
    pub fn change_watch(&mut self, id: usize, change: WatchChange) -> (r: Result<(), DebugError>)
        requires old(self).wf(),
        ensures
            final(self).wf(),
            r is Ok,
            final(self).watches_view() == watch_changed_at(old(self).watches_view(), id, change),
            final(self).next_id_view() == old(self).next_id_view(),
    {
        match self.watches.find(id) {
            Some(i) => {
                let ghost before = self.watches;
                proof {
                    self.watches.lemma_index_of(i as int);
                }
                let ghost w = self.watches.entries()[i as int].1;
                let slot = self.watches.value_at_mut(i);
                match change {
                    WatchChange::Value(v) => { slot.last_value = Some(v); },
                    WatchChange::Enabled(e) => { slot.enabled = e; },
                    WatchChange::ToggleExpanded => { slot.expanded = !slot.expanded; },
                }
                proof {
                    IdMap::lemma_update_value(before, self.watches, i as int, watch_changed(w, change));
                }
            },
            None => {},
        }
        Ok(())
    }

    /// Record the latest value of the watch under `id`, if any.
    pub fn update_value(&mut self, id: usize, value: String) -> (r: Result<(), DebugError>)
        requires old(self).wf(),
        ensures
            final(self).wf(),
            r is Ok,
            final(self).watches_view() == watch_changed_at(old(self).watches_view(), id, WatchChange::Value(value)),
            final(self).next_id_view() == old(self).next_id_view(),
    {
        self.change_watch(id, WatchChange::Value(value))
    }

    /// Enable the watch under `id`, if any.
    pub fn enable_watch(&mut self, id: usize) -> (r: Result<(), DebugError>)
        requires old(self).wf(),
        ensures
            final(self).wf(),
            r is Ok,
            final(self).watches_view() == watch_changed_at(old(self).watches_view(), id, WatchChange::Enabled(true)),
            final(self).next_id_view() == old(self).next_id_view(),
    {
        self.change_watch(id, WatchChange::Enabled(true))
    }

    /// Disable the watch under `id`, if any.
    pub fn disable_watch(&mut self, id: usize) -> (r: Result<(), DebugError>)
        requires old(self).wf(),
        ensures
            final(self).wf(),
            r is Ok,
            final(self).watches_view() == watch_changed_at(old(self).watches_view(), id, WatchChange::Enabled(false)),
            final(self).next_id_view() == old(self).next_id_view(),
    {
        self.change_watch(id, WatchChange::Enabled(false))
    }

    /// Flip whether the watch under `id` is expanded, if any.
    pub fn toggle_expanded(&mut self, id: usize) -> (r: Result<(), DebugError>)
        requires old(self).wf(),
        ensures
            final(self).wf(),
            r is Ok,
            final(self).watches_view() == watch_changed_at(old(self).watches_view(), id, WatchChange::ToggleExpanded),
            final(self).next_id_view() == old(self).next_id_view(),
    {
        self.change_watch(id, WatchChange::ToggleExpanded)
    }

    /// Remove every watch; ids keep counting.
    pub fn clear(&mut self)
        requires old(self).wf(),
        ensures
            final(self).wf(),
            final(self).watches_view() == Map::<usize, WatchExpression>::empty(),
            final(self).next_id_view() == old(self).next_id_view(),
    {
        self.watches.clear();
    }
}

/// Toggling a watch's expansion twice gives back what it was.
pub proof fn law_toggle_twice(m: Map<usize, WatchExpression>, id: usize)
    ensures
        watch_changed_at(watch_changed_at(m, id, WatchChange::ToggleExpanded), id, WatchChange::ToggleExpanded) == m,
{
    if m.contains_key(id) {
        let w = m[id];
        assert(watch_changed(watch_changed(w, WatchChange::ToggleExpanded), WatchChange::ToggleExpanded) == w);
        assert(watch_changed_at(watch_changed_at(m, id, WatchChange::ToggleExpanded), id, WatchChange::ToggleExpanded) =~= m);
    }
}

} // verus!
