//! Keyboard navigation: shortcuts, navigation history and focus movement.
//!
//! Keys are named as `keyboard_types::Key` displays them ("Tab", "Enter", a
//! character for character keys) and modifier sets are the bit sets of
//! `keyboard_types::Modifiers`.
use vstd::prelude::*;
use crate::strmap::StrMap;
use crate::text::{seq_lt, str_eq, str_lt, owned};
use crate::text::{lemma_seq_lt_irreflexive, lemma_seq_lt_total, lemma_seq_lt_asymmetric, lemma_seq_lt_transitive};
use crate::accessibility::AccessibilityError;

verus! {

/// No modifier held.
pub const MODIFIERS_EMPTY: u32 = 0;
/// The Shift bit of a modifier set.
pub const MODIFIER_SHIFT: u32 = 0x200;
/// The Control bit of a modifier set.
pub const MODIFIER_CONTROL: u32 = 0x8;

/// Navigation mode.
#[derive(Debug, Clone, Copy, PartialEq, Eq, Structural)]
pub enum NavigationMode {
    /// Standard navigation
    Standard,
    /// Enhanced navigation with shortcuts
    Enhanced,
    /// Full keyboard navigation (no mouse)
    FullKeyboard,
    /// Reduced motion navigation
    ReducedMotion,
}

/// Focus style.
#[derive(Debug, Clone)]
pub enum FocusStyle {
    Outline,
    Background,
    Underline,
    Highlight,
    Invert,
    Custom(String),
}

/// Focus indicator style.
#[derive(Debug, Clone)]
pub struct FocusIndicator {
    pub enabled: bool,
    pub style: FocusStyle,
    pub color: String,
    pub width: u32,
    pub animation: bool,
    pub sound: bool,
}

/// Key binding of the shortcut manager.
#[derive(Debug, Clone)]
pub struct KeyBinding {
    pub id: String,
    pub key: String,
    pub modifiers: u32,
    pub command: String,
    pub context: String,
    pub description: String,
    pub enabled: bool,
}

impl KeyBinding {
    /// A field-by-field copy.
    pub fn duplicate(&self) -> (r: KeyBinding)
        ensures
            r == *self,
    {
        KeyBinding {
            id: self.id.clone(),
            key: self.key.clone(),
            modifiers: self.modifiers,
            command: self.command.clone(),
            context: self.context.clone(),
            description: self.description.clone(),
            enabled: self.enabled,
        }
    }
}

/// Navigation history entry; `timestamp` is in milliseconds since the Unix epoch.
#[derive(Debug, Clone)]
pub struct NavigationEntry {
    pub element_id: String,
    pub element_type: String,
    pub path: String,
    pub timestamp: i64,
}

impl NavigationEntry {
    /// A field-by-field copy.
    pub fn duplicate(&self) -> (r: NavigationEntry)
        ensures
            r == *self,
    {
        NavigationEntry {
            element_id: self.element_id.clone(),
            element_type: self.element_type.clone(),
            path: self.path.clone(),
            timestamp: self.timestamp,
        }
    }
}

/// A binding is selected for a key in a context when it is enabled and its key,
/// modifiers and context all agree.
pub open spec fn binding_matches(b: KeyBinding, ctx: Seq<char>, key: Seq<char>, modifiers: u32) -> bool {
    &&& b.context@ == ctx
    &&& b.key@ == key
    &&& b.modifiers == modifiers
    &&& b.enabled
}

/// Index of the first binding in `s` that matches, if any.
pub open spec fn first_match(s: Seq<KeyBinding>, ctx: Seq<char>, key: Seq<char>, modifiers: u32) -> Option<int> {
    if exists|i: int| 0 <= i < s.len() && binding_matches(s[i], ctx, key, modifiers)
        && forall|j: int| 0 <= j < i ==> !binding_matches(#[trigger] s[j], ctx, key, modifiers) {
        Some(choose|i: int| 0 <= i < s.len() && binding_matches(s[i], ctx, key, modifiers)
            && forall|j: int| 0 <= j < i ==> !binding_matches(#[trigger] s[j], ctx, key, modifiers))
    } else {
        None
    }
}

/// Shortcut manager.
pub struct ShortcutManager {
    bindings: StrMap<KeyBinding>,
    context_bindings: StrMap<Vec<String>>,
    current_context: String,
}

impl ShortcutManager {
    pub closed spec fn wf(&self) -> bool {
        &&& self.bindings.wf()
        &&& self.context_bindings.wf()
        &&& forall|k: Seq<char>| #[trigger] self.bindings@.contains_key(k) ==> self.bindings@[k].id@ == k
    }

    /// The bindings, by id.
    pub closed spec fn bindings_view(&self) -> Map<Seq<char>, KeyBinding> {
        self.bindings@
    }

    /// The bindings in the order they were registered.
    pub closed spec fn binding_seq(&self) -> Seq<KeyBinding> {
        self.bindings.value_seq()
    }

    /// Binding ids indexed by context.
    pub closed spec fn context_index(&self) -> Map<Seq<char>, Seq<Seq<char>>> {
        self.context_bindings@.map_values(|v: Vec<String>| crate::text::views(v@))
    }

    pub closed spec fn context(&self) -> Seq<char> {
        self.current_context@
    }

    /// The binding that a key selects: the first match in the current context, or
    /// else the first match in the "global" context.
    pub open spec fn selected(&self, key: Seq<char>, modifiers: u32) -> Option<KeyBinding> {
        match first_match(self.binding_seq(), self.context(), key, modifiers) {
            Some(i) => Some(self.binding_seq()[i]),
            None => match first_match(self.binding_seq(), "global"@, key, modifiers) {
                Some(i) => Some(self.binding_seq()[i]),
                None => None,
            },
        }
    }

    pub proof fn lemma_binding_seq(&self)
        requires
            self.wf(),
        ensures
            forall|i: int| 0 <= i < self.binding_seq().len() ==> #[trigger] self.bindings_view().contains_key(self.binding_seq()[i].id@)
                && self.bindings_view()[self.binding_seq()[i].id@] == self.binding_seq()[i],
    {
        self.bindings.lemma_key_seq();
        assert forall|i: int| 0 <= i < self.binding_seq().len() implies #[trigger] self.bindings_view().contains_key(self.binding_seq()[i].id@)
            && self.bindings_view()[self.binding_seq()[i].id@] == self.binding_seq()[i] by {
            let k = self.bindings.key_seq()[i];
            assert(self.bindings.key_seq().contains(k));
            assert(self.bindings@[k] == self.bindings.value_seq()[i]);
            assert(self.bindings@.contains_key(k));
            assert(self.bindings@[k].id@ == k);
        }
    }

    /// Create new shortcut manager; the current context is "global".
    pub fn new() -> (m: Self)
        ensures
            m.wf(),
            m.bindings_view() == Map::<Seq<char>, KeyBinding>::empty(),
            m.context_index() == Map::<Seq<char>, Seq<Seq<char>>>::empty(),
            m.context() == "global"@,
            m.binding_seq().len() == 0,
    {
        let m = ShortcutManager {
            bindings: StrMap::new(),
            context_bindings: StrMap::new(),
            current_context: owned("global"),
        };
        assert(m.context_index() =~= Map::<Seq<char>, Seq<Seq<char>>>::empty());
        m
    }

    /// Add key binding: stores it under its id and appends the id to the index of
    /// its context.
    pub fn add_binding(&mut self, binding: KeyBinding)
        requires
            old(self).wf(),
        ensures
            final(self).wf(),
            final(self).bindings_view() == old(self).bindings_view().insert(binding.id@, binding),
            final(self).context_index() == old(self).context_index().insert(
                binding.context@,
                if old(self).context_index().contains_key(binding.context@) {
                    old(self).context_index()[binding.context@].push(binding.id@)
                } else {
                    seq![binding.id@]
                },
            ),
            final(self).context() == old(self).context(),
            !old(self).bindings_view().contains_key(binding.id@) ==> final(self).binding_seq() == old(self).binding_seq().push(binding),
    {
        let id = binding.id.clone();
        let ctx = binding.context.clone();
        self.bindings.insert(id.clone(), binding);
        let ghost old_index = self.context_index();
        let list = match self.context_bindings.remove(ctx.as_str()) {
            Some(mut l) => {
                l.push(id);
                l
            },
            None => {
                let mut l: Vec<String> = Vec::new();
                l.push(id);
                l
            },
        };
        let ghost l_view = crate::text::views(list@);
        self.context_bindings.insert(ctx, list);
        proof {
            assert forall|k: Seq<char>| #[trigger] self.bindings@.contains_key(k) implies self.bindings@[k].id@ == k by {
            }
            if old_index.contains_key(ctx@) {
                assert(l_view =~= old_index[ctx@].push(id@));
            } else {
                assert(l_view =~= seq![id@]);
            }
            assert(self.context_index() =~= old_index.insert(ctx@, l_view));
        }
    }

    /// Remove key binding, together with its id in the index of its context.
    pub fn remove_binding(&mut self, id: &str)
        requires
            old(self).wf(),
        ensures
            final(self).wf(),
            final(self).bindings_view() == old(self).bindings_view().remove(id@),
            final(self).context() == old(self).context(),
            !old(self).bindings_view().contains_key(id@) ==> final(self).context_index() == old(self).context_index(),
            old(self).bindings_view().contains_key(id@) ==> {
                let c = old(self).bindings_view()[id@].context@;
                final(self).context_index() == if old(self).context_index().contains_key(c) {
                    old(self).context_index().insert(c, old(self).context_index()[c].filter(|x: Seq<char>| x != id@))
                } else {
                    old(self).context_index()
                }
            },
    {
        let ghost old_index = self.context_index();
        match self.bindings.remove(id) {
            Some(binding) => {
                match self.context_bindings.remove(binding.context.as_str()) {
                    Some(l) => {
                        let mut kept: Vec<String> = Vec::new();
                        let mut i: usize = 0;
                        while i < l.len()
                            invariant
                                i <= l@.len(),
                                crate::text::views(kept@) == crate::text::views(l@).subrange(0, i as int).filter(|x: Seq<char>| x != id@),
                            decreases l.len() - i,
                        {
                            proof {
                                let s = crate::text::views(l@);
                                assert(s.subrange(0, i + 1).drop_last() =~= s.subrange(0, i as int));
                                reveal_with_fuel(Seq::filter, 1);
                            }
                            if !str_eq(l[i].as_str(), id) {
                                kept.push(l[i].clone());
                                assert(crate::text::views(kept@) =~= crate::text::views(l@).subrange(0, i + 1).filter(|x: Seq<char>| x != id@));
                            } else {
                                assert(crate::text::views(kept@) =~= crate::text::views(l@).subrange(0, i + 1).filter(|x: Seq<char>| x != id@));
                            }
                            i = i + 1;
                        }
                        assert(crate::text::views(l@).subrange(0, l@.len() as int) =~= crate::text::views(l@));
                        let ghost kv = crate::text::views(kept@);
                        self.context_bindings.insert(binding.context, kept);
                        proof {
                            assert(self.context_index() =~= old_index.insert(binding.context@, kv));
                        }
                    },
                    None => {
                        assert(self.context_index() =~= old_index);
                    },
                }
            },
            None => {},
        }
    }

    /// Set current context.
    pub fn set_context(&mut self, context: &str)
        requires
            old(self).wf(),
        ensures
            final(self).wf(),
            final(self).context() == context@,
            final(self).bindings_view() == old(self).bindings_view(),
            final(self).context_index() == old(self).context_index(),
    {
        self.current_context = owned(context);
    }

    /// First registered binding matching the key in context `ctx`.
    fn find_in_context(&self, ctx: &str, key: &str, modifiers: u32) -> (r: Option<&KeyBinding>)
        requires
            self.wf(),
        ensures
            match r {
                Some(b) => exists|i: int| 0 <= i < self.binding_seq().len() && self.binding_seq()[i] == *b
                    && binding_matches(*b, ctx@, key@, modifiers)
                    && forall|j: int| 0 <= j < i ==> !binding_matches(#[trigger] self.binding_seq()[j], ctx@, key@, modifiers),
                None => forall|j: int| 0 <= j < self.binding_seq().len() ==> !binding_matches(#[trigger] self.binding_seq()[j], ctx@, key@, modifiers),
            },
    {
        let n = self.bindings.len();
        let mut i: usize = 0;
        while i < n
            invariant
                self.wf(),
                n == self.binding_seq().len(),
                i <= n,
                forall|j: int| 0 <= j < i ==> !binding_matches(#[trigger] self.binding_seq()[j], ctx@, key@, modifiers),
            decreases n - i,
        {
            let (_, b) = self.bindings.entry_at(i);
            assert(self.binding_seq()[i as int] == *b);
            if str_eq(b.context.as_str(), ctx) && str_eq(b.key.as_str(), key) && b.modifiers == modifiers && b.enabled {
                return Some(b);
            }
            i = i + 1;
        }
        None
    }

    /// Get binding for key: the first enabled binding of the current context with
    /// this key and these modifiers, and failing that the first such binding of the
    /// "global" context.
    pub fn get_binding(&self, key: &str, modifiers: u32) -> (r: Option<&KeyBinding>)
        requires
            self.wf(),
        ensures
            match r {
                Some(b) => self.bindings_view().contains_key(b.id@) && self.bindings_view()[b.id@] == *b
                    && b.key@ == key@ && b.modifiers == modifiers && b.enabled
                    && (b.context@ == self.context() || (b.context@ == "global"@ &&
                        forall|j: int| 0 <= j < self.binding_seq().len() ==> !binding_matches(#[trigger] self.binding_seq()[j], self.context(), key@, modifiers))),
                None => forall|j: int| 0 <= j < self.binding_seq().len() ==>
                    !binding_matches(#[trigger] self.binding_seq()[j], self.context(), key@, modifiers)
                    && !binding_matches(self.binding_seq()[j], "global"@, key@, modifiers),
            },
            match r {
                Some(b) => self.selected(key@, modifiers) == Some(*b),
                None => self.selected(key@, modifiers) is None,
            },
    {
        proof {
            self.lemma_binding_seq();
        }
        let ghost s = self.binding_seq();
        match self.find_in_context(self.current_context.as_str(), key, modifiers) {
            Some(b) => {
                proof {
                    let i = choose|i: int| 0 <= i < s.len() && s[i] == *b
                        && binding_matches(*b, self.context(), key@, modifiers)
                        && forall|j: int| 0 <= j < i ==> !binding_matches(#[trigger] s[j], self.context(), key@, modifiers);
                    assert(self.bindings_view().contains_key(s[i].id@));
                    let f = first_match(s, self.context(), key@, modifiers);
                    assert(f is Some);
                    let i2 = f->0;
                    if i2 < i {
                        assert(!binding_matches(s[i2], self.context(), key@, modifiers));
                    } else if i < i2 {
                        assert(!binding_matches(s[i], self.context(), key@, modifiers));
                    }
                }
                Some(b)
            },
            None => {
                let r = self.find_in_context("global", key, modifiers);
                proof {
                    assert(first_match(s, self.context(), key@, modifiers) is None);
                }
                match r {
                    Some(b) => {
                        proof {
                            let i = choose|i: int| 0 <= i < s.len() && s[i] == *b
                                && binding_matches(*b, "global"@, key@, modifiers)
                                && forall|j: int| 0 <= j < i ==> !binding_matches(#[trigger] s[j], "global"@, key@, modifiers);
                            assert(self.bindings_view().contains_key(s[i].id@));
                            let f = first_match(s, "global"@, key@, modifiers);
                            assert(f is Some);
                            let i2 = f->0;
                            if i2 < i {
                                assert(!binding_matches(s[i2], "global"@, key@, modifiers));
                            } else if i < i2 {
                                assert(!binding_matches(s[i], "global"@, key@, modifiers));
                            }
                        }
                    },
                    None => {
                        assert(first_match(s, "global"@, key@, modifiers) is None);
                    },
                }
                r
            },
        }
    }

    /// Bindings listed in the index of the current context, in index order; ids
    /// whose binding is gone are skipped.
    pub fn current_bindings(&self) -> (r: Vec<&KeyBinding>)
        requires
            self.wf(),
        ensures
            !self.context_index().contains_key(self.context()) ==> r@.len() == 0,
            self.context_index().contains_key(self.context()) ==> {
                let ids = self.context_index()[self.context()];
                let present = ids.filter(|x: Seq<char>| self.bindings_view().contains_key(x));
                &&& r@.len() == present.len()
                &&& forall|i: int| 0 <= i < r@.len() ==> *#[trigger] r@[i] == self.bindings_view()[present[i]]
            },
    {
        let mut r: Vec<&KeyBinding> = Vec::new();
        match self.context_bindings.get(self.current_context.as_str()) {
            Some(ids) => {
                let ghost s = crate::text::views(ids@);
                let ghost pred = |x: Seq<char>| self.bindings_view().contains_key(x);
                let mut i: usize = 0;
                while i < ids.len()
                    invariant
                        self.wf(),
                        s == crate::text::views(ids@),
                        pred == (|x: Seq<char>| self.bindings_view().contains_key(x)),
                        i <= ids@.len(),
                        r@.len() == s.subrange(0, i as int).filter(pred).len(),
                        forall|j: int| 0 <= j < r@.len() ==> *#[trigger] r@[j] == self.bindings_view()[s.subrange(0, i as int).filter(pred)[j]],
                    decreases ids.len() - i,
                {
                    proof {
                        assert(s.subrange(0, i + 1).drop_last() =~= s.subrange(0, i as int));
                        reveal_with_fuel(Seq::filter, 1);
                    }
                    match self.bindings.get(ids[i].as_str()) {
                        Some(b) => {
                            r.push(b);
                        },
                        None => {},
                    }
                    i = i + 1;
                }
                assert(s.subrange(0, s.len() as int) =~= s);
                assert(self.context_index()[self.context()] == s);
            },
            None => {},
        }
        r
    }
}

/// The history as a sequence of entries and a current position.
pub struct HistoryState {
    pub entries: Seq<NavigationEntry>,
    pub current: nat,
}

/// State after `add_entry`: entries after the current one are dropped, the new
/// entry is appended, the oldest entry goes when the bound is exceeded, and the
/// new entry becomes current.
pub open spec fn history_add(h: HistoryState, max_size: nat, e: NavigationEntry) -> HistoryState {
    let kept = if h.entries.len() > h.current + 1 { h.entries.subrange(0, h.current + 1 as int) } else { h.entries };
    let pushed = kept.push(e);
    let bounded = if pushed.len() > max_size { pushed.drop_first() } else { pushed };
    HistoryState { entries: bounded, current: (bounded.len() - 1) as nat }
}

/// State and result of `back`.
pub open spec fn history_back(h: HistoryState) -> (HistoryState, Option<NavigationEntry>) {
    if h.current > 0 {
        let c = (h.current - 1) as nat;
        (HistoryState { entries: h.entries, current: c }, if c < h.entries.len() { Some(h.entries[c as int]) } else { None })
    } else {
        (h, None)
    }
}

/// State and result of `forward`.
pub open spec fn history_forward(h: HistoryState) -> (HistoryState, Option<NavigationEntry>) {
    if h.current + 1 < h.entries.len() {
        let c = h.current + 1;
        (HistoryState { entries: h.entries, current: c }, Some(h.entries[c as int]))
    } else {
        (h, None)
    }
}

/// The entry at the current position.
pub open spec fn history_current(h: HistoryState) -> Option<NavigationEntry> {
    if h.current < h.entries.len() { Some(h.entries[h.current as int]) } else { None }
}

/// The position stays inside the entries (or at 0 when there are none).
pub open spec fn history_wf(h: HistoryState) -> bool {
    if h.entries.len() == 0 { h.current == 0 } else { h.current < h.entries.len() }
}

/// Navigating back and then forward returns to the state before, and forward
/// reports the entry that was current.
pub proof fn law_back_then_forward(h: HistoryState)
    requires
        history_wf(h),
        history_back(h).1 is Some,
    ensures
        history_forward(history_back(h).0).0 == h,
        history_forward(history_back(h).0).1 == history_current(h),
{
}

/// Navigating forward and then back returns to the state before.
pub proof fn law_forward_then_back(h: HistoryState)
    requires
        history_wf(h),
        history_forward(h).1 is Some,
    ensures
        history_back(history_forward(h).0).0 == h,
        history_back(history_forward(h).0).1 == history_current(h),
{
}

/// After adding an entry it is the current one, and nothing lies ahead of it.
pub proof fn law_add_then_current(h: HistoryState, max_size: nat, e: NavigationEntry)
    requires
        history_wf(h),
        max_size > 0,
    ensures
        history_wf(history_add(h, max_size, e)),
        history_current(history_add(h, max_size, e)) == Some(e),
        history_forward(history_add(h, max_size, e)).1 is None,
{
}

/// Navigation history.
pub struct NavigationHistory {
    entries: Vec<NavigationEntry>,
    current_index: usize,
    max_size: usize,
}

impl NavigationHistory {
    pub closed spec fn state(&self) -> HistoryState {
        HistoryState { entries: self.entries@, current: self.current_index as nat }
    }

    pub closed spec fn max(&self) -> nat {
        self.max_size as nat
    }

    /// The position is inside the entries, and there are no more entries than
    /// the capacity.
    pub open spec fn wf(&self) -> bool {
        &&& history_wf(self.state())
        &&& self.state().entries.len() <= self.max()
    }

    /// Create new navigation history holding at most `max_size` entries.
    pub fn new(max_size: usize) -> (h: Self)
        ensures
            h.wf(),
            h.state().entries.len() == 0,
            h.state().current == 0,
            h.max() == max_size,
    {
        NavigationHistory { entries: Vec::new(), current_index: 0, max_size }
    }

    /// Add navigation entry.
    pub fn add_entry(&mut self, entry: NavigationEntry)
        requires
            old(self).wf(),
            old(self).max() > 0,
        ensures
            final(self).wf(),
            final(self).max() == old(self).max(),
            final(self).state() == history_add(old(self).state(), old(self).max(), entry),
    {
        let ghost e = entry;
        let ghost h = self.state();
        if self.entries.len() > self.current_index + 1 {
            self.entries.truncate(self.current_index + 1);
        }
        assert(self.entries@ == if h.entries.len() > h.current + 1 { h.entries.subrange(0, h.current + 1 as int) } else { h.entries });
        self.entries.push(entry);
        if self.entries.len() > self.max_size {
            self.entries.remove(0);
        }
        self.current_index = self.entries.len() - 1;
        assert(self.state().entries =~= history_add(h, self.max(), e).entries);
    }

    /// Go back.
    pub fn back(&mut self) -> (r: Option<NavigationEntry>)
        requires
            old(self).wf(),
        ensures
            final(self).wf(),
            final(self).max() == old(self).max(),
            (final(self).state(), r) == history_back(old(self).state()),
    {
        if self.current_index > 0 {
            self.current_index = self.current_index - 1;
            if self.current_index < self.entries.len() {
                Some(self.entries[self.current_index].duplicate())
            } else {
                None
            }
        } else {
            None
        }
    }

    /// Go forward.
    pub fn forward(&mut self) -> (r: Option<NavigationEntry>)
        requires
            old(self).wf(),
        ensures
            final(self).wf(),
            final(self).max() == old(self).max(),
            (final(self).state(), r) == history_forward(old(self).state()),
    {
        if self.entries.len() > 0 && self.current_index < self.entries.len() - 1 {
            self.current_index = self.current_index + 1;
            Some(self.entries[self.current_index].duplicate())
        } else {
            None
        }
    }

    /// Get current entry.
    pub fn current(&self) -> (r: Option<NavigationEntry>)
        ensures
            r == history_current(self.state()),
    {
        if self.current_index < self.entries.len() {
            Some(self.entries[self.current_index].duplicate())
        } else {
            None
        }
    }

    /// Clear history.
    pub fn clear(&mut self)
        ensures
            final(self).wf(),
            final(self).max() == old(self).max(),
            final(self).state().entries.len() == 0,
            final(self).state().current == 0,
    {
        self.entries.clear();
        self.current_index = 0;
    }
}


/// Focusable element.
#[derive(Debug, Clone)]
pub struct FocusableElement {
    pub id: String,
    pub element_type: String,
    pub label: String,
    pub parent: Option<String>,
    pub children: Vec<String>,
    pub enabled: bool,
    pub visible: bool,
    pub bounds: Option<(i32, i32, i32, i32)>,
}

/// `k` names a registered element that is enabled and visible.
pub open spec fn focusable(m: Map<Seq<char>, FocusableElement>, k: Seq<char>) -> bool {
    m.contains_key(k) && m[k].enabled && m[k].visible
}

pub open spec fn above(bound: Option<Seq<char>>, k: Seq<char>) -> bool {
    match bound {
        Some(b) => seq_lt(b, k),
        None => true,
    }
}

pub open spec fn below(bound: Option<Seq<char>>, k: Seq<char>) -> bool {
    match bound {
        Some(b) => seq_lt(k, b),
        None => true,
    }
}

/// `k` is the least focusable id above `bound` (ids compared as strings).
pub open spec fn least_above(m: Map<Seq<char>, FocusableElement>, bound: Option<Seq<char>>, k: Seq<char>) -> bool {
    &&& focusable(m, k)
    &&& above(bound, k)
    &&& forall|j: Seq<char>| focusable(m, j) && above(bound, j) ==> j == k || seq_lt(k, j)
}

/// `k` is the greatest focusable id below `bound`.
pub open spec fn greatest_below(m: Map<Seq<char>, FocusableElement>, bound: Option<Seq<char>>, k: Seq<char>) -> bool {
    &&& focusable(m, k)
    &&& below(bound, k)
    &&& forall|j: Seq<char>| focusable(m, j) && below(bound, j) ==> j == k || seq_lt(j, k)
}

/// Target of `next`: focusable elements are ordered by id; the one after the
/// focused element, wrapping to the first, or the first when the focused element is
/// not focusable or nothing is focused.
pub open spec fn next_target(m: Map<Seq<char>, FocusableElement>, cur: Option<Seq<char>>, k: Seq<char>) -> bool {
    match cur {
        Some(c) => if focusable(m, c) && exists|j: Seq<char>| focusable(m, j) && seq_lt(c, j) {
            least_above(m, Some(c), k)
        } else {
            least_above(m, None, k)
        },
        None => least_above(m, None, k),
    }
}

/// Target of `prev`: the element before the focused one, wrapping to the last, or
/// the last when the focused element is not focusable or nothing is focused.
pub open spec fn prev_target(m: Map<Seq<char>, FocusableElement>, cur: Option<Seq<char>>, k: Seq<char>) -> bool {
    match cur {
        Some(c) => if focusable(m, c) && exists|j: Seq<char>| focusable(m, j) && seq_lt(j, c) {
            greatest_below(m, Some(c), k)
        } else {
            greatest_below(m, None, k)
        },
        None => greatest_below(m, None, k),
    }
}

proof fn lemma_greatest_below_unique(m: Map<Seq<char>, FocusableElement>, bound: Option<Seq<char>>, a: Seq<char>, b: Seq<char>)
    requires
        greatest_below(m, bound, a),
        greatest_below(m, bound, b),
    ensures a == b,
{
    if a != b {
        assert(seq_lt(b, a));
        assert(seq_lt(a, b));
        lemma_seq_lt_asymmetric(a, b);
    }
}

/// With a focusable element focused, going to the previous element after the
/// next one comes back to it: it is the one target of `prev` from there.
pub proof fn law_prev_undoes_next(m: Map<Seq<char>, FocusableElement>, f: Seq<char>, k: Seq<char>)
    requires
        focusable(m, f),
        next_target(m, Some(f), k),
    ensures
        prev_target(m, Some(k), f),
        forall|g: Seq<char>| prev_target(m, Some(k), g) ==> g == f,
{
    if exists|j: Seq<char>| focusable(m, j) && seq_lt(f, j) {
        // `k` is the least element above `f`: nothing lies between them.
        assert(least_above(m, Some(f), k));
        assert(seq_lt(f, k));
        assert forall|j: Seq<char>| focusable(m, j) && below(Some(k), j) implies j == f || seq_lt(j, f) by {
            lemma_seq_lt_total(j, f);
            if seq_lt(f, j) {
                assert(j == k || seq_lt(k, j));
                lemma_seq_lt_irreflexive(j);
                lemma_seq_lt_asymmetric(j, k);
            }
        }
        assert(greatest_below(m, Some(k), f));
        assert(prev_target(m, Some(k), f));
        assert forall|g: Seq<char>| prev_target(m, Some(k), g) implies g == f by {
            lemma_greatest_below_unique(m, Some(k), g, f);
        }
    } else {
        // `f` is the greatest element and `k` the least.
        assert(least_above(m, None, k));
        assert forall|j: Seq<char>| focusable(m, j) && below(None, j) implies j == f || seq_lt(j, f) by {
            lemma_seq_lt_total(j, f);
        }
        assert(greatest_below(m, None, f));
        if exists|j: Seq<char>| focusable(m, j) && seq_lt(j, k) {
            let j = choose|j: Seq<char>| focusable(m, j) && seq_lt(j, k);
            assert(j == k || seq_lt(k, j));
            lemma_seq_lt_irreflexive(j);
            lemma_seq_lt_asymmetric(j, k);
        }
        assert(prev_target(m, Some(k), f));
        assert forall|g: Seq<char>| prev_target(m, Some(k), g) implies g == f by {
            lemma_greatest_below_unique(m, None, g, f);
        }
    }
}

/// Capacity of the navigation history of `KeyboardNavigation`.
pub const HISTORY_SIZE: usize = 100;

/// Keyboard navigation.
pub struct KeyboardNavigation {
    enabled: bool,
    mode: NavigationMode,
    focus_indicator: FocusIndicator,
    shortcuts: ShortcutManager,
    history: NavigationHistory,
    focused_element: Option<String>,
    focusable_elements: StrMap<FocusableElement>,
}

/// The state of a `KeyboardNavigation` that its operations change.
pub struct NavView {
    pub enabled: bool,
    pub mode: NavigationMode,
    pub focused: Option<Seq<char>>,
    pub elements: Map<Seq<char>, FocusableElement>,
    pub history: HistoryState,
}

pub open spec fn opt_view(o: Option<String>) -> Option<Seq<char>> {
    match o {
        Some(s) => Some(s@),
        None => None,
    }
}

/// Effect of focusing `id`: it becomes the focused element and a history entry
/// naming it is added.
pub open spec fn focus_post(old: NavView, new: NavView, id: Seq<char>, timestamp: i64) -> bool {
    let e = new.history.entries.last();
    &&& new.focused == Some(id)
    &&& new.enabled == old.enabled
    &&& new.mode == old.mode
    &&& new.elements == old.elements
    &&& new.history == history_add(old.history, HISTORY_SIZE as nat, e)
    &&& e.element_id@ == id
    &&& e.element_type == old.elements[id].element_type
    &&& e.path@ == id
    &&& e.timestamp == timestamp
}

/// Effect of `next`.
pub open spec fn next_post(old: NavView, new: NavView, timestamp: i64) -> bool {
    if exists|k: Seq<char>| focusable(old.elements, k) {
        exists|k: Seq<char>| next_target(old.elements, old.focused, k) && focus_post(old, new, k, timestamp)
    } else {
        new == old
    }
}

/// Effect of `prev`.
pub open spec fn prev_post(old: NavView, new: NavView, timestamp: i64) -> bool {
    if exists|k: Seq<char>| focusable(old.elements, k) {
        exists|k: Seq<char>| prev_target(old.elements, old.focused, k) && focus_post(old, new, k, timestamp)
    } else {
        new == old
    }
}

pub open spec fn cmd_is(b: KeyBinding, c: Seq<char>) -> bool {
    b.command@ == c
}

impl KeyboardNavigation {
    pub closed spec fn wf(&self) -> bool {
        &&& self.shortcuts.wf()
        &&& self.history.wf()
        &&& self.history.max() == HISTORY_SIZE
        &&& self.focusable_elements.wf()
    }

    pub closed spec fn view(&self) -> NavView {
        NavView {
            enabled: self.enabled,
            mode: self.mode,
            focused: opt_view(self.focused_element),
            elements: self.focusable_elements@,
            history: self.history.state(),
        }
    }

    /// Registered elements in registration order.
    pub closed spec fn element_seq(&self) -> Seq<FocusableElement> {
        self.focusable_elements.value_seq()
    }

    pub closed spec fn shortcuts_spec(&self) -> ShortcutManager {
        self.shortcuts
    }

    pub closed spec fn indicator(&self) -> FocusIndicator {
        self.focus_indicator
    }

    /// Create new keyboard navigation in the given mode, with the default
    /// shortcuts registered in the "global" context.
    pub fn new(default_navigation_mode: NavigationMode) -> (nav: Self)
        ensures
            nav.wf(),
            nav@.enabled,
            nav@.mode == default_navigation_mode,
            nav@.focused is None,
            nav@.elements == Map::<Seq<char>, FocusableElement>::empty(),
            nav@.history.entries.len() == 0,
            nav.indicator().enabled && nav.indicator().color@ == "#007acc"@ && nav.indicator().width == 2
                && nav.indicator().animation && nav.indicator().sound,
            nav.shortcuts_spec().wf(),
            nav.shortcuts_spec().context() == "global"@,
            nav.shortcuts_spec().binding_seq().len() == 15,
            forall|i: int| 0 <= i < 15 ==> #[trigger] default_shortcut_matches(nav.shortcuts_spec().binding_seq()[i], i),
            forall|i: int| 0 <= i < 15 ==> #[trigger] nav.shortcuts_spec().bindings_view().contains_key(default_shortcut(i).0),
            nav.shortcuts_spec().context_index() == Map::<Seq<char>, Seq<Seq<char>>>::empty().insert("global"@, default_ids()),
    {
        let mut shortcuts = ShortcutManager::new();
        register_default_shortcuts(&mut shortcuts);
        KeyboardNavigation {
            enabled: true,
            mode: default_navigation_mode,
            focus_indicator: FocusIndicator {
                enabled: true,
                style: FocusStyle::Outline,
                color: owned("#007acc"),
                width: 2,
                animation: true,
                sound: true,
            },
            shortcuts,
            history: NavigationHistory::new(HISTORY_SIZE),
            focused_element: None,
            focusable_elements: StrMap::new(),
        }
    }

    /// Enable navigation.
    pub fn enable(&mut self)
        requires old(self).wf(),
        ensures final(self).wf(), final(self)@ == (NavView { enabled: true, ..old(self)@ }),
            final(self).shortcuts_spec() == old(self).shortcuts_spec(),
    {
        self.enabled = true;
    }

    /// Disable navigation.
    pub fn disable(&mut self)
        requires old(self).wf(),
        ensures final(self).wf(), final(self)@ == (NavView { enabled: false, ..old(self)@ }),
            final(self).shortcuts_spec() == old(self).shortcuts_spec(),
    {
        self.enabled = false;
    }

    /// Check if enabled.
    pub fn is_enabled(&self) -> (b: bool)
        ensures b == self@.enabled,
    {
        self.enabled
    }

    /// Set navigation mode.
    pub fn set_mode(&mut self, mode: NavigationMode)
        requires old(self).wf(),
        ensures final(self).wf(), final(self)@ == (NavView { mode: mode, ..old(self)@ }),
            final(self).shortcuts_spec() == old(self).shortcuts_spec(),
    {
        self.mode = mode;
    }

    /// Get navigation mode.
    pub fn mode(&self) -> (m: NavigationMode)
        ensures m == self@.mode,
    {
        self.mode
    }

    /// Set focus indicator.
    pub fn set_focus_indicator(&mut self, indicator: FocusIndicator)
        requires old(self).wf(),
        ensures final(self).wf(), final(self)@ == old(self)@, final(self).indicator() == indicator,
            final(self).shortcuts_spec() == old(self).shortcuts_spec(),
    {
        self.focus_indicator = indicator;
    }

    /// Get focus indicator.
    pub fn focus_indicator(&self) -> (r: &FocusIndicator)
        ensures *r == self.indicator(),
    {
        &self.focus_indicator
    }

    /// Register focusable element under its id.
    pub fn register_element(&mut self, element: FocusableElement)
        requires old(self).wf(),
        ensures
            final(self).wf(),
            final(self)@ == (NavView { elements: old(self)@.elements.insert(element.id@, element), ..old(self)@ }),
            final(self).shortcuts_spec() == old(self).shortcuts_spec(),
    {
        let id = element.id.clone();
        self.focusable_elements.insert(id, element);
    }

    /// Unregister element.
    pub fn unregister_element(&mut self, id: &str)
        requires old(self).wf(),
        ensures
            final(self).wf(),
            final(self)@ == (NavView { elements: old(self)@.elements.remove(id@), ..old(self)@ }),
            final(self).shortcuts_spec() == old(self).shortcuts_spec(),
    {
        self.focusable_elements.remove(id);
    }

    /// Focus element `id` if it is registered, enabled and visible; `timestamp`
    /// stamps the history entry. Playing the focus sound is left to the caller.
    pub fn focus(&mut self, id: &str, timestamp: i64) -> (r: Result<(), AccessibilityError>)
        requires old(self).wf(),
        ensures
            final(self).wf(),
            final(self).shortcuts_spec() == old(self).shortcuts_spec(),
            final(self).indicator() == old(self).indicator(),
            r is Ok <==> focusable(old(self)@.elements, id@),
            r is Ok ==> focus_post(old(self)@, final(self)@, id@, timestamp),
            match r {
                Ok(_) => true,
                Err(e) => final(self)@ == old(self)@ && e == AccessibilityError::KeyboardError(e->KeyboardError_0)
                    && e->KeyboardError_0@ == "Element not focusable: "@ + id@,
            },
    {
        let ghost old_view = self@;
        let entry = match self.focusable_elements.get(id) {
            Some(element) => {
                if element.enabled && element.visible {
                    Some(NavigationEntry {
                        element_id: owned(id),
                        element_type: element.element_type.clone(),
                        path: owned(id),
                        timestamp,
                    })
                } else {
                    None
                }
            },
            None => None,
        };
        match entry {
            Some(e) => {
                self.focused_element = Some(owned(id));
                let ghost e2 = e;
                self.history.add_entry(e);
                assert(self.history.state().entries.last() == e2);
                Ok(())
            },
            None => Err(AccessibilityError::KeyboardError(crate::text::concat2("Element not focusable: ", id))),
        }
    }

    /// Blur current element.
    pub fn blur(&mut self)
        requires old(self).wf(),
        ensures final(self).wf(), final(self)@ == (NavView { focused: None, ..old(self)@ }),
            final(self).shortcuts_spec() == old(self).shortcuts_spec(),
    {
        self.focused_element = None;
    }

    /// Get focused element.
    pub fn focused(&self) -> (r: Option<String>)
        ensures opt_view(r) == self@.focused,
    {
        match &self.focused_element {
            Some(s) => Some(s.clone()),
            None => None,
        }
    }

    /// Index of the least focusable id above `bound`, by a scan of the elements.
    fn least_above_index(&self, bound: Option<&String>) -> (r: Option<usize>)
        requires self.wf(),
        ensures
            match r {
                Some(i) => i < self.focusable_elements.key_seq().len()
                    && least_above(self@.elements, opt_ref_view(bound), self.focusable_elements.key_seq()[i as int]),
                None => forall|j: Seq<char>| !(focusable(self@.elements, j) && above(opt_ref_view(bound), j)),
            },
    {
        let m = &self.focusable_elements;
        proof { m.lemma_key_seq(); }
        let n = m.len();
        let mut best: Option<usize> = None;
        let mut i: usize = 0;
        while i < n
            invariant
                m.wf(),
                n == m.key_seq().len(),
                n == m.value_seq().len(),
                i <= n,
                forall|j: int| 0 <= j < n ==> #[trigger] m@[m.key_seq()[j]] == m.value_seq()[j],
                forall|j: int| 0 <= j < n ==> m@.contains_key(#[trigger] m.key_seq()[j]),
                match best {
                    Some(b) => b < i && m.value_seq()[b as int].enabled && m.value_seq()[b as int].visible
                        && above(opt_ref_view(bound), m.key_seq()[b as int])
                        && forall|j: int| 0 <= j < i && #[trigger] m.value_seq()[j].enabled && m.value_seq()[j].visible
                            && above(opt_ref_view(bound), m.key_seq()[j]) ==> j == b || seq_lt(m.key_seq()[b as int], m.key_seq()[j]),
                    None => forall|j: int| 0 <= j < i ==> !(#[trigger] m.value_seq()[j].enabled && m.value_seq()[j].visible
                            && above(opt_ref_view(bound), m.key_seq()[j])),
                },
            decreases n - i,
        {
            let (k, e) = m.entry_at(i);
            let ok_bound = match bound {
                Some(b) => str_lt(b.as_str(), k.as_str()),
                None => true,
            };
            if e.enabled && e.visible && ok_bound {
                match best {
                    Some(b) => {
                        let (kb, _) = m.entry_at(b);
                        if str_lt(k.as_str(), kb.as_str()) {
                            proof {
                                assert forall|j: int| 0 <= j < i + 1 && #[trigger] m.value_seq()[j].enabled && m.value_seq()[j].visible
                                    && above(opt_ref_view(bound), m.key_seq()[j]) implies j == i || seq_lt(m.key_seq()[i as int], m.key_seq()[j]) by {
                                    if j < i && j != b {
                                        lemma_seq_lt_transitive(m.key_seq()[i as int], m.key_seq()[b as int], m.key_seq()[j]);
                                    }
                                }
                            }
                            best = Some(i);
                        } else {
                            proof {
                                lemma_seq_lt_total(m.key_seq()[i as int], m.key_seq()[b as int]);
                                assert(m.key_seq()[i as int] != m.key_seq()[b as int]);
                            }
                        }
                    },
                    None => {
                        best = Some(i);
                    },
                }
            }
            i = i + 1;
        }
        proof {
            match best {
                Some(b) => {
                    let kb = m.key_seq()[b as int];
                    assert forall|j: Seq<char>| focusable(self@.elements, j) && above(opt_ref_view(bound), j) implies j == kb || seq_lt(kb, j) by {
                        assert(m.key_seq().contains(j));
                        let t = choose|t: int| 0 <= t < n && m.key_seq()[t] == j;
                        assert(m@[m.key_seq()[t]] == m.value_seq()[t]);
                    }
                },
                None => {
                    assert forall|j: Seq<char>| !(focusable(self@.elements, j) && above(opt_ref_view(bound), j)) by {
                        if focusable(self@.elements, j) && above(opt_ref_view(bound), j) {
                            assert(m.key_seq().contains(j));
                            let t = choose|t: int| 0 <= t < n && m.key_seq()[t] == j;
                            assert(m@[m.key_seq()[t]] == m.value_seq()[t]);
                        }
                    }
                },
            }
        }
        best
    }

    /// Index of the greatest focusable id below `bound`, by a scan of the elements.
    fn greatest_below_index(&self, bound: Option<&String>) -> (r: Option<usize>)
        requires self.wf(),
        ensures
            match r {
                Some(i) => i < self.focusable_elements.key_seq().len()
                    && greatest_below(self@.elements, opt_ref_view(bound), self.focusable_elements.key_seq()[i as int]),
                None => forall|j: Seq<char>| !(focusable(self@.elements, j) && below(opt_ref_view(bound), j)),
            },
    {
        let m = &self.focusable_elements;
        proof { m.lemma_key_seq(); }
        let n = m.len();
        let mut best: Option<usize> = None;
        let mut i: usize = 0;
        while i < n
            invariant
                m.wf(),
                n == m.key_seq().len(),
                n == m.value_seq().len(),
                i <= n,
                forall|j: int| 0 <= j < n ==> #[trigger] m@[m.key_seq()[j]] == m.value_seq()[j],
                forall|j: int| 0 <= j < n ==> m@.contains_key(#[trigger] m.key_seq()[j]),
                match best {
                    Some(b) => b < i && m.value_seq()[b as int].enabled && m.value_seq()[b as int].visible
                        && below(opt_ref_view(bound), m.key_seq()[b as int])
                        && forall|j: int| 0 <= j < i && #[trigger] m.value_seq()[j].enabled && m.value_seq()[j].visible
                            && below(opt_ref_view(bound), m.key_seq()[j]) ==> j == b || seq_lt(m.key_seq()[j], m.key_seq()[b as int]),
                    None => forall|j: int| 0 <= j < i ==> !(#[trigger] m.value_seq()[j].enabled && m.value_seq()[j].visible
                            && below(opt_ref_view(bound), m.key_seq()[j])),
                },
            decreases n - i,
        {
            let (k, e) = m.entry_at(i);
            let ok_bound = match bound {
                Some(b) => str_lt(k.as_str(), b.as_str()),
                None => true,
            };
            if e.enabled && e.visible && ok_bound {
                match best {
                    Some(b) => {
                        let (kb, _) = m.entry_at(b);
                        if str_lt(kb.as_str(), k.as_str()) {
                            proof {
                                assert forall|j: int| 0 <= j < i + 1 && #[trigger] m.value_seq()[j].enabled && m.value_seq()[j].visible
                                    && below(opt_ref_view(bound), m.key_seq()[j]) implies j == i || seq_lt(m.key_seq()[j], m.key_seq()[i as int]) by {
                                    if j < i && j != b {
                                        lemma_seq_lt_transitive(m.key_seq()[j], m.key_seq()[b as int], m.key_seq()[i as int]);
                                    }
                                }
                            }
                            best = Some(i);
                        } else {
                            proof {
                                lemma_seq_lt_total(m.key_seq()[i as int], m.key_seq()[b as int]);
                                assert(m.key_seq()[i as int] != m.key_seq()[b as int]);
                            }
                        }
                    },
                    None => {
                        best = Some(i);
                    },
                }
            }
            i = i + 1;
        }
        proof {
            match best {
                Some(b) => {
                    let kb = m.key_seq()[b as int];
                    assert forall|j: Seq<char>| focusable(self@.elements, j) && below(opt_ref_view(bound), j) implies j == kb || seq_lt(j, kb) by {
                        assert(m.key_seq().contains(j));
                        let t = choose|t: int| 0 <= t < n && m.key_seq()[t] == j;
                        assert(m@[m.key_seq()[t]] == m.value_seq()[t]);
                    }
                },
                None => {
                    assert forall|j: Seq<char>| !(focusable(self@.elements, j) && below(opt_ref_view(bound), j)) by {
                        if focusable(self@.elements, j) && below(opt_ref_view(bound), j) {
                            assert(m.key_seq().contains(j));
                            let t = choose|t: int| 0 <= t < n && m.key_seq()[t] == j;
                            assert(m@[m.key_seq()[t]] == m.value_seq()[t]);
                        }
                    }
                },
            }
        }
        best
    }

    /// Navigate to next element.
    pub fn next(&mut self, timestamp: i64) -> (r: Result<(), AccessibilityError>)
        requires old(self).wf(),
        ensures
            final(self).wf(),
            r is Ok,
            next_post(old(self)@, final(self)@, timestamp),
            final(self).shortcuts_spec() == old(self).shortcuts_spec(),
            final(self).indicator() == old(self).indicator(),
    {
        let ghost old_view = self@;
        let cur = self.focused();
        let mut target = None;
        match &cur {
            Some(c) => {
                if self.focusable_elements.contains_key(c.as_str()) {
                    let e = self.focusable_elements.get(c.as_str()).unwrap();
                    if e.enabled && e.visible {
                        target = self.least_above_index(Some(c));
                        proof {
                            if target is None {
                                assert forall|j: Seq<char>| focusable(old_view.elements, j) implies !seq_lt(c@, j) by {
                                    assert(!(focusable(self@.elements, j) && above(opt_ref_view(Some(c)), j)));
                                }
                            }
                        }
                    }
                }
            },
            None => {},
        }
        if target.is_none() {
            target = self.least_above_index(None);
        }
        match target {
            None => {
                proof {
                    assert(!exists|k: Seq<char>| focusable(old_view.elements, k)) by {
                        if exists|k: Seq<char>| focusable(old_view.elements, k) {
                            let k = choose|k: Seq<char>| focusable(old_view.elements, k);
                            assert(above(None, k));
                        }
                    }
                }
                Ok(())
            },
            Some(t) => {
                let (k, _) = self.focusable_elements.entry_at(t);
                let id = k.clone();
                let ghost kid = id@;
                proof {
                    assert(next_target(old_view.elements, old_view.focused, kid));
                }
                let r = self.focus(id.as_str(), timestamp);
                proof {
                    assert(focus_post(old_view, self@, kid, timestamp));
                }
                r
            },
        }
    }

    /// Navigate to previous element.
    pub fn prev(&mut self, timestamp: i64) -> (r: Result<(), AccessibilityError>)
        requires old(self).wf(),
        ensures
            final(self).wf(),
            r is Ok,
            prev_post(old(self)@, final(self)@, timestamp),
            final(self).shortcuts_spec() == old(self).shortcuts_spec(),
            final(self).indicator() == old(self).indicator(),
    {
        let ghost old_view = self@;
        let cur = self.focused();
        let mut target = None;
        match &cur {
            Some(c) => {
                if self.focusable_elements.contains_key(c.as_str()) {
                    let e = self.focusable_elements.get(c.as_str()).unwrap();
                    if e.enabled && e.visible {
                        target = self.greatest_below_index(Some(c));
                        proof {
                            if target is None {
                                assert forall|j: Seq<char>| focusable(old_view.elements, j) implies !seq_lt(j, c@) by {
                                    assert(!(focusable(self@.elements, j) && below(opt_ref_view(Some(c)), j)));
                                }
                            }
                        }
                    }
                }
            },
            None => {},
        }
        if target.is_none() {
            target = self.greatest_below_index(None);
        }
        match target {
            None => {
                proof {
                    assert(!exists|k: Seq<char>| focusable(old_view.elements, k)) by {
                        if exists|k: Seq<char>| focusable(old_view.elements, k) {
                            let k = choose|k: Seq<char>| focusable(old_view.elements, k);
                            assert(below(None, k));
                        }
                    }
                }
                Ok(())
            },
            Some(t) => {
                let (k, _) = self.focusable_elements.entry_at(t);
                let id = k.clone();
                let ghost kid = id@;
                proof {
                    assert(prev_target(old_view.elements, old_view.focused, kid));
                }
                let r = self.focus(id.as_str(), timestamp);
                proof {
                    assert(focus_post(old_view, self@, kid, timestamp));
                }
                r
            },
        }
    }

    /// Activate current element: succeeds exactly when an element is focused.
    pub fn activate(&self) -> (r: Result<(), AccessibilityError>)
        ensures
            r is Ok <==> self@.focused is Some,
            match r {
                Ok(_) => true,
                Err(e) => e == AccessibilityError::KeyboardError(e->KeyboardError_0)
                    && e->KeyboardError_0@ == "No element focused"@,
            },
    {
        match &self.focused_element {
            Some(_) => Ok(()),
            None => Err(AccessibilityError::KeyboardError(owned("No element focused"))),
        }
    }

    /// Process key event: when navigation is enabled and the key selects a binding,
    /// runs its command ("next", "prev" or "activate"; others are ignored) and
    /// reports `true`; otherwise reports `false` and changes nothing.
    pub fn process_key(&mut self, key: &str, modifiers: u32, timestamp: i64) -> (r: Result<bool, AccessibilityError>)
        requires old(self).wf(),
        ensures
            final(self).wf(),
            final(self).shortcuts_spec() == old(self).shortcuts_spec(),
            final(self).indicator() == old(self).indicator(),
            !old(self)@.enabled ==> r == Ok::<bool, AccessibilityError>(false) && final(self)@ == old(self)@,
            old(self)@.enabled ==> match old(self).shortcuts_spec().selected(key@, modifiers) {
                None => r == Ok::<bool, AccessibilityError>(false) && final(self)@ == old(self)@,
                Some(b) => if cmd_is(b, "next"@) {
                    r == Ok::<bool, AccessibilityError>(true) && next_post(old(self)@, final(self)@, timestamp)
                } else if cmd_is(b, "prev"@) {
                    r == Ok::<bool, AccessibilityError>(true) && prev_post(old(self)@, final(self)@, timestamp)
                } else if cmd_is(b, "activate"@) {
                    final(self)@ == old(self)@ && (r == Ok::<bool, AccessibilityError>(true) <==> old(self)@.focused is Some)
                        && (r is Err ==> old(self)@.focused is None)
                } else {
                    r == Ok::<bool, AccessibilityError>(true) && final(self)@ == old(self)@
                },
            },
    {
        if !self.enabled {
            return Ok(false);
        }
        let command = match self.shortcuts.get_binding(key, modifiers) {
            Some(b) => b.command.clone(),
            None => return Ok(false),
        };
        if str_eq(command.as_str(), "next") {
            match self.next(timestamp) {
                Ok(()) => Ok(true),
                Err(e) => Err(e),
            }
        } else if str_eq(command.as_str(), "prev") {
            match self.prev(timestamp) {
                Ok(()) => Ok(true),
                Err(e) => Err(e),
            }
        } else if str_eq(command.as_str(), "activate") {
            match self.activate() {
                Ok(()) => Ok(true),
                Err(e) => Err(e),
            }
        } else {
            Ok(true)
        }
    }

    /// Get shortcut manager.
    pub fn shortcuts(&self) -> (r: &ShortcutManager)
        ensures *r == self.shortcuts_spec(),
    {
        &self.shortcuts
    }

    /// Mutable access to the shortcut manager.
    pub fn shortcuts_mut(&mut self) -> (r: &mut ShortcutManager)
        ensures
            *r == old(self).shortcuts_spec(),
            final(self).shortcuts_spec() == *final(r),
            final(self)@ == old(self)@,
            final(self).indicator() == old(self).indicator(),
            final(r).wf() && old(self).wf() ==> final(self).wf(),
    {
        &mut self.shortcuts
    }

    /// Get navigation history.
    pub fn history(&self) -> (r: &NavigationHistory)
        ensures r.state() == self@.history, r.max() == HISTORY_SIZE || !self.wf(),
    {
        &self.history
    }

    /// Focusable elements (registered, enabled and visible), in registration order.
    pub fn focusable_elements(&self) -> (r: Vec<&FocusableElement>)
        requires self.wf(),
        ensures
            r@.len() == self.element_seq().filter(|e: FocusableElement| e.enabled && e.visible).len(),
            forall|i: int| 0 <= i < r@.len() ==> *#[trigger] r@[i] == self.element_seq().filter(|e: FocusableElement| e.enabled && e.visible)[i],
    {
        let m = &self.focusable_elements;
        let ghost pred = |e: FocusableElement| e.enabled && e.visible;
        let ghost vs = m.value_seq();
        let mut r: Vec<&FocusableElement> = Vec::new();
        let n = m.len();
        let mut i: usize = 0;
        while i < n
            invariant
                n == vs.len(),
                vs == m.value_seq(),
                i <= n,
                pred == (|e: FocusableElement| e.enabled && e.visible),
                r@.len() == vs.subrange(0, i as int).filter(pred).len(),
                forall|j: int| 0 <= j < r@.len() ==> *#[trigger] r@[j] == vs.subrange(0, i as int).filter(pred)[j],
            decreases n - i,
        {
            proof {
                assert(vs.subrange(0, i + 1).drop_last() =~= vs.subrange(0, i as int));
                reveal_with_fuel(Seq::filter, 1);
            }
            let (_, e) = m.entry_at(i);
            if e.enabled && e.visible {
                r.push(e);
            }
            i = i + 1;
        }
        assert(vs.subrange(0, n as int) =~= vs);
        r
    }
}

pub open spec fn opt_ref_view(o: Option<&String>) -> Option<Seq<char>> {
    match o {
        Some(s) => Some(s@),
        None => None,
    }
}

/// The `i`-th default shortcut: (id, description, key, modifiers, command).
pub open spec fn default_shortcut(i: int) -> (Seq<char>, Seq<char>, Seq<char>, u32, Seq<char>) {
    if i == 0 { ("tab"@, "Navigate forward"@, "Tab"@, MODIFIERS_EMPTY, "next"@) }
    else if i == 1 { ("shift-tab"@, "Navigate backward"@, "Tab"@, MODIFIER_SHIFT, "prev"@) }
    else if i == 2 { ("enter"@, "Activate"@, "Enter"@, MODIFIERS_EMPTY, "activate"@) }
    else if i == 3 { ("space"@, "Toggle"@, " "@, MODIFIERS_EMPTY, "toggle"@) }
    else if i == 4 { ("escape"@, "Cancel"@, "Escape"@, MODIFIERS_EMPTY, "cancel"@) }
    else if i == 5 { ("arrow-up"@, "Move up"@, "ArrowUp"@, MODIFIERS_EMPTY, "up"@) }
    else if i == 6 { ("arrow-down"@, "Move down"@, "ArrowDown"@, MODIFIERS_EMPTY, "down"@) }
    else if i == 7 { ("arrow-left"@, "Move left"@, "ArrowLeft"@, MODIFIERS_EMPTY, "left"@) }
    else if i == 8 { ("arrow-right"@, "Move right"@, "ArrowRight"@, MODIFIERS_EMPTY, "right"@) }
    else if i == 9 { ("home"@, "Go to start"@, "Home"@, MODIFIERS_EMPTY, "home"@) }
    else if i == 10 { ("end"@, "Go to end"@, "End"@, MODIFIERS_EMPTY, "end"@) }
    else if i == 11 { ("page-up"@, "Page up"@, "PageUp"@, MODIFIERS_EMPTY, "page-up"@) }
    else if i == 12 { ("page-down"@, "Page down"@, "PageDown"@, MODIFIERS_EMPTY, "page-down"@) }
    else if i == 13 { ("ctrl-home"@, "Go to first"@, "Home"@, MODIFIER_CONTROL, "first"@) }
    else { ("ctrl-end"@, "Go to last"@, "End"@, MODIFIER_CONTROL, "last"@) }
}

/// Binding `b` is the `i`-th default shortcut, enabled, in the "global" context.
pub open spec fn default_shortcut_matches(b: KeyBinding, i: int) -> bool {
    let d = default_shortcut(i);
    &&& b.id@ == d.0
    &&& b.description@ == d.1
    &&& b.key@ == d.2
    &&& b.modifiers == d.3
    &&& b.command@ == d.4
    &&& b.context@ == "global"@
    &&& b.enabled
}

fn global_binding(id: &str, description: &str, key: &str, modifiers: u32, command: &str) -> (b: KeyBinding)
    ensures
        b.id@ == id@,
        b.description@ == description@,
        b.key@ == key@,
        b.modifiers == modifiers,
        b.command@ == command@,
        b.context@ == "global"@,
        b.enabled,
{
    KeyBinding {
        id: owned(id),
        key: owned(key),
        modifiers,
        command: owned(command),
        context: owned("global"),
        description: owned(description),
        enabled: true,
    }
}

proof fn lemma_default_ids_distinct(a: int, b: int)
    requires
        0 <= a < b < 15,
    ensures
        default_shortcut(a).0 != default_shortcut(b).0,
{
    reveal_strlit("tab");
    reveal_strlit("shift-tab");
    reveal_strlit("enter");
    reveal_strlit("space");
    reveal_strlit("escape");
    reveal_strlit("arrow-up");
    reveal_strlit("arrow-down");
    reveal_strlit("arrow-left");
    reveal_strlit("arrow-right");
    reveal_strlit("home");
    reveal_strlit("end");
    reveal_strlit("page-up");
    reveal_strlit("page-down");
    reveal_strlit("ctrl-home");
    reveal_strlit("ctrl-end");
    let x = default_shortcut(a).0;
    let y = default_shortcut(b).0;
    if x == y {
        if a == 6 && b == 7 {
            assert(x[6] != y[6]);
        } else {
            assert(x.len() != y.len() || x[0] != y[0]);
        }
    }
}

/// The ids of the default shortcuts, in order.
pub open spec fn default_ids() -> Seq<Seq<char>> {
    Seq::new(15, |i: int| default_shortcut(i).0)
}

fn register_default_shortcuts(sm: &mut ShortcutManager)
    requires
        old(sm).wf(),
        old(sm).binding_seq().len() == 0,
        old(sm).bindings_view() == Map::<Seq<char>, KeyBinding>::empty(),
        old(sm).context_index() == Map::<Seq<char>, Seq<Seq<char>>>::empty(),
    ensures
        final(sm).wf(),
        final(sm).context() == old(sm).context(),
        final(sm).binding_seq().len() == 15,
        forall|i: int| 0 <= i < 15 ==> #[trigger] default_shortcut_matches(final(sm).binding_seq()[i], i),
        forall|i: int| 0 <= i < 15 ==> #[trigger] final(sm).bindings_view().contains_key(default_shortcut(i).0),
        final(sm).context_index() == Map::<Seq<char>, Seq<Seq<char>>>::empty().insert("global"@, default_ids()),
{
    proof {
        reveal_strlit("tab");
        reveal_strlit("shift-tab");
        reveal_strlit("enter");
        reveal_strlit("space");
        reveal_strlit("escape");
        reveal_strlit("arrow-up");
        reveal_strlit("arrow-down");
        reveal_strlit("arrow-left");
        reveal_strlit("arrow-right");
        reveal_strlit("home");
        reveal_strlit("end");
        reveal_strlit("page-up");
        reveal_strlit("page-down");
        reveal_strlit("ctrl-home");
        reveal_strlit("ctrl-end");
    }
    let table: [(&str, &str, &str, u32, &str); 15] = [
        ("tab", "Navigate forward", "Tab", MODIFIERS_EMPTY, "next"),
        ("shift-tab", "Navigate backward", "Tab", MODIFIER_SHIFT, "prev"),
        ("enter", "Activate", "Enter", MODIFIERS_EMPTY, "activate"),
        ("space", "Toggle", " ", MODIFIERS_EMPTY, "toggle"),
        ("escape", "Cancel", "Escape", MODIFIERS_EMPTY, "cancel"),
        ("arrow-up", "Move up", "ArrowUp", MODIFIERS_EMPTY, "up"),
        ("arrow-down", "Move down", "ArrowDown", MODIFIERS_EMPTY, "down"),
        ("arrow-left", "Move left", "ArrowLeft", MODIFIERS_EMPTY, "left"),
        ("arrow-right", "Move right", "ArrowRight", MODIFIERS_EMPTY, "right"),
        ("home", "Go to start", "Home", MODIFIERS_EMPTY, "home"),
        ("end", "Go to end", "End", MODIFIERS_EMPTY, "end"),
        ("page-up", "Page up", "PageUp", MODIFIERS_EMPTY, "page-up"),
        ("page-down", "Page down", "PageDown", MODIFIERS_EMPTY, "page-down"),
        ("ctrl-home", "Go to first", "Home", MODIFIER_CONTROL, "first"),
        ("ctrl-end", "Go to last", "End", MODIFIER_CONTROL, "last"),
    ];
    let mut i: usize = 0;
    while i < 15
        invariant
            sm.wf(),
            i <= 15,
            sm.context() == old(sm).context(),
            sm.binding_seq().len() == i,
            forall|t: int| 0 <= t < 15 ==> (#[trigger] table@[t]).0@ == default_shortcut(t).0
                && table@[t].1@ == default_shortcut(t).1 && table@[t].2@ == default_shortcut(t).2
                && table@[t].3 == default_shortcut(t).3 && table@[t].4@ == default_shortcut(t).4,
            forall|t: int| 0 <= t < i ==> #[trigger] default_shortcut_matches(sm.binding_seq()[t], t),
            forall|k: Seq<char>| #[trigger] sm.bindings_view().contains_key(k) ==> exists|t: int| 0 <= t < i && default_shortcut(t).0 == k,
            forall|t: int| 0 <= t < i ==> #[trigger] sm.bindings_view().contains_key(default_shortcut(t).0),
            i == 0 ==> sm.context_index() == Map::<Seq<char>, Seq<Seq<char>>>::empty(),
            i > 0 ==> sm.context_index() == Map::<Seq<char>, Seq<Seq<char>>>::empty().insert("global"@,
                Seq::new(i as nat, |t: int| default_shortcut(t).0)),
        decreases 15 - i,
    {
        let (id, desc, key, mods, cmd) = table[i];
        let b = global_binding(id, desc, key, mods, cmd);
        proof {
            assert(!sm.bindings_view().contains_key(b.id@)) by {
                if sm.bindings_view().contains_key(b.id@) {
                    let t = choose|t: int| 0 <= t < i && default_shortcut(t).0 == b.id@;
                    lemma_default_ids_distinct(t, i as int);
                }
            }
        }
        let ghost before = sm.context_index();
        sm.add_binding(b);
        proof {
            assert(Seq::new((i + 1) as nat, |t: int| default_shortcut(t).0) =~= if i == 0 {
                seq![default_shortcut(0).0]
            } else {
                Seq::new(i as nat, |t: int| default_shortcut(t).0).push(default_shortcut(i as int).0)
            });
            assert(sm.context_index() =~= Map::<Seq<char>, Seq<Seq<char>>>::empty().insert("global"@,
                Seq::new((i + 1) as nat, |t: int| default_shortcut(t).0)));
        }
        i = i + 1;
    }
    assert(Seq::new(15, |t: int| default_shortcut(t).0) =~= default_ids());
}

} // verus!
