//! Configuration profiles: named sets of settings with a keymap, theme and
//! layout; comparing and merging them. Setting values are JSON texts in
//! canonical (compact) form, so equal texts are equal values.
use vstd::prelude::*;
use crate::customization::CustomizationError;
use crate::stamp::{now_millis, now_seconds};
use crate::strmap::StrMap;
use crate::text::{concat2, i64_to_string, owned, signed_decimal, str_eq};

verus! {

/// Profile scope.
#[derive(Debug, Clone, Copy, PartialEq, Eq, Structural)]
pub enum ProfileScope {
    Global,
    Workspace,
    Language,
    Project,
    Temporary,
}

/// Profile event.
#[derive(Debug, Clone)]
pub enum ProfileEvent {
    Created(String),
    Updated(String),
    Deleted(String),
    Activated(String),
    Deactivated(String),
    Imported(String),
    Exported(String),
}

/// Merge strategy.
#[derive(Debug, Clone, Copy, PartialEq, Eq, Structural)]
pub enum MergeStrategy {
    FirstWins,
    LastWins,
    Union,
    Intersection,
}

/// Configuration profile. Times are milliseconds since the Unix epoch.
pub struct ConfigurationProfile {
    pub name: String,
    pub description: Option<String>,
    pub keymap: Option<String>,
    pub theme: Option<String>,
    pub layout: Option<String>,
    pub settings: StrMap<String>,
    pub created_at: i64,
    pub updated_at: i64,
    pub version: String,
}

/// Profile metadata.
pub struct ProfileMetadata {
    pub name: String,
    pub description: Option<String>,
    pub scope: ProfileScope,
    pub size: usize,
    pub created_at: i64,
    pub updated_at: i64,
    pub tags: Vec<String>,
    pub version: String,
    pub dependencies: Vec<String>,
}

/// Difference between two profiles' settings and choices.
pub struct ProfileDiff {
    pub profile_a: String,
    pub profile_b: String,
    pub added_settings: Vec<String>,
    pub removed_settings: Vec<String>,
    pub changed_settings: Vec<ChangedSetting>,
    pub keymap_changed: bool,
    pub theme_changed: bool,
    pub layout_changed: bool,
}

/// A setting whose value differs.
pub struct ChangedSetting {
    pub key: String,
    pub old_value: Option<String>,
    pub new_value: Option<String>,
}

pub open spec fn opt_str(o: Option<String>) -> Option<Seq<char>> {
    match o {
        Some(s) => Some(s@),
        None => None,
    }
}

/// The settings as a map from keys to JSON texts.
pub open spec fn settings_of(p: ConfigurationProfile) -> Map<Seq<char>, Seq<char>> {
    p.settings@.map_values(|v: String| v@)
}

/// Everything a profile holds, as values.
pub struct ProfileView {
    pub name: Seq<char>,
    pub description: Option<Seq<char>>,
    pub keymap: Option<Seq<char>>,
    pub theme: Option<Seq<char>>,
    pub layout: Option<Seq<char>>,
    pub settings: Map<Seq<char>, Seq<char>>,
    pub created_at: i64,
    pub updated_at: i64,
    pub version: Seq<char>,
}

pub open spec fn profile_view(p: ConfigurationProfile) -> ProfileView {
    ProfileView {
        name: p.name@,
        description: opt_str(p.description),
        keymap: opt_str(p.keymap),
        theme: opt_str(p.theme),
        layout: opt_str(p.layout),
        settings: settings_of(p),
        created_at: p.created_at,
        updated_at: p.updated_at,
        version: p.version@,
    }
}

fn copy_opt(o: &Option<String>) -> (r: Option<String>)
    ensures opt_str(r) == opt_str(*o),
{
    match o {
        Some(s) => Some(s.clone()),
        None => None,
    }
}

fn copy_settings(m: &StrMap<String>) -> (r: StrMap<String>)
    requires m.wf(),
    ensures
        r.wf(),
        r@.map_values(|v: String| v@) == m@.map_values(|v: String| v@),
        r.key_seq() == m.key_seq(),
{
    let mut r: StrMap<String> = StrMap::new();
    let n = m.len();
    let mut i: usize = 0;
    proof { m.lemma_key_seq(); }
    while i < n
        invariant
            m.wf(),
            n == m.entries().len(),
            i <= n,
            r.wf(),
            r.key_seq() == m.key_seq().subrange(0, i as int),
            m.key_seq().no_duplicates(),
            m.key_seq().len() == n,
            forall|k: Seq<char>| #[trigger] r@.contains_key(k) <==> m.key_seq().subrange(0, i as int).contains(k),
            forall|k: Seq<char>| #[trigger] r@.contains_key(k) ==> r@[k]@ == m@[k]@,
        decreases n - i,
    {
        let (k, v) = m.entry_at(i);
        proof {
            m.lemma_index_of(i as int);
            assert(m.key_seq()[i as int] == k@);
            if r@.contains_key(k@) {
                let j = choose|j: int| 0 <= j < i && #[trigger] m.key_seq().subrange(0, i as int)[j] == k@;
                assert(m.key_seq()[j] == m.key_seq()[i as int]);
                assert(false);
            }
        }
        let ghost old_r = r;
        r.insert(k.clone(), v.clone());
        proof {
            assert(r.key_seq() =~= old_r.key_seq().push(k@));
            assert(r.key_seq() =~= m.key_seq().subrange(0, i + 1));
            assert forall|q: Seq<char>| #[trigger] r@.contains_key(q) <==> m.key_seq().subrange(0, i + 1).contains(q) by {
                if m.key_seq().subrange(0, i as int).contains(q) {
                    let j = choose|j: int| 0 <= j < i && #[trigger] m.key_seq().subrange(0, i as int)[j] == q;
                    assert(m.key_seq().subrange(0, i + 1)[j] == q);
                }
                if m.key_seq().subrange(0, i + 1).contains(q) && q != k@ {
                    let j = choose|j: int| 0 <= j < i + 1 && #[trigger] m.key_seq().subrange(0, i + 1)[j] == q;
                    assert(m.key_seq().subrange(0, i as int)[j] == q);
                }
                if q == k@ {
                    assert(m.key_seq().subrange(0, i + 1)[i as int] == q);
                }
            }
        }
        i = i + 1;
    }
    proof {
        assert(m.key_seq().subrange(0, n as int) =~= m.key_seq());
        assert(r@.map_values(|v: String| v@) =~= m@.map_values(|v: String| v@));
    }
    r
}

impl ConfigurationProfile {
    pub open spec fn wf(&self) -> bool {
        self.settings.wf()
    }

    /// A copy of the profile.
    pub fn duplicate(&self) -> (r: Self)
        requires self.wf(),
        ensures r.wf(), profile_view(r) == profile_view(*self), r.settings.key_seq() == self.settings.key_seq(),
    {
        ConfigurationProfile {
            name: self.name.clone(),
            description: copy_opt(&self.description),
            keymap: copy_opt(&self.keymap),
            theme: copy_opt(&self.theme),
            layout: copy_opt(&self.layout),
            settings: copy_settings(&self.settings),
            created_at: self.created_at,
            updated_at: self.updated_at,
            version: self.version.clone(),
        }
    }
}

/// `std::mem::size_of_val` of a profile, which the metadata records; it is
/// whatever the compiler's layout gives.
#[verifier::external_body]
fn profile_size(p: &ConfigurationProfile) -> (n: usize)
{
    std::mem::size_of_val(p)
}

/// Metadata of a profile: its name, description, times and version, global
/// scope, no tags or dependencies.
pub open spec fn metadata_of(m: ProfileMetadata, p: ConfigurationProfile) -> bool {
    &&& m.name@ == p.name@
    &&& opt_str(m.description) == opt_str(p.description)
    &&& m.scope == ProfileScope::Global
    &&& m.created_at == p.created_at
    &&& m.updated_at == p.updated_at
    &&& m.tags@.len() == 0
    &&& m.version@ == p.version@
    &&& m.dependencies@.len() == 0
}

fn create_metadata(profile: &ConfigurationProfile) -> (m: ProfileMetadata)
    ensures metadata_of(m, *profile),
{
    ProfileMetadata {
        name: profile.name.clone(),
        description: copy_opt(&profile.description),
        scope: ProfileScope::Global,
        size: profile_size(profile),
        created_at: profile.created_at,
        updated_at: profile.updated_at,
        tags: Vec::new(),
        version: profile.version.clone(),
        dependencies: Vec::new(),
    }
}

/// Keys of `a` (in its order) that `b` lacks.
pub open spec fn keys_missing_from(a: StrMap<String>, b: StrMap<String>) -> Seq<Seq<char>> {
    a.key_seq().filter(|k: Seq<char>| !b@.contains_key(k))
}

/// Keys of `a` (in its order) that `b` has with another value.
pub open spec fn keys_changed(a: StrMap<String>, b: StrMap<String>) -> Seq<Seq<char>> {
    a.key_seq().filter(|k: Seq<char>| b@.contains_key(k) && a@[k]@ != b@[k]@)
}

/// What comparing profiles `a` and `b` gives.
pub open spec fn diff_of(d: ProfileDiff, a: ConfigurationProfile, b: ConfigurationProfile, name_a: Seq<char>, name_b: Seq<char>) -> bool {
    &&& d.profile_a@ == name_a
    &&& d.profile_b@ == name_b
    &&& d.added_settings@.map_values(|s: String| s@) == keys_missing_from(b.settings, a.settings)
    &&& d.removed_settings@.map_values(|s: String| s@) == keys_missing_from(a.settings, b.settings)
    &&& d.changed_settings@.len() == keys_changed(a.settings, b.settings).len()
    &&& forall|i: int| 0 <= i < d.changed_settings@.len() ==> {
        let k = keys_changed(a.settings, b.settings)[i];
        let c = #[trigger] d.changed_settings@[i];
        &&& c.key@ == k
        &&& opt_str(c.old_value) == Some(a.settings@[k]@)
        &&& opt_str(c.new_value) == Some(b.settings@[k]@)
    }
    &&& d.keymap_changed == (opt_str(a.keymap) != opt_str(b.keymap))
    &&& d.theme_changed == (opt_str(a.theme) != opt_str(b.theme))
    &&& d.layout_changed == (opt_str(a.layout) != opt_str(b.layout))
}

fn opt_str_eq(a: &Option<String>, b: &Option<String>) -> (r: bool)
    ensures r == (opt_str(*a) == opt_str(*b)),
{
    match (a, b) {
        (Some(x), Some(y)) => str_eq(x.as_str(), y.as_str()),
        (None, None) => true,
        _ => false,
    }
}

fn missing_keys(a: &StrMap<String>, b: &StrMap<String>) -> (r: Vec<String>)
    requires a.wf(), b.wf(),
    ensures r@.map_values(|s: String| s@) == keys_missing_from(*a, *b),
{
    let mut r: Vec<String> = Vec::new();
    let n = a.len();
    let mut i: usize = 0;
    proof { a.lemma_key_seq(); }
    while i < n
        invariant
            a.wf(), b.wf(),
            n == a.key_seq().len(),
            i <= n,
            r@.map_values(|s: String| s@) == a.key_seq().subrange(0, i as int).filter(|k: Seq<char>| !b@.contains_key(k)),
        decreases n - i,
    {
        let (k, _) = a.entry_at(i);
        proof {
            assert(a.key_seq()[i as int] == k@);
            assert(a.key_seq().subrange(0, i + 1).drop_last() =~= a.key_seq().subrange(0, i as int));
            reveal(Seq::filter);
        }
        if !b.contains_key(k.as_str()) {
            r.push(k.clone());
        }
        assert(r@.map_values(|s: String| s@) =~= a.key_seq().subrange(0, i + 1).filter(|k: Seq<char>| !b@.contains_key(k)));
        i = i + 1;
    }
    assert(a.key_seq().subrange(0, n as int) =~= a.key_seq());
    r
}

fn changed_keys(a: &StrMap<String>, b: &StrMap<String>) -> (r: Vec<ChangedSetting>)
    requires a.wf(), b.wf(),
    ensures
        r@.len() == keys_changed(*a, *b).len(),
        forall|i: int| 0 <= i < r@.len() ==> {
            let k = keys_changed(*a, *b)[i];
            let c = #[trigger] r@[i];
            &&& c.key@ == k
            &&& opt_str(c.old_value) == Some(a@[k]@)
            &&& opt_str(c.new_value) == Some(b@[k]@)
        },
{
    let mut r: Vec<ChangedSetting> = Vec::new();
    let n = a.len();
    let mut i: usize = 0;
    proof { a.lemma_key_seq(); }
    while i < n
        invariant
            a.wf(), b.wf(),
            n == a.key_seq().len(),
            n == a.entries().len(),
            i <= n,
            r@.len() == a.key_seq().subrange(0, i as int).filter(|k: Seq<char>| b@.contains_key(k) && a@[k]@ != b@[k]@).len(),
            forall|j: int| 0 <= j < r@.len() ==> {
                let k = a.key_seq().subrange(0, i as int).filter(|k: Seq<char>| b@.contains_key(k) && a@[k]@ != b@[k]@)[j];
                let c = #[trigger] r@[j];
                &&& c.key@ == k
                &&& opt_str(c.old_value) == Some(a@[k]@)
                &&& opt_str(c.new_value) == Some(b@[k]@)
            },
        decreases n - i,
    {
        let ghost pre = a.key_seq().subrange(0, i as int).filter(|k: Seq<char>| b@.contains_key(k) && a@[k]@ != b@[k]@);
        let (k, av) = a.entry_at(i);
        proof {
            a.lemma_index_of(i as int);
            assert(a.key_seq()[i as int] == k@);
            assert(a.key_seq().subrange(0, i + 1).drop_last() =~= a.key_seq().subrange(0, i as int));
            reveal(Seq::filter);
        }
        match b.get(k.as_str()) {
            Some(bv) => {
                if !str_eq(av.as_str(), bv.as_str()) {
                    r.push(ChangedSetting { key: k.clone(), old_value: Some(av.clone()), new_value: Some(bv.clone()) });
                    proof {
                        assert(a.key_seq().subrange(0, i + 1).filter(|k: Seq<char>| b@.contains_key(k) && a@[k]@ != b@[k]@)
                            == pre.push(k@));
                    }
                } else {
                    proof {
                        assert(a.key_seq().subrange(0, i + 1).filter(|k: Seq<char>| b@.contains_key(k) && a@[k]@ != b@[k]@)
                            == pre);
                    }
                }
            },
            None => {
                proof {
                    assert(a.key_seq().subrange(0, i + 1).filter(|k: Seq<char>| b@.contains_key(k) && a@[k]@ != b@[k]@)
                        == pre);
                }
            },
        }
        i = i + 1;
    }
    assert(a.key_seq().subrange(0, n as int) =~= a.key_seq());
    r
}

/// Compare two profiles: settings added in `b`, removed from `a`, changed
/// between them (each list in key order of the profile it comes from), and
/// whether keymap, theme and layout differ.
pub fn diff_profiles(a: &ConfigurationProfile, b: &ConfigurationProfile, name_a: &str, name_b: &str) -> (d: ProfileDiff)
    requires a.wf(), b.wf(),
    ensures diff_of(d, *a, *b, name_a@, name_b@),
{
    ProfileDiff {
        profile_a: owned(name_a),
        profile_b: owned(name_b),
        added_settings: missing_keys(&b.settings, &a.settings),
        removed_settings: missing_keys(&a.settings, &b.settings),
        changed_settings: changed_keys(&a.settings, &b.settings),
        keymap_changed: !opt_str_eq(&a.keymap, &b.keymap),
        theme_changed: !opt_str_eq(&a.theme, &b.theme),
        layout_changed: !opt_str_eq(&a.layout, &b.layout),
    }
}

/// The settings of profiles merged in order, later values winning.
pub open spec fn union_settings(ps: Seq<ConfigurationProfile>) -> Map<Seq<char>, Seq<char>>
    decreases ps.len(),
{
    if ps.len() == 0 {
        Map::empty()
    } else {
        union_settings(ps.drop_last()).union_prefer_right(settings_of(ps.last()))
    }
}

/// The last choice that some profile makes, in order.
pub open spec fn last_some(ps: Seq<Option<Seq<char>>>) -> Option<Seq<char>>
    decreases ps.len(),
{
    if ps.len() == 0 {
        None
    } else if ps.last() is Some {
        ps.last()
    } else {
        last_some(ps.drop_last())
    }
}

/// Keys present in the settings of every profile.
pub open spec fn in_all(ps: Seq<ConfigurationProfile>, k: Seq<char>) -> bool {
    forall|i: int| 0 <= i < ps.len() ==> #[trigger] ps[i].settings@.contains_key(k)
}

/// What merging `ps` with a strategy gives, as (keymap, theme, layout, settings).
pub open spec fn merged_choices(ps: Seq<ConfigurationProfile>, strategy: MergeStrategy)
    -> (Option<Seq<char>>, Option<Seq<char>>, Option<Seq<char>>, Map<Seq<char>, Seq<char>>)
{
    if ps.len() == 0 {
        (None, None, None, Map::empty())
    } else {
        match strategy {
            MergeStrategy::FirstWins => (opt_str(ps[0].keymap), opt_str(ps[0].theme), opt_str(ps[0].layout), settings_of(ps[0])),
            MergeStrategy::LastWins => (opt_str(ps.last().keymap), opt_str(ps.last().theme), opt_str(ps.last().layout), settings_of(ps.last())),
            MergeStrategy::Union => (
                last_some(ps.map_values(|p: ConfigurationProfile| opt_str(p.keymap))),
                last_some(ps.map_values(|p: ConfigurationProfile| opt_str(p.theme))),
                last_some(ps.map_values(|p: ConfigurationProfile| opt_str(p.layout))),
                union_settings(ps),
            ),
            MergeStrategy::Intersection => (
                opt_str(ps[0].keymap), opt_str(ps[0].theme), opt_str(ps[0].layout),
                settings_of(ps[0]).restrict(Set::new(|k: Seq<char>| in_all(ps, k))),
            ),
        }
    }
}


/// `src`'s settings among the first `j` of its keys.
pub open spec fn first_settings(src: StrMap<String>, j: int) -> Map<Seq<char>, Seq<char>> {
    src@.map_values(|v: String| v@).restrict(Set::new(|k: Seq<char>| src.key_seq().subrange(0, j).contains(k)))
}

/// Add every setting of `src` to `cur`, replacing values of keys both have.
fn insert_all(cur: &mut StrMap<String>, src: &StrMap<String>)
    requires old(cur).wf(), src.wf(),
    ensures
        final(cur).wf(),
        final(cur)@.map_values(|v: String| v@) == old(cur)@.map_values(|v: String| v@).union_prefer_right(src@.map_values(|v: String| v@)),
{
    let ghost base = cur@.map_values(|v: String| v@);
    let n = src.len();
    let mut j: usize = 0;
    proof {
        src.lemma_key_seq();
        assert(first_settings(*src, 0) =~= Map::empty());
        assert(base.union_prefer_right(Map::empty()) =~= base);
    }
    while j < n
        invariant
            cur.wf(), src.wf(),
            n == src.entries().len(),
            src.key_seq().len() == n,
            j <= n,
            cur@.map_values(|v: String| v@) == base.union_prefer_right(first_settings(*src, j as int)),
        decreases n - j,
    {
        let (k, v) = src.entry_at(j);
        proof {
            src.lemma_index_of(j as int);
            assert(src.key_seq()[j as int] == k@);
        }
        let ghost before = cur@.map_values(|v: String| v@);
        cur.insert(k.clone(), v.clone());
        proof {
            let next = first_settings(*src, j + 1);
            assert forall|q: Seq<char>| src.key_seq().subrange(0, j + 1).contains(q)
                <==> (src.key_seq().subrange(0, j as int).contains(q) || q == k@) by {
                if src.key_seq().subrange(0, j + 1).contains(q) {
                    let t = choose|t: int| 0 <= t < j + 1 && #[trigger] src.key_seq().subrange(0, j + 1)[t] == q;
                    if t < j {
                        assert(src.key_seq().subrange(0, j as int)[t] == q);
                    }
                }
                if src.key_seq().subrange(0, j as int).contains(q) {
                    let t = choose|t: int| 0 <= t < j && #[trigger] src.key_seq().subrange(0, j as int)[t] == q;
                    assert(src.key_seq().subrange(0, j + 1)[t] == q);
                }
                if q == k@ {
                    assert(src.key_seq().subrange(0, j + 1)[j as int] == q);
                }
            }
            assert(src@[k@] == *v);
            assert(cur@.map_values(|v: String| v@) =~= before.insert(k@, v@));
            let sv = src@.map_values(|v: String| v@);
            assert(src@.contains_key(k@));
            assert forall|q: Seq<char>| #[trigger] next.contains_key(q) <==> first_settings(*src, j as int).insert(k@, v@).contains_key(q) by {
                assert(next.contains_key(q) == (sv.contains_key(q) && src.key_seq().subrange(0, j + 1).contains(q)));
                assert(first_settings(*src, j as int).contains_key(q) == (sv.contains_key(q) && src.key_seq().subrange(0, j as int).contains(q)));
            }
            assert(next =~= first_settings(*src, j as int).insert(k@, v@));
            assert(cur@.map_values(|v: String| v@) =~= base.union_prefer_right(next));
        }
        j = j + 1;
    }
    proof {
        assert(src.key_seq().subrange(0, n as int) =~= src.key_seq());
        assert(first_settings(*src, n as int) =~= src@.map_values(|v: String| v@));
    }
}

fn merge_loaded(loaded: &Vec<&ConfigurationProfile>, Ghost(ps): Ghost<Seq<ConfigurationProfile>>, strategy: MergeStrategy)
    -> (r: (Option<String>, Option<String>, Option<String>, StrMap<String>))
    requires
        ps.len() == loaded@.len(),
        forall|j: int| 0 <= j < loaded@.len() ==> (#[trigger] ps[j]) == *loaded@[j] && ps[j].wf(),
    ensures
        r.3.wf(),
        (opt_str(r.0), opt_str(r.1), opt_str(r.2), r.3@.map_values(|v: String| v@)) == merged_choices(ps, strategy),
{
    let n = loaded.len();
    if n == 0 {
        let m: StrMap<String> = StrMap::new();
        assert(m@.map_values(|v: String| v@) =~= Map::empty());
        return (None, None, None, m);
    }
    match strategy {
        MergeStrategy::FirstWins => {
            let f = loaded[0];
            (copy_opt(&f.keymap), copy_opt(&f.theme), copy_opt(&f.layout), copy_settings(&f.settings))
        },
        MergeStrategy::LastWins => {
            let l = loaded[n - 1];
            assert(ps.last() == ps[n - 1]);
            (copy_opt(&l.keymap), copy_opt(&l.theme), copy_opt(&l.layout), copy_settings(&l.settings))
        },
        MergeStrategy::Union => {
            let mut keymap: Option<String> = None;
            let mut theme: Option<String> = None;
            let mut layout: Option<String> = None;
            let mut settings: StrMap<String> = StrMap::new();
            let mut i: usize = 0;
            proof {
                assert(settings@.map_values(|v: String| v@) =~= union_settings(ps.subrange(0, 0)));
            }
            while i < n
                invariant
                    n == loaded@.len(),
                    ps.len() == n,
                    i <= n,
                    forall|j: int| 0 <= j < loaded@.len() ==> (#[trigger] ps[j]) == *loaded@[j] && ps[j].wf(),
                    settings.wf(),
                    settings@.map_values(|v: String| v@) == union_settings(ps.subrange(0, i as int)),
                    opt_str(keymap) == last_some(ps.subrange(0, i as int).map_values(|p: ConfigurationProfile| opt_str(p.keymap))),
                    opt_str(theme) == last_some(ps.subrange(0, i as int).map_values(|p: ConfigurationProfile| opt_str(p.theme))),
                    opt_str(layout) == last_some(ps.subrange(0, i as int).map_values(|p: ConfigurationProfile| opt_str(p.layout))),
                decreases n - i,
            {
                let p = loaded[i];
                proof {
                    let pre = ps.subrange(0, i as int);
                    let post = ps.subrange(0, i + 1);
                    assert(post.drop_last() =~= pre);
                    assert(post.last() == *p);
                    assert(post.map_values(|p: ConfigurationProfile| opt_str(p.keymap)).drop_last()
                        =~= pre.map_values(|p: ConfigurationProfile| opt_str(p.keymap)));
                    assert(post.map_values(|p: ConfigurationProfile| opt_str(p.theme)).drop_last()
                        =~= pre.map_values(|p: ConfigurationProfile| opt_str(p.theme)));
                    assert(post.map_values(|p: ConfigurationProfile| opt_str(p.layout)).drop_last()
                        =~= pre.map_values(|p: ConfigurationProfile| opt_str(p.layout)));
                }
                if p.keymap.is_some() { keymap = copy_opt(&p.keymap); }
                if p.theme.is_some() { theme = copy_opt(&p.theme); }
                if p.layout.is_some() { layout = copy_opt(&p.layout); }
                insert_all(&mut settings, &p.settings);
                i = i + 1;
            }
            proof { assert(ps.subrange(0, n as int) =~= ps); }
            (keymap, theme, layout, settings)
        },
        MergeStrategy::Intersection => {
            let f = loaded[0];
            let mut settings: StrMap<String> = StrMap::new();
            let m = f.settings.len();
            let mut j: usize = 0;
            proof {
                f.settings.lemma_key_seq();
                assert(first_settings(f.settings, 0) =~= Map::empty());
            }
            while j < m
                invariant
                    n == loaded@.len(),
                    ps.len() == n,
                    n > 0,
                    *f == ps[0],
                    f.settings.wf(),
                    m == f.settings.entries().len(),
                    f.settings.key_seq().len() == m,
                    j <= m,
                    forall|t: int| 0 <= t < loaded@.len() ==> (#[trigger] ps[t]) == *loaded@[t] && ps[t].wf(),
                    settings.wf(),
                    settings@.map_values(|v: String| v@)
                        == first_settings(f.settings, j as int).restrict(Set::new(|k: Seq<char>| in_all(ps, k))),
                decreases m - j,
            {
                let (k, v) = f.settings.entry_at(j);
                proof {
                    f.settings.lemma_index_of(j as int);
                    assert(f.settings.key_seq()[j as int] == k@);
                }
                let mut all = true;
                let mut t: usize = 0;
                while t < n
                    invariant
                        n == loaded@.len(),
                        ps.len() == n,
                        t <= n,
                        forall|u: int| 0 <= u < loaded@.len() ==> (#[trigger] ps[u]) == *loaded@[u] && ps[u].wf(),
                        all == forall|u: int| 0 <= u < t ==> #[trigger] ps[u].settings@.contains_key(k@),
                    decreases n - t,
                {
                    proof { assert(ps[t as int] == *loaded@[t as int] && ps[t as int].wf()); }
                    if !loaded[t].settings.contains_key(k.as_str()) {
                        all = false;
                    }
                    t = t + 1;
                }
                let ghost before = settings@.map_values(|v: String| v@);
                if all {
                    settings.insert(k.clone(), v.clone());
                }
                proof {
                    let fs = f.settings@.map_values(|v: String| v@);
                    assert forall|q: Seq<char>| f.settings.key_seq().subrange(0, j + 1).contains(q)
                        <==> (f.settings.key_seq().subrange(0, j as int).contains(q) || q == k@) by {
                        if f.settings.key_seq().subrange(0, j + 1).contains(q) {
                            let x = choose|x: int| 0 <= x < j + 1 && #[trigger] f.settings.key_seq().subrange(0, j + 1)[x] == q;
                            if x < j {
                                assert(f.settings.key_seq().subrange(0, j as int)[x] == q);
                            }
                        }
                        if f.settings.key_seq().subrange(0, j as int).contains(q) {
                            let x = choose|x: int| 0 <= x < j && #[trigger] f.settings.key_seq().subrange(0, j as int)[x] == q;
                            assert(f.settings.key_seq().subrange(0, j + 1)[x] == q);
                        }
                        if q == k@ {
                            assert(f.settings.key_seq().subrange(0, j + 1)[j as int] == q);
                        }
                    }
                    let next = first_settings(f.settings, j + 1).restrict(Set::new(|k: Seq<char>| in_all(ps, k)));
                    let prev = first_settings(f.settings, j as int).restrict(Set::new(|k: Seq<char>| in_all(ps, k)));
                    assert(f.settings@.contains_key(k@));
                    assert(f.settings@[k@] == *v);
                    assert(all == in_all(ps, k@));
                    if all {
                        assert forall|q: Seq<char>| #[trigger] next.contains_key(q) <==> prev.insert(k@, v@).contains_key(q) by {
                            assert(next.contains_key(q) == (fs.contains_key(q) && f.settings.key_seq().subrange(0, j + 1).contains(q) && in_all(ps, q)));
                            assert(prev.contains_key(q) == (fs.contains_key(q) && f.settings.key_seq().subrange(0, j as int).contains(q) && in_all(ps, q)));
                        }
                        assert(next =~= prev.insert(k@, v@));
                        assert(settings@.map_values(|v: String| v@) =~= before.insert(k@, v@));
                    } else {
                        assert forall|q: Seq<char>| #[trigger] next.contains_key(q) <==> prev.contains_key(q) by {
                            assert(next.contains_key(q) == (fs.contains_key(q) && f.settings.key_seq().subrange(0, j + 1).contains(q) && in_all(ps, q)));
                            assert(prev.contains_key(q) == (fs.contains_key(q) && f.settings.key_seq().subrange(0, j as int).contains(q) && in_all(ps, q)));
                        }
                        assert(next =~= prev);
                    }
                }
                j = j + 1;
            }
            proof {
                assert(f.settings.key_seq().subrange(0, m as int) =~= f.settings.key_seq());
                assert(first_settings(f.settings, m as int) =~= f.settings@.map_values(|v: String| v@));
            }
            (copy_opt(&f.keymap), copy_opt(&f.theme), copy_opt(&f.layout), settings)
        },
    }
}

/// The profile manager: profiles and their metadata by name, the active
/// profile, and the events not yet delivered to listeners.
pub struct ProfileManager {
    profiles: StrMap<ConfigurationProfile>,
    metadata: StrMap<ProfileMetadata>,
    active_profile: String,
    version: String,
    events: Vec<ProfileEvent>,
}

/// Every stored profile is well formed.
pub open spec fn profiles_wf(m: Map<Seq<char>, ConfigurationProfile>) -> bool {
    forall|k: Seq<char>| #[trigger] m.contains_key(k) ==> m[k].wf()
}

impl ProfileManager {
    pub closed spec fn wf(&self) -> bool {
        &&& self.profiles.wf()
        &&& self.metadata.wf()
        &&& profiles_wf(self.profiles@)
    }

    pub closed spec fn profiles_view(&self) -> Map<Seq<char>, ConfigurationProfile> {
        self.profiles@
    }

    pub closed spec fn metadata_view(&self) -> Map<Seq<char>, ProfileMetadata> {
        self.metadata@
    }

    pub closed spec fn active(&self) -> Seq<char> {
        self.active_profile@
    }

    pub closed spec fn pending_events(&self) -> Seq<ProfileEvent> {
        self.events@
    }

    pub closed spec fn version_spec(&self) -> Seq<char> {
        self.version@
    }

    /// Create the manager with the "default" profile (keymap and layout
    /// "default", theme "dark", no settings); `default_profile` is active.
    /// Profiles stored on disk are added by the caller.
    pub fn new(default_profile: &str, version: &str) -> (m: Self)
        ensures
            m.wf(),
            m.profiles_view().dom() == set!["default"@],
            m.metadata_view().dom() == set!["default"@],
            profile_view(m.profiles_view()["default"@]) == (ProfileView {
                name: "default"@,
                description: Some("Default configuration profile"@),
                keymap: Some("default"@),
                theme: Some("dark"@),
                layout: Some("default"@),
                settings: Map::empty(),
                created_at: m.profiles_view()["default"@].created_at,
                updated_at: m.profiles_view()["default"@].updated_at,
                version: version@,
            }),
            m.active() == default_profile@,
            m.version_spec() == version@,
            m.pending_events().len() == 0,
    {
        let now = now_millis();
        let profile = ConfigurationProfile {
            name: owned("default"),
            description: Some(owned("Default configuration profile")),
            keymap: Some(owned("default")),
            theme: Some(owned("dark")),
            layout: Some(owned("default")),
            settings: StrMap::new(),
            created_at: now,
            updated_at: now,
            version: owned(version),
        };
        let later = now_millis();
        let metadata = ProfileMetadata {
            name: owned("default"),
            description: Some(owned("Default configuration profile")),
            scope: ProfileScope::Global,
            size: 0,
            created_at: later,
            updated_at: later,
            tags: vec![owned("default")],
            version: owned(version),
            dependencies: Vec::new(),
        };
        let mut profiles: StrMap<ConfigurationProfile> = StrMap::new();
        let mut metas: StrMap<ProfileMetadata> = StrMap::new();
        profiles.insert(owned("default"), profile);
        metas.insert(owned("default"), metadata);
        assert(profiles@.dom() =~= set!["default"@]);
        assert(metas@.dom() =~= set!["default"@]);
        assert(settings_of(profiles@["default"@]) =~= Map::empty());
        ProfileManager {
            profiles,
            metadata: metas,
            active_profile: owned(default_profile),
            version: owned(version),
            events: Vec::new(),
        }
    }

    /// Store a profile and its metadata under its name (writing it to disk is
    /// the caller's), and announce the update.
    pub fn save_profile(&mut self, profile: &ConfigurationProfile)
        requires old(self).wf(), profile.wf(),
        ensures
            final(self).wf(),
            final(self).profiles_view().dom() == old(self).profiles_view().dom().insert(profile.name@),
            profile_view(final(self).profiles_view()[profile.name@]) == profile_view(*profile),
            forall|k: Seq<char>| #[trigger] final(self).profiles_view().contains_key(k) && k != profile.name@
                ==> final(self).profiles_view()[k] == old(self).profiles_view()[k],
            final(self).metadata_view().dom() == old(self).metadata_view().dom().insert(profile.name@),
            metadata_of(final(self).metadata_view()[profile.name@], *profile),
            final(self).active() == old(self).active(),
            final(self).pending_events().len() == old(self).pending_events().len() + 1,
            final(self).pending_events().last() matches ProfileEvent::Updated(n) && n@ == profile.name@,
    {
        let meta = create_metadata(profile);
        let copy = profile.duplicate();
        self.profiles.insert(profile.name.clone(), copy);
        self.metadata.insert(profile.name.clone(), meta);
        self.events.push(ProfileEvent::Updated(profile.name.clone()));
        proof {
            assert forall|k: Seq<char>| #[trigger] self.profiles@.contains_key(k) implies self.profiles@[k].wf() by {
                if k != profile.name@ {
                    assert(old(self).profiles@.contains_key(k));
                }
            }
        }
    }

    /// Create a profile with no settings or choices, store it and announce it.
    pub fn create_profile(&mut self, name: &str, description: Option<String>) -> (r: Result<ConfigurationProfile, CustomizationError>)
        requires old(self).wf(),
        ensures
            final(self).wf(),
            r matches Ok(p) && {
                &&& p.wf()
                &&& p.name@ == name@
                &&& opt_str(p.description) == opt_str(description)
                &&& p.keymap is None && p.theme is None && p.layout is None
                &&& settings_of(p) == Map::<Seq<char>, Seq<char>>::empty()
                &&& p.version@ == old(self).version_spec()
                &&& final(self).profiles_view().dom() == old(self).profiles_view().dom().insert(name@)
                &&& profile_view(final(self).profiles_view()[name@]) == profile_view(p)
            },
            final(self).active() == old(self).active(),
            final(self).pending_events().len() == old(self).pending_events().len() + 2,
            final(self).pending_events().last() matches ProfileEvent::Created(n) && n@ == name@,
    {
        let now = now_millis();
        let profile = ConfigurationProfile {
            name: owned(name),
            description,
            keymap: None,
            theme: None,
            layout: None,
            settings: StrMap::new(),
            created_at: now,
            updated_at: now,
            version: self.version.clone(),
        };
        proof { assert(settings_of(profile) =~= Map::empty()); }
        self.save_profile(&profile);
        self.events.push(ProfileEvent::Created(owned(name)));
        Ok(profile)
    }

    /// A stored profile by name; unknown names are refused (profiles on disk are
    /// the caller's to look for).
    pub fn load_profile(&self, name: &str) -> (r: Result<ConfigurationProfile, CustomizationError>)
        requires self.wf(),
        ensures
            self.profiles_view().contains_key(name@) ==> (r matches Ok(p)
                && p.wf() && profile_view(p) == profile_view(self.profiles_view()[name@])),
            !self.profiles_view().contains_key(name@) ==>
                (r matches Err(CustomizationError::ProfileError(m)) && m@ == "Profile not found: "@ + name@),
    {
        match self.profiles.get(name) {
            Some(p) => Ok(p.duplicate()),
            None => Err(CustomizationError::ProfileError(concat2("Profile not found: ", name))),
        }
    }

    /// Forget a profile and its metadata, and announce it.
    pub fn delete_profile(&mut self, name: &str) -> (r: Result<(), CustomizationError>)
        requires old(self).wf(),
        ensures
            final(self).wf(),
            r is Ok,
            final(self).profiles_view() == old(self).profiles_view().remove(name@),
            final(self).metadata_view() == old(self).metadata_view().remove(name@),
            final(self).active() == old(self).active(),
            final(self).pending_events().drop_last() == old(self).pending_events(),
            final(self).pending_events().len() == old(self).pending_events().len() + 1,
            final(self).pending_events().last() matches ProfileEvent::Deleted(n) && n@ == name@,
    {
        self.profiles.remove(name);
        self.metadata.remove(name);
        self.events.push(ProfileEvent::Deleted(owned(name)));
        Ok(())
    }

    /// The metadata of every profile, in the order first stored.
    pub fn list_profiles(&self) -> (r: Vec<&ProfileMetadata>)
        requires self.wf(),
        ensures
            r@.len() == self.metadata_names().len(),
            self.metadata_names().no_duplicates(),
            forall|k: Seq<char>| #[trigger] self.metadata_view().contains_key(k) <==> self.metadata_names().contains(k),
            forall|i: int| 0 <= i < r@.len() ==> *r@[i] == #[trigger] self.metadata_view()[self.metadata_names()[i]],
    {
        let r = self.metadata.values();
        proof { self.metadata.lemma_key_seq(); }
        r
    }

    /// Names of the profiles with metadata, in the order first stored.
    pub closed spec fn metadata_names(&self) -> Seq<Seq<char>> {
        self.metadata.key_seq()
    }

    /// Make a stored profile active; when another was active, it is announced as
    /// deactivated and this one as activated. Unknown names are refused.
    pub fn set_active(&mut self, name: &str) -> (r: Result<(), CustomizationError>)
        requires old(self).wf(),
        ensures
            final(self).wf(),
            final(self).profiles_view() == old(self).profiles_view(),
            !old(self).profiles_view().contains_key(name@) ==> {
                &&& r matches Err(CustomizationError::ProfileError(m)) && m@ == "Profile not found: "@ + name@
                &&& final(self).active() == old(self).active()
                &&& final(self).pending_events() == old(self).pending_events()
            },
            old(self).profiles_view().contains_key(name@) ==> {
                &&& r is Ok
                &&& final(self).active() == name@
                &&& old(self).active() == name@ ==> final(self).pending_events() == old(self).pending_events()
                &&& old(self).active() != name@ ==> {
                    let ev = final(self).pending_events();
                    &&& ev.len() == old(self).pending_events().len() + 2
                    &&& ev.subrange(0, ev.len() - 2) == old(self).pending_events()
                    &&& ev[ev.len() - 2] matches ProfileEvent::Deactivated(o) && o@ == old(self).active()
                    &&& ev[ev.len() - 1] matches ProfileEvent::Activated(n) && n@ == name@
                }
            },
    {
        if !self.profiles.contains_key(name) {
            return Err(CustomizationError::ProfileError(concat2("Profile not found: ", name)));
        }
        let old_name = self.active_profile.clone();
        self.active_profile = owned(name);
        if !str_eq(old_name.as_str(), name) {
            let ghost before = self.events@;
            self.events.push(ProfileEvent::Deactivated(old_name));
            self.events.push(ProfileEvent::Activated(owned(name)));
            assert(self.events@.subrange(0, self.events@.len() - 2) =~= before);
        }
        Ok(())
    }

    /// The active profile's name.
    pub fn active_profile(&self) -> (s: String)
        ensures s@ == self.active(),
    {
        self.active_profile.clone()
    }

    /// The metadata of a profile.
    pub fn get_metadata(&self, name: &str) -> (r: Option<&ProfileMetadata>)
        requires self.wf(),
        ensures
            match r {
                Some(m) => self.metadata_view().contains_key(name@) && *m == self.metadata_view()[name@],
                None => !self.metadata_view().contains_key(name@),
            },
    {
        self.metadata.get(name)
    }

    /// Set a setting of a stored profile to a JSON text and announce the update;
    /// an unknown profile is left alone.
    pub fn update_setting(&mut self, name: &str, key: &str, value: String) -> (r: Result<(), CustomizationError>)
        requires old(self).wf(),
        ensures
            final(self).wf(),
            r is Ok,
            final(self).active() == old(self).active(),
            final(self).profiles_view().dom() == old(self).profiles_view().dom(),
            old(self).profiles_view().contains_key(name@) ==> {
                let p = old(self).profiles_view()[name@];
                let q = final(self).profiles_view()[name@];
                &&& settings_of(q) == settings_of(p).insert(key@, value@)
                &&& q.name == p.name && q.keymap == p.keymap && q.theme == p.theme && q.layout == p.layout
                &&& final(self).pending_events().last() matches ProfileEvent::Updated(n) && n@ == name@
            },
            !old(self).profiles_view().contains_key(name@) ==> final(self).profiles_view() == old(self).profiles_view(),
    {
        match self.profiles.find(name) {
            Some(i) => {
                let ghost before = self.profiles;
                proof { self.profiles.lemma_index_of(i as int); }
                let now = now_millis();
                let p = self.profiles.value_at_mut(i);
                p.settings.insert(owned(key), value);
                p.updated_at = now;
                let ghost q = *p;
                proof {
                    StrMap::lemma_update_value(before, self.profiles, i as int, q);
                    assert(settings_of(q) =~= settings_of(before@[name@]).insert(key@, value@));
                    assert forall|k: Seq<char>| #[trigger] self.profiles@.contains_key(k) implies self.profiles@[k].wf() by {
                        if k != name@ {
                            assert(before@.contains_key(k));
                        }
                    }
                }
                match self.metadata.find(name) {
                    Some(j) => {
                        let ghost mbefore = self.metadata;
                        proof { self.metadata.lemma_index_of(j as int); }
                        let size = profile_size(&self.profiles.entry_at(i).1);
                        let m = self.metadata.value_at_mut(j);
                        m.updated_at = now;
                        m.size = size;
                        proof {
                            StrMap::lemma_update_value(mbefore, self.metadata, j as int, self.metadata.entries()[j as int].1);
                        }
                    },
                    None => {},
                }
                self.events.push(ProfileEvent::Updated(owned(name)));
            },
            None => {},
        }
        Ok(())
    }

    /// Remove a setting from a stored profile and announce the update; an unknown
    /// profile is left alone.
    pub fn remove_setting(&mut self, name: &str, key: &str) -> (r: Result<(), CustomizationError>)
        requires old(self).wf(),
        ensures
            final(self).wf(),
            r is Ok,
            final(self).active() == old(self).active(),
            final(self).profiles_view().dom() == old(self).profiles_view().dom(),
            old(self).profiles_view().contains_key(name@) ==> {
                let p = old(self).profiles_view()[name@];
                let q = final(self).profiles_view()[name@];
                &&& settings_of(q) == settings_of(p).remove(key@)
                &&& q.name == p.name && q.keymap == p.keymap && q.theme == p.theme && q.layout == p.layout
                &&& final(self).pending_events().last() matches ProfileEvent::Updated(n) && n@ == name@
            },
            !old(self).profiles_view().contains_key(name@) ==> final(self).profiles_view() == old(self).profiles_view(),
    {
        match self.profiles.find(name) {
            Some(i) => {
                let ghost before = self.profiles;
                proof { self.profiles.lemma_index_of(i as int); }
                let now = now_millis();
                let p = self.profiles.value_at_mut(i);
                p.settings.remove(key);
                p.updated_at = now;
                let ghost q = *p;
                proof {
                    StrMap::lemma_update_value(before, self.profiles, i as int, q);
                    assert(settings_of(q) =~= settings_of(before@[name@]).remove(key@));
                    assert forall|k: Seq<char>| #[trigger] self.profiles@.contains_key(k) implies self.profiles@[k].wf() by {
                        if k != name@ {
                            assert(before@.contains_key(k));
                        }
                    }
                }
                match self.metadata.find(name) {
                    Some(j) => {
                        let ghost mbefore = self.metadata;
                        proof { self.metadata.lemma_index_of(j as int); }
                        let size = profile_size(&self.profiles.entry_at(i).1);
                        let m = self.metadata.value_at_mut(j);
                        m.updated_at = now;
                        m.size = size;
                        proof {
                            StrMap::lemma_update_value(mbefore, self.metadata, j as int, self.metadata.entries()[j as int].1);
                        }
                    },
                    None => {},
                }
                self.events.push(ProfileEvent::Updated(owned(name)));
            },
            None => {},
        }
        Ok(())
    }

    /// Copy a stored profile under another name, with fresh times, and store it.
    pub fn clone_profile(&mut self, source: &str, target: &str) -> (r: Result<ConfigurationProfile, CustomizationError>)
        requires old(self).wf(),
        ensures
            final(self).wf(),
            !old(self).profiles_view().contains_key(source@) ==> {
                &&& r matches Err(CustomizationError::ProfileError(m)) && m@ == "Profile not found: "@ + source@
                &&& final(self).profiles_view() == old(self).profiles_view()
            },
            old(self).profiles_view().contains_key(source@) ==> (r matches Ok(p) && {
                let s = profile_view(old(self).profiles_view()[source@]);
                &&& profile_view(p) == (ProfileView { name: target@, created_at: p.created_at, updated_at: p.updated_at, ..s })
                &&& final(self).profiles_view().dom() == old(self).profiles_view().dom().insert(target@)
                &&& profile_view(final(self).profiles_view()[target@]) == profile_view(p)
            }),
    {
        let mut profile = match self.load_profile(source) {
            Ok(p) => p,
            Err(e) => return Err(e),
        };
        profile.name = owned(target);
        let now = now_millis();
        profile.created_at = now;
        profile.updated_at = now;
        self.save_profile(&profile);
        Ok(profile)
    }

    /// Merge stored profiles, named in order, into a new profile named
    /// "merged-" and the current time in seconds; see `merged_choices` for what
    /// each strategy keeps. The first unknown name is refused.
    pub fn merge(&self, profiles: Vec<&str>, strategy: MergeStrategy) -> (r: Result<ConfigurationProfile, CustomizationError>)
        requires self.wf(),
        ensures
            (exists|i: int| 0 <= i < profiles@.len() && !self.profiles_view().contains_key(#[trigger] profiles@[i]@)) ==> {
                let i = choose|i: int| 0 <= i < profiles@.len() && !self.profiles_view().contains_key(#[trigger] profiles@[i]@)
                    && forall|j: int| 0 <= j < i ==> self.profiles_view().contains_key(#[trigger] profiles@[j]@);
                r matches Err(CustomizationError::ProfileError(m)) && m@ == "Profile not found: "@ + profiles@[i]@
            },
            (forall|i: int| 0 <= i < profiles@.len() ==> self.profiles_view().contains_key(#[trigger] profiles@[i]@)) ==>
                (r matches Ok(p) && {
                    let ps = profiles@.map_values(|n: &str| self.profiles_view()[n@]);
                    let c = merged_choices(ps, strategy);
                    &&& p.wf()
                    &&& (exists|t: i64| p.name@ == "merged-"@ + signed_decimal(t as int))
                    &&& opt_str(p.description) == Some("Merged profile"@)
                    &&& opt_str(p.keymap) == c.0
                    &&& opt_str(p.theme) == c.1
                    &&& opt_str(p.layout) == c.2
                    &&& settings_of(p) == c.3
                    &&& p.version@ == self.version_spec()
                }),
    {
        let mut loaded: Vec<&ConfigurationProfile> = Vec::new();
        let mut i: usize = 0;
        while i < profiles.len()
            invariant
                self.wf(),
                i <= profiles@.len(),
                loaded@.len() == i,
                forall|j: int| 0 <= j < i ==> self.profiles_view().contains_key(#[trigger] profiles@[j]@),
                forall|j: int| 0 <= j < i ==> *loaded@[j] == self.profiles_view()[#[trigger] profiles@[j]@],
            decreases profiles.len() - i,
        {
            match self.profiles.get(profiles[i]) {
                Some(p) => loaded.push(p),
                None => {
                    proof {
                        let k = choose|k: int| 0 <= k < profiles@.len() && !self.profiles_view().contains_key(#[trigger] profiles@[k]@)
                            && forall|j: int| 0 <= j < k ==> self.profiles_view().contains_key(#[trigger] profiles@[j]@);
                        assert(k == i as int) by {
                            if k < i { assert(self.profiles_view().contains_key(profiles@[k]@)); }
                            if k > i { assert(self.profiles_view().contains_key(profiles@[i as int]@)); }
                        }
                    }
                    return Err(CustomizationError::ProfileError(concat2("Profile not found: ", profiles[i])));
                },
            }
            i = i + 1;
        }
        let ghost ps = profiles@.map_values(|n: &str| self.profiles_view()[n@]);
        proof {
            assert forall|j: int| 0 <= j < loaded@.len() implies (#[trigger] ps[j]) == *loaded@[j] && ps[j].wf() by {
                assert(self.profiles_view().contains_key(profiles@[j]@));
            }
            if exists|i: int| 0 <= i < profiles@.len() && !self.profiles_view().contains_key(#[trigger] profiles@[i]@) {
                let k = choose|i: int| 0 <= i < profiles@.len() && !self.profiles_view().contains_key(#[trigger] profiles@[i]@);
                assert(false);
            }
        }
        let t = now_seconds();
        let now = now_millis();
        let stamp = i64_to_string(t);
        let name = concat2("merged-", stamp.as_str());
        let (keymap, theme, layout, settings) = merge_loaded(&loaded, Ghost(ps), strategy);
        let merged = ConfigurationProfile {
            name,
            description: Some(owned("Merged profile")),
            keymap,
            theme,
            layout,
            settings,
            created_at: now,
            updated_at: now,
            version: self.version.clone(),
        };
        Ok(merged)
    }

    /// Compare two stored profiles; see `diff_of`. Unknown names are refused, the
    /// first one first.
    pub fn diff(&self, profile_a: &str, profile_b: &str) -> (r: Result<ProfileDiff, CustomizationError>)
        requires self.wf(),
        ensures
            !self.profiles_view().contains_key(profile_a@) ==>
                (r matches Err(CustomizationError::ProfileError(m)) && m@ == "Profile not found: "@ + profile_a@),
            self.profiles_view().contains_key(profile_a@) && !self.profiles_view().contains_key(profile_b@) ==>
                (r matches Err(CustomizationError::ProfileError(m)) && m@ == "Profile not found: "@ + profile_b@),
            self.profiles_view().contains_key(profile_a@) && self.profiles_view().contains_key(profile_b@) ==>
                (r matches Ok(d) && diff_of(d, self.profiles_view()[profile_a@], self.profiles_view()[profile_b@], profile_a@, profile_b@)),
    {
        let a = match self.profiles.get(profile_a) {
            Some(p) => p,
            None => return Err(CustomizationError::ProfileError(concat2("Profile not found: ", profile_a))),
        };
        let b = match self.profiles.get(profile_b) {
            Some(p) => p,
            None => return Err(CustomizationError::ProfileError(concat2("Profile not found: ", profile_b))),
        };
        Ok(diff_profiles(a, b, profile_a, profile_b))
    }
}

} // verus!
