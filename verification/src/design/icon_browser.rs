//! Icons: sizes, variants and categories, icon sets, and the browser that
//! searches them, caches their renderings and grows custom sets. The built-in
//! sets are in `icon_packs`; rendering SVG and writing archives are outside
//! the library.
//! Times are milliseconds since the Unix epoch.
use vstd::prelude::*;
use crate::design::color_picker::{hex_code, hex_string, HexColor};
use crate::design::DesignError;
use crate::stamp::{is_hyphenated_uuid, new_uuid, now_millis};
use crate::strmap::{list_at, push_to, StrMap};
use crate::text::{concat2, contains_seq, contains_str, decimal, lowercase, owned, str_eq, to_lowercase, u64_to_string, views};

verus! {

/// Icon size, in pixels per side.
#[derive(Debug, Clone, Copy, PartialEq, Eq, Structural, Hash)]
pub enum IconSize {
    Tiny(usize),
    Small(usize),
    Medium(usize),
    Large(usize),
    XLarge(usize),
    XXLarge(usize),
    Custom(usize),
}

/// The pixel count an icon size carries.
pub open spec fn size_pixels(s: IconSize) -> usize {
    match s {
        IconSize::Tiny(p) => p,
        IconSize::Small(p) => p,
        IconSize::Medium(p) => p,
        IconSize::Large(p) => p,
        IconSize::XLarge(p) => p,
        IconSize::XXLarge(p) => p,
        IconSize::Custom(p) => p,
    }
}

impl IconSize {
    /// Pixels per side.
    pub fn pixels(&self) -> (p: usize)
        ensures p == size_pixels(*self),
    {
        match self {
            IconSize::Tiny(s) => *s,
            IconSize::Small(s) => *s,
            IconSize::Medium(s) => *s,
            IconSize::Large(s) => *s,
            IconSize::XLarge(s) => *s,
            IconSize::XXLarge(s) => *s,
            IconSize::Custom(s) => *s,
        }
    }

    /// The standard sizes: 16, 24, 32, 48, 64 and 96 pixels.
    pub fn default_sizes() -> (v: Vec<IconSize>)
        ensures
            v@ == seq![
                IconSize::Tiny(16),
                IconSize::Small(24),
                IconSize::Medium(32),
                IconSize::Large(48),
                IconSize::XLarge(64),
                IconSize::XXLarge(96),
            ],
    {
        let v = vec![
            IconSize::Tiny(16),
            IconSize::Small(24),
            IconSize::Medium(32),
            IconSize::Large(48),
            IconSize::XLarge(64),
            IconSize::XXLarge(96),
        ];
        assert(v@ =~= seq![
            IconSize::Tiny(16),
            IconSize::Small(24),
            IconSize::Medium(32),
            IconSize::Large(48),
            IconSize::XLarge(64),
            IconSize::XXLarge(96),
        ]);
        v
    }
}

/// Icon variant.
#[derive(Debug, Clone)]
pub enum IconVariant {
    Outline,
    Filled,
    TwoTone,
    Sharp,
    Rounded,
    Custom(String),
}

/// Icon category.
#[derive(Debug, Clone)]
pub struct IconCategory {
    pub id: String,
    pub name: String,
    pub description: Option<String>,
    pub icon_count: usize,
    pub parent: Option<String>,
}


/// An icon. The view box is x, y, width and height.
pub struct Icon {
    pub id: String,
    pub name: String,
    pub set: String,
    pub category: String,
    pub tags: Vec<String>,
    pub variant: IconVariant,
    pub svg: String,
    pub width: u32,
    pub height: u32,
    pub view_box: (u32, u32, u32, u32),
    pub created_at: i64,
    pub updated_at: i64,
    pub popularity: u32,
}

/// What `regex::Regex::replace_all` gives: the text with every match of the
/// pattern replaced, or nothing when the pattern does not compile.
pub uninterp spec fn regex_replaced(pattern: Seq<char>, text: Seq<char>, replacement: Seq<char>) -> Option<Seq<char>>;

/// `regex::Regex::new(pattern)` and its `replace_all(text, replacement)`, named
/// by `regex_replaced`.
#[verifier::external_body]
fn replace_matches(pattern: &str, text: &str, replacement: &str) -> (r: Option<String>)
    ensures
        match r {
            Some(t) => regex_replaced(pattern@, text@, replacement@) == Some(t@),
            None => regex_replaced(pattern@, text@, replacement@) is None,
        },
{
    let re = regex::Regex::new(pattern).ok()?;
    Some(re.replace_all(text, replacement).to_string())
}

/// Two replacements in a row, if both patterns compile.
pub open spec fn replaced_twice(text: Seq<char>, p1: Seq<char>, r1: Seq<char>, p2: Seq<char>, r2: Seq<char>) -> Option<Seq<char>> {
    match regex_replaced(p1, text, r1) {
        Some(t) => regex_replaced(p2, t, r2),
        None => None,
    }
}

/// Three replacements in a row, if all patterns compile.
pub open spec fn replaced_thrice(text: Seq<char>, p1: Seq<char>, r1: Seq<char>, p2: Seq<char>, r2: Seq<char>,
    p3: Seq<char>, r3: Seq<char>) -> Option<Seq<char>> {
    match replaced_twice(text, p1, r1, p2, r2) {
        Some(t) => regex_replaced(p3, t, r3),
        None => None,
    }
}

/// The SVG of an icon drawn in one colour: every fill and stroke attribute and
/// every `currentColor` take the colour's code.
pub open spec fn recolored_svg(svg: Seq<char>, hex: Seq<char>) -> Option<Seq<char>> {
    replaced_thrice(svg,
        "fill=\"[^\"]*\""@, "fill=\""@ + hex + "\""@,
        "stroke=\"[^\"]*\""@, "stroke=\""@ + hex + "\""@,
        "currentColor"@, hex)
}

/// The SVG of an icon at another size: its view box, width and height
/// attributes rewritten.
pub open spec fn resized_svg(svg: Seq<char>, width: u32, height: u32) -> Option<Seq<char>> {
    replaced_thrice(svg,
        "viewBox=\"[^\"]*\""@, "viewBox=\"0 0 "@ + decimal(width as nat) + " "@ + decimal(height as nat) + "\""@,
        "width=\"[^\"]*\""@, "width=\""@ + decimal(width as nat) + "\""@,
        "height=\"[^\"]*\""@, "height=\""@ + decimal(height as nat) + "\""@)
}

fn copy_strings(v: &Vec<String>) -> (r: Vec<String>)
    ensures r@ == v@,
{
    let mut r: Vec<String> = Vec::new();
    let mut i: usize = 0;
    while i < v.len()
        invariant
            i <= v@.len(),
            r@ == v@.subrange(0, i as int),
        decreases v.len() - i,
    {
        r.push(v[i].clone());
        i = i + 1;
        assert(r@ =~= v@.subrange(0, i as int));
    }
    assert(v@.subrange(0, v@.len() as int) =~= v@);
    r
}

fn copy_variant(v: &IconVariant) -> (r: IconVariant)
    ensures r == *v,
{
    match v {
        IconVariant::Outline => IconVariant::Outline,
        IconVariant::Filled => IconVariant::Filled,
        IconVariant::TwoTone => IconVariant::TwoTone,
        IconVariant::Sharp => IconVariant::Sharp,
        IconVariant::Rounded => IconVariant::Rounded,
        IconVariant::Custom(s) => IconVariant::Custom(s.clone()),
    }
}

/// `b` is icon `a` with another SVG, size and update time.
pub open spec fn same_icon_but_drawing(a: Icon, b: Icon) -> bool {
    &&& b.id == a.id && b.name == a.name && b.set == a.set && b.category == a.category
    &&& b.tags@ == a.tags@ && b.variant == a.variant && b.created_at == a.created_at && b.popularity == a.popularity
}

impl Icon {
    fn with_drawing(&self, svg: String, width: u32, height: u32, view_box: (u32, u32, u32, u32)) -> (r: Icon)
        ensures
            same_icon_but_drawing(*self, r),
            r.svg == svg && r.width == width && r.height == height && r.view_box == view_box,
    {
        Icon {
            id: self.id.clone(),
            name: self.name.clone(),
            set: self.set.clone(),
            category: self.category.clone(),
            tags: copy_strings(&self.tags),
            variant: copy_variant(&self.variant),
            svg,
            width,
            height,
            view_box,
            created_at: self.created_at,
            updated_at: now_millis(),
            popularity: self.popularity,
        }
    }

    /// The icon drawn in one colour; see `recolored_svg`. A pattern that does
    /// not compile is an SVG error.
    pub fn recolor(&self, color: HexColor) -> (r: Result<Icon, DesignError>)
        ensures
            match recolored_svg(self.svg@, hex_code(color)) {
                Some(svg) => r matches Ok(i) && same_icon_but_drawing(*self, i) && i.svg@ == svg
                    && i.width == self.width && i.height == self.height && i.view_box == self.view_box,
                None => r matches Err(DesignError::SvgError(m)) && m@ == "Invalid pattern"@,
            },
    {
        let hex = hex_string(color);
        let mut fill = owned("fill=\"");
        fill.append(hex.as_str());
        fill.append("\"");
        let mut stroke = owned("stroke=\"");
        stroke.append(hex.as_str());
        stroke.append("\"");
        let svg = match replace_matches("fill=\"[^\"]*\"", self.svg.as_str(), fill.as_str()) {
            Some(t) => t,
            None => return Err(DesignError::SvgError(owned("Invalid pattern"))),
        };
        let svg = match replace_matches("stroke=\"[^\"]*\"", svg.as_str(), stroke.as_str()) {
            Some(t) => t,
            None => return Err(DesignError::SvgError(owned("Invalid pattern"))),
        };
        let svg = match replace_matches("currentColor", svg.as_str(), hex.as_str()) {
            Some(t) => t,
            None => return Err(DesignError::SvgError(owned("Invalid pattern"))),
        };
        Ok(self.with_drawing(svg, self.width, self.height, self.view_box))
    }

    /// The icon at another size; see `resized_svg`. Its view box becomes
    /// 0 0 width height. A pattern that does not compile is an SVG error.
    pub fn resize(&self, width: u32, height: u32) -> (r: Result<Icon, DesignError>)
        ensures
            match resized_svg(self.svg@, width, height) {
                Some(svg) => r matches Ok(i) && same_icon_but_drawing(*self, i) && i.svg@ == svg
                    && i.width == width && i.height == height && i.view_box == (0u32, 0u32, width, height),
                None => r matches Err(DesignError::SvgError(m)) && m@ == "Invalid pattern"@,
            },
    {
        let w = u64_to_string(width as u64);
        let h = u64_to_string(height as u64);
        let mut view_box = owned("viewBox=\"0 0 ");
        view_box.append(w.as_str());
        view_box.append(" ");
        view_box.append(h.as_str());
        view_box.append("\"");
        let mut width_attr = owned("width=\"");
        width_attr.append(w.as_str());
        width_attr.append("\"");
        let mut height_attr = owned("height=\"");
        height_attr.append(h.as_str());
        height_attr.append("\"");
        let svg = match replace_matches("viewBox=\"[^\"]*\"", self.svg.as_str(), view_box.as_str()) {
            Some(t) => t,
            None => return Err(DesignError::SvgError(owned("Invalid pattern"))),
        };
        let svg = match replace_matches("width=\"[^\"]*\"", svg.as_str(), width_attr.as_str()) {
            Some(t) => t,
            None => return Err(DesignError::SvgError(owned("Invalid pattern"))),
        };
        let svg = match replace_matches("height=\"[^\"]*\"", svg.as_str(), height_attr.as_str()) {
            Some(t) => t,
            None => return Err(DesignError::SvgError(owned("Invalid pattern"))),
        };
        Ok(self.with_drawing(svg, width, height, (0, 0, width, height)))
    }
}

/// A set of icons.
pub struct IconPack {
    pub id: String,
    pub name: String,
    pub version: String,
    pub author: String,
    pub license: String,
    pub icons: Vec<Icon>,
    pub categories: Vec<IconCategory>,
    pub variants: Vec<IconVariant>,
}

/// Whether an icon answers a search: its name or one of its tags contains
/// the query, compared in lower case.
pub open spec fn icon_matches(icon: Icon, query_lower: Seq<char>) -> bool {
    contains_seq(lowercase(icon.name@), query_lower)
        || exists|k: int| 0 <= k < icon.tags@.len() && contains_seq(lowercase(#[trigger] icon.tags@[k]@), query_lower)
}

/// Whether an icon of a set passes a search's filters and query.
pub open spec fn icon_selected(pack: IconPack, icon: Icon, query_lower: Seq<char>, set: Option<Seq<char>>,
    category: Option<Seq<char>>) -> bool {
    &&& (set matches Some(s) ==> pack.id@ == s)
    &&& (category matches Some(c) ==> icon.category@ == c)
    &&& icon_matches(icon, query_lower)
}

/// The ids of the icons a search finds in a sequence of sets, set by set and
/// icon by icon.
pub open spec fn search_ids(packs: Seq<IconPack>, query_lower: Seq<char>, set: Option<Seq<char>>,
    category: Option<Seq<char>>) -> Seq<Seq<char>>
    decreases packs.len(),
{
    if packs.len() == 0 {
        Seq::empty()
    } else {
        search_ids(packs.drop_last(), query_lower, set, category)
            + pack_ids(packs.last(), packs.last().icons@, query_lower, set, category)
    }
}

/// The ids of the icons of one set that a search finds, in order.
pub open spec fn pack_ids(pack: IconPack, icons: Seq<Icon>, query_lower: Seq<char>, set: Option<Seq<char>>,
    category: Option<Seq<char>>) -> Seq<Seq<char>>
    decreases icons.len(),
{
    if icons.len() == 0 {
        Seq::empty()
    } else {
        pack_ids(pack, icons.drop_last(), query_lower, set, category) + if icon_selected(pack, icons.last(), query_lower, set, category) {
            seq![icons.last().id@]
        } else {
            Seq::empty()
        }
    }
}

/// The rendering lists of a cache, as sequences.
pub open spec fn cache_lists(m: Map<Seq<char>, Vec<(IconSize, Vec<u8>)>>) -> Map<Seq<char>, Seq<(IconSize, Vec<u8>)>> {
    m.map_values(|v: Vec<(IconSize, Vec<u8>)>| v@)
}

/// The id lists of an index, as views.
pub open spec fn id_lists(m: Map<Seq<char>, Vec<String>>) -> Map<Seq<char>, Seq<Seq<char>>> {
    m.map_values(|v: Vec<String>| views(v@))
}

/// An index after filing `id` under each of `tags` in turn.
pub open spec fn add_ids(m: Map<Seq<char>, Seq<Seq<char>>>, tags: Seq<Seq<char>>, id: Seq<char>)
    -> Map<Seq<char>, Seq<Seq<char>>>
    decreases tags.len(),
{
    if tags.len() == 0 {
        m
    } else {
        let m1 = add_ids(m, tags.drop_last(), id);
        let t = tags.last();
        m1.insert(t, (if m1.contains_key(t) { m1[t] } else { Seq::empty() }).push(id))
    }
}

/// Renderings with one at a size put in: replacing the first of that size,
/// or last when there is none.
pub open spec fn put_size(l: Seq<(IconSize, Vec<u8>)>, size: IconSize, data: Vec<u8>) -> Seq<(IconSize, Vec<u8>)>
    decreases l.len(),
{
    if l.len() == 0 {
        seq![(size, data)]
    } else if l[0].0 == size {
        seq![(size, data)] + l.drop_first()
    } else {
        seq![l[0]] + put_size(l.drop_first(), size, data)
    }
}

proof fn lemma_put_size(l: Seq<(IconSize, Vec<u8>)>, size: IconSize, data: Vec<u8>, k: int)
    requires
        0 <= k <= l.len(),
        forall|j: int| 0 <= j < k ==> (#[trigger] l[j]).0 != size,
        k == l.len() || l[k].0 == size,
    ensures
        put_size(l, size, data) == (if k < l.len() { l.update(k, (size, data)) } else { l.push((size, data)) }),
    decreases k,
{
    if k == 0 {
        if l.len() == 0 {
            assert(seq![(size, data)] =~= l.push((size, data)));
        } else {
            assert(seq![(size, data)] + l.drop_first() =~= l.update(0, (size, data)));
        }
    } else {
        let t = l.drop_first();
        assert forall|j: int| 0 <= j < k - 1 implies (#[trigger] t[j]).0 != size by {
            assert(t[j] == l[j + 1]);
        }
        if k < l.len() {
            assert(t[k - 1] == l[k]);
        }
        lemma_put_size(t, size, data, k - 1);
        assert(l[0].0 != size);
        if k < l.len() {
            assert(seq![l[0]] + t.update(k - 1, (size, data)) =~= l.update(k, (size, data)));
        } else {
            assert(seq![l[0]] + t.push((size, data)) =~= l.push((size, data)));
        }
    }
}

/// An icon's renderings after caching one: when the icon already has as many
/// as are kept, its oldest goes first; then the new one is put in (see
/// `put_size`).
pub open spec fn cache_after(l: Seq<(IconSize, Vec<u8>)>, max: usize, size: IconSize, data: Vec<u8>)
    -> Seq<(IconSize, Vec<u8>)> {
    let l1 = if l.len() >= max && l.len() > 0 { l.drop_first() } else { l };
    put_size(l1, size, data)
}

/// No size occurs twice among an icon's renderings.
pub open spec fn sizes_distinct(l: Seq<(IconSize, Vec<u8>)>) -> bool {
    forall|a: int, b: int| 0 <= a < l.len() && 0 <= b < l.len() && a != b ==> #[trigger] l[a].0 != #[trigger] l[b].0
}

proof fn lemma_put_size_sizes(l: Seq<(IconSize, Vec<u8>)>, size: IconSize, data: Vec<u8>)
    ensures
        forall|j: int| 0 <= j < put_size(l, size, data).len() ==> (#[trigger] put_size(l, size, data)[j]).0 == size
            || exists|i: int| 0 <= i < l.len() && l[i].0 == put_size(l, size, data)[j].0,
    decreases l.len(),
{
    if l.len() > 0 && l[0].0 != size {
        let t = l.drop_first();
        lemma_put_size_sizes(t, size, data);
        let p = put_size(l, size, data);
        assert forall|j: int| 0 <= j < p.len() implies (#[trigger] p[j]).0 == size
            || exists|i: int| 0 <= i < l.len() && l[i].0 == p[j].0 by {
            if j == 0 {
                assert(l[0].0 == p[0].0);
            } else {
                assert(p[j] == put_size(t, size, data)[j - 1]);
                if p[j].0 != size {
                    let i = choose|i: int| 0 <= i < t.len() && t[i].0 == put_size(t, size, data)[j - 1].0;
                    assert(l[i + 1] == t[i]);
                }
            }
        }
    } else if l.len() > 0 {
        let p = put_size(l, size, data);
        assert forall|j: int| 0 <= j < p.len() implies (#[trigger] p[j]).0 == size
            || exists|i: int| 0 <= i < l.len() && l[i].0 == p[j].0 by {
            if j > 0 {
                assert(p[j] == l[j]);
            }
        }
    }
}

proof fn lemma_put_size_distinct(l: Seq<(IconSize, Vec<u8>)>, size: IconSize, data: Vec<u8>)
    requires
        sizes_distinct(l),
    ensures
        sizes_distinct(put_size(l, size, data)),
    decreases l.len(),
{
    let p = put_size(l, size, data);
    if l.len() == 0 {
    } else if l[0].0 == size {
        assert forall|a: int, b: int| 0 <= a < p.len() && 0 <= b < p.len() && a != b
            implies #[trigger] p[a].0 != #[trigger] p[b].0 by {
            if a > 0 {
                assert(p[a] == l[a]);
            }
            if b > 0 {
                assert(p[b] == l[b]);
            }
        }
    } else {
        let t = l.drop_first();
        assert(sizes_distinct(t)) by {
            assert forall|a: int, b: int| 0 <= a < t.len() && 0 <= b < t.len() && a != b
                implies #[trigger] t[a].0 != #[trigger] t[b].0 by {
                assert(t[a] == l[a + 1]);
                assert(t[b] == l[b + 1]);
            }
        }
        lemma_put_size_distinct(t, size, data);
        lemma_put_size_sizes(t, size, data);
        let q = put_size(t, size, data);
        assert forall|a: int, b: int| 0 <= a < p.len() && 0 <= b < p.len() && a != b
            implies #[trigger] p[a].0 != #[trigger] p[b].0 by {
            if a > 0 && b > 0 {
                assert(p[a] == q[a - 1]);
                assert(p[b] == q[b - 1]);
            } else if a == 0 {
                assert(p[b] == q[b - 1]);
                assert(q[b - 1].0 == size || exists|i: int| 0 <= i < t.len() && t[i].0 == q[b - 1].0);
                if q[b - 1].0 != size {
                    let i = choose|i: int| 0 <= i < t.len() && t[i].0 == q[b - 1].0;
                    assert(l[i + 1] == t[i]);
                }
            } else {
                assert(p[a] == q[a - 1]);
                assert(q[a - 1].0 == size || exists|i: int| 0 <= i < t.len() && t[i].0 == q[a - 1].0);
                if q[a - 1].0 != size {
                    let i = choose|i: int| 0 <= i < t.len() && t[i].0 == q[a - 1].0;
                    assert(l[i + 1] == t[i]);
                }
            }
        }
    }
}

/// Caching keeps at most one rendering of each size per icon.
pub proof fn law_cache_one_per_size(l: Seq<(IconSize, Vec<u8>)>, max: usize, size: IconSize, data: Vec<u8>)
    requires
        sizes_distinct(l),
    ensures
        sizes_distinct(cache_after(l, max, size, data)),
{
    let l1 = if l.len() >= max && l.len() > 0 { l.drop_first() } else { l };
    assert(sizes_distinct(l1)) by {
        if l.len() >= max && l.len() > 0 {
            assert forall|a: int, b: int| 0 <= a < l1.len() && 0 <= b < l1.len() && a != b
                implies #[trigger] l1[a].0 != #[trigger] l1[b].0 by {
                assert(l1[a] == l[a + 1]);
                assert(l1[b] == l[b + 1]);
            }
        }
    }
    lemma_put_size_distinct(l1, size, data);
}

/// The browser: icon sets by id, cached renderings by icon id, the most
/// renderings kept per icon, and an index from tags to icon ids.
pub struct IconBrowser {
    icon_sets: StrMap<IconPack>,
    cache: StrMap<Vec<(IconSize, Vec<u8>)>>,
    max_icon_cache: usize,
    search_index: StrMap<Vec<String>>,
}

fn tag_matches(tags: &Vec<String>, query_lower: &str) -> (b: bool)
    ensures b == exists|k: int| 0 <= k < tags@.len() && contains_seq(lowercase(#[trigger] tags@[k]@), query_lower@),
{
    let mut k: usize = 0;
    while k < tags.len()
        invariant
            k <= tags@.len(),
            forall|j: int| 0 <= j < k ==> !contains_seq(lowercase(#[trigger] tags@[j]@), query_lower@),
        decreases tags.len() - k,
    {
        let t = to_lowercase(tags[k].as_str());
        if contains_str(t.as_str(), query_lower) {
            return true;
        }
        k = k + 1;
    }
    false
}

impl IconBrowser {
    pub closed spec fn wf(&self) -> bool {
        self.icon_sets.wf() && self.cache.wf() && self.search_index.wf()
    }

    /// The sets by id.
    pub closed spec fn sets_view(&self) -> Map<Seq<char>, IconPack> {
        self.icon_sets@
    }

    /// The sets in the order first added.
    pub closed spec fn set_seq(&self) -> Seq<IconPack> {
        self.icon_sets.value_seq()
    }

    /// The cached renderings of each icon.
    pub closed spec fn cache_view(&self) -> Map<Seq<char>, Seq<(IconSize, Vec<u8>)>> {
        cache_lists(self.cache@)
    }

    /// The most renderings kept per icon.
    pub closed spec fn max_cache(&self) -> usize {
        self.max_icon_cache
    }

    /// The icon ids filed under each tag.
    pub closed spec fn index_view(&self) -> Map<Seq<char>, Seq<Seq<char>>> {
        id_lists(self.search_index@)
    }

    /// A browser with no sets, nothing cached and an empty index.
    pub fn new(max_icon_cache: usize) -> (b: Self)
        ensures
            b.wf(),
            b.sets_view() == Map::<Seq<char>, IconPack>::empty(),
            b.cache_view() == Map::<Seq<char>, Seq<(IconSize, Vec<u8>)>>::empty(),
            b.max_cache() == max_icon_cache,
            b.index_view() == Map::<Seq<char>, Seq<Seq<char>>>::empty(),
    {
        let b = IconBrowser {
            icon_sets: StrMap::new(),
            cache: StrMap::new(),
            max_icon_cache,
            search_index: StrMap::new(),
        };
        assert(b.cache_view() =~= Map::<Seq<char>, Seq<(IconSize, Vec<u8>)>>::empty());
        assert(b.index_view() =~= Map::<Seq<char>, Seq<Seq<char>>>::empty());
        b
    }

    /// Keep a loaded set under its id, replacing one of that id.
    pub fn add_set(&mut self, pack: IconPack)
        requires old(self).wf(),
        ensures
            final(self).wf(),
            final(self).sets_view() == old(self).sets_view().insert(pack.id@, pack),
            final(self).cache_view() == old(self).cache_view(),
            final(self).index_view() == old(self).index_view(),
            final(self).max_cache() == old(self).max_cache(),
    {
        let id = pack.id.clone();
        self.icon_sets.insert(id, pack);
    }

    /// The ids of the icons whose name or a tag contains the query (in any
    /// case), among the sets in order, keeping to one set and one category
    /// when asked.
    pub fn search(&self, query: &str, set: Option<&str>, category: Option<&str>) -> (r: Result<Vec<String>, DesignError>)
        requires self.wf(),
        ensures
            r matches Ok(ids) && views(ids@) == search_ids(self.set_seq(), lowercase(query@),
                match set { Some(s) => Some(s@), None => None::<Seq<char>> },
                match category { Some(c) => Some(c@), None => None::<Seq<char>> }),
    {
        let q = to_lowercase(query);
        let packs = self.icon_sets.values();
        let ghost sv = match set { Some(s) => Some(s@), None => None::<Seq<char>> };
        let ghost cv = match category { Some(c) => Some(c@), None => None::<Seq<char>> };
        let mut out: Vec<String> = Vec::new();
        let mut p: usize = 0;
        proof {
            assert(self.set_seq().subrange(0, 0) =~= Seq::<IconPack>::empty());
        }
        while p < packs.len()
            invariant
                p <= packs@.len(),
                packs@.len() == self.set_seq().len(),
                forall|j: int| 0 <= j < packs@.len() ==> *#[trigger] packs@[j] == self.set_seq()[j],
                q@ == lowercase(query@),
                sv == (match set { Some(s) => Some(s@), None => None::<Seq<char>> }),
                cv == (match category { Some(c) => Some(c@), None => None::<Seq<char>> }),
                views(out@) == search_ids(self.set_seq().subrange(0, p as int), q@, sv, cv),
            decreases packs.len() - p,
        {
            let pack = packs[p];
            proof {
                let s = self.set_seq().subrange(0, p + 1);
                assert(s.drop_last() =~= self.set_seq().subrange(0, p as int));
                assert(s.last() == *pack);
            }
            let ghost before = out@;
            let set_ok = match set {
                Some(s) => str_eq(pack.id.as_str(), s),
                None => true,
            };
            let mut i: usize = 0;
            proof {
                assert(pack.icons@.subrange(0, 0) =~= Seq::<Icon>::empty());
                assert(views(out@) =~= views(before) + pack_ids(*pack, pack.icons@.subrange(0, 0), q@, sv, cv));
            }
            while i < pack.icons.len()
                invariant
                    i <= pack.icons@.len(),
                    q@ == lowercase(query@),
                    set_ok == (sv matches Some(s) ==> pack.id@ == s),
                    views(out@) == views(before) + pack_ids(*pack, pack.icons@.subrange(0, i as int), q@, sv, cv),
                    sv == (match set { Some(s) => Some(s@), None => None::<Seq<char>> }),
                    cv == (match category { Some(c) => Some(c@), None => None::<Seq<char>> }),
                decreases pack.icons.len() - i,
            {
                let icon = &pack.icons[i];
                proof {
                    let s = pack.icons@.subrange(0, i + 1);
                    assert(s.drop_last() =~= pack.icons@.subrange(0, i as int));
                    assert(s.last() == *icon);
                }
                let cat_ok = match category {
                    Some(c) => str_eq(icon.category.as_str(), c),
                    None => true,
                };
                let selected = if set_ok && cat_ok {
                    let n = to_lowercase(icon.name.as_str());
                    contains_str(n.as_str(), q.as_str()) || tag_matches(&icon.tags, q.as_str())
                } else {
                    false
                };
                let ghost o = out@;
                if selected {
                    out.push(icon.id.clone());
                    proof {
                        assert(views(out@) =~= views(o).push(icon.id@));
                    }
                }
                proof {
                    assert(selected == icon_selected(*pack, *icon, q@, sv, cv));
                    assert(views(out@) =~= views(before) + pack_ids(*pack, pack.icons@.subrange(0, i + 1), q@, sv, cv));
                }
                i = i + 1;
            }
            proof {
                assert(pack.icons@.subrange(0, pack.icons@.len() as int) =~= pack.icons@);
            }
            p = p + 1;
        }
        proof {
            assert(self.set_seq().subrange(0, packs@.len() as int) =~= self.set_seq());
        }
        Ok(out)
    }

    /// The set under `set_id`.
    pub fn get_set(&self, set_id: &str) -> (r: Option<&IconPack>)
        requires self.wf(),
        ensures
            match r {
                Some(p) => self.sets_view().contains_key(set_id@) && *p == self.sets_view()[set_id@],
                None => !self.sets_view().contains_key(set_id@),
            },
    {
        self.icon_sets.get(set_id)
    }

    /// The first icon with the given id, looking through the sets in the order
    /// first added and through each set's icons in order.
    pub fn get_icon(&self, id: &str) -> (r: Option<&Icon>)
        requires self.wf(),
        ensures
            match r {
                Some(icon) => exists|i: int, j: int| #![trigger self.set_seq()[i].icons@[j]]
                    0 <= i < self.set_seq().len() && 0 <= j < self.set_seq()[i].icons@.len()
                    && *icon == self.set_seq()[i].icons@[j] && icon.id@ == id@
                    && (forall|i2: int, j2: int| 0 <= i2 < i && 0 <= j2 < self.set_seq()[i2].icons@.len()
                        ==> (#[trigger] self.set_seq()[i2].icons@[j2]).id@ != id@)
                    && (forall|j2: int| 0 <= j2 < j ==> (#[trigger] self.set_seq()[i].icons@[j2]).id@ != id@),
                None => forall|i: int, j: int| 0 <= i < self.set_seq().len() && 0 <= j < self.set_seq()[i].icons@.len()
                    ==> (#[trigger] self.set_seq()[i].icons@[j]).id@ != id@,
            },
    {
        let n = self.icon_sets.len();
        let mut i: usize = 0;
        while i < n
            invariant
                n == self.set_seq().len(),
                i <= n,
                forall|i2: int, j2: int| 0 <= i2 < i && 0 <= j2 < self.set_seq()[i2].icons@.len()
                    ==> (#[trigger] self.set_seq()[i2].icons@[j2]).id@ != id@,
            decreases n - i,
        {
            let (_, pack) = self.icon_sets.entry_at(i);
            assert(*pack == self.set_seq()[i as int]);
            let mut j: usize = 0;
            while j < pack.icons.len()
                invariant
                    n == self.set_seq().len(),
                    i < n,
                    *pack == self.set_seq()[i as int],
                    j <= pack.icons@.len(),
                    forall|i2: int, j2: int| 0 <= i2 < i && 0 <= j2 < self.set_seq()[i2].icons@.len()
                        ==> (#[trigger] self.set_seq()[i2].icons@[j2]).id@ != id@,
                    forall|j2: int| 0 <= j2 < j ==> (#[trigger] self.set_seq()[i as int].icons@[j2]).id@ != id@,
                decreases pack.icons.len() - j,
            {
                if str_eq(pack.icons[j].id.as_str(), id) {
                    assert(self.set_seq()[i as int].icons@[j as int] == pack.icons@[j as int]);
                    return Some(&pack.icons[j]);
                }
                j = j + 1;
            }
            i = i + 1;
        }
        None
    }

    /// The icons of the set under `set_id`, if there is one.
    pub fn get_set_icons(&self, set_id: &str) -> (r: Option<&Vec<Icon>>)
        requires self.wf(),
        ensures
            match r {
                Some(v) => self.sets_view().contains_key(set_id@) && *v == self.sets_view()[set_id@].icons,
                None => !self.sets_view().contains_key(set_id@),
            },
    {
        match self.icon_sets.get(set_id) {
            Some(p) => Some(&p.icons),
            None => None,
        }
    }

    /// The sets, in the order first added.
    pub fn get_sets(&self) -> (r: Vec<&IconPack>)
        ensures
            r@.len() == self.set_seq().len(),
            forall|i: int| 0 <= i < r@.len() ==> *#[trigger] r@[i] == self.set_seq()[i],
    {
        self.icon_sets.values()
    }

    /// The categories of the set under `set_id` (none for an unknown set).
    pub fn get_categories(&self, set_id: &str) -> (r: &[IconCategory])
        requires self.wf(),
        ensures
            self.sets_view().contains_key(set_id@) ==> r@ == self.sets_view()[set_id@].categories@,
            !self.sets_view().contains_key(set_id@) ==> r@.len() == 0,
    {
        match self.icon_sets.get(set_id) {
            Some(p) => p.categories.as_slice(),
            None => &[],
        }
    }

    /// The cached rendering of an icon at a size.
    pub fn get_cached(&self, icon_id: &str, size: IconSize) -> (r: Option<&Vec<u8>>)
        requires self.wf(),
        ensures
            match r {
                Some(d) => self.cache_view().contains_key(icon_id@)
                    && exists|k: int| 0 <= k < self.cache_view()[icon_id@].len()
                        && (#[trigger] self.cache_view()[icon_id@][k]).0 == size && self.cache_view()[icon_id@][k].1 == *d,
                None => !self.cache_view().contains_key(icon_id@)
                    || forall|k: int| 0 <= k < self.cache_view()[icon_id@].len()
                        ==> (#[trigger] self.cache_view()[icon_id@][k]).0 != size,
            },
    {
        match self.cache.get(icon_id) {
            Some(entries) => {
                let mut k: usize = 0;
                while k < entries.len()
                    invariant
                        k <= entries@.len(),
                        self.cache@.contains_key(icon_id@),
                        *entries == self.cache@[icon_id@],
                        forall|j: int| 0 <= j < k ==> (#[trigger] entries@[j]).0 != size,
                    decreases entries.len() - k,
                {
                    if entries[k].0 == size {
                        return Some(&entries[k].1);
                    }
                    k = k + 1;
                }
                None
            },
            None => None,
        }
    }

    /// Cache a rendering of an icon at a size; see `cache_after`.
    pub fn cache_icon(&mut self, icon_id: &str, size: IconSize, data: Vec<u8>)
        requires
            old(self).wf(),
        ensures
            final(self).wf(),
            final(self).cache_view() == old(self).cache_view().insert(icon_id@, cache_after(
                if old(self).cache_view().contains_key(icon_id@) { old(self).cache_view()[icon_id@] } else { Seq::empty() },
                old(self).max_cache(), size, data)),
            final(self).sets_view() == old(self).sets_view(),
            final(self).index_view() == old(self).index_view(),
            final(self).max_cache() == old(self).max_cache(),
    {
        let ghost before = self.cache@;
        let mut list: Vec<(IconSize, Vec<u8>)> = match self.cache.remove(icon_id) {
            Some(l) => l,
            None => Vec::new(),
        };
        let ghost l0 = list@;
        proof {
            assert(l0 == (if self.cache_view().contains_key(icon_id@) || before.contains_key(icon_id@) {
                before[icon_id@]@ } else { Seq::<(IconSize, Vec<u8>)>::empty() }));
        }
        if list.len() >= self.max_icon_cache && list.len() > 0 {
            list.remove(0);
            assert(list@ =~= l0.drop_first());
        }
        let ghost l1 = list@;
        let mut k: usize = 0;
        let mut found = false;
        while k < list.len()
            invariant_except_break
                !found,
            invariant
                k <= list@.len(),
                list@ == l1,
                forall|j: int| 0 <= j < k ==> (#[trigger] l1[j]).0 != size,
            ensures
                k <= l1.len(),
                found ==> k < l1.len() && l1[k as int].0 == size,
                !found ==> k == l1.len() && forall|j: int| 0 <= j < l1.len() ==> (#[trigger] l1[j]).0 != size,
            decreases list.len() - k,
        {
            if list[k].0 == size {
                found = true;
                break;
            }
            k = k + 1;
        }
        let ghost d = data;
        if found {
            list.set(k, (size, data));
        } else {
            list.push((size, data));
        }
        proof {
            lemma_put_size(l1, size, d, k as int);
            if found {
                assert(list@ == l1.update(k as int, (size, d)));
            } else {
                assert(list@ == l1.push((size, d)));
            }
            assert(list@ == cache_after(l0, self.max_icon_cache, size, d));
        }
        let ghost after_remove = self.cache@;
        self.cache.insert(owned(icon_id), list);
        proof {
            assert(after_remove == before.remove(icon_id@));
            assert(self.cache_view() =~= old(self).cache_view().insert(icon_id@, cache_after(
                if old(self).cache_view().contains_key(icon_id@) { old(self).cache_view()[icon_id@] } else { Seq::empty() },
                old(self).max_cache(), size, d)));
        }
    }

    /// Add an icon to the set under `set_id`, filing its id under each of its
    /// tags; nothing changes for an unknown set.
    pub fn add_custom_icon(&mut self, set_id: &str, icon: Icon) -> (r: Result<(), DesignError>)
        requires old(self).wf(),
        ensures
            final(self).wf(),
            r is Ok,
            final(self).cache_view() == old(self).cache_view(),
            final(self).max_cache() == old(self).max_cache(),
            if old(self).sets_view().contains_key(set_id@) {
                &&& final(self).sets_view().dom() == old(self).sets_view().dom()
                &&& final(self).sets_view()[set_id@].icons@ == old(self).sets_view()[set_id@].icons@.push(icon)
                &&& final(self).sets_view()[set_id@].id == old(self).sets_view()[set_id@].id
                &&& final(self).sets_view()[set_id@].categories@ == old(self).sets_view()[set_id@].categories@
                &&& forall|k: Seq<char>| k != set_id@ && #[trigger] old(self).sets_view().contains_key(k)
                    ==> final(self).sets_view()[k] == old(self).sets_view()[k]
                &&& final(self).index_view() == add_ids(old(self).index_view(), views(icon.tags@), icon.id@)
            } else {
                &&& final(self).sets_view() == old(self).sets_view()
                &&& final(self).index_view() == old(self).index_view()
            },
    {
        let p = match self.icon_sets.find(set_id) {
            Some(p) => p,
            None => {
                return Ok(());
            },
        };
        proof {
            self.icon_sets.lemma_index_of(p as int);
        }
        let ghost tags = views(icon.tags@);
        let ghost start = self.index_view();
        let mut t: usize = 0;
        proof {
            assert(tags.subrange(0, 0) =~= Seq::<Seq<char>>::empty());
        }
        while t < icon.tags.len()
            invariant
                t <= icon.tags@.len(),
                tags == views(icon.tags@),
                self.search_index.wf(),
                self.icon_sets == old(self).icon_sets,
                self.cache == old(self).cache,
                self.max_icon_cache == old(self).max_icon_cache,
                self.icon_sets.wf(),
                p < self.icon_sets.entries().len(),
                self.icon_sets.entries()[p as int].0 == set_id@,
                id_lists(self.search_index@) == add_ids(start, tags.subrange(0, t as int), icon.id@),
            decreases icon.tags.len() - t,
        {
            let ghost before = self.search_index@;
            push_to(&mut self.search_index, icon.tags[t].as_str(), icon.id.clone());
            proof {
                let s = tags.subrange(0, t + 1);
                assert(s.drop_last() =~= tags.subrange(0, t as int));
                assert(s.last() == icon.tags@[t as int]@);
                let key = icon.tags@[t as int]@;
                let m1 = id_lists(before);
                assert(id_lists(self.search_index@) =~= m1.insert(key,
                    (if m1.contains_key(key) { m1[key] } else { Seq::empty() }).push(icon.id@))) by {
                    assert forall|k: Seq<char>| #[trigger] id_lists(self.search_index@).contains_key(k) implies
                        id_lists(self.search_index@)[k] == m1.insert(key, (if m1.contains_key(key) { m1[key] } else { Seq::empty() }).push(icon.id@))[k] by {
                        if k == key {
                            assert(list_at(self.search_index@, key) == list_at(before, key).push(icon.id));
                            assert(views(self.search_index@[key]@) =~= views(list_at(before, key)).push(icon.id@));
                        }
                    }
                }
            }
            t = t + 1;
        }
        proof {
            assert(tags.subrange(0, tags.len() as int) =~= tags);
        }
        let ghost before_sets = self.icon_sets;
        let ghost old_pack = self.icon_sets.entries()[p as int].1;
        let slot = self.icon_sets.value_at_mut(p);
        slot.icons.push(icon);
        let ghost new_pack = *slot;
        proof {
            StrMap::lemma_update_value(before_sets, self.icon_sets, p as int, new_pack);
            before_sets.lemma_index_of(p as int);
            assert(old_pack == old(self).icon_sets@[set_id@]);
            assert(self.icon_sets@ == old(self).icon_sets@.insert(set_id@, new_pack));
            assert(self.sets_view().dom() =~= old(self).sets_view().dom());
        }
        Ok(())
    }

    /// Forget every cached rendering.
    pub fn clear_cache(&mut self)
        requires old(self).wf(),
        ensures
            final(self).wf(),
            final(self).cache_view() == Map::<Seq<char>, Seq<(IconSize, Vec<u8>)>>::empty(),
            final(self).sets_view() == old(self).sets_view(),
            final(self).index_view() == old(self).index_view(),
            final(self).max_cache() == old(self).max_cache(),
    {
        self.cache.clear();
        assert(cache_lists(self.cache@) =~= Map::<Seq<char>, Seq<(IconSize, Vec<u8>)>>::empty());
    }

    /// Keep a new set under a fresh id: version "1.0.0", no icons or
    /// categories, one custom variant "custom". The id is given back.
    pub fn create_set(&mut self, name: String, author: String, license: String) -> (r: Result<String, DesignError>)
        requires old(self).wf(),
        ensures
            final(self).wf(),
            r matches Ok(id) && is_hyphenated_uuid(id@)
                && final(self).sets_view().dom() == old(self).sets_view().dom().insert(id@)
                && final(self).sets_view()[id@].id@ == id@
                && final(self).sets_view()[id@].name == name
                && final(self).sets_view()[id@].version@ == "1.0.0"@
                && final(self).sets_view()[id@].author == author
                && final(self).sets_view()[id@].license == license
                && final(self).sets_view()[id@].icons@.len() == 0
                && final(self).sets_view()[id@].categories@.len() == 0
                && final(self).sets_view()[id@].variants@.len() == 1
                && (final(self).sets_view()[id@].variants@[0] matches IconVariant::Custom(v) && v@ == "custom"@),
            final(self).cache_view() == old(self).cache_view(),
            final(self).index_view() == old(self).index_view(),
    {
        let id = new_uuid();
        let pack = IconPack {
            id: id.clone(),
            name,
            version: owned("1.0.0"),
            author,
            license,
            icons: Vec::new(),
            categories: Vec::new(),
            variants: vec![IconVariant::Custom(owned("custom"))],
        };
        let ghost p = pack;
        self.icon_sets.insert(id.clone(), pack);
        assert(self.icon_sets@[id@] == p);
        Ok(id)
    }

    /// The format a set is exported in: "json", "yaml" or "zip"; others are
    /// refused, as is an unknown set.
    pub fn export_format(&self, set_id: &str, format: &str) -> (r: Result<ExportFormat, DesignError>)
        requires self.wf(),
        ensures
            !self.sets_view().contains_key(set_id@) ==> (r matches Err(DesignError::IconNotFound(m))
                && m@ == "Set not found: "@ + set_id@),
            self.sets_view().contains_key(set_id@) ==> (
                if format@ == "json"@ { r == Ok::<ExportFormat, DesignError>(ExportFormat::Json) }
                else if format@ == "yaml"@ { r == Ok::<ExportFormat, DesignError>(ExportFormat::Yaml) }
                else if format@ == "zip"@ { r == Ok::<ExportFormat, DesignError>(ExportFormat::Zip) }
                else { r matches Err(DesignError::InvalidFormat(m)) && m@ == "Unsupported format: "@ + format@ }),
    {
        if !self.icon_sets.contains_key(set_id) {
            return Err(DesignError::IconNotFound(concat2("Set not found: ", set_id)));
        }
        if str_eq(format, "json") {
            Ok(ExportFormat::Json)
        } else if str_eq(format, "yaml") {
            Ok(ExportFormat::Yaml)
        } else if str_eq(format, "zip") {
            Ok(ExportFormat::Zip)
        } else {
            Err(DesignError::InvalidFormat(concat2("Unsupported format: ", format)))
        }
    }
}

/// The formats an icon set is exported in.
#[derive(Debug, Clone, Copy, PartialEq, Eq, Structural)]
pub enum ExportFormat {
    Json,
    Yaml,
    Zip,
}

} // verus!
