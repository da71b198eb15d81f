//! Font weights, styles and metrics, and the font registry: families and
//! their variants, the fonts read from files, lookups and removal. Reading
//! font files and drawing previews are outside the library.
use vstd::prelude::*;
use crate::design::DesignError;
use crate::stamp::{is_hyphenated_uuid, new_uuid};
use crate::strmap::StrMap;
use crate::text::{concat2, contains_seq, contains_str, decimal, lowercase, owned, str_eq, to_lowercase, u64_to_string};

verus! {

/// Font weight.
#[derive(Debug, Clone, Copy, PartialEq, Eq, Structural, Hash)]
pub enum FontWeight {
    Thin,
    ExtraLight,
    Light,
    Normal,
    Medium,
    SemiBold,
    Bold,
    ExtraBold,
    Black,
    ExtraBlack,
    Custom(u16),
}

/// The CSS number of a weight.
pub open spec fn weight_number(w: FontWeight) -> u16 {
    match w {
        FontWeight::Thin => 100,
        FontWeight::ExtraLight => 200,
        FontWeight::Light => 300,
        FontWeight::Normal => 400,
        FontWeight::Medium => 500,
        FontWeight::SemiBold => 600,
        FontWeight::Bold => 700,
        FontWeight::ExtraBold => 800,
        FontWeight::Black => 900,
        FontWeight::ExtraBlack => 950,
        FontWeight::Custom(n) => n,
    }
}

/// The weight a CSS number names; other numbers are custom weights.
pub open spec fn weight_of_number(n: u16) -> FontWeight {
    if n == 100 { FontWeight::Thin }
    else if n == 200 { FontWeight::ExtraLight }
    else if n == 300 { FontWeight::Light }
    else if n == 400 { FontWeight::Normal }
    else if n == 500 { FontWeight::Medium }
    else if n == 600 { FontWeight::SemiBold }
    else if n == 700 { FontWeight::Bold }
    else if n == 800 { FontWeight::ExtraBold }
    else if n == 900 { FontWeight::Black }
    else if n == 950 { FontWeight::ExtraBlack }
    else { FontWeight::Custom(n) }
}

/// A number that one of the named weights stands for.
pub open spec fn is_named_weight_number(n: u16) -> bool {
    n == 100 || n == 200 || n == 300 || n == 400 || n == 500 || n == 600 || n == 700
        || n == 800 || n == 900 || n == 950
}

impl FontWeight {
    /// The CSS number of the weight.
    pub fn to_number(&self) -> (n: u16)
        ensures n == weight_number(*self),
    {
        match self {
            FontWeight::Thin => 100,
            FontWeight::ExtraLight => 200,
            FontWeight::Light => 300,
            FontWeight::Normal => 400,
            FontWeight::Medium => 500,
            FontWeight::SemiBold => 600,
            FontWeight::Bold => 700,
            FontWeight::ExtraBold => 800,
            FontWeight::Black => 900,
            FontWeight::ExtraBlack => 950,
            FontWeight::Custom(w) => *w,
        }
    }

    /// The weight of a CSS number.
    pub fn from_number(n: u16) -> (w: Self)
        ensures w == weight_of_number(n),
    {
        match n {
            100 => FontWeight::Thin,
            200 => FontWeight::ExtraLight,
            300 => FontWeight::Light,
            400 => FontWeight::Normal,
            500 => FontWeight::Medium,
            600 => FontWeight::SemiBold,
            700 => FontWeight::Bold,
            800 => FontWeight::ExtraBold,
            900 => FontWeight::Black,
            950 => FontWeight::ExtraBlack,
            _ => FontWeight::Custom(n),
        }
    }
}

/// Reading back the weight of any number gives the number.
pub proof fn law_number_round_trip(n: u16)
    ensures weight_number(weight_of_number(n)) == n,
{
}

/// The weight of a weight's number is that weight, except for a custom weight
/// whose number a named weight stands for.
pub proof fn law_weight_round_trip(w: FontWeight)
    requires
        !(w matches FontWeight::Custom(n) && is_named_weight_number(n)),
    ensures weight_of_number(weight_number(w)) == w,
{
}

/// Font style.
#[derive(Debug, Clone, Copy, PartialEq, Eq, Structural, Hash)]
pub enum FontStyle {
    Normal,
    Italic,
    Oblique,
}

/// Font metrics, in font units.
#[derive(Debug, Clone, Copy)]
pub struct FontMetrics {
    pub units_per_em: u16,
    pub ascent: i16,
    pub descent: i16,
    pub line_gap: i16,
    pub cap_height: i16,
    pub x_height: i16,
    pub underline_position: i16,
    pub underline_thickness: i16,
    pub strikeout_position: i16,
    pub strikeout_thickness: i16,
}

/// How wide a font is drawn. A custom stretch is a factor in hundredths.
#[derive(Debug, Clone, Copy, PartialEq, Eq, Structural)]
pub enum FontStretch {
    UltraCondensed,
    ExtraCondensed,
    Condensed,
    SemiCondensed,
    Normal,
    SemiExpanded,
    Expanded,
    ExtraExpanded,
    UltraExpanded,
    Custom(u16),
}

/// A variant of a family: weight, style and stretch.
#[derive(Debug, Clone, Copy, PartialEq, Eq, Structural)]
pub struct FontVariant {
    pub weight: FontWeight,
    pub style: FontStyle,
    pub stretch: FontStretch,
}

pub open spec fn style_name(s: FontStyle) -> Seq<char> {
    match s {
        FontStyle::Normal => "Normal"@,
        FontStyle::Italic => "Italic"@,
        FontStyle::Oblique => "Oblique"@,
    }
}

pub open spec fn stretch_name(s: FontStretch) -> Seq<char> {
    match s {
        FontStretch::UltraCondensed => "UltraCondensed"@,
        FontStretch::ExtraCondensed => "ExtraCondensed"@,
        FontStretch::Condensed => "Condensed"@,
        FontStretch::SemiCondensed => "SemiCondensed"@,
        FontStretch::Normal => "Normal"@,
        FontStretch::SemiExpanded => "SemiExpanded"@,
        FontStretch::Expanded => "Expanded"@,
        FontStretch::ExtraExpanded => "ExtraExpanded"@,
        FontStretch::UltraExpanded => "UltraExpanded"@,
        FontStretch::Custom(h) => "Custom("@ + decimal(h as nat) + ")"@,
    }
}

/// The key a family files a variant under: weight number, style and stretch.
pub open spec fn variant_key_spec(v: FontVariant) -> Seq<char> {
    decimal(weight_number(v.weight) as nat) + "-"@ + style_name(v.style) + "-"@ + stretch_name(v.stretch)
}

fn style_text(s: FontStyle) -> (r: &'static str)
    ensures r@ == style_name(s),
{
    match s {
        FontStyle::Normal => "Normal",
        FontStyle::Italic => "Italic",
        FontStyle::Oblique => "Oblique",
    }
}

/// The key of a variant; see `variant_key_spec`.
pub fn variant_key(v: &FontVariant) -> (r: String)
    ensures r@ == variant_key_spec(*v),
{
    let mut k = u64_to_string(v.weight.to_number() as u64);
    k.append("-");
    k.append(style_text(v.style));
    k.append("-");
    match v.stretch {
        FontStretch::UltraCondensed => k.append("UltraCondensed"),
        FontStretch::ExtraCondensed => k.append("ExtraCondensed"),
        FontStretch::Condensed => k.append("Condensed"),
        FontStretch::SemiCondensed => k.append("SemiCondensed"),
        FontStretch::Normal => k.append("Normal"),
        FontStretch::SemiExpanded => k.append("SemiExpanded"),
        FontStretch::Expanded => k.append("Expanded"),
        FontStretch::ExtraExpanded => k.append("ExtraExpanded"),
        FontStretch::UltraExpanded => k.append("UltraExpanded"),
        FontStretch::Custom(h) => {
            k.append("Custom(");
            let t = u64_to_string(h as u64);
            k.append(t.as_str());
            k.append(")");
        },
    }
    k
}

/// A font read from a file. Its family is empty until a caller sets it.
#[derive(Debug)]
pub struct Font {
    pub id: String,
    pub family_id: String,
    pub family_name: String,
    pub full_name: String,
    pub postscript_name: String,
    pub variant: FontVariant,
    pub file_path: String,
    pub data: Vec<u8>,
    pub metrics: FontMetrics,
}

/// A font family: its variants, the default one, and the file of each
/// variant by its key.
#[derive(Debug)]
pub struct FontFamily {
    pub id: String,
    pub name: String,
    pub variants: Vec<FontVariant>,
    pub default_variant: FontVariant,
    pub category: String,
    pub license: String,
    pub designer: Option<String>,
    pub installed: bool,
    pub file_paths: StrMap<String>,
}

/// What was read from a font file: its path and bytes, the family name the
/// font gives (if any) and the file's stem, the PostScript name (if any), the
/// variant and the metrics.
#[derive(Debug)]
pub struct FontFile {
    pub path: String,
    pub data: Vec<u8>,
    pub family_name: Option<String>,
    pub file_stem: String,
    pub postscript_name: Option<String>,
    pub variant: FontVariant,
    pub metrics: FontMetrics,
}

/// The family a font file belongs to: the name it gives, else its stem.
pub open spec fn file_family(f: FontFile) -> Seq<char> {
    match f.family_name {
        Some(n) => n@,
        None => f.file_stem@,
    }
}

/// The font a file gives: named after its family and weight, with the
/// PostScript name it gives or "family-weight", and no family id yet.
pub open spec fn font_from_file(font: Font, f: FontFile) -> bool {
    let family = file_family(f);
    let weight = decimal(weight_number(f.variant.weight) as nat);
    &&& font.family_id@ == Seq::<char>::empty()
    &&& font.family_name@ == family
    &&& font.full_name@ == family + " "@ + weight
    &&& font.postscript_name@ == (match f.postscript_name { Some(p) => p@, None => family + "-"@ + weight })
    &&& font.variant == f.variant
    &&& font.file_path == f.path
    &&& font.data == f.data
    &&& font.metrics == f.metrics
}

/// `i` is the first family named `name`.
pub open spec fn is_first_family(fams: Seq<FontFamily>, name: Seq<char>, i: int) -> bool {
    &&& 0 <= i < fams.len()
    &&& fams[i].name@ == name
    &&& forall|j: int| 0 <= j < i ==> (#[trigger] fams[j]).name@ != name
}

/// The position of the first family named `name`, if any.
pub open spec fn first_family(fams: Seq<FontFamily>, name: Seq<char>) -> Option<int> {
    if exists|i: int| is_first_family(fams, name, i) {
        Some(choose|i: int| is_first_family(fams, name, i))
    } else {
        None
    }
}

proof fn lemma_first_family_unique(fams: Seq<FontFamily>, name: Seq<char>, i: int)
    requires is_first_family(fams, name, i),
    ensures first_family(fams, name) == Some(i),
{
    let c = choose|j: int| is_first_family(fams, name, j);
    assert(is_first_family(fams, name, c));
    if c < i {
        assert(fams[c].name@ != name);
    } else if i < c {
        assert(fams[i].name@ != name);
    }
}

/// `g` is family `f` with one more variant filed under `key` at `path`.
pub open spec fn family_extended(f: FontFamily, g: FontFamily, v: FontVariant, key: Seq<char>, path: String) -> bool {
    &&& g.id == f.id && g.name == f.name && g.default_variant == f.default_variant
    &&& g.category == f.category && g.license == f.license && g.designer == f.designer && g.installed == f.installed
    &&& g.variants@ == f.variants@.push(v)
    &&& g.file_paths.wf()
    &&& g.file_paths@ == f.file_paths@.insert(key, path)
}

/// A custom family started by one variant filed under `key` at `path`.
pub open spec fn family_started(g: FontFamily, id: Seq<char>, name: Seq<char>, v: FontVariant, key: Seq<char>, path: String) -> bool {
    &&& g.id@ == id && g.name@ == name && g.default_variant == v
    &&& g.category@ == "custom"@ && g.license@ == "Custom"@ && g.designer is None && g.installed
    &&& g.variants@ == seq![v]
    &&& g.file_paths.wf()
    &&& g.file_paths@ == Map::<Seq<char>, String>::empty().insert(key, path)
}

/// The eighteen variants offered for a font: weights 100 to 900, each upright
/// then italic, at normal stretch.
pub open spec fn offered_variant(i: int) -> FontVariant {
    FontVariant {
        weight: weight_of_number((100 * (i / 2 + 1)) as u16),
        style: if i % 2 == 0 { FontStyle::Normal } else { FontStyle::Italic },
        stretch: FontStretch::Normal,
    }
}

/// The variant is of normal weight and upright.
pub open spec fn is_regular(v: FontVariant) -> bool {
    v.weight == FontWeight::Normal && v.style == FontStyle::Normal
}

/// The position of the first regular variant, if any.
pub open spec fn first_regular(vs: Seq<FontVariant>) -> Option<int>
    decreases vs.len(),
{
    if vs.len() == 0 {
        None
    } else {
        match first_regular(vs.drop_last()) {
            Some(i) => Some(i),
            None => if is_regular(vs.last()) { Some(vs.len() - 1) } else { None },
        }
    }
}

proof fn lemma_first_regular(vs: Seq<FontVariant>)
    ensures
        first_regular(vs) matches Some(i) ==> 0 <= i < vs.len() && is_regular(vs[i]),
    decreases vs.len(),
{
    if vs.len() > 0 {
        lemma_first_regular(vs.drop_last());
    }
}

/// The default variant of a family: its first regular variant, else its first.
pub open spec fn default_of(vs: Seq<FontVariant>) -> FontVariant {
    match first_regular(vs) {
        Some(i) => vs[i],
        None => vs[0],
    }
}

pub open spec fn variants_of(fonts: Seq<Font>) -> Seq<FontVariant> {
    fonts.map_values(|f: Font| f.variant)
}

/// Each font's path filed under its variant's key, a later font replacing an
/// earlier one of the same key.
pub open spec fn paths_of(fonts: Seq<Font>) -> Map<Seq<char>, String>
    decreases fonts.len(),
{
    if fonts.len() == 0 {
        Map::empty()
    } else {
        paths_of(fonts.drop_last()).insert(variant_key_spec(fonts.last().variant), fonts.last().file_path)
    }
}

/// `m` with the fonts stored under their ids, in order.
pub open spec fn with_fonts(m: Map<Seq<char>, Font>, fonts: Seq<Font>) -> Map<Seq<char>, Font>
    decreases fonts.len(),
{
    if fonts.len() == 0 {
        m
    } else {
        with_fonts(m, fonts.drop_last()).insert(fonts.last().id@, fonts.last())
    }
}

/// `j` is the first font stored with file `path`.
pub open spec fn is_first_font_at(fonts: Seq<Font>, path: Seq<char>, j: int) -> bool {
    &&& 0 <= j < fonts.len()
    &&& fonts[j].file_path@ == path
    &&& forall|i: int| 0 <= i < j ==> (#[trigger] fonts[i]).file_path@ != path
}

/// The font a family name and variant lead to: the first family of the name
/// files the variant's key at a path, and the first font stored with that file
/// (paths compared as text).
pub open spec fn font_for_variant(fams: Seq<FontFamily>, fonts: Seq<Font>, name: Seq<char>, v: FontVariant) -> Option<int> {
    match first_family(fams, name) {
        Some(i) => if fams[i].file_paths@.contains_key(variant_key_spec(v)) {
            let p = fams[i].file_paths@[variant_key_spec(v)]@;
            if exists|j: int| is_first_font_at(fonts, p, j) {
                Some(choose|j: int| is_first_font_at(fonts, p, j))
            } else {
                None
            }
        } else {
            None
        },
        None => None,
    }
}

/// The font registry: fonts and families by id, and rendered previews.
pub struct FontPreview {
    fonts: StrMap<Font>,
    families: StrMap<FontFamily>,
    cache: StrMap<Vec<u8>>,
}

impl FontPreview {
    pub closed spec fn wf(&self) -> bool {
        &&& self.fonts.wf()
        &&& self.families.wf()
        &&& self.cache.wf()
        &&& forall|k: Seq<char>| #[trigger] self.families@.contains_key(k) ==>
            self.families@[k].file_paths.wf() && self.families@[k].id@ == k
    }

    pub closed spec fn fonts_view(&self) -> Map<Seq<char>, Font> {
        self.fonts@
    }

    pub closed spec fn font_seq(&self) -> Seq<Font> {
        self.fonts.value_seq()
    }

    pub closed spec fn families_view(&self) -> Map<Seq<char>, FontFamily> {
        self.families@
    }

    /// The families in the order first stored.
    pub closed spec fn family_seq(&self) -> Seq<FontFamily> {
        self.families.value_seq()
    }

    /// The family ids in the order first stored.
    pub closed spec fn family_ids(&self) -> Seq<Seq<char>> {
        self.families.key_seq()
    }

    pub closed spec fn cache_view(&self) -> Map<Seq<char>, Vec<u8>> {
        self.cache@
    }

    /// A registry with no fonts (the system's and the custom fonts directory's
    /// are read and added by the caller).
    pub fn new() -> (p: Self)
        ensures
            p.wf(),
            p.fonts_view() == Map::<Seq<char>, Font>::empty(),
            p.families_view() == Map::<Seq<char>, FontFamily>::empty(),
            p.cache_view() == Map::<Seq<char>, Vec<u8>>::empty(),
    {
        FontPreview { fonts: StrMap::new(), families: StrMap::new(), cache: StrMap::new() }
    }

    /// A family by id.
    pub fn get_family(&self, id: &str) -> (r: Option<&FontFamily>)
        requires self.wf(),
        ensures
            match r {
                Some(f) => self.families_view().contains_key(id@) && *f == self.families_view()[id@],
                None => !self.families_view().contains_key(id@),
            },
    {
        self.families.get(id)
    }

    /// A font by id.
    pub fn get_font(&self, id: &str) -> (r: Option<&Font>)
        requires self.wf(),
        ensures
            match r {
                Some(f) => self.fonts_view().contains_key(id@) && *f == self.fonts_view()[id@],
                None => !self.fonts_view().contains_key(id@),
            },
    {
        self.fonts.get(id)
    }

    /// The families, in the order first stored.
    pub fn list_families(&self) -> (r: Vec<&FontFamily>)
        ensures
            r@.len() == self.family_seq().len(),
            forall|i: int| 0 <= i < r@.len() ==> *#[trigger] r@[i] == self.family_seq()[i],
    {
        self.families.values()
    }

    /// The fonts, in the order first stored.
    pub fn list_fonts(&self) -> (r: Vec<&Font>)
        ensures
            r@.len() == self.font_seq().len(),
            forall|i: int| 0 <= i < r@.len() ==> *#[trigger] r@[i] == self.font_seq()[i],
    {
        self.fonts.values()
    }

    /// The families whose name contains the query, compared in lower case, in
    /// the order first stored.
    pub fn search(&self, query: &str) -> (r: Vec<&FontFamily>)
        requires self.wf(),
        ensures
            r@.map_values(|f: &FontFamily| *f) == self.family_seq().filter(
                |f: FontFamily| contains_seq(lowercase(f.name@), lowercase(query@))),
    {
        let q = to_lowercase(query);
        let ghost fams = self.family_seq();
        let n = self.families.len();
        let mut r: Vec<&FontFamily> = Vec::new();
        let mut i: usize = 0;
        while i < n
            invariant
                i <= n,
                n == fams.len(),
                fams == self.family_seq(),
                q@ == lowercase(query@),
                r@.map_values(|f: &FontFamily| *f) == fams.subrange(0, i as int).filter(
                    |f: FontFamily| contains_seq(lowercase(f.name@), lowercase(query@))),
            decreases n - i,
        {
            let (_, f) = self.families.entry_at(i);
            proof {
                assert(fams.subrange(0, i + 1).drop_last() =~= fams.subrange(0, i as int));
                assert(fams[i as int] == *f);
                reveal(Seq::filter);
            }
            let name = to_lowercase(f.name.as_str());
            if contains_str(name.as_str(), q.as_str()) {
                r.push(f);
            }
            assert(r@.map_values(|f: &FontFamily| *f) =~= fams.subrange(0, i + 1).filter(
                |f: FontFamily| contains_seq(lowercase(f.name@), lowercase(query@))));
            i = i + 1;
        }
        assert(fams.subrange(0, n as int) =~= fams);
        r
    }

    /// The variants offered for a font; see `offered_variant`.
    pub fn get_variants(&self, font: &Font) -> (r: Vec<FontVariant>)
        ensures
            r@.len() == 18,
            forall|i: int| 0 <= i < 18 ==> #[trigger] r@[i] == offered_variant(i),
    {
        let mut r: Vec<FontVariant> = Vec::new();
        let mut k: u16 = 1;
        while k <= 9
            invariant
                1 <= k <= 10,
                r@.len() == 2 * (k - 1),
                forall|i: int| 0 <= i < r@.len() ==> #[trigger] r@[i] == offered_variant(i),
            decreases 10 - k,
        {
            let weight = FontWeight::from_number(100 * k);
            r.push(FontVariant { weight, style: FontStyle::Normal, stretch: FontStretch::Normal });
            r.push(FontVariant { weight, style: FontStyle::Italic, stretch: FontStretch::Normal });
            proof {
                let a = 2 * (k - 1);
                assert(offered_variant(a) == r@[a]) by {
                    assert(a / 2 + 1 == k);
                    assert(a % 2 == 0);
                }
                assert(offered_variant(a + 1) == r@[a + 1]) by {
                    assert((a + 1) / 2 + 1 == k);
                    assert((a + 1) % 2 == 1);
                }
            }
            k = k + 1;
        }
        r
    }

    /// The position of the first family named `name`.
    fn find_family(&self, name: &str) -> (r: Option<usize>)
        requires self.wf(),
        ensures
            match r {
                Some(i) => is_first_family(self.family_seq(), name@, i as int) && i < self.families.entries().len(),
                None => forall|j: int| 0 <= j < self.family_seq().len() ==> (#[trigger] self.family_seq()[j]).name@ != name@,
            },
    {
        let n = self.families.len();
        let mut i: usize = 0;
        while i < n
            invariant
                i <= n,
                n == self.families.entries().len(),
                n == self.family_seq().len(),
                forall|j: int| 0 <= j < i ==> (#[trigger] self.family_seq()[j]).name@ != name@,
            decreases n - i,
        {
            let (_, f) = self.families.entry_at(i);
            assert(*f == self.family_seq()[i as int]);
            if str_eq(f.name.as_str(), name) {
                return Some(i);
            }
            i = i + 1;
        }
        None
    }

    /// File a variant at `path` under `key` in the first family named `name`,
    /// or start a custom family for it; the family's id comes back.
    fn file_variant(&mut self, name: &str, variant: FontVariant, key: String, path: String) -> (fid: String)
        requires old(self).wf(),
        ensures
            final(self).wf(),
            final(self).fonts_view() == old(self).fonts_view(),
            final(self).cache_view() == old(self).cache_view(),
            final(self).families_view().dom() == old(self).families_view().dom().insert(fid@),
            forall|k: Seq<char>| #[trigger] final(self).families_view().contains_key(k) && k != fid@
                ==> final(self).families_view()[k] == old(self).families_view()[k],
            match first_family(old(self).family_seq(), name@) {
                Some(i) => fid@ == old(self).family_ids()[i]
                    && family_extended(old(self).family_seq()[i], final(self).families_view()[fid@], variant, key@, path),
                None => is_hyphenated_uuid(fid@)
                    && family_started(final(self).families_view()[fid@], fid@, name@, variant, key@, path),
            },
    {
        let ghost fams = self.family_seq();
        let ghost before = self.families;
        match self.find_family(name) {
            Some(i) => {
                proof {
                    self.families.lemma_index_of(i as int);
                    self.families.lemma_key_seq();
                    lemma_first_family_unique(fams, name@, i as int);
                    assert(self.families@.contains_key(self.families.entries()[i as int].0));
                }
                let f = self.families.value_at_mut(i);
                f.variants.push(variant);
                f.file_paths.insert(key, path);
                let fid = f.id.clone();
                proof {
                    StrMap::lemma_update_value(before, self.families, i as int, self.families.entries()[i as int].1);
                    assert(self.families.entries()[i as int].1 == *f);
                    let key_i = before.entries()[i as int].0;
                    assert(before@.contains_key(key_i));
                    assert forall|k: Seq<char>| #[trigger] self.families@.contains_key(k) implies
                        self.families@[k].file_paths.wf() && self.families@[k].id@ == k by {
                        if k != key_i {
                            assert(before@.contains_key(k));
                        }
                    }
                }
                fid
            },
            None => {
                let fid = new_uuid();
                let mut paths: StrMap<String> = StrMap::new();
                paths.insert(key, path);
                let g = FontFamily {
                    id: fid.clone(),
                    name: owned(name),
                    variants: vec![variant],
                    default_variant: variant,
                    category: owned("custom"),
                    license: owned("Custom"),
                    designer: None,
                    installed: true,
                    file_paths: paths,
                };
                assert(g.variants@ =~= seq![variant]);
                self.families.insert(fid.clone(), g);
                proof {
                    assert forall|k: Seq<char>| #[trigger] self.families@.contains_key(k) implies
                        self.families@[k].file_paths.wf() && self.families@[k].id@ == k by {
                        if k != fid@ {
                            assert(before@.contains_key(k));
                        }
                    }
                }
                fid
            },
        }
    }

    /// Register a font read from a file: it is stored under a fresh id, and
    /// its variant joins the first family of its name (filed under the variant's
    /// key) or starts a custom family under a fresh id. The family's id comes
    /// back.
    #[verifier::rlimit(40)]
    pub fn load_font_file(&mut self, file: FontFile) -> (r: Result<String, DesignError>)
        requires old(self).wf(),
        ensures
            final(self).wf(),
            final(self).cache_view() == old(self).cache_view(),
            exists|k: Seq<char>, f: Font| #![trigger is_hyphenated_uuid(k), font_from_file(f, file)]
                is_hyphenated_uuid(k) && f.id@ == k && font_from_file(f, file)
                && final(self).fonts_view() == old(self).fonts_view().insert(k, f),
            r matches Ok(fid) && ({
                let fams = old(self).family_seq();
                let name = file_family(file);
                let key = variant_key_spec(file.variant);
                &&& final(self).families_view().dom() == old(self).families_view().dom().insert(fid@)
                &&& forall|k: Seq<char>| #[trigger] final(self).families_view().contains_key(k) && k != fid@
                    ==> final(self).families_view()[k] == old(self).families_view()[k]
                &&& match first_family(fams, name) {
                    Some(i) => fid@ == old(self).family_ids()[i]
                        && family_extended(fams[i], final(self).families_view()[fid@], file.variant, key, file.path),
                    None => is_hyphenated_uuid(fid@)
                        && family_started(final(self).families_view()[fid@], fid@, name, file.variant, key, file.path),
                }
            }),
    {
        let ghost file0 = file;
        let FontFile { path, data, family_name, file_stem, postscript_name, variant, metrics } = file;
        let family = match family_name {
            Some(n) => n,
            None => file_stem,
        };
        let weight = u64_to_string(variant.weight.to_number() as u64);
        let mut full_name = family.clone();
        full_name.append(" ");
        full_name.append(weight.as_str());
        let ps = match postscript_name {
            Some(p) => p,
            None => {
                let mut p = family.clone();
                p.append("-");
                p.append(weight.as_str());
                p
            },
        };
        let font_id = new_uuid();
        let font = Font {
            id: font_id.clone(),
            family_id: owned(""),
            family_name: family.clone(),
            full_name,
            postscript_name: ps,
            variant,
            file_path: path.clone(),
            data,
            metrics,
        };
        proof {
            reveal_strlit("");
            assert(family@ == file_family(file0));
            assert(font.family_id@ == Seq::<char>::empty());
            assert(font.family_name@ == file_family(file0));
            assert(font.full_name@ == file_family(file0) + " "@ + decimal(weight_number(file0.variant.weight) as nat));
            assert(font.variant == file0.variant);
            assert(font.file_path == file0.path);
            assert(font.data == file0.data);
            assert(font.metrics == file0.metrics);
        }
        assert(font_from_file(font, file0));
        let key = variant_key(&variant);
        let fid = self.file_variant(family.as_str(), variant, key, path);
        let ghost fonts_before = self.fonts@;
        let ghost font_g = font;
        let ghost k = font_id@;
        self.fonts.insert(font_id, font);
        assert(is_hyphenated_uuid(k) && font_g.id@ == k && font_from_file(font_g, file0)
            && self.fonts@ == fonts_before.insert(k, font_g));
        Ok(fid)
    }

    /// Register a family found on the system with its fonts, in order: the
    /// family gets a fresh id, the fonts' variants, each font's file filed under
    /// its variant's key, `default_of` its variants as default, category
    /// "system" and license "System", installed; the fonts are stored under
    /// their ids. A family without fonts is refused.
    #[verifier::rlimit(40)]
    pub fn load_font_family(&mut self, family_name: &str, fonts: Vec<Font>) -> (r: Result<String, DesignError>)
        requires old(self).wf(),
        ensures
            final(self).wf(),
            final(self).cache_view() == old(self).cache_view(),
            fonts@.len() == 0 ==> {
                &&& r matches Err(DesignError::FontError(m)) && m@ == "No valid fonts in family: "@ + family_name@
                &&& final(self).fonts_view() == old(self).fonts_view()
                &&& final(self).families_view() == old(self).families_view()
            },
            fonts@.len() > 0 ==> (r matches Ok(fid) && {
                let g = final(self).families_view()[fid@];
                &&& is_hyphenated_uuid(fid@)
                &&& final(self).families_view().dom() == old(self).families_view().dom().insert(fid@)
                &&& forall|k: Seq<char>| #[trigger] final(self).families_view().contains_key(k) && k != fid@
                    ==> final(self).families_view()[k] == old(self).families_view()[k]
                &&& g.id@ == fid@ && g.name@ == family_name@
                &&& g.variants@ == variants_of(fonts@)
                &&& g.default_variant == default_of(variants_of(fonts@))
                &&& g.category@ == "system"@ && g.license@ == "System"@ && g.designer is None && g.installed
                &&& g.file_paths@ == paths_of(fonts@)
                &&& final(self).fonts_view() == with_fonts(old(self).fonts_view(), fonts@)
            }),
    {
        if fonts.len() == 0 {
            return Err(DesignError::FontError(concat2("No valid fonts in family: ", family_name)));
        }
        let ghost all = fonts@;
        let mut variants: Vec<FontVariant> = Vec::new();
        let mut paths: StrMap<String> = StrMap::new();
        let mut regular: Option<usize> = None;
        let mut i: usize = 0;
        while i < fonts.len()
            invariant
                i <= fonts@.len(),
                all == fonts@,
                paths.wf(),
                variants@ == variants_of(all.subrange(0, i as int)),
                paths@ == paths_of(all.subrange(0, i as int)),
                match regular {
                    Some(j) => first_regular(variants_of(all.subrange(0, i as int))) == Some(j as int),
                    None => first_regular(variants_of(all.subrange(0, i as int))) is None,
                },
            decreases fonts.len() - i,
        {
            let f = &fonts[i];
            proof {
                let t = all.subrange(0, i + 1);
                assert(t.drop_last() =~= all.subrange(0, i as int));
                assert(variants_of(t).drop_last() =~= variants_of(all.subrange(0, i as int)));
                assert(variants_of(t).last() == f.variant);
            }
            variants.push(f.variant);
            let key = variant_key(&f.variant);
            paths.insert(key, f.file_path.clone());
            if regular.is_none() && f.variant.weight == FontWeight::Normal && f.variant.style == FontStyle::Normal {
                regular = Some(i);
            }
            assert(variants@ =~= variants_of(all.subrange(0, i + 1)));
            i = i + 1;
        }
        assert(all.subrange(0, all.len() as int) =~= all);
        proof { lemma_first_regular(variants@); }
        let default_variant = match regular {
            Some(j) => variants[j],
            None => variants[0],
        };
        let fid = new_uuid();
        let g = FontFamily {
            id: fid.clone(),
            name: owned(family_name),
            variants,
            default_variant,
            category: owned("system"),
            license: owned("System"),
            designer: None,
            installed: true,
            file_paths: paths,
        };
        let ghost before = self.families@;
        self.families.insert(fid.clone(), g);
        proof {
            assert forall|k: Seq<char>| #[trigger] self.families@.contains_key(k) implies
                self.families@[k].file_paths.wf() && self.families@[k].id@ == k by {
                if k != fid@ {
                    assert(before.contains_key(k));
                }
            }
        }
        let ghost start = self.fonts@;
        let ghost fams_now = self.families;
        let ghost cache_now = self.cache;
        let mut rest = fonts;
        let n0 = rest.len();
        let mut j: usize = 0;
        while rest.len() > 0
            invariant
                self.fonts.wf(),
                self.families == fams_now,
                self.cache == cache_now,
                fams_now.wf(),
                cache_now.wf(),
                forall|k: Seq<char>| #[trigger] fams_now@.contains_key(k) ==>
                    fams_now@[k].file_paths.wf() && fams_now@[k].id@ == k,
                all.len() == n0,
                j <= all.len(),
                rest@ == all.subrange(j as int, all.len() as int),
                self.fonts@ == with_fonts(start, all.subrange(0, j as int)),
            decreases rest.len(),
        {
            let f = rest.remove(0);
            proof {
                assert(all.subrange(0, j + 1).drop_last() =~= all.subrange(0, j as int));
                assert(f == all[j as int]);
            }
            self.fonts.insert(f.id.clone(), f);
            j = j + 1;
            assert(rest@ =~= all.subrange(j as int, all.len() as int));
        }
        assert(all.subrange(0, all.len() as int) =~= all);
        Ok(fid)
    }

    /// The position of the first font stored with file `path`.
    fn find_font_at(&self, path: &str) -> (r: Option<usize>)
        requires self.wf(),
        ensures
            match r {
                Some(j) => is_first_font_at(self.font_seq(), path@, j as int) && j < self.fonts.entries().len(),
                None => forall|i: int| 0 <= i < self.font_seq().len() ==> (#[trigger] self.font_seq()[i]).file_path@ != path@,
            },
    {
        let n = self.fonts.len();
        let mut i: usize = 0;
        while i < n
            invariant
                i <= n,
                n == self.fonts.entries().len(),
                n == self.font_seq().len(),
                forall|j: int| 0 <= j < i ==> (#[trigger] self.font_seq()[j]).file_path@ != path@,
            decreases n - i,
        {
            let (_, f) = self.fonts.entry_at(i);
            assert(*f == self.font_seq()[i as int]);
            if str_eq(f.file_path.as_str(), path) {
                return Some(i);
            }
            i = i + 1;
        }
        None
    }

    /// The font of a family's variant; see `font_for_variant`.
    pub fn get_font_by_variant(&self, family_name: &str, variant: &FontVariant) -> (r: Option<&Font>)
        requires self.wf(),
        ensures
            match font_for_variant(self.family_seq(), self.font_seq(), family_name@, *variant) {
                Some(j) => r matches Some(f) && *f == self.font_seq()[j],
                None => r is None,
            },
    {
        let ghost fams = self.family_seq();
        let ghost fonts = self.font_seq();
        match self.find_family(family_name) {
            Some(i) => {
                proof { lemma_first_family_unique(fams, family_name@, i as int); }
                let (_, fam) = self.families.entry_at(i);
                assert(*fam == fams[i as int]);
                proof {
                    self.families.lemma_key_seq();
                    assert(self.families@.contains_key(self.families.key_seq()[i as int]));
                }
                let key = variant_key(variant);
                match fam.file_paths.get(key.as_str()) {
                    Some(path) => {
                        match self.find_font_at(path.as_str()) {
                            Some(j) => {
                                proof {
                                    let c = choose|x: int| is_first_font_at(fonts, path@, x);
                                    assert(is_first_font_at(fonts, path@, c));
                                    if c < j {
                                        assert(fonts[c].file_path@ != path@);
                                    } else if j < c {
                                        assert(fonts[j as int].file_path@ != path@);
                                    }
                                }
                                let (_, f) = self.fonts.entry_at(j);
                                Some(f)
                            },
                            None => None,
                        }
                    },
                    None => None,
                }
            },
            None => None,
        }
    }

    /// Forget every family named `name`.
    fn remove_families_named(&mut self, name: &str)
        requires old(self).wf(),
        ensures
            final(self).wf(),
            final(self).fonts_view() == old(self).fonts_view(),
            final(self).cache_view() == old(self).cache_view(),
            final(self).families_view() == old(self).families_view().restrict(
                Set::new(|k: Seq<char>| old(self).families_view()[k].name@ != name@)),
    {
        let ghost start = self.families@;
        loop
            invariant
                self.wf(),
                self.fonts@ == old(self).fonts@,
                self.cache@ == old(self).cache@,
                start == old(self).families@,
                forall|k: Seq<char>| #[trigger] self.families@.contains_key(k) ==>
                    start.contains_key(k) && self.families@[k] == start[k],
                forall|k: Seq<char>| #[trigger] start.contains_key(k) && start[k].name@ != name@ ==>
                    self.families@.contains_key(k),
            ensures
                self.wf(),
                self.fonts@ == old(self).fonts@,
                self.cache@ == old(self).cache@,
                self.families@ == start.restrict(Set::new(|k: Seq<char>| start[k].name@ != name@)),
            decreases self.families.entries().len(),
        {
            match self.find_family(name) {
                Some(i) => {
                    let key = {
                        let (k, _) = self.families.entry_at(i);
                        k.clone()
                    };
                    proof {
                        self.families.lemma_index_of(i as int);
                        self.families.lemma_key_seq();
                        assert(self.families@[key@] == self.family_seq()[i as int]);
                    }
                    let ghost before = self.families@;
                    let ghost len_before = self.families.entries().len();
                    self.families.remove(key.as_str());
                    proof {
                        assert(self.families.entries().len() < len_before);
                        assert forall|k: Seq<char>| #[trigger] self.families@.contains_key(k) implies
                            self.families@[k].file_paths.wf() && self.families@[k].id@ == k by {
                            assert(before.contains_key(k));
                        }
                        assert forall|k: Seq<char>| #[trigger] start.contains_key(k) && start[k].name@ != name@ implies
                            self.families@.contains_key(k) by {
                            assert(before.contains_key(k));
                        }
                    }
                },
                None => {
                    proof {
                        self.families.lemma_key_seq();
                        assert forall|k: Seq<char>| #[trigger] self.families@.contains_key(k) implies
                            self.families@[k].name@ != name@ by {
                            let j = self.families.key_seq().index_of(k);
                            assert(self.families.key_seq().contains(k));
                            assert(self.families@[self.families.key_seq()[j]] == self.family_seq()[j]);
                        }
                        assert(self.families@ =~= start.restrict(Set::new(|k: Seq<char>| start[k].name@ != name@)));
                    }
                    break;
                },
            }
        }
    }

    /// Forget a font; its variant's file leaves the first family of its name,
    /// and a family left with no files is forgotten with every family of its
    /// name (deleting the font's file is the caller's).
    #[verifier::rlimit(40)]
    pub fn uninstall_font(&mut self, font_id: &str) -> (r: Result<(), DesignError>)
        requires old(self).wf(),
        ensures
            final(self).wf(),
            r is Ok,
            final(self).fonts_view() == old(self).fonts_view().remove(font_id@),
            final(self).cache_view() == old(self).cache_view(),
            !old(self).fonts_view().contains_key(font_id@) ==> final(self).families_view() == old(self).families_view(),
            old(self).fonts_view().contains_key(font_id@) ==> ({
                let font = old(self).fonts_view()[font_id@];
                let n = font.family_name@;
                match first_family(old(self).family_seq(), n) {
                    None => final(self).families_view() == old(self).families_view(),
                    Some(i) => {
                        let fid = old(self).family_ids()[i];
                        let fam = old(self).family_seq()[i];
                        let left = fam.file_paths@.remove(variant_key_spec(font.variant));
                        if left == Map::<Seq<char>, String>::empty() {
                            final(self).families_view() == old(self).families_view().restrict(
                                Set::new(|k: Seq<char>| old(self).families_view()[k].name@ != n))
                        } else {
                            let g = final(self).families_view()[fid];
                            &&& final(self).families_view().dom() == old(self).families_view().dom()
                            &&& forall|k: Seq<char>| #[trigger] final(self).families_view().contains_key(k) && k != fid
                                ==> final(self).families_view()[k] == old(self).families_view()[k]
                            &&& g.id == fam.id && g.name == fam.name && g.variants == fam.variants
                            &&& g.default_variant == fam.default_variant && g.category == fam.category
                            &&& g.license == fam.license && g.designer == fam.designer && g.installed == fam.installed
                            &&& g.file_paths@ == left
                        }
                    },
                }
            }),
    {
        let removed = self.fonts.remove(font_id);
        match removed {
            Some(font) => {
                let ghost fams = self.family_seq();
                let ghost before = self.families;
                match self.find_family(font.family_name.as_str()) {
                    Some(i) => {
                        proof {
                            lemma_first_family_unique(fams, font.family_name@, i as int);
                            self.families.lemma_index_of(i as int);
                            self.families.lemma_key_seq();
                            assert(self.families@.contains_key(self.families.key_seq()[i as int]));
                            assert(self.families@[self.families.key_seq()[i as int]] == fams[i as int]);
                        }
                        let key = variant_key(&font.variant);
                        let empty;
                        {
                            let f = self.families.value_at_mut(i);
                            f.file_paths.remove(key.as_str());
                            proof { f.file_paths.lemma_key_seq(); }
                            empty = f.file_paths.len() == 0;
                            proof {
                                if empty {
                                    assert(f.file_paths@ =~= Map::<Seq<char>, String>::empty());
                                } else {
                                    assert(f.file_paths@.contains_key(f.file_paths.key_seq()[0]));
                                }
                            }
                        }
                        proof {
                            StrMap::lemma_update_value(before, self.families, i as int, self.families.entries()[i as int].1);
                            let key_i = before.entries()[i as int].0;
                            assert forall|k: Seq<char>| #[trigger] self.families@.contains_key(k) implies
                                self.families@[k].file_paths.wf() && self.families@[k].id@ == k by {
                                if k != key_i {
                                    assert(before@.contains_key(k));
                                }
                            }
                        }
                        if empty {
                            let ghost mid = self.families@;
                            self.remove_families_named(font.family_name.as_str());
                            proof {
                                assert(self.families@ =~= before@.restrict(
                                    Set::new(|k: Seq<char>| before@[k].name@ != font.family_name@)));
                            }
                        }
                    },
                    None => {},
                }
            },
            None => {},
        }
        Ok(())
    }

    /// The rendered preview kept under `key`, if any. The key names the font,
    /// the preview text and size and the image's dimensions; rendering is
    /// outside the library.
    pub fn cached_preview(&self, key: &str) -> (r: Option<&Vec<u8>>)
        requires self.wf(),
        ensures
            match r {
                Some(png) => self.cache_view().contains_key(key@) && *png == self.cache_view()[key@],
                None => !self.cache_view().contains_key(key@),
            },
    {
        self.cache.get(key)
    }

    /// Keep a rendered preview under `key`, replacing one kept there.
    pub fn store_preview(&mut self, key: String, png: Vec<u8>)
        requires old(self).wf(),
        ensures
            final(self).wf(),
            final(self).cache_view() == old(self).cache_view().insert(key@, png),
            final(self).fonts_view() == old(self).fonts_view(),
            final(self).families_view() == old(self).families_view(),
    {
        self.cache.insert(key, png);
    }

    /// Forget the rendered previews.
    pub fn clear_cache(&mut self)
        requires old(self).wf(),
        ensures
            final(self).wf(),
            final(self).cache_view() == Map::<Seq<char>, Vec<u8>>::empty(),
            final(self).fonts_view() == old(self).fonts_view(),
            final(self).families_view() == old(self).families_view(),
    {
        self.cache.clear();
    }
}

} // verus!
