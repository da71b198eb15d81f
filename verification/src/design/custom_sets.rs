//! Icon sets of the user's own: a set is a description (JSON naming the set, its
//! version, author, license and category) and SVG files, each an icon whose
//! size is read from its `width`, `height` and `viewBox` attributes. Reading
//! the directories is outside the library.
use vstd::prelude::*;
use crate::design::color_picker::{bounded_value, captures, group, opt_texts, parse_bounded, regex_captures};
use crate::design::icon_browser::{Icon, IconPack, IconVariant};
use crate::design::DesignError;
use crate::json::{get, get_member, json_parse, parse_json, text_at, text_of, JsonValue};
use crate::text::{concat2, owned};

verus! {

/// Pattern of an SVG's `width` attribute.
pub const WIDTH_PATTERN: &'static str = "width=\"(\\d+)\"";
/// Pattern of an SVG's `height` attribute.
pub const HEIGHT_PATTERN: &'static str = "height=\"(\\d+)\"";
/// Pattern of an SVG's `viewBox` attribute with four whole numbers.
pub const VIEWBOX_PATTERN: &'static str = "viewBox=\"(\\d+)\\s+(\\d+)\\s+(\\d+)\\s+(\\d+)\"";

/// The number in group `i` of some captures, when it took part and fits in a `u32`.
pub open spec fn group_value(gs: Seq<Option<Seq<char>>>, i: int) -> Option<nat> {
    match group(gs, i) {
        Some(t) => bounded_value(t, 4294967295nat),
        None => None,
    }
}

/// The number in group `i` of what `pattern` captures first in `text`.
pub open spec fn captured_value(pattern: Seq<char>, text: Seq<char>, i: int) -> Option<nat> {
    match regex_captures(pattern, text) {
        Some(gs) => group_value(gs, i),
        None => None,
    }
}

/// The width, height and view box of an SVG text: 24 by 24 unless its `width`
/// and `height` attributes say otherwise; a `viewBox` of four numbers gives the
/// view box and, with its last two, the width and height.
pub open spec fn svg_dimensions(svg: Seq<char>) -> (u32, u32, (u32, u32, u32, u32)) {
    let w: u32 = match captured_value(WIDTH_PATTERN@, svg, 0) { Some(v) => v as u32, None => 24u32 };
    let h: u32 = match captured_value(HEIGHT_PATTERN@, svg, 0) { Some(v) => v as u32, None => 24u32 };
    match (captured_value(VIEWBOX_PATTERN@, svg, 0), captured_value(VIEWBOX_PATTERN@, svg, 1),
        captured_value(VIEWBOX_PATTERN@, svg, 2), captured_value(VIEWBOX_PATTERN@, svg, 3)) {
        (Some(x), Some(y), Some(a), Some(b)) => (a as u32, b as u32, (x as u32, y as u32, a as u32, b as u32)),
        _ => (w, h, (0u32, 0u32, 24u32, 24u32)),
    }
}

fn nth_number(gs: &Vec<Option<String>>, i: usize) -> (r: Option<u32>)
    ensures
        match r {
            Some(v) => group_value(opt_texts(gs@), i as int) == Some(v as nat),
            None => group_value(opt_texts(gs@), i as int) is None,
        },
{
    if i < gs.len() {
        match &gs[i] {
            Some(t) => match parse_bounded(t.as_str(), 4294967295) {
                Some(v) => Some(v as u32),
                None => None,
            },
            None => None,
        }
    } else {
        None
    }
}

fn captured_number(pattern: &str, svg: &str) -> (r: Option<u32>)
    ensures
        match r {
            Some(v) => captured_value(pattern@, svg@, 0) == Some(v as nat),
            None => captured_value(pattern@, svg@, 0) is None,
        },
{
    match captures(pattern, svg) {
        Some(gs) => nth_number(&gs, 0),
        None => None,
    }
}

/// The width, height and view box of an SVG text; see `svg_dimensions`.
pub fn parse_svg_dimensions(svg: &str) -> (r: (u32, u32, (u32, u32, u32, u32)))
    ensures r == svg_dimensions(svg@),
{
    let width = match captured_number(WIDTH_PATTERN, svg) { Some(w) => w, None => 24 };
    let height = match captured_number(HEIGHT_PATTERN, svg) { Some(h) => h, None => 24 };
    match captures(VIEWBOX_PATTERN, svg) {
        Some(gs) => {
            match (nth_number(&gs, 0), nth_number(&gs, 1), nth_number(&gs, 2), nth_number(&gs, 3)) {
                (Some(x), Some(y), Some(a), Some(b)) => (a, b, (x, y, a, b)),
                _ => (width, height, (0, 0, 24, 24)),
            }
        },
        None => (width, height, (0, 0, 24, 24)),
    }
}

/// A text of the set's description, or a default where it has none.
pub open spec fn info_text(m: JsonValue, key: Seq<char>, default: Seq<char>) -> Seq<char> {
    match text_at(get(m, key)) {
        Some(t) => t,
        None => default,
    }
}

/// `icon` is the icon of a custom set made of the SVG file `name` with text
/// `svg`, filed under `category`.
pub open spec fn custom_icon(icon: Icon, set_id: Seq<char>, name: Seq<char>, svg: Seq<char>, category: Seq<char>, now: i64) -> bool {
    &&& icon.id@ == set_id + "-"@ + name
    &&& icon.name@ == name
    &&& icon.set@ == set_id
    &&& icon.category@ == category
    &&& icon.tags@.len() == 0
    &&& (icon.variant matches IconVariant::Custom(c) && c@ == "custom"@)
    &&& icon.svg@ == svg
    &&& (icon.width, icon.height, icon.view_box) == svg_dimensions(svg)
    &&& icon.created_at == now && icon.updated_at == now
    &&& icon.popularity == 0
}

fn info_field(m: &JsonValue, key: &str, default: &str) -> (r: String)
    ensures r@ == info_text(*m, key@, default@),
{
    match text_of(get_member(m, key)) {
        Some(t) => t,
        None => owned(default),
    }
}

/// A custom icon set from its description and its SVG files (name and text, in
/// the order read): named, versioned, authored and licensed by the description
/// (the set's id, "1.0.0", "Unknown" and "Unknown" where it says nothing),
/// one icon per file filed under the set's category ("custom" by
/// default), no categories, and the one variant "custom". A description that is
/// not JSON is refused with `serde_json`'s message.
pub fn custom_icon_set(set_id: &str, info: &str, icon_files: Vec<(String, String)>, now: i64)
    -> (r: Result<IconPack, DesignError>)
    ensures
        match json_parse(info@) {
            Err(m) => r matches Err(DesignError::InvalidFormat(e)) && e@ == m,
            Ok(v) => r matches Ok(p) && p.id@ == set_id@
                && p.name@ == info_text(v, "name"@, set_id@)
                && p.version@ == info_text(v, "version"@, "1.0.0"@)
                && p.author@ == info_text(v, "author"@, "Unknown"@)
                && p.license@ == info_text(v, "license"@, "Unknown"@)
                && p.icons@.len() == icon_files@.len()
                && (forall|i: int| 0 <= i < icon_files@.len() ==> custom_icon(#[trigger] p.icons@[i], set_id@,
                    icon_files@[i].0@, icon_files@[i].1@, info_text(v, "category"@, "custom"@), now))
                && p.categories@.len() == 0
                && p.variants@.len() == 1
                && (p.variants@[0] matches IconVariant::Custom(c) && c@ == "custom"@),
        },
{
    let m = match parse_json(info) {
        Ok(m) => m,
        Err(e) => {
            return Err(DesignError::InvalidFormat(e));
        },
    };
    let category = info_field(&m, "category", "custom");
    let mut icons: Vec<Icon> = Vec::new();
    let mut i: usize = 0;
    while i < icon_files.len()
        invariant
            i <= icon_files@.len(),
            icons@.len() == i,
            category@ == info_text(m, "category"@, "custom"@),
            forall|j: int| 0 <= j < i ==> custom_icon(#[trigger] icons@[j], set_id@, icon_files@[j].0@,
                icon_files@[j].1@, category@, now),
        decreases icon_files.len() - i,
    {
        let name = &icon_files[i].0;
        let svg = &icon_files[i].1;
        let (width, height, view_box) = parse_svg_dimensions(svg.as_str());
        icons.push(Icon {
            id: concat2(concat2(set_id, "-").as_str(), name.as_str()),
            name: name.clone(),
            set: owned(set_id),
            category: category.clone(),
            tags: Vec::new(),
            variant: IconVariant::Custom(owned("custom")),
            svg: svg.clone(),
            width,
            height,
            view_box,
            created_at: now,
            updated_at: now,
            popularity: 0,
        });
        i = i + 1;
    }
    let mut variants: Vec<IconVariant> = Vec::new();
    variants.push(IconVariant::Custom(owned("custom")));
    Ok(IconPack {
        id: owned(set_id),
        name: info_field(&m, "name", set_id),
        version: info_field(&m, "version", "1.0.0"),
        author: info_field(&m, "author", "Unknown"),
        license: info_field(&m, "license", "Unknown"),
        icons,
        categories: Vec::new(),
        variants,
    })
}

} // verus!
