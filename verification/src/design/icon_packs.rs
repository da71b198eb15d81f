//! The built-in icon sets: a few Material and Feather icons, a few Heroicons,
//! outline and solid, and a few Font Awesome icons, with their categories. Their times are given by the caller,
//! in milliseconds since the Unix epoch.
use vstd::prelude::*;
use crate::design::icon_browser::{Icon, IconBrowser, IconCategory, IconPack, IconVariant};
use crate::stamp::now_millis;
use crate::text::{concat2, owned, views};

verus! {

/// Opening of a Heroicons outline SVG, up to the path data.
pub const HEROICONS_OUTLINE_OPEN: &'static str = "<svg xmlns=\"http://www.w3.org/2000/svg\" fill=\"none\" viewBox=\"0 0 24 24\" stroke-width=\"1.5\" stroke=\"currentColor\" width=\"24\" height=\"24\">\n                    <path stroke-linecap=\"round\" stroke-linejoin=\"round\" d=\"";
/// Closing of a Heroicons outline SVG, after the path data.
pub const HEROICONS_OUTLINE_CLOSE: &'static str = "\" />\n                </svg>";
/// Opening of a Heroicons solid SVG, up to the path data.
pub const HEROICONS_SOLID_OPEN: &'static str = "<svg xmlns=\"http://www.w3.org/2000/svg\" viewBox=\"0 0 24 24\" fill=\"currentColor\" width=\"24\" height=\"24\">\n                    <path d=\"";
/// Closing of a Heroicons solid SVG, after the path data.
pub const HEROICONS_SOLID_CLOSE: &'static str = "\" />\n                </svg>";
/// Opening of a Font Awesome SVG, up to the path data.
pub const FONTAWESOME_OPEN: &'static str = "<svg xmlns=\"http://www.w3.org/2000/svg\" viewBox=\"0 0 512 512\" width=\"512\" height=\"512\">\n                    <path d=\"";
/// Closing of a Font Awesome SVG, after the path data.
pub const FONTAWESOME_CLOSE: &'static str = "\" fill=\"currentColor\"/>\n                </svg>";

/// The built-in Heroicons: name and path data.
pub open spec fn heroicon(i: int) -> (Seq<char>, Seq<char>) {
    if i == 0 {
        ("academic-cap"@, "M12 14l9-5-9-5-9 5 9 5z M12 14l6.16-3.422a12.083 12.083 0 01.665 6.479A11.952 11.952 0 0012 20.055a11.952 11.952 0 00-6.824-2.998 12.078 12.078 0 01.665-6.479L12 14z M12 14l9-5-9-5-9 5 9 5zm0 0l6.16-3.422a12.083 12.083 0 01.665 6.479A11.952 11.952 0 0012 20.055a11.952 11.952 0 00-6.824-2.998 12.078 12.078 0 01.665-6.479L12 14z M12 20.055V14"@)
    } else if i == 1 {
        ("adjustments"@, "M12 6V4m0 2a2 2 0 100 4m0-4a2 2 0 110 4m-6 8a2 2 0 100-4m0 4a2 2 0 110-4m0 4v2m0-6V4m6 6v10m6-2a2 2 0 100-4m0 4a2 2 0 110-4m0 4v2m0-6V4"@)
    } else {
        ("archive"@, "M5 8h14M5 8a2 2 0 110-4h14a2 2 0 110 4M5 8v10a2 2 0 002 2h10a2 2 0 002-2V8m-9 4h4"@)
    }
}

/// The built-in Font Awesome icons: style, name and path data.
pub open spec fn fa_icon(i: int) -> (Seq<char>, Seq<char>, Seq<char>) {
    if i == 0 {
        ("fa-solid"@, "circle"@, "M512 256c0 141.4-114.6 256-256 256S0 397.4 0 256 114.6 0 256 0s256 114.6 256 256z"@)
    } else if i == 1 {
        ("fa-regular"@, "circle"@, "M256 512c141.4 0 256-114.6 256-256S397.4 0 256 0 0 114.6 0 256s114.6 256 256 256zm0-96c-88.4 0-160-71.6-160-160s71.6-160 160-160 160 71.6 160 160-71.6 160-160 160z"@)
    } else {
        ("fa-brands"@, "github"@, "M256 0C114.6 0 0 114.6 0 256c0 113.1 73.4 209.1 175.2 242.9 12.8 2.4 17.5-5.6 17.5-12.4 0-6.1-0.2-22.2-0.3-43.6-71.3 15.5-86.3-34.3-86.3-34.3-11.7-29.7-28.5-37.6-28.5-37.6-23.3-15.9 1.8-15.6 1.8-15.6 25.8 1.8 39.4 26.5 39.4 26.5 22.9 39.2 60.1 27.9 74.8 21.3 2.3-16.6 9-27.9 16.3-34.3-57.1-6.5-117.1-28.5-117.1-127 0-28 10-50.9 26.5-68.9-2.7-6.5-11.5-32.7 2.5-68 0 0 21.6-6.9 71 26.1 20.6-5.7 42.7-8.6 64.6-8.6 22 0 44 2.9 64.6 8.6 49.3-33 70.9-26.1 70.9-26.1 14 35.3 5.2 61.5 2.5 68 16.5 18 26.5 40.9 26.5 68.9 0 98.7-60.1 120.4-117.3 126.8 9.2 7.9 17.5 23.6 17.5 47.6 0 34.4-0.3 62.1-0.3 70.5 0 6.9 4.6 15 17.5 12.4C438.6 465.1 512 369.1 512 256 512 114.6 397.4 0 256 0z"@)
    }
}

/// Opening of a Material icon SVG, up to the path data.
pub const MATERIAL_OPEN: &'static str = "<svg xmlns=\"http://www.w3.org/2000/svg\" viewBox=\"0 0 24 24\" width=\"24\" height=\"24\">\n                    <path d=\"";
/// Closing of a Material icon SVG, after the path data.
pub const MATERIAL_CLOSE: &'static str = "\" fill=\"currentColor\"/>\n                </svg>";
/// Opening of a Feather icon SVG, up to the path data.
pub const FEATHER_OPEN: &'static str = "<svg xmlns=\"http://www.w3.org/2000/svg\" viewBox=\"0 0 24 24\" width=\"24\" height=\"24\" fill=\"none\" stroke=\"currentColor\" stroke-width=\"2\" stroke-linecap=\"round\" stroke-linejoin=\"round\">\n                    <path d=\"";
/// Closing of a Feather icon SVG, after the path data.
pub const FEATHER_CLOSE: &'static str = "\"/>\n                </svg>";

/// The built-in Material icons: name and path data.
pub open spec fn material_icon(i: int) -> (Seq<char>, Seq<char>) {
    if i == 0 {
        ("home"@, "M10 20v-6h4v6h5v-8h3L12 3 2 12h3v8z"@)
    } else if i == 1 {
        ("search"@, "M15.5 14h-.79l-.28-.27C15.41 12.59 16 11.11 16 9.5 16 5.91 13.09 3 9.5 3S3 5.91 3 9.5 5.91 16 9.5 16c1.61 0 3.09-.59 4.23-1.57l.27.28v.79l5 4.99L20.49 19l-4.99-5zm-6 0C7.01 14 5 11.99 5 9.5S7.01 5 9.5 5 14 7.01 14 9.5 11.99 14 9.5 14z"@)
    } else {
        ("settings"@, "M19.14 12.94c.04-.3.06-.61.06-.94 0-.32-.02-.64-.07-.94l2.03-1.58c.18-.14.23-.41.12-.61l-1.92-3.32c-.12-.22-.37-.29-.59-.22l-2.39.96c-.5-.38-1.03-.7-1.62-.94l-.36-2.54c-.04-.24-.24-.41-.48-.41h-3.84c-.24 0-.43.17-.47.41l-.36 2.54c-.59.24-1.13.57-1.62.94l-2.39-.96c-.22-.08-.47 0-.59.22L2.74 8.87c-.12.21-.08.47.12.61l2.03 1.58c-.05.3-.09.63-.09.94 0 .31.02.64.07.94l-2.03 1.58c-.18.14-.23.41-.12.61l1.92 3.32c.12.22.37.29.59.22l2.39-.96c.5.38 1.03.7 1.62.94l.36 2.54c.05.24.24.41.48.41h3.84c.24 0 .44-.17.47-.41l.36-2.54c.59-.24 1.13-.57 1.62-.94l2.39.96c.22.08.47 0 .59-.22l1.92-3.32c.12-.22.07-.47-.12-.61l-2.01-1.58zM12 15.6c-1.98 0-3.6-1.62-3.6-3.6s1.62-3.6 3.6-3.6 3.6 1.62 3.6 3.6-1.62 3.6-3.6 3.6z"@)
    }
}

/// The built-in Feather icons: name and path data.
pub open spec fn feather_icon(i: int) -> (Seq<char>, Seq<char>) {
    if i == 0 {
        ("activity"@, "M22 12h-4l-3 9-4-18-3 9H2"@)
    } else if i == 1 {
        ("airplay"@, "M5 17H4a2 2 0 0 1-2-2V5a2 2 0 0 1 2-2h16a2 2 0 0 1 2 2v10a2 2 0 0 1-2 2h-1 M12 15l5 6H7l5-6z"@)
    } else {
        ("alert-circle"@, "M12 22c5.523 0 10-4.477 10-10S17.523 2 12 2 2 6.477 2 12s4.477 10 10 10z M12 8v4 M12 16h.01"@)
    }
}

/// `icon` is the 24-pixel icon `name` of `set`, filed under `category`, with
/// path data `path` between `open` and `close`, tagged with its name and set.
pub open spec fn is_set_icon(icon: Icon, set: Seq<char>, category: Seq<char>, name: Seq<char>, path: Seq<char>,
    open: Seq<char>, close: Seq<char>, filled: bool, popularity: u32, now: i64) -> bool {
    &&& icon.id@ == set + "-"@ + name
    &&& icon.name@ == name
    &&& icon.set@ == set
    &&& icon.category@ == category
    &&& views(icon.tags@) == seq![name, set]
    &&& (if filled { icon.variant is Filled } else { icon.variant is Outline })
    &&& icon.svg@ == open + path + close
    &&& icon.width == 24 && icon.height == 24 && icon.view_box == (0u32, 0u32, 24u32, 24u32)
    &&& icon.created_at == now && icon.updated_at == now
    &&& icon.popularity == popularity
}

/// `icon` is the Heroicon `name` with path data `path`, outline or solid.
pub open spec fn is_heroicon(icon: Icon, name: Seq<char>, path: Seq<char>, solid: bool, now: i64) -> bool {
    let style: Seq<char> = if solid { "solid"@ } else { "outline"@ };
    &&& icon.id@ == "heroicons-"@ + style + "-"@ + name
    &&& icon.name@ == name
    &&& icon.set@ == "heroicons"@
    &&& icon.category@ == style
    &&& views(icon.tags@) == seq![name, "heroicons"@, style]
    &&& (if solid { icon.variant is Filled } else { icon.variant is Outline })
    &&& icon.svg@ == (if solid { HEROICONS_SOLID_OPEN@ + path + HEROICONS_SOLID_CLOSE@ }
        else { HEROICONS_OUTLINE_OPEN@ + path + HEROICONS_OUTLINE_CLOSE@ })
    &&& icon.width == 24 && icon.height == 24 && icon.view_box == (0u32, 0u32, 24u32, 24u32)
    &&& icon.created_at == now && icon.updated_at == now
    &&& icon.popularity == 700
}

/// `icon` is the Font Awesome icon `name` of `style` with path data `path`.
pub open spec fn is_fa_icon(icon: Icon, style: Seq<char>, name: Seq<char>, path: Seq<char>, now: i64) -> bool {
    &&& icon.id@ == "fa-"@ + name
    &&& icon.name@ == name
    &&& icon.set@ == "fontawesome"@
    &&& icon.category@ == style
    &&& views(icon.tags@) == seq![name, "fontawesome"@]
    &&& (if style == "fa-solid"@ { icon.variant is Filled } else { icon.variant is Outline })
    &&& icon.svg@ == FONTAWESOME_OPEN@ + path + FONTAWESOME_CLOSE@
    &&& icon.width == 512 && icon.height == 512 && icon.view_box == (0u32, 0u32, 512u32, 512u32)
    &&& icon.created_at == now && icon.updated_at == now
    &&& icon.popularity == 800
}

/// `c` is a category with the given id, name and description, holding `count`
/// icons, at the top level.
pub open spec fn is_category(c: IconCategory, id: Seq<char>, name: Seq<char>, description: Seq<char>, count: usize) -> bool {
    &&& c.id@ == id && c.name@ == name
    &&& c.description matches Some(d) && d@ == description
    &&& c.icon_count == count && c.parent is None
}

fn category(id: &str, name: &str, description: &str, count: usize) -> (c: IconCategory)
    ensures is_category(c, id@, name@, description@, count),
{
    IconCategory { id: owned(id), name: owned(name), description: Some(owned(description)), icon_count: count, parent: None }
}

fn set_icon_of(set: &str, category: &str, name: &str, path: &str, open: &str, close: &str, filled: bool, popularity: u32, now: i64)
    -> (icon: Icon)
    ensures is_set_icon(icon, set@, category@, name@, path@, open@, close@, filled, popularity, now),
{
    let mut tags: Vec<String> = Vec::new();
    tags.push(owned(name));
    tags.push(owned(set));
    assert(views(tags@) =~= seq![name@, set@]);
    Icon {
        id: concat2(concat2(set, "-").as_str(), name),
        name: owned(name),
        set: owned(set),
        category: owned(category),
        tags,
        variant: if filled { IconVariant::Filled } else { IconVariant::Outline },
        svg: concat2(concat2(open, path).as_str(), close),
        width: 24,
        height: 24,
        view_box: (0, 0, 24, 24),
        created_at: now,
        updated_at: now,
        popularity,
    }
}

fn heroicon_of(name: &str, path: &str, solid: bool, now: i64) -> (icon: Icon)
    ensures is_heroicon(icon, name@, path@, solid, now),
{
    let style = if solid { "solid" } else { "outline" };
    let id = concat2(concat2(concat2("heroicons-", style).as_str(), "-").as_str(), name);
    let svg = if solid {
        concat2(concat2(HEROICONS_SOLID_OPEN, path).as_str(), HEROICONS_SOLID_CLOSE)
    } else {
        concat2(concat2(HEROICONS_OUTLINE_OPEN, path).as_str(), HEROICONS_OUTLINE_CLOSE)
    };
    let mut tags: Vec<String> = Vec::new();
    tags.push(owned(name));
    tags.push(owned("heroicons"));
    tags.push(owned(style));
    assert(views(tags@) =~= seq![name@, "heroicons"@, style@]);
    Icon {
        id,
        name: owned(name),
        set: owned("heroicons"),
        category: owned(style),
        tags,
        variant: if solid { IconVariant::Filled } else { IconVariant::Outline },
        svg,
        width: 24,
        height: 24,
        view_box: (0, 0, 24, 24),
        created_at: now,
        updated_at: now,
        popularity: 700,
    }
}

fn fa_icon_of(style: &str, name: &str, path: &str, now: i64) -> (icon: Icon)
    ensures is_fa_icon(icon, style@, name@, path@, now),
{
    let mut tags: Vec<String> = Vec::new();
    tags.push(owned(name));
    tags.push(owned("fontawesome"));
    assert(views(tags@) =~= seq![name@, "fontawesome"@]);
    let solid = crate::text::str_eq(style, "fa-solid");
    Icon {
        id: concat2("fa-", name),
        name: owned(name),
        set: owned("fontawesome"),
        category: owned(style),
        tags,
        variant: if solid { IconVariant::Filled } else { IconVariant::Outline },
        svg: concat2(concat2(FONTAWESOME_OPEN, path).as_str(), FONTAWESOME_CLOSE),
        width: 512,
        height: 512,
        view_box: (0, 0, 512, 512),
        created_at: now,
        updated_at: now,
        popularity: 800,
    }
}

/// `p` is the built-in Heroicons set stamped `now`: each icon outline, then solid.
pub open spec fn is_heroicons_pack(p: IconPack, now: i64) -> bool {
    &&& p.id@ == "heroicons"@ && p.name@ == "Heroicons"@ && p.version@ == "2.1.1"@
    &&& p.author@ == "Tailwind Labs"@ && p.license@ == "MIT"@
    &&& p.icons@.len() == 6
    &&& forall|i: int| 0 <= i < 3 ==> is_heroicon(#[trigger] p.icons@[2 * i], heroicon(i).0, heroicon(i).1, false, now)
        && is_heroicon(p.icons@[2 * i + 1], heroicon(i).0, heroicon(i).1, true, now)
    &&& p.categories@.len() == 2
    &&& is_category(p.categories@[0], "outline"@, "Outline"@, "Outline style icons"@, 3)
    &&& is_category(p.categories@[1], "solid"@, "Solid"@, "Solid style icons"@, 3)
    &&& p.variants@.len() == 2 && p.variants@[0] is Outline && p.variants@[1] is Filled
}

/// `p` is the built-in Font Awesome set stamped `now`.
pub open spec fn is_fontawesome_pack(p: IconPack, now: i64) -> bool {
    &&& p.id@ == "fontawesome"@ && p.name@ == "Font Awesome"@ && p.version@ == "6.5.1"@
    &&& p.author@ == "Fonticons"@ && p.license@ == "CC BY 4.0"@
    &&& p.icons@.len() == 3
    &&& forall|i: int| 0 <= i < 3 ==> is_fa_icon(#[trigger] p.icons@[i], fa_icon(i).0, fa_icon(i).1, fa_icon(i).2, now)
    &&& p.categories@.len() == 3
    &&& is_category(p.categories@[0], "fa-solid"@, "Solid"@, "Solid style icons"@, 1)
    &&& is_category(p.categories@[1], "fa-regular"@, "Regular"@, "Regular style icons"@, 1)
    &&& is_category(p.categories@[2], "fa-brands"@, "Brands"@, "Brand icons"@, 1)
    &&& p.variants@.len() == 2 && p.variants@[0] is Filled && p.variants@[1] is Outline
}

/// `p` is the built-in Material set stamped `now`.
pub open spec fn is_material_pack(p: IconPack, now: i64) -> bool {
    &&& p.id@ == "material"@ && p.name@ == "Material Icons"@ && p.version@ == "1.0.0"@
    &&& p.author@ == "Google"@ && p.license@ == "Apache 2.0"@
    &&& p.icons@.len() == 3
    &&& forall|i: int| 0 <= i < 3 ==> is_set_icon(#[trigger] p.icons@[i], "material"@, "ui"@, material_icon(i).0,
        material_icon(i).1, MATERIAL_OPEN@, MATERIAL_CLOSE@, true, 1000, now)
    &&& p.categories@.len() == 1
    &&& is_category(p.categories@[0], "ui"@, "UI"@, "User interface icons"@, 3)
    &&& p.variants@.len() == 3 && p.variants@[0] is Filled && p.variants@[1] is Outline && p.variants@[2] is TwoTone
}

/// `p` is the built-in Feather set stamped `now`.
pub open spec fn is_feather_pack(p: IconPack, now: i64) -> bool {
    &&& p.id@ == "feather"@ && p.name@ == "Feather Icons"@ && p.version@ == "4.29.0"@
    &&& p.author@ == "Cole Bemis"@ && p.license@ == "MIT"@
    &&& p.icons@.len() == 3
    &&& forall|i: int| 0 <= i < 3 ==> is_set_icon(#[trigger] p.icons@[i], "feather"@, "general"@, feather_icon(i).0,
        feather_icon(i).1, FEATHER_OPEN@, FEATHER_CLOSE@, false, 900, now)
    &&& p.categories@.len() == 1
    &&& is_category(p.categories@[0], "general"@, "General"@, "General purpose icons"@, 3)
    &&& p.variants@.len() == 1 && p.variants@[0] is Outline
}

/// The built-in Material set.
pub fn material_pack(now: i64) -> (p: IconPack)
    ensures is_material_pack(p, now),
{
    let mut icons: Vec<Icon> = Vec::new();
    icons.push(set_icon_of("material", "ui", "home", "M10 20v-6h4v6h5v-8h3L12 3 2 12h3v8z", MATERIAL_OPEN, MATERIAL_CLOSE, true, 1000, now));
    icons.push(set_icon_of("material", "ui", "search", "M15.5 14h-.79l-.28-.27C15.41 12.59 16 11.11 16 9.5 16 5.91 13.09 3 9.5 3S3 5.91 3 9.5 5.91 16 9.5 16c1.61 0 3.09-.59 4.23-1.57l.27.28v.79l5 4.99L20.49 19l-4.99-5zm-6 0C7.01 14 5 11.99 5 9.5S7.01 5 9.5 5 14 7.01 14 9.5 11.99 14 9.5 14z", MATERIAL_OPEN, MATERIAL_CLOSE, true, 1000, now));
    icons.push(set_icon_of("material", "ui", "settings", "M19.14 12.94c.04-.3.06-.61.06-.94 0-.32-.02-.64-.07-.94l2.03-1.58c.18-.14.23-.41.12-.61l-1.92-3.32c-.12-.22-.37-.29-.59-.22l-2.39.96c-.5-.38-1.03-.7-1.62-.94l-.36-2.54c-.04-.24-.24-.41-.48-.41h-3.84c-.24 0-.43.17-.47.41l-.36 2.54c-.59.24-1.13.57-1.62.94l-2.39-.96c-.22-.08-.47 0-.59.22L2.74 8.87c-.12.21-.08.47.12.61l2.03 1.58c-.05.3-.09.63-.09.94 0 .31.02.64.07.94l-2.03 1.58c-.18.14-.23.41-.12.61l1.92 3.32c.12.22.37.29.59.22l2.39-.96c.5.38 1.03.7 1.62.94l.36 2.54c.05.24.24.41.48.41h3.84c.24 0 .44-.17.47-.41l.36-2.54c.59-.24 1.13-.57 1.62-.94l2.39.96c.22.08.47 0 .59-.22l1.92-3.32c.12-.22.07-.47-.12-.61l-2.01-1.58zM12 15.6c-1.98 0-3.6-1.62-3.6-3.6s1.62-3.6 3.6-3.6 3.6 1.62 3.6 3.6-1.62 3.6-3.6 3.6z", MATERIAL_OPEN, MATERIAL_CLOSE, true, 1000, now));
    assert forall|i: int| 0 <= i < 3 implies is_set_icon(#[trigger] icons@[i], "material"@, "ui"@, material_icon(i).0,
        material_icon(i).1, MATERIAL_OPEN@, MATERIAL_CLOSE@, true, 1000, now) by {
        assert(i == 0 || i == 1 || i == 2);
    }
    let mut categories: Vec<IconCategory> = Vec::new();
    categories.push(category("ui", "UI", "User interface icons", 3));
    let mut variants: Vec<IconVariant> = Vec::new();
    variants.push(IconVariant::Filled);
    variants.push(IconVariant::Outline);
    variants.push(IconVariant::TwoTone);
    IconPack {
        id: owned("material"),
        name: owned("Material Icons"),
        version: owned("1.0.0"),
        author: owned("Google"),
        license: owned("Apache 2.0"),
        icons,
        categories,
        variants,
    }
}

/// The built-in Feather set.
pub fn feather_pack(now: i64) -> (p: IconPack)
    ensures is_feather_pack(p, now),
{
    let mut icons: Vec<Icon> = Vec::new();
    icons.push(set_icon_of("feather", "general", "activity", "M22 12h-4l-3 9-4-18-3 9H2", FEATHER_OPEN, FEATHER_CLOSE, false, 900, now));
    icons.push(set_icon_of("feather", "general", "airplay", "M5 17H4a2 2 0 0 1-2-2V5a2 2 0 0 1 2-2h16a2 2 0 0 1 2 2v10a2 2 0 0 1-2 2h-1 M12 15l5 6H7l5-6z", FEATHER_OPEN, FEATHER_CLOSE, false, 900, now));
    icons.push(set_icon_of("feather", "general", "alert-circle", "M12 22c5.523 0 10-4.477 10-10S17.523 2 12 2 2 6.477 2 12s4.477 10 10 10z M12 8v4 M12 16h.01", FEATHER_OPEN, FEATHER_CLOSE, false, 900, now));
    assert forall|i: int| 0 <= i < 3 implies is_set_icon(#[trigger] icons@[i], "feather"@, "general"@, feather_icon(i).0,
        feather_icon(i).1, FEATHER_OPEN@, FEATHER_CLOSE@, false, 900, now) by {
        assert(i == 0 || i == 1 || i == 2);
    }
    let mut categories: Vec<IconCategory> = Vec::new();
    categories.push(category("general", "General", "General purpose icons", 3));
    let mut variants: Vec<IconVariant> = Vec::new();
    variants.push(IconVariant::Outline);
    IconPack {
        id: owned("feather"),
        name: owned("Feather Icons"),
        version: owned("4.29.0"),
        author: owned("Cole Bemis"),
        license: owned("MIT"),
        icons,
        categories,
        variants,
    }
}

/// The built-in Heroicons set: each icon outline, then solid.
pub fn heroicons_pack(now: i64) -> (p: IconPack)
    ensures
        is_heroicons_pack(p, now),
{
    let mut icons: Vec<Icon> = Vec::new();
    icons.push(heroicon_of("academic-cap", "M12 14l9-5-9-5-9 5 9 5z M12 14l6.16-3.422a12.083 12.083 0 01.665 6.479A11.952 11.952 0 0012 20.055a11.952 11.952 0 00-6.824-2.998 12.078 12.078 0 01.665-6.479L12 14z M12 14l9-5-9-5-9 5 9 5zm0 0l6.16-3.422a12.083 12.083 0 01.665 6.479A11.952 11.952 0 0012 20.055a11.952 11.952 0 00-6.824-2.998 12.078 12.078 0 01.665-6.479L12 14z M12 20.055V14", false, now));
    icons.push(heroicon_of("academic-cap", "M12 14l9-5-9-5-9 5 9 5z M12 14l6.16-3.422a12.083 12.083 0 01.665 6.479A11.952 11.952 0 0012 20.055a11.952 11.952 0 00-6.824-2.998 12.078 12.078 0 01.665-6.479L12 14z M12 14l9-5-9-5-9 5 9 5zm0 0l6.16-3.422a12.083 12.083 0 01.665 6.479A11.952 11.952 0 0012 20.055a11.952 11.952 0 00-6.824-2.998 12.078 12.078 0 01.665-6.479L12 14z M12 20.055V14", true, now));
    icons.push(heroicon_of("adjustments", "M12 6V4m0 2a2 2 0 100 4m0-4a2 2 0 110 4m-6 8a2 2 0 100-4m0 4a2 2 0 110-4m0 4v2m0-6V4m6 6v10m6-2a2 2 0 100-4m0 4a2 2 0 110-4m0 4v2m0-6V4", false, now));
    icons.push(heroicon_of("adjustments", "M12 6V4m0 2a2 2 0 100 4m0-4a2 2 0 110 4m-6 8a2 2 0 100-4m0 4a2 2 0 110-4m0 4v2m0-6V4m6 6v10m6-2a2 2 0 100-4m0 4a2 2 0 110-4m0 4v2m0-6V4", true, now));
    icons.push(heroicon_of("archive", "M5 8h14M5 8a2 2 0 110-4h14a2 2 0 110 4M5 8v10a2 2 0 002 2h10a2 2 0 002-2V8m-9 4h4", false, now));
    icons.push(heroicon_of("archive", "M5 8h14M5 8a2 2 0 110-4h14a2 2 0 110 4M5 8v10a2 2 0 002 2h10a2 2 0 002-2V8m-9 4h4", true, now));
    assert forall|i: int| 0 <= i < 3 implies is_heroicon(#[trigger] icons@[2 * i], heroicon(i).0, heroicon(i).1, false, now)
        && is_heroicon(icons@[2 * i + 1], heroicon(i).0, heroicon(i).1, true, now) by {
        assert(i == 0 || i == 1 || i == 2);
    }
    let mut categories: Vec<IconCategory> = Vec::new();
    categories.push(category("outline", "Outline", "Outline style icons", 3));
    categories.push(category("solid", "Solid", "Solid style icons", 3));
    let mut variants: Vec<IconVariant> = Vec::new();
    variants.push(IconVariant::Outline);
    variants.push(IconVariant::Filled);
    IconPack {
        id: owned("heroicons"),
        name: owned("Heroicons"),
        version: owned("2.1.1"),
        author: owned("Tailwind Labs"),
        license: owned("MIT"),
        icons,
        categories,
        variants,
    }
}

/// The built-in Font Awesome set.
pub fn fontawesome_pack(now: i64) -> (p: IconPack)
    ensures
        is_fontawesome_pack(p, now),
{
    let mut icons: Vec<Icon> = Vec::new();
    icons.push(fa_icon_of("fa-solid", "circle", "M512 256c0 141.4-114.6 256-256 256S0 397.4 0 256 114.6 0 256 0s256 114.6 256 256z", now));
    icons.push(fa_icon_of("fa-regular", "circle", "M256 512c141.4 0 256-114.6 256-256S397.4 0 256 0 0 114.6 0 256s114.6 256 256 256zm0-96c-88.4 0-160-71.6-160-160s71.6-160 160-160 160 71.6 160 160-71.6 160-160 160z", now));
    icons.push(fa_icon_of("fa-brands", "github", "M256 0C114.6 0 0 114.6 0 256c0 113.1 73.4 209.1 175.2 242.9 12.8 2.4 17.5-5.6 17.5-12.4 0-6.1-0.2-22.2-0.3-43.6-71.3 15.5-86.3-34.3-86.3-34.3-11.7-29.7-28.5-37.6-28.5-37.6-23.3-15.9 1.8-15.6 1.8-15.6 25.8 1.8 39.4 26.5 39.4 26.5 22.9 39.2 60.1 27.9 74.8 21.3 2.3-16.6 9-27.9 16.3-34.3-57.1-6.5-117.1-28.5-117.1-127 0-28 10-50.9 26.5-68.9-2.7-6.5-11.5-32.7 2.5-68 0 0 21.6-6.9 71 26.1 20.6-5.7 42.7-8.6 64.6-8.6 22 0 44 2.9 64.6 8.6 49.3-33 70.9-26.1 70.9-26.1 14 35.3 5.2 61.5 2.5 68 16.5 18 26.5 40.9 26.5 68.9 0 98.7-60.1 120.4-117.3 126.8 9.2 7.9 17.5 23.6 17.5 47.6 0 34.4-0.3 62.1-0.3 70.5 0 6.9 4.6 15 17.5 12.4C438.6 465.1 512 369.1 512 256 512 114.6 397.4 0 256 0z", now));
    assert forall|i: int| 0 <= i < 3 implies is_fa_icon(#[trigger] icons@[i], fa_icon(i).0, fa_icon(i).1, fa_icon(i).2, now) by {
        assert(i == 0 || i == 1 || i == 2);
    }
    let mut categories: Vec<IconCategory> = Vec::new();
    categories.push(category("fa-solid", "Solid", "Solid style icons", 1));
    categories.push(category("fa-regular", "Regular", "Regular style icons", 1));
    categories.push(category("fa-brands", "Brands", "Brand icons", 1));
    let mut variants: Vec<IconVariant> = Vec::new();
    variants.push(IconVariant::Filled);
    variants.push(IconVariant::Outline);
    IconPack {
        id: owned("fontawesome"),
        name: owned("Font Awesome"),
        version: owned("6.5.1"),
        author: owned("Fonticons"),
        license: owned("CC BY 4.0"),
        icons,
        categories,
        variants,
    }
}

/// The ids of the built-in sets.
pub open spec fn builtin_ids() -> Set<Seq<char>> {
    set!["material"@, "feather"@, "fontawesome"@, "heroicons"@]
}

impl IconBrowser {
    /// Load the built-in sets, Material, Feather, Font Awesome and then
    /// Heroicons, all stamped with the same current time; other sets stay.
    pub fn load_builtin_sets(&mut self)
        requires old(self).wf(),
        ensures
            final(self).wf(),
            final(self).sets_view().dom() == old(self).sets_view().dom().union(builtin_ids()),
            exists|t: i64| {
                &&& is_material_pack(#[trigger] final(self).sets_view()["material"@], t)
                &&& is_feather_pack(final(self).sets_view()["feather"@], t)
                &&& is_fontawesome_pack(final(self).sets_view()["fontawesome"@], t)
                &&& is_heroicons_pack(final(self).sets_view()["heroicons"@], t)
            },
            forall|k: Seq<char>| !builtin_ids().contains(k) && #[trigger] old(self).sets_view().contains_key(k)
                ==> final(self).sets_view()[k] == old(self).sets_view()[k],
            final(self).cache_view() == old(self).cache_view(),
            final(self).index_view() == old(self).index_view(),
            final(self).max_cache() == old(self).max_cache(),
    {
        let now = now_millis();
        proof {
            reveal_strlit("material");
            reveal_strlit("feather");
            reveal_strlit("fontawesome");
            reveal_strlit("heroicons");
        }
        let ghost before = self.sets_view();
        let m = material_pack(now);
        let f = feather_pack(now);
        let a = fontawesome_pack(now);
        let h = heroicons_pack(now);
        let ghost (gm, gf, ga, gh) = (m, f, a, h);
        self.add_set(m);
        self.add_set(f);
        self.add_set(a);
        self.add_set(h);
        proof {
            assert("material"@ != "feather"@) by { assert("material"@[0] != "feather"@[0]); }
            assert("material"@ != "fontawesome"@) by { assert("material"@.len() != "fontawesome"@.len()); }
            assert("material"@ != "heroicons"@) by { assert("material"@[0] != "heroicons"@[0]); }
            assert("feather"@ != "fontawesome"@) by { assert("feather"@.len() != "fontawesome"@.len()); }
            assert("feather"@ != "heroicons"@) by { assert("feather"@.len() != "heroicons"@.len()); }
            assert("fontawesome"@ != "heroicons"@) by { assert("fontawesome"@.len() != "heroicons"@.len()); }
            assert(self.sets_view() == before.insert("material"@, gm).insert("feather"@, gf)
                .insert("fontawesome"@, ga).insert("heroicons"@, gh));
            assert(self.sets_view().dom() =~= before.dom().union(builtin_ids()));
            assert(is_material_pack(self.sets_view()["material"@], now));
        }
    }
}

} // verus!
