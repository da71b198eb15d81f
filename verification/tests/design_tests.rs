use parsec::design::color_picker::{hex_string, parse_hex_color, ColorPicker, HexColor};
use parsec::design::font_preview::FontWeight;
use parsec::design::icon_browser::{ExportFormat, Icon, IconBrowser, IconPack, IconSize, IconVariant};
use parsec::design::DesignError;

fn icon(id: &str, name: &str, category: &str, tags: &[&str]) -> Icon {
    Icon {
        id: id.to_string(),
        name: name.to_string(),
        set: "s".to_string(),
        category: category.to_string(),
        tags: tags.iter().map(|t| t.to_string()).collect(),
        variant: IconVariant::Outline,
        svg: String::new(),
        width: 24,
        height: 24,
        view_box: (0, 0, 24, 24),
        created_at: 0,
        updated_at: 0,
        popularity: 0,
    }
}

fn pack(id: &str, icons: Vec<Icon>) -> IconPack {
    IconPack {
        id: id.to_string(),
        name: id.to_string(),
        version: "1".to_string(),
        author: "a".to_string(),
        license: "MIT".to_string(),
        icons,
        categories: vec![],
        variants: vec![],
    }
}

#[test]
fn font_weight_numbers_round_trip() {
    for n in [100u16, 400, 950, 123] {
        assert_eq!(FontWeight::from_number(n).to_number(), n);
    }
    assert_eq!(FontWeight::from_number(700), FontWeight::Bold);
    assert_eq!(FontWeight::from_number(123), FontWeight::Custom(123));
}

#[test]
fn hex_codes_round_trip() {
    let c = parse_hex_color("#1a2B3c").unwrap();
    assert_eq!((c.r, c.g, c.b, c.alpha), (0x1a, 0x2b, 0x3c, None));
    let back = hex_string(c);
    assert_eq!(parse_hex_color(&back).unwrap(), c);
    let a = parse_hex_color("#00000080").unwrap();
    assert_eq!(a.alpha, Some(0x80));
    assert!(parse_hex_color("#12").is_err());
    let _h: HexColor = c;
}

#[test]
fn color_history_keeps_one_entry_per_color() {
    let mut p: ColorPicker<&str> = ColorPicker::new();
    p.add_to_history((1, 2, 3), "first");
    p.add_to_history((4, 5, 6), "second");
    p.add_to_history((1, 2, 3), "again");
    let h = p.get_history();
    assert_eq!(h.len(), 2);
    assert_eq!(h[0], ((1, 2, 3), "again"));
    assert_eq!(h[1], ((4, 5, 6), "second"));
    for i in 0..60u8 {
        p.add_to_history((i, 0, 0), "x");
    }
    assert_eq!(p.get_history().len(), 50);
    assert_eq!(p.get_history()[0].0, (59, 0, 0));
}

#[test]
fn palettes_and_favorites() {
    let mut p: ColorPicker<u32> = ColorPicker::new();
    let id = p.create_palette("warm".to_string(), vec![1, 2], vec!["t".to_string()], 5);
    assert_eq!(id.len(), 36);
    assert_eq!(p.get_palette(&id).unwrap().colors, vec![1, 2]);
    p.delete_palette(&id);
    assert!(p.get_palette(&id).is_none());
    p.add_favorite("a".to_string());
    p.add_favorite("b".to_string());
    p.add_favorite("a".to_string());
    p.remove_favorite("a");
    assert_eq!(p.get_favorites(), vec!["b".to_string()]);
}

#[test]
fn icon_search_filters_and_matches_tags() {
    let mut b = IconBrowser::new(2);
    b.add_set(pack("material", vec![icon("m1", "Home", "nav", &[]), icon("m2", "gear", "ui", &["Settings"])]));
    b.add_set(pack("feather", vec![icon("f1", "house", "nav", &["home"])]));
    assert_eq!(b.search("HOME", None, None).unwrap(), vec!["m1".to_string(), "f1".to_string()]);
    assert_eq!(b.search("home", Some("feather"), None).unwrap(), vec!["f1".to_string()]);
    assert_eq!(b.search("setting", None, Some("ui")).unwrap(), vec!["m2".to_string()]);
    assert!(b.search("setting", None, Some("nav")).unwrap().is_empty());
}

#[test]
fn icon_cache_is_bounded_per_icon() {
    let mut b = IconBrowser::new(2);
    b.cache_icon("i", IconSize::Small(16), vec![1]);
    b.cache_icon("i", IconSize::Medium(24), vec![2]);
    b.cache_icon("i", IconSize::Large(32), vec![3]);
    assert!(b.get_cached("i", IconSize::Small(16)).is_none());
    assert_eq!(b.get_cached("i", IconSize::Large(32)), Some(&vec![3]));
    b.clear_cache();
    assert!(b.get_cached("i", IconSize::Large(32)).is_none());
}

#[test]
fn icon_sets_grow_and_export_formats() {
    let mut b = IconBrowser::new(4);
    let id = b.create_set("mine".to_string(), "me".to_string(), "MIT".to_string()).unwrap();
    b.add_custom_icon(&id, icon("c1", "star", "misc", &["fav"])).unwrap();
    assert_eq!(b.get_set(&id).unwrap().icons.len(), 1);
    assert_eq!(b.search("fav", None, None).unwrap(), vec!["c1".to_string()]);
    assert_eq!(b.export_format(&id, "zip").unwrap(), ExportFormat::Zip);
    match b.export_format(&id, "tar") {
        Err(DesignError::InvalidFormat(m)) => assert_eq!(m, "Unsupported format: tar"),
        _ => panic!("expected an error"),
    }
    match b.export_format("nope", "json") {
        Err(DesignError::IconNotFound(m)) => assert_eq!(m, "Set not found: nope"),
        _ => panic!("expected an error"),
    }
}

#[test]
fn icons_found_by_id_and_by_set() {
    let mut b = IconBrowser::new(2);
    b.add_set(pack("material", vec![icon("m1", "Home", "nav", &[]), icon("dup", "first", "ui", &[])]));
    b.add_set(pack("feather", vec![icon("dup", "second", "nav", &[])]));
    assert_eq!(b.get_icon("m1").unwrap().name, "Home");
    assert_eq!(b.get_icon("dup").unwrap().name, "first");
    assert!(b.get_icon("zz").is_none());
    assert_eq!(b.get_set_icons("feather").unwrap().len(), 1);
    assert!(b.get_set_icons("nope").is_none());
}

use parsec::design::color_picker::ColorNotation;

#[test]
fn colors_read_in_each_notation() {
    let p = ColorPicker::<u8>::new();
    assert!(matches!(p.parse_color("#ff0000"), Ok(ColorNotation::Hex(HexColor { r: 255, g: 0, b: 0, alpha: None }))));
    assert!(matches!(p.parse_color(" abc "), Ok(ColorNotation::Hex(HexColor { r: 0xaa, g: 0xbb, b: 0xcc, alpha: None }))));
    match p.parse_color("  rgb(1, 2, 3)") {
        Ok(ColorNotation::Rgb(1, 2, 3, None)) => {}
        other => panic!("unexpected {:?}", other),
    }
    match p.parse_color("rgba(10,20,30, 0.5)") {
        Ok(ColorNotation::Rgb(10, 20, 30, Some(a))) => assert_eq!(a, "0.5"),
        other => panic!("unexpected {:?}", other),
    }
    match p.parse_color("hsl(120, 50%, 25%)") {
        Ok(ColorNotation::Hsl(120, 50, 25, None)) => {}
        other => panic!("unexpected {:?}", other),
    }
    match p.parse_color("rgb(300, 2, 3)") {
        Err(DesignError::ColorError(m)) => assert_eq!(m, "Invalid color component"),
        other => panic!("unexpected {:?}", other),
    }
    match p.parse_color("rgb(1, 2)") {
        Err(DesignError::ColorError(m)) => assert_eq!(m, "Unable to parse color"),
        other => panic!("unexpected {:?}", other),
    }
    match p.parse_color("blue") {
        Err(DesignError::ColorError(m)) => assert_eq!(m, "Unable to parse color"),
        other => panic!("unexpected {:?}", other),
    }
    match p.parse_color("#12") {
        Err(DesignError::ColorError(m)) => assert_eq!(m, "Invalid hex length"),
        other => panic!("unexpected {:?}", other),
    }
}

#[test]
fn icons_recolor_and_resize_their_svg() {
    let mut i = icon("x", "x", "c", &["t"]);
    i.svg = r##"<svg width="24" height="24" viewBox="0 0 24 24"><path fill="#000" stroke="red" d="M0"/><g color="currentColor"/></svg>"##.to_string();
    let red = i.recolor(HexColor { r: 255, g: 0, b: 0, alpha: None }).unwrap();
    assert_eq!(
        red.svg,
        r##"<svg width="24" height="24" viewBox="0 0 24 24"><path fill="#ff0000" stroke="#ff0000" d="M0"/><g color="#ff0000"/></svg>"##
    );
    assert_eq!(red.tags, vec!["t".to_string()]);
    let big = i.resize(48, 32).unwrap();
    assert_eq!(
        big.svg,
        r##"<svg width="48" height="32" viewBox="0 0 48 32"><path fill="#000" stroke="red" d="M0"/><g color="currentColor"/></svg>"##
    );
    assert_eq!((big.width, big.height, big.view_box), (48, 32, (0, 0, 48, 32)));
}

use parsec::design::font_preview::{
    Font, FontFile, FontMetrics, FontPreview, FontStretch, FontStyle, FontVariant,
};

fn metrics() -> FontMetrics {
    FontMetrics {
        units_per_em: 1000,
        ascent: 800,
        descent: -200,
        line_gap: 0,
        cap_height: 700,
        x_height: 500,
        underline_position: -100,
        underline_thickness: 50,
        strikeout_position: 300,
        strikeout_thickness: 50,
    }
}

fn variant(weight: u16, style: FontStyle) -> FontVariant {
    FontVariant { weight: FontWeight::from_number(weight), style, stretch: FontStretch::Normal }
}

fn file(path: &str, family: Option<&str>, v: FontVariant) -> FontFile {
    FontFile {
        path: path.to_string(),
        data: vec![1, 2, 3],
        family_name: family.map(|f| f.to_string()),
        file_stem: "stem".to_string(),
        postscript_name: None,
        variant: v,
        metrics: metrics(),
    }
}

fn system_font(id: &str, path: &str, v: FontVariant) -> Font {
    Font {
        id: id.to_string(),
        family_id: String::new(),
        family_name: "Sys".to_string(),
        full_name: "Sys".to_string(),
        postscript_name: "Sys".to_string(),
        variant: v,
        file_path: path.to_string(),
        data: vec![],
        metrics: metrics(),
    }
}

#[test]
fn font_files_join_their_family() {
    let mut p = FontPreview::new();
    let a = p.load_font_file(file("/f/fira.ttf", Some("Fira"), variant(400, FontStyle::Normal))).unwrap();
    let b = p.load_font_file(file("/f/fira-b.ttf", Some("Fira"), variant(700, FontStyle::Normal))).unwrap();
    assert_eq!(a, b);
    let fam = p.get_family(&a).unwrap();
    assert_eq!(fam.variants.len(), 2);
    assert_eq!(fam.category, "custom");
    assert_eq!(fam.file_paths.len(), 2);
    let c = p.load_font_file(file("/f/x.ttf", None, variant(400, FontStyle::Italic))).unwrap();
    assert_ne!(a, c);
    assert_eq!(p.get_family(&c).unwrap().name, "stem");
    let names: Vec<String> = p.list_fonts().iter().map(|f| format!("{} / {}", f.full_name, f.postscript_name)).collect();
    assert_eq!(names, vec!["Fira 400 / Fira-400", "Fira 700 / Fira-700", "stem 400 / stem-400"]);
    let bold = p.get_font_by_variant("Fira", &variant(700, FontStyle::Normal)).unwrap();
    assert_eq!(bold.file_path, "/f/fira-b.ttf");
    assert!(p.get_font_by_variant("Fira", &variant(300, FontStyle::Normal)).is_none());
    assert_eq!(p.search("FIR").len(), 1);
}

#[test]
fn system_families_pick_a_regular_default() {
    let mut p = FontPreview::new();
    match p.load_font_family("Empty", vec![]) {
        Err(DesignError::FontError(m)) => assert_eq!(m, "No valid fonts in family: Empty"),
        other => panic!("unexpected {:?}", other),
    }
    let id = p
        .load_font_family(
            "Sys",
            vec![
                system_font("s1", "/s/b.ttf", variant(700, FontStyle::Normal)),
                system_font("s2", "/s/r.ttf", variant(400, FontStyle::Normal)),
            ],
        )
        .unwrap();
    let fam = p.get_family(&id).unwrap();
    assert_eq!(fam.default_variant, variant(400, FontStyle::Normal));
    assert_eq!((fam.category.as_str(), fam.license.as_str()), ("system", "System"));
    assert!(p.get_font("s2").is_some());
}

#[test]
fn uninstalling_the_last_font_drops_the_family() {
    let mut p = FontPreview::new();
    let id = p.load_font_file(file("/f/one.ttf", Some("One"), variant(400, FontStyle::Normal))).unwrap();
    let font_id = p.list_fonts()[0].id.clone();
    p.uninstall_font(&font_id).unwrap();
    assert!(p.get_font(&font_id).is_none());
    assert!(p.get_family(&id).is_none());
    let variants = p.get_variants(&system_font("x", "/x", variant(400, FontStyle::Normal)));
    assert_eq!(variants.len(), 18);
    assert_eq!(variants[1], variant(100, FontStyle::Italic));
    assert_eq!(variants[17], variant(900, FontStyle::Italic));
}
