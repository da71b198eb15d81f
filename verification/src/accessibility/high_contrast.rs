//! High-contrast themes: their kinds, their colors and the CSS they give, and
//! the manager of themes by id with the current one. A theme's color
//! adjustment (brightness, contrast, saturation, hue) is floating point, so
//! the manager keeps each theme as a value of the caller's theme type under
//! its id, and that arithmetic lives outside the library.
use vstd::prelude::*;
use crate::accessibility::AccessibilityError;
use crate::stamp::{is_hyphenated_uuid, new_uuid};
use crate::strmap::StrMap;
use crate::text::{concat2, owned};

verus! {

/// Contrast level.
#[derive(Debug, Clone, Copy, PartialEq, Eq, Structural)]
pub enum ContrastLevel {
    Standard,
    Enhanced,
    Maximum,
}

/// Theme preset.
#[derive(Debug, Clone, Copy, PartialEq, Eq, Structural)]
pub enum ThemePreset {
    HighContrastLight,
    HighContrastDark,
    HighContrastCustom,
    Inverted,
    Monochrome,
}


/// The colors of a high-contrast theme, with its id, name, kind and level.
/// The time is milliseconds since the Unix epoch.
#[derive(Debug)]
pub struct ThemeColors {
    pub id: String,
    pub name: String,
    pub preset: ThemePreset,
    pub background: String,
    pub foreground: String,
    pub primary: String,
    pub secondary: String,
    pub accent: String,
    pub success: String,
    pub warning: String,
    pub error: String,
    pub info: String,
    pub selection: String,
    pub line_highlight: String,
    pub border: String,
    pub shadow: String,
    pub contrast_level: ContrastLevel,
    pub created_at: i64,
}

/// The thirteen colors of a theme, in the order its CSS lists them.
pub open spec fn color_list(t: ThemeColors) -> Seq<Seq<char>> {
    seq![t.background@, t.foreground@, t.primary@, t.secondary@, t.accent@, t.success@, t.warning@, t.error@,
        t.info@, t.selection@, t.line_highlight@, t.border@, t.shadow@]
}

/// The dark theme's colors.
pub open spec fn dark_colors() -> Seq<Seq<char>> {
    seq!["#000000"@, "#ffffff"@, "#ffff00"@, "#00ff00"@, "#00ffff"@, "#00ff00"@, "#ffff00"@, "#ff0000"@,
        "#00ffff"@, "#0000ff"@, "#333333"@, "#ffffff"@, "#ffffff"@]
}

/// The light theme's colors.
pub open spec fn light_colors() -> Seq<Seq<char>> {
    seq!["#ffffff"@, "#000000"@, "#0000ff"@, "#008000"@, "#ff00ff"@, "#008000"@, "#ffff00"@, "#ff0000"@,
        "#0000ff"@, "#add8e6"@, "#f0f0f0"@, "#000000"@, "#000000"@]
}

impl ThemeColors {
    /// The high-contrast dark theme under a fresh id, created `now`: black
    /// background, white text, at maximum contrast.
    pub fn high_contrast_dark(now: i64) -> (t: Self)
        ensures
            is_hyphenated_uuid(t.id@),
            t.name@ == "High Contrast Dark"@,
            t.preset == ThemePreset::HighContrastDark,
            color_list(t) == dark_colors(),
            t.contrast_level == ContrastLevel::Maximum,
            t.created_at == now,
    {
        let t = ThemeColors {
            id: new_uuid(),
            name: owned("High Contrast Dark"),
            preset: ThemePreset::HighContrastDark,
            background: owned("#000000"),
            foreground: owned("#ffffff"),
            primary: owned("#ffff00"),
            secondary: owned("#00ff00"),
            accent: owned("#00ffff"),
            success: owned("#00ff00"),
            warning: owned("#ffff00"),
            error: owned("#ff0000"),
            info: owned("#00ffff"),
            selection: owned("#0000ff"),
            line_highlight: owned("#333333"),
            border: owned("#ffffff"),
            shadow: owned("#ffffff"),
            contrast_level: ContrastLevel::Maximum,
            created_at: now,
        };
        assert(color_list(t) =~= dark_colors());
        t
    }

    /// The high-contrast light theme under a fresh id, created `now`: white
    /// background, black text, at maximum contrast.
    pub fn high_contrast_light(now: i64) -> (t: Self)
        ensures
            is_hyphenated_uuid(t.id@),
            t.name@ == "High Contrast Light"@,
            t.preset == ThemePreset::HighContrastLight,
            color_list(t) == light_colors(),
            t.contrast_level == ContrastLevel::Maximum,
            t.created_at == now,
    {
        let t = ThemeColors {
            id: new_uuid(),
            name: owned("High Contrast Light"),
            preset: ThemePreset::HighContrastLight,
            background: owned("#ffffff"),
            foreground: owned("#000000"),
            primary: owned("#0000ff"),
            secondary: owned("#008000"),
            accent: owned("#ff00ff"),
            success: owned("#008000"),
            warning: owned("#ffff00"),
            error: owned("#ff0000"),
            info: owned("#0000ff"),
            selection: owned("#add8e6"),
            line_highlight: owned("#f0f0f0"),
            border: owned("#000000"),
            shadow: owned("#000000"),
            contrast_level: ContrastLevel::Maximum,
            created_at: now,
        };
        assert(color_list(t) =~= light_colors());
        t
    }

    /// A copy with another id, name, kind and creation time.
    fn renamed(&self, id: String, name: String, preset: ThemePreset, created_at: i64) -> (t: Self)
        ensures
            t.id == id && t.name == name && t.preset == preset && t.created_at == created_at,
            color_list(t) == color_list(*self),
            t.contrast_level == self.contrast_level,
    {
        ThemeColors {
            id,
            name,
            preset,
            background: self.background.clone(),
            foreground: self.foreground.clone(),
            primary: self.primary.clone(),
            secondary: self.secondary.clone(),
            accent: self.accent.clone(),
            success: self.success.clone(),
            warning: self.warning.clone(),
            error: self.error.clone(),
            info: self.info.clone(),
            selection: self.selection.clone(),
            line_highlight: self.line_highlight.clone(),
            border: self.border.clone(),
            shadow: self.shadow.clone(),
            contrast_level: self.contrast_level,
            created_at,
        }
    }

    /// The inverted theme of a base: the same colors and id, named
    /// "<name> (Inverted)", of the inverted kind (its adjustment inverts).
    pub fn inverted(base: &ThemeColors) -> (t: Self)
        ensures
            t.id == base.id,
            t.name@ == base.name@ + " (Inverted)"@,
            t.preset == ThemePreset::Inverted,
            color_list(t) == color_list(*base),
            t.contrast_level == base.contrast_level,
            t.created_at == base.created_at,
    {
        let name = concat2(base.name.as_str(), " (Inverted)");
        base.renamed(base.id.clone(), name, ThemePreset::Inverted, base.created_at)
    }

    /// A custom theme from a base: the same colors under a fresh id, the given
    /// name, of the custom kind, created `now`.
    pub fn custom_from(base: &ThemeColors, name: String, now: i64) -> (t: Self)
        ensures
            is_hyphenated_uuid(t.id@),
            t.name == name,
            t.preset == ThemePreset::HighContrastCustom,
            color_list(t) == color_list(*base),
            t.contrast_level == base.contrast_level,
            t.created_at == now,
    {
        let id = new_uuid();
        base.renamed(id, name, ThemePreset::HighContrastCustom, now)
    }
}

/// The CSS variable names, in order.
pub open spec fn css_names() -> Seq<Seq<char>> {
    seq!["background"@, "foreground"@, "primary"@, "secondary"@, "accent"@, "success"@, "warning"@, "error"@,
        "info"@, "selection"@, "line-highlight"@, "border"@, "shadow"@]
}

/// The CSS lines of variables and their values.
pub open spec fn css_lines(names: Seq<Seq<char>>, values: Seq<Seq<char>>) -> Seq<char>
    decreases names.len(),
{
    if names.len() == 0 {
        Seq::empty()
    } else {
        css_lines(names.drop_last(), values.drop_last()) + "  --"@ + names.last() + ": "@ + values.last() + ";\n"@
    }
}

/// The CSS of a theme: its colors as variables of `:root`.
pub open spec fn theme_css(t: ThemeColors) -> Seq<char> {
    ":root {\n"@ + css_lines(css_names(), color_list(t)) + "}\n"@
}

/// The CSS of a theme; see `theme_css`.
pub fn to_css(theme: &ThemeColors) -> (css: String)
    ensures css@ == theme_css(*theme),
{
    let names: Vec<&str> = vec!["background", "foreground", "primary", "secondary", "accent", "success", "warning",
        "error", "info", "selection", "line-highlight", "border", "shadow"];
    let values: Vec<&str> = vec![theme.background.as_str(), theme.foreground.as_str(), theme.primary.as_str(),
        theme.secondary.as_str(), theme.accent.as_str(), theme.success.as_str(), theme.warning.as_str(),
        theme.error.as_str(), theme.info.as_str(), theme.selection.as_str(), theme.line_highlight.as_str(),
        theme.border.as_str(), theme.shadow.as_str()];
    let ghost nv = names@.map_values(|x: &str| x@);
    let ghost vv = values@.map_values(|x: &str| x@);
    proof {
        reveal_strlit("background");
        reveal_strlit("foreground");
        reveal_strlit("primary");
        reveal_strlit("secondary");
        reveal_strlit("accent");
        reveal_strlit("success");
        reveal_strlit("warning");
        reveal_strlit("error");
        reveal_strlit("info");
        reveal_strlit("selection");
        reveal_strlit("line-highlight");
        reveal_strlit("border");
        reveal_strlit("shadow");
        assert(nv =~= css_names());
        assert(vv =~= color_list(*theme));
    }
    let mut css = owned(":root {\n");
    let ghost head = css@;
    let mut i: usize = 0;
    proof {
        assert(nv.subrange(0, 0) =~= Seq::<Seq<char>>::empty());
        assert(head + Seq::<char>::empty() =~= head);
    }
    while i < 13
        invariant
            names@.len() == 13,
            values@.len() == 13,
            nv == names@.map_values(|x: &str| x@),
            vv == values@.map_values(|x: &str| x@),
            i <= 13,
            css@ == head + css_lines(nv.subrange(0, i as int), vv.subrange(0, i as int)),
        decreases 13 - i,
    {
        proof {
            assert(nv.subrange(0, i + 1).drop_last() =~= nv.subrange(0, i as int));
            assert(vv.subrange(0, i + 1).drop_last() =~= vv.subrange(0, i as int));
        }
        css.append("  --");
        css.append(names[i]);
        css.append(": ");
        css.append(values[i]);
        css.append(";\n");
        i = i + 1;
    }
    proof {
        assert(nv.subrange(0, 13) =~= nv);
        assert(vv.subrange(0, 13) =~= vv);
    }
    css.append("}\n");
    proof {
        reveal_strlit(":root {\n");
        reveal_strlit("}\n");
        assert(css@ =~= theme_css(*theme));
    }
    css
}

/// The high-contrast manager: themes by id (the caller's theme type), the
/// current theme's id, and whether high contrast is on.
pub struct HighContrastManager<T> {
    enabled: bool,
    themes: StrMap<T>,
    current_theme: Option<String>,
}

impl<T> HighContrastManager<T> {
    pub closed spec fn wf(&self) -> bool {
        self.themes.wf()
    }

    pub closed spec fn is_on(&self) -> bool {
        self.enabled
    }

    /// The themes by id.
    pub closed spec fn themes_view(&self) -> Map<Seq<char>, T> {
        self.themes@
    }

    /// The themes in the order first added.
    pub closed spec fn theme_seq(&self) -> Seq<T> {
        self.themes.value_seq()
    }

    /// The current theme's id, if one is chosen.
    pub closed spec fn current_id(&self) -> Option<Seq<char>> {
        match self.current_theme {
            Some(c) => Some(c@),
            None => None,
        }
    }

    /// A manager, off, holding the dark and the light theme under their ids,
    /// with none chosen.
    pub fn new(dark_id: &str, dark: T, light_id: &str, light: T) -> (m: Self)
        ensures
            m.wf(),
            !m.is_on(),
            m.themes_view() == Map::<Seq<char>, T>::empty().insert(dark_id@, dark).insert(light_id@, light),
            m.current_id() is None,
    {
        let mut themes: StrMap<T> = StrMap::new();
        themes.insert(owned(dark_id), dark);
        themes.insert(owned(light_id), light);
        HighContrastManager { enabled: false, themes, current_theme: None }
    }

    /// Turn high contrast on.
    pub fn enable(&mut self)
        ensures
            final(self).is_on(),
            final(self).themes_view() == old(self).themes_view(),
            final(self).current_id() == old(self).current_id(),
            final(self).wf() == old(self).wf(),
    {
        self.enabled = true;
    }

    /// Turn high contrast off.
    pub fn disable(&mut self)
        ensures
            !final(self).is_on(),
            final(self).themes_view() == old(self).themes_view(),
            final(self).current_id() == old(self).current_id(),
            final(self).wf() == old(self).wf(),
    {
        self.enabled = false;
    }

    /// Whether high contrast is on.
    pub fn is_enabled(&self) -> (b: bool)
        ensures b == self.is_on(),
    {
        self.enabled
    }

    /// Keep a theme under its id, replacing one of that id.
    pub fn add_theme(&mut self, id: &str, theme: T)
        requires old(self).wf(),
        ensures
            final(self).wf(),
            final(self).themes_view() == old(self).themes_view().insert(id@, theme),
            final(self).current_id() == old(self).current_id(),
            final(self).is_on() == old(self).is_on(),
    {
        self.themes.insert(owned(id), theme);
    }

    /// Forget the theme under `id`, if any; the current id stays.
    pub fn remove_theme(&mut self, id: &str)
        requires old(self).wf(),
        ensures
            final(self).wf(),
            final(self).themes_view() == old(self).themes_view().remove(id@),
            final(self).current_id() == old(self).current_id(),
            final(self).is_on() == old(self).is_on(),
    {
        self.themes.remove(id);
    }

    /// Choose the theme under `id`; an unknown id is refused and nothing changes.
    pub fn set_theme(&mut self, id: &str) -> (r: Result<(), AccessibilityError>)
        requires old(self).wf(),
        ensures
            final(self).wf(),
            final(self).themes_view() == old(self).themes_view(),
            final(self).is_on() == old(self).is_on(),
            if old(self).themes_view().contains_key(id@) {
                r is Ok && final(self).current_id() == Some(id@)
            } else {
                (r matches Err(AccessibilityError::ThemeError(m)) && m@ == "Theme not found: "@ + id@)
                    && final(self).current_id() == old(self).current_id()
            },
    {
        if self.themes.contains_key(id) {
            self.current_theme = Some(owned(id));
            Ok(())
        } else {
            Err(AccessibilityError::ThemeError(concat2("Theme not found: ", id)))
        }
    }

    /// The current theme, while its id is that of a theme.
    pub fn current_theme(&self) -> (r: Option<&T>)
        requires self.wf(),
        ensures
            match self.current_id() {
                Some(c) => match r {
                    Some(t) => self.themes_view().contains_key(c) && *t == self.themes_view()[c],
                    None => !self.themes_view().contains_key(c),
                },
                None => r is None,
            },
    {
        match &self.current_theme {
            Some(c) => self.themes.get(c.as_str()),
            None => None,
        }
    }

    /// The themes, in the order first added.
    pub fn list_themes(&self) -> (r: Vec<&T>)
        ensures
            r@.len() == self.theme_seq().len(),
            forall|i: int| 0 <= i < r@.len() ==> *#[trigger] r@[i] == self.theme_seq()[i],
    {
        self.themes.values()
    }

    /// The theme under `id`.
    pub fn get_theme(&self, id: &str) -> (r: Option<&T>)
        requires self.wf(),
        ensures
            match r {
                Some(t) => self.themes_view().contains_key(id@) && *t == self.themes_view()[id@],
                None => !self.themes_view().contains_key(id@),
            },
    {
        self.themes.get(id)
    }
}

} // verus!
