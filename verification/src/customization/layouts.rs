//! Workspace layouts: split directions, panels and their tabs, the view state
//! of editors, and the manager of named layouts and layout profiles. A
//! layout's split sizes are fractions, so the manager keeps each layout as a
//! value of the caller's layout type under the layout's name; writing layout
//! files and converting them to and from text is outside the library.
use vstd::prelude::*;
use crate::customization::CustomizationError;
use crate::strmap::StrMap;
use crate::text::{concat2, owned, str_eq, views};

verus! {

/// Split direction.
#[derive(Debug, Clone, Copy, PartialEq, Eq, Structural)]
pub enum SplitDirection {
    Horizontal,
    Vertical,
}

/// Panel location.
#[derive(Debug, Clone, Copy, PartialEq, Eq, Structural)]
pub enum PanelLocation {
    Left,
    Right,
    Top,
    Bottom,
    Center,
}

/// Editor info.
#[derive(Debug, Clone)]
pub struct EditorInfo {
    pub path: Option<String>,
    pub language: Option<String>,
    pub modifications: bool,
    pub view_state: Option<EditorViewState>,
}

/// Editor view state.
#[derive(Debug, Clone)]
pub struct EditorViewState {
    pub scroll_x: u32,
    pub scroll_y: u32,
    pub cursor_line: usize,
    pub cursor_column: usize,
    pub selections: Vec<SelectionRange>,
    pub folding: Vec<FoldingRange>,
}

/// Selection range.
#[derive(Debug, Clone, Copy)]
pub struct SelectionRange {
    pub start_line: usize,
    pub start_column: usize,
    pub end_line: usize,
    pub end_column: usize,
}

/// Folding range.
#[derive(Debug, Clone, Copy)]
pub struct FoldingRange {
    pub start_line: usize,
    pub end_line: usize,
    pub collapsed: bool,
}

/// Panel layout.
#[derive(Debug, Clone)]
pub struct PanelLayout {
    pub location: PanelLocation,
    pub size: u32,
    pub visible: bool,
    pub active_tab: Option<String>,
    pub tabs: Vec<PanelTab>,
}

/// Panel tab.
#[derive(Debug, Clone)]
pub struct PanelTab {
    pub id: String,
    pub title: String,
    pub icon: Option<String>,
    pub content_type: String,
}


/// `t` is the tab `id` with the given title and icon, showing content `id`.
pub open spec fn is_tab(t: PanelTab, id: Seq<char>, title: Seq<char>, icon: Seq<char>) -> bool {
    &&& t.id@ == id && t.title@ == title && t.content_type@ == id
    &&& t.icon matches Some(i) && i@ == icon
}

/// The panels of the default workspace layout: on the left, 250 wide, the
/// explorer, search, source control and extensions with the explorer active;
/// at the bottom, 200 high, the terminal, problems, output and debug with the
/// terminal active; both shown.
pub open spec fn default_panels_spec(v: Seq<PanelLayout>) -> bool {
    &&& v.len() == 2
    &&& v[0].location == PanelLocation::Left && v[0].size == 250 && v[0].visible
    &&& v[0].active_tab matches Some(a) && a@ == "explorer"@
    &&& v[0].tabs@.len() == 4
    &&& is_tab(v[0].tabs@[0], "explorer"@, "Explorer"@, "folder"@)
    &&& is_tab(v[0].tabs@[1], "search"@, "Search"@, "search"@)
    &&& is_tab(v[0].tabs@[2], "source-control"@, "Source Control"@, "git"@)
    &&& is_tab(v[0].tabs@[3], "extensions"@, "Extensions"@, "extensions"@)
    &&& v[1].location == PanelLocation::Bottom && v[1].size == 200 && v[1].visible
    &&& v[1].active_tab matches Some(b) && b@ == "terminal"@
    &&& v[1].tabs@.len() == 4
    &&& is_tab(v[1].tabs@[0], "terminal"@, "Terminal"@, "terminal"@)
    &&& is_tab(v[1].tabs@[1], "problems"@, "Problems"@, "warning"@)
    &&& is_tab(v[1].tabs@[2], "output"@, "Output"@, "output"@)
    &&& is_tab(v[1].tabs@[3], "debug"@, "Debug"@, "debug"@)
}

fn tab(id: &str, title: &str, icon: &str) -> (t: PanelTab)
    ensures is_tab(t, id@, title@, icon@),
{
    PanelTab { id: owned(id), title: owned(title), icon: Some(owned(icon)), content_type: owned(id) }
}

/// The panels of the default workspace layout; see `default_panels_spec`.
pub fn default_panels() -> (v: Vec<PanelLayout>)
    ensures default_panels_spec(v@),
{
    let mut left: Vec<PanelTab> = Vec::new();
    left.push(tab("explorer", "Explorer", "folder"));
    left.push(tab("search", "Search", "search"));
    left.push(tab("source-control", "Source Control", "git"));
    left.push(tab("extensions", "Extensions", "extensions"));
    let mut bottom: Vec<PanelTab> = Vec::new();
    bottom.push(tab("terminal", "Terminal", "terminal"));
    bottom.push(tab("problems", "Problems", "warning"));
    bottom.push(tab("output", "Output", "output"));
    bottom.push(tab("debug", "Debug", "debug"));
    let mut v: Vec<PanelLayout> = Vec::new();
    v.push(PanelLayout { location: PanelLocation::Left, size: 250, visible: true, active_tab: Some(owned("explorer")), tabs: left });
    v.push(PanelLayout { location: PanelLocation::Bottom, size: 200, visible: true, active_tab: Some(owned("terminal")), tabs: bottom });
    v
}

/// A layout profile: the layout it makes active and its setting overrides
/// (JSON text by key). The time is milliseconds since the Unix epoch.
pub struct LayoutProfile {
    pub name: String,
    pub active_layout: String,
    pub overrides: StrMap<String>,
    pub created_at: i64,
}

/// The formats layouts are exported and imported in.
#[derive(Debug, Clone, Copy, PartialEq, Eq, Structural)]
pub enum LayoutFormat {
    Json,
    Yaml,
}

/// The format a format name names: "json" or "yaml"; others are refused.
pub fn layout_format(format: &str) -> (r: Result<LayoutFormat, CustomizationError>)
    ensures
        format@ == "json"@ ==> r == Ok::<LayoutFormat, CustomizationError>(LayoutFormat::Json),
        format@ != "json"@ && format@ == "yaml"@ ==> r == Ok::<LayoutFormat, CustomizationError>(LayoutFormat::Yaml),
        format@ != "json"@ && format@ != "yaml"@ ==> (r matches Err(CustomizationError::LayoutError(m))
            && m@ == "Unsupported format: "@ + format@),
{
    if str_eq(format, "json") {
        Ok(LayoutFormat::Json)
    } else if str_eq(format, "yaml") {
        Ok(LayoutFormat::Yaml)
    } else {
        Err(CustomizationError::LayoutError(concat2("Unsupported format: ", format)))
    }
}

/// The layout manager: layouts by name, the active layout, layout profiles by
/// name and the active profile.
pub struct LayoutManager<L> {
    layouts: StrMap<L>,
    active_layout: Option<String>,
    profiles: StrMap<LayoutProfile>,
    active_profile: String,
}

impl<L> LayoutManager<L> {
    pub closed spec fn wf(&self) -> bool {
        self.layouts.wf() && self.profiles.wf()
            && forall|k: Seq<char>| #[trigger] self.profiles@.contains_key(k) ==> self.profiles@[k].overrides.wf()
    }

    /// The layouts by name.
    pub closed spec fn layouts_view(&self) -> Map<Seq<char>, L> {
        self.layouts@
    }

    /// The layouts in the order first added.
    pub closed spec fn layout_seq(&self) -> Seq<L> {
        self.layouts.value_seq()
    }

    /// The name of the active layout, if any.
    pub closed spec fn active_layout_name(&self) -> Option<Seq<char>> {
        match self.active_layout {
            Some(a) => Some(a@),
            None => None,
        }
    }

    /// The profiles by name.
    pub closed spec fn profiles_view(&self) -> Map<Seq<char>, LayoutProfile> {
        self.profiles@
    }

    /// The name of the active profile.
    pub closed spec fn active_profile_name(&self) -> Seq<char> {
        self.active_profile@
    }

    /// A manager with no layouts (those stored are added as they are read),
    /// none active, no profiles, and "default" as the active profile's name.
    pub fn new() -> (m: Self)
        ensures
            m.wf(),
            m.layouts_view() == Map::<Seq<char>, L>::empty(),
            m.active_layout_name() is None,
            m.profiles_view() == Map::<Seq<char>, LayoutProfile>::empty(),
            m.active_profile_name() == "default"@,
    {
        let m = LayoutManager {
            layouts: StrMap::new(),
            active_layout: None,
            profiles: StrMap::new(),
            active_profile: owned("default"),
        };
        m
    }

    /// Keep a layout under its name, replacing one of that name.
    pub fn add_layout(&mut self, name: &str, layout: L) -> (r: Result<(), CustomizationError>)
        requires old(self).wf(),
        ensures
            final(self).wf(),
            r is Ok,
            final(self).layouts_view() == old(self).layouts_view().insert(name@, layout),
            final(self).active_layout_name() == old(self).active_layout_name(),
            final(self).profiles_view() == old(self).profiles_view(),
            final(self).active_profile_name() == old(self).active_profile_name(),
    {
        self.layouts.insert(owned(name), layout);
        Ok(())
    }

    /// Forget the layout under `name`, if any; the active name stays.
    pub fn remove_layout(&mut self, name: &str) -> (r: Result<(), CustomizationError>)
        requires old(self).wf(),
        ensures
            final(self).wf(),
            r is Ok,
            final(self).layouts_view() == old(self).layouts_view().remove(name@),
            final(self).active_layout_name() == old(self).active_layout_name(),
            final(self).profiles_view() == old(self).profiles_view(),
            final(self).active_profile_name() == old(self).active_profile_name(),
    {
        self.layouts.remove(name);
        Ok(())
    }

    /// Make the layout under `name` active; an unknown name is refused and
    /// nothing changes.
    pub fn set_active_layout(&mut self, name: &str) -> (r: Result<(), CustomizationError>)
        requires old(self).wf(),
        ensures
            final(self).wf(),
            final(self).layouts_view() == old(self).layouts_view(),
            final(self).profiles_view() == old(self).profiles_view(),
            final(self).active_profile_name() == old(self).active_profile_name(),
            if old(self).layouts_view().contains_key(name@) {
                r is Ok && final(self).active_layout_name() == Some(name@)
            } else {
                (r matches Err(CustomizationError::LayoutError(m)) && m@ == "Layout not found: "@ + name@)
                    && final(self).active_layout_name() == old(self).active_layout_name()
            },
    {
        if !self.layouts.contains_key(name) {
            return Err(CustomizationError::LayoutError(concat2("Layout not found: ", name)));
        }
        self.active_layout = Some(owned(name));
        Ok(())
    }

    /// The active layout, while its name is that of a layout.
    pub fn active_layout(&self) -> (r: Option<&L>)
        requires self.wf(),
        ensures
            match self.active_layout_name() {
                Some(n) => match r {
                    Some(l) => self.layouts_view().contains_key(n) && *l == self.layouts_view()[n],
                    None => !self.layouts_view().contains_key(n),
                },
                None => r is None,
            },
    {
        match &self.active_layout {
            Some(n) => self.layouts.get(n.as_str()),
            None => None,
        }
    }

    /// The layouts, in the order first added.
    pub fn list_layouts(&self) -> (r: Vec<&L>)
        ensures
            r@.len() == self.layout_seq().len(),
            forall|i: int| 0 <= i < r@.len() ==> *#[trigger] r@[i] == self.layout_seq()[i],
    {
        self.layouts.values()
    }

    /// The layout under `name`.
    pub fn get_layout(&self, name: &str) -> (r: Option<&L>)
        requires self.wf(),
        ensures
            match r {
                Some(l) => self.layouts_view().contains_key(name@) && *l == self.layouts_view()[name@],
                None => !self.layouts_view().contains_key(name@),
            },
    {
        self.layouts.get(name)
    }

    /// Apply a layout to the workspace: accepted, arranging the windows being
    /// the user interface's part.
    pub fn apply_layout(&self, layout: &L) -> (r: Result<(), CustomizationError>)
        ensures r is Ok,
    {
        Ok(())
    }

    /// Keep a new profile under `name` that makes `layout_name` active, with no
    /// overrides, replacing one of that name; a copy is given back.
    pub fn create_profile(&mut self, name: &str, layout_name: &str, created_at: i64)
        -> (r: Result<LayoutProfile, CustomizationError>)
        requires old(self).wf(),
        ensures
            final(self).wf(),
            r matches Ok(p) && p.name@ == name@ && p.active_layout@ == layout_name@
                && p.overrides.wf() && p.overrides@ == Map::<Seq<char>, String>::empty() && p.created_at == created_at,
            final(self).profiles_view().dom() == old(self).profiles_view().dom().insert(name@),
            final(self).profiles_view()[name@].active_layout@ == layout_name@,
            final(self).profiles_view()[name@].overrides@ == Map::<Seq<char>, String>::empty(),
            forall|k: Seq<char>| k != name@ && #[trigger] old(self).profiles_view().contains_key(k)
                ==> final(self).profiles_view()[k] == old(self).profiles_view()[k],
            final(self).layouts_view() == old(self).layouts_view(),
            final(self).active_layout_name() == old(self).active_layout_name(),
            final(self).active_profile_name() == old(self).active_profile_name(),
    {
        let stored = LayoutProfile {
            name: owned(name),
            active_layout: owned(layout_name),
            overrides: StrMap::new(),
            created_at,
        };
        let copy = LayoutProfile {
            name: owned(name),
            active_layout: owned(layout_name),
            overrides: StrMap::new(),
            created_at,
        };
        self.profiles.insert(owned(name), stored);
        Ok(copy)
    }

    /// Make the profile under `name` active, and its layout; an unknown
    /// profile, or a profile whose layout is unknown, is refused.
    pub fn set_active_profile(&mut self, name: &str) -> (r: Result<(), CustomizationError>)
        requires old(self).wf(),
        ensures
            final(self).wf(),
            final(self).layouts_view() == old(self).layouts_view(),
            final(self).profiles_view() == old(self).profiles_view(),
            !old(self).profiles_view().contains_key(name@) ==> (r matches Err(CustomizationError::LayoutError(m))
                && m@ == "Profile not found: "@ + name@)
                && final(self).active_layout_name() == old(self).active_layout_name()
                && final(self).active_profile_name() == old(self).active_profile_name(),
            old(self).profiles_view().contains_key(name@) ==> ({
                let l = old(self).profiles_view()[name@].active_layout@;
                if old(self).layouts_view().contains_key(l) {
                    r is Ok && final(self).active_layout_name() == Some(l) && final(self).active_profile_name() == name@
                } else {
                    (r matches Err(CustomizationError::LayoutError(m)) && m@ == "Layout not found: "@ + l)
                        && final(self).active_layout_name() == old(self).active_layout_name()
                        && final(self).active_profile_name() == old(self).active_profile_name()
                }
            }),
    {
        let layout_name = match self.profiles.get(name) {
            Some(p) => p.active_layout.clone(),
            None => {
                return Err(CustomizationError::LayoutError(concat2("Profile not found: ", name)));
            },
        };
        match self.set_active_layout(layout_name.as_str()) {
            Ok(()) => {},
            Err(e) => {
                return Err(e);
            },
        }
        self.active_profile = owned(name);
        Ok(())
    }

    /// Set an override (JSON text) in the active profile, when it exists.
    pub fn override_setting(&mut self, key: &str, value: String) -> (r: Result<(), CustomizationError>)
        requires old(self).wf(),
        ensures
            final(self).wf(),
            r is Ok,
            final(self).layouts_view() == old(self).layouts_view(),
            final(self).active_layout_name() == old(self).active_layout_name(),
            final(self).active_profile_name() == old(self).active_profile_name(),
            final(self).profiles_view().dom() == old(self).profiles_view().dom(),
            forall|k: Seq<char>| k != old(self).active_profile_name() && #[trigger] old(self).profiles_view().contains_key(k)
                ==> final(self).profiles_view()[k] == old(self).profiles_view()[k],
            old(self).profiles_view().contains_key(old(self).active_profile_name()) ==> ({
                let before = old(self).profiles_view()[old(self).active_profile_name()];
                let after = final(self).profiles_view()[old(self).active_profile_name()];
                &&& after.overrides@ == before.overrides@.insert(key@, value)
                &&& after.name == before.name && after.active_layout == before.active_layout
                &&& after.created_at == before.created_at
            }),
    {
        match self.profiles.find(self.active_profile.as_str()) {
            Some(i) => {
                let ghost before = self.profiles;
                proof {
                    self.profiles.lemma_index_of(i as int);
                }
                let ghost p0 = self.profiles.entries()[i as int].1;
                let slot = self.profiles.value_at_mut(i);
                slot.overrides.insert(owned(key), value);
                let ghost p1 = *slot;
                proof {
                    StrMap::lemma_update_value(before, self.profiles, i as int, p1);
                    assert forall|k: Seq<char>| #[trigger] self.profiles@.contains_key(k) implies self.profiles@[k].overrides.wf() by {
                        if k != before.entries()[i as int].0 {
                            assert(before@.contains_key(k));
                        }
                    }
                }
            },
            None => {},
        }
        Ok(())
    }
}

} // verus!
