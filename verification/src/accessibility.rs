//! Accessibility features: keyboard navigation, motion reduction, dyslexia aids,
//! colour-blindness helpers, screen reader and voice control state.
use vstd::prelude::*;

pub mod keyboard_nav;
pub mod motion;
pub mod color_blind;
pub mod dyslexia;
pub mod voice_control;
pub mod screen_reader;
pub mod high_contrast;

use crate::accessibility::color_blind::{ColorBlindMode, ColorBlindSimulator};
use crate::accessibility::high_contrast::HighContrastManager;
use crate::accessibility::dyslexia::DyslexiaMode;
use crate::accessibility::voice_control::{RecognizedCommand, VoiceControl};
use crate::accessibility::keyboard_nav::{KeyboardNavigation, NavView, NavigationMode};
use crate::accessibility::motion::{normal_settings, reduced_settings, MotionReduction};
use crate::accessibility::screen_reader::{ReaderView, ScreenReader, ScreenReaderMode, Voice};
use crate::stamp::{is_hyphenated_uuid, new_uuid, now_millis};
use crate::strmap::StrMap;
use crate::text::{concat2, owned};

verus! {

/// Accessibility error.
#[derive(Debug)]
pub enum AccessibilityError {
    ScreenReaderError(String),
    TtsError(String),
    VoiceError(String),
    MicrophoneError(String),
    ThemeError(String),
    KeyboardError(String),
    FontError(String),
    ConfigError(String),
    ChannelSend(String),
    Io(String),
    Serialization(String),
}


/// Accessibility profile: which features are on and how. Times are
/// milliseconds since the Unix epoch.
#[derive(Debug)]
pub struct AccessibilityProfile {
    pub id: String,
    pub name: String,
    pub screen_reader_enabled: bool,
    pub screen_reader_mode: ScreenReaderMode,
    pub high_contrast_enabled: bool,
    pub high_contrast_theme: Option<String>,
    pub voice_control_enabled: bool,
    pub wake_word: Option<String>,
    pub keyboard_nav_enabled: bool,
    pub navigation_mode: NavigationMode,
    pub dyslexia_mode_enabled: bool,
    pub dyslexia_font: bool,
    pub color_blind_mode: Option<ColorBlindMode>,
    pub motion_reduction_enabled: bool,
    pub created_at: i64,
    pub updated_at: i64,
}

fn copy_opt_string(o: &Option<String>) -> (r: Option<String>)
    ensures r == *o,
{
    match o {
        Some(s) => Some(s.clone()),
        None => None,
    }
}

impl AccessibilityProfile {
    /// A copy of the profile.
    pub fn duplicate(&self) -> (r: Self)
        ensures r == *self,
    {
        AccessibilityProfile {
            id: self.id.clone(),
            name: self.name.clone(),
            screen_reader_enabled: self.screen_reader_enabled,
            screen_reader_mode: self.screen_reader_mode,
            high_contrast_enabled: self.high_contrast_enabled,
            high_contrast_theme: copy_opt_string(&self.high_contrast_theme),
            voice_control_enabled: self.voice_control_enabled,
            wake_word: copy_opt_string(&self.wake_word),
            keyboard_nav_enabled: self.keyboard_nav_enabled,
            navigation_mode: self.navigation_mode,
            dyslexia_mode_enabled: self.dyslexia_mode_enabled,
            dyslexia_font: self.dyslexia_font,
            color_blind_mode: self.color_blind_mode,
            motion_reduction_enabled: self.motion_reduction_enabled,
            created_at: self.created_at,
            updated_at: self.updated_at,
        }
    }
}

/// The settings of the default profile: named "Default", only keyboard
/// navigation on, in standard mode, screen reader on demand.
pub open spec fn default_profile_settings(p: AccessibilityProfile) -> bool {
    &&& p.name@ == "Default"@
    &&& !p.screen_reader_enabled
    &&& p.screen_reader_mode == ScreenReaderMode::OnDemand
    &&& !p.high_contrast_enabled
    &&& p.high_contrast_theme is None
    &&& !p.voice_control_enabled
    &&& p.wake_word is None
    &&& p.keyboard_nav_enabled
    &&& p.navigation_mode == NavigationMode::Standard
    &&& !p.dyslexia_mode_enabled
    &&& !p.dyslexia_font
    &&& p.color_blind_mode is None
    &&& !p.motion_reduction_enabled
}

impl Default for AccessibilityProfile {
    /// The default profile, with a fresh id and the current time.
    fn default() -> (p: Self)
        ensures
            default_profile_settings(p),
            is_hyphenated_uuid(p.id@),
    {
        let now = now_millis();
        AccessibilityProfile {
            id: new_uuid(),
            name: owned("Default"),
            screen_reader_enabled: false,
            screen_reader_mode: ScreenReaderMode::OnDemand,
            high_contrast_enabled: false,
            high_contrast_theme: None,
            voice_control_enabled: false,
            wake_word: None,
            keyboard_nav_enabled: true,
            navigation_mode: NavigationMode::Standard,
            dyslexia_mode_enabled: false,
            dyslexia_font: false,
            color_blind_mode: None,
            motion_reduction_enabled: false,
            created_at: now,
            updated_at: now,
        }
    }
}

/// Accessibility event.
#[derive(Debug)]
pub enum AccessibilityEvent {
    ScreenReaderStateChanged(bool),
    SpeechStarted(String),
    SpeechCompleted(String),
    VoiceCommandRecognized(RecognizedCommand),
    ThemeChanged(String),
    FocusMoved(String),
    ProfileLoaded(String),
    ProfileSaved(String),
    Error(String),
}

/// The event announcing that profile `id` was loaded.
pub open spec fn loaded_event(e: AccessibilityEvent, id: Seq<char>) -> bool {
    e matches AccessibilityEvent::ProfileLoaded(i) && i@ == id
}

/// The event announcing that profile `id` was saved.
pub open spec fn saved_event(e: AccessibilityEvent, id: Seq<char>) -> bool {
    e matches AccessibilityEvent::ProfileSaved(i) && i@ == id
}

/// Accessibility status: which features the current profile turns on.
#[derive(Debug, Clone, Copy, PartialEq, Eq, Structural)]
pub struct AccessibilityStatus {
    pub screen_reader: bool,
    pub high_contrast: bool,
    pub voice_control: bool,
    pub keyboard_nav: bool,
    pub dyslexia_mode: bool,
    pub color_blind: bool,
    pub motion_reduction: bool,
}

/// The status a profile gives.
pub open spec fn status_of(p: AccessibilityProfile) -> AccessibilityStatus {
    AccessibilityStatus {
        screen_reader: p.screen_reader_enabled,
        high_contrast: p.high_contrast_enabled,
        voice_control: p.voice_control_enabled,
        keyboard_nav: p.keyboard_nav_enabled,
        dyslexia_mode: p.dyslexia_mode_enabled,
        color_blind: p.color_blind_mode is Some,
        motion_reduction: p.motion_reduction_enabled,
    }
}

/// Some feature of the status is on.
pub open spec fn any_on(s: AccessibilityStatus) -> bool {
    s.screen_reader || s.high_contrast || s.voice_control || s.keyboard_nav
        || s.dyslexia_mode || s.color_blind || s.motion_reduction
}

/// What applying `p` does to high contrast: on or off as it asks; when it is on
/// and names a theme the manager holds, that theme is chosen.
pub open spec fn contrast_after<T>(old: HighContrastManager<T>, new: HighContrastManager<T>, p: AccessibilityProfile) -> bool {
    &&& new.is_on() == p.high_contrast_enabled
    &&& new.themes_view() == old.themes_view()
    &&& new.current_id() == (match p.high_contrast_theme {
            Some(t) => if p.high_contrast_enabled && old.themes_view().contains_key(t@) { Some(t@) } else { old.current_id() },
            None => old.current_id(),
        })
}

/// What applying `p` does to the colour-blindness simulator: on with the
/// profile's mode, or off with its mode kept.
pub open spec fn blind_after(old: ColorBlindSimulator, new: ColorBlindSimulator, p: AccessibilityProfile) -> bool {
    match p.color_blind_mode {
        Some(m) => new.is_on() && new.mode_spec() == m,
        None => !new.is_on() && new.mode_spec() == old.mode_spec(),
    }
}

/// What applying `p` does to the screen reader.
pub open spec fn reader_after(old: ReaderView, p: AccessibilityProfile) -> ReaderView {
    if p.screen_reader_enabled {
        ReaderView { enabled: true, mode: p.screen_reader_mode, ..old }
    } else {
        ReaderView { enabled: false, queue: Seq::empty(), current: None, ..old }
    }
}

/// What applying `p` does to voice control: on with the profile's wake word if it
/// names one, or off; the commands and what was heard stay.
pub open spec fn voice_after(old: VoiceControl, new: VoiceControl, p: AccessibilityProfile) -> bool {
    &&& new.is_on() == p.voice_control_enabled
    &&& new.rec().is_listening_spec() == p.voice_control_enabled
    &&& new.wake_phrase() == (match p.wake_word {
            Some(w) => if p.voice_control_enabled { Some(w@) } else { old.wake_phrase() },
            None => old.wake_phrase(),
        })
    &&& new.rec().commands_view() == old.rec().commands_view()
    &&& new.history_view() == old.history_view()
}

/// What applying `p` does to the dyslexia mode: on with the profile's font
/// choice, or off; the other aids stay.
pub open spec fn dyslexia_after(old: DyslexiaMode, p: AccessibilityProfile) -> DyslexiaMode {
    if p.dyslexia_mode_enabled {
        DyslexiaMode { enabled: true, font_enabled: p.dyslexia_font, ..old }
    } else {
        DyslexiaMode { enabled: false, ..old }
    }
}

/// What applying `p` does to keyboard navigation.
pub open spec fn nav_after(old: NavView, p: AccessibilityProfile) -> NavView {
    NavView { mode: p.navigation_mode, enabled: p.keyboard_nav_enabled, ..old }
}

/// What applying `p` does to motion reduction.
pub open spec fn motion_after(m: MotionReduction, p: AccessibilityProfile) -> bool {
    &&& m.enabled == p.motion_reduction_enabled
    &&& p.motion_reduction_enabled ==> reduced_settings(m)
    &&& !p.motion_reduction_enabled ==> normal_settings(m)
}

fn apply_contrast<T>(hc: &mut HighContrastManager<T>, profile: &AccessibilityProfile)
    requires old(hc).wf(),
    ensures
        final(hc).wf(),
        contrast_after(*old(hc), *final(hc), *profile),
{
    if profile.high_contrast_enabled {
        match &profile.high_contrast_theme {
            Some(t) => {
                let _ = hc.set_theme(t.as_str());
            },
            None => {},
        }
        hc.enable();
    } else {
        hc.disable();
    }
}

fn apply_color_blind(cb: &mut ColorBlindSimulator, profile: &AccessibilityProfile)
    ensures blind_after(*old(cb), *final(cb), *profile),
{
    match profile.color_blind_mode {
        Some(mode) => {
            cb.set_mode(mode);
            cb.enable();
        },
        None => cb.disable(),
    }
}

/// Applying a profile leaves each subsystem on exactly when the profile asks
/// for it: the screen reader, high contrast, voice control, keyboard
/// navigation (which also takes the profile's mode), dyslexia mode, colour
/// blindness and motion reduction.
pub proof fn law_profile_followed<T>(
    reader: ReaderView,
    contrast_before: HighContrastManager<T>,
    contrast: HighContrastManager<T>,
    voice_before: VoiceControl,
    voice: VoiceControl,
    nav: NavView,
    dyslexia: DyslexiaMode,
    blind_before: ColorBlindSimulator,
    blind: ColorBlindSimulator,
    motion: MotionReduction,
    p: AccessibilityProfile,
)
    requires
        contrast_after(contrast_before, contrast, p),
        voice_after(voice_before, voice, p),
        blind_after(blind_before, blind, p),
        motion_after(motion, p),
    ensures
        reader_after(reader, p).enabled == p.screen_reader_enabled,
        contrast.is_on() == p.high_contrast_enabled,
        voice.is_on() == p.voice_control_enabled,
        nav_after(nav, p).enabled == p.keyboard_nav_enabled,
        nav_after(nav, p).mode == p.navigation_mode,
        dyslexia_after(dyslexia, p).enabled == p.dyslexia_mode_enabled,
        blind.is_on() == (p.color_blind_mode is Some),
        motion.enabled == p.motion_reduction_enabled,
{
}

/// The accessibility engine: the verified subsystems, the current profile and
/// the known profiles by id.
pub struct AccessibilityEngine<T> {
    screen_reader: ScreenReader,
    high_contrast: HighContrastManager<T>,
    keyboard_nav: KeyboardNavigation,
    voice_control: VoiceControl,
    dyslexia: DyslexiaMode,
    color_blind: ColorBlindSimulator,
    motion: MotionReduction,
    current_profile: AccessibilityProfile,
    profiles: StrMap<AccessibilityProfile>,
    events: Vec<AccessibilityEvent>,
}

impl<T> AccessibilityEngine<T> {
    /// Well formed apart from voice control.
    pub closed spec fn base_wf(&self) -> bool {
        &&& self.keyboard_nav.wf()
        &&& self.profiles.wf()
        &&& forall|k: Seq<char>| #[trigger] self.profiles@.contains_key(k) ==> self.profiles@[k].id@ == k
    }

    pub open spec fn wf(&self) -> bool {
        self.base_wf() && self.voice().wf() && self.contrast().wf()
    }

    pub closed spec fn contrast(&self) -> HighContrastManager<T> {
        self.high_contrast
    }

    pub closed spec fn blind(&self) -> ColorBlindSimulator {
        self.color_blind
    }

    pub closed spec fn voice(&self) -> VoiceControl {
        self.voice_control
    }

    pub closed spec fn dyslexia_state(&self) -> DyslexiaMode {
        self.dyslexia
    }

    /// The events not yet taken, oldest first.
    pub closed spec fn outbox(&self) -> Seq<AccessibilityEvent> {
        self.events@
    }

    pub closed spec fn reader(&self) -> ScreenReader {
        self.screen_reader
    }

    pub closed spec fn nav(&self) -> KeyboardNavigation {
        self.keyboard_nav
    }

    pub closed spec fn motion_state(&self) -> MotionReduction {
        self.motion
    }

    pub closed spec fn profile(&self) -> AccessibilityProfile {
        self.current_profile
    }

    pub closed spec fn profiles_view(&self) -> Map<Seq<char>, AccessibilityProfile> {
        self.profiles@
    }

    /// The ids of the stored profiles, in the order they were first stored.
    pub closed spec fn profile_ids(&self) -> Seq<Seq<char>> {
        self.profiles.key_seq()
    }

    /// Create the engine: a disabled screen reader with the given mode, rate and
    /// voices, the given high-contrast manager, the colour-blindness simulator
    /// off, keyboard navigation in the given mode, voice control off with the
    /// configured wake word, the dyslexia mode and motion reduction off, the
    /// default profile current and no stored profiles.
    pub fn new(
        screen_reader_mode: ScreenReaderMode,
        navigation_mode: NavigationMode,
        speech_rate: u32,
        voices: Vec<Voice>,
        wake_word: Option<String>,
        high_contrast: HighContrastManager<T>,
    ) -> (e: Self)
        requires high_contrast.wf(),
        ensures
            e.contrast() == high_contrast,
            !e.blind().is_on(),
            e.wf(),
            !e.voice().is_on(),
            e.voice().wake_phrase() == (match wake_word { Some(w) => Some(w@), None => None::<Seq<char>> }),
            e.voice().history_view().len() == 0,
            !e.dyslexia_state().enabled,
            e.outbox().len() == 0,
            !e.reader()@.enabled,
            e.reader()@.mode == screen_reader_mode,
            e.reader()@.rate == speech_rate,
            e.reader()@.voices == voices@,
            e.nav()@.mode == navigation_mode,
            e.nav()@.enabled,
            !e.motion_state().enabled,
            default_profile_settings(e.profile()),
            e.profiles_view() == Map::<Seq<char>, AccessibilityProfile>::empty(),
    {
        AccessibilityEngine {
            screen_reader: ScreenReader::new(screen_reader_mode, speech_rate, voices),
            high_contrast,
            keyboard_nav: KeyboardNavigation::new(navigation_mode),
            voice_control: VoiceControl::new(wake_word),
            dyslexia: DyslexiaMode::new(),
            color_blind: ColorBlindSimulator::new(),
            motion: MotionReduction::new(),
            current_profile: AccessibilityProfile::default(),
            profiles: StrMap::new(),
            events: Vec::new(),
        }
    }

    /// The screen reader.
    pub fn screen_reader(&mut self) -> (r: &mut ScreenReader)
        ensures
            *r == old(self).reader(),
            final(self).reader() == *final(r),
            final(self).nav() == old(self).nav(),
            final(self).voice() == old(self).voice(),
            final(self).dyslexia_state() == old(self).dyslexia_state(),
            final(self).motion_state() == old(self).motion_state(),
            final(self).profile() == old(self).profile(),
            final(self).profiles_view() == old(self).profiles_view(),
            final(self).outbox() == old(self).outbox(),
            final(self).wf() == old(self).wf(),
    {
        &mut self.screen_reader
    }

    /// Voice control.
    pub fn get_voice_control(&mut self) -> (r: &mut VoiceControl)
        ensures
            *r == old(self).voice(),
            final(self).voice() == *final(r),
            final(self).reader() == old(self).reader(),
            final(self).nav() == old(self).nav(),
            final(self).dyslexia_state() == old(self).dyslexia_state(),
            final(self).motion_state() == old(self).motion_state(),
            final(self).profile() == old(self).profile(),
            final(self).profiles_view() == old(self).profiles_view(),
            final(self).base_wf() == old(self).base_wf(),
            final(self).outbox() == old(self).outbox(),
    {
        &mut self.voice_control
    }

    /// The dyslexia mode.
    pub fn get_dyslexia(&mut self) -> (r: &mut DyslexiaMode)
        ensures
            *r == old(self).dyslexia_state(),
            final(self).dyslexia_state() == *final(r),
            final(self).reader() == old(self).reader(),
            final(self).nav() == old(self).nav(),
            final(self).voice() == old(self).voice(),
            final(self).motion_state() == old(self).motion_state(),
            final(self).profile() == old(self).profile(),
            final(self).profiles_view() == old(self).profiles_view(),
            final(self).outbox() == old(self).outbox(),
            final(self).wf() == old(self).wf(),
    {
        &mut self.dyslexia
    }

    /// The high-contrast manager.
    pub fn high_contrast(&mut self) -> (r: &mut HighContrastManager<T>)
        ensures
            *r == old(self).contrast(),
            final(self).contrast() == *final(r),
            final(self).reader() == old(self).reader(),
            final(self).nav() == old(self).nav(),
            final(self).voice() == old(self).voice(),
            final(self).dyslexia_state() == old(self).dyslexia_state(),
            final(self).blind() == old(self).blind(),
            final(self).motion_state() == old(self).motion_state(),
            final(self).profile() == old(self).profile(),
            final(self).profiles_view() == old(self).profiles_view(),
            final(self).base_wf() == old(self).base_wf(),
            final(self).outbox() == old(self).outbox(),
    {
        &mut self.high_contrast
    }

    /// The colour-blindness simulator.
    pub fn get_color_blind(&mut self) -> (r: &mut ColorBlindSimulator)
        ensures
            *r == old(self).blind(),
            final(self).blind() == *final(r),
            final(self).reader() == old(self).reader(),
            final(self).nav() == old(self).nav(),
            final(self).voice() == old(self).voice(),
            final(self).contrast() == old(self).contrast(),
            final(self).dyslexia_state() == old(self).dyslexia_state(),
            final(self).motion_state() == old(self).motion_state(),
            final(self).profile() == old(self).profile(),
            final(self).profiles_view() == old(self).profiles_view(),
            final(self).outbox() == old(self).outbox(),
            final(self).wf() == old(self).wf(),
    {
        &mut self.color_blind
    }

    /// Keyboard navigation.
    pub fn keyboard_nav(&self) -> (r: &KeyboardNavigation)
        ensures *r == self.nav(),
    {
        &self.keyboard_nav
    }

    /// Motion reduction.
    pub fn motion(&self) -> (r: &MotionReduction)
        ensures *r == self.motion_state(),
    {
        &self.motion
    }

    /// The current profile.
    pub fn current_profile(&self) -> (p: &AccessibilityProfile)
        ensures *p == self.profile(),
    {
        &self.current_profile
    }

    /// Make `profile` current, apply it to every subsystem and announce it.
    pub fn set_current_profile(&mut self, profile: AccessibilityProfile)
        requires
            old(self).wf(),
        ensures
            final(self).wf(),
            final(self).profile() == profile,
            final(self).profiles_view() == old(self).profiles_view(),
            final(self).reader()@ == reader_after(old(self).reader()@, profile),
            final(self).nav()@ == nav_after(old(self).nav()@, profile),
            voice_after(old(self).voice(), final(self).voice(), profile),
            final(self).dyslexia_state() == dyslexia_after(old(self).dyslexia_state(), profile),
            motion_after(final(self).motion_state(), profile),
            contrast_after(old(self).contrast(), final(self).contrast(), profile),
            blind_after(old(self).blind(), final(self).blind(), profile),
            final(self).outbox().len() == old(self).outbox().len() + 1,
            final(self).outbox().drop_last() == old(self).outbox(),
            loaded_event(final(self).outbox().last(), profile.id@),
    {
        self.apply_profile(&profile);
        let ghost before = self.events@;
        self.events.push(AccessibilityEvent::ProfileLoaded(profile.id.clone()));
        assert(self.events@.drop_last() =~= before);
        self.current_profile = profile;
    }

    #[verifier::spinoff_prover]
    #[verifier::rlimit(40)]
    fn apply_profile(&mut self, profile: &AccessibilityProfile)
        requires
            old(self).wf(),
        ensures
            final(self).wf(),
            final(self).profile() == old(self).profile(),
            final(self).profiles_view() == old(self).profiles_view(),
            final(self).reader()@ == reader_after(old(self).reader()@, *profile),
            final(self).nav()@ == nav_after(old(self).nav()@, *profile),
            voice_after(old(self).voice(), final(self).voice(), *profile),
            final(self).dyslexia_state() == dyslexia_after(old(self).dyslexia_state(), *profile),
            motion_after(final(self).motion_state(), *profile),
            contrast_after(old(self).contrast(), final(self).contrast(), *profile),
            blind_after(old(self).blind(), final(self).blind(), *profile),
            final(self).outbox() == old(self).outbox(),
    {
        if profile.screen_reader_enabled {
            self.screen_reader.enable();
            self.screen_reader.set_mode(profile.screen_reader_mode);
        } else {
            self.screen_reader.disable();
        }
        apply_contrast(&mut self.high_contrast, profile);
        self.keyboard_nav.set_mode(profile.navigation_mode);
        if profile.keyboard_nav_enabled {
            self.keyboard_nav.enable();
        } else {
            self.keyboard_nav.disable();
        }
        if profile.voice_control_enabled {
            self.voice_control.enable();
            match &profile.wake_word {
                Some(w) => self.voice_control.set_wake_word(w.as_str()),
                None => {},
            }
        } else {
            self.voice_control.disable();
        }
        if profile.dyslexia_mode_enabled {
            self.dyslexia.enable();
            self.dyslexia.set_font_enabled(profile.dyslexia_font);
        } else {
            self.dyslexia.disable();
        }
        apply_color_blind(&mut self.color_blind, profile);
        if profile.motion_reduction_enabled {
            self.motion.enable();
        } else {
            self.motion.disable();
        }
    }

    /// Load a stored profile by id and make it current; unknown ids are refused.
    pub fn load_profile(&mut self, id: &str) -> (r: Result<AccessibilityProfile, AccessibilityError>)
        requires
            old(self).wf(),
        ensures
            final(self).wf(),
            final(self).profiles_view() == old(self).profiles_view(),
            old(self).profiles_view().contains_key(id@) ==> {
                let p = old(self).profiles_view()[id@];
                &&& r matches Ok(q) && q == p
                &&& final(self).profile() == p
                &&& final(self).reader()@ == reader_after(old(self).reader()@, p)
                &&& final(self).nav()@ == nav_after(old(self).nav()@, p)
                &&& voice_after(old(self).voice(), final(self).voice(), p)
                &&& final(self).dyslexia_state() == dyslexia_after(old(self).dyslexia_state(), p)
                &&& motion_after(final(self).motion_state(), p)
                &&& contrast_after(old(self).contrast(), final(self).contrast(), p)
                &&& blind_after(old(self).blind(), final(self).blind(), p)
                &&& final(self).outbox().len() == old(self).outbox().len() + 1
                &&& final(self).outbox().drop_last() == old(self).outbox()
                &&& loaded_event(final(self).outbox().last(), id@)
            },
            !old(self).profiles_view().contains_key(id@) ==> {
                &&& r matches Err(AccessibilityError::ConfigError(m)) && m@ == "Profile not found: "@ + id@
                &&& *final(self) == *old(self)
            },
    {
        match self.profiles.get(id) {
            Some(p) => {
                let copy = p.duplicate();
                let result = p.duplicate();
                self.set_current_profile(copy);
                Ok(result)
            },
            None => Err(AccessibilityError::ConfigError(concat2("Profile not found: ", id))),
        }
    }

    /// Store a profile under its id and announce it (writing it to disk is the
    /// caller's).
    pub fn save_profile(&mut self, profile: &AccessibilityProfile)
        requires
            old(self).wf(),
        ensures
            final(self).wf(),
            final(self).profiles_view() == old(self).profiles_view().insert(profile.id@, *profile),
            final(self).profile() == old(self).profile(),
            final(self).reader() == old(self).reader(),
            final(self).nav() == old(self).nav(),
            final(self).voice() == old(self).voice(),
            final(self).dyslexia_state() == old(self).dyslexia_state(),
            final(self).motion_state() == old(self).motion_state(),
            final(self).outbox().len() == old(self).outbox().len() + 1,
            final(self).outbox().drop_last() == old(self).outbox(),
            saved_event(final(self).outbox().last(), profile.id@),
    {
        let p = profile.duplicate();
        let ghost before = self.profiles@;
        self.profiles.insert(profile.id.clone(), p);
        proof {
            assert forall|k: Seq<char>| #[trigger] self.profiles@.contains_key(k) implies self.profiles@[k].id@ == k by {
                if k != profile.id@ {
                    assert(before.contains_key(k));
                }
            }
        }
        let ghost before_events = self.events@;
        self.events.push(AccessibilityEvent::ProfileSaved(profile.id.clone()));
        assert(self.events@.drop_last() =~= before_events);
    }

    /// Forget a stored profile.
    pub fn delete_profile(&mut self, id: &str)
        requires
            old(self).wf(),
        ensures
            final(self).wf(),
            final(self).profiles_view() == old(self).profiles_view().remove(id@),
            final(self).profile() == old(self).profile(),
            final(self).reader() == old(self).reader(),
            final(self).nav() == old(self).nav(),
            final(self).voice() == old(self).voice(),
            final(self).dyslexia_state() == old(self).dyslexia_state(),
            final(self).motion_state() == old(self).motion_state(),
            final(self).outbox() == old(self).outbox(),
    {
        let ghost before = self.profiles@;
        self.profiles.remove(id);
        proof {
            assert forall|k: Seq<char>| #[trigger] self.profiles@.contains_key(k) implies self.profiles@[k].id@ == k by {
                assert(before.contains_key(k));
            }
        }
    }

    /// The stored profiles, in the order they were first stored.
    pub fn list_profiles(&self) -> (r: Vec<&AccessibilityProfile>)
        requires
            self.wf(),
        ensures
            r@.len() == self.profile_ids().len(),
            self.profile_ids().no_duplicates(),
            forall|k: Seq<char>| #[trigger] self.profiles_view().contains_key(k) <==> self.profile_ids().contains(k),
            forall|i: int| 0 <= i < r@.len() ==> *r@[i] == #[trigger] self.profiles_view()[self.profile_ids()[i]],
    {
        let r = self.profiles.values();
        proof { self.profiles.lemma_key_seq(); }
        r
    }

    /// A fresh default profile, stored and announced.
    pub fn create_default_profile(&mut self) -> (p: AccessibilityProfile)
        requires
            old(self).wf(),
        ensures
            final(self).wf(),
            default_profile_settings(p),
            final(self).profiles_view() == old(self).profiles_view().insert(p.id@, p),
            final(self).profile() == old(self).profile(),
            final(self).outbox().len() == old(self).outbox().len() + 1,
            final(self).outbox().drop_last() == old(self).outbox(),
            saved_event(final(self).outbox().last(), p.id@),
    {
        let p = AccessibilityProfile::default();
        self.save_profile(&p);
        p
    }

    /// Take the events waiting for the listeners.
    pub fn take_events(&mut self) -> (ev: Vec<AccessibilityEvent>)
        ensures
            ev@ == old(self).outbox(),
            final(self).outbox().len() == 0,
            final(self).profile() == old(self).profile(),
            final(self).profiles_view() == old(self).profiles_view(),
            final(self).reader() == old(self).reader(),
            final(self).nav() == old(self).nav(),
            final(self).voice() == old(self).voice(),
            final(self).dyslexia_state() == old(self).dyslexia_state(),
            final(self).motion_state() == old(self).motion_state(),
            final(self).wf() == old(self).wf(),
    {
        let mut ev: Vec<AccessibilityEvent> = Vec::new();
        std::mem::swap(&mut ev, &mut self.events);
        ev
    }

    /// Whether the current profile turns on any feature.
    pub fn is_any_enabled(&self) -> (b: bool)
        ensures b == any_on(status_of(self.profile())),
    {
        let p = &self.current_profile;
        p.screen_reader_enabled
            || p.high_contrast_enabled
            || p.dyslexia_mode_enabled
            || p.motion_reduction_enabled
            || p.voice_control_enabled
            || p.color_blind_mode.is_some()
            || p.keyboard_nav_enabled
    }

    /// The status of the current profile.
    pub fn status(&self) -> (s: AccessibilityStatus)
        ensures s == status_of(self.profile()),
    {
        let p = &self.current_profile;
        AccessibilityStatus {
            screen_reader: p.screen_reader_enabled,
            high_contrast: p.high_contrast_enabled,
            voice_control: p.voice_control_enabled,
            keyboard_nav: p.keyboard_nav_enabled,
            dyslexia_mode: p.dyslexia_mode_enabled,
            color_blind: p.color_blind_mode.is_some(),
            motion_reduction: p.motion_reduction_enabled,
        }
    }
}

} // verus!
