use parsec::accessibility::color_blind::{correct_color, ColorBlindType};
use parsec::accessibility::dyslexia::{DyslexiaMode, LineFocus};
use parsec::accessibility::high_contrast::{to_css, HighContrastManager, ThemeColors, ThemePreset};
use parsec::accessibility::keyboard_nav::{NavigationEntry, NavigationHistory};
use parsec::accessibility::motion::{AnimationLevel, MotionReduction};
use parsec::accessibility::voice_control::{CommandContext, VoiceCommandDefinition, VoiceControl, VoiceFeedback};
use parsec::accessibility::AccessibilityError;

fn entry(id: &str) -> NavigationEntry {
    NavigationEntry { element_id: id.to_string(), element_type: "button".to_string(), path: "/".to_string(), timestamp: 0 }
}

fn definition(id: &str, phrase: &str, command: &str) -> VoiceCommandDefinition {
    VoiceCommandDefinition {
        id: id.to_string(),
        phrase: phrase.to_string(),
        command: command.to_string(),
        context: CommandContext::Global,
        args_template: vec![],
        enabled: true,
    }
}

#[test]
fn history_back_then_forward_returns() {
    let mut h = NavigationHistory::new(10);
    h.add_entry(entry("a"));
    h.add_entry(entry("b"));
    assert_eq!(h.current().unwrap().element_id, "b");
    assert_eq!(h.back().unwrap().element_id, "a");
    assert_eq!(h.forward().unwrap().element_id, "b");
    assert!(h.forward().is_none());
}

#[test]
fn color_correction_never_darkens() {
    for t in [ColorBlindType::Protanopia, ColorBlindType::Deuteranomaly, ColorBlindType::Tritanopia] {
        let (r, g, b) = correct_color(true, t, 100, 200, 250);
        assert!(r >= 100 && g >= 200 && b >= 250);
    }
    assert_eq!(correct_color(true, ColorBlindType::Protanopia, 10, 20, 100), (10, 20, 120));
    assert_eq!(correct_color(false, ColorBlindType::Protanopia, 10, 20, 100), (10, 20, 100));
    assert_eq!(correct_color(true, ColorBlindType::Tritanopia, 250, 0, 5).0, 255);
}

#[test]
fn motion_setters_change_one_setting() {
    let mut m = MotionReduction::new();
    assert_eq!(m.to_css(), "");
    m.set_animation_level(AnimationLevel::Off);
    assert_eq!(m.animation_level(), AnimationLevel::Off);
    assert!(!m.reduce_blur());
    assert!(!m.to_css().is_empty());
    m.set_reduce_blur(true);
    assert!(m.reduce_blur());
    assert!(!m.is_enabled());
}

#[test]
fn dyslexia_mode_switches() {
    let mut d = DyslexiaMode::new();
    assert!(!d.is_enabled() && d.reading_guide_enabled() && d.line_focus_enabled());
    assert!(d.opendyslexic_font(vec![1, 2]).is_none());
    d.set_font_enabled(true);
    d.enable();
    assert_eq!(d.opendyslexic_font(vec![1, 2]).unwrap().data(), &[1, 2]);
    let mut f = LineFocus::new();
    f.set_current_line(10);
    assert!(f.is_focused(11) && f.is_focused(9) && !f.is_focused(12));
}

#[test]
fn voice_control_records_recognized_commands() {
    let mut v = VoiceControl::new(Some("computer".to_string()));
    v.add_command(definition("save", "save file", "file.save"));
    v.process_text("computer save file", ).unwrap();
    assert!(v.history(None).is_empty());
    v.enable();
    v.process_text("save file").unwrap();
    assert!(v.history(None).is_empty());
    v.process_text("Computer, SAVE FILE now").unwrap();
    let h = v.history(None);
    assert_eq!(h.len(), 1);
    assert_eq!(h[0].command, "file.save");
    v.process_text("computer what").unwrap();
    assert_eq!(v.history(Some(5)).len(), 1);
    assert!(v.commands().is_empty());
}

#[test]
fn voice_feedback_switches() {
    let mut f = VoiceFeedback::new();
    assert!(f.plays_confirmation());
    f.set_confirmations(false);
    assert!(!f.plays_confirmation() && f.plays_error());
    f.disable();
    assert!(!f.plays_error());
}

#[test]
fn high_contrast_css_and_themes() {
    let dark = ThemeColors::high_contrast_dark(0);
    let css = to_css(&dark);
    assert!(css.starts_with(":root {\n  --background: #000000;\n  --foreground: #ffffff;\n"));
    assert!(css.ends_with("  --shadow: #ffffff;\n}\n"));
    let inv = ThemeColors::inverted(&dark);
    assert_eq!(inv.name, "High Contrast Dark (Inverted)");
    assert_eq!(inv.preset, ThemePreset::Inverted);
    let light = ThemeColors::high_contrast_light(0);
    let mut m = HighContrastManager::new(&dark.id.clone(), dark, &light.id.clone(), light);
    match m.set_theme("missing") {
        Err(AccessibilityError::ThemeError(msg)) => assert_eq!(msg, "Theme not found: missing"),
        _ => panic!("expected an error"),
    }
    assert!(m.current_theme().is_none());
    assert_eq!(m.list_themes().len(), 2);
}

use parsec::accessibility::keyboard_nav::{FocusableElement, KeyboardNavigation, NavigationMode, MODIFIERS_EMPTY, MODIFIER_SHIFT};
use parsec::accessibility::screen_reader::{ReadingOptions, ScreenReader, ScreenReaderMode, SpeechOutput, SpeechPriority, SpeechRate, Voice};
use parsec::accessibility::{AccessibilityEngine, AccessibilityEvent, AccessibilityProfile};
use parsec::accessibility::color_blind::ColorBlindMode;

fn element(id: &str, enabled: bool) -> FocusableElement {
    FocusableElement {
        id: id.to_string(),
        element_type: "button".to_string(),
        label: id.to_string(),
        parent: None,
        children: vec![],
        enabled,
        visible: true,
        bounds: None,
    }
}

fn voice(id: &str) -> Voice {
    Voice {
        id: id.to_string(),
        name: id.to_string(),
        language: "en".to_string(),
        gender: None,
        age: None,
        is_default: false,
    }
}

#[test]
fn tab_moves_focus_in_id_order_and_wraps() {
    let mut nav = KeyboardNavigation::new(NavigationMode::Standard);
    nav.register_element(element("b", true));
    nav.register_element(element("a", true));
    nav.register_element(element("c", false));
    assert!(nav.activate().is_err());
    assert_eq!(nav.process_key("Tab", MODIFIERS_EMPTY, 1).unwrap(), true);
    assert_eq!(nav.focused().as_deref(), Some("a"));
    nav.next(2).unwrap();
    assert_eq!(nav.focused().as_deref(), Some("b"));
    nav.next(3).unwrap();
    assert_eq!(nav.focused().as_deref(), Some("a"));
    nav.process_key("Tab", MODIFIER_SHIFT, 4).unwrap();
    assert_eq!(nav.focused().as_deref(), Some("b"));
    assert!(nav.activate().is_ok());
    assert_eq!(nav.history().current().unwrap().element_id, "b");
    assert_eq!(nav.process_key("q", MODIFIERS_EMPTY, 5).unwrap(), false);
}

#[test]
fn focus_refuses_disabled_elements() {
    let mut nav = KeyboardNavigation::new(NavigationMode::Enhanced);
    nav.register_element(element("x", false));
    match nav.focus("x", 0) {
        Err(AccessibilityError::KeyboardError(m)) => assert_eq!(m, "Element not focusable: x"),
        other => panic!("unexpected {:?}", other),
    }
    assert!(nav.focused().is_none());
    nav.disable();
    assert_eq!(nav.process_key("Tab", MODIFIERS_EMPTY, 0).unwrap(), false);
}

#[test]
fn screen_reader_voices_and_utterances() {
    let mut r = ScreenReader::new(ScreenReaderMode::Auto, 200, vec![voice("v1"), voice("v2")]);
    assert!(!r.is_enabled());
    assert_eq!(r.rate().0, 200);
    r.set_voice("v2").unwrap();
    assert_eq!(r.current_voice().as_deref(), Some("v2"));
    match r.set_voice("v9") {
        Err(AccessibilityError::ScreenReaderError(m)) => assert_eq!(m, "Voice not found: v9"),
        other => panic!("unexpected {:?}", other),
    }
    assert_eq!(r.current_voice().as_deref(), Some("v2"));
    let opts = ReadingOptions {
        read_word_by_word: true,
        highlight_sentence: false,
        read_punctuation: false,
        read_whitespace: false,
        read_line_numbers: false,
        read_indentation: false,
    };
    assert_eq!(r.text_utterances("one  two three", &opts), vec!["one", "two", "three"]);
    assert_eq!(r.text_utterances("one two", &r.options()), vec!["one two"]);
    r.enable();
    r.speak(SpeechOutput::new("hi".to_string()).with_priority(SpeechPriority::High)).unwrap();
    r.read_element("OK", "button", Some("pressed")).unwrap();
    r.set_rate(SpeechRate::default());
    assert_eq!(r.rate().0, 180);
    r.disable();
    assert!(!r.is_enabled());
}

#[test]
fn engine_applies_profiles() {
    let themes = HighContrastManager::new("dark", 1u8, "light", 2u8);
    let mut e = AccessibilityEngine::new(ScreenReaderMode::OnDemand, NavigationMode::Standard, 180, vec![], None, themes);
    assert!(!e.high_contrast().is_enabled() && !e.get_color_blind().is_enabled());
    assert!(e.is_any_enabled());
    assert!(e.status().keyboard_nav && !e.status().screen_reader);
    let mut p = AccessibilityProfile::default();
    p.id = "p1".to_string();
    p.screen_reader_enabled = true;
    p.screen_reader_mode = ScreenReaderMode::Always;
    p.keyboard_nav_enabled = false;
    p.high_contrast_enabled = true;
    p.high_contrast_theme = Some("dark".to_string());
    p.motion_reduction_enabled = true;
    p.voice_control_enabled = true;
    p.wake_word = Some("hey parsec".to_string());
    p.dyslexia_mode_enabled = true;
    p.dyslexia_font = true;
    p.color_blind_mode = Some(ColorBlindMode {
        enabled: true,
        blindness_type: ColorBlindType::Tritanopia,
        severity_permille: 500,
        correct_colors: true,
    });
    e.save_profile(&p);
    let loaded = e.load_profile("p1").unwrap();
    let events = e.take_events();
    assert!(matches!(&events[..], [AccessibilityEvent::ProfileSaved(a), AccessibilityEvent::ProfileLoaded(b)] if a == "p1" && b == "p1"));
    assert!(e.take_events().is_empty());
    assert_eq!(loaded.id, "p1");
    assert!(e.high_contrast().is_enabled());
    assert_eq!(e.high_contrast().current_theme(), Some(&1u8));
    assert!(e.get_color_blind().is_enabled());
    assert_eq!(e.get_color_blind().mode().severity_permille, 500);
    assert!(e.get_voice_control().is_enabled());
    assert_eq!(e.get_voice_control().wake_word().unwrap().phrase, "hey parsec");
    assert!(e.get_dyslexia().is_enabled() && e.get_dyslexia().font_enabled());
    assert!(e.screen_reader().is_enabled());
    assert_eq!(e.screen_reader().mode(), ScreenReaderMode::Always);
    assert!(!e.keyboard_nav().is_enabled());
    assert!(e.motion().is_enabled());
    assert!(e.status().screen_reader && e.status().high_contrast);
    e.set_current_profile(AccessibilityProfile::default());
    assert!(!e.high_contrast().is_enabled() && !e.get_color_blind().is_enabled());
    assert_eq!(e.get_color_blind().mode().severity_permille, 500);
    assert!(!e.get_voice_control().is_enabled());
    assert_eq!(e.get_voice_control().wake_word().unwrap().phrase, "hey parsec");
    assert!(!e.get_dyslexia().is_enabled() && e.get_dyslexia().font_enabled());
    assert!(e.keyboard_nav().is_enabled() && !e.screen_reader().is_enabled());
    match e.load_profile("missing") {
        Err(AccessibilityError::ConfigError(m)) => assert_eq!(m, "Profile not found: missing"),
        _ => panic!("expected an error"),
    }
    e.delete_profile("p1");
    assert!(e.list_profiles().is_empty());
}

#[test]
fn dyslexia_mode_gives_a_syllable_highlighter() {
    let d = DyslexiaMode::new();
    assert_eq!(d.syllable_highlighter().unwrap().highlight_color, "#ff9800");
}
