use parsec::customization::layouts::{layout_format, LayoutFormat, LayoutManager};
use parsec::customization::settings_sync::{sync_files, SettingsSync, SyncAction, SyncConfig, SyncProviderType, SyncStatus};
use parsec::customization::CustomizationError;

#[test]
fn layouts_and_profiles() {
    let mut m: LayoutManager<u32> = LayoutManager::new();
    m.add_layout("wide", 1).unwrap();
    match m.set_active_layout("tall") {
        Err(CustomizationError::LayoutError(msg)) => assert_eq!(msg, "Layout not found: tall"),
        _ => panic!("expected an error"),
    }
    m.set_active_layout("wide").unwrap();
    assert_eq!(m.active_layout(), Some(&1));
    m.create_profile("work", "wide", 0).unwrap();
    m.create_profile("broken", "gone", 0).unwrap();
    match m.set_active_profile("broken") {
        Err(CustomizationError::LayoutError(msg)) => assert_eq!(msg, "Layout not found: gone"),
        _ => panic!("expected an error"),
    }
    match m.set_active_profile("nobody") {
        Err(CustomizationError::LayoutError(msg)) => assert_eq!(msg, "Profile not found: nobody"),
        _ => panic!("expected an error"),
    }
    m.set_active_profile("work").unwrap();
    m.override_setting("sidebar", "false".to_string()).unwrap();
    m.remove_layout("wide").unwrap();
    assert!(m.active_layout().is_none());
    assert_eq!(layout_format("yaml").unwrap(), LayoutFormat::Yaml);
    assert!(layout_format("toml").is_err());
}

#[test]
fn settings_sync_run() {
    let mut s = SettingsSync::new();
    assert_eq!(s.status(), SyncStatus::Idle);
    assert!(matches!(s.begin_sync(), SyncAction::WriteLocal));
    assert_eq!(s.status(), SyncStatus::Syncing);
    s.finish_sync(Ok(()), 10).unwrap();
    assert_eq!(s.status(), SyncStatus::Success);
    assert_eq!(s.last_sync(), Some(10));
    let mut c = SyncConfig::default();
    c.provider = SyncProviderType::Custom;
    s.update_config(c).unwrap();
    let action = s.begin_sync();
    let err = match action {
        SyncAction::Refuse(e) => e,
        _ => panic!("expected a refusal"),
    };
    assert!(s.finish_sync(Err(err), 20).is_err());
    assert_eq!(s.status(), SyncStatus::Failed("Custom sync not implemented".to_string()));
    assert_eq!(sync_files().len(), 5);
}

use parsec::customization::import_export::{ExportFormat, ImportExport, ImportRecord, PackageManifest};
use parsec::customization::keybindings::{
    Chord, KeyAction, KeyBinding, KeyPress, KeySequence, KeybindingManager, Keymap, Modifier, MOD_CONTROL, MOD_SHIFT,
};
use parsec::customization::profiles::{MergeStrategy, ProfileManager};

fn binding(id: &str, key: &str, mods: Vec<Modifier>) -> KeyBinding {
    KeyBinding {
        id: id.to_string(),
        sequence: KeySequence::single(Chord::new(key.to_string(), mods)),
        action: KeyAction::Command(format!("cmd.{}", id)),
        context: "editor".to_string(),
        description: String::new(),
        enabled: true,
        group: "G".to_string(),
        when: None,
    }
}

fn keymap(name: &str, bindings: Vec<KeyBinding>) -> Keymap {
    Keymap {
        name: name.to_string(),
        description: None,
        version: "1".to_string(),
        author: None,
        bindings,
        parent: None,
        created_at: 0,
        updated_at: 0,
    }
}

#[test]
fn chord_text_and_matching() {
    let c = Chord::new("n".to_string(), vec![Modifier::Ctrl, Modifier::Shift]);
    assert_eq!(c.format(), "Ctrl+Shift+n");
    assert!(c.matches(&KeyPress::Character("n".to_string()), MOD_CONTROL | MOD_SHIFT));
    assert!(!c.matches(&KeyPress::Character("n".to_string()), MOD_CONTROL));
    let space = Chord::new("Space".to_string(), vec![]);
    assert!(space.matches(&KeyPress::Character(" ".to_string()), 0));
    assert_eq!(Modifier::Shift.to_keyboard_mod(), MOD_SHIFT);
    assert_eq!(KeySequence::new(vec![]).timeout_ms, Some(500));
}

#[test]
fn default_keymap_bindings_are_found() {
    let mut m = KeybindingManager::new("default", "1.0");
    assert_eq!(m.get_keymap("default").unwrap().bindings.len(), 15);
    let b = m.get_binding(&KeyPress::Character("s".to_string()), MOD_CONTROL).unwrap();
    assert_eq!(b.id, "file.save");
    assert!(m.get_binding(&KeyPress::Character("q".to_string()), MOD_CONTROL).is_none());
    assert!(m.check_conflicts("default").unwrap().is_empty());
    match m.set_active_keymap("vim") {
        Err(CustomizationError::KeybindingError(e)) => assert_eq!(e, "Keymap not found: vim"),
        other => panic!("unexpected {:?}", other),
    }
}

#[test]
fn conflicts_pair_bindings_with_one_sequence() {
    let mut m = KeybindingManager::new("default", "1.0");
    m.add_keymap(keymap(
        "mine",
        vec![binding("a", "k", vec![Modifier::Ctrl]), binding("b", "j", vec![]), binding("c", "k", vec![Modifier::Ctrl])],
    ));
    let cs = m.check_conflicts("mine").unwrap();
    assert_eq!(cs.len(), 1);
    assert_eq!((cs[0].binding1.as_str(), cs[0].binding2.as_str()), ("a", "c"));
    match m.check_conflicts("nope") {
        Err(CustomizationError::KeybindingError(e)) => assert_eq!(e, "Keymap not found: nope"),
        other => panic!("unexpected {:?}", other),
    }
}

#[test]
fn keymap_profiles_switch_keymaps() {
    let mut m = KeybindingManager::new("default", "1.0");
    m.add_keymap(keymap("mine", vec![binding("a", "k", vec![Modifier::Ctrl])]));
    let p = m.create_profile("work", "mine").unwrap();
    assert_eq!(p.active_keymap, "mine");
    m.set_active_profile("work").unwrap();
    assert_eq!(m.active_keymap().unwrap().name, "mine");
    assert_eq!(m.get_binding(&KeyPress::Character("k".to_string()), MOD_CONTROL).unwrap().id, "a");
    m.disable_binding("a").unwrap();
    m.override_binding(binding("z", "z", vec![])).unwrap();
    assert!(m.set_active_profile("missing").is_err());
}

#[test]
fn profile_merge_strategies() {
    let mut m = ProfileManager::new("default", "1.0");
    m.create_profile("a", None).unwrap();
    m.create_profile("b", None).unwrap();
    m.update_setting("a", "x", "1".to_string()).unwrap();
    m.update_setting("a", "y", "2".to_string()).unwrap();
    m.update_setting("b", "y", "3".to_string()).unwrap();
    let union = m.merge(vec!["a", "b"], MergeStrategy::Union).unwrap();
    assert_eq!(union.settings.get("x").map(|s| s.as_str()), Some("1"));
    assert_eq!(union.settings.get("y").map(|s| s.as_str()), Some("3"));
    assert!(union.name.starts_with("merged-"));
    assert_eq!(union.description.as_deref(), Some("Merged profile"));
    let inter = m.merge(vec!["a", "b"], MergeStrategy::Intersection).unwrap();
    assert_eq!(inter.settings.len(), 1);
    assert_eq!(inter.settings.get("y").map(|s| s.as_str()), Some("2"));
    let first = m.merge(vec!["a", "b"], MergeStrategy::FirstWins).unwrap();
    assert_eq!(first.settings.len(), 2);
    match m.merge(vec!["a", "zz", "yy"], MergeStrategy::LastWins) {
        Err(CustomizationError::ProfileError(e)) => assert_eq!(e, "Profile not found: zz"),
        other => panic!("unexpected {:?}", other.is_ok()),
    }
}

#[test]
fn profile_set_active_and_clone() {
    let mut m = ProfileManager::new("default", "1.0");
    assert_eq!(m.active_profile(), "default");
    match m.set_active("ghost") {
        Err(CustomizationError::ProfileError(e)) => assert_eq!(e, "Profile not found: ghost"),
        other => panic!("unexpected {:?}", other.is_ok()),
    }
    m.update_setting("default", "k", "\"v\"".to_string()).unwrap();
    let c = m.clone_profile("default", "copy").unwrap();
    assert_eq!(c.name, "copy");
    assert_eq!(c.theme.as_deref(), Some("dark"));
    assert_eq!(c.settings.get("k").map(|s| s.as_str()), Some("\"v\""));
    m.set_active("copy").unwrap();
    assert_eq!(m.active_profile(), "copy");
    m.delete_profile("copy").unwrap();
    assert!(m.load_profile("copy").is_err());
}

#[test]
fn import_export_formats_and_history() {
    let mut m = ImportExport::new();
    assert_eq!(m.detect_format(Some("yml")).unwrap(), ExportFormat::Yaml);
    assert_eq!(m.detect_format(Some("tgz")).unwrap(), ExportFormat::TarGz);
    assert!(m.detect_format(Some("exe")).is_err());
    assert!(m.detect_format(None).is_err());
    for i in 0..3 {
        m.record_import(ImportRecord {
            name: format!("r{}", i),
            source: "file".to_string(),
            timestamp: i,
            success: true,
            error: None,
        });
    }
    let h = m.history(Some(2));
    assert_eq!(h.iter().map(|r| r.name.as_str()).collect::<Vec<_>>(), vec!["r2", "r1"]);
    assert_eq!(m.history(None).len(), 3);
    let mut manifest = PackageManifest {
        name: String::new(),
        version: "1".to_string(),
        created_at: 0,
        description: None,
        author: None,
        dependencies: vec![],
    };
    match m.validate(&manifest) {
        Err(CustomizationError::ImportExportError(e)) => assert_eq!(e, "Package name cannot be empty"),
        other => panic!("unexpected {:?}", other),
    }
    manifest.name = "p".to_string();
    manifest.version = String::new();
    match m.validate(&manifest) {
        Err(CustomizationError::ImportExportError(e)) => assert_eq!(e, "Package version cannot be empty"),
        other => panic!("unexpected {:?}", other),
    }
    manifest.version = "1".to_string();
    assert!(m.validate(&manifest).is_ok());
}
