//! Customization: keybindings and keymaps, layouts, configuration profiles and
//! import/export formats, and the state of settings synchronization.
use vstd::prelude::*;

pub mod keybindings;
pub mod layouts;
pub mod profiles;
pub mod import_export;
pub mod settings_sync;

verus! {

/// Customization error.
#[derive(Debug)]
pub enum CustomizationError {
    KeybindingError(String),
    LayoutError(String),
    ProfileError(String),
    ImportExportError(String),
    ValidationError(String),
    Io(String),
    Serialization(String),
    SyncError(String),
}

} // verus!
