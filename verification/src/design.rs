//! Design tools: font weights and metrics, icon sizes and categories, colour
//! notations and hexadecimal colour codes, the color picker's memory and the
//! icon browser.
use vstd::prelude::*;

pub mod font_preview;
pub mod icon_browser;
pub mod icon_packs;
pub mod custom_sets;
pub mod color_picker;

verus! {

/// Design error.
#[derive(Debug)]
pub enum DesignError {
    ColorError(String),
    FontError(String),
    SvgError(String),
    IconNotFound(String),
    InvalidFormat(String),
    Io(String),
}

} // verus!
