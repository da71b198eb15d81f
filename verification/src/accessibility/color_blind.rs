//! Colour blindness helpers: names and descriptions of the kinds of colour
//! blindness, the CSS filter for each, and the integer colour correction.
use vstd::prelude::*;
use crate::text::owned;

verus! {

/// Color blindness type.
#[derive(Debug, Clone, Copy, PartialEq, Eq, Structural)]
pub enum ColorBlindType {
    /// Protanopia (red-blind)
    Protanopia,
    /// Protanomaly (red-weak)
    Protanomaly,
    /// Deuteranopia (green-blind)
    Deuteranopia,
    /// Deuteranomaly (green-weak)
    Deuteranomaly,
    /// Tritanopia (blue-blind)
    Tritanopia,
    /// Tritanomaly (blue-weak)
    Tritanomaly,
    /// Achromatopsia (total color blindness)
    Achromatopsia,
    /// Achromatomaly (partial color blindness)
    Achromatomaly,
}

pub open spec fn color_blind_name(t: ColorBlindType) -> Seq<char> {
    match t {
        ColorBlindType::Protanopia => "Protanopia (Red-blind)"@,
        ColorBlindType::Protanomaly => "Protanomaly (Red-weak)"@,
        ColorBlindType::Deuteranopia => "Deuteranopia (Green-blind)"@,
        ColorBlindType::Deuteranomaly => "Deuteranomaly (Green-weak)"@,
        ColorBlindType::Tritanopia => "Tritanopia (Blue-blind)"@,
        ColorBlindType::Tritanomaly => "Tritanomaly (Blue-weak)"@,
        ColorBlindType::Achromatopsia => "Achromatopsia (Total color blindness)"@,
        ColorBlindType::Achromatomaly => "Achromatomaly (Partial color blindness)"@,
    }
}

pub open spec fn color_blind_description(t: ColorBlindType) -> Seq<char> {
    match t {
        ColorBlindType::Protanopia => "Difficulty distinguishing red and green"@,
        ColorBlindType::Protanomaly => "Reduced sensitivity to red light"@,
        ColorBlindType::Deuteranopia => "Difficulty distinguishing green and red"@,
        ColorBlindType::Deuteranomaly => "Reduced sensitivity to green light"@,
        ColorBlindType::Tritanopia => "Difficulty distinguishing blue and yellow"@,
        ColorBlindType::Tritanomaly => "Reduced sensitivity to blue light"@,
        ColorBlindType::Achromatopsia => "See only shades of gray"@,
        ColorBlindType::Achromatomaly => "Reduced color perception"@,
    }
}

/// Colour-blindness mode of a profile. The severity, a fraction from 0 to 1, is
/// kept in thousandths.
#[derive(Debug, Clone, Copy)]
pub struct ColorBlindMode {
    pub enabled: bool,
    pub blindness_type: ColorBlindType,
    pub severity_permille: u32,
    pub correct_colors: bool,
}

/// The colour-blindness simulator's switches: whether it is on and which mode
/// it simulates. (Its strength, a fraction, and the simulation itself are
/// worked out in floating point outside the library.)
#[derive(Debug, Clone, Copy)]
pub struct ColorBlindSimulator {
    enabled: bool,
    mode: ColorBlindMode,
}

impl ColorBlindSimulator {
    pub closed spec fn is_on(&self) -> bool {
        self.enabled
    }

    pub closed spec fn mode_spec(&self) -> ColorBlindMode {
        self.mode
    }

    /// A simulator, off, simulating full deuteranopia without correction.
    pub fn new() -> (s: Self)
        ensures
            !s.is_on(),
            !s.mode_spec().enabled,
            s.mode_spec().blindness_type == ColorBlindType::Deuteranopia,
            s.mode_spec().severity_permille == 1000,
            !s.mode_spec().correct_colors,
    {
        ColorBlindSimulator {
            enabled: false,
            mode: ColorBlindMode {
                enabled: false,
                blindness_type: ColorBlindType::Deuteranopia,
                severity_permille: 1000,
                correct_colors: false,
            },
        }
    }

    /// Turn the simulation on.
    pub fn enable(&mut self)
        ensures final(self).is_on(), final(self).mode_spec() == old(self).mode_spec(),
    {
        self.enabled = true;
    }

    /// Turn the simulation off.
    pub fn disable(&mut self)
        ensures !final(self).is_on(), final(self).mode_spec() == old(self).mode_spec(),
    {
        self.enabled = false;
    }

    /// Whether the simulation is on.
    pub fn is_enabled(&self) -> (b: bool)
        ensures b == self.is_on(),
    {
        self.enabled
    }

    /// Choose the mode to simulate.
    pub fn set_mode(&mut self, mode: ColorBlindMode)
        ensures final(self).mode_spec() == mode, final(self).is_on() == old(self).is_on(),
    {
        self.mode = mode;
    }

    /// The mode simulated.
    pub fn mode(&self) -> (m: ColorBlindMode)
        ensures m == self.mode_spec(),
    {
        self.mode
    }
}

impl ColorBlindType {
    /// Get display name.
    pub fn name(&self) -> (r: &'static str)
        ensures
            r@ == color_blind_name(*self),
    {
        match self {
            ColorBlindType::Protanopia => "Protanopia (Red-blind)",
            ColorBlindType::Protanomaly => "Protanomaly (Red-weak)",
            ColorBlindType::Deuteranopia => "Deuteranopia (Green-blind)",
            ColorBlindType::Deuteranomaly => "Deuteranomaly (Green-weak)",
            ColorBlindType::Tritanopia => "Tritanopia (Blue-blind)",
            ColorBlindType::Tritanomaly => "Tritanomaly (Blue-weak)",
            ColorBlindType::Achromatopsia => "Achromatopsia (Total color blindness)",
            ColorBlindType::Achromatomaly => "Achromatomaly (Partial color blindness)",
        }
    }

    /// Get description.
    pub fn description(&self) -> (r: &'static str)
        ensures
            r@ == color_blind_description(*self),
    {
        match self {
            ColorBlindType::Protanopia => "Difficulty distinguishing red and green",
            ColorBlindType::Protanomaly => "Reduced sensitivity to red light",
            ColorBlindType::Deuteranopia => "Difficulty distinguishing green and red",
            ColorBlindType::Deuteranomaly => "Reduced sensitivity to green light",
            ColorBlindType::Tritanopia => "Difficulty distinguishing blue and yellow",
            ColorBlindType::Tritanomaly => "Reduced sensitivity to blue light",
            ColorBlindType::Achromatopsia => "See only shades of gray",
            ColorBlindType::Achromatomaly => "Reduced color perception",
        }
    }
}

pub open spec fn css_filter_of(t: ColorBlindType) -> Seq<char> {
    match t {
        ColorBlindType::Protanopia => "filter: url('#protanopia');"@,
        ColorBlindType::Deuteranopia => "filter: url('#deuteranopia');"@,
        ColorBlindType::Tritanopia => "filter: url('#tritanopia');"@,
        ColorBlindType::Achromatopsia => "filter: grayscale(100%);"@,
        _ => ""@,
    }
}

/// CSS filter that simulates a kind of colour blindness (empty for the kinds
/// without a filter).
pub fn to_css_filter(blindness_type: ColorBlindType) -> (css: String)
    ensures
        css@ == css_filter_of(blindness_type),
{
    match blindness_type {
        ColorBlindType::Protanopia => owned("filter: url('#protanopia');"),
        ColorBlindType::Deuteranopia => owned("filter: url('#deuteranopia');"),
        ColorBlindType::Tritanopia => owned("filter: url('#tritanopia');"),
        ColorBlindType::Achromatopsia => owned("filter: grayscale(100%);"),
        _ => owned(""),
    }
}

/// A channel raised by a fifth and capped at 255. This is the value of
/// `(c as f32 * 1.2).min(255.0) as u8`: the `f32` product is never below the
/// true product and never reaches the next integer, so truncation gives the floor.
pub open spec fn boost(c: u8) -> u8 {
    let v = (c as int) * 6 / 5;
    if v > 255 { 255u8 } else { v as u8 }
}

/// Result of colour correction for a target kind of colour blindness.
pub open spec fn corrected(enabled: bool, target: ColorBlindType, r: u8, g: u8, b: u8) -> (u8, u8, u8) {
    if !enabled {
        (r, g, b)
    } else {
        match target {
            ColorBlindType::Protanopia | ColorBlindType::Protanomaly => (r, g, boost(b)),
            ColorBlindType::Deuteranopia | ColorBlindType::Deuteranomaly => (boost(r), g, boost(b)),
            ColorBlindType::Tritanopia | ColorBlindType::Tritanomaly => (boost(r), boost(g), b),
            _ => (r, g, b),
        }
    }
}

fn boost_channel(c: u8) -> (r: u8)
    ensures
        r == boost(c),
{
    let v: u32 = (c as u32) * 6 / 5;
    if v > 255 { 255 } else { v as u8 }
}

/// Apply colour correction: shift colours away from the ranges that the target
/// kind confuses (blue boosted for protan, red and blue for deutan, red and green
/// for tritan).
pub fn correct_color(correction_enabled: bool, target_type: ColorBlindType, r: u8, g: u8, b: u8) -> (c: (u8, u8, u8))
    ensures
        c == corrected(correction_enabled, target_type, r, g, b),
{
    if !correction_enabled {
        return (r, g, b);
    }
    match target_type {
        ColorBlindType::Protanopia | ColorBlindType::Protanomaly => (r, g, boost_channel(b)),
        ColorBlindType::Deuteranopia | ColorBlindType::Deuteranomaly => (boost_channel(r), g, boost_channel(b)),
        ColorBlindType::Tritanopia | ColorBlindType::Tritanomaly => (boost_channel(r), boost_channel(g), b),
        _ => (r, g, b),
    }
}

/// Correction never darkens a channel.
pub proof fn law_correction_never_darkens(enabled: bool, target: ColorBlindType, r: u8, g: u8, b: u8)
    ensures
        corrected(enabled, target, r, g, b).0 >= r,
        corrected(enabled, target, r, g, b).1 >= g,
        corrected(enabled, target, r, g, b).2 >= b,
{
}

/// SVG filter definitions referenced by the CSS filters.
pub fn svg_filters() -> (s: String)
    ensures
        s@ == SVG_FILTERS@,
{
    owned(SVG_FILTERS)
}

/// The SVG filter markup.
pub const SVG_FILTERS: &'static str = "\n        <svg style=\"display:none;\">\n            <defs>\n                <filter id=\"protanopia\">\n                    <feColorMatrix type=\"matrix\" values=\"\n                        0.567, 0.433, 0, 0, 0\n                        0.558, 0.442, 0, 0, 0\n                        0,     0.242, 0.758, 0, 0\n                        0,     0,     0,     1, 0\n                    \"/>\n                </filter>\n                <filter id=\"deuteranopia\">\n                    <feColorMatrix type=\"matrix\" values=\"\n                        0.625, 0.375, 0, 0, 0\n                        0.7,   0.3,   0, 0, 0\n                        0,     0.3,   0.7, 0, 0\n                        0,     0,     0,   1, 0\n                    \"/>\n                </filter>\n                <filter id=\"tritanopia\">\n                    <feColorMatrix type=\"matrix\" values=\"\n                        0.95, 0.05,  0,    0, 0\n                        0,    0.433, 0.567, 0, 0\n                        0,    0.475, 0.525, 0, 0\n                        0,    0,     0,     1, 0\n                    \"/>\n                </filter>\n            </defs>\n        </svg>\n        ";

} // verus!
