//! The application's colour palette.
//!
//! The palette is read from a `theme.json` stylesheet (the caller reads and
//! parses the file into `RawColors`); when that fails the built-in dark
//! palette is used.
use vstd::prelude::*;

verus! {

/// A colour with alpha, red, green and blue channels.
#[derive(Clone, Copy, Debug, PartialEq, Eq, Structural)]
pub struct ThemeColor {
    pub a: u8,
    pub r: u8,
    pub g: u8,
    pub b: u8,
}

/// An opaque colour.
pub open spec fn rgb(r: u8, g: u8, b: u8) -> ThemeColor {
    ThemeColor { a: 255, r, g, b }
}

/// A colour with the given alpha.
pub open spec fn argb(a: u8, r: u8, g: u8, b: u8) -> ThemeColor {
    ThemeColor { a, r, g, b }
}

fn rgb_exec(r: u8, g: u8, b: u8) -> (res: ThemeColor)
    ensures
        res == rgb(r, g, b),
{
    ThemeColor { a: 255, r, g, b }
}

fn argb_exec(a: u8, r: u8, g: u8, b: u8) -> (res: ThemeColor)
    ensures
        res == argb(a, r, g, b),
{
    ThemeColor { a, r, g, b }
}

/// A colour as it appears in `theme.json`; the alpha channel is optional.
#[derive(Clone, Copy, Debug, PartialEq, Eq, Structural)]
pub struct RawColor {
    pub r: u8,
    pub g: u8,
    pub b: u8,
    pub a: Option<u8>,
}

/// The colour a raw colour stands for: opaque when it gives no alpha.
pub open spec fn raw_color_spec(c: RawColor) -> ThemeColor {
    match c.a {
        Some(a) => argb(a, c.r, c.g, c.b),
        None => rgb(c.r, c.g, c.b),
    }
}

impl RawColor {
    /// The colour this raw colour stands for.
    pub fn to_color(&self) -> (res: ThemeColor)
        ensures
            res == raw_color_spec(*self),
    {
        match self.a {
            Some(a) => argb_exec(a, self.r, self.g, self.b),
            None => rgb_exec(self.r, self.g, self.b),
        }
    }
}

/// The colours of `theme.json`, one per palette entry.
#[derive(Clone, Copy, Debug, PartialEq, Eq, Structural)]
pub struct RawColors {
    // Brand & accent
    pub primary: RawColor,
    pub secondary: RawColor,
    pub tertiary: RawColor,
    // Status
    pub success: RawColor,
    pub warning: RawColor,
    pub error: RawColor,
    pub info: RawColor,
    // Surfaces
    pub background: RawColor,
    pub surface_primary: RawColor,
    pub surface_secondary: RawColor,
    pub surface_tertiary: RawColor,
    pub surface_inverse: RawColor,
    pub surface_inverse_secondary: RawColor,
    pub surface_inverse_tertiary: RawColor,
    // Borders
    pub border: RawColor,
    pub border_focus: RawColor,
    pub border_disabled: RawColor,
    // Text
    pub text_primary: RawColor,
    pub text_secondary: RawColor,
    pub text_placeholder: RawColor,
    pub text_inverse: RawColor,
    pub text_highlight: RawColor,
    // States
    pub focus: RawColor,
    pub active: RawColor,
    pub disabled: RawColor,
    // Utility
    pub overlay: RawColor,
    pub shadow: RawColor,
}

/// The palette the interface reads its colours from.
#[derive(Clone, Copy, Debug, PartialEq, Eq, Structural)]
pub struct Palette {
    // Brand & accent
    pub primary: ThemeColor,
    pub secondary: ThemeColor,
    pub tertiary: ThemeColor,
    // Status
    pub success: ThemeColor,
    pub warning: ThemeColor,
    pub error: ThemeColor,
    pub info: ThemeColor,
    // Surfaces
    pub background: ThemeColor,
    pub surface_primary: ThemeColor,
    pub surface_secondary: ThemeColor,
    pub surface_tertiary: ThemeColor,
    pub surface_inverse: ThemeColor,
    pub surface_inverse_secondary: ThemeColor,
    pub surface_inverse_tertiary: ThemeColor,
    // Borders
    pub border: ThemeColor,
    pub border_focus: ThemeColor,
    pub border_disabled: ThemeColor,
    // Text
    pub text_primary: ThemeColor,
    pub text_secondary: ThemeColor,
    pub text_placeholder: ThemeColor,
    pub text_inverse: ThemeColor,
    pub text_highlight: ThemeColor,
    // States
    pub focus: ThemeColor,
    pub active: ThemeColor,
    pub disabled: ThemeColor,
    // Utility
    pub overlay: ThemeColor,
    pub shadow: ThemeColor,
}

/// The palette a stylesheet stands for.
pub open spec fn palette_spec(raw: RawColors) -> Palette {
    Palette {
        primary: raw_color_spec(raw.primary),
        secondary: raw_color_spec(raw.secondary),
        tertiary: raw_color_spec(raw.tertiary),
        success: raw_color_spec(raw.success),
        warning: raw_color_spec(raw.warning),
        error: raw_color_spec(raw.error),
        info: raw_color_spec(raw.info),
        background: raw_color_spec(raw.background),
        surface_primary: raw_color_spec(raw.surface_primary),
        surface_secondary: raw_color_spec(raw.surface_secondary),
        surface_tertiary: raw_color_spec(raw.surface_tertiary),
        surface_inverse: raw_color_spec(raw.surface_inverse),
        surface_inverse_secondary: raw_color_spec(raw.surface_inverse_secondary),
        surface_inverse_tertiary: raw_color_spec(raw.surface_inverse_tertiary),
        border: raw_color_spec(raw.border),
        border_focus: raw_color_spec(raw.border_focus),
        border_disabled: raw_color_spec(raw.border_disabled),
        text_primary: raw_color_spec(raw.text_primary),
        text_secondary: raw_color_spec(raw.text_secondary),
        text_placeholder: raw_color_spec(raw.text_placeholder),
        text_inverse: raw_color_spec(raw.text_inverse),
        text_highlight: raw_color_spec(raw.text_highlight),
        focus: raw_color_spec(raw.focus),
        active: raw_color_spec(raw.active),
        disabled: raw_color_spec(raw.disabled),
        overlay: raw_color_spec(raw.overlay),
        shadow: raw_color_spec(raw.shadow),
    }
}

impl RawColors {
    /// The palette this stylesheet stands for.
    pub fn to_colors_sheet(&self) -> (res: Palette)
        ensures
            res == palette_spec(*self),
    {
        Palette {
            primary: self.primary.to_color(),
            secondary: self.secondary.to_color(),
            tertiary: self.tertiary.to_color(),
            success: self.success.to_color(),
            warning: self.warning.to_color(),
            error: self.error.to_color(),
            info: self.info.to_color(),
            background: self.background.to_color(),
            surface_primary: self.surface_primary.to_color(),
            surface_secondary: self.surface_secondary.to_color(),
            surface_tertiary: self.surface_tertiary.to_color(),
            surface_inverse: self.surface_inverse.to_color(),
            surface_inverse_secondary: self.surface_inverse_secondary.to_color(),
            surface_inverse_tertiary: self.surface_inverse_tertiary.to_color(),
            border: self.border.to_color(),
            border_focus: self.border_focus.to_color(),
            border_disabled: self.border_disabled.to_color(),
            text_primary: self.text_primary.to_color(),
            text_secondary: self.text_secondary.to_color(),
            text_placeholder: self.text_placeholder.to_color(),
            text_inverse: self.text_inverse.to_color(),
            text_highlight: self.text_highlight.to_color(),
            focus: self.focus.to_color(),
            active: self.active.to_color(),
            disabled: self.disabled.to_color(),
            overlay: self.overlay.to_color(),
            shadow: self.shadow.to_color(),
        }
    }
}

/// The built-in dark palette.
pub open spec fn fallback_palette() -> Palette {
    Palette {
        primary: rgb(103, 80, 164),
        secondary: rgb(202, 193, 227),
        tertiary: rgb(79, 61, 130),
        success: rgb(129, 199, 132),
        warning: rgb(255, 200, 120),
        error: rgb(229, 115, 115),
        info: rgb(100, 181, 246),
        background: rgb(30, 30, 30),
        surface_primary: rgb(40, 40, 40),
        surface_secondary: rgb(20, 20, 20),
        surface_tertiary: rgb(65, 65, 65),
        surface_inverse: rgb(45, 55, 70),
        surface_inverse_secondary: rgb(25, 25, 35),
        surface_inverse_tertiary: rgb(60, 60, 70),
        border: rgb(55, 55, 55),
        border_focus: rgb(110, 110, 110),
        border_disabled: rgb(80, 80, 80),
        text_primary: rgb(245, 245, 245),
        text_secondary: rgb(200, 200, 200),
        text_placeholder: rgb(150, 150, 160),
        text_inverse: rgb(220, 220, 230),
        text_highlight: rgb(180, 180, 190),
        focus: rgb(100, 100, 120),
        active: rgb(70, 70, 70),
        disabled: rgb(50, 50, 50),
        overlay: argb(180, 0, 0, 0),
        shadow: argb(120, 0, 0, 0),
    }
}

/// The palette used when `theme.json` cannot be loaded; it mirrors the
/// values shipped in the stylesheet.
pub fn fallback_colors() -> (res: Palette)
    ensures
        res == fallback_palette(),
{
    Palette {
        primary: rgb_exec(103, 80, 164),
        secondary: rgb_exec(202, 193, 227),
        tertiary: rgb_exec(79, 61, 130),
        success: rgb_exec(129, 199, 132),
        warning: rgb_exec(255, 200, 120),
        error: rgb_exec(229, 115, 115),
        info: rgb_exec(100, 181, 246),
        background: rgb_exec(30, 30, 30),
        surface_primary: rgb_exec(40, 40, 40),
        surface_secondary: rgb_exec(20, 20, 20),
        surface_tertiary: rgb_exec(65, 65, 65),
        surface_inverse: rgb_exec(45, 55, 70),
        surface_inverse_secondary: rgb_exec(25, 25, 35),
        surface_inverse_tertiary: rgb_exec(60, 60, 70),
        border: rgb_exec(55, 55, 55),
        border_focus: rgb_exec(110, 110, 110),
        border_disabled: rgb_exec(80, 80, 80),
        text_primary: rgb_exec(245, 245, 245),
        text_secondary: rgb_exec(200, 200, 200),
        text_placeholder: rgb_exec(150, 150, 160),
        text_inverse: rgb_exec(220, 220, 230),
        text_highlight: rgb_exec(180, 180, 190),
        focus: rgb_exec(100, 100, 120),
        active: rgb_exec(70, 70, 70),
        disabled: rgb_exec(50, 50, 50),
        overlay: argb_exec(180, 0, 0, 0),
        shadow: argb_exec(120, 0, 0, 0),
    }
}

/// The palette of a stylesheet, or the built-in palette when there is none.
pub fn palette_or_fallback(raw: Option<RawColors>) -> (res: Palette)
    ensures
        res == match raw {
            Some(r) => palette_spec(r),
            None => fallback_palette(),
        },
{
    match raw {
        Some(r) => r.to_colors_sheet(),
        None => fallback_colors(),
    }
}

} // verus!
