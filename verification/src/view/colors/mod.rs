//! Colors: those of the terminal, those of a highlighting theme, and the roles text is drawn in.
pub mod map;

use vstd::prelude::*;

verus! {

/// A color of the terminal, as its red, green and blue parts.
#[derive(Debug, Clone, Copy, PartialEq, Eq, Structural)]
pub struct Rgb {
    pub r: u8,
    pub g: u8,
    pub b: u8,
}

/// A color of a highlighting theme: red, green, blue and opacity.
#[derive(Debug, Clone, Copy, PartialEq, Eq)]
pub struct Rgba {
    pub r: u8,
    pub g: u8,
    pub b: u8,
    pub a: u8,
}

/// The terminal color of a theme color: its red, green and blue parts, without the opacity.
pub fn to_rgb(highlight_color: Rgba) -> (r: Rgb)
    ensures
        r == (Rgb { r: highlight_color.r, g: highlight_color.g, b: highlight_color.b }),
{
    Rgb { r: highlight_color.r, g: highlight_color.g, b: highlight_color.b }
}

/// The role a piece of text is drawn in, or the colors given for it.
#[derive(Debug, Clone, Copy, PartialEq, Eq, Structural)]
pub enum Colors {
    Default,
    Focused,
    Inverted,
    Insert,
    Warning,
    PathMode,
    SearchMode,
    SelectMode,
    /// A foreground of its own on the default background.
    CustomForeground(Rgb),
    /// A foreground of its own on the background of the focused line.
    CustomFocusedForeground(Rgb),
    /// A foreground and a background of its own.
    Custom(Rgb, Rgb),
}

/// The colors a highlighting theme sets for the whole text: its foreground, its background and
/// the background of the focused line, each when the theme gives it.
#[derive(Debug, Clone, Copy, PartialEq, Eq)]
pub struct ThemeSettings {
    pub foreground: Option<Rgba>,
    pub background: Option<Rgba>,
    pub line_highlight: Option<Rgba>,
}

} // verus!
