//! The colors of the roles of text under a highlighting theme.
use crate::view::colors::{to_rgb, Colors, Rgb, Rgba, ThemeSettings};
use vstd::prelude::*;

verus! {

/// A terminal color from its parts.
pub open spec fn rgb(r: u8, g: u8, b: u8) -> Rgb {
    Rgb { r, g, b }
}

/// The terminal color of theme color `c` when the theme gives it, else `default`.
pub open spec fn theme_color(c: Option<Rgba>, default: Rgb) -> Rgb {
    match c {
        Some(x) => rgb(x.r, x.g, x.b),
        None => default,
    }
}

/// The colors of the role `colors` under theme `t`: text in the theme's foreground (white when
/// it gives none) on its background (black) or on its focused-line background (dark gray);
/// the modes in white on a color of their own; colors given already stay as they are, a
/// focused foreground taking the focused-line background.
pub open spec fn mapped(t: ThemeSettings, colors: Colors) -> Colors {
    let fg = theme_color(t.foreground, rgb(255, 255, 255));
    let bg = theme_color(t.background, rgb(0, 0, 0));
    let alt_bg = theme_color(t.line_highlight, rgb(55, 55, 55));
    let white = rgb(255, 255, 255);
    match colors {
        Colors::Default => Colors::CustomForeground(fg),
        Colors::Focused => Colors::Custom(fg, alt_bg),
        Colors::Inverted => Colors::Custom(bg, fg),
        Colors::Insert => Colors::Custom(white, rgb(0, 180, 0)),
        Colors::Warning => Colors::Custom(white, rgb(240, 140, 20)),
        Colors::PathMode => Colors::Custom(white, rgb(255, 20, 137)),
        Colors::SearchMode => Colors::Custom(white, rgb(120, 0, 120)),
        Colors::SelectMode => Colors::Custom(white, rgb(0, 120, 160)),
        Colors::CustomForeground(c) => Colors::CustomForeground(c),
        Colors::CustomFocusedForeground(c) => Colors::Custom(c, alt_bg),
        Colors::Custom(f, b) => Colors::Custom(f, b),
    }
}

fn theme_rgb(c: Option<Rgba>, default: Rgb) -> (r: Rgb)
    ensures
        r == theme_color(c, default),
{
    match c {
        Some(x) => to_rgb(x),
        None => default,
    }
}

impl ThemeSettings {
    /// The colors of the role `colors` under this theme (see `mapped`).
    pub fn map_colors(&self, colors: Colors) -> (r: Colors)
        ensures
            r == mapped(*self, colors),
    {
        let fg = theme_rgb(self.foreground, Rgb { r: 255, g: 255, b: 255 });
        let bg = theme_rgb(self.background, Rgb { r: 0, g: 0, b: 0 });
        let alt_bg = theme_rgb(self.line_highlight, Rgb { r: 55, g: 55, b: 55 });
        let white = Rgb { r: 255, g: 255, b: 255 };
        match colors {
            Colors::Default => Colors::CustomForeground(fg),
            Colors::Focused => Colors::Custom(fg, alt_bg),
            Colors::Inverted => Colors::Custom(bg, fg),
            Colors::Insert => Colors::Custom(white, Rgb { r: 0, g: 180, b: 0 }),
            Colors::Warning => Colors::Custom(white, Rgb { r: 240, g: 140, b: 20 }),
            Colors::PathMode => Colors::Custom(white, Rgb { r: 255, g: 20, b: 137 }),
            Colors::SearchMode => Colors::Custom(white, Rgb { r: 120, g: 0, b: 120 }),
            Colors::SelectMode => Colors::Custom(white, Rgb { r: 0, g: 120, b: 160 }),
            Colors::CustomForeground(c) => Colors::CustomForeground(c),
            Colors::CustomFocusedForeground(c) => Colors::Custom(c, alt_bg),
            Colors::Custom(f, b) => Colors::Custom(f, b),
        }
    }
}

/// Colors given already keep their foreground under any theme, and keep their background too
/// unless it is the focused-line background that a focused foreground asks for.
pub proof fn law_given_colors_keep_foreground(t: ThemeSettings, c: Rgb, d: Rgb)
    ensures
        mapped(t, Colors::CustomForeground(c)) == Colors::CustomForeground(c),
        mapped(t, Colors::Custom(c, d)) == Colors::Custom(c, d),
        mapped(t, Colors::CustomFocusedForeground(c)) matches Colors::Custom(f, _) && f == c,
{
}

} // verus!
