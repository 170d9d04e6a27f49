use held::view::colors::{to_rgb, Colors, Rgb, Rgba, ThemeSettings};

const WHITE: Rgb = Rgb { r: 255, g: 255, b: 255 };

fn plain() -> ThemeSettings {
    ThemeSettings { foreground: None, background: None, line_highlight: None }
}

#[test]
fn theme_colors_drop_their_opacity() {
    assert_eq!(to_rgb(Rgba { r: 1, g: 2, b: 3, a: 4 }), Rgb { r: 1, g: 2, b: 3 });
}

#[test]
fn a_theme_without_colors_uses_the_defaults() {
    let t = plain();
    assert_eq!(t.map_colors(Colors::Default), Colors::CustomForeground(WHITE));
    assert_eq!(t.map_colors(Colors::Focused), Colors::Custom(WHITE, Rgb { r: 55, g: 55, b: 55 }));
    assert_eq!(t.map_colors(Colors::Inverted), Colors::Custom(Rgb { r: 0, g: 0, b: 0 }, WHITE));
}

#[test]
fn a_theme_gives_its_colors() {
    let t = ThemeSettings {
        foreground: Some(Rgba { r: 10, g: 20, b: 30, a: 255 }),
        background: Some(Rgba { r: 1, g: 1, b: 1, a: 0 }),
        line_highlight: Some(Rgba { r: 7, g: 8, b: 9, a: 100 }),
    };
    let fg = Rgb { r: 10, g: 20, b: 30 };
    assert_eq!(t.map_colors(Colors::Default), Colors::CustomForeground(fg));
    assert_eq!(t.map_colors(Colors::Focused), Colors::Custom(fg, Rgb { r: 7, g: 8, b: 9 }));
    assert_eq!(t.map_colors(Colors::Inverted), Colors::Custom(Rgb { r: 1, g: 1, b: 1 }, fg));
    let c = Rgb { r: 100, g: 0, b: 0 };
    assert_eq!(t.map_colors(Colors::CustomFocusedForeground(c)), Colors::Custom(c, Rgb { r: 7, g: 8, b: 9 }));
    assert_eq!(t.map_colors(Colors::CustomForeground(c)), Colors::CustomForeground(c));
}

#[test]
fn the_modes_have_colors_of_their_own() {
    let t = plain();
    assert_eq!(t.map_colors(Colors::Insert), Colors::Custom(WHITE, Rgb { r: 0, g: 180, b: 0 }));
    assert_eq!(t.map_colors(Colors::Warning), Colors::Custom(WHITE, Rgb { r: 240, g: 140, b: 20 }));
    assert_eq!(t.map_colors(Colors::PathMode), Colors::Custom(WHITE, Rgb { r: 255, g: 20, b: 137 }));
    assert_eq!(t.map_colors(Colors::SearchMode), Colors::Custom(WHITE, Rgb { r: 120, g: 0, b: 120 }));
    assert_eq!(t.map_colors(Colors::SelectMode), Colors::Custom(WHITE, Rgb { r: 0, g: 120, b: 160 }));
}
