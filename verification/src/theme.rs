//! Named colour themes.

use vstd::prelude::*;

verus! {

/// A terminal colour: a named ANSI colour or a 24-bit RGB value.
#[derive(Debug, Clone, Copy, PartialEq, Eq, Structural)]
pub enum Color {
    Cyan,
    DarkGray,
    Green,
    Yellow,
    Red,
    Rgb(u8, u8, u8),
}

/// Runtime colour palette: the semantic slots widgets draw with.
#[derive(Debug, Clone, Copy, PartialEq, Eq, Structural)]
pub struct Theme {
    pub accent: Color,
    pub dim: Color,
    pub success: Color,
    pub warn: Color,
    pub danger: Color,
    /// Background of a focused text input.
    pub input_bg_focused: Color,
    /// Background of an unfocused text input.
    pub input_bg: Color,
}

#[derive(Debug, Clone, Copy, PartialEq, Eq, Structural)]
pub enum ThemeName {
    Default,
    Tokyonight,
    Gruvbox,
}

pub open spec fn spec_next(n: ThemeName) -> ThemeName {
    match n {
        ThemeName::Default => ThemeName::Tokyonight,
        ThemeName::Tokyonight => ThemeName::Gruvbox,
        ThemeName::Gruvbox => ThemeName::Default,
    }
}

impl ThemeName {
    /// The theme after this one in the cycle default → tokyonight →
    /// gruvbox → default.
    pub fn next(self) -> (r: Self)
        ensures
            r == spec_next(self),
    {
        match self {
            ThemeName::Default => ThemeName::Tokyonight,
            ThemeName::Tokyonight => ThemeName::Gruvbox,
            ThemeName::Gruvbox => ThemeName::Default,
        }
    }

    pub fn first() -> (r: Self)
        ensures
            r == ThemeName::Default,
    {
        ThemeName::Default
    }
}

/// Cycling the theme three times returns to the theme one started from,
/// and no fewer steps do.
pub proof fn law_theme_cycle(n: ThemeName)
    ensures
        spec_next(spec_next(spec_next(n))) == n,
        spec_next(n) != n,
        spec_next(spec_next(n)) != n,
{
}

pub open spec fn spec_resolve(name: ThemeName) -> Theme {
    match name {
        ThemeName::Default => Theme {
            accent: Color::Cyan,
            dim: Color::DarkGray,
            success: Color::Green,
            warn: Color::Yellow,
            danger: Color::Red,
            input_bg_focused: Color::Rgb(40, 44, 52),
            input_bg: Color::Rgb(28, 30, 36),
        },
        ThemeName::Tokyonight => Theme {
            accent: Color::Rgb(122, 162, 247),
            dim: Color::Rgb(86, 95, 137),
            success: Color::Rgb(158, 206, 106),
            warn: Color::Rgb(224, 175, 104),
            danger: Color::Rgb(247, 118, 142),
            input_bg_focused: Color::Rgb(36, 40, 59),
            input_bg: Color::Rgb(26, 29, 43),
        },
        ThemeName::Gruvbox => Theme {
            accent: Color::Rgb(250, 189, 47),
            dim: Color::Rgb(146, 131, 116),
            success: Color::Rgb(184, 187, 38),
            warn: Color::Rgb(254, 128, 25),
            danger: Color::Rgb(251, 73, 52),
            input_bg_focused: Color::Rgb(60, 56, 54),
            input_bg: Color::Rgb(40, 40, 40),
        },
    }
}

/// The palette of a named theme.
pub fn resolve(name: ThemeName) -> (t: Theme)
    ensures
        t == spec_resolve(name),
{
    match name {
        ThemeName::Default => Theme::default(),
        ThemeName::Tokyonight => Theme {
            accent: Color::Rgb(122, 162, 247),
            dim: Color::Rgb(86, 95, 137),
            success: Color::Rgb(158, 206, 106),
            warn: Color::Rgb(224, 175, 104),
            danger: Color::Rgb(247, 118, 142),
            input_bg_focused: Color::Rgb(36, 40, 59),
            input_bg: Color::Rgb(26, 29, 43),
        },
        ThemeName::Gruvbox => Theme {
            accent: Color::Rgb(250, 189, 47),
            dim: Color::Rgb(146, 131, 116),
            success: Color::Rgb(184, 187, 38),
            warn: Color::Rgb(254, 128, 25),
            danger: Color::Rgb(251, 73, 52),
            input_bg_focused: Color::Rgb(60, 56, 54),
            input_bg: Color::Rgb(40, 40, 40),
        },
    }
}

impl Default for Theme {
    fn default() -> (t: Self)
        ensures
            t == spec_resolve(ThemeName::Default),
    {
        Theme {
            accent: Color::Cyan,
            dim: Color::DarkGray,
            success: Color::Green,
            warn: Color::Yellow,
            danger: Color::Red,
            input_bg_focused: Color::Rgb(40, 44, 52),
            input_bg: Color::Rgb(28, 30, 36),
        }
    }
}

impl Default for ThemeName {
    fn default() -> (t: Self)
        ensures
            t == ThemeName::Default,
    {
        ThemeName::Default
    }
}

} // verus!
