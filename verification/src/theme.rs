//! Color themes and the styles computed from them.

use vstd::prelude::*;
use crate::text::vec_eq_str;
use crate::text::chars_of;

verus! {

/// Built-in color themes: `Default` for dark terminals, `Light` for light ones.
#[derive(Clone, Copy, Debug, PartialEq, Eq, Structural)]
pub enum Theme {
    Default,
    Light,
}

impl Theme {
    pub fn default() -> (t: Theme)
        ensures
            t == Theme::Default,
    {
        Theme::Default
    }

    /// Parses a theme name from the configuration: `"light"` is `Light`, anything
    /// else (`""`, `"default"`, unknown names) is `Default`.
    pub fn from_str(s: &str) -> (t: Theme)
        ensures
            t == (if s@ == "light"@ {
                Theme::Light
            } else {
                Theme::Default
            }),
    {
        let v = chars_of(s);
        if vec_eq_str(&v, "light") {
            Theme::Light
        } else {
            Theme::Default
        }
    }
}

/// The next theme in the fixed cycle.
pub open spec fn next_theme(t: Theme) -> Theme {
    match t {
        Theme::Default => Theme::Light,
        Theme::Light => Theme::Default,
    }
}

pub fn cycle_theme(current: Theme) -> (t: Theme)
    ensures
        t == next_theme(current),
{
    match current {
        Theme::Default => Theme::Light,
        Theme::Light => Theme::Default,
    }
}

/// The configuration name of a theme.
pub open spec fn theme_name(t: Theme) -> Seq<char> {
    match t {
        Theme::Default => "default"@,
        Theme::Light => "light"@,
    }
}

pub fn theme_name_exec(t: Theme) -> (s: String)
    ensures
        s@ == theme_name(t),
{
    match t {
        Theme::Default => String::from_str("default"),
        Theme::Light => String::from_str("light"),
    }
}

/// Foreground colors the themes use.
#[derive(Clone, Copy, Debug, PartialEq, Eq, Structural)]
pub enum Color {
    LightRed,
    Yellow,
    Cyan,
    Blue,
    Magenta,
    Green,
    Red,
}

/// A text style: an optional foreground color and the bold modifier.
#[derive(Clone, Copy, Debug, PartialEq, Eq, Structural)]
pub struct Style {
    pub fg: Option<Color>,
    pub bold: bool,
}

pub open spec fn style(fg: Option<Color>, bold: bool) -> Style {
    Style { fg, bold }
}

/// Styles for priority (A), (B), (C) tasks and for overdue tasks.
#[derive(Clone, Copy, Debug, PartialEq, Eq, Structural)]
pub struct StyleSheet {
    pub priority_a: Style,
    pub priority_b: Style,
    pub priority_c: Style,
    pub overdue: Style,
}

/// The style sheet of a theme. Without color, every color is dropped and only
/// the bold of the overdue style is kept.
pub open spec fn sheet_of(theme: Theme, no_color: bool) -> StyleSheet {
    if no_color {
        StyleSheet {
            priority_a: style(None, false),
            priority_b: style(None, false),
            priority_c: style(None, false),
            overdue: style(None, true),
        }
    } else {
        match theme {
            Theme::Default => StyleSheet {
                priority_a: style(Some(Color::LightRed), false),
                priority_b: style(Some(Color::Yellow), false),
                priority_c: style(Some(Color::Cyan), false),
                overdue: style(Some(Color::LightRed), true),
            },
            Theme::Light => StyleSheet {
                priority_a: style(Some(Color::Blue), false),
                priority_b: style(Some(Color::Magenta), false),
                priority_c: style(Some(Color::Green), false),
                overdue: style(Some(Color::Red), true),
            },
        }
    }
}

impl StyleSheet {
    pub fn from_theme(theme: Theme, no_color: bool) -> (s: StyleSheet)
        ensures
            s == sheet_of(theme, no_color),
    {
        if no_color {
            StyleSheet {
                priority_a: Style { fg: None, bold: false },
                priority_b: Style { fg: None, bold: false },
                priority_c: Style { fg: None, bold: false },
                overdue: Style { fg: None, bold: true },
            }
        } else {
            match theme {
                Theme::Default => StyleSheet {
                    priority_a: Style { fg: Some(Color::LightRed), bold: false },
                    priority_b: Style { fg: Some(Color::Yellow), bold: false },
                    priority_c: Style { fg: Some(Color::Cyan), bold: false },
                    overdue: Style { fg: Some(Color::LightRed), bold: true },
                },
                Theme::Light => StyleSheet {
                    priority_a: Style { fg: Some(Color::Blue), bold: false },
                    priority_b: Style { fg: Some(Color::Magenta), bold: false },
                    priority_c: Style { fg: Some(Color::Green), bold: false },
                    overdue: Style { fg: Some(Color::Red), bold: true },
                },
            }
        }
    }
}

} // verus!
