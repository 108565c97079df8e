//! Colours and the two colour schemes of the interface.

use vstd::prelude::*;
use crate::text::{to_lower, lowercase};

verus! {

/// A terminal colour.
#[derive(Debug, Clone, Copy, PartialEq, Eq, Structural)]
pub enum Color {
    Reset,
    Black,
    Red,
    Green,
    Yellow,
    Blue,
    Magenta,
    Cyan,
    Gray,
    DarkGray,
    LightRed,
    LightGreen,
    LightYellow,
    LightBlue,
    LightMagenta,
    LightCyan,
    White,
    Rgb(u8, u8, u8),
    Indexed(u8),
}

#[derive(Debug, Clone, Copy, PartialEq, Eq, Structural)]
pub struct Theme {
    pub active_bg: Color,
    pub active_border: Color,
    pub active_cursor_fg: Color,
    pub active_cursor_bg: Color,
    pub selected_fg: Color,
    pub inactive_bg: Color,
    pub inactive_border: Color,
    pub inactive_cursor_fg: Color,
    pub inactive_cursor_bg: Color,
    pub statusbar_bg: Color,
    pub cmdbar_bg: Color,
    pub cmdbar_key_fg: Color,
    pub ai_color: Color,
}

pub open spec fn classic_theme() -> Theme {
    Theme {
        active_bg: Color::Blue,
        active_border: Color::White,
        active_cursor_fg: Color::Black,
        active_cursor_bg: Color::Yellow,
        selected_fg: Color::Green,
        inactive_bg: Color::Black,
        inactive_border: Color::DarkGray,
        inactive_cursor_fg: Color::Yellow,
        inactive_cursor_bg: Color::DarkGray,
        statusbar_bg: Color::DarkGray,
        cmdbar_bg: Color::Blue,
        cmdbar_key_fg: Color::Yellow,
        ai_color: Color::Cyan,
    }
}

pub open spec fn dark_theme() -> Theme {
    Theme {
        active_bg: Color::Black,
        active_border: Color::Cyan,
        active_cursor_fg: Color::Black,
        active_cursor_bg: Color::Cyan,
        selected_fg: Color::Magenta,
        inactive_bg: Color::Black,
        inactive_border: Color::DarkGray,
        inactive_cursor_fg: Color::Cyan,
        inactive_cursor_bg: Color::DarkGray,
        statusbar_bg: Color::Rgb(30, 30, 30),
        cmdbar_bg: Color::Rgb(40, 40, 40),
        cmdbar_key_fg: Color::Cyan,
        ai_color: Color::Green,
    }
}

impl Theme {
    /// Blue panels, white borders, a yellow cursor.
    pub fn classic() -> (t: Theme)
        ensures
            t == classic_theme(),
    {
        Theme {
            active_bg: Color::Blue,
            active_border: Color::White,
            active_cursor_fg: Color::Black,
            active_cursor_bg: Color::Yellow,
            selected_fg: Color::Green,
            inactive_bg: Color::Black,
            inactive_border: Color::DarkGray,
            inactive_cursor_fg: Color::Yellow,
            inactive_cursor_bg: Color::DarkGray,
            statusbar_bg: Color::DarkGray,
            cmdbar_bg: Color::Blue,
            cmdbar_key_fg: Color::Yellow,
            ai_color: Color::Cyan,
        }
    }

    /// Black panels with cyan accents.
    pub fn dark() -> (t: Theme)
        ensures
            t == dark_theme(),
    {
        Theme {
            active_bg: Color::Black,
            active_border: Color::Cyan,
            active_cursor_fg: Color::Black,
            active_cursor_bg: Color::Cyan,
            selected_fg: Color::Magenta,
            inactive_bg: Color::Black,
            inactive_border: Color::DarkGray,
            inactive_cursor_fg: Color::Cyan,
            inactive_cursor_bg: Color::DarkGray,
            statusbar_bg: Color::Rgb(30, 30, 30),
            cmdbar_bg: Color::Rgb(40, 40, 40),
            cmdbar_key_fg: Color::Cyan,
            ai_color: Color::Green,
        }
    }

    /// The scheme a configured name picks: `dark` in any case, else the classic one.
    pub fn from_name(name: &str) -> (t: Theme)
        ensures
            t == (if lowercase(name@) == "dark"@ { dark_theme() } else { classic_theme() }),
    {
        let lower = to_lower(name);
        if lower.eq(&String::from_str("dark")) {
            Self::dark()
        } else {
            Self::classic()
        }
    }
}

} // verus!
