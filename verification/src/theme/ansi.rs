//! The palette that leaves every hue to the terminal.

use vstd::prelude::*;

use super::{Color, Theme};

verus! {

impl Theme {
    /// The sixteen colours of the terminal itself.
    #[verifier::allow_in_spec]
    pub fn ansi() -> Theme
        returns
            (Theme {
                background: Color::Reset,
                surface: Color::Reset,
                surface_selected: Color::Blue,
                accent: Color::LightBlue,
                accent_dim: Color::Blue,
                text_primary: Color::Reset,
                text_secondary: Color::White,
                text_muted: Color::DarkGray,
                success: Color::Green,
                info: Color::Cyan,
                warning: Color::Yellow,
                danger: Color::LightRed,
                destructive: Color::Red,
                destructive_surface: Color::Reset,
            }),
    {
        Theme {
            background: Color::Reset,
            surface: Color::Reset,
            surface_selected: Color::Blue,
            accent: Color::LightBlue,
            accent_dim: Color::Blue,
            text_primary: Color::Reset,
            text_secondary: Color::White,
            text_muted: Color::DarkGray,
            success: Color::Green,
            info: Color::Cyan,
            warning: Color::Yellow,
            danger: Color::LightRed,
            destructive: Color::Red,
            destructive_surface: Color::Reset,
        }
    }
}

} // verus!
