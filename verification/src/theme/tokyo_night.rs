//! The Tokyo Night family.

use vstd::prelude::*;

use super::{Color, Theme};

verus! {

impl Theme {
    /// Tokyo Night, the dark default.
    #[verifier::allow_in_spec]
    pub fn tokyo_night() -> Theme
        returns
            (Theme {
                background: Color::Rgb(0x1a, 0x1b, 0x26),
                surface: Color::Rgb(0x29, 0x2e, 0x42),
                surface_selected: Color::Rgb(0x3d, 0x59, 0xa1),
                accent: Color::Rgb(0x7a, 0xa2, 0xf7),
                accent_dim: Color::Rgb(0x39, 0x4b, 0x70),
                text_primary: Color::Rgb(0xc0, 0xca, 0xf5),
                text_secondary: Color::Rgb(0xa9, 0xb1, 0xd6),
                text_muted: Color::Rgb(0x56, 0x5f, 0x89),
                success: Color::Rgb(0x9e, 0xce, 0x6a),
                info: Color::Rgb(0x7d, 0xcf, 0xff),
                warning: Color::Rgb(0xff, 0x9e, 0x64),
                danger: Color::Rgb(0xf7, 0x76, 0x8e),
                destructive: Color::Rgb(0xdb, 0x4b, 0x4b),
                destructive_surface: Color::Rgb(0x37, 0x22, 0x2c),
            }),
    {
        Theme {
            background: Color::Rgb(0x1a, 0x1b, 0x26),
            surface: Color::Rgb(0x29, 0x2e, 0x42),
            surface_selected: Color::Rgb(0x3d, 0x59, 0xa1),
            accent: Color::Rgb(0x7a, 0xa2, 0xf7),
            accent_dim: Color::Rgb(0x39, 0x4b, 0x70),
            text_primary: Color::Rgb(0xc0, 0xca, 0xf5),
            text_secondary: Color::Rgb(0xa9, 0xb1, 0xd6),
            text_muted: Color::Rgb(0x56, 0x5f, 0x89),
            success: Color::Rgb(0x9e, 0xce, 0x6a),
            info: Color::Rgb(0x7d, 0xcf, 0xff),
            warning: Color::Rgb(0xff, 0x9e, 0x64),
            danger: Color::Rgb(0xf7, 0x76, 0x8e),
            destructive: Color::Rgb(0xdb, 0x4b, 0x4b),
            destructive_surface: Color::Rgb(0x37, 0x22, 0x2c),
        }
    }

    /// Tokyo Night Storm: a lighter canvas under the same hues.
    #[verifier::allow_in_spec]
    pub fn tokyo_night_storm() -> Theme
        returns
            (Theme {
                background: Color::Rgb(0x24, 0x28, 0x3b),
                surface: Color::Rgb(0x2f, 0x33, 0x4d),
                surface_selected: Color::Rgb(0x3d, 0x59, 0xa1),
                accent: Color::Rgb(0x7a, 0xa2, 0xf7),
                accent_dim: Color::Rgb(0x3b, 0x42, 0x61),
                text_primary: Color::Rgb(0xc0, 0xca, 0xf5),
                text_secondary: Color::Rgb(0xa9, 0xb1, 0xd6),
                text_muted: Color::Rgb(0x56, 0x5f, 0x89),
                success: Color::Rgb(0x9e, 0xce, 0x6a),
                info: Color::Rgb(0x7d, 0xcf, 0xff),
                warning: Color::Rgb(0xff, 0x9e, 0x64),
                danger: Color::Rgb(0xf7, 0x76, 0x8e),
                destructive: Color::Rgb(0xdb, 0x4b, 0x4b),
                destructive_surface: Color::Rgb(0x37, 0x22, 0x2c),
            }),
    {
        Theme {
            background: Color::Rgb(0x24, 0x28, 0x3b),
            surface: Color::Rgb(0x2f, 0x33, 0x4d),
            surface_selected: Color::Rgb(0x3d, 0x59, 0xa1),
            accent: Color::Rgb(0x7a, 0xa2, 0xf7),
            accent_dim: Color::Rgb(0x3b, 0x42, 0x61),
            text_primary: Color::Rgb(0xc0, 0xca, 0xf5),
            text_secondary: Color::Rgb(0xa9, 0xb1, 0xd6),
            text_muted: Color::Rgb(0x56, 0x5f, 0x89),
            success: Color::Rgb(0x9e, 0xce, 0x6a),
            info: Color::Rgb(0x7d, 0xcf, 0xff),
            warning: Color::Rgb(0xff, 0x9e, 0x64),
            danger: Color::Rgb(0xf7, 0x76, 0x8e),
            destructive: Color::Rgb(0xdb, 0x4b, 0x4b),
            destructive_surface: Color::Rgb(0x37, 0x22, 0x2c),
        }
    }

    /// Tokyo Night Day, for a light terminal.
    #[verifier::allow_in_spec]
    pub fn tokyo_night_day() -> Theme
        returns
            (Theme {
                background: Color::Rgb(0xe1, 0xe2, 0xe7),
                surface: Color::Rgb(0xd0, 0xd5, 0xe3),
                surface_selected: Color::Rgb(0xb6, 0xbf, 0xe2),
                accent: Color::Rgb(0x2e, 0x7d, 0xe9),
                accent_dim: Color::Rgb(0xa1, 0xa6, 0xc5),
                text_primary: Color::Rgb(0x37, 0x60, 0xbf),
                text_secondary: Color::Rgb(0x61, 0x72, 0xb0),
                text_muted: Color::Rgb(0x84, 0x8c, 0xb5),
                success: Color::Rgb(0x58, 0x75, 0x39),
                info: Color::Rgb(0x00, 0x71, 0x97),
                warning: Color::Rgb(0xb1, 0x5c, 0x00),
                danger: Color::Rgb(0xf5, 0x2a, 0x65),
                destructive: Color::Rgb(0xc6, 0x43, 0x43),
                destructive_surface: Color::Rgb(0xec, 0xd4, 0xdc),
            }),
    {
        Theme {
            background: Color::Rgb(0xe1, 0xe2, 0xe7),
            surface: Color::Rgb(0xd0, 0xd5, 0xe3),
            surface_selected: Color::Rgb(0xb6, 0xbf, 0xe2),
            accent: Color::Rgb(0x2e, 0x7d, 0xe9),
            accent_dim: Color::Rgb(0xa1, 0xa6, 0xc5),
            text_primary: Color::Rgb(0x37, 0x60, 0xbf),
            text_secondary: Color::Rgb(0x61, 0x72, 0xb0),
            text_muted: Color::Rgb(0x84, 0x8c, 0xb5),
            success: Color::Rgb(0x58, 0x75, 0x39),
            info: Color::Rgb(0x00, 0x71, 0x97),
            warning: Color::Rgb(0xb1, 0x5c, 0x00),
            danger: Color::Rgb(0xf5, 0x2a, 0x65),
            destructive: Color::Rgb(0xc6, 0x43, 0x43),
            destructive_surface: Color::Rgb(0xec, 0xd4, 0xdc),
        }
    }
}

} // verus!
