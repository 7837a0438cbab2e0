//! The one place a colour is chosen.
//!
//! Every name says what a colour means, never what it is. A [`Theme`] holds the
//! base tokens; each composed style is derived from them on every call, so a
//! palette cannot set a colour in one place and forget its twin in another.

use vstd::prelude::*;

use crate::vcs::Tone;

mod ansi;
mod catppuccin;
mod gruvbox;
pub mod scheme;
mod tokyo_night;

verus! {

/// A hue: one of the terminal's own, or an exact one.
#[derive(Debug, Clone, Copy, PartialEq, Eq, Structural)]
pub enum Color {
    Reset,
    Red,
    Green,
    Yellow,
    Blue,
    Cyan,
    White,
    DarkGray,
    LightRed,
    LightBlue,
    Rgb(u8, u8, u8),
}

/// How a run of text is drawn.
#[derive(Debug, Clone, Copy, PartialEq, Eq)]
pub struct Style {
    pub fg: Option<Color>,
    pub bg: Option<Color>,
    pub bold: bool,
    pub italic: bool,
}

impl Style {
    /// The style that changes nothing.
    #[verifier::allow_in_spec]
    pub fn plain() -> Style
        returns
            (Style { fg: None, bg: None, bold: false, italic: false }),
    {
        Style { fg: None, bg: None, bold: false, italic: false }
    }

    /// The same style in bold.
    #[verifier::allow_in_spec]
    pub fn bold(self) -> Style
        returns
            (Style { bold: true, ..self }),
    {
        Style { bold: true, ..self }
    }

    /// The same style in italics.
    #[verifier::allow_in_spec]
    pub fn italic(self) -> Style
        returns
            (Style { italic: true, ..self }),
    {
        Style { italic: true, ..self }
    }
}

/// A complete palette: the base tokens every style is built from.
#[derive(Debug, Clone, Copy, PartialEq, Eq, Structural)]
pub struct Theme {
    /// The application's base canvas.
    pub background: Color,
    /// A raised surface: popup fills and anything above the canvas.
    pub surface: Color,
    /// The selection band.
    pub surface_selected: Color,
    /// The colour of attention: active headers, focused borders, key hints.
    pub accent: Color,
    /// The accent at rest: separators, scrollbar tracks.
    pub accent_dim: Color,
    /// The thing the user is reading.
    pub text_primary: Color,
    /// Supporting detail beside the primary text.
    pub text_secondary: Color,
    /// Present but deliberately quiet.
    pub text_muted: Color,
    /// Everything is as it should be.
    pub success: Color,
    /// Neutral news that needs no action.
    pub info: Color,
    /// Something needs attention but nothing is broken.
    pub warning: Color,
    /// Something is wrong.
    pub danger: Color,
    /// Reserved for actions that destroy something unrecoverable.
    pub destructive: Color,
    /// The background behind a destructive choice.
    pub destructive_surface: Color,
}

impl Theme {
    /// Where a status tone becomes a colour: the only such mapping.
    #[verifier::allow_in_spec]
    pub fn tone(&self, tone: Tone) -> Color
        returns
            (match tone {
                Tone::Muted => self.text_muted,
                Tone::Good => self.success,
                Tone::Info => self.info,
                Tone::Warn => self.warning,
                Tone::Danger => self.danger,
            }),
    {
        match tone {
            Tone::Muted => self.text_muted,
            Tone::Good => self.success,
            Tone::Info => self.info,
            Tone::Warn => self.warning,
            Tone::Danger => self.danger,
        }
    }
}

impl Default for Theme {
    fn default() -> (theme: Self)
        ensures
            theme == Theme::tokyo_night(),
    {
        Self::tokyo_night()
    }
}

/// Everything is as it should be.
#[verifier::allow_in_spec]
pub fn success(theme: &Theme) -> Color
    returns
        theme.success,
{
    theme.success
}

/// Neutral news that needs no action.
#[verifier::allow_in_spec]
pub fn info(theme: &Theme) -> Color
    returns
        theme.info,
{
    theme.info
}

/// Something needs attention but nothing is broken.
#[verifier::allow_in_spec]
pub fn warning(theme: &Theme) -> Color
    returns
        theme.warning,
{
    theme.warning
}

/// Something is wrong.
#[verifier::allow_in_spec]
pub fn danger(theme: &Theme) -> Color
    returns
        theme.danger,
{
    theme.danger
}

/// Reserved for actions that destroy something unrecoverable.
#[verifier::allow_in_spec]
pub fn destructive(theme: &Theme) -> Color
    returns
        theme.destructive,
{
    theme.destructive
}

/// The background behind a destructive choice.
#[verifier::allow_in_spec]
pub fn destructive_surface(theme: &Theme) -> Color
    returns
        theme.destructive_surface,
{
    theme.destructive_surface
}

/// The colour of a status tone.
#[verifier::allow_in_spec]
pub fn tone(theme: &Theme, tone: Tone) -> Color
    returns
        theme.tone(tone),
{
    theme.tone(tone)
}

/// Text carrying a status tone, for a status spelt out in words.
#[verifier::allow_in_spec]
pub fn tone_text(theme: &Theme, tone: Tone) -> Style
    returns
        (Style { fg: Some(theme.tone(tone)), bg: None, bold: false, italic: false }),
{
    Style { fg: Some(theme.tone(tone)), bg: None, bold: false, italic: false }
}

/// The application canvas behind the main panel.
#[verifier::allow_in_spec]
pub fn canvas(theme: &Theme) -> Style
    returns
        (Style { fg: None, bg: Some(theme.background), bold: false, italic: false }),
{
    Style { fg: None, bg: Some(theme.background), bold: false, italic: false }
}

/// The fill of a popup, so it reads as sitting above the canvas.
#[verifier::allow_in_spec]
pub fn popup_surface(theme: &Theme) -> Style
    returns
        (Style { fg: Some(theme.text_primary), bg: Some(theme.surface), bold: false, italic: false }),
{
    Style { fg: Some(theme.text_primary), bg: Some(theme.surface), bold: false, italic: false }
}

/// The selected row in any list.
#[verifier::allow_in_spec]
pub fn selected_row(theme: &Theme) -> Style
    returns
        (Style { fg: Some(theme.text_primary), bg: Some(theme.surface_selected), bold: true, italic: false }),
{
    Style { fg: Some(theme.text_primary), bg: Some(theme.surface_selected), bold: true, italic: false }
}

/// A panel border at rest.
#[verifier::allow_in_spec]
pub fn border(theme: &Theme) -> Style
    returns
        (Style { fg: Some(theme.text_muted), bg: None, bold: false, italic: false }),
{
    Style { fg: Some(theme.text_muted), bg: None, bold: false, italic: false }
}

/// The border of whatever currently owns the keyboard.
#[verifier::allow_in_spec]
pub fn border_focused(theme: &Theme) -> Style
    returns
        (Style { fg: Some(theme.accent), bg: None, bold: false, italic: false }),
{
    Style { fg: Some(theme.accent), bg: None, bold: false, italic: false }
}

/// The border of an input inside a focused popup, one step louder than the popup.
#[verifier::allow_in_spec]
pub fn border_input_focused(theme: &Theme) -> Style
    returns
        (Style { fg: Some(theme.accent), bg: None, bold: true, italic: false }),
{
    Style { fg: Some(theme.accent), bg: None, bold: true, italic: false }
}

/// The border of a dialog that is about to destroy something.
#[verifier::allow_in_spec]
pub fn border_destructive(theme: &Theme) -> Style
    returns
        (Style { fg: Some(theme.destructive), bg: None, bold: true, italic: false }),
{
    Style { fg: Some(theme.destructive), bg: None, bold: true, italic: false }
}

/// An active header.
#[verifier::allow_in_spec]
pub fn title(theme: &Theme) -> Style
    returns
        (Style { fg: Some(theme.accent), bg: None, bold: true, italic: false }),
{
    Style { fg: Some(theme.accent), bg: None, bold: true, italic: false }
}

/// Body text.
#[verifier::allow_in_spec]
pub fn text(theme: &Theme) -> Style
    returns
        (Style { fg: Some(theme.text_primary), bg: None, bold: false, italic: false }),
{
    Style { fg: Some(theme.text_primary), bg: None, bold: false, italic: false }
}

/// Supporting detail.
#[verifier::allow_in_spec]
pub fn secondary(theme: &Theme) -> Style
    returns
        (Style { fg: Some(theme.text_secondary), bg: None, bold: false, italic: false }),
{
    Style { fg: Some(theme.text_secondary), bg: None, bold: false, italic: false }
}

/// Quiet chrome: hints, counts, footer labels.
#[verifier::allow_in_spec]
pub fn muted(theme: &Theme) -> Style
    returns
        (Style { fg: Some(theme.text_muted), bg: None, bold: false, italic: false }),
{
    Style { fg: Some(theme.text_muted), bg: None, bold: false, italic: false }
}

/// Structural rules: separators, scrollbars.
#[verifier::allow_in_spec]
pub fn rule(theme: &Theme) -> Style
    returns
        (Style { fg: Some(theme.accent_dim), bg: None, bold: false, italic: false }),
{
    Style { fg: Some(theme.accent_dim), bg: None, bold: false, italic: false }
}

/// A key name in the footer.
#[verifier::allow_in_spec]
pub fn key(theme: &Theme) -> Style
    returns
        (Style { fg: Some(theme.accent), bg: None, bold: true, italic: false }),
{
    Style { fg: Some(theme.accent), bg: None, bold: true, italic: false }
}

/// A key that carries out a destructive action.
#[verifier::allow_in_spec]
pub fn key_destructive(theme: &Theme) -> Style
    returns
        (Style { fg: Some(theme.destructive), bg: None, bold: true, italic: false }),
{
    Style { fg: Some(theme.destructive), bg: None, bold: true, italic: false }
}

/// A key that backs safely out.
#[verifier::allow_in_spec]
pub fn key_safe(theme: &Theme) -> Style
    returns
        (Style { fg: Some(theme.success), bg: None, bold: true, italic: false }),
{
    Style { fg: Some(theme.success), bg: None, bold: true, italic: false }
}

/// A success message.
#[verifier::allow_in_spec]
pub fn success_text(theme: &Theme) -> Style
    returns
        (Style { fg: Some(theme.success), bg: None, bold: true, italic: false }),
{
    Style { fg: Some(theme.success), bg: None, bold: true, italic: false }
}

/// An informational message: the only severity that is not bold.
#[verifier::allow_in_spec]
pub fn info_text(theme: &Theme) -> Style
    returns
        (Style { fg: Some(theme.info), bg: None, bold: false, italic: false }),
{
    Style { fg: Some(theme.info), bg: None, bold: false, italic: false }
}

/// A warning message.
#[verifier::allow_in_spec]
pub fn warning_text(theme: &Theme) -> Style
    returns
        (Style { fg: Some(theme.warning), bg: None, bold: true, italic: false }),
{
    Style { fg: Some(theme.warning), bg: None, bold: true, italic: false }
}

/// An error message.
#[verifier::allow_in_spec]
pub fn danger_text(theme: &Theme) -> Style
    returns
        (Style { fg: Some(theme.danger), bg: None, bold: true, italic: false }),
{
    Style { fg: Some(theme.danger), bg: None, bold: true, italic: false }
}

/// Each style takes its colour from the token that says what it means, and only
/// what asks for attention is bold.
pub proof fn law_a_style_takes_the_colour_of_its_meaning(theme: Theme)
    ensures
        text(&theme).fg == Some(theme.text_primary) && !text(&theme).bold,
        secondary(&theme).fg == Some(theme.text_secondary) && !secondary(&theme).bold,
        muted(&theme).fg == Some(theme.text_muted) && !muted(&theme).bold,
        title(&theme).fg == Some(theme.accent) && title(&theme).bold,
        key(&theme).fg == Some(theme.accent) && key(&theme).bold,
        key_safe(&theme).fg == Some(theme.success) && key_safe(&theme).bold,
        key_destructive(&theme).fg == Some(theme.destructive) && key_destructive(&theme).bold,
        success_text(&theme).fg == Some(theme.success) && success_text(&theme).bold,
        info_text(&theme).fg == Some(theme.info) && !info_text(&theme).bold,
        warning_text(&theme).fg == Some(theme.warning) && warning_text(&theme).bold,
        danger_text(&theme).fg == Some(theme.danger) && danger_text(&theme).bold,
        border(&theme).fg == Some(theme.text_muted) && !border(&theme).bold,
        border_focused(&theme).fg == Some(theme.accent) && !border_focused(&theme).bold,
        border_input_focused(&theme).fg == Some(theme.accent) && border_input_focused(&theme).bold,
        border_destructive(&theme).fg == Some(theme.destructive) && border_destructive(
            &theme,
        ).bold,
        rule(&theme).fg == Some(theme.accent_dim) && !rule(&theme).bold,
        canvas(&theme).bg == Some(theme.background),
        popup_surface(&theme).bg == Some(theme.surface) && popup_surface(&theme).fg == Some(
            theme.text_primary,
        ),
        selected_row(&theme).bg == Some(theme.surface_selected) && selected_row(&theme).bold,
{
}

/// A status is coloured by how it stands, wherever it is told.
pub proof fn law_a_tone_has_its_colour(theme: Theme, tone: Tone)
    ensures
        tone_text(&theme, tone).fg == Some(theme.tone(tone)) && !tone_text(&theme, tone).bold,
        tone == Tone::Muted ==> theme.tone(tone) == theme.text_muted,
        tone == Tone::Good ==> theme.tone(tone) == theme.success,
        tone == Tone::Info ==> theme.tone(tone) == theme.info,
        tone == Tone::Warn ==> theme.tone(tone) == theme.warning,
        tone == Tone::Danger ==> theme.tone(tone) == theme.danger,
{
}

} // verus!
