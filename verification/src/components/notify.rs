//! What there is to tell the user, how loudly, and for how long.

use vstd::prelude::*;

use crate::theme::{self, Style, Theme};

verus! {

/// How long a notification stays on screen, in nanoseconds: six seconds.
pub const VISIBLE_FOR: u64 = 6_000_000_000;

/// How loud a notification is.
#[derive(Debug, Clone, Copy, PartialEq, Eq, Structural)]
pub enum Severity {
    /// Neutral news: nothing failed and nothing is owed.
    Info,
    /// It worked, but not the way the user probably assumed.
    Warning,
    /// It did not happen, or something is broken.
    Error,
}

impl Severity {
    /// The style a severity is drawn in.
    #[verifier::allow_in_spec]
    pub fn style(self, theme: &Theme) -> Style
        returns
            (match self {
                Severity::Info => theme::info_text(theme),
                Severity::Warning => theme::warning_text(theme),
                Severity::Error => theme::danger_text(theme),
            }),
    {
        match self {
            Severity::Info => theme::info_text(theme),
            Severity::Warning => theme::warning_text(theme),
            Severity::Error => theme::danger_text(theme),
        }
    }
}

/// One thing to tell the user, and the moment it was said.
#[derive(Debug, PartialEq, Eq)]
pub struct Notification {
    pub text: String,
    pub severity: Severity,
    /// When it went up, on the clock the application counts by.
    pub shown_at: u64,
}

impl Clone for Notification {
    fn clone(&self) -> (copy: Self)
        ensures
            copy == *self,
    {
        Notification {
            text: self.text.clone(),
            severity: self.severity,
            shown_at: self.shown_at,
        }
    }
}

impl Notification {
    /// Whether this message has had its time as of `now`. A clock that stands
    /// before the message counts as no time at all.
    #[verifier::allow_in_spec]
    pub fn expired_at(&self, now: u64) -> bool
        returns
            now >= self.shown_at && now - self.shown_at >= VISIBLE_FOR,
    {
        now >= self.shown_at && now - self.shown_at >= VISIBLE_FOR
    }
}

/// The one notification slot: the newest message wins.
#[derive(Debug, PartialEq, Eq)]
pub struct Notifications {
    pub current: Option<Notification>,
}

impl View for Notifications {
    type V = Option<(Severity, Seq<char>, u64)>;

    /// What is on show: how loud, what it says, and since when.
    open spec fn view(&self) -> Option<(Severity, Seq<char>, u64)> {
        match self.current {
            Some(message) => Some((message.severity, message.text@, message.shown_at)),
            None => None,
        }
    }
}

impl Default for Notifications {
    fn default() -> (slot: Self)
        ensures
            slot@ is None,
    {
        Notifications { current: None }
    }
}

impl Notifications {
    /// Neutral news.
    pub fn info(&mut self, text: &str, now: u64)
        ensures
            final(self)@ == Some((Severity::Info, text@, now)),
    {
        self.push(Severity::Info, text, now);
    }

    /// It worked, but not as the user likely expected.
    pub fn warn(&mut self, text: &str, now: u64)
        ensures
            final(self)@ == Some((Severity::Warning, text@, now)),
    {
        self.push(Severity::Warning, text, now);
    }

    /// It did not happen.
    pub fn error(&mut self, text: &str, now: u64)
        ensures
            final(self)@ == Some((Severity::Error, text@, now)),
    {
        self.push(Severity::Error, text, now);
    }

    /// Takes the line down early: what succeeded makes an old failure wrong.
    pub fn clear(&mut self)
        ensures
            final(self)@ is None,
    {
        self.current = None;
    }

    /// The message to draw, if there is one.
    pub fn current(&self) -> (message: Option<&Notification>)
        ensures
            match (message, self.current) {
                (Some(shown), Some(held)) => *shown == held,
                (None, None) => true,
                _ => false,
            },
    {
        match &self.current {
            Some(message) => Some(message),
            None => None,
        }
    }

    /// Drops the message once it has had its time.
    pub fn expire(&mut self, now: u64)
        ensures
            final(self).current == (match old(self).current {
                Some(message) => if message.expired_at(now) {
                    None
                } else {
                    Some(message)
                },
                None => None,
            }),
    {
        let over = match &self.current {
            Some(message) => message.expired_at(now),
            None => false,
        };
        if over {
            self.current = None;
        }
    }

    fn push(&mut self, severity: Severity, text: &str, now: u64)
        ensures
            final(self)@ == Some((severity, text@, now)),
    {
        self.current = Some(Notification { text: text.to_owned(), severity, shown_at: now });
    }
}

/// A message is up for its whole six seconds and no longer, counted from when it
/// was said and not from the message before it.
pub proof fn law_a_message_has_its_full_time(message: Notification, now: u64)
    requires
        message.shown_at <= now,
    ensures
        message.expired_at(now) <==> now >= message.shown_at + VISIBLE_FOR,
        message.expired_at(now) <==> now - message.shown_at >= 6 * 1_000_000_000,
{
}

/// A message is not over before it was said, however the clock was set back.
pub proof fn law_a_clock_set_back_ends_nothing(message: Notification, now: u64)
    requires
        now < message.shown_at,
    ensures
        !message.expired_at(now),
{
}

/// A message is drawn as loudly as it was said: trouble in the colour of danger, a
/// surprise in that of a warning.
pub proof fn law_trouble_is_drawn_as_trouble(severity: Severity, theme: Theme)
    ensures
        severity == Severity::Error ==> severity.style(&theme) == theme::danger_text(&theme),
        severity == Severity::Warning ==> severity.style(&theme) == theme::warning_text(&theme),
        severity == Severity::Info ==> severity.style(&theme) == theme::info_text(&theme),
{
}

} // verus!
