//! The single stream of things the application reacts to.

use vstd::prelude::*;

use crate::app::App;
use crate::components::EventState;
use crate::jobs::JobResult;
use crate::keymap::KeyEvent;
use crate::Outcome;

verus! {

/// Everything the loop can be woken by.
#[derive(Debug, PartialEq, Eq)]
pub enum AppEvent {
    /// A key press.
    Key(KeyEvent),
    /// A paste, delivered whole.
    Paste(String),
    /// The clock.
    Tick,
    /// A finished job.
    Job(JobResult),
}

/// Which half of a keystroke a terminal reports.
#[derive(Debug, Clone, Copy, PartialEq, Eq, Structural)]
pub enum KeyEventKind {
    Press,
    Repeat,
    Release,
}

/// What a terminal reports.
#[derive(Debug, PartialEq, Eq)]
pub enum Input {
    Key(KeyEvent, KeyEventKind),
    Paste(String),
    /// The frame changed size: the next event draws it anew.
    Resize,
    /// The mouse and the focus are bound to nothing.
    Other,
}

/// The event an input is forwarded as. A key counts once, on its press, also on
/// terminals that report its release.
pub fn forwarded(input: Input) -> (event: Option<AppEvent>)
    ensures
        event == (match input {
            Input::Key(key, KeyEventKind::Press) => Some(AppEvent::Key(key)),
            Input::Paste(text) => Some(AppEvent::Paste(text)),
            _ => None,
        }),
{
    match input {
        Input::Key(key, KeyEventKind::Press) => Some(AppEvent::Key(key)),
        Input::Paste(text) => Some(AppEvent::Paste(text)),
        _ => None,
    }
}

impl App {
    /// How a session ends that has just been left.
    pub open spec fn outcome(self) -> Outcome {
        match self.selected_path {
            Some(path) => Outcome::Selected(path),
            None => Outcome::Quit,
        }
    }

    /// What an event does, and how the session ends if it does.
    pub open spec fn event_handled(
        self,
        event: AppEvent,
        outcome: Option<Outcome>,
        next: App,
    ) -> bool {
        match event {
            AppEvent::Key(key) => exists|state: EventState, left: App|
                {
                    &&& #[trigger] self.key_handled(key, state, left)
                    &&& if state is Exit {
                        outcome == Some(left.outcome()) && next == (App {
                            selected_path: None::<String>,
                            ..left
                        })
                    } else {
                        outcome is None && next == left
                    }
                },
            AppEvent::Paste(text) => outcome is None && self.pasted(text@, next),
            AppEvent::Tick => outcome is None && self.ticked(next),
            AppEvent::Job(result) => outcome is None && self.job_handled(result, next),
        }
    }

    /// Acts on an event. A session ends with a key: with the space that was
    /// picked, or with none.
    pub fn handle_event(&mut self, event: AppEvent) -> (outcome: Option<Outcome>)
        requires
            old(self).wf(),
            event matches AppEvent::Job(result) ==> old(self).has_room_for(result.outcome),
        ensures
            final(self).wf(),
            old(self).event_handled(event, outcome, *final(self)),
    {
        match event {
            AppEvent::Key(key) => {
                let state = self.handle_key(key);
                let ghost left = *self;
                assert(old(self).key_handled(key, state, left));
                if matches!(state, EventState::Exit) {
                    return Some(
                        match self.selected_path.take() {
                            Some(path) => Outcome::Selected(path),
                            None => Outcome::Quit,
                        },
                    );
                }
                None
            },
            AppEvent::Paste(text) => {
                self.handle_paste(text.as_str());
                None
            },
            AppEvent::Tick => {
                self.on_tick();
                None
            },
            AppEvent::Job(result) => {
                self.handle_job(result);
                None
            },
        }
    }
}

/// A session ends where a key leaves it, with the path that was picked or with
/// none, and the path is handed out once; nothing that is no key ends one.
pub proof fn law_a_session_ends_with_what_was_picked(
    app: App,
    event: AppEvent,
    outcome: Option<Outcome>,
    next: App,
)
    requires
        app.event_handled(event, outcome, next),
    ensures
        outcome is Some ==> event is Key && next.selected_path is None,
        event matches AppEvent::Key(key) ==> exists|state: EventState, left: App|
            {
                &&& #[trigger] app.key_handled(key, state, left)
                &&& outcome is Some <==> state is Exit
                &&& outcome is Some && left.selected_path is None ==> outcome == Some(
                    Outcome::Quit,
                )
                &&& outcome is Some ==> (left.selected_path matches Some(path) ==> outcome == Some(
                    Outcome::Selected(path),
                ))
                &&& outcome is None ==> next == left
            },
{
    if let AppEvent::Key(key) = event {
        let (state, left) = choose|state: EventState, left: App|
            {
                &&& #[trigger] app.key_handled(key, state, left)
                &&& if state is Exit {
                    outcome == Some(left.outcome()) && next == (App {
                        selected_path: None::<String>,
                        ..left
                    })
                } else {
                    outcome is None && next == left
                }
            };
        assert(app.key_handled(key, state, left));
    }
}

} // verus!
