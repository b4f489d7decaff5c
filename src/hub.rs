//! The hub's reaction to each event: the only place where the registry changes.

use vstd::prelude::*;
use crate::clock::{clock_now, clock_text, hhmm};
use crate::job::{Handshake, JobId, JobMessage};
use crate::registry::{finished, message_applied, registered, App, AppView};
use crate::text::{pop_char, push_char};

verus! {

/// A key press, as far as the dashboard tells keys apart.
#[derive(Debug, Clone, Copy, PartialEq, Eq)]
pub enum Key {
    Backspace,
    Enter,
    Char(char),
    Other,
}

/// Everything the hub reacts to.
#[derive(Debug)]
pub enum HubEvent {
    /// A connection completed its handshake.
    NewConnection(Handshake),
    /// A running job reported progress.
    SocketMessage(JobId, JobMessage),
    /// A job's connection ended.
    ConnectionDropped(JobId),
    /// The user pressed a key.
    KeyPressed(Key),
}

/// What the hub's loop does after an event.
#[derive(Debug, Clone, Copy, PartialEq, Eq)]
pub enum HubAction {
    Continue,
    Shutdown,
}

/// The input line after a key: Backspace removes the last character (if
/// any), a character is appended, other keys leave it as it is.
pub open spec fn input_after(input: Seq<char>, k: Key) -> Seq<char> {
    match k {
        Key::Backspace => if input.len() == 0 {
            input
        } else {
            input.drop_last()
        },
        Key::Char(c) => input.push(c),
        _ => input,
    }
}

/// The registry after `e`, where a job that ends is stamped `stamp`.
pub open spec fn event_applied(m: AppView, e: HubEvent, stamp: Seq<char>) -> AppView {
    match e {
        HubEvent::NewConnection(h) => registered(m, h@),
        HubEvent::SocketMessage(id, u) => message_applied(m, id@, u@),
        HubEvent::ConnectionDropped(id) => finished(m, id@, stamp),
        HubEvent::KeyPressed(k) => AppView { input: input_after(m.input, k), ..m },
    }
}

/// Whether `e` asks the dashboard to shut down: only Enter does.
pub open spec fn ends_session(e: HubEvent) -> bool {
    e matches HubEvent::KeyPressed(Key::Enter)
}

/// Pressing Enter ends the session and leaves the running jobs, the
/// finished records and the input line as they were.
pub proof fn lemma_enter_keeps_records(m: AppView, stamp: Seq<char>)
    ensures
        ends_session(HubEvent::KeyPressed(Key::Enter)),
        event_applied(m, HubEvent::KeyPressed(Key::Enter), stamp) == m,
{
}

impl App {
    /// Applies a key press to the input line.
    pub fn press_key(&mut self, key: Key) -> (r: HubAction)
        ensures
            final(self)@ == (AppView { input: input_after(old(self)@.input, key), ..old(self)@ }),
            r == (if key == Key::Enter {
                HubAction::Shutdown
            } else {
                HubAction::Continue
            }),
    {
        match key {
            Key::Backspace => {
                pop_char(&mut self.current_input);
                HubAction::Continue
            },
            Key::Enter => HubAction::Shutdown,
            Key::Char(c) => {
                push_char(&mut self.current_input, c);
                HubAction::Continue
            },
            Key::Other => HubAction::Continue,
        }
    }

    /// Applies one event, stamping a job that ends with `end_time`.
    pub fn handle_event_at(&mut self, event: HubEvent, end_time: String) -> (r: HubAction)
        ensures
            final(self)@ == event_applied(old(self)@, event, end_time@),
            r == (if ends_session(event) {
                HubAction::Shutdown
            } else {
                HubAction::Continue
            }),
    {
        match event {
            HubEvent::NewConnection(h) => {
                self.register(h);
                HubAction::Continue
            },
            HubEvent::SocketMessage(id, u) => {
                self.add_connection_message(id, u);
                HubAction::Continue
            },
            HubEvent::ConnectionDropped(id) => {
                self.finish_connection_at(id, end_time);
                HubAction::Continue
            },
            HubEvent::KeyPressed(k) => self.press_key(k),
        }
    }

    /// Applies one event; a job that ends is stamped with the current UTC
    /// time of day.
    pub fn handle_event(&mut self, event: HubEvent) -> (r: HubAction)
        ensures
            exists|h: int, m: int|
                0 <= h < 24 && 0 <= m < 60 && final(self)@ == event_applied(
                    old(self)@,
                    event,
                    hhmm(h, m),
                ),
            !(event is ConnectionDropped) ==> final(self)@ == event_applied(
                old(self)@,
                event,
                Seq::empty(),
            ),
            r == (if ends_session(event) {
                HubAction::Shutdown
            } else {
                HubAction::Continue
            }),
    {
        let ends_job = match &event {
            HubEvent::ConnectionDropped(_) => true,
            _ => false,
        };
        if ends_job {
            let (hour, minute) = clock_now();
            let r = self.handle_event_at(event, clock_text(hour, minute));
            assert(self@ == event_applied(old(self)@, event, hhmm(hour as int, minute as int)));
            r
        } else {
            let r = self.handle_event_at(event, String::new());
            assert(self@ == event_applied(old(self)@, event, hhmm(0, 0)));
            r
        }
    }
}

} // verus!
