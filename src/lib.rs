//! Live dashboard engine for externally running jobs: the job registry owned by
//! the hub, the per-connection wire protocol, and the hub's event handling.

mod clock;
mod commands;
mod hub;
mod job;
mod registry;
mod text;
mod wire;

pub use clock::{clock_now, clock_text, digit_char, hhmm};
pub use commands::CommandTable;
pub use job::{
    latest, lemma_updates_overwrite, newest_first, present, progress_spec, started_job, texts,
    updated_job, updates_applied, CurrentJob, CurrentJobView, FinishedJob, FinishedJobView,
    Handshake, HandshakeView, JobId, JobMessage, JobMessageView,
};
pub use registry::{
    active_ids, all_messages_applied, all_registered, finished, first_match, is_active, is_finished,
    is_first_match, lemma_first_match, lemma_handshakes_register_each, lemma_job_lifecycle,
    lemma_no_match, message_applied, registered, App, AppView,
};
pub use hub::{
    ends_session, event_applied, input_after, lemma_enter_keeps_records, HubAction, HubEvent, Key,
};
pub use wire::{
    frame_payload, frames, sentinel, ActorState, ActorStep, Command, ConnectionActor, Frame, Payload,
};
