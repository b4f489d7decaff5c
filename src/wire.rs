//! The wire protocol of one job connection: how a payload is framed, and what
//! the connection does with each payload and each command from the hub.

use vstd::prelude::*;
use vstd::utf8::{decode_utf8, valid_utf8};
use crate::hub::HubEvent;
use crate::job::{Handshake, JobId, JobMessage};

verus! {

/// The text that ends a connection normally.
pub open spec fn sentinel() -> Seq<char> {
    seq!['F', 'I', 'N', 'I', 'S', 'H']
}

/// Relies on `std::str::from_utf8`: succeeds exactly on valid UTF-8, and the
/// text is what the bytes encode.
#[verifier::external_body]
fn utf8_text(bytes: &[u8]) -> (r: Option<String>)
    ensures
        r is Some <==> valid_utf8(bytes@),
        r matches Some(s) ==> s@ == decode_utf8(bytes@),
{
    std::str::from_utf8(bytes).ok().map(|s| s.to_owned())
}

/// One payload as read from the socket, before any JSON is decoded.
#[derive(Debug)]
pub enum Frame {
    /// The sentinel text.
    Sentinel,
    /// Any other valid UTF-8 text.
    Text(String),
    /// Bytes that are not UTF-8.
    Garbled,
}

/// `f` is how the payload `bytes` is framed.
pub open spec fn frames(bytes: Seq<u8>, f: Frame) -> bool {
    if !valid_utf8(bytes) {
        f is Garbled
    } else if decode_utf8(bytes) == sentinel() {
        f is Sentinel
    } else {
        f matches Frame::Text(t) && t@ == decode_utf8(bytes)
    }
}

/// Frames one payload.
pub fn frame_payload(bytes: &[u8]) -> (f: Frame)
    ensures
        frames(bytes@, f),
{
    match utf8_text(bytes) {
        None => Frame::Garbled,
        Some(text) => {
            let finish = "FINISH".to_owned();
            proof {
                reveal_strlit("FINISH");
                assert(finish@ =~= sentinel());
            }
            if text == finish {
                Frame::Sentinel
            } else {
                Frame::Text(text)
            }
        },
    }
}

/// A payload as the connection understands it.
#[derive(Debug)]
pub enum Payload {
    /// The sentinel.
    Sentinel,
    /// A well-formed handshake.
    Handshake(Handshake),
    /// A well-formed update.
    Update(JobMessage),
    /// Anything that could not be decoded.
    Malformed,
}

/// A command from the hub to one connection.
#[derive(Debug, Clone, Copy, PartialEq, Eq)]
pub enum Command {
    AllOk,
    CancelJob,
}

/// Where a connection stands in the protocol.
#[derive(Debug)]
pub enum ActorState {
    /// Nothing has arrived yet: the next payload must be a handshake.
    AwaitingHandshake,
    /// The handshake of this job was accepted.
    Established(JobId),
    /// The connection is over.
    Closed,
}

/// What a connection does after a payload or a command.
#[derive(Debug)]
pub enum ActorStep {
    /// Hand this event to the hub and keep going.
    Send(HubEvent),
    /// Hand this event to the hub, then end the connection.
    SendAndClose(HubEvent),
    /// End the connection without telling the hub anything.
    Close,
    /// Nothing to do; keep going.
    Stay,
}

/// The protocol state of one connection.
#[derive(Debug)]
pub struct ConnectionActor {
    pub state: ActorState,
}

impl ConnectionActor {
    /// A connection that has just been accepted.
    pub fn new() -> (r: ConnectionActor)
        ensures
            r.state is AwaitingHandshake,
    {
        ConnectionActor { state: ActorState::AwaitingHandshake }
    }

    /// Whether the next payload must be a handshake.
    pub fn awaits_handshake(&self) -> (r: bool)
        ensures
            r == self.state is AwaitingHandshake,
    {
        match self.state {
            ActorState::AwaitingHandshake => true,
            _ => false,
        }
    }

    /// Reacts to one payload. The first one must be a handshake, which
    /// registers the job; anything else first ends the connection and
    /// registers nothing. After the handshake, the sentinel reports the end
    /// of the job and ends the connection, an update is forwarded, and a
    /// payload that cannot be decoded is dropped with the connection kept.
    pub fn on_payload(&mut self, payload: Payload) -> (r: ActorStep)
        ensures
            match old(self).state {
                ActorState::AwaitingHandshake => match payload {
                    Payload::Handshake(h) => {
                        &&& final(self).state matches ActorState::Established(j) && j@ == h.id@
                        &&& r matches ActorStep::Send(HubEvent::NewConnection(h2)) && h2@ == h@
                    },
                    _ => final(self).state is Closed && r is Close,
                },
                ActorState::Established(id) => match payload {
                    Payload::Sentinel => {
                        &&& final(self).state is Closed
                        &&& r matches ActorStep::SendAndClose(HubEvent::ConnectionDropped(j))
                            && j@ == id@
                    },
                    Payload::Update(u) => {
                        &&& final(self).state == old(self).state
                        &&& r matches ActorStep::Send(HubEvent::SocketMessage(j, u2)) && j@
                            == id@ && u2@ == u@
                    },
                    _ => final(self).state == old(self).state && r is Stay,
                },
                ActorState::Closed => final(self).state is Closed && r is Close,
            },
    {
        match &self.state {
            ActorState::AwaitingHandshake => match payload {
                Payload::Handshake(h) => {
                    self.state = ActorState::Established(h.id.duplicate());
                    ActorStep::Send(HubEvent::NewConnection(h))
                },
                _ => {
                    self.state = ActorState::Closed;
                    ActorStep::Close
                },
            },
            ActorState::Established(id) => match payload {
                Payload::Sentinel => {
                    let id = id.duplicate();
                    self.state = ActorState::Closed;
                    ActorStep::SendAndClose(HubEvent::ConnectionDropped(id))
                },
                Payload::Update(u) => ActorStep::Send(HubEvent::SocketMessage(id.duplicate(), u)),
                _ => ActorStep::Stay,
            },
            ActorState::Closed => ActorStep::Close,
        }
    }

    /// Reacts to a command from the hub. Cancelling ends the connection and,
    /// where a job was registered, reports its end so that the hub finalises
    /// it; any other command changes nothing.
    pub fn on_command(&mut self, command: Command) -> (r: ActorStep)
        ensures
            command == Command::AllOk ==> final(self).state == old(self).state && r is Stay,
            command == Command::CancelJob ==> final(self).state is Closed && match old(self).state {
                ActorState::Established(id) => r matches ActorStep::SendAndClose(
                    HubEvent::ConnectionDropped(j),
                ) && j@ == id@,
                _ => r is Close,
            },
    {
        match command {
            Command::AllOk => ActorStep::Stay,
            Command::CancelJob => {
                let r = match &self.state {
                    ActorState::Established(id) => ActorStep::SendAndClose(
                        HubEvent::ConnectionDropped(id.duplicate()),
                    ),
                    _ => ActorStep::Close,
                };
                self.state = ActorState::Closed;
                r
            },
        }
    }
}

} // verus!
