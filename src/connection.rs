//! The decisions of one connection handler, as a state machine. The caller
//! performs each [`Action`] (a socket read, a payload decode, a mailbox push
//! with a reply write, or closing) and hands back what came of it as an
//! [`Event`]; the machine answers with the next action.
//!
//! Policy: a payload that does not decode, or that decodes to no command,
//! gets an error record and the connection stays open. A short header or a
//! short payload closes it, since the stream cannot be resynchronised; so
//! does any read or write failure. A read of zero bytes where a header (or
//! a chunk) should start is the peer closing in order.
use vstd::prelude::*;
use vstd::string::StringSliceAdditionalSpecFns;

use crate::codec::{
    be_bytes, be_value, decode_length, error_record, error_text, frame, framed, lemma_be_round_trip,
    lemma_records_short, success_record, HEADER_LEN, SUCCESS_RECORD,
};
use crate::messages::Command;
use crate::proto::{spec_command_of, DecodeError, RootMessage};

verus! {

/// How requests are delimited on a connection.
#[derive(Clone, Copy, Debug, PartialEq, Eq, Structural)]
pub enum Profile {
    /// Each request is a 4-byte big-endian length and that many bytes;
    /// replies are framed the same way.
    LengthPrefixed,
    /// Each read delivers one whole request; replies are written as they are.
    Stream,
}

/// Where a connection stands.
#[derive(Clone, Copy, Debug, PartialEq, Eq, Structural)]
pub enum Phase {
    AwaitHeader,
    AwaitPayload(u32),
    AwaitChunk,
    AwaitDecode,
    AwaitWrite,
    Closed,
}

/// Why a connection ended.
#[derive(Clone, Copy, Debug, PartialEq, Eq, Structural)]
pub enum CloseReason {
    /// The peer closed the connection between requests.
    PeerClosed,
    /// The stream ended inside a length header.
    ShortHeader,
    /// The stream ended before the payload a header announced.
    ShortPayload,
    ReadFailed,
    WriteFailed,
    /// An event arrived that the current phase does not expect.
    OutOfOrder,
}

/// What the caller has to do next.
#[derive(Debug)]
pub enum Action {
    /// Read exactly this many bytes, or until the peer closes.
    ReadExact(u32),
    /// Read one chunk of whatever size arrives.
    ReadChunk,
    /// Decode these bytes as a request.
    Decode(Vec<u8>),
    /// Push the command (if any) into the mailbox, then write and flush the
    /// reply.
    Deliver { command: Option<Command>, reply: Vec<u8> },
    /// Close the connection.
    Close(CloseReason),
}

/// What came of the last action.
pub enum Event {
    /// The bytes a read returned: fewer than asked when the peer closed first.
    Read(Vec<u8>),
    ReadFailed,
    /// The decoded request, or `None` when the bytes were not one.
    Decoded(Option<RootMessage>),
    /// The reply was written and flushed.
    Written,
    WriteFailed,
}

/// What a decode outcome means.
pub open spec fn spec_classified(d: Option<RootMessage>) -> Result<Command, DecodeError> {
    match d {
        Some(m) => spec_command_of(m),
        None => Err(DecodeError::Malformed),
    }
}

/// The record that answers a classified request.
pub open spec fn outcome_record(r: Result<Command, DecodeError>) -> Seq<u8> {
    match r {
        Ok(_) => SUCCESS_RECORD.spec_bytes(),
        Err(e) => error_text(e).spec_bytes(),
    }
}

/// A reply record as written on a connection of profile `p`.
pub open spec fn wire_reply(p: Profile, record: Seq<u8>) -> Seq<u8> {
    match p {
        Profile::LengthPrefixed => framed(record),
        Profile::Stream => record,
    }
}

/// Where a connection waits for its next request.
pub open spec fn request_phase(p: Profile) -> Phase {
    match p {
        Profile::LengthPrefixed => Phase::AwaitHeader,
        Profile::Stream => Phase::AwaitChunk,
    }
}

/// The read that starts the next request.
pub open spec fn request_read(p: Profile) -> Action {
    match p {
        Profile::LengthPrefixed => Action::ReadExact(HEADER_LEN as u32),
        Profile::Stream => Action::ReadChunk,
    }
}

/// `a` is the action, and `next` the phase, that answer event `e` in phase
/// `ph` on a connection of profile `p`.
pub open spec fn answers(p: Profile, ph: Phase, e: Event, next: Phase, a: Action) -> bool {
    match (ph, e) {
        (Phase::AwaitHeader, Event::Read(b)) => if b@.len() == HEADER_LEN {
            next == Phase::AwaitPayload(be_value(b@) as u32) && a == Action::ReadExact(
                be_value(b@) as u32,
            )
        } else if b@.len() == 0 {
            next == Phase::Closed && a == Action::Close(CloseReason::PeerClosed)
        } else {
            next == Phase::Closed && a == Action::Close(CloseReason::ShortHeader)
        },
        (Phase::AwaitPayload(n), Event::Read(b)) => if b@.len() == n {
            next == Phase::AwaitDecode && a == Action::Decode(b)
        } else {
            next == Phase::Closed && a == Action::Close(CloseReason::ShortPayload)
        },
        (Phase::AwaitChunk, Event::Read(b)) => if b@.len() == 0 {
            next == Phase::Closed && a == Action::Close(CloseReason::PeerClosed)
        } else {
            next == Phase::AwaitDecode && a == Action::Decode(b)
        },
        (Phase::AwaitHeader, Event::ReadFailed)
        | (Phase::AwaitPayload(_), Event::ReadFailed)
        | (Phase::AwaitChunk, Event::ReadFailed) => next == Phase::Closed && a == Action::Close(
            CloseReason::ReadFailed,
        ),
        (Phase::AwaitDecode, Event::Decoded(d)) => next == Phase::AwaitWrite && match a {
            Action::Deliver { command, reply } => {
                &&& command == match spec_classified(d) {
                    Ok(c) => Some(c),
                    Err(_) => None,
                }
                &&& reply@ == wire_reply(p, outcome_record(spec_classified(d)))
            },
            _ => false,
        },
        (Phase::AwaitWrite, Event::Written) => next == request_phase(p) && a == request_read(p),
        (Phase::AwaitWrite, Event::WriteFailed) => next == Phase::Closed && a == Action::Close(
            CloseReason::WriteFailed,
        ),
        _ => next == Phase::Closed && a == Action::Close(CloseReason::OutOfOrder),
    }
}

/// One connection's protocol state.
pub struct Connection {
    profile: Profile,
    phase: Phase,
}

impl View for Connection {
    type V = (Profile, Phase);

    closed spec fn view(&self) -> (Profile, Phase) {
        (self.profile, self.phase)
    }
}

fn wrap_reply(p: Profile, record: Vec<u8>) -> (r: Vec<u8>)
    requires
        record@.len() <= u32::MAX,
    ensures
        r@ == wire_reply(p, record@),
{
    match p {
        Profile::LengthPrefixed => frame(record.as_slice()),
        Profile::Stream => record,
    }
}

impl Connection {
    /// A new connection of profile `p`, and the read that starts it.
    pub fn start(p: Profile) -> (r: (Connection, Action))
        ensures
            r.0@ == (p, request_phase(p)),
            r.1 == request_read(p),
    {
        match p {
            Profile::LengthPrefixed => (
                Connection { profile: p, phase: Phase::AwaitHeader },
                Action::ReadExact(HEADER_LEN as u32),
            ),
            Profile::Stream => (Connection { profile: p, phase: Phase::AwaitChunk }, Action::ReadChunk),
        }
    }

    pub fn phase(&self) -> (r: Phase)
        ensures
            r == self@.1,
    {
        self.phase
    }

    pub fn is_closed(&self) -> (r: bool)
        ensures
            r == (self@.1 == Phase::Closed),
    {
        self.phase == Phase::Closed
    }

    /// Takes what came of the last action and gives the next one.
    pub fn step(&mut self, e: Event) -> (r: Action)
        ensures
            final(self)@.0 == old(self)@.0,
            answers(old(self)@.0, old(self)@.1, e, final(self)@.1, r),
    {
        let p = self.profile;
        match (self.phase, e) {
            (Phase::AwaitHeader, Event::Read(b)) => {
                if b.len() == HEADER_LEN {
                    let n = decode_length(b.as_slice());
                    self.phase = Phase::AwaitPayload(n);
                    Action::ReadExact(n)
                } else if b.len() == 0 {
                    self.phase = Phase::Closed;
                    Action::Close(CloseReason::PeerClosed)
                } else {
                    self.phase = Phase::Closed;
                    Action::Close(CloseReason::ShortHeader)
                }
            },
            (Phase::AwaitPayload(n), Event::Read(b)) => {
                if b.len() == n as usize {
                    self.phase = Phase::AwaitDecode;
                    Action::Decode(b)
                } else {
                    self.phase = Phase::Closed;
                    Action::Close(CloseReason::ShortPayload)
                }
            },
            (Phase::AwaitChunk, Event::Read(b)) => {
                if b.len() == 0 {
                    self.phase = Phase::Closed;
                    Action::Close(CloseReason::PeerClosed)
                } else {
                    self.phase = Phase::AwaitDecode;
                    Action::Decode(b)
                }
            },
            (Phase::AwaitHeader, Event::ReadFailed)
            | (Phase::AwaitPayload(_), Event::ReadFailed)
            | (Phase::AwaitChunk, Event::ReadFailed) => {
                self.phase = Phase::Closed;
                Action::Close(CloseReason::ReadFailed)
            },
            (Phase::AwaitDecode, Event::Decoded(d)) => {
                let classified = match d {
                    Some(m) => m.into_command(),
                    None => Err(DecodeError::Malformed),
                };
                self.phase = Phase::AwaitWrite;
                match classified {
                    Ok(c) => {
                        let record = success_record();
                        proof {
                            lemma_records_short(DecodeError::Malformed);
                        }
                        Action::Deliver { command: Some(c), reply: wrap_reply(p, record) }
                    },
                    Err(err) => {
                        let record = error_record(err);
                        proof {
                            lemma_records_short(err);
                        }
                        Action::Deliver { command: None, reply: wrap_reply(p, record) }
                    },
                }
            },
            (Phase::AwaitWrite, Event::Written) => {
                match p {
                    Profile::LengthPrefixed => {
                        self.phase = Phase::AwaitHeader;
                        Action::ReadExact(HEADER_LEN as u32)
                    },
                    Profile::Stream => {
                        self.phase = Phase::AwaitChunk;
                        Action::ReadChunk
                    },
                }
            },
            (Phase::AwaitWrite, Event::WriteFailed) => {
                self.phase = Phase::Closed;
                Action::Close(CloseReason::WriteFailed)
            },
            _ => {
                self.phase = Phase::Closed;
                Action::Close(CloseReason::OutOfOrder)
            },
        }
    }
}

/// A request that decodes to no command (malformed bytes, an unknown or
/// absent variant, a missing field) is answered with its error record and
/// pushes nothing into the mailbox; once the reply is written the
/// connection waits for its next request instead of closing.
pub proof fn lemma_bad_request_keeps_connection(
    p: Profile,
    d: Option<RootMessage>,
    next: Phase,
    a: Action,
    after: Phase,
    b: Action,
)
    requires
        spec_classified(d) is Err,
        answers(p, Phase::AwaitDecode, Event::Decoded(d), next, a),
        answers(p, next, Event::Written, after, b),
    ensures
        a matches Action::Deliver { command, reply } && command is None && reply@ == wire_reply(
            p,
            error_text(spec_classified(d)->Err_0).spec_bytes(),
        ),
        after == request_phase(p),
        after != Phase::Closed,
        b == request_read(p),
{
}

/// On a length-prefixed connection, the header of a framed payload asks
/// for exactly that many bytes, and the payload, read in full, is handed out
/// for decoding as it is.
pub proof fn lemma_framed_request_reaches_decoder(
    p: Seq<u8>,
    h: Vec<u8>,
    body: Vec<u8>,
    next: Phase,
    a: Action,
    after: Phase,
    b: Action,
)
    requires
        p.len() <= u32::MAX,
        h@ == framed(p).subrange(0, HEADER_LEN as int),
        body@ == p,
        answers(Profile::LengthPrefixed, Phase::AwaitHeader, Event::Read(h), next, a),
        answers(Profile::LengthPrefixed, next, Event::Read(body), after, b),
    ensures
        a == Action::ReadExact(p.len() as u32),
        after == Phase::AwaitDecode,
        b == Action::Decode(body),
{
    lemma_be_round_trip(p.len() as u32);
    assert(h@ =~= be_bytes(p.len() as u32));
}

} // verus!
