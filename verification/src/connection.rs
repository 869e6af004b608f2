//! Connection handler: what one connection does with each thing that
//! happens on its socket.
//!
//! The handler performs no input or output. Its driver reads nine bytes,
//! reports what came of the read as an [`Event`], and carries out the
//! [`Action`] that [`Connection::handle`] returns.

use vstd::prelude::*;
use crate::codec::DecodeError;
use crate::codec::ReceiveMessage;
use crate::codec::be_bytes;
use crate::codec::be_i32;
use crate::codec::decode;
use crate::codec::encode_response;
use crate::codec::law_response_round_trip;
use crate::codec::parse_message;
use crate::mean::Observation;
use crate::mean::range_mean;
use crate::mean::lemma_range_mean_fits;
use crate::store::SessionStore;

verus! {

/// Why a connection was closed.
#[derive(Debug, Clone, Copy, PartialEq, Eq, Structural)]
pub enum CloseReason {
    /// The peer stopped sending before another full frame arrived.
    EndOfStream,
    /// A frame carried a tag byte that is neither `I` nor `Q`.
    InvalidMessageType,
    /// Reading from the socket failed.
    ReadFailed,
    /// Writing a response to the socket failed.
    WriteFailed,
}

/// Whether a connection still accepts frames.
#[derive(Debug, Clone, Copy, PartialEq, Eq, Structural)]
pub enum Status {
    Open,
    /// Terminal: nothing is accepted or sent any more.
    Closed(CloseReason),
}

/// What the driver observed on the socket.
#[derive(Debug, Clone, Copy, PartialEq, Eq)]
pub enum Event {
    /// Nine bytes arrived.
    Frame([u8; 9]),
    /// The peer closed its sending side; bytes of an unfinished frame, if
    /// any, are dropped.
    EndOfStream,
    /// A read failed for another reason.
    ReadFailed,
    /// The last response could not be written.
    WriteFailed,
}

/// What the driver must do next.
#[derive(Debug, Clone, Copy, PartialEq, Eq)]
pub enum Action {
    /// Send nothing; read the next frame.
    Continue,
    /// Send exactly these four bytes, then read the next frame.
    Respond([u8; 4]),
    /// Send nothing; close the socket.
    Close(CloseReason),
}

/// The state of a connection as contracts see it.
pub struct ConnectionState {
    pub status: Status,
    pub log: Seq<Observation>,
}

/// The state a connection starts in: open, with an empty log.
pub open spec fn initial_state() -> ConnectionState {
    ConnectionState { status: Status::Open, log: Seq::empty() }
}

/// The state a connection is left in when it closes for `reason`: its log
/// is released.
pub open spec fn closed_state(reason: CloseReason) -> ConnectionState {
    ConnectionState { status: Status::Closed(reason), log: Seq::empty() }
}

/// Whether handling `event` in state `pre` may leave state `post` and
/// return `action`. For every `pre` and `event` exactly one `post` and one
/// `action` qualify.
pub open spec fn step(
    pre: ConnectionState,
    event: Event,
    post: ConnectionState,
    action: Action,
) -> bool {
    match pre.status {
        Status::Closed(reason) => post == pre && action == Action::Close(reason),
        Status::Open => match event {
            Event::Frame(frame) => match decode(frame@) {
                Ok(ReceiveMessage::Insert { timestamp, price }) => {
                    &&& post.status == Status::Open
                    &&& post.log == pre.log.push(Observation { timestamp, price })
                    &&& action == Action::Continue
                },
                Ok(ReceiveMessage::Query { mintime, maxtime }) => {
                    &&& post == pre
                    &&& action matches Action::Respond(bytes)
                    &&& bytes@ == be_bytes(range_mean(pre.log, mintime, maxtime) as i32)
                },
                Err(DecodeError::InvalidMessageType) => {
                    &&& post == closed_state(CloseReason::InvalidMessageType)
                    &&& action == Action::Close(CloseReason::InvalidMessageType)
                },
            },
            Event::EndOfStream => {
                &&& post == closed_state(CloseReason::EndOfStream)
                &&& action == Action::Close(CloseReason::EndOfStream)
            },
            Event::ReadFailed => {
                &&& post == closed_state(CloseReason::ReadFailed)
                &&& action == Action::Close(CloseReason::ReadFailed)
            },
            Event::WriteFailed => {
                &&& post == closed_state(CloseReason::WriteFailed)
                &&& action == Action::Close(CloseReason::WriteFailed)
            },
        },
    }
}

/// Whether `event` is a frame that decodes to a query.
pub open spec fn carries_query(event: Event) -> bool {
    match event {
        Event::Frame(frame) => match decode(frame@) {
            Ok(ReceiveMessage::Query { .. }) => true,
            _ => false,
        },
        _ => false,
    }
}

/// Whether `event` is a frame that decodes to an insert.
pub open spec fn carries_insert(event: Event) -> bool {
    match event {
        Event::Frame(frame) => match decode(frame@) {
            Ok(ReceiveMessage::Insert { .. }) => true,
            _ => false,
        },
        _ => false,
    }
}

/// One connection: its status and its private session store.
pub struct Connection {
    status: Status,
    store: SessionStore,
}

impl View for Connection {
    type V = ConnectionState;

    closed spec fn view(&self) -> ConnectionState {
        ConnectionState { status: self.status, log: self.store@ }
    }
}

impl Connection {
    /// A freshly accepted connection.
    pub fn new() -> (connection: Connection)
        ensures
            connection@ == initial_state(),
    {
        Connection { status: Status::Open, store: SessionStore::new() }
    }

    /// Whether the connection is open or closed, and why.
    pub fn status(&self) -> (status: Status)
        ensures
            status == self@.status,
    {
        self.status
    }

    /// Whether the connection still accepts frames.
    pub fn is_open(&self) -> (open: bool)
        ensures
            open <==> self@.status == Status::Open,
    {
        match self.status {
            Status::Open => true,
            Status::Closed(_) => false,
        }
    }

    /// Number of observations the connection holds.
    pub fn observation_count(&self) -> (n: usize)
        ensures
            n == self@.log.len(),
    {
        self.store.len()
    }

    /// Handles one event and says what to do next.
    ///
    /// An insert frame extends the log and sends nothing. A query frame
    /// leaves the log as it is and sends the mean over the inserts that
    /// came before it. A frame with any other tag, the end of the stream
    /// and a failed read or write close the connection without sending
    /// anything. A closed connection stays closed.
    pub fn handle(&mut self, event: Event) -> (action: Action)
        ensures
            step(old(self)@, event, final(self)@, action),
    {
        match self.status {
            Status::Closed(reason) => Action::Close(reason),
            Status::Open => match event {
                Event::Frame(frame) => match parse_message(&frame) {
                    Ok(ReceiveMessage::Insert { timestamp, price }) => {
                        self.store.insert(timestamp, price);
                        Action::Continue
                    },
                    Ok(ReceiveMessage::Query { mintime, maxtime }) => {
                        let mean = self.store.query_mean(mintime, maxtime);
                        Action::Respond(encode_response(mean))
                    },
                    Err(DecodeError::InvalidMessageType) => self.close(
                        CloseReason::InvalidMessageType,
                    ),
                },
                Event::EndOfStream => self.close(CloseReason::EndOfStream),
                Event::ReadFailed => self.close(CloseReason::ReadFailed),
                Event::WriteFailed => self.close(CloseReason::WriteFailed),
            },
        }
    }

    /// Closes the connection and releases its store.
    fn close(&mut self, reason: CloseReason) -> (action: Action)
        ensures
            final(self)@ == closed_state(reason),
            action == Action::Close(reason),
    {
        self.status = Status::Closed(reason);
        self.store = SessionStore::new();
        Action::Close(reason)
    }
}

/// An insert never produces a response, a query always produces exactly
/// one, and nothing else produces any.
pub proof fn law_response_iff_query(
    pre: ConnectionState,
    event: Event,
    post: ConnectionState,
    action: Action,
)
    requires
        step(pre, event, post, action),
    ensures
        action is Respond <==> pre.status == Status::Open && carries_query(event),
        carries_insert(event) ==> !(action is Respond),
{
}

/// While a connection stays open its log only grows at the end: a query
/// removes and changes nothing, an insert appends one observation.
pub proof fn law_log_append_only(
    pre: ConnectionState,
    event: Event,
    post: ConnectionState,
    action: Action,
)
    requires
        step(pre, event, post, action),
        post.status == Status::Open,
    ensures
        pre.status == Status::Open,
        pre.log.is_prefix_of(post.log),
        post.log.len() == pre.log.len() + (if action is Continue {
            1int
        } else {
            0int
        }),
{
}

/// Closed is terminal: a closed connection ignores every event, keeps its
/// state and sends nothing.
pub proof fn law_closed_is_terminal(
    pre: ConnectionState,
    event: Event,
    post: ConnectionState,
    action: Action,
)
    requires
        step(pre, event, post, action),
        pre.status is Closed,
    ensures
        post == pre,
        action is Close,
{
}

/// The answer to a query, read back by a client, is the mean over exactly
/// the inserts that arrived before the query.
pub proof fn law_response_decodes_to_mean(
    pre: ConnectionState,
    frame: [u8; 9],
    post: ConnectionState,
    bytes: [u8; 4],
    mintime: i32,
    maxtime: i32,
)
    requires
        pre.status == Status::Open,
        decode(frame@) == Ok::<ReceiveMessage, DecodeError>(
            ReceiveMessage::Query { mintime, maxtime },
        ),
        step(pre, Event::Frame(frame), post, Action::Respond(bytes)),
    ensures
        be_i32(bytes@) == range_mean(pre.log, mintime, maxtime),
{
    lemma_range_mean_fits(pre.log, mintime, maxtime);
    law_response_round_trip(range_mean(pre.log, mintime, maxtime) as i32);
}

} // verus!
