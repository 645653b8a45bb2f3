//! The session loop's decisions: what an event of the transport means for a
//! running connection, how a connection cycle's end is classified, and how
//! long to wait before the next one.

use crate::error::retryable;
use crate::error::Error;
use crate::handshake::chosen_hello;
use crate::handshake::ClientHello;
use crate::handshake::SecretKey;
use crate::ids::ReconnectToken;
use crate::mux::after_message;
use crate::mux::ActionView;
use crate::mux::Multiplexer;
use crate::mux::MuxView;
use crate::mux::StreamAction;
use vstd::prelude::*;

verus! {

/// Seconds to wait before reconnecting after the transport has failed.
pub const TRANSPORT_BACKOFF_SECS: u64 = 5;

/// Seconds to wait before reconnecting after a task of the connection has
/// asked for a restart.
pub const RESTART_BACKOFF_SECS: u64 = 3;

/// What the reader of the transport saw.
#[derive(Clone, Debug, PartialEq, Eq)]
pub enum TransportEvent {
    /// The peer closed the connection.
    Close,
    /// One message.
    Message(Vec<u8>),
    /// Reading failed.
    ReadFailed,
    /// The transport ended without a close.
    Ended,
}

/// What the reader does next.
#[derive(Clone, Debug, PartialEq, Eq)]
pub enum ReadStep {
    /// Perform the action and go on reading.
    Act(StreamAction),
    /// Stop: the connection ended cleanly.
    Finished,
    /// Stop with this failure.
    Failed(Error),
}

/// A reader's step as plain values.
pub enum ReadStepView {
    Act(ActionView),
    Finished,
    Failed(Error),
}

impl View for ReadStep {
    type V = ReadStepView;

    open spec fn view(&self) -> ReadStepView {
        match self {
            ReadStep::Act(action) => ReadStepView::Act(action@),
            ReadStep::Finished => ReadStepView::Finished,
            ReadStep::Failed(e) => ReadStepView::Failed(*e),
        }
    }
}

/// The multiplexer's state and the reader's step after an event of the
/// transport. A close ends the connection cleanly. A message is handled by
/// the multiplexer; a malformed one is a failure that is not retried. A
/// transport that fails or just ends counts as timed out, which is.
pub open spec fn after_transport_event(pre: MuxView, event: TransportEvent) -> (
    MuxView,
    ReadStepView,
) {
    match event {
        TransportEvent::Close => (pre, ReadStepView::Finished),
        TransportEvent::Message(payload) => match after_message(pre, payload@) {
            Some((post, action)) => (post, ReadStepView::Act(action)),
            None => (pre, ReadStepView::Failed(Error::MalformedMessageFromServer)),
        },
        TransportEvent::ReadFailed => (pre, ReadStepView::Failed(Error::Timeout)),
        TransportEvent::Ended => (pre, ReadStepView::Failed(Error::Timeout)),
    }
}

/// Decides what the reader of a running connection does with an event.
pub fn on_transport_event(mux: &mut Multiplexer, event: TransportEvent) -> (step: ReadStep)
    ensures
        (final(mux)@, step@) == after_transport_event(old(mux)@, event),
{
    match event {
        TransportEvent::Close => ReadStep::Finished,
        TransportEvent::Message(payload) => match mux.process_control_flow_message(
            payload.as_slice(),
        ) {
            Ok(action) => ReadStep::Act(action),
            Err(e) => ReadStep::Failed(e),
        },
        TransportEvent::ReadFailed => ReadStep::Failed(Error::Timeout),
        TransportEvent::Ended => ReadStep::Failed(Error::Timeout),
    }
}

/// Why the writer of the transport cannot go on.
#[derive(Clone, Debug, PartialEq, Eq)]
pub enum WriterEvent {
    /// Nothing will ever be enqueued again.
    QueueClosed,
    /// Writing to the transport failed; the text says how.
    SendFailed(String),
}

/// The failure with which the writer asks for a restart.
pub open spec fn writer_error(event: WriterEvent) -> Error {
    match event {
        WriterEvent::QueueClosed => Error::Timeout,
        WriterEvent::SendFailed(detail) => Error::WebSocketError(detail),
    }
}

/// The failure with which the writer asks for a restart.
pub fn writer_failure(event: WriterEvent) -> (e: Error)
    ensures
        e == writer_error(event),
        retryable(e),
{
    match event {
        WriterEvent::QueueClosed => Error::Timeout,
        WriterEvent::SendFailed(detail) => Error::WebSocketError(detail),
    }
}

/// How a connection cycle ended.
#[derive(Clone, Debug, PartialEq, Eq)]
pub enum CycleEnd {
    /// The connection ended with a failure.
    Failed(Error),
    /// The connection ended cleanly.
    Closed,
    /// A task of the connection asked for a restart, with the failure that
    /// made it ask, if there was one.
    RestartRequested(Option<Error>),
    /// The tasks of the connection are gone without having asked.
    RestartChannelClosed,
}

/// What the session loop does after a cycle.
#[derive(Clone, Debug, PartialEq, Eq)]
pub enum NextStep {
    /// Connect again after so many seconds.
    Reconnect { after_secs: u64 },
    /// Tell the operator and stop.
    Terminate { error: Error },
}

/// The classification of a cycle's end. A retryable failure of the
/// connection waits the longer backoff, a restart that a task asked for the
/// shorter one, and a clean end none. Any other failure ends the session:
/// to try again would only repeat it.
pub open spec fn next_step(end: CycleEnd) -> NextStep {
    match end {
        CycleEnd::Failed(e) => if retryable(e) {
            NextStep::Reconnect { after_secs: TRANSPORT_BACKOFF_SECS }
        } else {
            NextStep::Terminate { error: e }
        },
        CycleEnd::Closed => NextStep::Reconnect { after_secs: 0 },
        CycleEnd::RestartRequested(_) => NextStep::Reconnect { after_secs: RESTART_BACKOFF_SECS },
        CycleEnd::RestartChannelClosed => NextStep::Reconnect { after_secs: 0 },
    }
}

/// Classifies the end of a cycle.
pub fn classify(end: CycleEnd) -> (step: NextStep)
    ensures
        step == next_step(end),
{
    match end {
        CycleEnd::Failed(e) => if e.is_retryable() {
            NextStep::Reconnect { after_secs: TRANSPORT_BACKOFF_SECS }
        } else {
            NextStep::Terminate { error: e }
        },
        CycleEnd::Closed => NextStep::Reconnect { after_secs: 0 },
        CycleEnd::RestartRequested(_) => NextStep::Reconnect { after_secs: RESTART_BACKOFF_SECS },
        CycleEnd::RestartChannelClosed => NextStep::Reconnect { after_secs: 0 },
    }
}

/// What outlives a connection cycle.
#[derive(Clone, Debug, PartialEq, Eq)]
pub struct Session {
    /// Whether no cycle has ended yet. It only decides what the operator
    /// is shown.
    pub first_run: bool,
    /// The latest reconnect token that any cycle captured.
    pub reconnect_token: Option<ReconnectToken>,
}

/// The token that a session keeps after a cycle: the one that the cycle
/// captured, else the one it had.
pub open spec fn kept_token(had: Option<ReconnectToken>, captured: Option<ReconnectToken>)
    -> Option<ReconnectToken> {
    if captured is Some {
        captured
    } else {
        had
    }
}

impl Session {
    /// A session before its first cycle.
    pub fn new() -> (session: Session)
        ensures
            session == (Session { first_run: true, reconnect_token: None }),
    {
        Session { first_run: true, reconnect_token: None }
    }

    /// The hello of the next cycle: with the secret key if there is one,
    /// else with the reconnect token that the session holds, else anonymous.
    pub fn hello(&self, sub_domain: Option<String>, secret_key: Option<SecretKey>) -> (hello:
        ClientHello)
        ensures
            hello == chosen_hello(sub_domain, secret_key, self.reconnect_token),
    {
        let captured = match &self.reconnect_token {
            Some(token) => Some(ReconnectToken(token.0.clone())),
            None => None,
        };
        ClientHello::select(sub_domain, secret_key, captured)
    }

    /// Ends a cycle: keeps the token that the cycle captured, notes that the
    /// first run is over, and classifies the end.
    pub fn end_cycle(&mut self, end: CycleEnd, captured: Option<ReconnectToken>) -> (step:
        NextStep)
        ensures
            step == next_step(end),
            !final(self).first_run,
            final(self).reconnect_token == kept_token(old(self).reconnect_token, captured),
    {
        self.first_run = false;
        if captured.is_some() {
            self.reconnect_token = captured;
        }
        classify(end)
    }
}

/// Failures are either retried or final, and the backoff after a failure
/// of the transport is the longer one.
pub proof fn lemma_classification(e: Error)
    ensures
        retryable(e) <==> next_step(CycleEnd::Failed(e)) == (NextStep::Reconnect {
            after_secs: TRANSPORT_BACKOFF_SECS,
        }),
        !retryable(e) <==> next_step(CycleEnd::Failed(e)) == (NextStep::Terminate {
            error: e,
        }),
        TRANSPORT_BACKOFF_SECS > RESTART_BACKOFF_SECS,
{
}

} // verus!
