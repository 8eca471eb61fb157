use vstd::prelude::*;
use crate::decode::frame_ticks;
use crate::error::AppError;
use crate::store::TickStore;
use crate::subscribe::subscription_texts;
use crate::text::texts;
use crate::ws::{after_ticks, allowed_ticks, ticker_url, KiteTickerWs};

verus! {

/// Where a session stands.
#[derive(Debug, Clone, Copy, PartialEq, Eq, Structural)]
pub enum SessionState {
    Disconnected,
    Connecting,
    Subscribing,
    Running,
    Closing,
    Failed,
}

/// A frame that the server sent.
#[derive(Debug, Clone, PartialEq, Eq)]
pub enum Message {
    Binary(Vec<u8>),
    Text(String),
    Ping(Vec<u8>),
    Pong(Vec<u8>),
    Close,
    Other,
}

/// What happened to the connection since the last step.
#[derive(Debug, Clone, PartialEq, Eq)]
pub enum SessionEvent {
    /// The session is to begin.
    Start,
    /// The websocket is open.
    Connected,
    /// The websocket could not be opened.
    ConnectFailed(String),
    /// Every frame handed out for sending has been sent.
    Sent,
    /// A frame could not be sent.
    SendFailed(String),
    /// A frame has arrived.
    Received(Message),
    /// Reading failed.
    ReadFailed(String),
    /// The stream ran out.
    Ended,
}

/// What is to be done next.
#[derive(Debug, Clone, PartialEq, Eq)]
pub enum SessionAction {
    /// Open a websocket to this address.
    Connect(String),
    /// Send these text frames, in order.
    Send(Vec<String>),
    /// Read the next frame.
    Read,
    /// Send a pong with this payload.
    Pong(Vec<u8>),
    /// The session is over and ended cleanly.
    Finish,
    /// The session is over and failed.
    Fail(AppError),
}

/// The state that follows `state` on `event`, for a client that has tokens
/// to subscribe to or has none.
///
/// A session connects, subscribes, and then runs until the server closes
/// it, the stream runs out, or reading or writing fails. While it runs, no
/// frame of the server changes its state but a close. An event that the
/// state cannot meet fails the session.
pub open spec fn next_state(state: SessionState, event: SessionEvent, has_tokens: bool) -> SessionState {
    match (state, event) {
        (SessionState::Disconnected, SessionEvent::Start) => if has_tokens {
            SessionState::Connecting
        } else {
            SessionState::Failed
        },
        (SessionState::Connecting, SessionEvent::Connected) => SessionState::Subscribing,
        (SessionState::Subscribing, SessionEvent::Sent) => SessionState::Running,
        (SessionState::Running, SessionEvent::Sent) => SessionState::Running,
        (SessionState::Running, SessionEvent::Received(Message::Close)) => SessionState::Closing,
        (SessionState::Running, SessionEvent::Received(_)) => SessionState::Running,
        (SessionState::Running, SessionEvent::Ended) => SessionState::Closing,
        _ => SessionState::Failed,
    }
}

/// Whether `action` is what a session does on entering `next` from `state`
/// on `event`.
pub open spec fn action_fits(
    ws: &KiteTickerWs,
    state: SessionState,
    event: SessionEvent,
    next: SessionState,
    action: SessionAction,
) -> bool {
    match next {
        SessionState::Connecting => action matches SessionAction::Connect(url) && url@
            == ticker_url(ws.api_key(), ws.access_token()),
        SessionState::Subscribing => action matches SessionAction::Send(frames) && texts(frames@)
            == subscription_texts(ws.tokens()),
        SessionState::Running => match event {
            SessionEvent::Received(Message::Ping(payload)) => action matches SessionAction::Pong(
                reply,
            ) && reply@ == payload@,
            _ => action == SessionAction::Read,
        },
        SessionState::Closing => action == SessionAction::Finish,
        SessionState::Failed => action matches SessionAction::Fail(error) && match (state, event) {
            (SessionState::Disconnected, SessionEvent::Start) => error == AppError::NoSubscription,
            (SessionState::Connecting, SessionEvent::ConnectFailed(why)) => error
                == AppError::WsHandshake(why),
            (_, SessionEvent::SendFailed(why)) => error == AppError::WsIo(why),
            (_, SessionEvent::ReadFailed(why)) => error == AppError::WsIo(why),
            _ => error is Internal,
        },
        SessionState::Disconnected => false,
    }
}

impl KiteTickerWs {
    /// Takes one step of a session: from the state and what happened to the
    /// next state and what to do. A binary frame that arrives while the
    /// session runs is decoded and taken into `store`, with `received_ns` as
    /// its time of receipt; nothing else touches the store. A ping is
    /// answered by a pong with the same payload.
    pub fn step(
        &self,
        state: SessionState,
        event: SessionEvent,
        store: &mut TickStore,
        received_ns: u64,
    ) -> (r: (SessionState, SessionAction))
        ensures
            r.0 == next_state(state, event, self.tokens().len() > 0),
            action_fits(self, state, event, r.0, r.1),
            match (state, event) {
                (SessionState::Running, SessionEvent::Received(Message::Binary(payload))) => {
                    final(store)@ == after_ticks(
                        old(store)@,
                        allowed_ticks(frame_ticks(payload@, received_ns), self.allowed()),
                    )
                },
                _ => final(store)@ == old(store)@,
            },
            old(store).wf() ==> final(store).wf(),
    {
        match (state, event) {
            (SessionState::Disconnected, SessionEvent::Start) => {
                if self.has_tokens() {
                    (SessionState::Connecting, SessionAction::Connect(self.url()))
                } else {
                    (SessionState::Failed, SessionAction::Fail(AppError::NoSubscription))
                }
            },
            (SessionState::Connecting, SessionEvent::Connected) => {
                (SessionState::Subscribing, SessionAction::Send(self.subscribe_full()))
            },
            (SessionState::Connecting, SessionEvent::ConnectFailed(why)) => {
                (SessionState::Failed, SessionAction::Fail(AppError::WsHandshake(why)))
            },
            (SessionState::Subscribing, SessionEvent::Sent) => {
                (SessionState::Running, SessionAction::Read)
            },
            (SessionState::Running, SessionEvent::Sent) => {
                (SessionState::Running, SessionAction::Read)
            },
            (SessionState::Running, SessionEvent::Received(message)) => {
                match message {
                    Message::Binary(payload) => {
                        let _taken = self.ingest(store, payload.as_slice(), received_ns);
                        (SessionState::Running, SessionAction::Read)
                    },
                    Message::Ping(payload) => (SessionState::Running, SessionAction::Pong(payload)),
                    Message::Close => (SessionState::Closing, SessionAction::Finish),
                    _ => (SessionState::Running, SessionAction::Read),
                }
            },
            (SessionState::Running, SessionEvent::Ended) => {
                (SessionState::Closing, SessionAction::Finish)
            },
            (_, SessionEvent::SendFailed(why)) => {
                (SessionState::Failed, SessionAction::Fail(AppError::WsIo(why)))
            },
            (_, SessionEvent::ReadFailed(why)) => {
                (SessionState::Failed, SessionAction::Fail(AppError::WsIo(why)))
            },
            _ => {
                (
                    SessionState::Failed,
                    SessionAction::Fail(AppError::Internal("unexpected event".to_owned())),
                )
            },
        }
    }
}

/// While a session runs, a frame of the server or a finished send leaves it
/// running, but for a close; a close and the end of the stream close it;
/// any failure fails it.
pub proof fn lemma_running_session(event: SessionEvent, has_tokens: bool)
    ensures
        next_state(SessionState::Running, event, has_tokens) == match event {
            SessionEvent::Received(Message::Close) => SessionState::Closing,
            SessionEvent::Received(_) => SessionState::Running,
            SessionEvent::Sent => SessionState::Running,
            SessionEvent::Ended => SessionState::Closing,
            _ => SessionState::Failed,
        },
{
}

/// A session that is over stays over: from `Closing` and from `Failed`
/// every event leads to `Failed`, and nothing leads back to `Disconnected`.
pub proof fn lemma_session_ends(state: SessionState, event: SessionEvent, has_tokens: bool)
    ensures
        next_state(state, event, has_tokens) != SessionState::Disconnected,
        state == SessionState::Closing || state == SessionState::Failed ==> next_state(
            state,
            event,
            has_tokens,
        ) == SessionState::Failed,
{
}

} // verus!
