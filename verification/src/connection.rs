//! A live chat connection: reading inbound frames, and the decisions that
//! take it from the session gate to its end.

use vstd::prelude::*;
use vstd::string::*;
use std::ops::ControlFlow;
use crate::manager::chat_manager::{insertion_point, room_history, ChatManager};
use crate::manager::{
    text_option_view, ChatMessage, ChatMessageView, ChatRoom, StorageError, User,
};
use crate::router::{envelope_of, published, BroadcastRouter, Envelope, EnvelopeView};
use crate::utils::{i64_from_string, parse_i64, IntegerTextError};

verus! {

/// What a client sends to post a message.
#[derive(Debug)]
pub struct WsPayload {
    pub room_id: i64,
    pub chat_message: String,
}

pub struct WsPayloadView {
    pub room_id: i64,
    pub chat_message: Seq<char>,
}

impl View for WsPayload {
    type V = WsPayloadView;

    open spec fn view(&self) -> WsPayloadView {
        WsPayloadView { room_id: self.room_id, chat_message: self.chat_message@ }
    }
}

impl Clone for WsPayload {
    fn clone(&self) -> (r: Self)
        ensures
            r@ == self@,
    {
        WsPayload { room_id: self.room_id, chat_message: self.chat_message.clone() }
    }
}

/// Why an inbound text is no chat frame.
#[derive(Debug, Clone, Copy, PartialEq, Eq, Structural)]
pub enum FrameError {
    /// The text is no JSON object with a text member `room_id`.
    NoRoomId,
    /// The object has no text member `chat_message`.
    NoChatMessage,
    /// The member `room_id` does not read as an integer.
    BadRoomId(IntegerTextError),
}

/// The text of the member `key` of the JSON object that `text` denotes, as
/// `serde_json` reads it; `None` where `text` is not JSON, denotes something
/// other than an object, or the object has no member `key` that is a string.
pub uninterp spec fn json_string_member(text: Seq<char>, key: Seq<char>) -> Option<Seq<char>>;

/// Parses `text` with `serde_json::from_str` into a `serde_json::Value` and
/// looks `key` up in it with `Value::get`; a member that is a JSON string
/// is handed out as text. The result is a function of the two texts alone;
/// it is named, not described: `json_string_member`.
#[verifier::external_body]
fn read_json_string_member(text: &str, key: &str) -> (r: Option<String>)
    ensures
        text_option_view(r) == json_string_member(text@, key@),
{
    match serde_json::from_str::<serde_json::Value>(text) {
        Ok(value) => match value.get(key) {
            Some(serde_json::Value::String(member)) => Some(member.clone()),
            _ => None,
        },
        Err(_) => None,
    }
}

/// The payload that two members make, or what is wrong with them.
pub open spec fn payload_of(room_id: Option<Seq<char>>, chat_message: Option<Seq<char>>) -> Result<
    WsPayloadView,
    FrameError,
> {
    match (room_id, chat_message) {
        (None, _) => Err(FrameError::NoRoomId),
        (Some(_), None) => Err(FrameError::NoChatMessage),
        (Some(room), Some(message)) => match parse_i64(room) {
            Ok(id) => Ok(WsPayloadView { room_id: id, chat_message: message }),
            Err(e) => Err(FrameError::BadRoomId(e)),
        },
    }
}

/// The view of a decoded frame.
pub open spec fn payload_result_view(r: Result<WsPayload, FrameError>) -> Result<
    WsPayloadView,
    FrameError,
> {
    match r {
        Ok(p) => Ok(p@),
        Err(e) => Err(e),
    }
}

/// Makes a payload from the two members of a frame. The room travels as
/// text and has to read as an integer.
pub fn decode_payload(room_id: Option<String>, chat_message: Option<String>) -> (r: Result<
    WsPayload,
    FrameError,
>)
    ensures
        payload_result_view(r) == payload_of(text_option_view(room_id), text_option_view(chat_message)),
{
    let room: String = match room_id {
        Some(room) => room,
        None => {
            return Err(FrameError::NoRoomId);
        },
    };
    let message: String = match chat_message {
        Some(message) => message,
        None => {
            return Err(FrameError::NoChatMessage);
        },
    };
    match i64_from_string(room.as_str()) {
        Ok(id) => Ok(WsPayload { room_id: id, chat_message: message }),
        Err(e) => Err(FrameError::BadRoomId(e)),
    }
}

/// Reads an inbound text frame: a JSON object whose members `room_id` and
/// `chat_message` are both texts.
pub fn parse_payload(text: &str) -> (r: Result<WsPayload, FrameError>)
    ensures
        payload_result_view(r) == payload_of(
            json_string_member(text@, "room_id"@),
            json_string_member(text@, "chat_message"@),
        ),
{
    let room_id = read_json_string_member(text, "room_id");
    let chat_message = read_json_string_member(text, "chat_message");
    decode_payload(room_id, chat_message)
}

/// What arrives on a connection's socket.
#[derive(Debug)]
pub enum InboundFrame {
    /// A text frame.
    Text(String),
    /// Any other frame: binary, ping, pong or close.
    Other,
    /// The socket failed.
    Failed,
}

/// The view of what `process_message` gives.
pub open spec fn flow_view(f: ControlFlow<(), WsPayload>) -> Option<WsPayloadView> {
    match f {
        ControlFlow::Continue(p) => Some(p@),
        ControlFlow::Break(_) => None,
    }
}

/// What a frame means for the connection, given the two members read from
/// it where it is a text frame.
pub open spec fn frame_flow(frame: InboundFrame) -> Option<WsPayloadView> {
    match frame {
        InboundFrame::Text(text) => match payload_of(
            json_string_member(text@, "room_id"@),
            json_string_member(text@, "chat_message"@),
        ) {
            Ok(p) => Some(p),
            Err(_) => None,
        },
        _ => None,
    }
}

/// Reads one inbound frame. A well-formed text frame carries on with its
/// payload; a malformed one, a frame of another kind or a socket error ends
/// the connection.
pub fn process_message(msg: InboundFrame) -> (flow: ControlFlow<(), WsPayload>)
    ensures
        flow_view(flow) == frame_flow(msg),
{
    if let InboundFrame::Text(txt) = msg {
        return match parse_payload(txt.as_str()) {
            Ok(payload) => ControlFlow::Continue(payload),
            Err(_) => ControlFlow::Break(()),
        };
    }
    ControlFlow::Break(())
}

/// Where a connection stands.
#[derive(Debug, Clone, Copy, PartialEq, Eq, Structural)]
pub enum ConnectionState {
    /// The upgrade request has arrived; the session gate has not decided yet.
    Connecting,
    /// The session gate has passed the request; the room is being looked up.
    Authenticated,
    /// The room exists and the router has registered the subscription.
    Subscribed,
    /// Frames are read and broadcasts are forwarded.
    Streaming,
    /// The connection is over and holds no subscription.
    Closed,
}

/// What happens to a connection.
#[derive(Debug)]
pub enum ConnectionEvent {
    /// The session gate resolved the request's session.
    GatePassed,
    /// The session gate redirected the request.
    GateRejected,
    /// The room named in the path exists.
    RoomFound,
    /// The room named in the path does not exist.
    RoomMissing,
    /// The socket is open in both directions.
    Upgraded,
    /// A frame arrived from the client.
    Frame(InboundFrame),
    /// The ledger has answered the last `Store`.
    Stored(Result<ChatMessage, StorageError>),
    /// The peer went away, or writing to the socket failed.
    SocketClosed,
}

/// What the connection's owner is to do next.
#[derive(Debug)]
pub enum ConnectionAction {
    /// Nothing.
    Nothing,
    /// Answer with the redirect to the login page.
    Redirect,
    /// Look the room up in the ledger.
    ResolveRoom,
    /// Register the subscription with the router.
    Subscribe,
    /// Start reading frames and forwarding broadcasts.
    Stream,
    /// Append the payload's message to the connection's room.
    Store(WsPayload),
    /// Hand the envelope to the router.
    Publish(Envelope),
    /// Fail the upgrade; there is nothing to release.
    Refuse,
    /// Stop forwarding and close the subscription.
    Release,
}

pub enum ConnectionActionView {
    Nothing,
    Redirect,
    ResolveRoom,
    Subscribe,
    Stream,
    Store(WsPayloadView),
    Publish(EnvelopeView),
    Refuse,
    Release,
}

impl View for ConnectionAction {
    type V = ConnectionActionView;

    open spec fn view(&self) -> ConnectionActionView {
        match self {
            ConnectionAction::Nothing => ConnectionActionView::Nothing,
            ConnectionAction::Redirect => ConnectionActionView::Redirect,
            ConnectionAction::ResolveRoom => ConnectionActionView::ResolveRoom,
            ConnectionAction::Subscribe => ConnectionActionView::Subscribe,
            ConnectionAction::Stream => ConnectionActionView::Stream,
            ConnectionAction::Store(p) => ConnectionActionView::Store(p@),
            ConnectionAction::Publish(e) => ConnectionActionView::Publish(e@),
            ConnectionAction::Refuse => ConnectionActionView::Refuse,
            ConnectionAction::Release => ConnectionActionView::Release,
        }
    }
}

/// Whether a connection in `state` holds a subscription.
pub open spec fn holds_subscription(state: ConnectionState) -> bool {
    state == ConnectionState::Subscribed || state == ConnectionState::Streaming
}

/// How a connection ends from `state`: with a release where it holds a
/// subscription, silently where it is over already, and with a refusal of
/// the upgrade before that.
pub open spec fn shutdown(state: ConnectionState) -> (ConnectionState, ConnectionActionView) {
    (
        ConnectionState::Closed,
        if holds_subscription(state) {
            ConnectionActionView::Release
        } else if state == ConnectionState::Closed {
            ConnectionActionView::Nothing
        } else {
            ConnectionActionView::Refuse
        },
    )
}

/// The connection's rule: the state after `event` and what is to be done.
/// An event that has no place in `state` ends the connection.
pub open spec fn transition(state: ConnectionState, event: ConnectionEvent) -> (
    ConnectionState,
    ConnectionActionView,
) {
    match (state, event) {
        (ConnectionState::Connecting, ConnectionEvent::GatePassed) => (
            ConnectionState::Authenticated,
            ConnectionActionView::ResolveRoom,
        ),
        (ConnectionState::Connecting, ConnectionEvent::GateRejected) => (
            ConnectionState::Closed,
            ConnectionActionView::Redirect,
        ),
        (ConnectionState::Authenticated, ConnectionEvent::RoomFound) => (
            ConnectionState::Subscribed,
            ConnectionActionView::Subscribe,
        ),
        (ConnectionState::Subscribed, ConnectionEvent::Upgraded) => (
            ConnectionState::Streaming,
            ConnectionActionView::Stream,
        ),
        (ConnectionState::Streaming, ConnectionEvent::Frame(frame)) => match frame_flow(frame) {
            Some(payload) => (ConnectionState::Streaming, ConnectionActionView::Store(payload)),
            None => shutdown(state),
        },
        (ConnectionState::Streaming, ConnectionEvent::Stored(Ok(message))) => (
            ConnectionState::Streaming,
            ConnectionActionView::Publish(envelope_of(message@)),
        ),
        _ => shutdown(state),
    }
}

/// How a connection ends from `state`.
fn shut_down(state: ConnectionState) -> (r: (ConnectionState, ConnectionAction))
    ensures
        (r.0, r.1@) == shutdown(state),
{
    match state {
        ConnectionState::Subscribed | ConnectionState::Streaming => (
            ConnectionState::Closed,
            ConnectionAction::Release,
        ),
        ConnectionState::Closed => (ConnectionState::Closed, ConnectionAction::Nothing),
        _ => (ConnectionState::Closed, ConnectionAction::Refuse),
    }
}

/// Takes a connection one step: from its state and what happened to its
/// next state and what its owner is to do. A message is handed to the
/// router only after the ledger has stored it, and every way out of a
/// state with a subscription releases it.
pub fn step(state: ConnectionState, event: ConnectionEvent) -> (r: (ConnectionState, ConnectionAction))
    ensures
        (r.0, r.1@) == transition(state, event),
{
    match state {
        ConnectionState::Connecting => match event {
            ConnectionEvent::GatePassed => (
                ConnectionState::Authenticated,
                ConnectionAction::ResolveRoom,
            ),
            ConnectionEvent::GateRejected => (ConnectionState::Closed, ConnectionAction::Redirect),
            _ => shut_down(state),
        },
        ConnectionState::Authenticated => match event {
            ConnectionEvent::RoomFound => (ConnectionState::Subscribed, ConnectionAction::Subscribe),
            _ => shut_down(state),
        },
        ConnectionState::Subscribed => match event {
            ConnectionEvent::Upgraded => (ConnectionState::Streaming, ConnectionAction::Stream),
            _ => shut_down(state),
        },
        ConnectionState::Streaming => match event {
            ConnectionEvent::Frame(frame) => match process_message(frame) {
                ControlFlow::Continue(payload) => (
                    ConnectionState::Streaming,
                    ConnectionAction::Store(payload),
                ),
                ControlFlow::Break(_) => shut_down(state),
            },
            ConnectionEvent::Stored(Ok(message)) => (
                ConnectionState::Streaming,
                ConnectionAction::Publish(Envelope::from_message(&message)),
            ),
            _ => shut_down(state),
        },
        ConnectionState::Closed => shut_down(state),
    }
}

/// A closed connection stays closed and asks for nothing more.
pub proof fn lemma_closed_is_final(event: ConnectionEvent)
    ensures
        transition(ConnectionState::Closed, event) == (
            ConnectionState::Closed,
            ConnectionActionView::Nothing,
        ),
{
}

/// A connection that holds a subscription releases it on every way to its
/// end, and a connection never releases what it does not hold.
pub proof fn lemma_subscription_released(state: ConnectionState, event: ConnectionEvent)
    ensures
        holds_subscription(state) && transition(state, event).0 == ConnectionState::Closed
            ==> transition(state, event).1 == ConnectionActionView::Release,
        transition(state, event).1 == ConnectionActionView::Release ==> holds_subscription(state)
            && transition(state, event).0 == ConnectionState::Closed,
        holds_subscription(transition(state, event).0) ==> holds_subscription(state)
            || transition(state, event).1 == ConnectionActionView::Subscribe,
{
}

/// Write, then publish: an envelope is handed to the router only in answer
/// to the ledger having stored its message, and it carries that message.
pub proof fn lemma_stored_before_published(
    state: ConnectionState,
    event: ConnectionEvent,
    envelope: EnvelopeView,
)
    requires
        transition(state, event).1 == ConnectionActionView::Publish(envelope),
    ensures
        state == ConnectionState::Streaming,
        event matches ConnectionEvent::Stored(Ok(message)) && envelope == envelope_of(message@),
{
}

/// Nothing about rooms or messages is asked for before the session gate has passed
/// the request: from the start, only a passed gate leads on, and a rejected
/// one ends in the redirect to the login page.
pub proof fn lemma_gate_comes_first(event: ConnectionEvent)
    ensures
        event is GatePassed || transition(ConnectionState::Connecting, event).0
            == ConnectionState::Closed,
        event is GateRejected ==> transition(ConnectionState::Connecting, event) == (
            ConnectionState::Closed,
            ConnectionActionView::Redirect,
        ),
        !(transition(ConnectionState::Connecting, event).1 is Store),
        !(transition(ConnectionState::Connecting, event).1 is Publish),
        !(transition(ConnectionState::Connecting, event).1 is Subscribe),
{
}

/// The way to streaming leads through every stage: a connection streams
/// only after its subscription was made, holds a subscription only after
/// its room was found, and looks for the room only after its session was
/// resolved.
pub proof fn lemma_stages_in_order(state: ConnectionState, event: ConnectionEvent)
    ensures
        transition(state, event).0 == ConnectionState::Streaming ==> state
            == ConnectionState::Streaming || (state == ConnectionState::Subscribed
            && event is Upgraded),
        transition(state, event).0 == ConnectionState::Subscribed ==> state
            == ConnectionState::Authenticated && event is RoomFound,
        transition(state, event).0 == ConnectionState::Authenticated ==> state
            == ConnectionState::Connecting && event is GatePassed,
        transition(state, event).0 != ConnectionState::Connecting,
{
}

/// Stores a message of `user` in `room` and, once it is stored, publishes
/// it: write, then publish. On success the message is in the room's
/// history and every subscriber with room in its queue has the message's
/// envelope at the end of that queue, so whoever sees it live will find it
/// in a later read of the history. Where the ledger refuses the message,
/// nothing is published and neither the ledger nor the router changes.
pub fn post_message(
    user: &User,
    room: &ChatRoom,
    body: &str,
    now: i64,
    ledger: &mut ChatManager,
    router: &mut BroadcastRouter,
) -> (r: Result<ChatMessage, StorageError>)
    requires
        old(ledger).wf(),
        old(router).wf(),
    ensures
        final(ledger).wf(),
        final(router).wf(),
        final(ledger)@.rooms == old(ledger)@.rooms,
        final(ledger)@.members == old(ledger)@.members,
        final(router)@.capacity == old(router)@.capacity,
        final(router)@.issued == old(router)@.issued,
        r is Ok <==> 1 <= room.id <= old(ledger)@.rooms.len() && old(ledger)@.messages.len() + 1
            < i64::MAX,
        match r {
            Ok(m) => {
                &&& m@ == (ChatMessageView {
                    id: (old(ledger)@.messages.len() + 1) as i64,
                    user_id: Some(user.id),
                    room_id: room.id,
                    message: body@,
                    time_created: now,
                })
                &&& final(ledger)@.messages == old(ledger)@.messages.insert(
                    insertion_point(old(ledger)@.messages, now),
                    m@,
                )
                &&& room_history(final(ledger)@.messages, room.id).contains(m@)
                &&& final(router)@.subscribers == published(
                    old(router)@.subscribers,
                    old(router)@.capacity,
                    envelope_of(m@),
                )
            },
            Err(e) => {
                &&& final(ledger)@ == old(ledger)@
                &&& final(router)@ == old(router)@
                &&& e == if 1 <= room.id <= old(ledger)@.rooms.len() {
                    StorageError::Unavailable
                } else {
                    StorageError::ConstraintViolation
                }
            },
        },
{
    match ledger.new_chat(user, room, body, now) {
        Ok(stored) => {
            router.publish(Envelope::from_message(&stored));
            Ok(stored)
        },
        Err(e) => Err(e),
    }
}

} // verus!
