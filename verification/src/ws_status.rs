//! Connection status of a websocket client, as stored in one byte, what a
//! connect request does with it, and what the connection loop does with each
//! event it receives.
use crate::text::{owned, push_str};
use vstd::prelude::*;
use vstd::utf8::{decode_utf8, valid_utf8};

verus! {

#[derive(Debug, Clone, Copy, PartialEq, Eq, Structural)]
pub enum ConnectStatus {
    Connecting,
    Connected,
    Disconnected,
}

/// A connection status as its byte: 0 connecting, 1 connected, 2
/// disconnected.
#[derive(Debug, Clone, Copy, PartialEq, Eq, Structural)]
pub struct ConnectStatusRepr(pub u8);

pub open spec fn status_byte(s: ConnectStatus) -> u8 {
    match s {
        ConnectStatus::Connecting => 0,
        ConnectStatus::Connected => 1,
        ConnectStatus::Disconnected => 2,
    }
}

impl ConnectStatusRepr {
    /// The byte of a status.
    pub fn from_status(status: ConnectStatus) -> (r: ConnectStatusRepr)
        ensures
            r.0 == status_byte(status),
    {
        match status {
            ConnectStatus::Connecting => ConnectStatusRepr(0),
            ConnectStatus::Connected => ConnectStatusRepr(1),
            ConnectStatus::Disconnected => ConnectStatusRepr(2),
        }
    }
}

impl ConnectStatus {
    /// The status of a byte; `Err` for a byte that is no status.
    pub fn try_from_repr(value: ConnectStatusRepr) -> (r: Result<ConnectStatus, ()>)
        ensures
            value.0 <= 2 ==> (r matches Ok(s) && status_byte(s) == value.0),
            value.0 > 2 ==> r is Err,
    {
        if value.0 == 2 {
            Ok(ConnectStatus::Disconnected)
        } else if value.0 == 0 {
            Ok(ConnectStatus::Connecting)
        } else if value.0 == 1 {
            Ok(ConnectStatus::Connected)
        } else {
            Err(())
        }
    }
}

/// The stored status is "connected".
pub fn is_connected(value: ConnectStatusRepr) -> (r: bool)
    ensures
        r == (value.0 == 1),
{
    value.0 == 1
}

/// The stored status is "connecting".
pub fn is_connecting(value: ConnectStatusRepr) -> (r: bool)
    ensures
        r == (value.0 == 0),
{
    value.0 == 0
}

/// What a connect request does.
#[derive(Debug, Clone, Copy, PartialEq, Eq, Structural)]
pub enum ConnectStep {
    /// Already connected: nothing to do.
    Done,
    /// Another connect is under way: wait for it.
    Wait,
    /// Mark the client connecting and connect.
    Connect,
}

pub fn connect_step(value: ConnectStatusRepr) -> (r: ConnectStep)
    ensures
        value.0 == 1 ==> r == ConnectStep::Done,
        value.0 == 0 ==> r == ConnectStep::Wait,
        value.0 != 0 && value.0 != 1 ==> r == ConnectStep::Connect,
{
    if is_connected(value) {
        ConnectStep::Done
    } else if is_connecting(value) {
        ConnectStep::Wait
    } else {
        ConnectStep::Connect
    }
}

/// The byte of a status reads back as that status.
pub proof fn law_status_roundtrip(s: ConnectStatus)
    ensures
        status_byte(s) <= 2,
        forall|t: ConnectStatus| status_byte(t) == status_byte(s) ==> t == s,
{
}


/// The status stored once a connection attempt has ended: connected when it
/// succeeded, disconnected otherwise.
pub fn status_after_connect(connected: bool) -> (r: ConnectStatusRepr)
    ensures
        r.0 == (if connected { status_byte(ConnectStatus::Connected) } else { status_byte(ConnectStatus::Disconnected) }),
{
    if connected {
        ConnectStatusRepr::from_status(ConnectStatus::Connected)
    } else {
        ConnectStatusRepr::from_status(ConnectStatus::Disconnected)
    }
}

/// A future polled once: it is held until it is taken out to be polled.
pub struct ConditionalFuture<F> {
    inner_future: Option<F>,
}

impl<F> ConditionalFuture<F> {
    pub closed spec fn inner(self) -> Option<F> {
        self.inner_future
    }

    /// Holds `future`.
    pub fn new(future: F) -> (r: Self)
        ensures
            r.inner() == Some(future),
    {
        ConditionalFuture { inner_future: Some(future) }
    }

    /// Takes the held future out, to be polled.
    pub fn take(&mut self) -> (r: F)
        requires
            old(self).inner() is Some,
        ensures
            r == old(self).inner()->0,
            final(self).inner() is None,
    {
        let f = self.inner_future.take();
        f.unwrap()
    }

    /// The outcome of the one poll: the value when the future was ready,
    /// otherwise the future itself, to be awaited later.
    pub fn outcome<T>(future: F, polled: Option<T>) -> (r: Result<T, F>)
        ensures
            match polled {
                Some(v) => r == Ok::<T, F>(v),
                None => r == Err::<T, F>(future),
            },
    {
        match polled {
            Some(v) => Ok(v),
            None => Err(future),
        }
    }
}

/// Calls `String::from_utf8`, which gives the text of bytes that are valid
/// UTF-8 and an error otherwise.
#[verifier::external_body]
fn utf8_text(bytes: Vec<u8>) -> (r: Option<String>)
    ensures
        r is Some <==> valid_utf8(bytes@),
        r matches Some(s) ==> s@ == decode_utf8(bytes@),
{
    String::from_utf8(bytes).ok()
}

/// What the connection loop of a websocket client receives. `C` is an
/// outgoing message queued by the client's owner.
pub enum WsEvent<C> {
    /// The ping interval ticked (`false`: the interval ended).
    PingTick(bool),
    /// A binary frame.
    Binary(Vec<u8>),
    /// A text frame, as its bytes.
    Text(Vec<u8>),
    /// A ping frame with its payload.
    Ping(Vec<u8>),
    /// A pong frame.
    Pong,
    /// A close frame, with its reason as text.
    Close(String),
    /// A continuation frame.
    Continuation,
    /// A protocol error, as text.
    Error(String),
    /// The frame stream ended.
    StreamEnded,
    /// The owner's queue gave a message (`None`: the queue closed).
    Command(Option<C>),
    /// A message handler finished (`false`: the handler set was exhausted).
    HandlerDone(bool),
    /// A send finished (`None`: the send set was exhausted; `Some(Err(e))`: it
    /// failed with `e`).
    SendDone(Option<Result<(), String>>),
}

/// What the connection loop does with an event.
pub enum WsAction<C> {
    /// Nothing.
    Ignore,
    /// Send a ping.
    SendPing,
    /// Answer a ping with a pong carrying its payload.
    SendPong(Vec<u8>),
    /// Send the owner's message.
    Send(C),
    /// Hand a binary message to the owner.
    DeliverBinary(Vec<u8>),
    /// Hand a text message to the owner.
    DeliverText(String),
    /// Leave the loop with this error; the client is then disconnected.
    Stop(String),
}

/// The error text of an event that ends the loop, if it does.
pub open spec fn stop_text<C>(event: WsEvent<C>) -> Option<Seq<char>> {
    match event {
        WsEvent::PingTick(ticked) => if ticked { None } else { Some("Internal error in ping"@) },
        WsEvent::Text(bytes) => if valid_utf8(bytes@) { None } else { Some("Parser utf8 failed"@) },
        WsEvent::Close(reason) => Some("Closed socket: "@ + reason@),
        WsEvent::Continuation => Some("Unsupported continuation"@),
        WsEvent::Error(e) => Some("WebSocket error: "@ + e@),
        WsEvent::StreamEnded => Some("Closed channel [message]"@),
        WsEvent::Command(c) => if c is Some { None } else { Some("Closed channel [maybe_cmd]"@) },
        WsEvent::HandlerDone(more) => if more { None } else { Some("Wsclient failed"@) },
        WsEvent::SendDone(r) => match r {
            None => Some("Closed channel [ext_res]"@),
            Some(Err(e)) => Some("Send external failed: "@ + e@),
            Some(Ok(())) => None,
        },
        _ => None,
    }
}

fn joined_text(prefix: &str, rest: &String) -> (r: String)
    ensures
        r@ == prefix@ + rest@,
{
    let mut s = owned(prefix);
    push_str(&mut s, rest.as_str());
    s
}

/// One step of the connection loop.
pub fn ws_step<C>(event: WsEvent<C>) -> (r: WsAction<C>)
    ensures
        stop_text(event) matches Some(t) ==> (r matches WsAction::Stop(e) && e@ == t),
        stop_text(event) is None ==> match event {
            WsEvent::PingTick(_) => r is SendPing,
            WsEvent::Binary(b) => r == WsAction::<C>::DeliverBinary(b),
            WsEvent::Text(b) => (r matches WsAction::DeliverText(t) && t@ == decode_utf8(b@)),
            WsEvent::Ping(p) => r == WsAction::<C>::SendPong(p),
            WsEvent::Command(c) => r == WsAction::<C>::Send(c->0),
            _ => r is Ignore,
        },
{
    match event {
        WsEvent::PingTick(ticked) => {
            if ticked {
                WsAction::SendPing
            } else {
                WsAction::Stop(owned("Internal error in ping"))
            }
        },
        WsEvent::Binary(b) => WsAction::DeliverBinary(b),
        WsEvent::Text(b) => {
            match utf8_text(b) {
                Some(t) => WsAction::DeliverText(t),
                None => WsAction::Stop(owned("Parser utf8 failed")),
            }
        },
        WsEvent::Ping(p) => WsAction::SendPong(p),
        WsEvent::Pong => WsAction::Ignore,
        WsEvent::Close(reason) => WsAction::Stop(joined_text("Closed socket: ", &reason)),
        WsEvent::Continuation => WsAction::Stop(owned("Unsupported continuation")),
        WsEvent::Error(e) => WsAction::Stop(joined_text("WebSocket error: ", &e)),
        WsEvent::StreamEnded => WsAction::Stop(owned("Closed channel [message]")),
        WsEvent::Command(c) => match c {
            Some(c) => WsAction::Send(c),
            None => WsAction::Stop(owned("Closed channel [maybe_cmd]")),
        },
        WsEvent::HandlerDone(more) => {
            if more {
                WsAction::Ignore
            } else {
                WsAction::Stop(owned("Wsclient failed"))
            }
        },
        WsEvent::SendDone(r) => match r {
            None => WsAction::Stop(owned("Closed channel [ext_res]")),
            Some(Err(e)) => WsAction::Stop(joined_text("Send external failed: ", &e)),
            Some(Ok(())) => WsAction::Ignore,
        },
    }
}

} // verus!
