//! The WebSocket echo server.
use vstd::prelude::*;

verus! {

/// The kinds of messages on a WebSocket.
#[derive(Clone, Copy, Debug, PartialEq, Eq, Structural)]
pub enum MessageKind {
    Text,
    Binary,
    Ping,
    Pong,
    Close,
    Frame,
}

/// What came of the last thing that the server did.
#[derive(Clone, Copy, Debug, PartialEq, Eq, Structural)]
pub enum EchoEvent {
    /// A message was read.
    Received(MessageKind),
    /// Reading failed.
    ReadFailed,
    /// The message was sent back.
    Sent,
    /// Sending failed.
    SendFailed,
}

/// What the server does next.
#[derive(Clone, Copy, Debug, PartialEq, Eq, Structural)]
pub enum EchoAction {
    /// Read the next message.
    Read,
    /// Send the message back as it came.
    SendBack,
    /// Stop serving this client.
    Stop,
}

/// What the echo server does next. Text and binary messages are sent back,
/// others are not, and any error ends the service.
pub fn echo_step(event: EchoEvent) -> (action: EchoAction)
    ensures
        action == (match event {
            EchoEvent::Received(MessageKind::Text) => EchoAction::SendBack,
            EchoEvent::Received(MessageKind::Binary) => EchoAction::SendBack,
            EchoEvent::Received(_) => EchoAction::Read,
            EchoEvent::Sent => EchoAction::Read,
            EchoEvent::ReadFailed => EchoAction::Stop,
            EchoEvent::SendFailed => EchoAction::Stop,
        }),
{
    match event {
        EchoEvent::Received(kind) => {
            if kind == MessageKind::Binary || kind == MessageKind::Text {
                EchoAction::SendBack
            } else {
                EchoAction::Read
            }
        },
        EchoEvent::Sent => EchoAction::Read,
        EchoEvent::ReadFailed => EchoAction::Stop,
        EchoEvent::SendFailed => EchoAction::Stop,
    }
}

/// Data is sent back whatever its kind of data, nothing else is, and only an
/// error ends the service.
pub proof fn lemma_echo(event: EchoEvent, action: EchoAction)
    requires
        call_ensures(echo_step, (event,), action),
    ensures
        action == EchoAction::SendBack <==> event == EchoEvent::Received(MessageKind::Text) || event
            == EchoEvent::Received(MessageKind::Binary),
        action == EchoAction::Stop <==> event == EchoEvent::ReadFailed || event
            == EchoEvent::SendFailed,
{
}

} // verus!
