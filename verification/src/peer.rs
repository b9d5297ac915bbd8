//! A WebSocket over which a browser sends the offer for a peer connection.
use vstd::prelude::*;
use webrtc::peer_connection::sdp::session_description::RTCSessionDescription;

verus! {

/// The server by which a peer finds out its public address.
pub const ICE_SERVER_URL: &'static str = "stun:stun.l.google.com:19302";

/// What came of the last thing that was done on the socket.
#[derive(Clone, Copy, Debug, PartialEq, Eq, Structural)]
pub enum PeerEvent {
    /// The first ping was sent.
    Pinged,
    /// The first ping could not be sent.
    PingFailed,
    /// A message with an offer came.
    Offer,
    /// A message without an offer came.
    Unreadable,
    /// The answer to the offer was made.
    Answered,
    /// The answer was sent.
    AnswerSent,
    /// The answer could not be sent.
    AnswerFailed,
    /// Receiving failed.
    Disconnected,
    /// The socket was closed.
    Ended,
}

/// What to do next on the socket.
#[derive(Clone, Copy, Debug, PartialEq, Eq, Structural)]
pub enum PeerAction {
    /// Wait for the next message.
    Receive,
    /// Have the offer answered.
    Negotiate,
    /// Send the browser the answer.
    SendAnswer,
    /// Close the socket.
    Close,
}

/// What to do next on the socket. A socket that cannot be pinged is given up;
/// messages are read until one holds an offer or no more come. The answer is
/// sent to the browser, and then there is no more to say.
pub fn peer_step(event: PeerEvent) -> (action: PeerAction)
    ensures
        action == (match event {
            PeerEvent::Pinged => PeerAction::Receive,
            PeerEvent::Unreadable => PeerAction::Receive,
            PeerEvent::Offer => PeerAction::Negotiate,
            PeerEvent::Answered => PeerAction::SendAnswer,
            PeerEvent::AnswerSent => PeerAction::Close,
            PeerEvent::AnswerFailed => PeerAction::Close,
            PeerEvent::PingFailed => PeerAction::Close,
            PeerEvent::Disconnected => PeerAction::Close,
            PeerEvent::Ended => PeerAction::Close,
        }),
{
    match event {
        PeerEvent::Pinged => PeerAction::Receive,
        PeerEvent::Unreadable => PeerAction::Receive,
        PeerEvent::Offer => PeerAction::Negotiate,
        PeerEvent::Answered => PeerAction::SendAnswer,
        PeerEvent::AnswerSent => PeerAction::Close,
        PeerEvent::AnswerFailed => PeerAction::Close,
        PeerEvent::PingFailed => PeerAction::Close,
        PeerEvent::Disconnected => PeerAction::Close,
        PeerEvent::Ended => PeerAction::Close,
    }
}

/// A session description of a peer connection.
#[verifier::external_type_specification]
#[verifier::external_body]
pub struct ExSessionDescription(RTCSessionDescription);

/// The session description that a text is read as, where it is one.
pub uninterp spec fn description_of(text: Seq<char>) -> Option<RTCSessionDescription>;

/// The text of a session description.
pub uninterp spec fn description_text(description: RTCSessionDescription) -> Seq<char>;

/// `serde_json::from_str` reads a session description, which depends on the
/// text alone.
#[verifier::external_body]
fn read_description(text: &str) -> (description: Option<RTCSessionDescription>)
    ensures
        description == description_of(text@),
{
    serde_json::from_str(text).ok()
}

/// `serde_json::to_string` writes a session description, which depends on the
/// description alone and does not fail.
#[verifier::external_body]
fn write_description(description: &RTCSessionDescription) -> (text: Result<
    String,
    serde_json::Error,
>)
    ensures
        text is Ok,
        text->Ok_0@ == description_text(*description),
{
    serde_json::to_string(description)
}

/// What a message of the browser means, and the offer that it holds, if any.
pub fn read_message(text: &str) -> (read: (PeerEvent, Option<RTCSessionDescription>))
    ensures
        read.0 == if description_of(text@) is Some {
            PeerEvent::Offer
        } else {
            PeerEvent::Unreadable
        },
        read.1 == description_of(text@),
{
    match read_description(text) {
        Some(description) => (PeerEvent::Offer, Some(description)),
        None => (PeerEvent::Unreadable, None),
    }
}

/// The message that gives the browser an answer.
pub fn answer_message(answer: &RTCSessionDescription) -> (text: String)
    ensures
        text@ == description_text(*answer),
{
    write_description(answer).unwrap()
}

/// The payload of the first ping.
pub fn ping_payload() -> (payload: Vec<u8>)
    ensures
        payload@ == seq![1u8, 2u8, 3u8],
{
    vec![1, 2, 3]
}

/// What a browser is called: by its user agent, if it sent one.
pub fn browser_label(user_agent: Option<String>) -> (label: String)
    ensures
        label@ == (match user_agent {
            Some(name) => name@,
            None => "Unknown browser"@,
        }),
{
    match user_agent {
        Some(name) => name,
        None => "Unknown browser".to_owned(),
    }
}

/// A socket is read from until it holds an offer, which is answered once; it is
/// closed after that and wherever something failed or no more comes.
pub proof fn lemma_peer(event: PeerEvent, action: PeerAction)
    requires
        call_ensures(peer_step, (event,), action),
    ensures
        action == PeerAction::Negotiate <==> event == PeerEvent::Offer,
        action == PeerAction::SendAnswer <==> event == PeerEvent::Answered,
        action == PeerAction::Receive <==> event == PeerEvent::Pinged || event
            == PeerEvent::Unreadable,
{
}

/// A message is an offer if and only if it holds a session description, and
/// then it is that one.
pub proof fn lemma_messages_are_read(
    text: &str,
    read: (PeerEvent, Option<RTCSessionDescription>),
)
    requires
        call_ensures(read_message, (text,), read),
    ensures
        read.1 == description_of(text@),
        read.0 == PeerEvent::Offer <==> read.1 is Some,
        read.0 == PeerEvent::Unreadable <==> read.1 is None,
{
}

/// The answer is sent as it is written, and a browser is called what it calls itself.
pub proof fn lemma_texts_of_a_peer(
    answer: &RTCSessionDescription,
    text: String,
    user_agent: Option<String>,
    label: String,
)
    requires
        call_ensures(answer_message, (answer,), text),
        call_ensures(browser_label, (user_agent,), label),
    ensures
        text@ == description_text(*answer),
        user_agent is Some ==> label@ == user_agent->0@,
        user_agent is None ==> label@ == "Unknown browser"@,
{
}

/// The first ping carries the bytes one, two and three.
pub proof fn lemma_first_ping(payload: Vec<u8>, i: int)
    requires
        call_ensures(ping_payload, (), payload),
    ensures
        payload@.len() == 3,
        0 <= i < 3 ==> payload@[i] == i + 1,
{
}

} // verus!
