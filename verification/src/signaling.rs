//! The messages by which a browser and the server set up a connection, and
//! what the server does about each event while a connection lasts.
use serde_json::{Map as JsonMap, Value};
use vstd::prelude::*;

use crate::net::{is_transient_udp_recv_err, SocketAddrV4, SocketError};
use crate::platform::Platform;

verus! {

/// How long a connection first waits for something to happen.
pub const INITIAL_DEADLINE_MILLIS: u64 = 50;

/// How long a connection waits that did not ask to be given the time.
pub const FALLBACK_DEADLINE_MILLIS: u64 = 10;

/// The size of the largest datagram.
pub const DATAGRAM_BYTES: usize = 65507;

/// The size that is asked for the send buffer of a socket.
pub const SEND_BUFFER_BYTES: usize = 20_971_520;

/// A message from the browser.
#[derive(Debug)]
pub enum WsInbound {
    Offer { sdp: String },
    Candidate { candidate: String, sdp_mid: Option<String>, sdp_m_line_index: Option<u32> },
    EndOfCandidates,
}

/// What came of waiting for the next frame from the browser.
pub enum WsEvent {
    /// A text or binary frame, with the message in it if it holds one.
    Data(Option<WsInbound>),
    /// A frame that closes the connection.
    Close,
    /// A frame of another kind.
    Control,
    /// An error.
    Failed,
    /// The connection has ended.
    Ended,
}

/// Why a browser gets no connection.
#[derive(Clone, Copy, Debug, PartialEq, Eq, Structural)]
pub enum SignalingError {
    /// The browser is gone.
    ClientClosed,
    /// Receiving failed.
    Receive,
    /// The frame holds no message.
    Unreadable,
    /// The frame is neither text nor binary.
    UnexpectedFrame,
    /// The message is no offer.
    NotAnOffer,
    /// The offer got no answer.
    NoAnswer,
}

/// A datagram on its way to a connection.
#[derive(Debug)]
pub struct UdpIn {
    pub buf: Vec<u8>,
    pub src: SocketAddrV4,
    pub dst: SocketAddrV4,
}

/// How far the conversation with a browser has got.
#[derive(Clone, Copy, Debug, PartialEq, Eq, Structural)]
pub enum Phase {
    /// The browser has to make an offer.
    AwaitingOffer,
    /// The offer has to be answered.
    AwaitingAnswer,
    /// The answer was sent.
    Open,
    /// The conversation is over.
    Closed,
}

/// An event in the conversation with a browser.
pub enum SignalingEvent {
    /// Something came of waiting for a frame.
    Frame(WsEvent),
    /// A datagram was received.
    Datagram { data: Vec<u8>, source: SocketAddrV4 },
    /// Receiving a datagram failed.
    ReceiveFailed(SocketError),
    /// The deadline has passed.
    DeadlinePassed,
    /// The answer to the offer was made, or none where it could not be.
    Answer(Option<String>),
}

/// What to do about an event.
pub enum SignalingAction {
    /// Have a connection answer the offer.
    Negotiate(String),
    /// Send the browser the message with the answer.
    SendAnswer(String),
    /// Give up.
    Fail(SignalingError),
    /// Hand a message on to the connection.
    Forward(WsInbound),
    /// Hand a datagram on to the connection.
    Deliver(UdpIn),
    /// Tell the connection to look at the time.
    Tick,
    /// Report an error and go on.
    Report,
    /// Go on.
    Ignore,
    /// Stop.
    Stop,
}

/// The session description of a frame that has to be an offer.
pub open spec fn offer_in(event: WsEvent) -> Result<String, SignalingError> {
    match event {
        WsEvent::Data(Some(WsInbound::Offer { sdp })) => Ok(sdp),
        WsEvent::Data(Some(_)) => Err(SignalingError::NotAnOffer),
        WsEvent::Data(None) => Err(SignalingError::Unreadable),
        WsEvent::Close => Err(SignalingError::UnexpectedFrame),
        WsEvent::Control => Err(SignalingError::UnexpectedFrame),
        WsEvent::Failed => Err(SignalingError::Receive),
        WsEvent::Ended => Err(SignalingError::ClientClosed),
    }
}

/// The session description of a browser's first frame, which has to be an offer.
pub fn first_offer(event: WsEvent) -> (offer: Result<String, SignalingError>)
    ensures
        offer == offer_in(event),
{
    match event {
        WsEvent::Data(Some(message)) => match message {
            WsInbound::Offer { sdp } => Ok(sdp),
            _ => Err(SignalingError::NotAnOffer),
        },
        WsEvent::Data(None) => Err(SignalingError::Unreadable),
        WsEvent::Close => Err(SignalingError::UnexpectedFrame),
        WsEvent::Control => Err(SignalingError::UnexpectedFrame),
        WsEvent::Failed => Err(SignalingError::Receive),
        WsEvent::Ended => Err(SignalingError::ClientClosed),
    }
}

impl Phase {
    /// The phase after an event. An event that does not belong to the phase
    /// changes nothing.
    pub open spec fn after(self, event: SignalingEvent) -> Phase {
        match (self, event) {
            (Phase::AwaitingOffer, SignalingEvent::Frame(frame)) => if frame matches WsEvent::Data(
                Some(WsInbound::Offer { .. }),
            ) {
                Phase::AwaitingAnswer
            } else {
                Phase::Closed
            },
            (Phase::AwaitingAnswer, SignalingEvent::Answer(answer)) => if answer is Some {
                Phase::Open
            } else {
                Phase::Closed
            },
            (Phase::Open, SignalingEvent::Frame(frame)) => if frame is Close || frame is Failed
                || frame is Ended {
                Phase::Closed
            } else {
                Phase::Open
            },
            _ => self,
        }
    }

    /// The phase after several events.
    pub open spec fn after_all(self, events: Seq<SignalingEvent>) -> Phase
        decreases events.len(),
    {
        if events.len() == 0 {
            self
        } else {
            self.after_all(events.drop_last()).after(events.last())
        }
    }

    /// Whether an event leads to the answer being sent.
    pub open spec fn answers_at(self, event: SignalingEvent) -> bool {
        self == Phase::AwaitingAnswer && event matches SignalingEvent::Answer(Some(_))
    }
}

/// What to do about an event while the connection lasts, whose socket is bound to `local`.
pub open spec fn open_action(
    event: SignalingEvent,
    local: SocketAddrV4,
    platform: Platform,
) -> SignalingAction {
    match event {
        SignalingEvent::Frame(frame) => match frame {
            WsEvent::Data(Some(message)) => SignalingAction::Forward(message),
            WsEvent::Data(None) => SignalingAction::Ignore,
            WsEvent::Control => SignalingAction::Ignore,
            WsEvent::Close => SignalingAction::Stop,
            WsEvent::Failed => SignalingAction::Stop,
            WsEvent::Ended => SignalingAction::Stop,
        },
        SignalingEvent::Datagram { data, source } => if data@.len() > 0 {
            SignalingAction::Deliver(UdpIn { buf: data, src: source, dst: local })
        } else {
            SignalingAction::Ignore
        },
        SignalingEvent::ReceiveFailed(e) => if platform == Platform::Windows && (
        e.connection_reset || e.os_error == Some(crate::net::WSAECONNRESET)) {
            SignalingAction::Ignore
        } else {
            SignalingAction::Report
        },
        SignalingEvent::DeadlinePassed => SignalingAction::Tick,
        SignalingEvent::Answer(_) => SignalingAction::Ignore,
    }
}

/// Whether `action` is what to do about an event in a phase of the conversation.
pub open spec fn is_action(
    action: SignalingAction,
    phase: Phase,
    event: SignalingEvent,
    local: SocketAddrV4,
    platform: Platform,
) -> bool {
    match (phase, event) {
        (Phase::AwaitingOffer, SignalingEvent::Frame(frame)) => action == (match offer_in(frame) {
            Ok(sdp) => SignalingAction::Negotiate(sdp),
            Err(e) => SignalingAction::Fail(e),
        }),
        (Phase::AwaitingAnswer, SignalingEvent::Answer(answer)) => match answer {
            Some(sdp) => action matches SignalingAction::SendAnswer(text) && text@ == json_object(
                "type"@,
                "answer"@,
                "sdp"@,
                sdp@,
            ),
            None => action == SignalingAction::Fail(SignalingError::NoAnswer),
        },
        (Phase::Open, _) => action == open_action(event, local, platform),
        _ => action == SignalingAction::Ignore,
    }
}

fn open_step(event: SignalingEvent, local: SocketAddrV4, platform: Platform) -> (action:
    SignalingAction)
    ensures
        action == open_action(event, local, platform),
{
    match event {
        SignalingEvent::Frame(frame) => match frame {
            WsEvent::Data(Some(message)) => SignalingAction::Forward(message),
            WsEvent::Data(None) => SignalingAction::Ignore,
            WsEvent::Control => SignalingAction::Ignore,
            WsEvent::Close => SignalingAction::Stop,
            WsEvent::Failed => SignalingAction::Stop,
            WsEvent::Ended => SignalingAction::Stop,
        },
        SignalingEvent::Datagram { data, source } => if data.len() > 0 {
            SignalingAction::Deliver(UdpIn { buf: data, src: source, dst: local })
        } else {
            SignalingAction::Ignore
        },
        SignalingEvent::ReceiveFailed(e) => if is_transient_udp_recv_err(&e, platform) {
            SignalingAction::Ignore
        } else {
            SignalingAction::Report
        },
        SignalingEvent::DeadlinePassed => SignalingAction::Tick,
        SignalingEvent::Answer(_) => SignalingAction::Ignore,
    }
}

/// What to do about an event in the conversation with a browser, and which
/// phase comes next. The UDP socket of the connection is bound to `local`.
pub fn signaling_step(
    phase: Phase,
    event: SignalingEvent,
    local: SocketAddrV4,
    platform: Platform,
) -> (next: (Phase, SignalingAction))
    ensures
        next.0 == phase.after(event),
        is_action(next.1, phase, event, local, platform),
{
    match (phase, event) {
        (Phase::AwaitingOffer, SignalingEvent::Frame(frame)) => match first_offer(frame) {
            Ok(sdp) => (Phase::AwaitingAnswer, SignalingAction::Negotiate(sdp)),
            Err(e) => (Phase::Closed, SignalingAction::Fail(e)),
        },
        (Phase::AwaitingAnswer, SignalingEvent::Answer(answer)) => match answer {
            Some(sdp) => {
                (Phase::Open, SignalingAction::SendAnswer(answer_message(sdp.as_str())))
            },
            None => (Phase::Closed, SignalingAction::Fail(SignalingError::NoAnswer)),
        },
        (Phase::Open, event) => {
            let action = open_step(event, local, platform);
            match action {
                SignalingAction::Stop => (Phase::Closed, action),
                _ => (Phase::Open, action),
            }
        },
        (phase, _) => (phase, SignalingAction::Ignore),
    }
}

proof fn lemma_no_way_back(phase: Phase, events: Seq<SignalingEvent>)
    requires
        phase == Phase::Open || phase == Phase::Closed,
    ensures
        phase.after_all(events) == Phase::Open || phase.after_all(events) == Phase::Closed,
    decreases events.len(),
{
    if events.len() > 0 {
        lemma_no_way_back(phase, events.drop_last());
    }
}

proof fn lemma_after_all_splits(
    phase: Phase,
    events: Seq<SignalingEvent>,
    more: Seq<SignalingEvent>,
)
    ensures
        phase.after_all(events + more) == phase.after_all(events).after_all(more),
    decreases more.len(),
{
    if more.len() == 0 {
        assert(events + more == events);
    } else {
        lemma_after_all_splits(phase, events, more.drop_last());
        assert((events + more).drop_last() == events + more.drop_last());
    }
}

/// A conversation has at most one answer: once one was sent, no event leads to
/// another.
pub proof fn lemma_one_answer(phase: Phase, events: Seq<SignalingEvent>, i: int, j: int)
    requires
        0 <= i < j < events.len(),
        phase.after_all(events.take(i)).answers_at(events[i]),
    ensures
        !phase.after_all(events.take(j)).answers_at(events[j]),
{
    let answered = events.take(i + 1);
    let more = events.subrange(i + 1, j);
    assert(answered.drop_last() == events.take(i));
    assert(answered.last() == events[i]);
    assert(phase.after_all(answered) == Phase::Open);
    lemma_after_all_splits(phase, answered, more);
    assert(answered + more == events.take(j));
    lemma_no_way_back(Phase::Open, more);
}

/// Only the answer's message is ever sent to a browser, and only where the
/// answer was made.
pub proof fn lemma_only_answers_are_sent(
    action: SignalingAction,
    phase: Phase,
    event: SignalingEvent,
    local: SocketAddrV4,
    platform: Platform,
)
    requires
        is_action(action, phase, event, local, platform),
    ensures
        action is SendAnswer <==> phase.answers_at(event),
{
}

/// The errors of `serde_json`.
#[verifier::external_type_specification]
#[verifier::external_body]
pub struct ExJsonError(serde_json::Error);

/// The JSON text of an object with two fields, given by their names and the strings they hold.
pub uninterp spec fn json_object(
    name: Seq<char>,
    value: Seq<char>,
    other_name: Seq<char>,
    other_value: Seq<char>,
) -> Seq<char>;

/// `serde_json::to_string` on an object with two strings: its text depends on
/// the names and the strings alone, and writing it to memory does not fail.
#[verifier::external_body]
fn to_json(name: &str, value: &str, other_name: &str, other_value: &str) -> (text: Result<
    String,
    serde_json::Error,
>)
    ensures
        text is Ok,
        text->Ok_0@ == json_object(name@, value@, other_name@, other_value@),
{
    let mut object: JsonMap<String, Value> = JsonMap::new();
    object.insert(name.to_owned(), Value::String(value.to_owned()));
    object.insert(other_name.to_owned(), Value::String(other_value.to_owned()));
    serde_json::to_string(&Value::Object(object))
}

/// The message that gives a browser the answer to its offer.
pub fn answer_message(sdp: &str) -> (text: String)
    ensures
        text@ == json_object("type"@, "answer"@, "sdp"@, sdp@),
{
    to_json("type", "answer", "sdp", sdp).unwrap()
}

/// While a conversation is open, every message is handed on as it is, every
/// datagram with something in it is handed on with where it came from and where
/// it came to, and every deadline is told of. It goes on until the browser
/// closes it or is gone.
pub proof fn lemma_open_conversation(
    event: SignalingEvent,
    local: SocketAddrV4,
    platform: Platform,
    next: (Phase, SignalingAction),
)
    requires
        call_ensures(signaling_step, (Phase::Open, event, local, platform), next),
    ensures
        match event {
            SignalingEvent::Frame(WsEvent::Data(Some(message))) => next == (
                Phase::Open,
                SignalingAction::Forward(message),
            ),
            SignalingEvent::Datagram { data, source } => {
                &&& next.0 == Phase::Open
                &&& data@.len() > 0 ==> {
                    &&& next.1 is Deliver
                    &&& next.1->Deliver_0.buf@ == data@
                    &&& next.1->Deliver_0.src == source
                    &&& next.1->Deliver_0.dst == local
                }
                &&& data@.len() == 0 ==> next.1 is Ignore
            },
            SignalingEvent::DeadlinePassed => next == (Phase::Open, SignalingAction::Tick),
            SignalingEvent::ReceiveFailed(e) => {
                &&& next.0 == Phase::Open
                &&& next.1 is Ignore || next.1 is Report
                &&& next.1 is Ignore <==> platform == Platform::Windows && (e.connection_reset
                    || e.os_error == Some(10054i32))
            },
            SignalingEvent::Answer(_) => next == (Phase::Open, SignalingAction::Ignore),
            SignalingEvent::Frame(frame) => {
                &&& frame is Close || frame is Failed || frame is Ended ==> next == (
                    Phase::Closed,
                    SignalingAction::Stop,
                )
                &&& frame is Control || frame is Data ==> next == (
                    Phase::Open,
                    SignalingAction::Ignore,
                )
            },
        },
{
}

/// A conversation begins with an offer, whatever it offers, and with nothing
/// else; what else the browser does first ends it with an error of its own.
pub proof fn lemma_conversations_begin(
    event: SignalingEvent,
    local: SocketAddrV4,
    platform: Platform,
    next: (Phase, SignalingAction),
)
    requires
        call_ensures(signaling_step, (Phase::AwaitingOffer, event, local, platform), next),
    ensures
        match event {
            SignalingEvent::Frame(WsEvent::Data(Some(WsInbound::Offer { sdp }))) => {
                &&& next.0 == Phase::AwaitingAnswer
                &&& next.1 is Negotiate
                &&& next.1->Negotiate_0@ == sdp@
            },
            SignalingEvent::Frame(frame) => {
                &&& next.0 == Phase::Closed
                &&& next.1 is Fail
                &&& frame is Ended <==> next.1->Fail_0 == SignalingError::ClientClosed
                &&& frame is Failed <==> next.1->Fail_0 == SignalingError::Receive
                &&& frame is Close || frame is Control <==> next.1->Fail_0
                    == SignalingError::UnexpectedFrame
                &&& frame is Data && frame->Data_0 is None <==> next.1->Fail_0
                    == SignalingError::Unreadable
                &&& frame is Data && frame->Data_0 is Some <==> next.1->Fail_0
                    == SignalingError::NotAnOffer
            },
            _ => next == (Phase::AwaitingOffer, SignalingAction::Ignore),
        },
{
}

/// The answer is sent as the JSON object of its type and its text, and opens
/// the conversation; without one the conversation ends. Nothing else counts
/// until then, and nothing at all once the conversation is over.
pub proof fn lemma_conversations_are_answered(
    event: SignalingEvent,
    local: SocketAddrV4,
    platform: Platform,
    next: (Phase, SignalingAction),
    last: (Phase, SignalingAction),
)
    requires
        call_ensures(signaling_step, (Phase::AwaitingAnswer, event, local, platform), next),
        call_ensures(signaling_step, (Phase::Closed, event, local, platform), last),
    ensures
        match event {
            SignalingEvent::Answer(Some(sdp)) => {
                &&& next.0 == Phase::Open
                &&& next.1 is SendAnswer
                &&& next.1->SendAnswer_0@ == json_object("type"@, "answer"@, "sdp"@, sdp@)
            },
            SignalingEvent::Answer(None) => {
                &&& next.0 == Phase::Closed
                &&& next.1 == SignalingAction::Fail(SignalingError::NoAnswer)
            },
            _ => next == (Phase::AwaitingAnswer, SignalingAction::Ignore),
        },
        last == (Phase::Closed, SignalingAction::Ignore),
{
}

/// The first offer is that of the first frame.
pub proof fn lemma_first_offers(event: WsEvent, offer: Result<String, SignalingError>)
    requires
        call_ensures(first_offer, (event,), offer),
    ensures
        offer is Ok <==> event is Data && event->Data_0 is Some && event->Data_0->0 is Offer,
        offer is Ok ==> offer->Ok_0@ == event->Data_0->0->sdp@,
{
}

/// Every datagram that UDP over IPv4 can carry fits.
pub proof fn lemma_datagrams_fit(size: int)
    requires
        0 <= size <= 65_535 - 20 - 8,
    ensures
        size <= DATAGRAM_BYTES,
{
}

/// The answer's message is the JSON object of its type and its text.
pub proof fn lemma_answer_messages(sdp: &str, text: String)
    requires
        call_ensures(answer_message, (sdp,), text),
    ensures
        text@ == json_object("type"@, "answer"@, "sdp"@, sdp@),
{
}

/// A connection waits a twentieth of a second at first and a hundredth where it
/// asks for nothing, and its socket has room for 20 MiB.
pub proof fn lemma_waits_and_buffers()
    ensures
        20 * INITIAL_DEADLINE_MILLIS == 1000,
        100 * FALLBACK_DEADLINE_MILLIS == 1000,
        SEND_BUFFER_BYTES == 20 * 1024 * 1024,
        DATAGRAM_BYTES == 65_535 - 20 - 8,
{
}

} // verus!
