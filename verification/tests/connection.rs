use std::collections::VecDeque;
use std::time::{Duration, Instant};

use realtime_web_comparison::backpressure::BackpressureState;
use realtime_web_comparison::channel::{push_messages, Push, Session};
use realtime_web_comparison::connection::{end_turn, handle_output, Drain, RtcEvent, RtcOutput};
use realtime_web_comparison::coordinates::coordinate_messages;
use realtime_web_comparison::datagram::read_datagram;
use realtime_web_comparison::negotiation::{
    answer_of, answer_offer, answer_on_new, handle_inbound, try_add_remote_candidate,
    NegotiationError,
};
use realtime_web_comparison::net::{IpAddr, Ipv4Addr, SocketAddrV4, SocketError};
use realtime_web_comparison::platform::{Pause, Platform, PlatformConfig};
use realtime_web_comparison::signaling::{UdpIn, WsInbound};
use realtime_web_comparison::worker::{
    InputOutcome, RtcInput, Source, Stage, Worker, WorkerAction, WorkerError, WorkerEvent,
};
use str0m::change::{SdpAnswer, SdpOffer};
use str0m::channel::ChannelId;
use str0m::net::{Protocol, Receive, Transmit};
use str0m::{Candidate, Event, Input, Output, Rtc, RtcError};

const LOOPBACK: IpAddr = IpAddr::V4(Ipv4Addr(127, 0, 0, 1));

const CLIENT: SocketAddrV4 = SocketAddrV4 { ip: Ipv4Addr(127, 0, 0, 1), port: 5000 };
const SERVER: SocketAddrV4 = SocketAddrV4 { ip: Ipv4Addr(127, 0, 0, 1), port: 6000 };

/// A client, and a worker that serves it.
struct Pair {
    client: Rtc,
    worker: Worker,
    /// What came of the last action.
    event: Option<WorkerEvent>,
    now: Instant,
    messages: VecDeque<WsInbound>,
    received: Vec<String>,
    pauses: usize,
    deadlines: Vec<Instant>,
    /// How many deadlines had been passed on, for each answer that was handed over.
    answers: Vec<(String, usize)>,
}

fn deliver(to: &mut Rtc, now: Instant, datagram: &Transmit) {
    let contents: &[u8] = &datagram.contents;
    let receive = Receive {
        proto: datagram.proto,
        source: datagram.source,
        destination: datagram.destination,
        contents: contents.try_into().unwrap(),
    };
    to.handle_input(Input::Receive(now, receive)).unwrap();
}

fn poll(rtc: &mut Rtc) -> WorkerEvent {
    WorkerEvent::Polled(rtc.poll_output().map(|output| match output {
        Output::Timeout(at) => RtcOutput::Timeout(at),
        Output::Transmit(datagram) => RtcOutput::Transmit(datagram),
        Output::Event(Event::Connected) => RtcOutput::Event(RtcEvent::Connected),
        Output::Event(Event::ChannelOpen(id, _)) => RtcOutput::Event(RtcEvent::ChannelOpen(id)),
        Output::Event(Event::ChannelClose(id)) => RtcOutput::Event(RtcEvent::ChannelClose(id)),
        Output::Event(Event::ChannelBufferedAmountLow(id)) => {
            RtcOutput::Event(RtcEvent::ChannelBufferedAmountLow(id))
        }
        Output::Event(_) => RtcOutput::Event(RtcEvent::Other),
    }))
}

fn give(rtc: &mut Rtc, now: Instant, input: RtcInput) -> WorkerEvent {
    let given = match &input {
        RtcInput::Timeout => rtc.handle_input(Input::Timeout(now)),
        RtcInput::Receive(datagram) => {
            let receive = Receive {
                proto: Protocol::Udp,
                source: "127.0.0.1:5000".parse().unwrap(),
                destination: "127.0.0.1:6000".parse().unwrap(),
                contents: read_datagram(&datagram.buf).unwrap(),
            };
            rtc.handle_input(Input::Receive(now, receive))
        }
    };
    WorkerEvent::Given(match given {
        Ok(()) => InputOutcome::Taken,
        Err(e) => InputOutcome::Failed(e),
    })
}

fn client_with_offer() -> (Rtc, String, str0m::change::SdpPendingOffer) {
    let mut client = Rtc::new();
    let candidate = Candidate::host("127.0.0.1:5000".parse().unwrap(), "udp").unwrap();
    client.add_local_candidate(candidate);
    let mut change = client.sdp_api();
    change.add_channel("coordinates".to_string());
    let (offer, pending) = change.apply().unwrap();
    (client, offer.to_sdp_string(), pending)
}

impl Pair {
    fn new(session: Session) -> Pair {
        let (mut client, offer, pending) = client_with_offer();
        let (server, answer) = answer_on_new(Ipv4Addr::localhost(), 6000, &offer).unwrap();
        assert!(answer.contains("127.0.0.1 6000"));
        let accepted = SdpAnswer::from_sdp_string(&answer).unwrap();
        client.sdp_api().accept_answer(pending, accepted).unwrap();
        let mut worker = Worker::new(server, answer, Platform::Windows, LOOPBACK);
        worker.session = session;
        Pair {
            client,
            worker,
            event: None,
            now: Instant::now(),
            messages: VecDeque::new(),
            received: Vec::new(),
            pauses: 0,
            deadlines: Vec::new(),
            answers: Vec::new(),
        }
    }

    /// Does the worker's work up to its next pause, and what the client does meanwhile.
    fn turn(&mut self) {
        let mut to_client = Vec::new();
        let mut to_server = VecDeque::new();
        let mut ticks = 1;
        let mut event = match self.event.take() {
            None => poll(&mut self.worker.rtc),
            Some(event) => event,
        };
        loop {
            let fallback = self.now + Duration::from_millis(10);
            event = match self.worker.step(event, fallback) {
                WorkerAction::Poll => poll(&mut self.worker.rtc),
                WorkerAction::Send(datagram) => {
                    to_client.push(datagram);
                    WorkerEvent::Sent { failure: None, destination: LOOPBACK }
                }
                WorkerAction::PassOn(deadline) => {
                    self.deadlines.push(deadline);
                    WorkerEvent::Done
                }
                WorkerAction::GiveAnswer(text) => {
                    self.answers.push((text, self.deadlines.len()));
                    WorkerEvent::Done
                }
                WorkerAction::Receive(Source::Messages) => match self.messages.pop_front() {
                    Some(message) => WorkerEvent::Message(message),
                    None => {
                        self.client_turn(&mut to_server);
                        WorkerEvent::Nothing
                    }
                },
                WorkerAction::Receive(Source::Datagrams) => match to_server.pop_front() {
                    Some(datagram) => WorkerEvent::Datagram(datagram),
                    None => WorkerEvent::Nothing,
                },
                WorkerAction::Receive(Source::Ticks) if ticks > 0 => {
                    ticks -= 1;
                    WorkerEvent::Tick
                }
                WorkerAction::Receive(Source::Ticks) => WorkerEvent::Nothing,
                WorkerAction::Give(input) => {
                    let event = give(&mut self.worker.rtc, self.now, input);
                    assert!(matches!(event, WorkerEvent::Given(InputOutcome::Taken)));
                    event
                }
                WorkerAction::Pause(_) => {
                    self.event = Some(WorkerEvent::Done);
                    break;
                }
                WorkerAction::Fail(_) => panic!("the connection failed"),
                WorkerAction::Ignore => panic!("an event was not waited for"),
            };
        }
        assert_eq!(self.worker.drain.output_count, 10);
        if self.worker.session.backpressure_state.paused_by_sctp {
            self.pauses += 1;
        }
        for datagram in &to_client {
            deliver(&mut self.client, self.now, datagram);
        }
    }

    fn client_turn(&mut self, to_server: &mut VecDeque<UdpIn>) {
        self.now += Duration::from_millis(10);
        self.client.handle_input(Input::Timeout(self.now)).unwrap();
        loop {
            match self.client.poll_output().unwrap() {
                Output::Timeout(_) => break,
                Output::Transmit(datagram) => to_server.push_back(UdpIn {
                    buf: datagram.contents.to_vec(),
                    src: CLIENT,
                    dst: SERVER,
                }),
                Output::Event(Event::ChannelData(data)) => {
                    assert!(!data.binary);
                    self.received.push(String::from_utf8(data.data).unwrap());
                }
                Output::Event(_) => {}
            }
        }
    }

    fn run_until(&mut self, done: impl Fn(&Pair) -> bool) {
        for _ in 0..20000 {
            if done(self) {
                return;
            }
            self.turn();
        }
        panic!("still at message {}", self.worker.session.message_index);
    }
}

fn small_buffer() -> Session {
    let mut session = Session::new(Platform::Windows);
    set_marks(&mut session.backpressure_state, 200, 100);
    session
}

fn set_marks(state: &mut BackpressureState, high: usize, low: usize) {
    state.high_water_bytes = high;
    state.low_water_bytes = low;
    state.platform_config.high_water_bytes = high;
    state.platform_config.low_water_bytes = low;
}

fn open_channel(pair: &mut Pair) -> ChannelId {
    pair.run_until(|p| p.worker.session.channel_id.is_some());
    pair.worker.session.channel_id.unwrap()
}

fn buffered(pair: &mut Pair, id: ChannelId) -> usize {
    pair.worker.rtc.channel(id).unwrap().buffered_amount()
}

#[test]
fn the_peer_receives_every_coordinate_in_order() {
    let mut pair = Pair::new(Session::new(Platform::Other));
    pair.run_until(|p| p.received.len() == 2500);
    assert_eq!(pair.received, coordinate_messages());
    pair.turn();
    assert_eq!(pair.worker.session.message_index, 2501);
    for _ in 0..20 {
        pair.turn();
    }
    assert_eq!(pair.received.len(), 2500);
    assert_eq!(pair.worker.session.message_index, 2501);
}

#[test]
fn a_small_buffer_pauses_and_loses_nothing() {
    let mut pair = Pair::new(small_buffer());
    pair.run_until(|p| p.received.len() == 2500);
    assert_eq!(pair.received, coordinate_messages());
    assert!(pair.pauses > 10);
}

#[test]
fn a_batch_on_an_open_channel() {
    let mut pair = Pair::new(Session::new(Platform::Other));
    let id = open_channel(&mut pair);
    let mut session = Session::new(Platform::Windows);
    session.messages_to_send = (0..5).map(|n| format!("message {n}")).collect();
    session.channel_id = Some(id);
    let before = buffered(&mut pair, id);
    assert_eq!(
        push_messages(&mut pair.worker.rtc, &mut session),
        Push::Batch { written: 3, had_error: false }
    );
    assert_eq!(buffered(&mut pair, id), before + 3 * 9);
    assert_eq!(session.message_index, 3);
    assert_eq!(session.backpressure_state.last_buffered_bytes, before + 27);
    assert_eq!(session.backpressure_state.successful_batches, 1);
    assert!(!session.backpressure_state.paused_by_sctp);
    assert_eq!(
        push_messages(&mut pair.worker.rtc, &mut session),
        Push::Batch { written: 2, had_error: false }
    );
    assert_eq!(session.message_index, 5);
    assert_eq!(session.backpressure_state.successful_batches, 1);
}

#[test]
fn a_full_buffer_ends_a_batch_and_pauses() {
    let mut pair = Pair::new(Session::new(Platform::Other));
    let id = open_channel(&mut pair);
    let mut session = Session::new(Platform::Windows);
    session.messages_to_send = (0..5).map(|n| format!("message {n}")).collect();
    session.channel_id = Some(id);
    let before = buffered(&mut pair, id);
    set_marks(&mut session.backpressure_state, before + 10, before + 1);
    assert_eq!(
        push_messages(&mut pair.worker.rtc, &mut session),
        Push::Batch { written: 2, had_error: false }
    );
    assert!(session.backpressure_state.paused_by_sctp);
    assert_eq!(session.backpressure_state.last_buffered_bytes, before + 18);
    assert_eq!(push_messages(&mut pair.worker.rtc, &mut session), Push::Paused);
    assert_eq!(session.message_index, 2);
    set_marks(&mut session.backpressure_state, before + 100, before + 50);
    assert_eq!(
        push_messages(&mut pair.worker.rtc, &mut session),
        Push::Batch { written: 3, had_error: false }
    );
    assert!(!session.backpressure_state.paused_by_sctp);
    assert_eq!(session.message_index, 5);
}

#[test]
fn a_buffer_that_is_full_before_a_batch() {
    let mut pair = Pair::new(Session::new(Platform::Other));
    let id = open_channel(&mut pair);
    let mut session = Session::new(Platform::Windows);
    session.messages_to_send = vec!["one".to_string()];
    set_marks(&mut session.backpressure_state, 0, 0);
    session.channel_id = Some(id);
    assert_eq!(push_messages(&mut pair.worker.rtc, &mut session), Push::Paused);
    assert!(session.backpressure_state.paused_by_sctp);
    assert_eq!(session.message_index, 0);
}

#[test]
fn a_message_that_is_not_accepted_is_an_error() {
    let mut pair = Pair::new(Session::new(Platform::Other));
    let id = open_channel(&mut pair);
    let mut session = Session::new(Platform::Windows);
    session.messages_to_send = vec!["one".to_string(), "x".repeat(10_000_000), "two".to_string()];
    set_marks(&mut session.backpressure_state, 1_000_000_000, 1);
    session.channel_id = Some(id);
    assert_eq!(
        push_messages(&mut pair.worker.rtc, &mut session),
        Push::Batch { written: 1, had_error: true }
    );
    assert_eq!(session.message_index, 1);
    assert_eq!(session.backpressure_state.consecutive_errors, 1);
    assert_eq!(session.backpressure_state.batch_size(), 1);
    session.messages_to_send[1] = String::new();
    assert_eq!(
        push_messages(&mut pair.worker.rtc, &mut session),
        Push::Batch { written: 0, had_error: true }
    );
}

#[test]
fn a_session_moves_on_by_what_is_accepted() {
    let mut session = Session::new(Platform::Other);
    session.messages_to_send = vec!["one".to_string(), "two".to_string()];
    assert!(!session.note_write(None));
    assert!(!session.note_write(Some(0)));
    assert_eq!(session.message_index, 0);
    assert!(session.note_write(Some(3)));
    assert_eq!(session.message_index, 1);
    assert!(session.note_write(Some(3)));
    assert_eq!(session.message_index, 2);
}

#[test]
fn a_session_without_a_channel_writes_nothing() {
    let mut pair = Pair::new(Session::new(Platform::Other));
    let mut session = Session::new(Platform::Other);
    assert_eq!(push_messages(&mut pair.worker.rtc, &mut session), Push::NoChannel);
    let id = open_channel(&mut pair);
    session.channel_id = Some(id);
    assert_eq!(
        push_messages(&mut pair.worker.rtc, &mut session),
        Push::AllSent { noted_now: false }
    );
    assert_eq!(session.message_index, 0);
    session.messages_to_send = vec!["one".to_string()];
    assert_eq!(
        push_messages(&mut pair.worker.rtc, &mut session),
        Push::Batch { written: 1, had_error: false }
    );
    assert_eq!(
        push_messages(&mut pair.worker.rtc, &mut session),
        Push::AllSent { noted_now: true }
    );
    assert_eq!(
        push_messages(&mut pair.worker.rtc, &mut session),
        Push::AllSent { noted_now: false }
    );
    assert_eq!(session.message_index, 2);
    session.message_index = 0;
    pair.worker.rtc.disconnect();
    assert_eq!(push_messages(&mut pair.worker.rtc, &mut session), Push::NoChannel);
    assert_eq!(session.message_index, 0);
}

#[test]
fn outputs_are_handled_and_counted() {
    let mut pair = Pair::new(Session::new(Platform::Other));
    let id = open_channel(&mut pair);
    let config = PlatformConfig::current(Platform::Windows);
    let mut session = Session::new(Platform::Windows);
    let mut drain = Drain::new(&config);
    let at = Instant::now();
    let later = at + Duration::from_millis(10);
    assert_eq!(drain.deadline(later), later);
    assert!(!drain.processed_any());
    let mut handle = |session: &mut Session, drain: &mut Drain, output| {
        assert!(handle_output(&mut pair.worker.rtc, session, drain, output).is_none());
    };
    handle(&mut session, &mut drain, RtcOutput::Timeout(at));
    assert_eq!(drain.deadline(later), at);
    assert_eq!(drain.output_count, 1);
    handle(&mut session, &mut drain, RtcOutput::Event(RtcEvent::Connected));
    assert!(drain.connected);
    handle(&mut session, &mut drain, RtcOutput::Event(RtcEvent::ChannelOpen(id)));
    assert!(session.channel_id == Some(id));
    assert_eq!(session.messages_to_send, coordinate_messages());
    assert_eq!(session.message_index, 0);
    handle(&mut session, &mut drain, RtcOutput::Timeout(later));
    assert_eq!(session.message_index, 3);
    session.backpressure_state.paused_by_sctp = true;
    handle(&mut session, &mut drain, RtcOutput::Event(RtcEvent::ChannelBufferedAmountLow(id)));
    assert!(!session.backpressure_state.paused_by_sctp);
    assert_eq!(session.message_index, 6);
    handle(&mut session, &mut drain, RtcOutput::Event(RtcEvent::ChannelClose(id)));
    assert!(session.channel_id.is_none());
    handle(&mut session, &mut drain, RtcOutput::Event(RtcEvent::Other));
    assert_eq!(drain.output_count, 7);
    assert_eq!(drain.deadline(at), later);
    handle(&mut session, &mut drain, RtcOutput::Event(RtcEvent::ChannelOpen(id)));
    assert_eq!(session.message_index, 6);
    assert!(!drain.is_done());
}

#[test]
fn datagrams_are_counted_when_they_were_sent() {
    let mut drain = Drain::new(&PlatformConfig::current(Platform::Windows));
    let lan = IpAddr::V4(Ipv4Addr(192, 168, 1, 1));
    let einval = SocketError { connection_reset: false, os_error: Some(22) };
    let other = SocketError { connection_reset: false, os_error: Some(105) };
    drain.note_sent(None, lan);
    assert_eq!(drain.output_count, 1);
    drain.note_sent(Some(einval), lan);
    assert_eq!(drain.output_count, 1);
    drain.note_sent(Some(einval), LOOPBACK);
    assert_eq!(drain.output_count, 2);
    drain.note_sent(Some(other), lan);
    assert_eq!(drain.output_count, 3);
}

/// A STUN message of a kind, with attributes.
fn stun(kind: u8, attributes: &[u8]) -> Vec<u8> {
    let size = attributes.len() as u16;
    let mut bytes = vec![1, kind, (size >> 8) as u8, size as u8, 0x21, 0x12, 0xa4, 0x42];
    bytes.extend_from_slice(&[7; 12]);
    bytes.extend_from_slice(attributes);
    bytes
}

fn refusal() -> RtcError {
    let bare = SdpOffer::from_sdp_string("v=0\r\no=- 1 1 IN IP4 0.0.0.0\r\ns=-\r\nt=0 0\r\n");
    Rtc::new().sdp_api().accept_offer(bare.unwrap()).unwrap_err()
}

#[test]
fn datagrams_that_cannot_be_read_are_passed_over() {
    let mut first = stun(1, &[0x80, 0x28, 0, 0]);
    first[0] = 0;
    let cases = vec![
        vec![],
        vec![100],
        b"GET / HTTP/1.1".to_vec(),
        vec![0, 1, 2],
        first,
        stun(1, &[0x80, 0x28, 0, 0]),
        stun(1, &[0, 9, 0, 0]),
        stun(1, &[0, 9, 0, 0, 0, 0, 0, 0]),
        stun(1, &[0, 0x20, 0, 0]),
        stun(1, &[0, 0x20, 0, 4, 0, 1, 0, 0]),
        stun(1, &[0, 0x20, 0, 4, 0, 3, 0, 0]),
        stun(1, &[0, 0x12, 0, 8, 0, 2, 0, 0, 1, 2, 3, 4]),
        stun(1, &[0, 0x16, 0, 4, 0, 2, 0, 0]),
        stun(1, &[0x12, 0x34, 0, 0, 0x80, 0x28, 0, 0]),
    ];
    let at = Instant::now();
    let mut worker = receiving_worker(Platform::Other, at);
    worker.step(WorkerEvent::Nothing, at);
    for buf in cases {
        assert!(read_datagram(&buf).is_none());
        let datagram = UdpIn { buf, src: CLIENT, dst: SERVER };
        let action = worker.step(WorkerEvent::Datagram(datagram), at);
        assert!(matches!(action, WorkerAction::Receive(Source::Datagrams)));
        assert!(worker.received);
    }
}

#[test]
fn datagrams_that_can_be_read() {
    let covered = [
        &[0, 8, 0, 20][..],
        &[0; 20][..],
        &[0, 0x20, 0, 0][..],
        &[0x80, 0x28, 0, 4, 1, 2, 3, 4][..],
    ];
    let cases = vec![
        stun(0x11, &[]),
        stun(0x11, &[0, 9, 0, 4, 0, 0, 4, 0]),
        stun(0x11, &[0, 0x20, 0, 8, 0, 1, 0, 0, 1, 2, 3, 4]),
        stun(0x11, &[0x12, 0x34, 0, 1, 9, 0, 0, 0]),
        stun(0x11, &covered.concat()),
        vec![22; 40_000],
        vec![128; 13],
        vec![128, 200, 0, 1, 0, 0, 0, 0, 0, 0, 0, 0, 0, 0, 0, 0, 128, 0, 0, 1],
    ];
    for buf in cases {
        assert!(read_datagram(&buf).is_some());
    }
}

#[test]
fn one_answer_after_the_first_deadline() {
    let mut pair = Pair::new(Session::new(Platform::Other));
    let answer = pair.worker.answer.clone().unwrap();
    for _ in 0..30 {
        pair.messages.push_back(WsInbound::Offer { sdp: client_with_offer().1 });
        pair.turn();
    }
    assert_eq!(pair.answers, vec![(answer, 1)]);
    assert!(pair.deadlines.len() > 2);
    for two in pair.deadlines.windows(2) {
        assert_ne!(two[0], two[1]);
    }
}

#[test]
fn messages_of_the_browser_reach_the_connection() {
    let mut pair = Pair::new(Session::new(Platform::Other));
    pair.messages.push_back(WsInbound::EndOfCandidates);
    pair.messages.push_back(WsInbound::Candidate {
        candidate: "candidate:9 1 udp 1 127.0.0.9 7777 typ host".to_string(),
        sdp_mid: None,
        sdp_m_line_index: None,
    });
    pair.turn();
    assert!(pair.messages.is_empty());
    assert!(probes(&mut pair.worker.rtc, "127.0.0.9:7777"));
}

/// A worker whose connection has no peer yet.
fn lone_worker(platform: Platform) -> Worker {
    Worker::new(answering_server(), "an answer".to_string(), platform, LOOPBACK)
}

/// A worker that has handed over its answer and looks for messages.
fn receiving_worker(platform: Platform, at: Instant) -> Worker {
    let mut worker = lone_worker(platform);
    for _ in 0..49 {
        let polled = WorkerEvent::Polled(Ok(RtcOutput::Timeout(at)));
        assert!(matches!(worker.step(polled, at), WorkerAction::Poll));
    }
    let polled = WorkerEvent::Polled(Ok(RtcOutput::Timeout(at)));
    assert!(matches!(worker.step(polled, at), WorkerAction::PassOn(deadline) if deadline == at));
    match worker.step(WorkerEvent::Done, at) {
        WorkerAction::GiveAnswer(text) => assert_eq!(text, "an answer"),
        _ => panic!("no answer"),
    }
    let action = worker.step(WorkerEvent::Done, at);
    assert!(matches!(action, WorkerAction::Receive(Source::Messages)));
    worker
}

fn receives(worker: &mut Worker, at: Instant) {
    let action = worker.step(WorkerEvent::Nothing, at);
    assert!(matches!(action, WorkerAction::Receive(Source::Datagrams)));
    let action = worker.step(WorkerEvent::Nothing, at);
    assert!(matches!(action, WorkerAction::Receive(Source::Ticks)));
    assert!(matches!(worker.step(WorkerEvent::Nothing, at), WorkerAction::Poll));
}

fn polls(worker: &mut Worker, at: Instant) -> WorkerAction {
    for _ in 0..49 {
        let polled = WorkerEvent::Polled(Ok(RtcOutput::Timeout(at)));
        assert!(matches!(worker.step(polled, at), WorkerAction::Poll));
    }
    worker.step(WorkerEvent::Polled(Ok(RtcOutput::Timeout(at))), at)
}

#[test]
fn a_later_deadline_is_passed_on_when_it_changed() {
    let at = Instant::now();
    let later = at + Duration::from_millis(10);
    let mut worker = receiving_worker(Platform::Other, at);
    receives(&mut worker, at);
    assert!(matches!(polls(&mut worker, at), WorkerAction::Pause(Pause::GoOn)));
    let action = worker.step(WorkerEvent::Done, at);
    assert!(matches!(action, WorkerAction::Receive(Source::Messages)));
    receives(&mut worker, at);
    let action = polls(&mut worker, later);
    assert!(matches!(action, WorkerAction::PassOn(deadline) if deadline == later));
    assert!(matches!(worker.step(WorkerEvent::Done, at), WorkerAction::Pause(Pause::GoOn)));
    assert_eq!(worker.deadline, Some(later));
}

#[test]
fn inputs_are_given_as_they_come() {
    let at = Instant::now();
    let mut worker = receiving_worker(Platform::Other, at);
    worker.step(WorkerEvent::Nothing, at);
    assert!(!worker.received);
    let datagram = UdpIn { buf: vec![20, 2, 3], src: CLIENT, dst: SERVER };
    match worker.step(WorkerEvent::Datagram(datagram), at) {
        WorkerAction::Give(RtcInput::Receive(given)) => {
            assert_eq!(given.buf, vec![20, 2, 3]);
            assert_eq!((given.src, given.dst), (CLIENT, SERVER));
        }
        _ => panic!("not given"),
    }
    assert!(worker.received);
    let action = worker.step(WorkerEvent::Given(InputOutcome::Taken), at);
    assert!(matches!(action, WorkerAction::Receive(Source::Datagrams)));
    let action = worker.step(WorkerEvent::Nothing, at);
    assert!(matches!(action, WorkerAction::Receive(Source::Ticks)));
    let action = worker.step(WorkerEvent::Tick, at);
    assert!(matches!(action, WorkerAction::Give(RtcInput::Timeout)));
    let action = worker.step(WorkerEvent::Given(InputOutcome::Failed(refusal())), at);
    assert!(matches!(action, WorkerAction::Receive(Source::Ticks)));
}

#[test]
fn events_that_are_not_waited_for_change_nothing() {
    let at = Instant::now();
    let mut worker = receiving_worker(Platform::Other, at);
    let polled = WorkerEvent::Polled(Ok(RtcOutput::Timeout(at)));
    assert!(matches!(worker.step(polled, at), WorkerAction::Ignore));
    assert!(matches!(worker.step(WorkerEvent::Done, at), WorkerAction::Ignore));
    assert!(matches!(worker.step(WorkerEvent::Tick, at), WorkerAction::Ignore));
    assert_eq!(worker.stage, Stage::Receiving(Source::Messages));
}

#[test]
fn datagrams_that_are_sent_count_for_the_turn() {
    let at = Instant::now();
    let mut worker = lone_worker(Platform::Windows);
    let lan = IpAddr::V4(Ipv4Addr(192, 168, 1, 1));
    let einval = SocketError { connection_reset: false, os_error: Some(22) };
    let datagram = || Transmit {
        proto: Protocol::Udp,
        source: "127.0.0.1:6000".parse().unwrap(),
        destination: "127.0.0.1:5000".parse().unwrap(),
        contents: vec![1, 2, 3].into(),
    };
    let polled = WorkerEvent::Polled(Ok(RtcOutput::Transmit(datagram())));
    match worker.step(polled, at) {
        WorkerAction::Send(sent) => assert_eq!(sent.contents.to_vec(), vec![1, 2, 3]),
        _ => panic!("not sent"),
    }
    let sent = WorkerEvent::Sent { failure: Some(einval), destination: lan };
    assert!(matches!(worker.step(sent, at), WorkerAction::Poll));
    assert_eq!(worker.drain.output_count, 0);
    for n in 1..=10 {
        let polled = WorkerEvent::Polled(Ok(RtcOutput::Transmit(datagram())));
        assert!(matches!(worker.step(polled, at), WorkerAction::Send(_)));
        let sent = WorkerEvent::Sent { failure: None, destination: lan };
        let action = worker.step(sent, at);
        assert_eq!(worker.drain.output_count, n);
        if n == 10 {
            assert!(matches!(action, WorkerAction::PassOn(deadline) if deadline == at));
        } else {
            assert!(matches!(action, WorkerAction::Poll));
        }
    }
}

#[test]
fn an_error_of_polling_ends_the_work() {
    let at = Instant::now();
    let mut worker = lone_worker(Platform::Other);
    let action = worker.step(WorkerEvent::Polled(Err(refusal())), at);
    assert!(matches!(
        action,
        WorkerAction::Fail(WorkerError::Connection(RtcError::RemoteSdp(_)))
    ));
    assert_eq!(worker.stage, Stage::Ended);
    assert!(matches!(worker.step(WorkerEvent::Lost, at), WorkerAction::Ignore));
    assert!(matches!(worker.step(WorkerEvent::Done, at), WorkerAction::Ignore));
}

#[test]
fn a_failed_handshake_goes_on_until_the_connection_is_lost() {
    let at = Instant::now();
    let mut worker = receiving_worker(Platform::Other, at);
    worker.step(WorkerEvent::Nothing, at);
    let broken = vec![22, 254, 253, 0, 0, 0, 0, 0, 0, 0, 0, 0, 4, 1, 2, 3, 4];
    let datagram = || UdpIn { buf: broken.clone(), src: CLIENT, dst: SERVER };
    let event = match worker.step(WorkerEvent::Datagram(datagram()), at) {
        WorkerAction::Give(input) => give(&mut worker.rtc, at, input),
        _ => panic!("not given"),
    };
    assert!(matches!(event, WorkerEvent::Given(InputOutcome::Failed(_))));
    let action = worker.step(event, at);
    assert!(matches!(action, WorkerAction::Receive(Source::Datagrams)));
    let action = worker.step(WorkerEvent::Datagram(datagram()), at);
    assert!(matches!(action, WorkerAction::Give(RtcInput::Receive(_))));
    let action = worker.step(WorkerEvent::Lost, at);
    assert!(matches!(action, WorkerAction::Fail(WorkerError::Lost)));
    assert_eq!(worker.stage, Stage::Ended);
}

#[test]
fn how_a_turn_ends() {
    let now = Instant::now();
    let later = now + Duration::from_millis(10);
    let mut drain = Drain::new(&PlatformConfig::current(Platform::Other));
    let end = end_turn(Platform::Other, false, &drain, Some(later), later);
    assert_eq!((end.deadline, end.pause), (None, Pause::Yield));
    let end = end_turn(Platform::Other, false, &drain, None, later);
    assert_eq!((end.deadline, end.pause), (Some(later), Pause::GoOn));
    let end = end_turn(Platform::Other, false, &drain, Some(now), later);
    assert_eq!((end.deadline, end.pause), (Some(later), Pause::GoOn));
    let end = end_turn(Platform::Other, true, &drain, Some(later), later);
    assert_eq!((end.deadline, end.pause), (None, Pause::GoOn));
    drain.next_timeout = Some(now);
    drain.output_count = 1;
    let end = end_turn(Platform::Other, false, &drain, Some(now), later);
    assert_eq!((end.deadline, end.pause), (None, Pause::GoOn));
    let end = end_turn(Platform::Windows, false, &drain, Some(now), later);
    assert_eq!(end.pause, Pause::SleepMillis(1));
}

#[test]
fn offers_of_media_get_no_answer() {
    let (_, offer, _) = client_with_offer();
    let local = Ipv4Addr::localhost();
    for line in [
        "m=audio 9 UDP/TLS/RTP/SAVPF 200\r\na=mid:1\r\na=sendrecv\r\na=rtpmap:200 opus/48000/2\r\n",
        "m=video 9 UDP/TLS/RTP/SAVPF 96\r\na=mid:1\r\na=sendrecv\r\na=rtpmap:96 VP8/90000\r\n",
    ] {
        let with_media = format!("{offer}{line}");
        assert!(SdpOffer::from_sdp_string(&with_media).is_ok());
        assert_eq!(
            answer_offer(&mut Rtc::new(), local, 6000, &with_media),
            Err(NegotiationError::MediaOffered)
        );
    }
    assert!(answer_on_new(local, 6000, &offer).is_ok());
}

#[test]
fn other_channels_are_left_alone() {
    let mut pair = Pair::new(Session::new(Platform::Other));
    let id = open_channel(&mut pair);
    let mut change = pair.client.direct_api();
    change.create_data_channel(Default::default());
    pair.worker.session = Session::new(Platform::Windows);
    pair.run_until(|p| matches!(p.worker.session.channel_id, Some(other) if other != id));
    let other = pair.worker.session.channel_id.unwrap();
    let before = (buffered(&mut pair, id), buffered(&mut pair, other));
    let mut session = Session::new(Platform::Windows);
    session.messages_to_send = vec!["one".to_string()];
    session.channel_id = Some(id);
    push_messages(&mut pair.worker.rtc, &mut session);
    assert_eq!((buffered(&mut pair, id), buffered(&mut pair, other)), (before.0 + 3, before.1));
}

#[test]
fn answers_and_refusals() {
    assert_eq!(answer_of(Err(refusal())), Err(NegotiationError::OfferRefused));
    let (_, offer, _) = client_with_offer();
    let offer = SdpOffer::from_sdp_string(&offer).unwrap();
    let answer = Rtc::new().sdp_api().accept_offer(offer).unwrap();
    let text = answer.to_sdp_string();
    assert_eq!(answer_of(Ok(answer)), Ok(text));
}

#[test]
fn offers_that_get_no_answer() {
    let (_, offer, _) = client_with_offer();
    for ip in [
        Ipv4Addr(0, 0, 0, 0),
        Ipv4Addr(255, 255, 255, 255),
        Ipv4Addr(169, 254, 1, 1),
        Ipv4Addr(224, 0, 0, 1),
        Ipv4Addr(239, 255, 255, 255),
    ] {
        assert_eq!(
            answer_offer(&mut Rtc::new(), ip, 6000, &offer),
            Err(NegotiationError::BadLocalAddress)
        );
    }
    let local = Ipv4Addr::localhost();
    assert_eq!(
        answer_offer(&mut Rtc::new(), local, 6000, "no description"),
        Err(NegotiationError::BadOffer)
    );
    let bare = "v=0\r\no=- 1 1 IN IP4 0.0.0.0\r\ns=-\r\nt=0 0\r\n";
    assert_eq!(
        answer_offer(&mut Rtc::new(), local, 6000, bare),
        Err(NegotiationError::OfferRefused)
    );
    let mut rtc = Rtc::new();
    assert!(answer_offer(&mut rtc, local, 6000, &offer).is_ok());
    assert_eq!(
        answer_offer(&mut rtc, local, 6000, &offer),
        Err(NegotiationError::LocalCandidateRefused)
    );
}

fn probes(server: &mut Rtc, address: &str) -> bool {
    let mut now = Instant::now();
    for _ in 0..50 {
        loop {
            match server.poll_output().unwrap() {
                Output::Timeout(_) => break,
                Output::Transmit(datagram) => {
                    if datagram.destination.to_string() == address {
                        return true;
                    }
                }
                Output::Event(_) => {}
            }
        }
        now += Duration::from_millis(20);
        server.handle_input(Input::Timeout(now)).unwrap();
    }
    false
}

fn answering_server() -> Rtc {
    let (_, offer, _) = client_with_offer();
    let mut server = Rtc::new();
    answer_offer(&mut server, Ipv4Addr::localhost(), 6000, &offer).unwrap();
    server
}

#[test]
fn usable_candidates_are_tried() {
    let mut server = answering_server();
    try_add_remote_candidate(&mut server, "candidate:9 1 udp 1 127.0.0.9 7777 typ host", LOOPBACK);
    assert!(probes(&mut server, "127.0.0.9:7777"));
    let mut server = answering_server();
    try_add_remote_candidate(&mut server, "candidate:9 1 udp 1 10.0.0.9 7777 typ host", LOOPBACK);
    assert!(!probes(&mut server, "10.0.0.9:7777"));
}

#[test]
fn candidates_come_in_messages() {
    let mut server = answering_server();
    let message = WsInbound::Candidate {
        candidate: "candidate:9 1 udp 1 127.0.0.9 7777 typ host".to_string(),
        sdp_mid: None,
        sdp_m_line_index: None,
    };
    handle_inbound(&mut server, &WsInbound::EndOfCandidates, LOOPBACK);
    handle_inbound(&mut server, &WsInbound::Offer { sdp: String::new() }, LOOPBACK);
    assert!(!probes(&mut server, "127.0.0.9:7777"));
    let mut server = answering_server();
    handle_inbound(&mut server, &message, LOOPBACK);
    assert!(probes(&mut server, "127.0.0.9:7777"));
}
