//! The outputs of a peer connection: what to do with each of them, and when
//! enough were handled for one turn.
use std::time::Instant;

use str0m::channel::ChannelId;
use str0m::net::Transmit;
use str0m::Rtc;
use vstd::prelude::*;

use crate::channel::{
    as_queued, buffered, drain_marks, is_open, open_channels, others_kept, push_messages, queued,
    set_low_threshold, Push, Session, SessionView,
};
use crate::coordinates::coordinate_messages;
use crate::net::{is_send_einval_to_non_loopback, IpAddr, SocketError};
use crate::platform::{pause_after_turn, Pause, Platform, PlatformConfig};

verus! {

/// A point in time.
#[verifier::external_type_specification]
#[verifier::external_body]
pub struct ExInstant(Instant);

/// A datagram that a connection wants sent.
#[verifier::external_type_specification]
#[verifier::external_body]
pub struct ExTransmit(Transmit);

/// The events of a connection that the server acts on.
pub enum RtcEvent {
    Connected,
    ChannelOpen(ChannelId),
    ChannelClose(ChannelId),
    ChannelBufferedAmountLow(ChannelId),
    Other,
}

/// What a connection asks for when it is polled.
pub enum RtcOutput {
    /// To be given the time at this point in time.
    Timeout(Instant),
    /// To have a datagram sent.
    Transmit(Transmit),
    /// To have an event handled.
    Event(RtcEvent),
}

/// How far the outputs of a connection have been handled in one turn.
pub struct Drain {
    /// Whether the connection was established in this turn.
    pub connected: bool,
    /// When the connection wants to be given the time.
    pub next_timeout: Option<Instant>,
    /// How many outputs were handled.
    pub output_count: usize,
    /// How many outputs may be handled.
    pub max_outputs: usize,
}

impl SessionView {
    /// The session once a channel has opened, which is when the messages are made.
    pub open spec fn with_channel(self, id: ChannelId) -> SessionView {
        SessionView {
            channel_id: Some(id),
            messages: if self.messages.len() == 0 {
                crate::coordinates::coordinates()
            } else {
                self.messages
            },
            ..self
        }
    }

    /// Whether an attempt to write can lead to `post`, and from the connection
    /// `rtc` to `after`.
    pub open spec fn may_push(self, rtc: Rtc, post: SessionView, after: Rtc) -> bool {
        exists|push: Push| #[trigger] self.push_leads_to(rtc, push, post, after)
    }

    /// Whether handling an output can lead to `post`, and from the connection
    /// `rtc` to `after`.
    pub open spec fn may_handle(
        self,
        rtc: Rtc,
        output: RtcOutput,
        post: SessionView,
        after: Rtc,
    ) -> bool {
        match output {
            RtcOutput::Timeout(_) => self.may_push(rtc, post, after),
            RtcOutput::Transmit(_) => false,
            RtcOutput::Event(event) => match event {
                RtcEvent::ChannelOpen(id) => post == self.with_channel(id) && watches(
                    rtc,
                    id,
                    self.flow.low_water_bytes as nat,
                    after,
                ),
                RtcEvent::ChannelClose(_) => post == (SessionView { channel_id: None, ..self })
                    && after == rtc,
                RtcEvent::ChannelBufferedAmountLow(_) => self.with_pause(false).may_push(
                    rtc,
                    post,
                    after,
                ),
                RtcEvent::Connected => post == self && after == rtc,
                RtcEvent::Other => post == self && after == rtc,
            },
        }
    }
}

/// Whether asking the channel `id`, if it is open, to report when it has
/// drained to `mark` bytes leads from the connection `rtc` to `after`.
pub open spec fn watches(rtc: Rtc, id: ChannelId, mark: nat, after: Rtc) -> bool {
    if open_channels(rtc).contains(id) {
        &&& open_channels(after) == open_channels(rtc)
        &&& drain_marks(after)[id] == mark
        &&& queued(after)[id] == queued(rtc)[id]
        &&& buffered(after)[id] == buffered(rtc)[id]
        &&& others_kept(rtc, id, after)
    } else {
        after == rtc
    }
}

impl Drain {
    /// What is left to do in the turn, after an output other than a datagram.
    pub open spec fn after(self, output: RtcOutput) -> Drain {
        Drain {
            connected: self.connected || output matches RtcOutput::Event(RtcEvent::Connected),
            next_timeout: match output {
                RtcOutput::Timeout(at) => Some(at),
                _ => self.next_timeout,
            },
            output_count: (self.output_count + 1) as usize,
            max_outputs: self.max_outputs,
        }
    }

    /// Whether as many outputs were handled as may be in one turn.
    pub open spec fn done(self) -> bool {
        self.output_count >= self.max_outputs
    }

    /// The beginning of a turn.
    pub open spec fn begun(config: PlatformConfig) -> Drain {
        Drain {
            connected: false,
            next_timeout: None,
            output_count: 0,
            max_outputs: config.max_outputs_per_call,
        }
    }

    /// What is left to do in the turn, once a datagram was sent to
    /// `destination` or that failed. It counts as an output, unless it failed
    /// only because the address cannot be reached from a socket on loopback.
    pub open spec fn after_sending(
        self,
        failure: Option<SocketError>,
        destination: IpAddr,
    ) -> Drain {
        let unreachable = failure matches Some(e) && e.os_error == Some(crate::net::EINVAL)
            && (destination matches IpAddr::V4(v4) && !v4.loopback());
        if unreachable {
            self
        } else {
            Drain { output_count: (self.output_count + 1) as usize, ..self }
        }
    }

    /// The beginning of a turn.
    pub fn new(config: &PlatformConfig) -> (drain: Drain)
        ensures
            drain == Drain::begun(*config),
    {
        Drain {
            connected: false,
            next_timeout: None,
            output_count: 0,
            max_outputs: config.max_outputs_per_call,
        }
    }

    /// Whether as many outputs were handled as may be in one turn.
    pub fn is_done(&self) -> (yes: bool)
        ensures
            yes == self.done(),
    {
        self.output_count >= self.max_outputs
    }

    /// Notes how sending a datagram to `destination` went.
    pub fn note_sent(&mut self, failure: Option<SocketError>, destination: IpAddr)
        requires
            !old(self).done(),
        ensures
            *final(self) == old(self).after_sending(failure, destination),
    {
        match failure {
            Some(e) => {
                if is_send_einval_to_non_loopback(&e, destination) {
                    return;
                }
            },
            None => {},
        }
        self.output_count = self.output_count + 1;
    }

    /// When the connection wants to be given the time: what it last asked for, or `fallback`.
    pub open spec fn asked(self, fallback: Instant) -> Instant {
        match self.next_timeout {
            Some(at) => at,
            None => fallback,
        }
    }

    /// When the connection wants to be given the time: what it last asked for, or `fallback`.
    pub fn deadline(&self, fallback: Instant) -> (at: Instant)
        ensures
            at == self.asked(fallback),
    {
        match self.next_timeout {
            Some(at) => at,
            None => fallback,
        }
    }

    /// Whether any output was handled.
    pub fn processed_any(&self) -> (yes: bool)
        ensures
            yes == (self.output_count > 0),
    {
        self.output_count > 0
    }
}

/// Handles an event. A channel that opens is written to from then on; one that
/// has drained is written to again.
fn handle_event(rtc: &mut Rtc, session: &mut Session, event: RtcEvent)
    requires
        old(session)@.wf(),
    ensures
        old(session)@.may_handle(
            *old(rtc),
            RtcOutput::Event(event),
            final(session)@,
            *final(rtc),
        ),
        final(session)@.wf(),
{
    match event {
        RtcEvent::ChannelOpen(id) => {
            session.channel_id = Some(id);
            if is_open(rtc, id) {
                set_low_threshold(rtc, id, session.backpressure_state.low_threshold());
            }
            if session.messages_to_send.len() == 0 {
                session.messages_to_send = coordinate_messages();
            }
        },
        RtcEvent::ChannelClose(_) => {
            session.channel_id = None;
        },
        RtcEvent::ChannelBufferedAmountLow(_) => {
            session.backpressure_state.paused_by_sctp = false;
            push_messages(rtc, session);
        },
        RtcEvent::Connected => {},
        RtcEvent::Other => {},
    }
}

/// Handles an output of a connection. A datagram is handed back to be sent;
/// anything else is handled here and counts for this turn.
pub fn handle_output(
    rtc: &mut Rtc,
    session: &mut Session,
    drain: &mut Drain,
    output: RtcOutput,
) -> (datagram: Option<Transmit>)
    requires
        old(session)@.wf(),
        !old(drain).done(),
    ensures
        match output {
            RtcOutput::Transmit(to_send) => {
                &&& datagram == Some(to_send)
                &&& *final(drain) == *old(drain)
                &&& final(session)@ == old(session)@
                &&& *final(rtc) == *old(rtc)
            },
            _ => {
                &&& datagram is None
                &&& *final(drain) == old(drain).after(output)
                &&& old(session)@.may_handle(*old(rtc), output, final(session)@, *final(rtc))
            },
        },
        final(session)@.wf(),
{
    match output {
        RtcOutput::Timeout(at) => {
            drain.next_timeout = Some(at);
            push_messages(rtc, session);
        },
        RtcOutput::Transmit(datagram) => {
            return Some(datagram);
        },
        RtcOutput::Event(event) => {
            if let RtcEvent::Connected = event {
                drain.connected = true;
            }
            handle_event(rtc, session, event);
        },
    }
    drain.output_count = drain.output_count + 1;
    None
}

/// `std::time::Instant` compared with `==`: two points in time are equal if and
/// only if they are the same.
#[verifier::external_body]
fn same_instant(a: &Instant, b: &Instant) -> (same: bool)
    ensures
        same == (*a == *b),
{
    a == b
}

/// How a turn ends.
pub struct TurnEnd {
    /// The deadline to pass on, where it is another than before.
    pub deadline: Option<Instant>,
    /// How to pass the time until the next turn.
    pub pause: Pause,
}

/// How to pass the time after a turn. Outside of Windows it is let go by only
/// where nothing was received, no output was handled and the deadline stayed.
pub open spec fn turn_pause(
    platform: Platform,
    received: bool,
    drain: Drain,
    deadline_changed: bool,
) -> Pause {
    match platform {
        Platform::Windows => Pause::SleepMillis(1),
        Platform::Other => if received || drain.output_count > 0 || deadline_changed {
            Pause::GoOn
        } else {
            Pause::Yield
        },
    }
}

/// How a turn ends in which input was `received` or not. The deadline is what
/// the connection last asked for in this turn, or `fallback`, and is passed on
/// only where it is not the `known` one.
pub fn end_turn(
    platform: Platform,
    received: bool,
    drain: &Drain,
    known: Option<Instant>,
    fallback: Instant,
) -> (end: TurnEnd)
    ensures
        end.deadline == if known == Some(drain.asked(fallback)) {
            None
        } else {
            Some(drain.asked(fallback))
        },
        end.pause == turn_pause(
            platform,
            received,
            *drain,
            known != Some(drain.asked(fallback)),
        ),
{
    let deadline = drain.deadline(fallback);
    let changed = match known {
        Some(at) => !same_instant(&deadline, &at),
        None => true,
    };
    TurnEnd {
        deadline: if changed {
            Some(deadline)
        } else {
            None
        },
        pause: pause_after_turn(platform, received, drain.processed_any(), changed),
    }
}

impl SessionView {
    /// A session sends either nothing yet or the coordinates, and has got no
    /// further than noting their end.
    pub open spec fn streams_coordinates(self) -> bool {
        &&& 0 <= self.index <= self.messages.len() + 1
        &&& if self.messages.len() == 0 {
            self.index == 0
        } else {
            self.messages == crate::coordinates::coordinates()
        }
    }
}

/// What was added between two states of a connection to the queue of the
/// channel that a session has.
pub open spec fn added(before: Rtc, after: Rtc, session: SessionView) -> Seq<(bool, Seq<u8>)> {
    match session.channel_id {
        Some(id) => queued(after)[id].skip(queued(before)[id].len() as int),
        None => seq![],
    }
}

/// An attempt to write keeps a session to the coordinates, never goes back to a
/// message, and queues just the coordinates that it moves past.
pub proof fn lemma_push_adds(
    pre: SessionView,
    before: Rtc,
    push: Push,
    post: SessionView,
    after: Rtc,
)
    requires
        pre.streams_coordinates(),
        pre.push_leads_to(before, push, post, after),
    ensures
        post.streams_coordinates(),
        pre.index <= post.index,
        post.messages == pre.messages,
        added(before, after, post) == as_queued(
            crate::coordinates::coordinates(),
            pre.sent(),
            post.sent(),
        ),
{
    crate::channel::lemma_push_keeps(pre, before, push, post, after);
    assert(added(before, after, post) =~= as_queued(
        crate::coordinates::coordinates(),
        pre.sent(),
        post.sent(),
    ));
}

/// Handling an output keeps a session to the coordinates, never goes back to a
/// message, never replaces the messages, and queues just the coordinates that
/// it moves past.
pub proof fn lemma_handle_keeps(
    pre: SessionView,
    before: Rtc,
    output: RtcOutput,
    post: SessionView,
    after: Rtc,
)
    requires
        pre.streams_coordinates(),
        pre.may_handle(before, output, post, after),
    ensures
        post.streams_coordinates(),
        pre.index <= post.index,
        pre.messages.len() > 0 ==> post.messages == pre.messages,
        added(before, after, post) == as_queued(
            crate::coordinates::coordinates(),
            pre.sent(),
            post.sent(),
        ),
{
    let all = crate::coordinates::coordinates();
    match output {
        RtcOutput::Timeout(_) => {
            let push = choose|push: Push| #[trigger] pre.push_leads_to(before, push, post, after);
            lemma_push_adds(pre, before, push, post, after);
        },
        RtcOutput::Event(RtcEvent::ChannelBufferedAmountLow(_)) => {
            let going = pre.with_pause(false);
            let push = choose|push: Push| #[trigger] going.push_leads_to(before, push, post, after);
            lemma_push_adds(going, before, push, post, after);
        },
        _ => {
            assert(added(before, after, post) =~= as_queued(all, pre.sent(), post.sent()));
        },
    }
}

/// The wish to be given the time has the session write, and is noted.
pub proof fn lemma_timeout(
    pre: SessionView,
    rtc: Rtc,
    at: Instant,
    post: SessionView,
    after: Rtc,
) -> (push: Push)
    requires
        pre.may_handle(rtc, RtcOutput::Timeout(at), post, after),
    ensures
        pre.push_leads_to(rtc, push, post, after),
{
    choose|push: Push| #[trigger] pre.push_leads_to(rtc, push, post, after)
}

/// A channel that has drained has the session write again, whichever it is and
/// however much the session was paused.
pub proof fn lemma_drained(
    pre: SessionView,
    rtc: Rtc,
    id: ChannelId,
    post: SessionView,
    after: Rtc,
) -> (push: Push)
    requires
        pre.may_handle(
            rtc,
            RtcOutput::Event(RtcEvent::ChannelBufferedAmountLow(id)),
            post,
            after,
        ),
    ensures
        (SessionView {
            channel_id: pre.channel_id,
            messages: pre.messages,
            index: pre.index,
            flow: crate::backpressure::BackpressureState { paused_by_sctp: false, ..pre.flow },
        }).push_leads_to(rtc, push, post, after),
{
    let going = pre.with_pause(false);
    choose|push: Push| #[trigger] going.push_leads_to(rtc, push, post, after)
}

/// Whichever channel opens is written to from then on, from where the session
/// has got to. The messages are made the first time, and the channel is asked to
/// report when it has drained to the low mark.
pub proof fn lemma_channel_opens(
    pre: SessionView,
    rtc: Rtc,
    id: ChannelId,
    post: SessionView,
    after: Rtc,
)
    requires
        pre.may_handle(rtc, RtcOutput::Event(RtcEvent::ChannelOpen(id)), post, after),
    ensures
        post.channel_id == Some(id),
        post.index == pre.index,
        post.flow == pre.flow,
        pre.messages.len() > 0 ==> post.messages == pre.messages,
        pre.messages.len() == 0 ==> post.messages.len() == 2500 && post.messages
            == crate::coordinates::coordinates(),
        open_channels(rtc).contains(id) ==> drain_marks(after)[id] == pre.flow.low_water_bytes,
        open_channels(after) == open_channels(rtc),
        queued(after)[id] == queued(rtc)[id],
{
}

/// Once a channel closes, nothing is written until another one opens; the
/// session stays where it is. Other events change nothing.
pub proof fn lemma_channel_closes(
    pre: SessionView,
    rtc: Rtc,
    event: RtcEvent,
    post: SessionView,
    after: Rtc,
)
    requires
        pre.may_handle(rtc, RtcOutput::Event(event), post, after),
    ensures
        event is ChannelClose ==> {
            &&& post.channel_id is None
            &&& post.index == pre.index
            &&& post.messages == pre.messages
            &&& post.flow == pre.flow
            &&& after == rtc
        },
        event is Connected || event is Other ==> post == pre && after == rtc,
{
}

/// Every output that is handled counts once. What the connection asks for last
/// is the deadline, and it counts as established once it says so.
pub proof fn lemma_outputs_are_counted(drain: Drain, output: RtcOutput)
    requires
        drain.output_count < usize::MAX,
    ensures
        drain.after(output).output_count == drain.output_count + 1,
        drain.after(output).max_outputs == drain.max_outputs,
        output is Timeout ==> drain.after(output).next_timeout == Some(output->Timeout_0),
        !(output is Timeout) ==> drain.after(output).next_timeout == drain.next_timeout,
        output == RtcOutput::Event(RtcEvent::Connected) ==> drain.after(output).connected,
        output != RtcOutput::Event(RtcEvent::Connected) ==> drain.after(output).connected
            == drain.connected,
{
}

/// Every datagram that was sent counts once, and so does one that was not, but
/// for an invalid argument (22) where the destination is an IPv4 address
/// outside of loopback.
pub proof fn lemma_sent_datagrams_count(
    drain: Drain,
    failure: Option<SocketError>,
    destination: IpAddr,
)
    requires
        drain.output_count < usize::MAX,
    ensures
        ({
            let after = drain.after_sending(failure, destination);
            let passed_over = failure is Some && failure->0.os_error == Some(22i32)
                && destination is V4 && !(0x7f00_0000 <= destination->V4_0.number()
                <= 0x7fff_ffff);
            &&& passed_over ==> after.output_count == drain.output_count
            &&& !passed_over ==> after.output_count == drain.output_count + 1
            &&& after.next_timeout == drain.next_timeout
            &&& after.connected == drain.connected
            &&& after.max_outputs == drain.max_outputs
        }),
{
}

/// A turn begins with nothing handled, is over once as many outputs were handled
/// as the settings allow, and then has the deadline that was asked for last.
pub proof fn lemma_turns(
    config: PlatformConfig,
    begun: Drain,
    drain: Drain,
    done: bool,
    fallback: Instant,
    at: Instant,
    any: bool,
)
    requires
        call_ensures(Drain::new, (&config,), begun),
        call_ensures(Drain::is_done, (&drain,), done),
        call_ensures(Drain::deadline, (&drain, fallback), at),
        call_ensures(Drain::processed_any, (&drain,), any),
    ensures
        begun.output_count == 0,
        begun.max_outputs == config.max_outputs_per_call,
        begun.next_timeout is None,
        !begun.connected,
        done <==> drain.output_count >= drain.max_outputs,
        drain.next_timeout is Some ==> at == drain.next_timeout->0,
        drain.next_timeout is None ==> at == fallback,
        any <==> drain.output_count > 0,
{
}

/// The deadline is passed on if and only if it is another than the known one.
/// Outside of Windows other threads get to run only after a turn in which
/// nothing was received, nothing handled and no deadline passed on.
pub proof fn lemma_how_turns_end(
    platform: Platform,
    received: bool,
    drain: Drain,
    known: Option<Instant>,
    fallback: Instant,
    end: TurnEnd,
)
    requires
        call_ensures(end_turn, (platform, received, &drain, known, fallback), end),
    ensures
        ({
            let asked = match drain.next_timeout {
                Some(at) => at,
                None => fallback,
            };
            &&& end.deadline is Some <==> known != Some(asked)
            &&& end.deadline is Some ==> end.deadline->0 == asked
            &&& platform == Platform::Windows ==> end.pause == Pause::SleepMillis(1)
            &&& platform == Platform::Other ==> (end.pause == Pause::Yield <==> !received
                && drain.output_count == 0 && known == Some(asked))
            &&& platform == Platform::Other ==> end.pause == Pause::Yield || end.pause
                == Pause::GoOn
        }),
{
}

/// A datagram is handed back as it is and changes nothing; any other output is
/// handled and counted.
pub proof fn lemma_handling(
    rtc: &mut Rtc,
    session: &mut Session,
    drain: &mut Drain,
    output: RtcOutput,
    datagram: Option<Transmit>,
)
    requires
        call_ensures(handle_output, (rtc, session, drain, output), datagram),
    ensures
        output is Transmit ==> {
            &&& datagram == Some(output->Transmit_0)
            &&& *final(drain) == *old(drain)
            &&& final(session)@ == old(session)@
            &&& *final(rtc) == *old(rtc)
        },
        !(output is Transmit) ==> {
            &&& datagram is None
            &&& *final(drain) == old(drain).after(output)
            &&& old(session)@.may_handle(*old(rtc), output, final(session)@, *final(rtc))
        },
{
}

/// How sending went is noted as it counts.
pub proof fn lemma_noting(drain: &mut Drain, failure: Option<SocketError>, destination: IpAddr)
    requires
        call_ensures(Drain::note_sent, (drain, failure, destination), ()),
    ensures
        *final(drain) == old(drain).after_sending(failure, destination),
{
}

/// A channel that opens changes nothing of what any channel holds, nor when
/// another one reports that it has drained. One that is not open any more
/// changes nothing at all.
pub proof fn lemma_opening_keeps_the_rest(
    pre: SessionView,
    rtc: Rtc,
    id: ChannelId,
    post: SessionView,
    after: Rtc,
    any: ChannelId,
)
    requires
        pre.may_handle(rtc, RtcOutput::Event(RtcEvent::ChannelOpen(id)), post, after),
        open_channels(rtc).contains(any),
    ensures
        queued(after)[any] == queued(rtc)[any],
        buffered(after)[any] == buffered(rtc)[any],
        any != id ==> drain_marks(after)[any] == drain_marks(rtc)[any],
        !open_channels(rtc).contains(id) ==> after == rtc,
{
}

} // verus!
