//! The work on one peer connection, from its answer on: which output to ask it
//! for, what to send and to hand over, and which input to take in next.
//!
//! Polling the connection, giving it an input, sending, receiving and waiting
//! are the program's to do. `str0m` panics on some of what a peer may send, and
//! nothing that it shows its caller tells when: a handshake that failed, records
//! that pile up, a channel that opens on an association that shuts down. So the
//! two calls that drive a connection are made where a panic can be caught, and
//! the worker is told of it.
use std::time::Instant;

use str0m::net::Transmit;
use str0m::{Rtc, RtcError};
use vstd::prelude::*;

use crate::channel::{as_queued, push_messages, Push, Session, SessionView};
use crate::connection::{added, end_turn, handle_output, turn_pause, Drain, RtcOutput};
use crate::datagram::{read_as, read_datagram};
use crate::negotiation::{handle_inbound, takes_message};
use crate::net::{IpAddr, SocketError};
use crate::platform::{Pause, Platform, PlatformConfig};
use crate::signaling::{UdpIn, WsInbound};

verus! {

/// Where input for a connection comes from.
#[derive(Clone, Copy, Debug, PartialEq, Eq, Structural)]
pub enum Source {
    /// The browser.
    Messages,
    /// The socket.
    Datagrams,
    /// The clock.
    Ticks,
}

/// What a worker waits for.
#[derive(Clone, Copy, Debug, PartialEq, Eq, Structural)]
pub enum Stage {
    /// An output of the connection, in the first turn or a later one.
    Polling { first: bool },
    /// A datagram to be sent, in the first turn or a later one.
    Sending { first: bool },
    /// The first deadline to be passed on.
    Announcing,
    /// The answer to be handed over.
    Answering,
    /// A later deadline to be passed on, before a pause.
    PassingOn(Pause),
    /// A pause to be over.
    Pausing,
    /// Input from a source.
    Receiving(Source),
    /// Input from a source to be given to the connection.
    Giving(Source),
    /// Nothing: the work has ended.
    Ended,
}

/// What a connection is given, each time together with the time.
pub enum RtcInput {
    /// Nothing but the time.
    Timeout,
    /// A datagram that was received and can be read as one of a peer connection.
    Receive(UdpIn),
}

/// What came of giving a connection an input.
pub enum InputOutcome {
    /// The connection took the input.
    Taken,
    /// The connection failed on the input.
    Failed(RtcError),
}

/// What came of an action.
pub enum WorkerEvent {
    /// The connection was polled.
    Polled(Result<RtcOutput, RtcError>),
    /// A datagram was sent to a destination, or that failed.
    Sent { failure: Option<SocketError>, destination: IpAddr },
    /// A deadline was passed on, the answer was handed over, or a pause is over.
    Done,
    /// The browser sent a message.
    Message(WsInbound),
    /// A datagram was received.
    Datagram(UdpIn),
    /// The deadline has passed.
    Tick,
    /// The source has nothing more for now.
    Nothing,
    /// The connection was given an input.
    Given(InputOutcome),
    /// The connection broke down while it was polled or given an input.
    Lost,
}

/// Why the work on a connection has ended.
pub enum WorkerError {
    /// The connection reported an error.
    Connection(RtcError),
    /// The connection broke down.
    Lost,
}

/// What to do next.
pub enum WorkerAction {
    /// Poll the connection.
    Poll,
    /// Send a datagram.
    Send(Transmit),
    /// Tell when the connection wants to be given the time.
    PassOn(Instant),
    /// Hand over the answer to the offer.
    GiveAnswer(String),
    /// Pass the time.
    Pause(Pause),
    /// Look for input.
    Receive(Source),
    /// Give the connection an input.
    Give(RtcInput),
    /// Give up.
    Fail(WorkerError),
    /// Nothing: the event is not what was waited for.
    Ignore,
}

/// The work on a connection.
pub struct Worker {
    pub rtc: Rtc,
    pub session: Session,
    /// How far the outputs of this turn have been handled.
    pub drain: Drain,
    pub stage: Stage,
    /// The deadline that was last passed on.
    pub deadline: Option<Instant>,
    /// Whether input was received in this turn.
    pub received: bool,
    /// The answer to the offer, until it is handed over.
    pub answer: Option<String>,
    pub platform: Platform,
    /// The address that the connection is bound to.
    pub local_ip: IpAddr,
}

/// The state of a worker.
pub struct WorkerView {
    pub rtc: Rtc,
    pub session: SessionView,
    pub drain: Drain,
    pub stage: Stage,
    pub deadline: Option<Instant>,
    pub received: bool,
    pub answer: Option<Seq<char>>,
    pub platform: Platform,
    pub local_ip: IpAddr,
}

impl View for Worker {
    type V = WorkerView;

    open spec fn view(&self) -> WorkerView {
        WorkerView {
            rtc: self.rtc,
            session: self.session@,
            drain: self.drain,
            stage: self.stage,
            deadline: self.deadline,
            received: self.received,
            answer: match self.answer {
                Some(text) => Some(text@),
                None => None,
            },
            platform: self.platform,
            local_ip: self.local_ip,
        }
    }
}

impl Stage {
    /// Whether the first deadline has yet to be found.
    pub open spec fn is_first_turn(self) -> bool {
        self == Stage::Polling { first: true } || self == Stage::Sending { first: true }
    }

    /// Whether the answer has yet to be handed over.
    pub open spec fn is_unanswered(self) -> bool {
        self.is_first_turn() || self == Stage::Announcing
    }
}

impl WorkerView {
    /// Unless the work has ended, a deadline is known from the end of the first
    /// turn on and the answer is held until it is handed over. No more outputs
    /// were handled than may be in one turn, and within a turn there are some
    /// left to handle.
    pub open spec fn in_order(self) -> bool {
        &&& self.drain.output_count <= self.drain.max_outputs
        &&& self.stage is Polling || self.stage is Sending ==> !self.drain.done()
        &&& self.stage != Stage::Ended ==> {
            &&& self.deadline is None <==> self.stage.is_first_turn()
            &&& self.answer is Some <==> self.stage.is_unanswered()
        }
    }

    /// The worker is in order, and so is its session.
    pub open spec fn wf(self) -> bool {
        self.in_order() && self.session.wf()
    }

    /// The worker at another stage.
    pub open spec fn at(self, stage: Stage) -> WorkerView {
        WorkerView { stage, ..self }
    }

    /// Whether the turn goes on with `action` to `post`, once an output was
    /// handled: with the next output, or with the end of the turn. Then the
    /// deadline is passed on where it is another than before. After the first
    /// turn the answer follows; after the others a pause does.
    pub open spec fn goes_on(
        self,
        first: bool,
        fallback: Instant,
        action: WorkerAction,
        post: WorkerView,
    ) -> bool {
        let asked = self.drain.asked(fallback);
        let pause = turn_pause(
            self.platform,
            self.received,
            self.drain,
            self.deadline != Some(asked),
        );
        if !self.drain.done() {
            &&& action == WorkerAction::Poll
            &&& post == self.at(Stage::Polling { first })
        } else if first {
            &&& action == WorkerAction::PassOn(asked)
            &&& post == (WorkerView { deadline: Some(asked), ..self.at(Stage::Announcing) })
        } else if self.deadline == Some(asked) {
            &&& action == WorkerAction::Pause(pause)
            &&& post == self.at(Stage::Pausing)
        } else {
            &&& action == WorkerAction::PassOn(asked)
            &&& post == (WorkerView { deadline: Some(asked), ..self.at(Stage::PassingOn(pause)) })
        }
    }

    /// Whether the worker can take `event` by `action` to `post`, where
    /// `fallback` is the deadline of a connection that has asked for none.
    pub open spec fn steps_to(
        self,
        event: WorkerEvent,
        fallback: Instant,
        action: WorkerAction,
        post: WorkerView,
    ) -> bool {
        match (self.stage, event) {
            (Stage::Ended, _) => action == WorkerAction::Ignore && post == self,
            (_, WorkerEvent::Lost) => {
                &&& action == WorkerAction::Fail(WorkerError::Lost)
                &&& post == self.at(Stage::Ended)
            },
            (Stage::Polling { first }, WorkerEvent::Polled(Err(e))) => {
                &&& action == WorkerAction::Fail(WorkerError::Connection(e))
                &&& post == self.at(Stage::Ended)
            },
            (
                Stage::Polling { first },
                WorkerEvent::Polled(Ok(RtcOutput::Transmit(datagram))),
            ) => {
                &&& action == WorkerAction::Send(datagram)
                &&& post == self.at(Stage::Sending { first })
            },
            (Stage::Polling { first }, WorkerEvent::Polled(Ok(output))) => {
                &&& self.session.may_handle(self.rtc, output, post.session, post.rtc)
                &&& WorkerView {
                    rtc: post.rtc,
                    session: post.session,
                    drain: self.drain.after(output),
                    ..self
                }.goes_on(first, fallback, action, post)
            },
            (Stage::Sending { first }, WorkerEvent::Sent { failure, destination }) => {
                WorkerView {
                    drain: self.drain.after_sending(failure, destination),
                    ..self
                }.goes_on(first, fallback, action, post)
            },
            (Stage::Announcing, WorkerEvent::Done) => {
                &&& action matches WorkerAction::GiveAnswer(text)
                &&& self.answer == Some(text@)
                &&& post == (WorkerView { answer: None, ..self.at(Stage::Answering) })
            },
            (Stage::PassingOn(pause), WorkerEvent::Done) => {
                &&& action == WorkerAction::Pause(pause)
                &&& post == self.at(Stage::Pausing)
            },
            (Stage::Answering | Stage::Pausing, WorkerEvent::Done) => {
                &&& action == WorkerAction::Receive(Source::Messages)
                &&& post == (WorkerView {
                    received: false,
                    ..self.at(Stage::Receiving(Source::Messages))
                })
            },
            (Stage::Receiving(Source::Messages), WorkerEvent::Message(message)) => {
                &&& action == WorkerAction::Receive(Source::Messages)
                &&& takes_message(self.rtc, message, self.local_ip, post.rtc)
                &&& post == (WorkerView { rtc: post.rtc, received: true, ..self })
            },
            (Stage::Receiving(Source::Messages), WorkerEvent::Nothing) => {
                &&& action == WorkerAction::Receive(Source::Datagrams)
                &&& post == self.at(Stage::Receiving(Source::Datagrams))
            },
            (Stage::Receiving(Source::Datagrams), WorkerEvent::Datagram(datagram)) => {
                if read_as(datagram.buf@) is Some {
                    &&& action == WorkerAction::Give(RtcInput::Receive(datagram))
                    &&& post == (WorkerView {
                        received: true,
                        ..self.at(Stage::Giving(Source::Datagrams))
                    })
                } else {
                    &&& action == WorkerAction::Receive(Source::Datagrams)
                    &&& post == (WorkerView { received: true, ..self })
                }
            },
            (Stage::Receiving(Source::Datagrams), WorkerEvent::Nothing) => {
                &&& action == WorkerAction::Receive(Source::Ticks)
                &&& post == self.at(Stage::Receiving(Source::Ticks))
            },
            (Stage::Receiving(Source::Ticks), WorkerEvent::Tick) => {
                &&& action == WorkerAction::Give(RtcInput::Timeout)
                &&& post == (WorkerView { received: true, ..self.at(Stage::Giving(Source::Ticks)) })
            },
            (Stage::Receiving(Source::Ticks), WorkerEvent::Nothing) => {
                &&& action == WorkerAction::Poll
                &&& self.session.may_push(self.rtc, post.session, post.rtc)
                &&& post == (WorkerView {
                    rtc: post.rtc,
                    session: post.session,
                    drain: Drain::begun(PlatformConfig::of(self.platform)),
                    ..self.at(Stage::Polling { first: false })
                })
            },
            (Stage::Giving(source), WorkerEvent::Given(_)) => {
                &&& action == WorkerAction::Receive(source)
                &&& post == self.at(Stage::Receiving(source))
            },
            _ => action == WorkerAction::Ignore && post == self,
        }
    }
}

impl Worker {
    /// The work on a connection that made `answer` to an offer. It begins with
    /// polling the connection.
    pub fn new(rtc: Rtc, answer: String, platform: Platform, local_ip: IpAddr) -> (worker: Worker)
        ensures
            worker@ == (WorkerView {
                rtc,
                session: worker@.session,
                drain: Drain::begun(PlatformConfig::of(platform)),
                stage: Stage::Polling { first: true },
                deadline: None,
                received: false,
                answer: Some(answer@),
                platform,
                local_ip,
            }),
            worker@.session == SessionView::begun(platform),
            worker@.session.streams_coordinates(),
            worker@.wf(),
    {
        Worker {
            rtc,
            session: Session::new(platform),
            drain: Drain::new(&PlatformConfig::current(platform)),
            stage: Stage::Polling { first: true },
            deadline: None,
            received: false,
            answer: Some(answer),
            platform,
            local_ip,
        }
    }

    fn go_on(&mut self, first: bool, fallback: Instant) -> (action: WorkerAction)
        requires
            old(self)@.session.wf(),
            old(self)@.drain.output_count <= old(self)@.drain.max_outputs,
            first ==> old(self)@.answer is Some && old(self)@.deadline is None,
            !first ==> old(self)@.answer is None && old(self)@.deadline is Some,
        ensures
            old(self)@.goes_on(first, fallback, action, final(self)@),
            final(self)@.wf(),
    {
        if !self.drain.is_done() {
            self.stage = Stage::Polling { first };
            return WorkerAction::Poll;
        }
        let end = end_turn(self.platform, self.received, &self.drain, self.deadline, fallback);
        match end.deadline {
            Some(deadline) => {
                self.deadline = Some(deadline);
                self.stage = if first {
                    Stage::Announcing
                } else {
                    Stage::PassingOn(end.pause)
                };
                WorkerAction::PassOn(deadline)
            },
            None => {
                self.stage = Stage::Pausing;
                WorkerAction::Pause(end.pause)
            },
        }
    }

    fn take_output(&mut self, first: bool, output: RtcOutput, fallback: Instant) -> (action:
        WorkerAction)
        requires
            old(self)@.wf(),
            old(self)@.stage == (Stage::Polling { first }),
        ensures
            old(self)@.steps_to(
                WorkerEvent::Polled(Ok(output)),
                fallback,
                action,
                final(self)@,
            ),
            final(self)@.wf(),
    {
        match handle_output(&mut self.rtc, &mut self.session, &mut self.drain, output) {
            Some(datagram) => {
                self.stage = Stage::Sending { first };
                WorkerAction::Send(datagram)
            },
            None => self.go_on(first, fallback),
        }
    }

    fn hand_over(&mut self) -> (action: WorkerAction)
        requires
            old(self)@.wf(),
            old(self)@.stage == Stage::Announcing,
        ensures
            action matches WorkerAction::GiveAnswer(text) && old(self)@.answer == Some(text@),
            final(self)@ == (WorkerView { answer: None, ..old(self)@.at(Stage::Answering) }),
            final(self)@.wf(),
    {
        self.stage = Stage::Answering;
        match self.answer.take() {
            Some(text) => WorkerAction::GiveAnswer(text),
            None => WorkerAction::Ignore,
        }
    }

    /// Takes an event and tells what to do next. `fallback` is the deadline of
    /// a connection that has asked for none.
    pub fn step(&mut self, event: WorkerEvent, fallback: Instant) -> (action: WorkerAction)
        requires
            old(self)@.wf(),
        ensures
            old(self)@.steps_to(event, fallback, action, final(self)@),
            final(self)@.wf(),
    {
        match (self.stage, event) {
            (Stage::Ended, _) => WorkerAction::Ignore,
            (_, WorkerEvent::Lost) => {
                self.stage = Stage::Ended;
                WorkerAction::Fail(WorkerError::Lost)
            },
            (Stage::Polling { first: _ }, WorkerEvent::Polled(Err(e))) => {
                self.stage = Stage::Ended;
                WorkerAction::Fail(WorkerError::Connection(e))
            },
            (Stage::Polling { first }, WorkerEvent::Polled(Ok(output))) => {
                self.take_output(first, output, fallback)
            },
            (Stage::Sending { first }, WorkerEvent::Sent { failure, destination }) => {
                self.drain.note_sent(failure, destination);
                self.go_on(first, fallback)
            },
            (Stage::Announcing, WorkerEvent::Done) => self.hand_over(),
            (Stage::PassingOn(pause), WorkerEvent::Done) => {
                self.stage = Stage::Pausing;
                WorkerAction::Pause(pause)
            },
            (Stage::Answering | Stage::Pausing, WorkerEvent::Done) => {
                self.received = false;
                self.stage = Stage::Receiving(Source::Messages);
                WorkerAction::Receive(Source::Messages)
            },
            (Stage::Receiving(Source::Messages), WorkerEvent::Message(message)) => {
                self.received = true;
                handle_inbound(&mut self.rtc, &message, self.local_ip);
                WorkerAction::Receive(Source::Messages)
            },
            (Stage::Receiving(Source::Messages), WorkerEvent::Nothing) => {
                self.stage = Stage::Receiving(Source::Datagrams);
                WorkerAction::Receive(Source::Datagrams)
            },
            (Stage::Receiving(Source::Datagrams), WorkerEvent::Datagram(datagram)) => {
                self.received = true;
                if read_datagram(datagram.buf.as_slice()).is_none() {
                    return WorkerAction::Receive(Source::Datagrams);
                }
                self.stage = Stage::Giving(Source::Datagrams);
                WorkerAction::Give(RtcInput::Receive(datagram))
            },
            (Stage::Receiving(Source::Datagrams), WorkerEvent::Nothing) => {
                self.stage = Stage::Receiving(Source::Ticks);
                WorkerAction::Receive(Source::Ticks)
            },
            (Stage::Receiving(Source::Ticks), WorkerEvent::Tick) => {
                self.received = true;
                self.stage = Stage::Giving(Source::Ticks);
                WorkerAction::Give(RtcInput::Timeout)
            },
            (Stage::Receiving(Source::Ticks), WorkerEvent::Nothing) => {
                push_messages(&mut self.rtc, &mut self.session);
                self.drain = Drain::new(&PlatformConfig::current(self.platform));
                self.stage = Stage::Polling { first: false };
                WorkerAction::Poll
            },
            (Stage::Giving(source), WorkerEvent::Given(_)) => {
                self.stage = Stage::Receiving(source);
                WorkerAction::Receive(source)
            },
            _ => WorkerAction::Ignore,
        }
    }
}

/// One event that a worker takes: the worker before it, the event with the
/// deadline to fall back to, what was done, and the worker after it.
pub struct Moment {
    pub before: WorkerView,
    pub event: WorkerEvent,
    pub fallback: Instant,
    pub action: WorkerAction,
    pub after: WorkerView,
}

impl Moment {
    /// Whether the worker can take the event like this.
    #[verifier::opaque]
    pub open spec fn is_step(self) -> bool {
        self.before.steps_to(self.event, self.fallback, self.action, self.after)
    }

    /// Whether the worker is at `next` what it was after this moment. Between
    /// the two the connection may change, as it does when it is polled or given
    /// an input, and nothing else.
    pub open spec fn leads_to(self, next: Moment) -> bool {
        next.before == (WorkerView { rtc: next.before.rtc, ..self.after })
    }
}

/// Whether moments follow one another in the work on a connection.
pub open spec fn is_history(moments: Seq<Moment>) -> bool {
    &&& forall|i: int| 0 <= i < moments.len() ==> (#[trigger] moments[i]).is_step()
    &&& forall|i: int, j: int|
        0 <= i && j == i + 1 && j < moments.len() ==> #[trigger] moments[i].leads_to(moments[j])
}

/// How often the answer was handed over.
pub open spec fn answers(moments: Seq<Moment>) -> nat
    decreases moments.len(),
{
    if moments.len() == 0 {
        0
    } else if moments.last().action is GiveAnswer {
        answers(moments.drop_last()) + 1
    } else {
        answers(moments.drop_last())
    }
}

/// What was queued on the channels of the session, in order.
pub open spec fn queued_by(moments: Seq<Moment>) -> Seq<(bool, Seq<u8>)>
    decreases moments.len(),
{
    if moments.len() == 0 {
        seq![]
    } else {
        let last = moments.last();
        queued_by(moments.drop_last()) + added(
            last.before.rtc,
            last.after.rtc,
            last.after.session,
        )
    }
}

proof fn lemma_shorter_history(moments: Seq<Moment>)
    requires
        is_history(moments),
        moments.len() > 0,
    ensures
        is_history(moments.drop_last()),
        moments.last().is_step(),
        moments.len() > 1 ==> moments.drop_last().last().leads_to(moments.last()),
{
    let fewer = moments.drop_last();
    let n = moments.len() - 1;
    assert(moments[n].is_step());
    assert forall|i: int| 0 <= i < fewer.len() implies (#[trigger] fewer[i]).is_step() by {
        assert(fewer[i] == moments[i]);
    }
    assert forall|i: int, j: int| 0 <= i && j == i + 1 && j < fewer.len() implies #[trigger]
        fewer[i].leads_to(fewer[j]) by {
        assert(moments[i].leads_to(moments[j]));
    }
    if n > 0 {
        assert(moments[n - 1].leads_to(moments[n]));
    }
}

/// The answer stays until it is handed over, which is done once the first
/// deadline is known; the deadline stays until another one is passed on; and a
/// worker that is in order stays in order.
pub proof fn lemma_moment_in_order(moment: Moment)
    requires
        moment.is_step(),
    ensures
        match moment.action {
            WorkerAction::GiveAnswer(text) => {
                &&& moment.before.stage == Stage::Announcing
                &&& moment.before.answer == Some(text@)
                &&& moment.after.answer is None
            },
            _ => moment.after.answer == moment.before.answer,
        },
        match moment.action {
            WorkerAction::PassOn(at) => {
                &&& moment.after.deadline == Some(at)
                &&& moment.before.in_order() ==> moment.before.deadline != Some(at)
            },
            _ => moment.after.deadline == moment.before.deadline,
        },
        moment.before.in_order() ==> moment.after.in_order(),
{
    reveal(Moment::is_step);
}

/// A worker that is in order stays in order, whatever it is told.
pub proof fn lemma_stays_in_order(moments: Seq<Moment>, k: int)
    requires
        is_history(moments),
        0 <= k < moments.len(),
        moments[0].before.in_order(),
    ensures
        moments[k].before.in_order(),
        moments[k].after.in_order(),
    decreases k,
{
    lemma_moment_in_order(moments[k]);
    if k > 0 {
        lemma_stays_in_order(moments, k - 1);
        assert(moments[k - 1].leads_to(moments[k]));
    }
}

/// The answer is handed over at most once, however often the browser makes
/// another offer, and it is the one that the connection made.
pub proof fn lemma_answers_once(moments: Seq<Moment>)
    requires
        is_history(moments),
        moments.len() > 0,
    ensures
        answers(moments) <= 1,
        forall|k: int|
            0 <= k < moments.len() && (#[trigger] moments[k]).action is GiveAnswer ==> Some(
                moments[k].action->GiveAnswer_0@,
            ) == moments[0].before.answer,
{
    lemma_answer_is_kept(moments);
}

proof fn lemma_answer_is_kept(moments: Seq<Moment>)
    requires
        is_history(moments),
        moments.len() > 0,
    ensures
        answers(moments) == 0 ==> moments.last().after.answer == moments[0].before.answer,
        answers(moments) > 0 ==> moments.last().after.answer is None,
        answers(moments) <= 1,
        forall|k: int|
            0 <= k < moments.len() && (#[trigger] moments[k]).action is GiveAnswer ==> Some(
                moments[k].action->GiveAnswer_0@,
            ) == moments[0].before.answer,
    decreases moments.len(),
{
    lemma_shorter_history(moments);
    lemma_moment_in_order(moments.last());
    let fewer = moments.drop_last();
    if fewer.len() == 0 {
        assert(moments.last() == moments[0]);
        assert(answers(fewer) == 0);
    } else {
        lemma_answer_is_kept(fewer);
        assert(fewer[0] == moments[0]);
        assert forall|k: int|
            0 <= k < moments.len() && (#[trigger] moments[k]).action is GiveAnswer implies Some(
            moments[k].action->GiveAnswer_0@,
        ) == moments[0].before.answer by {
            if k < fewer.len() {
                assert(moments[k] == fewer[k]);
            }
        }
    }
}

/// A deadline is passed on before the answer is handed over.
pub proof fn lemma_deadline_comes_first(moments: Seq<Moment>, k: int) -> (j: int)
    requires
        is_history(moments),
        moments[0].before.in_order(),
        moments[0].before.deadline is None,
        0 <= k < moments.len(),
        moments[k].action is GiveAnswer,
    ensures
        0 <= j < k,
        moments[j].action is PassOn,
{
    lemma_stays_in_order(moments, k);
    lemma_moment_in_order(moments[k]);
    lemma_passed_on(moments, k)
}

proof fn lemma_passed_on(moments: Seq<Moment>, k: int) -> (j: int)
    requires
        is_history(moments),
        moments[0].before.deadline is None,
        0 <= k < moments.len(),
        moments[k].before.deadline is Some,
    ensures
        0 <= j < k,
        moments[j].action is PassOn,
    decreases k,
{
    assert(moments[k - 1].leads_to(moments[k]));
    lemma_moment_in_order(moments[k - 1]);
    if moments[k - 1].action is PassOn {
        k - 1
    } else {
        lemma_passed_on(moments, k - 1)
    }
}

/// No deadline is passed on twice in succession.
pub proof fn lemma_deadlines_differ(moments: Seq<Moment>, i: int, j: int)
    requires
        is_history(moments),
        0 <= i < j < moments.len(),
        moments[i].action is PassOn,
        moments[j].action is PassOn,
        forall|k: int| i < k < j ==> !((#[trigger] moments[k]).action is PassOn),
        moments[0].before.in_order(),
    ensures
        moments[i].action->PassOn_0 != moments[j].action->PassOn_0,
{
    lemma_moment_in_order(moments[i]);
    lemma_moment_in_order(moments[j]);
    lemma_stays_in_order(moments, j);
    lemma_deadline_stays(moments, i, j - 1);
    assert(moments[j - 1].leads_to(moments[j]));
}

proof fn lemma_deadline_stays(moments: Seq<Moment>, i: int, k: int)
    requires
        is_history(moments),
        0 <= i <= k < moments.len(),
        forall|m: int| i < m <= k ==> !((#[trigger] moments[m]).action is PassOn),
    ensures
        moments[k].after.deadline == moments[i].after.deadline,
    decreases k - i,
{
    if i < k {
        lemma_deadline_stays(moments, i, k - 1);
        lemma_moment_in_order(moments[k]);
        assert(moments[k - 1].leads_to(moments[k]));
        assert(!(moments[k].action is PassOn));
    }
}

/// The work ends with an error and in no other way, and nothing is done after that.
pub proof fn lemma_ends_in_an_error(moment: Moment)
    requires
        moment.is_step(),
    ensures
        moment.after.stage == Stage::Ended <==> moment.before.stage == Stage::Ended
            || moment.action is Fail,
        moment.before.stage == Stage::Ended ==> moment.action == WorkerAction::Ignore
            && moment.after == moment.before,
{
    reveal(Moment::is_step);
}

/// Whether an event can come of an action.
pub open spec fn comes_of(event: WorkerEvent, action: WorkerAction) -> bool {
    match action {
        WorkerAction::Poll => event is Polled || event is Lost,
        WorkerAction::Send(_) => event is Sent,
        WorkerAction::PassOn(_) => event is Done,
        WorkerAction::GiveAnswer(_) => event is Done,
        WorkerAction::Pause(_) => event is Done,
        WorkerAction::Receive(Source::Messages) => event is Message || event is Nothing,
        WorkerAction::Receive(Source::Datagrams) => event is Datagram || event is Nothing,
        WorkerAction::Receive(Source::Ticks) => event is Tick || event is Nothing,
        WorkerAction::Give(_) => event is Given || event is Lost,
        WorkerAction::Fail(_) => false,
        WorkerAction::Ignore => false,
    }
}

/// What comes of an action is never ignored: the work goes on, with another
/// action each time, until it fails.
pub proof fn lemma_work_goes_on(earlier: Moment, later: Moment)
    requires
        earlier.is_step(),
        later.is_step(),
        earlier.leads_to(later),
        comes_of(later.event, earlier.action),
    ensures
        later.action != WorkerAction::Ignore,
{
    reveal(Moment::is_step);
}

/// Another offer of the browser changes nothing about the connection, the
/// session or the answer.
pub proof fn lemma_further_offer_is_passed_over(moment: Moment, sdp: String)
    requires
        moment.is_step(),
        moment.event == WorkerEvent::Message(WsInbound::Offer { sdp }),
    ensures
        moment.after == (WorkerView { received: moment.after.received, ..moment.before }),
        moment.action is Receive || moment.action == WorkerAction::Ignore,
{
    reveal(Moment::is_step);
}

/// Whatever a worker is told, its session keeps to the coordinates, never goes
/// back to a message, and queues just the coordinates that it moves past.
pub proof fn lemma_moment_keeps(moment: Moment)
    requires
        moment.is_step(),
        moment.before.session.streams_coordinates(),
    ensures
        moment.after.session.streams_coordinates(),
        moment.before.session.index <= moment.after.session.index,
        added(moment.before.rtc, moment.after.rtc, moment.after.session) == as_queued(
            crate::coordinates::coordinates(),
            moment.before.session.sent(),
            moment.after.session.sent(),
        ),
{
    reveal(Moment::is_step);
    let pre = moment.before;
    let post = moment.after;
    let all = crate::coordinates::coordinates();
    match (pre.stage, moment.event) {
        (Stage::Polling { .. }, WorkerEvent::Polled(Ok(output))) if !(output is Transmit) => {
            crate::connection::lemma_handle_keeps(
                pre.session,
                pre.rtc,
                output,
                post.session,
                post.rtc,
            );
        },
        (Stage::Receiving(Source::Ticks), WorkerEvent::Nothing) => {
            let push = choose|push: Push| #[trigger]
                pre.session.push_leads_to(pre.rtc, push, post.session, post.rtc);
            crate::connection::lemma_push_adds(pre.session, pre.rtc, push, post.session, post.rtc);
        },
        _ => {
            assert(post.session == pre.session);
            assert(added(pre.rtc, post.rtc, post.session) =~= as_queued(
                all,
                pre.session.sent(),
                post.session.sent(),
            ));
        },
    }
}

/// Over all turns a session keeps to the coordinates and works through them:
/// what it queues on its channel is the coordinates that it moves past, in
/// order and each of them once.
pub proof fn lemma_history_streams(moments: Seq<Moment>)
    requires
        is_history(moments),
        moments.len() > 0,
        moments[0].before.session.streams_coordinates(),
    ensures
        moments.last().after.session.streams_coordinates(),
        moments[0].before.session.index <= moments.last().after.session.index,
        queued_by(moments) == as_queued(
            crate::coordinates::coordinates(),
            moments[0].before.session.sent(),
            moments.last().after.session.sent(),
        ),
    decreases moments.len(),
{
    let all = crate::coordinates::coordinates();
    let fewer = moments.drop_last();
    let last = moments.last();
    lemma_shorter_history(moments);
    let from = moments[0].before.session.sent();
    if fewer.len() == 0 {
        assert(last == moments[0]);
        assert(queued_by(fewer) == Seq::<(bool, Seq<u8>)>::empty());
        lemma_moment_keeps(last);
        assert(queued_by(moments) =~= as_queued(all, from, last.after.session.sent()));
    } else {
        lemma_history_streams(fewer);
        lemma_moment_keeps(last);
        assert(fewer[0] == moments[0]);
        assert(as_queued(all, from, last.before.session.sent()) + as_queued(
            all,
            last.before.session.sent(),
            last.after.session.sent(),
        ) =~= as_queued(all, from, last.after.session.sent()));
    }
}

/// However many turns it takes, a session that begins before the first
/// coordinate and ends past the last one has queued all 2500 coordinates, in
/// order and each of them once.
pub proof fn lemma_stream_is_complete(moments: Seq<Moment>)
    requires
        is_history(moments),
        moments.len() > 0,
        moments[0].before.session.streams_coordinates(),
        moments[0].before.session.index == 0,
        moments.last().after.session.messages.len() > 0,
        moments.last().after.session.all_sent(),
    ensures
        queued_by(moments) == Seq::new(
            2500,
            |k: int| (false, vstd::utf8::encode_utf8(crate::coordinates::coordinate(k))),
        ),
{
    lemma_history_streams(moments);
    assert(as_queued(crate::coordinates::coordinates(), 0, 2500) =~= Seq::new(
        2500,
        |k: int| (false, vstd::utf8::encode_utf8(crate::coordinates::coordinate(k))),
    ));
}

/// A worker begins with the connection and the answer that it is given, in its
/// first turn, with nothing sent and no deadline known.
pub proof fn lemma_new_worker(
    rtc: Rtc,
    answer: String,
    platform: Platform,
    local_ip: IpAddr,
    worker: Worker,
)
    requires
        call_ensures(Worker::new, (rtc, answer, platform, local_ip), worker),
    ensures
        worker.rtc == rtc,
        worker.answer is Some,
        worker.answer->0@ == answer@,
        worker.platform == platform,
        worker.local_ip == local_ip,
        worker.deadline is None,
        worker.stage == (Stage::Polling { first: true }),
        worker.drain.output_count == 0,
        worker.drain.next_timeout is None,
        worker.session@.channel_id is None,
        worker.session@.index == 0,
        worker.session@.messages.len() == 0,
        worker@.wf(),
{
    assert(worker@.answer is Some);
}

/// In a turn a datagram that the connection wants sent is sent as it is, and
/// any other output is handled by the session, on this connection, and counted.
/// An error of the connection ends the work with that error.
pub proof fn lemma_outputs_are_handled(moment: Moment, first: bool)
    requires
        moment.is_step(),
        moment.before.stage == (Stage::Polling { first }),
        moment.event is Polled,
    ensures
        moment.event->Polled_0 is Err ==> {
            &&& moment.action == WorkerAction::Fail(
                WorkerError::Connection(moment.event->Polled_0->Err_0),
            )
            &&& moment.after.stage == Stage::Ended
        },
        moment.event->Polled_0 is Ok && moment.event->Polled_0->Ok_0 is Transmit ==> {
            &&& moment.action == WorkerAction::Send(moment.event->Polled_0->Ok_0->Transmit_0)
            &&& moment.after.stage == (Stage::Sending { first })
            &&& moment.after.drain == moment.before.drain
            &&& moment.after.session == moment.before.session
            &&& moment.after.rtc == moment.before.rtc
        },
        moment.event->Polled_0 is Ok && !(moment.event->Polled_0->Ok_0 is Transmit) ==> {
            &&& moment.before.session.may_handle(
                moment.before.rtc,
                moment.event->Polled_0->Ok_0,
                moment.after.session,
                moment.after.rtc,
            )
            &&& moment.after.drain == moment.before.drain.after(moment.event->Polled_0->Ok_0)
        },
{
    reveal(Moment::is_step);
}

/// What comes of sending a datagram counts for the turn, and changes nothing else.
pub proof fn lemma_sending_is_noted(moment: Moment, first: bool)
    requires
        moment.is_step(),
        moment.before.stage == (Stage::Sending { first }),
        moment.event is Sent,
    ensures
        moment.after.drain == moment.before.drain.after_sending(
            moment.event->failure,
            moment.event->destination,
        ),
        moment.after.session == moment.before.session,
        moment.after.rtc == moment.before.rtc,
        moment.action is Poll || moment.action is PassOn || moment.action is Pause,
{
    reveal(Moment::is_step);
}

/// A turn goes on with the next output until as many were handled as may be.
/// Then the deadline that the connection asked for last, or else the fallback,
/// is passed on: always after the first turn, and later if it is another one. A
/// turn after the first is followed by a pause, which outside of Windows is none
/// unless nothing was received, nothing handled and no deadline passed on.
pub proof fn lemma_turns_end(moment: Moment, first: bool)
    requires
        moment.is_step(),
        moment.before.in_order(),
        moment.before.stage == (Stage::Polling { first }) && moment.event is Polled
            && moment.event->Polled_0 is Ok && !(moment.event->Polled_0->Ok_0 is Transmit)
            || moment.before.stage == (Stage::Sending { first }) && moment.event is Sent,
    ensures
        ({
            let drain = moment.after.drain;
            let asked = match drain.next_timeout {
                Some(at) => at,
                None => moment.fallback,
            };
            let changed = moment.before.deadline != Some(asked);
            let pause = if moment.before.platform == Platform::Windows {
                Pause::SleepMillis(1)
            } else if moment.before.received || drain.output_count > 0 || changed {
                Pause::GoOn
            } else {
                Pause::Yield
            };
            &&& drain.output_count < drain.max_outputs ==> {
                &&& moment.action == WorkerAction::Poll
                &&& moment.after.stage == (Stage::Polling { first })
                &&& moment.after.deadline == moment.before.deadline
            }
            &&& drain.output_count >= drain.max_outputs && first ==> {
                &&& moment.action == WorkerAction::PassOn(asked)
                &&& moment.after.stage == Stage::Announcing
                &&& moment.after.deadline == Some(asked)
            }
            &&& drain.output_count >= drain.max_outputs && !first && changed ==> {
                &&& moment.action == WorkerAction::PassOn(asked)
                &&& moment.after.stage == Stage::PassingOn(pause)
                &&& moment.after.deadline == Some(asked)
            }
            &&& drain.output_count >= drain.max_outputs && !first && !changed ==> {
                &&& moment.action == WorkerAction::Pause(pause)
                &&& moment.after.stage == Stage::Pausing
                &&& moment.after.deadline == moment.before.deadline
            }
        }),
{
    reveal(Moment::is_step);
}

/// After the first deadline comes the answer, after a later one the pause, and
/// after either of those the worker looks for input, with none received yet.
pub proof fn lemma_what_comes_after(moment: Moment)
    requires
        moment.is_step(),
        moment.event is Done,
        moment.before.in_order(),
    ensures
        moment.before.stage == Stage::Announcing ==> moment.action is GiveAnswer
            && moment.after.stage == Stage::Answering,
        moment.before.stage is PassingOn ==> moment.action == WorkerAction::Pause(
            moment.before.stage->PassingOn_0,
        ) && moment.after.stage == Stage::Pausing,
        moment.before.stage == Stage::Answering || moment.before.stage == Stage::Pausing ==> {
            &&& moment.action == WorkerAction::Receive(Source::Messages)
            &&& moment.after.stage == Stage::Receiving(Source::Messages)
            &&& !moment.after.received
        },
        moment.after.rtc == moment.before.rtc,
        moment.after.session == moment.before.session,
{
    reveal(Moment::is_step);
}

/// Every message of the browser is handled, on this connection and for the
/// address that it is bound to, and the next one is looked for.
pub proof fn lemma_messages_are_received(moment: Moment)
    requires
        moment.is_step(),
        moment.before.stage == Stage::Receiving(Source::Messages),
        moment.event is Message,
    ensures
        takes_message(
            moment.before.rtc,
            moment.event->Message_0,
            moment.before.local_ip,
            moment.after.rtc,
        ),
        moment.action == WorkerAction::Receive(Source::Messages),
        moment.after.stage == Stage::Receiving(Source::Messages),
        moment.after.received,
        moment.after.session == moment.before.session,
{
    reveal(Moment::is_step);
}

/// Every datagram that can be read is given to the connection as it is, every
/// deadline that passed as the time alone, and then the next one is looked for,
/// whatever the connection made of it.
pub proof fn lemma_inputs_are_given(moment: Moment)
    requires
        moment.is_step(),
    ensures
        moment.before.stage == Stage::Receiving(Source::Datagrams) && moment.event is Datagram ==> {
            &&& moment.after.received
            &&& read_as(moment.event->Datagram_0.buf@) is Some ==> {
                &&& moment.action == WorkerAction::Give(
                    RtcInput::Receive(moment.event->Datagram_0),
                )
                &&& moment.after.stage == Stage::Giving(Source::Datagrams)
            }
            &&& read_as(moment.event->Datagram_0.buf@) is None ==> {
                &&& moment.action == WorkerAction::Receive(Source::Datagrams)
                &&& moment.after.stage == Stage::Receiving(Source::Datagrams)
            }
        },
        moment.before.stage == Stage::Receiving(Source::Ticks) && moment.event is Tick ==> {
            &&& moment.after.received
            &&& moment.action == WorkerAction::Give(RtcInput::Timeout)
            &&& moment.after.stage == Stage::Giving(Source::Ticks)
        },
        moment.before.stage is Giving && moment.event is Given ==> {
            &&& moment.action == WorkerAction::Receive(moment.before.stage->Giving_0)
            &&& moment.after.stage == Stage::Receiving(moment.before.stage->Giving_0)
            &&& moment.after.received == moment.before.received
        },
        moment.before.stage is Receiving && (moment.event is Datagram || moment.event is Tick)
            || moment.before.stage is Giving && moment.event is Given ==> {
            &&& moment.after.rtc == moment.before.rtc
            &&& moment.after.session == moment.before.session
        },
{
    reveal(Moment::is_step);
}

/// Where no input is left the browser, the socket and the clock have all been
/// asked, in this order; then the session writes and a new turn begins, whatever
/// was received.
pub proof fn lemma_every_source_is_asked(first: Moment, second: Moment, third: Moment) -> (push:
    Push)
    requires
        first.is_step(),
        second.is_step(),
        third.is_step(),
        first.leads_to(second),
        second.leads_to(third),
        first.before.stage == Stage::Receiving(Source::Messages),
        first.event is Nothing,
        second.event is Nothing,
        third.event is Nothing,
    ensures
        first.action == WorkerAction::Receive(Source::Datagrams),
        second.action == WorkerAction::Receive(Source::Ticks),
        third.action == WorkerAction::Poll,
        third.before.session.push_leads_to(
            third.before.rtc,
            push,
            third.after.session,
            third.after.rtc,
        ),
        first.after.session == first.before.session,
        second.after.session == second.before.session,
        first.after.rtc == first.before.rtc,
        second.after.rtc == second.before.rtc,
        third.after.stage == (Stage::Polling { first: false }),
        third.after.drain.output_count == 0,
        third.after.drain.next_timeout is None,
        third.after.drain.max_outputs == PlatformConfig::of(
            third.before.platform,
        ).max_outputs_per_call,
        third.after.received == first.before.received,
{
    reveal(Moment::is_step);
    choose|push: Push| #[trigger]
        third.before.session.push_leads_to(
            third.before.rtc,
            push,
            third.after.session,
            third.after.rtc,
        )
}

/// A connection that breaks down ends the work, wherever it has got to.
pub proof fn lemma_a_lost_connection_ends_the_work(moment: Moment)
    requires
        moment.is_step(),
        moment.event is Lost,
        moment.before.stage != Stage::Ended,
    ensures
        moment.action == WorkerAction::Fail(WorkerError::Lost),
        moment.after.stage == Stage::Ended,
{
    reveal(Moment::is_step);
}

/// The platform and the address never change, and an event that is not waited
/// for changes nothing.
pub proof fn lemma_what_never_changes(moment: Moment)
    requires
        moment.is_step(),
    ensures
        moment.after.platform == moment.before.platform,
        moment.after.local_ip == moment.before.local_ip,
        moment.action == WorkerAction::Ignore ==> moment.after == moment.before,
{
    reveal(Moment::is_step);
}

/// A worker is seen as it is.
pub proof fn lemma_worker_view(worker: Worker)
    ensures
        worker@.rtc == worker.rtc,
        worker@.session == worker.session@,
        worker@.drain == worker.drain,
        worker@.stage == worker.stage,
        worker@.deadline == worker.deadline,
        worker@.received == worker.received,
        worker.answer is Some ==> worker@.answer == Some(worker.answer->0@),
        worker.answer is None ==> worker@.answer is None,
        worker@.platform == worker.platform,
        worker@.local_ip == worker.local_ip,
{
}

/// What a worker does about an event is a moment of its work.
pub proof fn lemma_steps_are_moments(
    worker: &mut Worker,
    event: WorkerEvent,
    fallback: Instant,
    action: WorkerAction,
)
    requires
        call_ensures(Worker::step, (worker, event, fallback), action),
    ensures
        (Moment { before: old(worker)@, event, fallback, action, after: final(worker)@ }).is_step(),
        final(worker)@.wf(),
{
    reveal(Moment::is_step);
}

} // verus!
