//! Writing messages to a data channel of a peer connection, as far as its
//! buffer allows.
use str0m::channel::ChannelId;
use str0m::{Rtc, RtcError};
use vstd::prelude::*;
use vstd::string::*;

use crate::backpressure::BackpressureState;
use crate::coordinates::message_texts;
use crate::platform::Platform;

verus! {

/// The peer connection of `str0m`.
#[verifier::external_type_specification]
#[verifier::external_body]
pub struct ExRtc(Rtc);

/// The errors of `str0m`.
#[verifier::external_type_specification]
#[verifier::external_body]
pub struct ExRtcError(RtcError);

/// The identifier of a data channel.
#[verifier::external_type_specification]
#[verifier::external_body]
pub struct ExChannelId(ChannelId);

/// The data channels of a connection that are open for writing.
pub uninterp spec fn open_channels(rtc: Rtc) -> Set<ChannelId>;

/// For each open channel of a connection the messages that were written and
/// not sent yet, oldest first: whether each is binary, and its bytes.
pub uninterp spec fn queued(rtc: Rtc) -> Map<ChannelId, Seq<(bool, Seq<u8>)>>;

/// For each open channel of a connection how many bytes it holds that the peer
/// has not acknowledged.
pub uninterp spec fn buffered(rtc: Rtc) -> Map<ChannelId, nat>;

/// For each open channel of a connection the number of buffered bytes at which
/// it was asked to report that it has drained.
pub uninterp spec fn drain_marks(rtc: Rtc) -> Map<ChannelId, nat>;

/// Whether an open channel of a connection takes a message of this many bytes.
pub uninterp spec fn takes(rtc: Rtc, id: ChannelId, length: nat) -> bool;

/// Whether the open channels of a connection other than `id` hold in `after`
/// what they held in `rtc`.
pub open spec fn others_kept(rtc: Rtc, id: ChannelId, after: Rtc) -> bool {
    forall|other: ChannelId|
        #[trigger] open_channels(rtc).contains(other) && other != id ==> {
            &&& queued(after)[other] == queued(rtc)[other]
            &&& buffered(after)[other] == buffered(rtc)[other]
            &&& drain_marks(after)[other] == drain_marks(rtc)[other]
        }
}

/// Whether the channels of a connection are in `after` as they were in `rtc`.
pub open spec fn channels_kept(rtc: Rtc, after: Rtc) -> bool {
    &&& open_channels(after) == open_channels(rtc)
    &&& queued(after) == queued(rtc)
    &&& buffered(after) == buffered(rtc)
    &&& drain_marks(after) == drain_marks(rtc)
}

/// `str0m::Rtc::channel` hands out a channel if and only if it is open, and
/// changes nothing.
#[verifier::external_body]
pub(crate) fn is_open(rtc: &mut Rtc, id: ChannelId) -> (yes: bool)
    ensures
        yes == open_channels(*old(rtc)).contains(id),
        *final(rtc) == *old(rtc),
{
    rtc.channel(id).is_some()
}

/// `str0m::channel::Channel::write` on an open channel queues a message as a
/// whole or fails. Which of the two depends on the state of the connection and
/// on the message's length, and a write that succeeds changes nothing about
/// that. It reports the message's length, and the message counts as buffered.
/// An empty message is accepted and not queued. No channel is closed, and the
/// other channels are left alone.
#[verifier::external_body]
fn write(rtc: &mut Rtc, id: ChannelId, binary: bool, buf: &[u8]) -> (written: Result<
    usize,
    RtcError,
>)
    requires
        open_channels(*old(rtc)).contains(id),
    ensures
        open_channels(*final(rtc)) == open_channels(*old(rtc)),
        others_kept(*old(rtc), id, *final(rtc)),
        drain_marks(*final(rtc))[id] == drain_marks(*old(rtc))[id],
        written is Ok <==> takes(*old(rtc), id, buf@.len()),
        written is Ok ==> forall|n: nat| #[trigger]
            takes(*final(rtc), id, n) == takes(*old(rtc), id, n),
        match written {
            Ok(n) => {
                &&& n == buf@.len()
                &&& queued(*final(rtc))[id] == if n > 0 {
                    queued(*old(rtc))[id].push((binary, buf@))
                } else {
                    queued(*old(rtc))[id]
                }
                &&& buffered(*final(rtc))[id] == buffered(*old(rtc))[id] + n
            },
            Err(_) => queued(*final(rtc))[id] == queued(*old(rtc))[id],
        },
{
    rtc.channel(id).unwrap().write(binary, buf)
}

/// `str0m::channel::Channel::buffered_amount` reads how much an open channel
/// has buffered, and changes nothing.
#[verifier::external_body]
fn buffered_amount(rtc: &mut Rtc, id: ChannelId) -> (bytes: usize)
    requires
        open_channels(*old(rtc)).contains(id),
    ensures
        bytes == buffered(*old(rtc))[id],
        *final(rtc) == *old(rtc),
{
    rtc.channel(id).unwrap().buffered_amount()
}

/// `str0m::channel::Channel::set_buffered_amount_low_threshold` notes for an
/// open channel at which amount to report that its buffer has drained. It
/// leaves the buffer and the other channels alone and closes no channel.
#[verifier::external_body]
pub(crate) fn set_low_threshold(rtc: &mut Rtc, id: ChannelId, threshold: usize)
    requires
        open_channels(*old(rtc)).contains(id),
    ensures
        open_channels(*final(rtc)) == open_channels(*old(rtc)),
        others_kept(*old(rtc), id, *final(rtc)),
        drain_marks(*final(rtc))[id] == threshold,
        queued(*final(rtc))[id] == queued(*old(rtc))[id],
        buffered(*final(rtc))[id] == buffered(*old(rtc))[id],
{
    rtc.channel(id).unwrap().set_buffered_amount_low_threshold(threshold)
}

/// What is to be sent to a peer, and how far that has got.
pub struct Session {
    /// The channel to write to, while one is open.
    pub channel_id: Option<ChannelId>,
    /// The messages to write, in order.
    pub messages_to_send: Vec<String>,
    /// The next message to write; one past the number of messages once their end was noted.
    pub message_index: usize,
    /// How far writing is throttled.
    pub backpressure_state: BackpressureState,
}

/// The state of a session, with its messages as texts.
pub struct SessionView {
    pub channel_id: Option<ChannelId>,
    pub messages: Seq<Seq<char>>,
    pub index: int,
    pub flow: BackpressureState,
}

/// What an attempt to write messages came to.
#[derive(Clone, Copy, Debug, PartialEq, Eq, Structural)]
pub enum Push {
    /// No channel is open.
    NoChannel,
    /// All messages have been written; `noted_now` where that was not noted before.
    AllSent { noted_now: bool },
    /// Too much is buffered.
    Paused,
    /// As many messages were written; `had_error` where the next one was not accepted.
    Batch { written: usize, had_error: bool },
}

impl View for Session {
    type V = SessionView;

    open spec fn view(&self) -> SessionView {
        SessionView {
            channel_id: self.channel_id,
            messages: message_texts(self.messages_to_send@),
            index: self.message_index as int,
            flow: self.backpressure_state,
        }
    }
}

impl Session {
    /// A session that has no channel and nothing to send yet.
    pub fn new(platform: Platform) -> (session: Session)
        ensures
            session@ == SessionView::begun(platform),
            session@.wf(),
    {
        let session = Session {
            channel_id: None,
            messages_to_send: Vec::new(),
            message_index: 0,
            backpressure_state: BackpressureState::new(platform),
        };
        assert(session@.messages == Seq::<Seq<char>>::empty());
        session
    }

    /// Notes what came of writing the next message: the number of bytes that
    /// were accepted, or none where writing failed. The session moves on to the
    /// message after it, unless nothing was accepted. Tells whether it moved on.
    pub fn note_write(&mut self, accepted: Option<usize>) -> (moved_on: bool)
        requires
            !old(self)@.all_sent(),
        ensures
            moved_on == (accepted matches Some(n) && n > 0),
            final(self)@ == if moved_on {
                SessionView { index: old(self)@.index + 1, ..old(self)@ }
            } else {
                old(self)@
            },
    {
        match accepted {
            Some(n) => {
                if n == 0 {
                    return false;
                }
                assert(self.message_index < self.messages_to_send.len());
                self.message_index = self.message_index + 1;
                true
            },
            None => false,
        }
    }
}

/// How many bytes the messages from `from` up to `to` take.
pub open spec fn bytes_of(messages: Seq<Seq<char>>, from: int, to: int) -> nat
    decreases to - from,
{
    if to <= from {
        0
    } else {
        bytes_of(messages, from, to - 1) + vstd::utf8::encode_utf8(messages[to - 1]).len()
    }
}

/// The messages from `from` up to `to` as a channel queues them.
pub open spec fn as_queued(messages: Seq<Seq<char>>, from: int, to: int) -> Seq<(bool, Seq<u8>)> {
    Seq::new(
        (to - from) as nat,
        |i: int| (false, vstd::utf8::encode_utf8(messages[from + i])),
    )
}

impl SessionView {
    /// A session that has no channel and nothing to send yet.
    pub open spec fn begun(platform: Platform) -> SessionView {
        SessionView {
            channel_id: None,
            messages: seq![],
            index: 0,
            flow: BackpressureState::initial(platform),
        }
    }

    /// The flow control is in order, and the end of the messages can be noted.
    pub open spec fn wf(self) -> bool {
        &&& self.flow.wf()
        &&& self.messages.len() < usize::MAX
    }

    /// How many bytes are buffered once `written` messages were added to `start` bytes.
    pub open spec fn filled(self, start: nat, written: int) -> nat {
        start + bytes_of(self.messages, self.index, self.index + written)
    }

    /// Whether the buffer is looked at after `written` messages and found too full.
    pub open spec fn full_at(self, start: nat, written: int) -> bool {
        let every = self.flow.platform_config.check_backpressure_every_n_writes as int;
        &&& every > 0
        &&& written > 0
        &&& written % every == 0
        &&& self.filled(start, written) >= self.flow.high_water_bytes
    }

    /// How many bytes the `k`th message takes.
    pub open spec fn message_len(self, k: int) -> nat {
        vstd::utf8::encode_utf8(self.messages[k]).len()
    }

    /// Whether a channel accepts the `k`th message: it takes a message of that
    /// length, and there is something in it.
    pub open spec fn accepts(self, rtc: Rtc, id: ChannelId, k: int) -> bool {
        self.message_len(k) > 0 && takes(rtc, id, self.message_len(k))
    }

    /// Whether `written` messages make a batch on a channel of the connection
    /// `rtc`. A batch ends where it is as large as allowed, where the messages
    /// end, where the buffer is found too full, or with an error, which is where
    /// the channel does not accept the next message.
    pub open spec fn batch_ends(
        self,
        rtc: Rtc,
        id: ChannelId,
        written: int,
        had_error: bool,
    ) -> bool {
        let size = self.flow.current_batch_size;
        let start = buffered(rtc)[id];
        &&& 0 <= written <= size
        &&& self.index + written <= self.messages.len()
        &&& forall|j: int| 0 <= j < written ==> #[trigger] self.accepts(rtc, id, self.index + j)
        &&& forall|j: int| 0 < j < written ==> !self.full_at(start, j)
        &&& if had_error {
            &&& written < size
            &&& self.index + written < self.messages.len()
            &&& !self.full_at(start, written)
            &&& !self.accepts(rtc, id, self.index + written)
        } else {
            ||| written == size
            ||| self.index + written == self.messages.len()
            ||| self.full_at(start, written)
        }
    }

    /// Whether writing was paused and `start` bytes are too many to go on.
    pub open spec fn still_paused(self, start: nat) -> bool {
        self.flow.paused_by_sctp && start >= self.flow.low_water_bytes
    }

    /// Whether nothing may be written while `start` bytes are buffered: writing
    /// was paused and the buffer has not drained, or the buffer is looked at
    /// before a batch and is too full.
    pub open spec fn blocked(self, start: nat) -> bool {
        ||| self.still_paused(start)
        ||| self.flow.platform_config.check_backpressure_during_write && start
            >= self.flow.high_water_bytes
    }

    /// The session with writing paused or not.
    pub open spec fn with_pause(self, paused: bool) -> SessionView {
        SessionView {
            flow: BackpressureState { paused_by_sctp: paused, ..self.flow },
            ..self
        }
    }

    /// The session after a batch that left `end` bytes in the buffer.
    pub open spec fn after_batch(self, written: usize, had_error: bool, end: usize) -> SessionView {
        SessionView {
            index: self.index + written,
            flow: BackpressureState {
                paused_by_sctp: end >= self.flow.high_water_bytes,
                last_buffered_bytes: end,
                ..self.flow
            }.adjusted(written, had_error, self.flow.current_batch_size),
            ..self
        }
    }

    /// Whether an attempt to write on an open channel of the connection `rtc`,
    /// which leaves `end` bytes in the buffer, leads to `post`.
    pub open spec fn pushed(
        self,
        rtc: Rtc,
        id: ChannelId,
        push: Push,
        end: nat,
        post: SessionView,
    ) -> bool {
        let start = buffered(rtc)[id];
        if self.blocked(start) {
            &&& push == Push::Paused
            &&& end == start
            &&& post == self.with_pause(true)
        } else {
            &&& push matches Push::Batch { written, had_error }
            &&& self.batch_ends(rtc, id, written as int, had_error)
            &&& !had_error ==> end == self.filled(start, written as int)
            &&& end <= usize::MAX
            &&& post == self.after_batch(written, had_error, end as usize)
        }
    }

    /// Whether all messages were written.
    pub open spec fn all_sent(self) -> bool {
        self.index >= self.messages.len()
    }

    /// Whether all messages were written and that was not noted yet.
    pub open spec fn end_unnoted(self) -> bool {
        self.index == self.messages.len() && self.messages.len() > 0
    }

    /// How many messages were written.
    pub open spec fn sent(self) -> int {
        if self.index < self.messages.len() {
            self.index
        } else {
            self.messages.len() as int
        }
    }

    /// Whether an attempt to write leads to `post`, and from the connection
    /// `rtc` to `after`. What was written is queued on the session's channel.
    /// A channel on which writing pauses is asked to report when it has
    /// drained, unless it was asked before. The other channels are left alone.
    pub open spec fn push_leads_to(
        self,
        rtc: Rtc,
        push: Push,
        post: SessionView,
        after: Rtc,
    ) -> bool {
        if self.channel_id is None {
            push == Push::NoChannel && post == self && after == rtc
        } else if self.all_sent() {
            &&& push == Push::AllSent { noted_now: self.end_unnoted() }
            &&& post == if self.end_unnoted() {
                SessionView { index: self.index + 1, ..self }
            } else {
                self
            }
            &&& after == rtc
        } else if !open_channels(rtc).contains(self.channel_id->0) {
            push == Push::NoChannel && post == self && after == rtc
        } else {
            let id = self.channel_id->0;
            &&& self.pushed(rtc, id, push, buffered(after)[id], post)
            &&& queued(after)[id] == queued(rtc)[id] + as_queued(
                self.messages,
                self.index,
                post.index,
            )
            &&& drain_marks(after)[id] == if post.flow.paused_by_sctp && !self.still_paused(
                buffered(rtc)[id],
            ) {
                self.flow.low_water_bytes as nat
            } else {
                drain_marks(rtc)[id]
            }
            &&& open_channels(after) == open_channels(rtc)
            &&& others_kept(rtc, id, after)
        }
    }
}

/// Writes messages until the batch ends. Returns how many were written, and
/// whether the next one was not accepted.
fn write_batch(rtc: &mut Rtc, id: ChannelId, session: &mut Session) -> (end: (usize, bool))
    requires
        open_channels(*old(rtc)).contains(id),
        old(session)@.wf(),
        !old(session)@.flow.paused_by_sctp,
        old(session)@.index < old(session)@.messages.len(),
    ensures
        old(session)@.batch_ends(*old(rtc), id, end.0 as int, end.1),
        final(session)@ == (SessionView {
            index: old(session)@.index + end.0,
            flow: BackpressureState {
                paused_by_sctp: !end.1 && old(session)@.full_at(
                    buffered(*old(rtc))[id],
                    end.0 as int,
                ),
                ..old(session)@.flow
            },
            ..old(session)@
        }),
        open_channels(*final(rtc)) == open_channels(*old(rtc)),
        others_kept(*old(rtc), id, *final(rtc)),
        queued(*final(rtc))[id] == queued(*old(rtc))[id] + as_queued(
            old(session)@.messages,
            old(session)@.index,
            final(session)@.index,
        ),
        !end.1 ==> buffered(*final(rtc))[id] == old(session)@.filled(
            buffered(*old(rtc))[id],
            end.0 as int,
        ),
        drain_marks(*final(rtc))[id] == if final(session)@.flow.paused_by_sctp {
            old(session)@.flow.low_water_bytes as nat
        } else {
            drain_marks(*old(rtc))[id]
        },
{
    let batch_size: usize = session.backpressure_state.batch_size();
    let check_every_n: usize = session.backpressure_state.check_backpressure_every_n_writes();
    let mut written: usize = 0;
    let ghost pre = session@;
    let ghost start = buffered(*rtc)[id];
    let ghost first = queued(*rtc)[id];
    let ghost mark = drain_marks(*rtc)[id];
    assert(queued(*rtc)[id] == first + as_queued(pre.messages, pre.index, pre.index));
    while session.message_index < session.messages_to_send.len() && written < batch_size
        invariant
            pre == old(session)@,
            start == buffered(*old(rtc))[id],
            first == queued(*old(rtc))[id],
            mark == drain_marks(*old(rtc))[id],
            pre.wf(),
            !pre.flow.paused_by_sctp,
            batch_size == pre.flow.current_batch_size,
            check_every_n == pre.flow.platform_config.check_backpressure_every_n_writes,
            written <= batch_size,
            session@ == (SessionView { index: pre.index + written, ..pre }),
            session@.index <= session@.messages.len(),
            open_channels(*rtc) == open_channels(*old(rtc)),
            open_channels(*rtc).contains(id),
            others_kept(*old(rtc), id, *rtc),
            forall|n: nat| #[trigger] takes(*rtc, id, n) == takes(*old(rtc), id, n),
            forall|j: int|
                0 <= j < written ==> #[trigger] pre.accepts(*old(rtc), id, pre.index + j),
            queued(*rtc)[id] == first + as_queued(pre.messages, pre.index, session@.index),
            buffered(*rtc)[id] == pre.filled(start, written as int),
            drain_marks(*rtc)[id] == mark,
            forall|j: int| 0 < j <= written ==> !pre.full_at(start, j),
        decreases batch_size - written,
    {
        let ghost here = session@.index;
        assert(takes(*rtc, id, pre.message_len(here)) == takes(
            *old(rtc),
            id,
            pre.message_len(here),
        ));
        let outcome = {
            let message = &session.messages_to_send[session.message_index];
            assert(message@ == session@.messages[here]);
            write(rtc, id, false, message.as_str().as_bytes())
        };
        let accepted = match outcome {
            Ok(n) => Some(n),
            Err(_) => None,
        };
        if !session.note_write(accepted) {
            return (written, true);
        }
        written = written + 1;
        proof {
            let bytes = vstd::utf8::encode_utf8(pre.messages[here]);
            assert(as_queued(pre.messages, pre.index, here + 1) == as_queued(
                pre.messages,
                pre.index,
                here,
            ).push((false, bytes)));
            assert(queued(*rtc)[id] == first + as_queued(pre.messages, pre.index, here + 1));
        }
        if check_every_n > 0 && written % check_every_n == 0 {
            let amount: usize = buffered_amount(rtc, id);
            if session.backpressure_state.should_pause_for(amount) {
                set_low_threshold(rtc, id, session.backpressure_state.low_threshold());
                session.backpressure_state.paused_by_sctp = true;
                return (written, false);
            }
        }
    }
    (written, false)
}

/// Writes the next messages to an open channel, unless too much is buffered.
fn push_on_channel(rtc: &mut Rtc, id: ChannelId, session: &mut Session) -> (push: Push)
    requires
        open_channels(*old(rtc)).contains(id),
        old(session)@.channel_id == Some(id),
        old(session)@.wf(),
        !old(session)@.all_sent(),
    ensures
        old(session)@.push_leads_to(*old(rtc), push, final(session)@, *final(rtc)),
        final(session)@.wf(),
{
    let ghost pre = session@;
    let ghost start = buffered(*rtc)[id];
    let ghost first = queued(*rtc)[id];
    assert(first + as_queued(pre.messages, pre.index, pre.index) == first);
    if session.backpressure_state.paused_by_sctp {
        let amount: usize = buffered_amount(rtc, id);
        if amount < session.backpressure_state.low_threshold() {
            session.backpressure_state.paused_by_sctp = false;
        } else {
            return Push::Paused;
        }
    }
    if session.backpressure_state.check_backpressure_during_write() {
        let amount: usize = buffered_amount(rtc, id);
        if session.backpressure_state.should_pause_for(amount) {
            set_low_threshold(rtc, id, session.backpressure_state.low_threshold());
            session.backpressure_state.paused_by_sctp = true;
            return Push::Paused;
        }
    }
    let batch_size: usize = session.backpressure_state.batch_size();
    let ghost resumed = session@;
    let (written, had_error) = write_batch(rtc, id, session);
    proof {
        assert forall|j: int| resumed.full_at(start, j) == pre.full_at(start, j) by {}
        assert forall|k: int| resumed.accepts(*old(rtc), id, k) == #[trigger] pre.accepts(
            *old(rtc),
            id,
            k,
        ) by {}
    }
    let amount: usize = buffered_amount(rtc, id);
    session.backpressure_state.last_buffered_bytes = amount;
    if session.backpressure_state.should_pause_for(amount) {
        set_low_threshold(rtc, id, session.backpressure_state.low_threshold());
        session.backpressure_state.paused_by_sctp = true;
    }
    session.backpressure_state.adjust_for_backpressure(written, had_error, batch_size);
    Push::Batch { written, had_error }
}

/// Writes the next messages of a session, if its channel is open and there are
/// messages left. Writing that was paused goes on once the buffer has drained
/// below its low mark; it pauses from the high mark on. Once all messages were
/// written, that is noted in the session.
pub fn push_messages(rtc: &mut Rtc, session: &mut Session) -> (push: Push)
    requires
        old(session)@.wf(),
    ensures
        old(session)@.push_leads_to(*old(rtc), push, final(session)@, *final(rtc)),
        final(session)@.wf(),
{
    match session.channel_id {
        Some(id) => {
            let count: usize = session.messages_to_send.len();
            if session.message_index >= count {
                if session.message_index == count && count > 0 {
                    session.message_index = session.message_index + 1;
                    return Push::AllSent { noted_now: true };
                }
                return Push::AllSent { noted_now: false };
            }
            if is_open(rtc, id) {
                push_on_channel(rtc, id, session)
            } else {
                Push::NoChannel
            }
        },
        None => Push::NoChannel,
    }
}

/// Unless the next message is not accepted, a batch writes at least one message.
pub proof fn lemma_batch_progress(pre: SessionView, rtc: Rtc, id: ChannelId, written: int)
    requires
        pre.wf(),
        !pre.all_sent(),
        pre.batch_ends(rtc, id, written, false),
    ensures
        written >= 1,
{
}

/// The session and the connection settle where a batch ends, and whether it
/// ends in an error.
pub proof fn lemma_batch_is_settled(
    pre: SessionView,
    rtc: Rtc,
    id: ChannelId,
    written: int,
    had_error: bool,
    other_written: int,
    other_had_error: bool,
)
    requires
        pre.wf(),
        !pre.all_sent(),
        pre.batch_ends(rtc, id, written, had_error),
        pre.batch_ends(rtc, id, other_written, other_had_error),
    ensures
        written == other_written,
        had_error == other_had_error,
{
    if written < other_written {
        assert(pre.accepts(rtc, id, pre.index + written));
    }
    if other_written < written {
        assert(pre.accepts(rtc, id, pre.index + other_written));
    }
}

/// Where the buffer is not looked at within a batch and the channel accepts
/// every message, a batch is as large as allowed or ends with the messages.
pub proof fn lemma_accepted_batch_is_full(
    pre: SessionView,
    rtc: Rtc,
    id: ChannelId,
    written: int,
    had_error: bool,
)
    requires
        pre.flow.platform_config.check_backpressure_every_n_writes == 0,
        pre.batch_ends(rtc, id, written, had_error),
        forall|k: int|
            pre.index <= k < pre.messages.len() ==> #[trigger] pre.accepts(rtc, id, k),
    ensures
        !had_error,
        written == pre.flow.current_batch_size || pre.index + written == pre.messages.len(),
{
}

/// A message that is not accepted ends the batch with an error and is the next
/// to be written. The error is counted and the batch size goes down.
pub proof fn lemma_refused_message_is_next(
    pre: SessionView,
    rtc: Rtc,
    id: ChannelId,
    written: usize,
    end: nat,
    post: SessionView,
)
    requires
        pre.pushed(rtc, id, Push::Batch { written, had_error: true }, end, post),
    ensures
        post.index == pre.index + written,
        !pre.accepts(rtc, id, post.index),
        post.flow.consecutive_errors == pre.flow.consecutive_errors.wrapping_add(1),
        post.flow.successful_batches == 0,
        post.flow.current_batch_size == crate::backpressure::clamp_below(
            pre.flow.current_batch_size as int / 2,
            pre.flow.platform_config.min_batch_size,
        ),
{
}

/// After a batch writing is paused if and only if the buffer is at its high mark.
pub proof fn lemma_paused_iff_full(
    pre: SessionView,
    rtc: Rtc,
    id: ChannelId,
    push: Push,
    end: nat,
    post: SessionView,
)
    requires
        pre.pushed(rtc, id, push, end, post),
        push is Batch,
    ensures
        post.flow.paused_by_sctp <==> end >= pre.flow.high_water_bytes,
        post.flow.last_buffered_bytes == end,
{
}

/// While the buffer has not drained, writing that was paused stays paused and
/// no message is written.
pub proof fn lemma_paused_writes_nothing(
    pre: SessionView,
    rtc: Rtc,
    id: ChannelId,
    push: Push,
    end: nat,
    post: SessionView,
)
    requires
        pre.flow.paused_by_sctp,
        buffered(rtc)[id] >= pre.flow.low_water_bytes,
        pre.pushed(rtc, id, push, end, post),
    ensures
        push == Push::Paused,
        post == pre,
        end == buffered(rtc)[id],
{
}

/// Where the buffer is looked at after every message, it is over its high mark
/// by no more than the last message.
pub proof fn lemma_bounded_overshoot(
    pre: SessionView,
    rtc: Rtc,
    id: ChannelId,
    written: int,
    had_error: bool,
)
    requires
        pre.flow.platform_config.check_backpressure_every_n_writes == 1,
        buffered(rtc)[id] < pre.flow.high_water_bytes,
        written >= 1,
        pre.batch_ends(rtc, id, written, had_error),
    ensures
        pre.filled(buffered(rtc)[id], written - 1) < pre.flow.high_water_bytes,
{
    if written > 1 {
        assert(!pre.full_at(buffered(rtc)[id], written - 1));
    }
}

/// An attempt to write changes neither the channel nor the messages, never
/// goes back to a message, and goes past the last one only to note the end.
pub proof fn lemma_push_keeps(
    pre: SessionView,
    rtc: Rtc,
    push: Push,
    post: SessionView,
    after: Rtc,
)
    requires
        0 <= pre.index <= pre.messages.len() + 1,
        pre.push_leads_to(rtc, push, post, after),
    ensures
        post.channel_id == pre.channel_id,
        post.messages == pre.messages,
        pre.index <= post.index <= pre.messages.len() + 1,
        pre.messages.len() == 0 ==> post.index == pre.index,
{
}

/// Messages are queued as text, in order, each as its bytes in UTF-8.
pub proof fn lemma_queued_messages(messages: Seq<Seq<char>>, from: int, to: int, i: int)
    requires
        0 <= from <= to,
        0 <= i < to - from,
    ensures
        as_queued(messages, from, to).len() == to - from,
        as_queued(messages, from, to)[i] == (false, vstd::utf8::encode_utf8(messages[from + i])),
{
}

/// Each message that is written adds its bytes in UTF-8 to what is buffered.
pub proof fn lemma_filled(session: SessionView, start: nat, written: int)
    requires
        written >= 0,
    ensures
        session.filled(start, 0) == start,
        session.filled(start, written + 1) == session.filled(start, written)
            + vstd::utf8::encode_utf8(session.messages[session.index + written]).len(),
{
}

/// A channel accepts every message that has something in it and that it takes.
pub proof fn lemma_accepts(session: SessionView, rtc: Rtc, id: ChannelId, k: int)
    ensures
        session.accepts(rtc, id, k) <==> {
            let size = vstd::utf8::encode_utf8(session.messages[k]).len();
            size > 0 && takes(rtc, id, size)
        },
{
}

/// Nothing is written, and nothing changes, without a channel, on one that is
/// not open, or once all messages were written but for noting their end once.
pub proof fn lemma_nothing_to_write(
    pre: SessionView,
    rtc: Rtc,
    push: Push,
    post: SessionView,
    after: Rtc,
)
    requires
        pre.push_leads_to(rtc, push, post, after),
        pre.channel_id is None || pre.index >= pre.messages.len() || !open_channels(rtc).contains(
            pre.channel_id->0,
        ),
    ensures
        after == rtc,
        post.channel_id == pre.channel_id,
        post.messages == pre.messages,
        post.flow == pre.flow,
        pre.channel_id is Some && pre.index == pre.messages.len() && pre.messages.len() > 0 ==> {
            &&& push == (Push::AllSent { noted_now: true })
            &&& post.index == pre.index + 1
        },
        pre.channel_id is Some && (pre.index > pre.messages.len() || pre.messages.len() == 0
            && pre.index == 0) ==> {
            &&& push == (Push::AllSent { noted_now: false })
            &&& post.index == pre.index
        },
        pre.channel_id is None || pre.index < pre.messages.len() ==> {
            &&& push == Push::NoChannel
            &&& post.index == pre.index
        },
{
}

/// With messages left and a channel open, nothing is written if and only if
/// writing was paused and the buffer is not below its low mark, or the buffer is
/// looked at beforehand and is at its high mark. Then writing is paused, nothing
/// is queued, and in the second of these cases the channel is asked to report
/// when it has drained to the low mark.
pub proof fn lemma_when_writing_pauses(
    pre: SessionView,
    rtc: Rtc,
    push: Push,
    post: SessionView,
    after: Rtc,
)
    requires
        pre.push_leads_to(rtc, push, post, after),
        pre.channel_id is Some,
        pre.index < pre.messages.len(),
        open_channels(rtc).contains(pre.channel_id->0),
    ensures
        ({
            let id = pre.channel_id->0;
            let start = buffered(rtc)[id];
            let waits = pre.flow.paused_by_sctp && start >= pre.flow.low_water_bytes;
            let is_full = pre.flow.platform_config.check_backpressure_during_write && start
                >= pre.flow.high_water_bytes;
            &&& push == Push::Paused <==> waits || is_full
            &&& push is Batch <==> !waits && !is_full
            &&& waits || is_full ==> {
                &&& post.flow.paused_by_sctp
                &&& post.index == pre.index
                &&& post.flow.current_batch_size == pre.flow.current_batch_size
                &&& post.flow.consecutive_errors == pre.flow.consecutive_errors
                &&& post.flow.successful_batches == pre.flow.successful_batches
                &&& queued(after)[id] =~= queued(rtc)[id]
            }
            &&& waits ==> drain_marks(after)[id] == drain_marks(rtc)[id]
            &&& is_full && !waits ==> drain_marks(after)[id] == pre.flow.low_water_bytes
        }),
{
}

/// A batch writes messages one after the other, all of which the channel
/// accepts, and no more than allowed. It is cut short only by the end of the
/// messages, by a message that the channel does not accept, or where the buffer
/// is looked at and is at its high mark, and always by these.
pub proof fn lemma_what_ends_a_batch(
    pre: SessionView,
    rtc: Rtc,
    id: ChannelId,
    written: int,
    had_error: bool,
)
    requires
        pre.batch_ends(rtc, id, written, had_error),
    ensures
        ({
            let every = pre.flow.platform_config.check_backpressure_every_n_writes as int;
            let start = buffered(rtc)[id];
            let size = pre.flow.current_batch_size;
            let left = pre.messages.len() - pre.index;
            &&& 0 <= written <= size
            &&& written <= left
            &&& forall|j: int|
                0 <= j < written ==> {
                    &&& #[trigger] pre.message_len(pre.index + j) > 0
                    &&& takes(rtc, id, pre.message_len(pre.index + j))
                }
            &&& had_error ==> {
                &&& written < size
                &&& written < left
                &&& pre.message_len(pre.index + written) == 0 || !takes(
                    rtc,
                    id,
                    pre.message_len(pre.index + written),
                )
            }
            &&& !had_error && written < size && written < left ==> {
                &&& every > 0
                &&& written % every == 0
                &&& start + bytes_of(pre.messages, pre.index, pre.index + written)
                    >= pre.flow.high_water_bytes
            }
            &&& forall|j: int|
                0 < j < written && every > 0 && j % every == 0 ==> start + #[trigger] bytes_of(
                    pre.messages,
                    pre.index,
                    pre.index + j,
                ) < pre.flow.high_water_bytes
        }),
{
    let every = pre.flow.platform_config.check_backpressure_every_n_writes as int;
    let start = buffered(rtc)[id];
    assert forall|j: int| 0 <= j < written implies {
        &&& #[trigger] pre.message_len(pre.index + j) > 0
        &&& takes(rtc, id, pre.message_len(pre.index + j))
    } by {
        assert(pre.accepts(rtc, id, pre.index + j));
    }
    assert forall|j: int| 0 < j < written && every > 0 && j % every == 0 implies start
        + #[trigger] bytes_of(pre.messages, pre.index, pre.index + j)
        < pre.flow.high_water_bytes by {
        assert(!pre.full_at(start, j));
    }
}

/// A message takes as many bytes as it has in UTF-8, and several take as many
/// as all of them together.
pub proof fn lemma_sizes(session: SessionView, k: int, from: int, to: int)
    ensures
        session.message_len(k) == vstd::utf8::encode_utf8(session.messages[k]).len(),
        to <= from ==> bytes_of(session.messages, from, to) == 0,
        from < to ==> bytes_of(session.messages, from, to) == bytes_of(
            session.messages,
            from,
            to - 1,
        ) + vstd::utf8::encode_utf8(session.messages[to - 1]).len(),
{
}

/// After a batch the session is past what was written, which is queued behind
/// what was queued before. Writing is paused if and only if the buffer is at its
/// high mark, and then the channel is asked to report when it has drained to the
/// low mark. The batch size changes as the batch went.
pub proof fn lemma_after_a_batch(
    pre: SessionView,
    rtc: Rtc,
    written: usize,
    had_error: bool,
    post: SessionView,
    after: Rtc,
)
    requires
        pre.push_leads_to(rtc, Push::Batch { written, had_error }, post, after),
    ensures
        ({
            let id = pre.channel_id->0;
            let end = buffered(after)[id];
            let flow = pre.flow.adjusted(written, had_error, pre.flow.current_batch_size);
            &&& pre.channel_id is Some
            &&& open_channels(rtc).contains(id)
            &&& pre.batch_ends(rtc, id, written as int, had_error)
            &&& post.channel_id == pre.channel_id
            &&& post.messages == pre.messages
            &&& post.index == pre.index + written
            &&& !had_error ==> end == buffered(rtc)[id] + bytes_of(
                pre.messages,
                pre.index,
                pre.index + written,
            )
            &&& post.flow.last_buffered_bytes == end
            &&& post.flow.paused_by_sctp <==> end >= pre.flow.high_water_bytes
            &&& post.flow.current_batch_size == flow.current_batch_size
            &&& post.flow.consecutive_errors == flow.consecutive_errors
            &&& post.flow.successful_batches == flow.successful_batches
            &&& post.flow.high_water_bytes == pre.flow.high_water_bytes
            &&& post.flow.low_water_bytes == pre.flow.low_water_bytes
            &&& post.flow.platform_config == pre.flow.platform_config
            &&& drain_marks(after)[id] == if end >= pre.flow.high_water_bytes {
                pre.flow.low_water_bytes as nat
            } else {
                drain_marks(rtc)[id]
            }
            &&& queued(after)[id] == queued(rtc)[id] + Seq::new(
                written as nat,
                |i: int| (false, vstd::utf8::encode_utf8(pre.messages[pre.index + i])),
            )
            &&& open_channels(after) == open_channels(rtc)
        }),
{
    let id = pre.channel_id->0;
    assert(as_queued(pre.messages, pre.index, post.index) =~= Seq::new(
        written as nat,
        |i: int| (false, vstd::utf8::encode_utf8(pre.messages[pre.index + i])),
    ));
    crate::backpressure::lemma_adjusting_keeps(
        BackpressureState {
            paused_by_sctp: buffered(after)[id] >= pre.flow.high_water_bytes,
            last_buffered_bytes: buffered(after)[id] as usize,
            ..pre.flow
        },
        written,
        had_error,
        pre.flow.current_batch_size,
    );
}

/// An attempt to write leaves the other channels alone.
pub proof fn lemma_other_channels(
    pre: SessionView,
    rtc: Rtc,
    push: Push,
    post: SessionView,
    after: Rtc,
    other: ChannelId,
)
    requires
        pre.push_leads_to(rtc, push, post, after),
        open_channels(rtc).contains(other),
        pre.channel_id != Some(other),
    ensures
        open_channels(after) == open_channels(rtc),
        queued(after)[other] == queued(rtc)[other],
        buffered(after)[other] == buffered(rtc)[other],
        drain_marks(after)[other] == drain_marks(rtc)[other],
{
}

/// A session begins without a channel, with nothing to send, at the first
/// message, and not paused.
pub proof fn lemma_new_session(platform: Platform, session: Session)
    requires
        call_ensures(Session::new, (platform,), session),
    ensures
        session.channel_id is None,
        session.messages_to_send@.len() == 0,
        session.message_index == 0,
        !session.backpressure_state.paused_by_sctp,
        session.backpressure_state.consecutive_errors == 0,
        session.backpressure_state.successful_batches == 0,
        session.backpressure_state.platform_config.platform == platform,
        session.backpressure_state.current_batch_size
            == session.backpressure_state.platform_config.initial_batch_size,
{
    assert(message_texts(session.messages_to_send@).len() == session.messages_to_send@.len());
}

/// A session is seen as it is, with its messages as texts.
pub proof fn lemma_session_view(session: Session, k: int)
    requires
        0 <= k < session.messages_to_send@.len(),
    ensures
        session@.channel_id == session.channel_id,
        session@.messages.len() == session.messages_to_send@.len(),
        session@.messages[k] == session.messages_to_send@[k]@,
        session@.index == session.message_index,
        session@.flow == session.backpressure_state,
{
}

/// Every attempt to write leads the session and the connection where the
/// channel, the messages and the buffer say.
pub proof fn lemma_writing(rtc: &mut Rtc, session: &mut Session, push: Push)
    requires
        call_ensures(push_messages, (rtc, session), push),
    ensures
        old(session)@.push_leads_to(*old(rtc), push, final(session)@, *final(rtc)),
        final(session)@.wf(),
{
}

/// A session moves on by one message if and only if something of it was
/// accepted, and nothing else about it changes.
pub proof fn lemma_writes_are_noted(session: &mut Session, accepted: Option<usize>, moved: bool)
    requires
        call_ensures(Session::note_write, (session, accepted), moved),
    ensures
        moved <==> accepted is Some && accepted->0 > 0,
        moved ==> final(session)@.index == old(session)@.index + 1,
        !moved ==> final(session)@.index == old(session)@.index,
        final(session)@.channel_id == old(session)@.channel_id,
        final(session)@.messages == old(session)@.messages,
        final(session)@.flow == old(session)@.flow,
{
}

} // verus!
