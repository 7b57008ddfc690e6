use crate::message::{Message, MessageView, PARAMS_SIZE};
use crate::protocol_id::ProtocolID;
use std::collections::VecDeque;
use vstd::prelude::*;

verus! {

/// Entries the queue may already hold when a new one is still accepted.
pub const MAX_MESSAGES: usize = 128;

/// Further sends of a message after the first one goes unanswered.
pub const MAX_RETRIES: u8 = 3;

/// How long one attempt waits for its reply, unless chosen otherwise.
pub const DEFAULT_WAIT_TIME_MS: u64 = 500;

/// The outcome handed to the submitter of a message.
#[derive(Clone, Copy, Debug)]
pub enum CommunicateStatus {
    NoError(Message),
    BufferFull,
    Timeout,
    InvalidParams,
}

/// Why an attempt did not produce the reply.
#[derive(Clone, Copy, Debug, PartialEq, Eq, Structural)]
pub enum Control {
    Retry,
    Abort,
}

/// Which exchange of a request is under way: the queue-space probe that goes
/// before a queued command, or the request itself.
#[derive(Clone, Copy, Debug, PartialEq, Eq, Structural)]
pub enum Phase {
    Probe,
    Main,
}

/// The request being served, the handle its outcome goes to, and how many
/// sends the current phase has made.
pub struct InFlight<H> {
    pub message: Message,
    pub handle: H,
    pub phase: Phase,
    pub attempts: u8,
}

/// What the owner of the link does next.
pub enum Action<H> {
    /// Nothing is waiting.
    Idle,
    /// Write this message and report the reply read within the wait time.
    Send(Message),
    /// Hand this outcome to this handle; the request is finished.
    Complete(H, CommunicateStatus),
}

/// The step after one reply of an exchange.
pub enum Step<H> {
    /// Send again, in this state.
    Continue(InFlight<H>),
    /// The request is finished with this outcome.
    Done(CommunicateStatus),
}

/// What the queue-space probe asks.
pub open spec fn left_space_request() -> MessageView {
    MessageView {
        id: ProtocolID::ProtocolQueuedCmdLeftSpace.spec_code(),
        rw: 0,
        is_queued: 0,
        params: Seq::empty(),
    }
}

impl<H> InFlight<H> {
    /// The message that the current phase sends.
    pub open spec fn sent(self) -> MessageView {
        match self.phase {
            Phase::Probe => left_space_request(),
            Phase::Main => self.message@,
        }
    }
}

/// The state in which serving `message` begins.
pub open spec fn start_of<H>(message: Message, handle: H) -> InFlight<H> {
    InFlight {
        message,
        handle,
        phase: if message.is_queued != 0 {
            Phase::Probe
        } else {
            Phase::Main
        },
        attempts: 1,
    }
}

/// A reply answers a send when it arrived and carries the same command id.
pub open spec fn answers(reply: Option<Message>, id: u8) -> bool {
    reply matches Some(m) && m.id == id
}

/// One step of an exchange: an answer moves the probe on to the request or
/// finishes the request; silence or a stray reply sends again, up to
/// `MAX_RETRIES` times, and then gives up with `Timeout`.
pub open spec fn step<H>(f: InFlight<H>, reply: Option<Message>) -> Step<H> {
    if answers(reply, f.sent().id) {
        match f.phase {
            Phase::Probe => Step::Continue(InFlight { phase: Phase::Main, attempts: 1, ..f }),
            Phase::Main => Step::Done(CommunicateStatus::NoError(reply.unwrap())),
        }
    } else if f.attempts <= MAX_RETRIES {
        Step::Continue(InFlight { attempts: (f.attempts + 1) as u8, ..f })
    } else {
        Step::Done(CommunicateStatus::Timeout)
    }
}

/// Runs an exchange from `f` against successive replies: the outcome, if it
/// ends before the replies do, and how many replies it read.
pub open spec fn exchange<H>(f: InFlight<H>, replies: Seq<Option<Message>>) -> (Option<
    CommunicateStatus,
>, nat)
    decreases replies.len(),
{
    if replies.len() == 0 {
        (None, 0)
    } else {
        match step(f, replies[0]) {
            Step::Done(st) => (Some(st), 1),
            Step::Continue(g) => {
                let (o, n) = exchange(g, replies.drop_first());
                (o, n + 1)
            },
        }
    }
}

/// The messages written during an exchange from `f` against `replies`.
pub open spec fn sends<H>(f: InFlight<H>, replies: Seq<Option<Message>>) -> Seq<MessageView>
    decreases replies.len(),
{
    if replies.len() == 0 {
        seq![f.sent()]
    } else {
        match step(f, replies[0]) {
            Step::Done(_) => seq![f.sent()],
            Step::Continue(g) => seq![f.sent()] + sends(g, replies.drop_first()),
        }
    }
}

/// Submitting one entry: refused when the queue already holds more than
/// `MAX_MESSAGES`, appended otherwise. Gives the new queue and the handles
/// refused.
pub open spec fn submit_one<H>(pending: Seq<(Message, H)>, item: (Message, H)) -> (Seq<
    (Message, H),
>, Seq<H>) {
    if pending.len() > MAX_MESSAGES {
        (pending, seq![item.1])
    } else {
        (pending.push(item), Seq::empty())
    }
}

/// Submitting entries one after another.
pub open spec fn submit_all<H>(pending: Seq<(Message, H)>, items: Seq<(Message, H)>) -> (Seq<
    (Message, H),
>, Seq<H>)
    decreases items.len(),
{
    if items.len() == 0 {
        (pending, Seq::empty())
    } else {
        let (p1, r1) = submit_one(pending, items[0]);
        let (p2, r2) = submit_all(p1, items.drop_first());
        (p2, r1 + r2)
    }
}

/// Serving the queue from its front, one request at a time, against
/// successive replies: the handles completed, in order, with their outcomes.
pub open spec fn serve<H>(pending: Seq<(Message, H)>, replies: Seq<Option<Message>>) -> Seq<
    (H, CommunicateStatus),
>
    decreases pending.len(),
{
    if pending.len() == 0 {
        Seq::empty()
    } else {
        let (o, n) = exchange(start_of(pending[0].0, pending[0].1), replies);
        match o {
            None => Seq::empty(),
            Some(st) => seq![(pending[0].1, st)] + serve(pending.drop_first(), replies.skip(n as int)),
        }
    }
}

/// Classifies what came back for a send of a message with id `request_id`:
/// the reply when it carries that id, `Retry` on silence or a stray reply.
pub fn check_ack(reply: Option<Message>, request_id: u8) -> (r: Result<Message, Control>)
    ensures
        answers(reply, request_id) ==> r == Ok::<Message, Control>(reply.unwrap()),
        !answers(reply, request_id) ==> r == Err::<Message, Control>(Control::Retry),
{
    match reply {
        Some(m) => {
            if m.id != request_id {
                Err(Control::Retry)
            } else {
                Ok(m)
            }
        },
        None => Err(Control::Retry),
    }
}

/// Whether an attempt's result asks for another send.
pub fn check_retry<T>(ctl: &Result<T, Control>) -> (r: bool)
    ensures
        r <==> (*ctl matches Err(c) && c == Control::Retry),
{
    match ctl {
        Err(Control::Retry) => true,
        _ => false,
    }
}

/// The meaningful parameters fit the parameter block.
pub open spec fn fits(m: Message) -> bool {
    m.params_len as usize <= PARAMS_SIZE
}

/// The dispatcher: a bounded FIFO of requests, each with the handle that its
/// outcome goes to (`H`), served one at a time.
pub struct Communicator<H> {
    message_handlers: VecDeque<(Message, H)>,
    in_flight: Option<InFlight<H>>,
    wait_time_ms: u64,
}

impl<H> Communicator<H> {
    /// The requests waiting, front first.
    pub closed spec fn pending(&self) -> Seq<(Message, H)> {
        self.message_handlers@
    }

    /// The request being served, if any.
    pub closed spec fn current(&self) -> Option<InFlight<H>> {
        self.in_flight
    }

    pub closed spec fn wait_time_spec(&self) -> u64 {
        self.wait_time_ms
    }

    pub closed spec fn wf(&self) -> bool {
        &&& self.message_handlers@.len() <= MAX_MESSAGES + 1
        &&& forall|i: int|
            0 <= i < self.message_handlers@.len() ==> fits(#[trigger] self.message_handlers@[i].0)
        &&& self.in_flight matches Some(f) ==> fits(f.message)
    }

    /// An empty dispatcher whose attempts wait `wait_time_ms` for a reply,
    /// `DEFAULT_WAIT_TIME_MS` unless given.
    pub fn new(wait_time_ms: Option<u64>) -> (r: Self)
        ensures
            r.wf(),
            r.pending() == Seq::<(Message, H)>::empty(),
            r.current() is None,
            r.wait_time_spec() == match wait_time_ms {
                Some(t) => t,
                None => DEFAULT_WAIT_TIME_MS,
            },
    {
        let wait_time_ms = match wait_time_ms {
            Some(t) => t,
            None => DEFAULT_WAIT_TIME_MS,
        };
        Communicator { message_handlers: VecDeque::new(), in_flight: None, wait_time_ms }
    }

    /// How long one attempt waits for its reply, in milliseconds.
    pub fn wait_time(&self) -> (r: u64)
        ensures
            r == self.wait_time_spec(),
    {
        self.wait_time_ms
    }

    /// Whether no request is being served.
    pub fn is_idle(&self) -> (r: bool)
        ensures
            r <==> self.current() is None,
    {
        self.in_flight.is_none()
    }

    /// Queues `message` with the handle its outcome goes to. When the queue
    /// already holds more than `MAX_MESSAGES` entries nothing is queued and the
    /// handle comes back, to be completed with `BufferFull`.
    pub fn insert_message(&mut self, message: &Message, handle: H) -> (r: Result<(), H>)
        requires
            old(self).wf(),
            fits(*message),
        ensures
            final(self).wf(),
            final(self).pending() == submit_one(old(self).pending(), (*message, handle)).0,
            r is Err <==> old(self).pending().len() > MAX_MESSAGES,
            r matches Err(h) ==> h == handle,
            final(self).current() == old(self).current(),
            final(self).wait_time_spec() == old(self).wait_time_spec(),
    {
        if self.message_handlers.len() > MAX_MESSAGES {
            return Err(handle);
        }
        self.message_handlers.push_back((*message, handle));
        Ok(())
    }

    /// Submits `items` in immediate succession, front first, as successive
    /// `insert_message` calls would, and returns the handles refused, to be
    /// completed with `BufferFull`.
    pub fn insert_messages(&mut self, items: Vec<(Message, H)>) -> (r: Vec<H>)
        requires
            old(self).wf(),
            forall|i: int| 0 <= i < items@.len() ==> fits(#[trigger] items@[i].0),
        ensures
            final(self).wf(),
            (final(self).pending(), r@) == submit_all(old(self).pending(), items@),
            final(self).current() == old(self).current(),
            final(self).wait_time_spec() == old(self).wait_time_spec(),
    {
        let ghost all = items@;
        let mut rest = items;
        let mut refused: Vec<H> = Vec::new();
        let ghost mut j: int = 0;
        assert(all.take(0) =~= Seq::<(Message, H)>::empty());
        assert(all.skip(0) =~= all);
        while rest.len() > 0
            invariant
                self.wf(),
                0 <= j <= all.len(),
                rest@ == all.skip(j),
                forall|i: int| 0 <= i < all.len() ==> fits(#[trigger] all[i].0),
                (self.pending(), refused@) == submit_all(old(self).pending(), all.take(j)),
                self.current() == old(self).current(),
                self.wait_time_spec() == old(self).wait_time_spec(),
            decreases rest@.len(),
        {
            let (message, handle) = rest.remove(0);
            assert((message, handle) == all[j]);
            proof {
                lemma_submit_all_push(old(self).pending(), all.take(j), all[j]);
                assert(all.take(j).push(all[j]) =~= all.take(j + 1));
            }
            let ghost before = refused@;
            match self.insert_message(&message, handle) {
                Ok(()) => {
                    assert(before + Seq::<H>::empty() =~= before);
                },
                Err(h) => {
                    refused.push(h);
                },
            }
            proof {
                assert(rest@ =~= all.skip(j + 1));
                j = j + 1;
            }
        }
        assert(all.take(j) =~= all);
        refused
    }

    /// Takes the request at the front of the queue and says what to send
    /// first: the queue-space probe for a queued command, else the request.
    pub fn start_next(&mut self) -> (r: Action<H>)
        requires
            old(self).wf(),
            old(self).current() is None,
        ensures
            final(self).wf(),
            final(self).wait_time_spec() == old(self).wait_time_spec(),
            old(self).pending().len() == 0 ==> r is Idle && final(self).pending()
                == old(self).pending() && final(self).current() is None,
            old(self).pending().len() > 0 ==> {
                &&& final(self).pending() == old(self).pending().drop_first()
                &&& final(self).current() == Some(
                    start_of(old(self).pending()[0].0, old(self).pending()[0].1),
                )
                &&& r matches Action::Send(m) && m@ == final(self).current().unwrap().sent()
                    && fits(m)
            },
    {
        match self.message_handlers.pop_front() {
            None => Action::Idle,
            Some((message, handle)) => {
                let phase = if message.is_queued != 0 {
                    Phase::Probe
                } else {
                    Phase::Main
                };
                let to_send = if message.is_queued != 0 {
                    Message::new_get_left_space()
                } else {
                    message
                };
                self.in_flight = Some(InFlight { message, handle, phase, attempts: 1 });
                assert(to_send@.params =~= self.in_flight.unwrap().sent().params) by {
                    if message.is_queued != 0 {
                        assert(to_send.params@.take(0) =~= Seq::<u8>::empty());
                    }
                }
                Action::Send(to_send)
            },
        }
    }

    /// Takes what came back for the last send (`None`: nothing within the
    /// wait time) and says what to do next.
    pub fn on_reply(&mut self, reply: Option<Message>) -> (r: Action<H>)
        requires
            old(self).wf(),
            old(self).current() is Some,
        ensures
            final(self).wf(),
            final(self).pending() == old(self).pending(),
            final(self).wait_time_spec() == old(self).wait_time_spec(),
            match step(old(self).current().unwrap(), reply) {
                Step::Continue(g) => final(self).current() == Some(g) && (r matches Action::Send(m)
                    && m@ == g.sent() && fits(m)),
                Step::Done(st) => final(self).current() is None && r == Action::Complete(
                    old(self).current().unwrap().handle,
                    st,
                ),
            },
    {
        let f = self.in_flight.take().unwrap();
        let request_id = match f.phase {
            Phase::Probe => ProtocolID::ProtocolQueuedCmdLeftSpace.code(),
            Phase::Main => f.message.id,
        };
        let ctl = check_ack(reply, request_id);
        if check_retry(&ctl) && f.attempts <= MAX_RETRIES {
            let to_send = match f.phase {
                Phase::Probe => Message::new_get_left_space(),
                Phase::Main => f.message,
            };
            let g = InFlight { attempts: f.attempts + 1, ..f };
            assert(to_send@.params =~= g.sent().params) by {
                if g.phase == Phase::Probe {
                    assert(to_send.params@.take(0) =~= Seq::<u8>::empty());
                }
            }
            self.in_flight = Some(g);
            Action::Send(to_send)
        } else {
            match ctl {
                Err(_) => Action::Complete(f.handle, CommunicateStatus::Timeout),
                Ok(m) => match f.phase {
                    Phase::Probe => {
                        let to_send = f.message;
                        self.in_flight = Some(InFlight { phase: Phase::Main, attempts: 1, ..f });
                        Action::Send(to_send)
                    },
                    Phase::Main => Action::Complete(f.handle, CommunicateStatus::NoError(m)),
                },
            }
        }
    }
}

proof fn lemma_answered_after<H>(f: InFlight<H>, replies: Seq<Option<Message>>, k: int)
    requires
        f.phase == Phase::Main,
        1 <= f.attempts,
        f.attempts + k <= MAX_RETRIES + 1,
        0 <= k < replies.len(),
        forall|i: int| 0 <= i < k ==> !answers(#[trigger] replies[i], f.message.id),
        answers(replies[k], f.message.id),
    ensures
        exchange(f, replies) == (Some(CommunicateStatus::NoError(replies[k].unwrap())), (k
            + 1) as nat),
    decreases k,
{
    if k > 0 {
        let g = InFlight { attempts: (f.attempts + 1) as u8, ..f };
        assert(!answers(replies[0], f.message.id));
        assert forall|i: int| 0 <= i < k - 1 implies !answers(
            #[trigger] replies.drop_first()[i],
            g.message.id,
        ) by {
            assert(!answers(replies[i + 1], f.message.id));
        }
        lemma_answered_after(g, replies.drop_first(), k - 1);
    }
}

/// Retry then success: when the first `k` sends of a request (`k` at most
/// `MAX_RETRIES`) go unanswered and the next one is answered, the request
/// completes with that reply after `k + 1` sends, not with `Timeout`.
pub proof fn lemma_retry_then_success<H>(m: Message, h: H, replies: Seq<Option<Message>>, k: int)
    requires
        m.is_queued == 0,
        0 <= k <= MAX_RETRIES,
        k < replies.len(),
        forall|i: int| 0 <= i < k ==> !answers(#[trigger] replies[i], m.id),
        answers(replies[k], m.id),
    ensures
        exchange(start_of(m, h), replies) == (Some(CommunicateStatus::NoError(replies[k].unwrap())), (
        k + 1) as nat),
{
    lemma_answered_after(start_of(m, h), replies, k);
}

proof fn lemma_probe_answered_after<H>(f: InFlight<H>, replies: Seq<Option<Message>>, j: int)
    requires
        f.phase == Phase::Probe,
        1 <= f.attempts,
        f.attempts + j <= MAX_RETRIES + 1,
        0 <= j < replies.len(),
        forall|i: int| 0 <= i < j ==> !answers(#[trigger] replies[i], left_space_request().id),
        answers(replies[j], left_space_request().id),
    ensures
        exchange(f, replies) == ({
            let (o, n) = exchange(
                InFlight { phase: Phase::Main, attempts: 1, ..f },
                replies.skip(j + 1),
            );
            (o, (n + j + 1) as nat)
        }),
    decreases j,
{
    if j > 0 {
        let g = InFlight { attempts: (f.attempts + 1) as u8, ..f };
        assert(!answers(replies[0], left_space_request().id));
        assert forall|i: int| 0 <= i < j - 1 implies !answers(
            #[trigger] replies.drop_first()[i],
            left_space_request().id,
        ) by {
            assert(!answers(replies[i + 1], left_space_request().id));
        }
        lemma_probe_answered_after(g, replies.drop_first(), j - 1);
        assert(replies.drop_first().skip(j) =~= replies.skip(j + 1));
    } else {
        assert(replies.drop_first() =~= replies.skip(1));
    }
}

/// Retry then success for a queued command: when the queue-space probe is
/// answered after `j` unanswered sends and the command after `k` more, both
/// at most `MAX_RETRIES`, the command completes with its reply after
/// `j + k + 2` sends.
pub proof fn lemma_queued_retry_then_success<H>(
    m: Message,
    h: H,
    replies: Seq<Option<Message>>,
    j: int,
    k: int,
)
    requires
        m.is_queued != 0,
        0 <= j <= MAX_RETRIES,
        0 <= k <= MAX_RETRIES,
        j + 1 + k < replies.len(),
        forall|i: int| 0 <= i < j ==> !answers(#[trigger] replies[i], left_space_request().id),
        answers(replies[j], left_space_request().id),
        forall|i: int| j < i < j + 1 + k ==> !answers(#[trigger] replies[i], m.id),
        answers(replies[j + 1 + k], m.id),
    ensures
        exchange(start_of(m, h), replies) == (Some(
            CommunicateStatus::NoError(replies[j + 1 + k].unwrap()),
        ), (j + k + 2) as nat),
{
    let f = start_of(m, h);
    lemma_probe_answered_after(f, replies, j);
    let rest = replies.skip(j + 1);
    assert forall|i: int| 0 <= i < k implies !answers(#[trigger] rest[i], m.id) by {
        assert(!answers(replies[j + 1 + i], m.id));
    }
    assert(rest[k] == replies[j + 1 + k]);
    lemma_answered_after(InFlight { phase: Phase::Main, attempts: 1, ..f }, rest, k);
}

proof fn lemma_unanswered<H>(f: InFlight<H>, replies: Seq<Option<Message>>)
    requires
        1 <= f.attempts <= MAX_RETRIES + 1,
        replies.len() >= MAX_RETRIES + 2 - f.attempts,
        forall|i: int|
            0 <= i < MAX_RETRIES + 2 - f.attempts ==> !answers(#[trigger] replies[i], f.sent().id),
    ensures
        exchange(f, replies) == (Some(CommunicateStatus::Timeout), (MAX_RETRIES + 2
            - f.attempts) as nat),
        sends(f, replies) == Seq::new((MAX_RETRIES + 2 - f.attempts) as nat, |i: int| f.sent()),
    decreases MAX_RETRIES + 2 - f.attempts,
{
    assert(!answers(replies[0], f.sent().id));
    if f.attempts <= MAX_RETRIES {
        let g = InFlight { attempts: (f.attempts + 1) as u8, ..f };
        assert forall|i: int| 0 <= i < MAX_RETRIES + 2 - g.attempts implies !answers(
            #[trigger] replies.drop_first()[i],
            g.sent().id,
        ) by {
            assert(!answers(replies[i + 1], f.sent().id));
        }
        lemma_unanswered(g, replies.drop_first());
        assert(sends(f, replies) =~= Seq::new(
            (MAX_RETRIES + 2 - f.attempts) as nat,
            |i: int| f.sent(),
        ));
    } else {
        assert(sends(f, replies) =~= Seq::new(1, |i: int| f.sent()));
    }
}

/// Retry exhaustion: when no send of an exchange is answered, the request
/// ends with `Timeout` after exactly `MAX_RETRIES + 1` sends, all of the same
/// message; for a queued command that message is the queue-space probe, so
/// the command itself is never sent.
pub proof fn lemma_retry_exhaustion<H>(m: Message, h: H, replies: Seq<Option<Message>>)
    requires
        replies.len() >= MAX_RETRIES + 1,
        forall|i: int|
            0 <= i < MAX_RETRIES + 1 ==> !answers(#[trigger] replies[i], start_of(m, h).sent().id),
    ensures
        exchange(start_of(m, h), replies) == (Some(CommunicateStatus::Timeout), (MAX_RETRIES
            + 1) as nat),
        sends(start_of(m, h), replies).len() == MAX_RETRIES + 1,
        forall|i: int|
            0 <= i < MAX_RETRIES + 1 ==> #[trigger] sends(start_of(m, h), replies)[i] == start_of(
                m,
                h,
            ).sent(),
        m.is_queued != 0 ==> forall|i: int|
            0 <= i < MAX_RETRIES + 1 ==> #[trigger] sends(start_of(m, h), replies)[i]
                == left_space_request(),
{
    lemma_unanswered(start_of(m, h), replies);
}

proof fn lemma_submit_all_fits<H>(pending: Seq<(Message, H)>, items: Seq<(Message, H)>)
    requires
        pending.len() + items.len() <= MAX_MESSAGES + 1,
    ensures
        submit_all(pending, items) == (pending + items, Seq::<H>::empty()),
    decreases items.len(),
{
    if items.len() > 0 {
        lemma_submit_all_fits(pending.push(items[0]), items.drop_first());
        assert(pending.push(items[0]) + items.drop_first() =~= pending + items);
        assert(Seq::<H>::empty() + Seq::<H>::empty() =~= Seq::<H>::empty());
    } else {
        assert(pending + items =~= pending);
    }
}

proof fn lemma_serve_in_order<H>(pending: Seq<(Message, H)>, replies: Seq<Option<Message>>)
    ensures
        serve(pending, replies).len() <= pending.len(),
        forall|i: int|
            0 <= i < serve(pending, replies).len() ==> (#[trigger] serve(pending, replies)[i]).0
                == pending[i].1,
    decreases pending.len(),
{
    if pending.len() > 0 {
        let (o, n) = exchange(start_of(pending[0].0, pending[0].1), replies);
        if o is Some {
            lemma_serve_in_order(pending.drop_first(), replies.skip(n as int));
            let rest = serve(pending.drop_first(), replies.skip(n as int));
            assert forall|i: int| 0 <= i < serve(pending, replies).len() implies (
            #[trigger] serve(pending, replies)[i]).0 == pending[i].1 by {
                if i > 0 {
                    assert(serve(pending, replies)[i] == rest[i - 1]);
                }
            }
        }
    }
}

/// FIFO: entries submitted to an empty queue, no more than it accepts, are
/// all queued in submission order, and serving the queue completes them in
/// that same order, one after another, whatever the replies.
pub proof fn lemma_fifo_completion<H>(items: Seq<(Message, H)>, replies: Seq<Option<Message>>)
    requires
        items.len() <= MAX_MESSAGES + 1,
    ensures
        submit_all(Seq::empty(), items) == (items, Seq::<H>::empty()),
        serve(items, replies).len() <= items.len(),
        forall|i: int|
            0 <= i < serve(items, replies).len() ==> (#[trigger] serve(items, replies)[i]).0
                == items[i].1,
{
    lemma_submit_all_fits(Seq::empty(), items);
    assert(Seq::<(Message, H)>::empty() + items =~= items);
    lemma_serve_in_order(items, replies);
}

/// Submitting one more entry after `items` is one more `submit_one`: so the
/// queue and the refused handles after successive `insert_message` calls are
/// those of `submit_all` over the entries submitted.
pub proof fn lemma_submit_all_push<H>(
    pending: Seq<(Message, H)>,
    items: Seq<(Message, H)>,
    item: (Message, H),
)
    ensures
        submit_all(pending, items.push(item)) == ({
            let (q, r) = submit_all(pending, items);
            (submit_one(q, item).0, r + submit_one(q, item).1)
        }),
    decreases items.len(),
{
    if items.len() == 0 {
        let s1 = submit_one(pending, item);
        assert(items.push(item).drop_first() =~= Seq::<(Message, H)>::empty());
        assert(items.push(item)[0] == item);
        assert(submit_all(s1.0, items.push(item).drop_first()) == (s1.0, Seq::<H>::empty()));
        assert(submit_all(pending, items) == (pending, Seq::<H>::empty()));
        assert(Seq::<H>::empty() + s1.1 =~= s1.1);
        assert(s1.1 + Seq::<H>::empty() =~= s1.1);
    } else {
        let p1 = submit_one(pending, items[0]);
        assert(items.push(item).drop_first() =~= items.drop_first().push(item));
        assert(items.push(item)[0] == items[0]);
        lemma_submit_all_push(p1.0, items.drop_first(), item);
        let (q, r2) = submit_all(p1.0, items.drop_first());
        assert(p1.1 + (r2 + submit_one(q, item).1) =~= (p1.1 + r2) + submit_one(q, item).1);
    }
}

/// Backpressure: of entries submitted in immediate succession, the queue
/// takes them until it holds `MAX_MESSAGES + 1`; each later one is refused,
/// its handle given back to be completed with `BufferFull`, and it never
/// enters the queue, so it is never sent.
pub proof fn lemma_backpressure<H>(pending: Seq<(Message, H)>, items: Seq<(Message, H)>)
    requires
        pending.len() <= MAX_MESSAGES + 1,
    ensures
        ({
            let room = (MAX_MESSAGES + 1 - pending.len()) as int;
            let n = if items.len() < room {
                items.len() as int
            } else {
                room
            };
            &&& submit_all(pending, items).0 == pending + items.take(n)
            &&& submit_all(pending, items).1 == items.skip(n).map_values(|x: (Message, H)| x.1)
        }),
    decreases items.len(),
{
    let room = (MAX_MESSAGES + 1 - pending.len()) as int;
    if items.len() > 0 {
        lemma_backpressure(submit_one(pending, items[0]).0, items.drop_first());
        if room > 0 {
            assert(pending.push(items[0]) + items.drop_first().take(
                if items.len() - 1 < room - 1 { items.len() - 1 } else { room - 1 },
            ) =~= pending + items.take(if items.len() < room { items.len() as int } else { room }));
            assert(Seq::<H>::empty() + items.drop_first().skip(
                if items.len() - 1 < room - 1 { items.len() - 1 } else { room - 1 },
            ).map_values(|x: (Message, H)| x.1) =~= items.skip(
                if items.len() < room { items.len() as int } else { room },
            ).map_values(|x: (Message, H)| x.1));
        } else {
            assert(items.drop_first().take(0) =~= Seq::<(Message, H)>::empty());
            assert(items.take(0) =~= Seq::<(Message, H)>::empty());
            assert(seq![items[0].1] + items.drop_first().skip(0).map_values(
                |x: (Message, H)| x.1,
            ) =~= items.skip(0).map_values(|x: (Message, H)| x.1));
        }
    } else {
        assert(items.take(0) =~= Seq::<(Message, H)>::empty());
        assert(pending + Seq::<(Message, H)>::empty() =~= pending);
        assert(items.skip(0).map_values(|x: (Message, H)| x.1) =~= Seq::<H>::empty());
    }
}

} // verus!
