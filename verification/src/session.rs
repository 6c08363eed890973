//! The session: the terminal, the stream clock and the events that
//! subscribers are told.
//!
//! Every change of the terminal goes through a method of `Session`, which
//! announces it on the broadcast channel before it returns. Times are in
//! nanoseconds since the session started. Each method that reads the clock
//! has a companion that takes the reading instead, and says exactly what
//! it does with it.
use vstd::prelude::*;
use crate::vt::{usable_size, Terminal};

verus! {

#[verifier::external_type_specification]
#[verifier::external_body]
#[verifier::reject_recursive_types(T)]
pub struct ExBroadcastSender<T>(tokio::sync::broadcast::Sender<T>);

#[verifier::external_type_specification]
#[verifier::external_body]
#[verifier::reject_recursive_types(T)]
pub struct ExBroadcastReceiver<T>(tokio::sync::broadcast::Receiver<T>);

#[verifier::external_type_specification]
#[verifier::external_body]
#[verifier::reject_recursive_types(T)]
pub struct ExOneshotSender<T>(tokio::sync::oneshot::Sender<T>);

#[verifier::external_type_specification]
#[verifier::external_body]
pub struct ExInstant(std::time::Instant);

/// `Instant::now` reads the clock: nothing is known of what it returns.
pub assume_specification[ std::time::Instant::now ]() -> (now: std::time::Instant);

/// `Instant::elapsed` reads the clock: nothing is known of what it returns.
pub assume_specification[ std::time::Instant::elapsed ](since: &std::time::Instant) -> (elapsed:
    std::time::Duration);

/// `Duration::as_nanos` gives a span of time as a number of nanoseconds.
/// Spans come from the clock here, so nothing is stated of the number.
pub assume_specification[ std::time::Duration::as_nanos ](span: &std::time::Duration) -> (nanos:
    u128);

/// How many events the broadcast channel keeps for a subscriber that has
/// fallen behind.
pub const BROADCAST_CAPACITY: usize = 1024;

/// How many seconds a subscriber waits to be let in before it gives up.
pub const SUBSCRIBE_TIMEOUT_SECS: u64 = 5;

/// What subscribers are told.
#[derive(Clone, Debug, PartialEq, Eq)]
pub enum Event {
    /// The state when a subscriber joins: time, columns, rows, the child's
    /// process id, the dump of the terminal and the text on the screen.
    Init(u128, usize, usize, i32, String, String),
    /// The child wrote something: time and text.
    Output(u128, String),
    /// The terminal was resized: time, columns and rows.
    Resize(u128, usize, usize),
    /// The whole screen on demand: columns, rows, dump and text.
    Snapshot(usize, usize, String, String),
}

/// An event, over the text it holds.
pub enum EventView {
    Init(u128, usize, usize, i32, Seq<char>, Seq<char>),
    Output(u128, Seq<char>),
    Resize(u128, usize, usize),
    Snapshot(usize, usize, Seq<char>, Seq<char>),
}

impl View for Event {
    type V = EventView;

    open spec fn view(&self) -> EventView {
        match *self {
            Event::Init(time, cols, rows, pid, seq, text) => EventView::Init(
                time,
                cols,
                rows,
                pid,
                seq@,
                text@,
            ),
            Event::Output(time, data) => EventView::Output(time, data@),
            Event::Resize(time, cols, rows) => EventView::Resize(time, cols, rows),
            Event::Snapshot(cols, rows, seq, text) => EventView::Snapshot(cols, rows, seq@, text@),
        }
    }
}

impl EventView {
    /// The time of an event that marks a change of the terminal.
    pub open spec fn change_time(self) -> Option<u128> {
        match self {
            EventView::Output(time, _) => Some(time),
            EventView::Resize(time, _, _) => Some(time),
            _ => None,
        }
    }
}

/// Makes a broadcast channel and keeps its sending half.
///
/// Trusted: this is `tokio::sync::broadcast::channel`, which stops with a
/// panic for a capacity of zero or of more than `usize::MAX / 2`.
#[verifier::external_body]
fn open_channel(capacity: usize) -> (tx: tokio::sync::broadcast::Sender<Event>)
    requires
        0 < capacity <= usize::MAX / 2,
{
    tokio::sync::broadcast::channel(capacity).0
}

/// Hands an event to the broadcast channel.
///
/// Trusted: this is `tokio::sync::broadcast::Sender::send`, which queues
/// the value for the receivers there are, or hands it back where there are
/// none. Either way the session goes on, so nothing is returned.
#[verifier::external_body]
fn send_event(tx: &tokio::sync::broadcast::Sender<Event>, event: Event) {
    let _ = tx.send(event);
}

/// Opens a receiver for what is sent from now on.
///
/// Trusted: this is `tokio::sync::broadcast::Sender::subscribe`. It stops
/// with a panic once a quarter of `usize::MAX` receivers are open at a
/// time, which no process has the memory for.
#[verifier::external_body]
fn open_receiver(tx: &tokio::sync::broadcast::Sender<Event>) -> (rx:
    tokio::sync::broadcast::Receiver<Event>) {
    tx.subscribe()
}

/// The state of the hosted terminal.
pub struct Session {
    vt: Terminal,
    broadcast_tx: tokio::sync::broadcast::Sender<Event>,
    stream_time: u128,
    start_time: std::time::Instant,
    last_event_time: u128,
    pid: i32,
    sent: Ghost<Seq<EventView>>,
}

/// What a session is, for its contracts.
pub struct SessionView {
    /// The terminal.
    pub vt: Terminal,
    /// The process id of the child; 0 where it is not known.
    pub pid: i32,
    /// The time of the last change of the terminal.
    pub stream_time: u128,
    /// What the clock showed at the last change of the terminal: the time
    /// from which the idle time is counted.
    pub last_event_time: u128,
    /// The instant at which the session started: the zero of its clock.
    pub start_time: std::time::Instant,
    /// The sending half of the broadcast channel.
    pub channel: tokio::sync::broadcast::Sender<Event>,
    /// Every event handed to the broadcast channel so far, oldest first.
    pub sent: Seq<EventView>,
}

/// A change that a session goes through.
pub enum Op {
    /// The child wrote `data`, at the time `now`.
    Output { data: Seq<char>, now: u128 },
    /// The terminal is resized, at the time `now`.
    Resize { cols: usize, rows: usize, now: u128 },
    /// The screen is announced.
    Snapshot,
}

impl Op {
    /// The clock reading that an operation carries.
    pub open spec fn reading(self) -> Option<u128> {
        match self {
            Op::Output { now, .. } => Some(now),
            Op::Resize { now, .. } => Some(now),
            Op::Snapshot => None,
        }
    }
}

/// The time from `since` to `now`; nothing where the clock is behind.
pub open spec fn time_since(since: u128, now: u128) -> u128 {
    if now >= since {
        (now - since) as u128
    } else {
        0
    }
}

/// Two spans of time added, or the largest number where the sum is larger.
pub open spec fn time_sum(a: u128, b: u128) -> u128 {
    if a + b <= u128::MAX {
        (a + b) as u128
    } else {
        u128::MAX
    }
}

impl SessionView {
    /// The event that announces the screen as it is.
    pub open spec fn snapshot_event(self) -> EventView {
        EventView::Snapshot(self.vt@.size.0, self.vt@.size.1, self.vt@.dump, self.vt@.text())
    }

    /// The stream time when the last change is `idle` nanoseconds ago:
    /// the time of that change and the idle time.
    pub open spec fn elapsed(self, idle: u128) -> u128 {
        time_sum(self.stream_time, idle)
    }

    /// The idle time when the clock shows `now`: the time since the last
    /// change.
    pub open spec fn idle(self, now: u128) -> u128 {
        time_since(self.last_event_time, now)
    }

    /// The event that a subscriber starts with, when the last change is
    /// `idle` nanoseconds ago.
    pub open spec fn init_event(self, idle: u128) -> EventView {
        EventView::Init(
            self.elapsed(idle),
            self.vt@.size.0,
            self.vt@.size.1,
            self.pid,
            self.vt@.dump,
            self.vt@.text(),
        )
    }

    /// The event that an operation announces.
    pub open spec fn announced(self, op: Op) -> EventView {
        match op {
            Op::Output { data, now } => EventView::Output(now, data),
            Op::Resize { cols, rows, now } => EventView::Resize(now, cols, rows),
            Op::Snapshot => self.snapshot_event(),
        }
    }

    /// Whether `post` is this session after the operation.
    ///
    /// Output is fed to the terminal, which keeps its size. A resize gives
    /// the terminal the new size and leaves its cursor key mode. Both set
    /// the stream time to the clock reading and count the idle time from
    /// that reading on. A snapshot changes nothing. Each operation
    /// announces one event, and none touches the process id, the start of
    /// the clock or the channel.
    pub open spec fn step(self, op: Op, post: SessionView) -> bool {
        &&& post.pid == self.pid
        &&& post.start_time == self.start_time
        &&& post.channel == self.channel
        &&& post.sent == self.sent.push(self.announced(op))
        &&& match op {
            Op::Output { data, now } => {
                &&& post.vt == self.vt.after_feed(data)
                &&& post.vt@.size == self.vt@.size
                &&& post.stream_time == now
                &&& post.last_event_time == now
            },
            Op::Resize { cols, rows, now } => {
                &&& post.vt == self.vt.after_resize(cols, rows)
                &&& post.vt@.size == (cols, rows)
                &&& post.vt@.cursor_key_app_mode == self.vt@.cursor_key_app_mode
                &&& post.stream_time == now
                &&& post.last_event_time == now
            },
            Op::Snapshot => {
                &&& post.vt == self.vt
                &&& post.stream_time == self.stream_time
                &&& post.last_event_time == self.last_event_time
            },
        }
    }
}

impl View for Session {
    type V = SessionView;

    closed spec fn view(&self) -> SessionView {
        SessionView {
            vt: self.vt,
            pid: self.pid,
            stream_time: self.stream_time,
            last_event_time: self.last_event_time,
            start_time: self.start_time,
            channel: self.broadcast_tx,
            sent: self.sent@,
        }
    }
}

/// A new subscriber's view of the session: the state when it joined and a
/// receiver for every event announced after that.
pub struct Subscription {
    init: Event,
    broadcast_rx: tokio::sync::broadcast::Receiver<Event>,
    from: Ghost<nat>,
}

impl Subscription {
    /// The event that tells the state when the subscriber joined.
    pub closed spec fn first(self) -> Event {
        self.init
    }

    /// How many events had been announced when the subscriber joined: it
    /// is told those that come after them.
    pub closed spec fn position(self) -> nat {
        self.from@
    }

    /// The event that tells the state when the subscriber joined.
    pub fn init(&self) -> (event: &Event)
        ensures
            *event == self.first(),
    {
        &self.init
    }

    /// The first event and the receiver of those that follow.
    pub fn into_parts(self) -> (parts: (Event, tokio::sync::broadcast::Receiver<Event>))
        ensures
            parts.0 == self.first(),
    {
        (self.init, self.broadcast_rx)
    }
}

impl Session {
    /// What every session keeps: a well-formed terminal.
    pub open spec fn wf(self) -> bool {
        self@.vt.wf()
    }

    /// A session with a fresh terminal of the given size, at time zero,
    /// that has announced nothing.
    pub fn new(cols: usize, rows: usize, pid: i32) -> (session: Session)
        requires
            usable_size(cols, rows),
        ensures
            session.wf(),
            session@.vt == Terminal::fresh(cols, rows),
            session@.vt@.size == (cols, rows),
            session@.pid == pid,
            session@.stream_time == 0,
            session@.last_event_time == 0,
            session@.sent == Seq::<EventView>::empty(),
    {
        let broadcast_tx = open_channel(BROADCAST_CAPACITY);
        let now = std::time::Instant::now();
        Session {
            vt: Terminal::new(cols, rows),
            broadcast_tx,
            stream_time: 0,
            start_time: now,
            last_event_time: 0,
            pid,
            sent: Ghost(Seq::empty()),
        }
    }

    /// Hands an event to the subscribers.
    fn broadcast(&mut self, event: Event)
        ensures
            final(self).vt == old(self).vt,
            final(self).pid == old(self).pid,
            final(self).stream_time == old(self).stream_time,
            final(self).last_event_time == old(self).last_event_time,
            final(self).start_time == old(self).start_time,
            final(self).broadcast_tx == old(self).broadcast_tx,
            final(self).sent@ == old(self).sent@.push(event@),
    {
        proof {
            self.sent = Ghost(self.sent@.push(event@));
        }
        send_event(&self.broadcast_tx, event);
    }

    /// The time since the session started, in nanoseconds.
    fn clock(&self) -> (now: u128) {
        let span = self.start_time.elapsed();
        span.as_nanos()
    }

    /// Takes what the child wrote at the time `now`: the text is fed to
    /// the terminal, then announced.
    pub fn output_at(&mut self, data: String, now: u128)
        requires
            old(self).wf(),
        ensures
            final(self).wf(),
            old(self)@.step(Op::Output { data: data@, now }, final(self)@),
    {
        self.vt.feed_str(data.as_str());
        self.broadcast(Event::Output(now, data));
        self.stream_time = now;
        self.last_event_time = now;
    }

    /// Takes what the child wrote, at the time that the clock shows.
    pub fn output(&mut self, data: String)
        requires
            old(self).wf(),
        ensures
            final(self).wf(),
            old(self)@.step(
                Op::Output { data: data@, now: final(self)@.stream_time },
                final(self)@,
            ),
    {
        let now = self.clock();
        self.output_at(data, now);
    }

    /// Resizes the terminal at the time `now` and announces the new size.
    pub fn resize_at(&mut self, cols: usize, rows: usize, now: u128)
        requires
            old(self).wf(),
            usable_size(cols, rows),
        ensures
            final(self).wf(),
            old(self)@.step(Op::Resize { cols, rows, now }, final(self)@),
    {
        self.vt.resize(cols, rows);
        self.broadcast(Event::Resize(now, cols, rows));
        self.stream_time = now;
        self.last_event_time = now;
    }

    /// Resizes the terminal, at the time that the clock shows.
    pub fn resize(&mut self, cols: usize, rows: usize)
        requires
            old(self).wf(),
            usable_size(cols, rows),
        ensures
            final(self).wf(),
            old(self)@.step(
                Op::Resize { cols, rows, now: final(self)@.stream_time },
                final(self)@,
            ),
    {
        let now = self.clock();
        self.resize_at(cols, rows, now);
    }

    /// The event that tells the whole screen.
    fn snapshot_event(&self) -> (event: Event)
        requires
            self.wf(),
        ensures
            event@ == self@.snapshot_event(),
    {
        let (cols, rows) = self.vt.size();
        Event::Snapshot(cols, rows, self.vt.dump(), self.text_view())
    }

    /// Announces the whole screen. The terminal and the clock stay as
    /// they are.
    pub fn snapshot(&mut self)
        requires
            old(self).wf(),
        ensures
            final(self).wf(),
            old(self)@.step(Op::Snapshot, final(self)@),
    {
        let event = self.snapshot_event();
        self.broadcast(event);
    }

    /// Whether the cursor keys of the terminal are in application mode.
    pub fn cursor_key_app_mode(&self) -> (app: bool)
        ensures
            app == self@.vt@.cursor_key_app_mode,
    {
        self.vt.cursor_key_app_mode()
    }

    /// The event that a subscriber starts with, when the last change is
    /// `idle` nanoseconds ago.
    pub fn init_event(&self, idle: u128) -> (event: Event)
        requires
            self.wf(),
        ensures
            event@ == self@.init_event(idle),
    {
        let (cols, rows) = self.vt.size();
        let time = self.elapsed_at(idle);
        Event::Init(time, cols, rows, self.pid, self.vt.dump(), self.text_view())
    }

    /// Lets a subscriber in: it is told the state as it is now, and then
    /// every event that is announced from now on.
    pub fn subscribe(&self) -> (subscription: Subscription)
        requires
            self.wf(),
        ensures
            exists|now: u128| subscription.first()@ == self@.init_event(self@.idle(now)),
            subscription.position() == self@.sent.len(),
    {
        let idle = self.idle_time();
        let init = self.init_event(idle);
        let broadcast_rx = open_receiver(&self.broadcast_tx);
        Subscription { init, broadcast_rx, from: Ghost(self.sent@.len()) }
    }

    /// The time since the last change of the terminal when the clock
    /// shows `now`, in nanoseconds.
    pub fn idle_at(&self, now: u128) -> (idle: u128)
        ensures
            idle == self@.idle(now),
    {
        if now >= self.last_event_time {
            now - self.last_event_time
        } else {
            0
        }
    }

    /// The time since the last change of the terminal, in nanoseconds, by
    /// what the clock shows.
    fn idle_time(&self) -> (idle: u128)
        ensures
            exists|now: u128| idle == self@.idle(now),
    {
        let now = self.clock();
        self.idle_at(now)
    }

    /// The stream time when the last change is `idle` nanoseconds ago:
    /// the time of that change and the idle time, or the largest number
    /// where the sum is larger.
    pub fn elapsed_at(&self, idle: u128) -> (time: u128)
        ensures
            time == self@.elapsed(idle),
    {
        match self.stream_time.checked_add(idle) {
            Some(sum) => sum,
            None => u128::MAX,
        }
    }

    /// The stream time now: that of the last change and the time since, by
    /// what the clock shows.
    pub fn elapsed_time(&self) -> (time: u128)
        ensures
            exists|now: u128| time == self@.elapsed(self@.idle(now)),
    {
        let idle = self.idle_time();
        self.elapsed_at(idle)
    }

    /// The text on the screen: the visible lines, one below the other.
    pub fn text_view(&self) -> (text: String)
        ensures
            text@ == self@.vt@.text(),
    {
        self.vt.get_text()
    }
}

/// A subscriber that waits to be let in.
pub struct Client(pub tokio::sync::oneshot::Sender<Subscription>);

impl Client {
    /// Hands the subscription to the subscriber that waits for it.
    ///
    /// Trusted: this is `tokio::sync::oneshot::Sender::send`, which gives
    /// the value to the receiving side, or back where that side is gone.
    /// The subscriber that left is not told, so nothing is returned.
    #[verifier::external_body]
    pub fn accept(self, subscription: Subscription) {
        let _ = self.0.send(subscription);
    }
}

/// Whether a session goes through the states one after the other by the
/// operations: each operation leads from its state to the next.
pub open spec fn run(states: Seq<SessionView>, ops: Seq<Op>) -> bool {
    &&& states.len() == ops.len() + 1
    &&& forall|i: int| 0 <= i < ops.len() ==> (#[trigger] states[i]).step(ops[i], states[i + 1])
}

/// Whether the clock never goes back during a run: each reading is at
/// least the stream time before it.
pub open spec fn clock_ordered(states: Seq<SessionView>, ops: Seq<Op>) -> bool {
    forall|i: int|
        0 <= i < ops.len() && (#[trigger] ops[i]).reading() is Some ==> states[i].stream_time
            <= ops[i].reading()->0
}

/// Whether the times of the changes among the events never go back.
pub open spec fn times_ordered(events: Seq<EventView>) -> bool {
    forall|i: int, j: int|
        0 <= i < j < events.len() && (#[trigger] events[i]).change_time() is Some && (
        #[trigger] events[j]).change_time() is Some ==> events[i].change_time()->0
            <= events[j].change_time()->0
}

/// What a subscriber is told: the state when it joined, then the events
/// that were announced after the first `from`.
pub open spec fn delivered(init: EventView, sent: Seq<EventView>, from: nat) -> Seq<EventView> {
    seq![init] + sent.skip(from as int)
}

/// What a run announces, and where it leaves the session: one event for
/// each operation, in their order, behind those that were announced
/// before; the terminal keeps its size unless it is resized; and the
/// stream time never goes back, as long as the clock does not.
pub proof fn lemma_run(states: Seq<SessionView>, ops: Seq<Op>)
    requires
        run(states, ops),
    ensures
        states.last().sent.len() == states[0].sent.len() + ops.len(),
        states.last().sent.take(states[0].sent.len() as int) == states[0].sent,
        states.last().pid == states[0].pid,
        forall|k: int|
            0 <= k < ops.len() ==> #[trigger] states.last().sent[states[0].sent.len() + k]
                == states[k].announced(ops[k]),
        (forall|i: int| 0 <= i < ops.len() ==> !(#[trigger] ops[i] is Resize))
            ==> states.last().vt@.size == states[0].vt@.size,
        clock_ordered(states, ops) ==> states[0].stream_time <= states.last().stream_time,
        clock_ordered(states, ops) ==> forall|k: int|
            0 <= k < ops.len() && (#[trigger] ops[k]).reading() is Some ==> states[0].stream_time
                <= ops[k].reading()->0 <= states.last().stream_time,
    decreases ops.len(),
{
    let base = states[0].sent.len() as int;
    if ops.len() == 0 {
        assert(states.last().sent.take(base) =~= states[0].sent);
    } else {
        let before = states.drop_last();
        let earlier = ops.drop_last();
        let n = earlier.len() as int;
        assert(run(before, earlier)) by {
            assert forall|i: int| 0 <= i < earlier.len() implies (#[trigger] before[i]).step(
                earlier[i],
                before[i + 1],
            ) by {
                assert(states[i].step(ops[i], states[i + 1]));
            }
        }
        if clock_ordered(states, ops) {
            assert(clock_ordered(before, earlier)) by {
                assert forall|i: int|
                    0 <= i < earlier.len() && (#[trigger] earlier[i]).reading() is Some implies before[i].stream_time
                        <= earlier[i].reading()->0 by {
                    assert(ops[i].reading() is Some);
                }
            }
        }
        if forall|i: int| 0 <= i < ops.len() ==> !(#[trigger] ops[i] is Resize) {
            assert forall|i: int| 0 <= i < earlier.len() implies !(#[trigger] earlier[i] is Resize) by {
                assert(!(ops[i] is Resize));
            }
            assert(!(ops[n] is Resize));
        }
        lemma_run(before, earlier);
        let pre = states[n];
        let post = states[n + 1];
        assert(pre == before.last());
        assert(post == states.last());
        assert(pre.step(ops[n], post));
        assert(post.sent.take(base) =~= pre.sent.take(base));
        assert forall|k: int| 0 <= k < ops.len() implies #[trigger] post.sent[base + k]
            == states[k].announced(ops[k]) by {
            if k < n {
                assert(pre.sent[base + k] == before[k].announced(earlier[k]));
            }
        }
        if clock_ordered(states, ops) {
            assert(ops[n].reading() is Some ==> pre.stream_time <= ops[n].reading()->0);
            assert forall|k: int| 0 <= k < ops.len() && (#[trigger] ops[k]).reading() is Some implies states[0].stream_time
                <= ops[k].reading()->0 <= post.stream_time by {
                if k < n {
                    assert(earlier[k].reading() is Some);
                }
            }
        }
    }
}

/// The times of the changes that a subscriber is told never go back, as
/// long as the clock does not: whatever the session goes through after the
/// subscriber joined, each output and resize that it is told carries a time
/// that is at least that of the one before.
pub proof fn lemma_times_never_go_back(states: Seq<SessionView>, ops: Seq<Op>, idle: u128)
    requires
        run(states, ops),
        clock_ordered(states, ops),
    ensures
        times_ordered(
            delivered(states[0].init_event(idle), states.last().sent, states[0].sent.len()),
        ),
{
    lemma_run(states, ops);
    let base = states[0].sent.len() as int;
    let told = delivered(states[0].init_event(idle), states.last().sent, states[0].sent.len());
    assert forall|i: int, j: int|
        0 <= i < j < told.len() && (#[trigger] told[i]).change_time() is Some && (
        #[trigger] told[j]).change_time() is Some implies told[i].change_time()->0
            <= told[j].change_time()->0 by {
        assert(i >= 1);
        let a = i - 1;
        let b = j - 1;
        assert(told[i] == states.last().sent[base + a]);
        assert(told[j] == states.last().sent[base + b]);
        assert(told[i] == states[a].announced(ops[a]));
        assert(told[j] == states[b].announced(ops[b]));
        assert(ops[a].reading() is Some && ops[b].reading() is Some);
        lemma_run_part(states, ops, a + 1, b);
    }
}

/// A part of a run is a run: the clock at a later operation is not behind
/// that of an earlier one.
proof fn lemma_run_part(states: Seq<SessionView>, ops: Seq<Op>, from: int, to: int)
    requires
        run(states, ops),
        clock_ordered(states, ops),
        0 < from <= to < ops.len(),
        ops[from - 1].reading() is Some,
        ops[to].reading() is Some,
    ensures
        ops[from - 1].reading()->0 <= ops[to].reading()->0,
{
    let part_states = states.subrange(from, to + 1);
    let part_ops = ops.subrange(from, to);
    assert(run(part_states, part_ops)) by {
        assert forall|i: int| 0 <= i < part_ops.len() implies (#[trigger] part_states[i]).step(
            part_ops[i],
            part_states[i + 1],
        ) by {
            assert(states[from + i].step(ops[from + i], states[from + i + 1]));
        }
    }
    assert(clock_ordered(part_states, part_ops)) by {
        assert forall|i: int|
            0 <= i < part_ops.len() && (#[trigger] part_ops[i]).reading() is Some implies part_states[i].stream_time
                <= part_ops[i].reading()->0 by {
            assert(ops[from + i].reading() is Some);
        }
    }
    lemma_run(part_states, part_ops);
    assert(states[from - 1].step(ops[from - 1], states[from]));
    assert(part_states[0] == states[from]);
    assert(part_states.last() == states[to]);
    assert(states[to].stream_time <= ops[to].reading()->0);
}

/// The first event that a subscriber is told is the state when it joined,
/// and the columns and rows in it are those of the next snapshot, provided
/// that the terminal is not resized in between.
pub proof fn lemma_init_size_is_snapshot_size(states: Seq<SessionView>, ops: Seq<Op>, idle: u128)
    requires
        run(states, ops),
        ops.len() > 0,
        ops.last() == Op::Snapshot,
        forall|i: int| 0 <= i < ops.len() ==> !(#[trigger] ops[i] is Resize),
    ensures
        ({
            let told = delivered(
                states[0].init_event(idle),
                states.last().sent,
                states[0].sent.len(),
            );
            &&& told[0] matches EventView::Init(_, cols, rows, _, _, _)
            &&& told.last() matches EventView::Snapshot(snap_cols, snap_rows, _, _)
            &&& cols == snap_cols
            &&& rows == snap_rows
        }),
{
    let n = ops.len() - 1;
    let before = states.drop_last();
    let earlier = ops.drop_last();
    assert(run(before, earlier)) by {
        assert forall|i: int| 0 <= i < earlier.len() implies (#[trigger] before[i]).step(
            earlier[i],
            before[i + 1],
        ) by {
            assert(states[i].step(ops[i], states[i + 1]));
        }
    }
    assert forall|i: int| 0 <= i < earlier.len() implies !(#[trigger] earlier[i] is Resize) by {
        assert(!(ops[i] is Resize));
    }
    lemma_run(before, earlier);
    lemma_run(states, ops);
    assert(states[n].step(ops[n], states[n + 1]));
    assert(before.last() == states[n]);
    let told = delivered(states[0].init_event(idle), states.last().sent, states[0].sent.len());
    assert(told.last() == states.last().sent[states[0].sent.len() + n]);
}


} // verus!
