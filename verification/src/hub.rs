//! The event hub: the one place where the session changes.
//!
//! The hub owns the session. Four sources bring it arrivals: what the child
//! wrote, commands, subscribers that want to join, and the end of the API
//! task. Waiting on the sources is the caller's work; for each arrival the
//! hub changes the session and says what the caller has to do next.
use vstd::prelude::*;
use vstd::utf8::{decode_utf8, valid_utf8};
use crate::command::{seq_views, seqs_to_bytes, wire_bytes, Command, InputSeq, SeqView};
use crate::session::{Client, Op, Session, SessionView};
use crate::text::{decode_lossy, lossy_text};
use crate::vt::{usable_size, Terminal};

verus! {

/// How many messages each of the channels for output, input and commands
/// holds before its sender has to wait.
pub const CHANNEL_CAPACITY: usize = 1024;

/// How many subscribers can wait to be let in before the next has to wait.
pub const CLIENT_CAPACITY: usize = 1;

/// What one of the sources brought. `None` says that the source is closed.
pub enum Arrival {
    /// Bytes that the child wrote.
    Output(Option<Vec<u8>>),
    /// A command.
    Command(Option<Command>),
    /// A subscriber that wants to join.
    Client(Option<Client>),
    /// The API task has ended.
    ApiDone,
}

/// Why the hub stops.
#[derive(Clone, Copy, Debug, PartialEq, Eq)]
pub enum Reason {
    /// The child is gone.
    ProcessExited,
    /// The child is gone and Enter was sent after that.
    EnterReceived,
    /// No more commands can come.
    CommandsClosed,
    /// The API task has ended.
    ApiClosed,
}

/// What the caller does after the hub has taken an arrival.
#[derive(Debug, PartialEq, Eq)]
pub enum Action {
    /// Wait for the next arrival.
    Continue,
    /// Send these bytes to the child, then wait for the next arrival.
    SendInput(Vec<u8>),
    /// Tell the user that the child is gone and that Enter ends the
    /// session, then wait for the next arrival.
    AwaitEnter,
    /// Tell the user that no terminal can have the size that was asked
    /// for, then wait for the next arrival.
    RefuseSize(usize, usize),
    /// Leave the loop; the session is over.
    Shutdown(Reason),
}

/// An action, over the bytes it holds.
pub enum ActionView {
    Continue,
    SendInput(Seq<u8>),
    AwaitEnter,
    RefuseSize(usize, usize),
    Shutdown(Reason),
}

impl View for Action {
    type V = ActionView;

    open spec fn view(&self) -> ActionView {
        match *self {
            Action::Continue => ActionView::Continue,
            Action::SendInput(bytes) => ActionView::SendInput(bytes@),
            Action::AwaitEnter => ActionView::AwaitEnter,
            Action::RefuseSize(cols, rows) => ActionView::RefuseSize(cols, rows),
            Action::Shutdown(reason) => ActionView::Shutdown(reason),
        }
    }
}

/// The event hub.
pub struct Hub {
    session: Session,
    no_exit: bool,
    serving: bool,
    api_done: bool,
    process_exited: bool,
    wait_for_enter: bool,
}

/// What a hub is, for its contracts.
pub struct HubView {
    /// The session.
    pub session: SessionView,
    /// Whether the hub stays when the child is gone, until Enter is sent.
    pub no_exit: bool,
    /// Whether subscribers can still arrive.
    pub serving: bool,
    /// Whether the API task has ended.
    pub api_done: bool,
    /// Whether the child is gone.
    pub process_exited: bool,
    /// Whether Enter ends the session.
    pub wait_for_enter: bool,
}

impl View for Hub {
    type V = HubView;

    closed spec fn view(&self) -> HubView {
        HubView {
            session: self.session@,
            no_exit: self.no_exit,
            serving: self.serving,
            api_done: self.api_done,
            process_exited: self.process_exited,
            wait_for_enter: self.wait_for_enter,
        }
    }
}

/// Whether a sequence is the Enter key as it is sent: a carriage return or
/// a line feed alone.
pub open spec fn is_enter_seq(seq: SeqView) -> bool {
    seq == SeqView::Standard(seq!['\r']) || seq == SeqView::Standard(seq!['\n'])
}

/// Whether Enter is among the sequences.
pub open spec fn has_enter(seqs: Seq<SeqView>) -> bool {
    exists|i: int| 0 <= i < seqs.len() && is_enter_seq(#[trigger] seqs[i])
}

impl HubView {
    /// Whether only the session of `post` may differ from this hub's.
    pub open spec fn same_flags(self, post: HubView) -> bool {
        &&& post.no_exit == self.no_exit
        &&& post.serving == self.serving
        &&& post.api_done == self.api_done
        &&& post.process_exited == self.process_exited
        &&& post.wait_for_enter == self.wait_for_enter
    }

    /// What the hub tells the caller when the output of the child ends.
    pub open spec fn on_output_closed(self) -> ActionView {
        if !self.no_exit {
            ActionView::Shutdown(Reason::ProcessExited)
        } else if !self.process_exited {
            ActionView::AwaitEnter
        } else {
            ActionView::Continue
        }
    }

    /// What the hub tells the caller for input sequences.
    pub open spec fn on_input(self, seqs: Seq<SeqView>) -> ActionView {
        if self.wait_for_enter && has_enter(seqs) {
            ActionView::Shutdown(Reason::EnterReceived)
        } else {
            ActionView::SendInput(wire_bytes(seqs, self.session.vt@.cursor_key_app_mode))
        }
    }

    /// What the hub tells the caller when a source other than the output
    /// of the child ends: the session is over, unless the hub stays for
    /// Enter after the child has gone.
    pub open spec fn on_closed(self, reason: Reason) -> ActionView {
        if self.process_exited {
            ActionView::Continue
        } else {
            ActionView::Shutdown(reason)
        }
    }
}

/// Whether a string is the Enter key as it is sent.
fn is_enter(text: &str) -> (enter: bool)
    ensures
        enter == (text@ == seq!['\r'] || text@ == seq!['\n']),
{
    if text.unicode_len() != 1 {
        return false;
    }
    let c = text.get_char(0);
    assert(text@ =~= seq![c]);
    c == '\r' || c == '\n'
}

/// Whether Enter is among the sequences.
fn find_enter(seqs: &Vec<InputSeq>) -> (found: bool)
    ensures
        found == has_enter(seq_views(seqs@)),
{
    let mut i: usize = 0;
    while i < seqs.len()
        invariant
            i <= seqs.len(),
            forall|j: int| 0 <= j < i ==> !is_enter_seq(#[trigger] seq_views(seqs@)[j]),
        decreases seqs.len() - i,
    {
        let enter = match &seqs[i] {
            InputSeq::Standard(text) => is_enter(text.as_str()),
            InputSeq::Cursor(_, _) => false,
        };
        assert(enter == is_enter_seq(seq_views(seqs@)[i as int]));
        if enter {
            return true;
        }
        i += 1;
    }
    false
}

impl Hub {
    /// What every hub keeps: a well-formed session, and that Enter ends
    /// the session only after the child has gone from a hub that stays.
    pub open spec fn wf(self) -> bool {
        &&& self@.session.vt.wf()
        &&& self@.wait_for_enter ==> self@.process_exited && self@.no_exit
        &&& self@.process_exited ==> self@.no_exit
    }

    /// A hub for the session. With `no_exit` it stays when the child is
    /// gone, until Enter is sent.
    pub fn new(session: Session, no_exit: bool) -> (hub: Hub)
        requires
            session.wf(),
        ensures
            hub.wf(),
            hub@ == (HubView {
                session: session@,
                no_exit,
                serving: true,
                api_done: false,
                process_exited: false,
                wait_for_enter: false,
            }),
    {
        Hub {
            session,
            no_exit,
            serving: true,
            api_done: false,
            process_exited: false,
            wait_for_enter: false,
        }
    }

    /// Whether the hub still waits for subscribers.
    pub fn serving(&self) -> (serving: bool)
        ensures
            serving == self@.serving,
    {
        self.serving
    }

    /// Whether the hub still waits for the end of the API task.
    pub fn watching_api(&self) -> (watching: bool)
        ensures
            watching == !self@.api_done,
    {
        !self.api_done
    }

    /// The session.
    pub fn session(&self) -> (session: &Session)
        ensures
            session@ == self@.session,
    {
        &self.session
    }

    /// Takes one arrival.
    ///
    /// - What the child wrote is decoded, fed to the terminal and announced;
    ///   bytes that are valid UTF-8 are decoded as the text they encode.
    ///   When the output ends, the session is over; a hub that stays asks
    ///   for Enter instead, once.
    /// - Input is turned into bytes by the cursor key mode of the terminal
    ///   and handed to the caller to send. In a hub that waits for Enter,
    ///   input with Enter in it ends the session.
    /// - A snapshot is announced. A resize is carried out and announced,
    ///   or refused where no terminal can have the size.
    /// - A subscriber is let in. When no more can come, the hub stops
    ///   waiting for them.
    /// - When the commands or the API task end, the session is over, except
    ///   in a hub that stays after the child has gone. The end of the API
    ///   task is taken once: the hub stops waiting for it.
    pub fn step(&mut self, arrival: Arrival) -> (action: Action)
        requires
            old(self).wf(),
        ensures
            final(self).wf(),
            match arrival {
                Arrival::Output(Some(bytes)) => {
                    &&& action@ == ActionView::Continue
                    &&& old(self)@.same_flags(final(self)@)
                    &&& old(self)@.session.step(
                        Op::Output {
                            data: lossy_text(bytes@),
                            now: final(self)@.session.stream_time,
                        },
                        final(self)@.session,
                    )
                    &&& valid_utf8(bytes@) ==> lossy_text(bytes@) == decode_utf8(bytes@)
                },
                Arrival::Output(None) => {
                    &&& action@ == old(self)@.on_output_closed()
                    &&& final(self)@ == if action@ == ActionView::AwaitEnter {
                        HubView { process_exited: true, wait_for_enter: true, ..old(self)@ }
                    } else {
                        old(self)@
                    }
                },
                Arrival::Command(Some(Command::Input(seqs))) => {
                    &&& action@ == old(self)@.on_input(seq_views(seqs@))
                    &&& final(self)@ == old(self)@
                },
                Arrival::Command(Some(Command::Snapshot)) => {
                    &&& action@ == ActionView::Continue
                    &&& old(self)@.same_flags(final(self)@)
                    &&& old(self)@.session.step(Op::Snapshot, final(self)@.session)
                },
                Arrival::Command(Some(Command::Resize(cols, rows))) => if usable_size(cols, rows) {
                    &&& action@ == ActionView::Continue
                    &&& old(self)@.same_flags(final(self)@)
                    &&& old(self)@.session.step(
                        Op::Resize { cols, rows, now: final(self)@.session.stream_time },
                        final(self)@.session,
                    )
                } else {
                    &&& action@ == ActionView::RefuseSize(cols, rows)
                    &&& final(self)@ == old(self)@
                },
                Arrival::Command(None) => {
                    &&& action@ == old(self)@.on_closed(Reason::CommandsClosed)
                    &&& final(self)@ == old(self)@
                },
                Arrival::Client(Some(_)) => {
                    &&& action@ == ActionView::Continue
                    &&& final(self)@ == old(self)@
                },
                Arrival::Client(None) => {
                    &&& action@ == ActionView::Continue
                    &&& final(self)@ == (HubView { serving: false, ..old(self)@ })
                },
                Arrival::ApiDone => {
                    &&& action@ == old(self)@.on_closed(Reason::ApiClosed)
                    &&& final(self)@ == (HubView { api_done: true, ..old(self)@ })
                },
            },
    {
        match arrival {
            Arrival::Output(Some(bytes)) => {
                let data = decode_lossy(bytes.as_slice());
                self.session.output(data);
                Action::Continue
            },
            Arrival::Output(None) => {
                if !self.no_exit {
                    Action::Shutdown(Reason::ProcessExited)
                } else if !self.process_exited {
                    self.process_exited = true;
                    self.wait_for_enter = true;
                    Action::AwaitEnter
                } else {
                    Action::Continue
                }
            },
            Arrival::Command(Some(Command::Input(seqs))) => {
                if self.wait_for_enter && find_enter(&seqs) {
                    Action::Shutdown(Reason::EnterReceived)
                } else {
                    let app_mode = self.session.cursor_key_app_mode();
                    Action::SendInput(seqs_to_bytes(seqs.as_slice(), app_mode))
                }
            },
            Arrival::Command(Some(Command::Snapshot)) => {
                self.session.snapshot();
                Action::Continue
            },
            Arrival::Command(Some(Command::Resize(cols, rows))) => {
                if Terminal::usable(cols, rows) {
                    self.session.resize(cols, rows);
                    Action::Continue
                } else {
                    Action::RefuseSize(cols, rows)
                }
            },
            Arrival::Command(None) => {
                if self.process_exited {
                    Action::Continue
                } else {
                    Action::Shutdown(Reason::CommandsClosed)
                }
            },
            Arrival::Client(Some(client)) => {
                let subscription = self.session.subscribe();
                client.accept(subscription);
                Action::Continue
            },
            Arrival::Client(None) => {
                self.serving = false;
                Action::Continue
            },
            Arrival::ApiDone => {
                self.api_done = true;
                if self.process_exited {
                    Action::Continue
                } else {
                    Action::Shutdown(Reason::ApiClosed)
                }
            },
        }
    }
}

} // verus!
