//! The decisions of the terminal driver.
//!
//! The driver stands between the master side of a pseudo-terminal and two
//! channels: input for the child comes in on one, what the child writes goes
//! out on the other. Waiting, reading and writing are done by the caller;
//! what to do with each outcome, a failure too, is decided here.
use vstd::prelude::*;
use vstd::slice::slice_subrange;
use crate::nbio::os_code;
use crate::text::{chars_of, texts};

verus! {

/// Size of the buffer that the driver reads into.
pub const READ_BUF_SIZE: usize = 128 * 1024;

/// The kind of terminal that the child is told it runs in, by the
/// environment variable `TERM`.
pub const TERM: &'static str = "xterm-256color";

/// The shell that runs the command.
pub const SHELL: &'static str = "/bin/sh";

/// The error code of a broken pipe (`EPIPE`): what a write to the master
/// side fails with when the child has gone in the middle of it.
pub const EPIPE: i32 = 32;

/// The error code of an interrupted system call (`EINTR`).
pub const EINTR: i32 = 4;

/// What the driver does after it has looked at the input channel.
#[derive(Clone, Copy, Debug, PartialEq, Eq)]
pub enum Flow {
    /// Go on waiting for the next event.
    Continue,
    /// Stop driving: nobody feeds the child any more.
    Finish,
}

/// What the driver does after an attempt to read.
#[derive(Debug, PartialEq, Eq)]
pub enum ReadStep {
    /// Send these bytes on as output of the child, then read again.
    Forward(Vec<u8>),
    /// The attempt was interrupted: read again.
    Again,
    /// Nothing to read for now: mark the descriptor as not ready for
    /// reading and wait for the next event.
    Blocked,
    /// End of the stream: the child is gone, stop driving.
    Finish,
}

/// What the driver does after an attempt to write.
#[derive(Clone, Copy, Debug, PartialEq, Eq)]
pub enum WriteStep {
    /// Input is left, or the attempt was interrupted: write again.
    Again,
    /// All input is written: wait for the next event.
    Drained,
    /// Nothing can be written for now: mark the descriptor as not ready
    /// for writing and wait for the next event.
    Blocked,
    /// Nothing could be written any more: the child is gone, stop driving.
    Finish,
}

/// The input that is waiting to be written to the child.
pub struct Driver {
    input: Vec<u8>,
}

impl View for Driver {
    type V = Seq<u8>;

    /// The bytes that wait to be written, oldest first.
    closed spec fn view(&self) -> Seq<u8> {
        self.input@
    }
}

impl Driver {
    /// A driver with nothing to write.
    pub fn new() -> (driver: Driver)
        ensures
            driver@ == Seq::<u8>::empty(),
    {
        Driver { input: Vec::with_capacity(READ_BUF_SIZE) }
    }

    /// Whether there is input to write, so that the driver has to wait for
    /// the descriptor to become writable too.
    pub fn wants_write(&self) -> (wanted: bool)
        ensures
            wanted == (self@.len() > 0),
    {
        self.input.len() > 0
    }

    /// The bytes to hand to the next attempt to write.
    pub fn pending(&self) -> (bytes: &[u8])
        ensures
            bytes@ == self@,
    {
        self.input.as_slice()
    }

    /// Takes what arrived on the input channel: a message is put behind
    /// the input that waits, and the end of the channel stops the driver.
    pub fn on_input(&mut self, message: Option<Vec<u8>>) -> (flow: Flow)
        ensures
            match message {
                Some(data) => flow == Flow::Continue && final(self)@ == old(self)@ + data@,
                None => flow == Flow::Finish && final(self)@ == old(self)@,
            },
    {
        match message {
            Some(data) => {
                self.input.extend_from_slice(data.as_slice());
                Flow::Continue
            },
            None => Flow::Finish,
        }
    }

    /// Looks at an attempt to write the pending bytes. Bytes that were
    /// written leave the front of the input. The driver writes again while
    /// input is left, waits when it is all gone or the descriptor is not
    /// ready, and stops when nothing could be written any more.
    pub fn on_write(&mut self, progress: Option<usize>) -> (flow: WriteStep)
        requires
            progress matches Some(n) ==> n <= old(self)@.len(),
        ensures
            final(self)@ == written(old(self)@, progress),
            flow == after_write(old(self)@, progress),
    {
        match progress {
            Some(n) => {
                if n == 0 {
                    WriteStep::Finish
                } else if n == self.input.len() {
                    self.input.clear();
                    assert(self.input@ =~= old(self)@.skip(n as int));
                    WriteStep::Drained
                } else {
                    let rest = self.input.split_off(n);
                    self.input = rest;
                    assert(self.input@ =~= old(self)@.skip(n as int));
                    WriteStep::Again
                }
            },
            None => WriteStep::Blocked,
        }
    }

    /// Looks at what an attempt to write the pending bytes came to. An
    /// attempt that did not fail is looked at as `on_write` does. A broken
    /// pipe says that the child has gone and stops the driver like the end
    /// of the stream; an interrupted attempt is made again; any other
    /// failure is the driver's. A failed attempt has written nothing.
    pub fn on_write_result(&mut self, outcome: Result<Option<usize>, std::io::Error>) -> (step:
        Result<WriteStep, std::io::Error>)
        requires
            outcome matches Ok(Some(n)) ==> n <= old(self)@.len(),
        ensures
            match outcome {
                Ok(progress) => {
                    &&& final(self)@ == written(old(self)@, progress)
                    &&& step == Ok::<WriteStep, std::io::Error>(
                        after_write(old(self)@, progress),
                    )
                },
                Err(error) => {
                    &&& final(self)@ == old(self)@
                    &&& step == after_failed_write(error)
                },
            },
    {
        match outcome {
            Ok(progress) => Ok(self.on_write(progress)),
            Err(error) => {
                match error.raw_os_error() {
                    Some(code) => if code == EPIPE {
                        Ok(WriteStep::Finish)
                    } else if code == EINTR {
                        Ok(WriteStep::Again)
                    } else {
                        Err(error)
                    },
                    None => Err(error),
                }
            },
        }
    }
}

/// What the driver does after an attempt to write that failed.
pub open spec fn after_failed_write(error: std::io::Error) -> Result<WriteStep, std::io::Error> {
    if os_code(error) == Some(EPIPE) {
        Ok(WriteStep::Finish)
    } else if os_code(error) == Some(EINTR) {
        Ok(WriteStep::Again)
    } else {
        Err(error)
    }
}

/// What the driver does after an attempt to read that failed.
pub open spec fn after_failed_read(error: std::io::Error) -> Result<ReadStepView, std::io::Error> {
    if os_code(error) == Some(EINTR) {
        Ok(ReadStepView::Again)
    } else {
        Err(error)
    }
}

/// Whether a step after a read is the given one, over the bytes it holds.
pub open spec fn is_read_step(
    got: Result<ReadStep, std::io::Error>,
    expected: Result<ReadStepView, std::io::Error>,
) -> bool {
    match got {
        Ok(step) => expected == Ok::<ReadStepView, std::io::Error>(step@),
        Err(error) => expected == Err::<ReadStepView, std::io::Error>(error),
    }
}

/// The input that is left after an attempt to write.
pub open spec fn written(input: Seq<u8>, progress: Option<usize>) -> Seq<u8> {
    match progress {
        Some(n) => input.skip(n as int),
        None => input,
    }
}

/// What the driver does after an attempt to write.
pub open spec fn after_write(input: Seq<u8>, progress: Option<usize>) -> WriteStep {
    match progress {
        Some(n) => if n == 0 {
            WriteStep::Finish
        } else if n == input.len() {
            WriteStep::Drained
        } else {
            WriteStep::Again
        },
        None => WriteStep::Blocked,
    }
}

/// What the driver does after an attempt to read into `buf`.
pub open spec fn after_read(buf: Seq<u8>, progress: Option<usize>) -> ReadStepView {
    match progress {
        Some(n) => if n == 0 {
            ReadStepView::Finish
        } else {
            ReadStepView::Forward(buf.take(n as int))
        },
        None => ReadStepView::Blocked,
    }
}

/// A step after a read, over the bytes it holds.
pub enum ReadStepView {
    Forward(Seq<u8>),
    Again,
    Blocked,
    Finish,
}

impl View for ReadStep {
    type V = ReadStepView;

    open spec fn view(&self) -> ReadStepView {
        match *self {
            ReadStep::Forward(bytes) => ReadStepView::Forward(bytes@),
            ReadStep::Again => ReadStepView::Again,
            ReadStep::Blocked => ReadStepView::Blocked,
            ReadStep::Finish => ReadStepView::Finish,
        }
    }
}

/// Looks at an attempt to read into `buf`: the bytes that were read are
/// sent on, the end of the stream stops the driver, and where nothing was
/// there to read the driver waits.
pub fn on_read(buf: &[u8], progress: Option<usize>) -> (step: ReadStep)
    requires
        progress matches Some(n) ==> n <= buf@.len(),
    ensures
        step@ == after_read(buf@, progress),
{
    match progress {
        Some(n) => {
            if n == 0 {
                ReadStep::Finish
            } else {
                let part = slice_subrange(buf, 0, n);
                let mut bytes: Vec<u8> = Vec::new();
                bytes.extend_from_slice(part);
                assert(bytes@ =~= buf@.take(n as int));
                ReadStep::Forward(bytes)
            }
        },
        None => ReadStep::Blocked,
    }
}

/// Looks at what an attempt to read into `buf` came to. An attempt that
/// did not fail is looked at as `on_read` does. An interrupted attempt is
/// made again; any other failure is the driver's.
pub fn on_read_result(buf: &[u8], outcome: Result<Option<usize>, std::io::Error>) -> (step: Result<
    ReadStep,
    std::io::Error,
>)
    requires
        outcome matches Ok(Some(n)) ==> n <= buf@.len(),
    ensures
        is_read_step(
            step,
            match outcome {
                Ok(progress) => Ok(after_read(buf@, progress)),
                Err(error) => after_failed_read(error),
            },
        ),
{
    match outcome {
        Ok(progress) => Ok(on_read(buf, progress)),
        Err(error) => {
            match error.raw_os_error() {
                Some(code) => if code == EINTR {
                    Ok(ReadStep::Again)
                } else {
                    Err(error)
                },
                None => Err(error),
            }
        },
    }
}

/// What happens to the input of a driver, one step at a time.
pub enum DriverOp {
    /// These bytes arrive on the input channel.
    Input(Seq<u8>),
    /// This many of the pending bytes are written to the child.
    Write(usize),
}

/// The pending input after some steps, from a driver without input.
pub open spec fn pending_after(ops: Seq<DriverOp>) -> Seq<u8>
    decreases ops.len(),
{
    if ops.len() == 0 {
        Seq::empty()
    } else {
        match ops.last() {
            DriverOp::Input(data) => pending_after(ops.drop_last()) + data,
            DriverOp::Write(n) => written(pending_after(ops.drop_last()), Some(n)),
        }
    }
}

/// All bytes that arrived during some steps, in their order.
pub open spec fn arrived_during(ops: Seq<DriverOp>) -> Seq<u8>
    decreases ops.len(),
{
    if ops.len() == 0 {
        Seq::empty()
    } else {
        match ops.last() {
            DriverOp::Input(data) => arrived_during(ops.drop_last()) + data,
            DriverOp::Write(_) => arrived_during(ops.drop_last()),
        }
    }
}

/// All bytes that were written during some steps, in their order.
pub open spec fn written_during(ops: Seq<DriverOp>) -> Seq<u8>
    decreases ops.len(),
{
    if ops.len() == 0 {
        Seq::empty()
    } else {
        match ops.last() {
            DriverOp::Input(_) => written_during(ops.drop_last()),
            DriverOp::Write(n) => written_during(ops.drop_last()) + pending_after(
                ops.drop_last(),
            ).take(n as int),
        }
    }
}

/// Whether no step writes more bytes than are pending when it is taken.
pub open spec fn writes_fit(ops: Seq<DriverOp>) -> bool
    decreases ops.len(),
{
    ops.len() > 0 ==> {
        &&& writes_fit(ops.drop_last())
        &&& ops.last() matches DriverOp::Write(n) ==> n <= pending_after(ops.drop_last()).len()
    }
}

/// No byte is lost, doubled or moved: whatever steps a driver takes, the
/// bytes that were written and the bytes that are pending are, one after
/// the other, the bytes that arrived.
pub proof fn lemma_input_is_kept(ops: Seq<DriverOp>)
    requires
        writes_fit(ops),
    ensures
        written_during(ops) + pending_after(ops) == arrived_during(ops),
    decreases ops.len(),
{
    if ops.len() > 0 {
        let before = ops.drop_last();
        lemma_input_is_kept(before);
        let pending = pending_after(before);
        match ops.last() {
            DriverOp::Input(data) => {
                assert(written_during(before) + (pending + data) =~= (written_during(before)
                    + pending) + data);
            },
            DriverOp::Write(n) => {
                assert((written_during(before) + pending.take(n as int)) + pending.skip(n as int)
                    =~= written_during(before) + pending);
            },
        }
    } else {
        assert(written_during(ops) + pending_after(ops) =~= arrived_during(ops));
    }
}

/// The arguments that the child is started with: the shell, `-c` and the
/// command.
pub open spec fn shell_words(command: Seq<char>) -> Seq<Seq<char>> {
    seq![SHELL@, "-c"@, command]
}

/// The arguments that the child is started with, or nothing for a command
/// that holds a NUL character, which no argument can hold.
pub fn shell_args(command: &str) -> (args: Option<Vec<String>>)
    ensures
        match args {
            Some(words) => !command@.contains('\0') && texts(words@) == shell_words(command@),
            None => command@.contains('\0'),
        },
{
    let chars = chars_of(command);
    let mut i: usize = 0;
    while i < chars.len()
        invariant
            i <= chars.len(),
            chars@ == command@,
            forall|k: int| 0 <= k < i ==> chars@[k] != '\0',
        decreases chars.len() - i,
    {
        if chars[i] == '\0' {
            assert(command@[i as int] == '\0');
            return None;
        }
        i += 1;
    }
    let mut words: Vec<String> = Vec::new();
    words.push(SHELL.to_owned());
    words.push("-c".to_owned());
    words.push(command.to_owned());
    assert(texts(words@) =~= shell_words(command@));
    Some(words)
}


} // verus!
