//! Commands of the control protocol and the input sequences they carry.
use vstd::prelude::*;
use vstd::utf8::encode_utf8;

verus! {

/// One piece of terminal input.
///
/// Cursor-like keys carry both encodings: which one reaches the child is
/// decided when the bytes are produced, from the terminal's cursor key mode.
#[derive(Debug, Clone, PartialEq, Eq)]
pub enum InputSeq {
    /// Text that is sent as it is.
    Standard(String),
    /// The encoding in normal mode, then the encoding in application mode.
    Cursor(String, String),
}

/// A request to the session.
#[derive(Debug, Clone, PartialEq, Eq)]
pub enum Command {
    /// Send these sequences to the child, in order.
    Input(Vec<InputSeq>),
    /// Announce the whole screen to every subscriber.
    Snapshot,
    /// Resize the terminal to this many columns and rows.
    Resize(usize, usize),
}

/// What an input sequence is, as text.
pub enum SeqView {
    Standard(Seq<char>),
    Cursor(Seq<char>, Seq<char>),
}

/// What a command is, over the views of its sequences.
pub enum CommandView {
    Input(Seq<SeqView>),
    Snapshot,
    Resize(usize, usize),
}

impl View for InputSeq {
    type V = SeqView;

    open spec fn view(&self) -> SeqView {
        match *self {
            InputSeq::Standard(s) => SeqView::Standard(s@),
            InputSeq::Cursor(normal, app) => SeqView::Cursor(normal@, app@),
        }
    }
}

impl View for Command {
    type V = CommandView;

    open spec fn view(&self) -> CommandView {
        match *self {
            Command::Input(seqs) => CommandView::Input(seq_views(seqs@)),
            Command::Snapshot => CommandView::Snapshot,
            Command::Resize(cols, rows) => CommandView::Resize(cols, rows),
        }
    }
}

/// The views of a run of input sequences, in order.
pub open spec fn seq_views(seqs: Seq<InputSeq>) -> Seq<SeqView> {
    Seq::new(seqs.len(), |i: int| seqs[i]@)
}

impl SeqView {
    /// The text that goes on the wire in the given cursor key mode.
    pub open spec fn chosen(self, app_mode: bool) -> Seq<char> {
        match self {
            SeqView::Standard(s) => s,
            SeqView::Cursor(normal, app) => if app_mode { app } else { normal },
        }
    }

    /// The bytes that go on the wire in the given cursor key mode.
    pub open spec fn bytes(self, app_mode: bool) -> Seq<u8> {
        encode_utf8(self.chosen(app_mode))
    }
}

/// The wire bytes of a run of sequences: those of each one, in order.
pub open spec fn wire_bytes(seqs: Seq<SeqView>, app_mode: bool) -> Seq<u8>
    decreases seqs.len(),
{
    if seqs.len() == 0 {
        Seq::empty()
    } else {
        wire_bytes(seqs.drop_last(), app_mode) + seqs.last().bytes(app_mode)
    }
}

/// The bytes of one sequence in the given cursor key mode.
pub fn seq_as_bytes(seq: &InputSeq, app_mode: bool) -> (bytes: &[u8])
    ensures
        bytes@ == seq@.bytes(app_mode),
{
    match seq {
        InputSeq::Standard(s) => s.as_str().as_bytes(),
        InputSeq::Cursor(normal, app) => {
            if app_mode {
                app.as_str().as_bytes()
            } else {
                normal.as_str().as_bytes()
            }
        },
    }
}

/// The bytes to write to the terminal for a run of sequences.
pub fn seqs_to_bytes(seqs: &[InputSeq], app_mode: bool) -> (bytes: Vec<u8>)
    ensures
        bytes@ == wire_bytes(seq_views(seqs@), app_mode),
{
    let mut bytes: Vec<u8> = Vec::new();
    let mut i: usize = 0;
    while i < seqs.len()
        invariant
            i <= seqs.len(),
            bytes@ == wire_bytes(seq_views(seqs@.take(i as int)), app_mode),
        decreases seqs.len() - i,
    {
        let piece = seq_as_bytes(&seqs[i], app_mode);
        bytes.extend_from_slice(piece);
        proof {
            let before = seq_views(seqs@.take(i as int));
            let after = seq_views(seqs@.take(i + 1));
            assert(after.drop_last() =~= before);
            assert(after.last() == seqs@[i as int]@);
        }
        i += 1;
    }
    proof {
        assert(seqs@.take(seqs.len() as int) =~= seqs@);
    }
    bytes
}

} // verus!
