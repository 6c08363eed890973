//! The virtual terminal: a screen that is fed what the child writes.
//!
//! The emulation is the work of the `avt` crate. This module gives its
//! terminal the face that the session needs, and says of each operation
//! what the session relies on.
use vstd::prelude::*;
use vstd::utf8::{decode_utf8, valid_utf8};
use crate::text::{decimal, decimal_text, decode_lossy, join, joined, lossy_text, push_char, texts};

verus! {

#[verifier::external_type_specification]
#[verifier::external_body]
pub struct ExEngine(avt::Vt);

/// The columns and rows of a terminal.
pub uninterp spec fn screen_size(vt: avt::Vt) -> (usize, usize);

/// The text of each visible line of a terminal, from the top.
pub uninterp spec fn screen_lines(vt: avt::Vt) -> Seq<Seq<char>>;

/// The dump of a terminal: the text that `avt` writes out for bringing a
/// fresh terminal of the same size to the same state.
pub uninterp spec fn screen_dump(vt: avt::Vt) -> Seq<char>;

/// Whether the cursor keys of a terminal are in application mode.
pub uninterp spec fn cursor_keys_app(vt: avt::Vt) -> bool;

/// A terminal of the given size to which nothing has been fed.
pub uninterp spec fn blank(cols: usize, rows: usize) -> avt::Vt;

/// A terminal after the given text has been fed to it.
pub uninterp spec fn fed(vt: avt::Vt, text: Seq<char>) -> avt::Vt;

/// A terminal after it has been given a new size.
pub uninterp spec fn resized(vt: avt::Vt, cols: usize, rows: usize) -> avt::Vt;

/// The largest number of columns or rows.
pub const MAX_SIDE: usize = 0xFFFE;

/// The sizes a terminal can have: at least one column and one row. The
/// upper bound keeps every position on the screen, counted from one, and
/// the position just past the last column within sixteen bits, as the
/// dump has them.
pub open spec fn usable_size(cols: usize, rows: usize) -> bool {
    1 <= cols <= MAX_SIDE && 1 <= rows <= MAX_SIDE
}

/// Makes a terminal.
///
/// Trusted: this is `avt::Vt::new`, which builds a terminal with the size
/// it is given; its `size` returns that pair until `resize` is called.
#[verifier::external_body]
fn terminal_new(cols: usize, rows: usize) -> (vt: avt::Vt)
    requires
        usable_size(cols, rows),
    ensures
        vt == blank(cols, rows),
        screen_size(vt) == (cols, rows),
{
    avt::Vt::new(cols, rows)
}

/// Feeds text to a terminal.
///
/// Trusted: this is `avt::Vt::feed_str`, which runs each character through
/// the parser and the terminal. The state it leaves depends on the state
/// before and on the text alone. The size stays: the terminal's columns
/// and rows are assigned in `resize` only, and the escape sequence that
/// asks for a resize is not acted on.
#[verifier::external_body]
fn terminal_feed(vt: &mut avt::Vt, text: &str)
    requires
        usable_size(screen_size(*old(vt)).0, screen_size(*old(vt)).1),
    ensures
        *final(vt) == fed(*old(vt), text@),
        screen_size(*final(vt)) == screen_size(*old(vt)),
{
    let _ = vt.feed_str(text);
}

/// Gives a terminal a new size.
///
/// Trusted: this is `avt::Vt::resize`, which sets the terminal's columns
/// and rows to the given numbers and lays the lines out again. The cursor
/// key mode stays: the resize writes tab stops, margins, size, lines and
/// cursor positions, and the mode is written by the mode sequences and a
/// reset only.
#[verifier::external_body]
fn terminal_resize(vt: &mut avt::Vt, cols: usize, rows: usize)
    requires
        usable_size(screen_size(*old(vt)).0, screen_size(*old(vt)).1),
        usable_size(cols, rows),
    ensures
        *final(vt) == resized(*old(vt), cols, rows),
        screen_size(*final(vt)) == (cols, rows),
        cursor_keys_app(*final(vt)) == cursor_keys_app(*old(vt)),
{
    let _ = vt.resize(cols, rows);
}

/// The size of a terminal.
///
/// Trusted: this is `avt::Vt::size`, which returns the columns and rows.
#[verifier::external_body]
fn terminal_size(vt: &avt::Vt) -> (size: (usize, usize))
    ensures
        size == screen_size(*vt),
{
    vt.size()
}

/// Whether the cursor keys are in application mode.
///
/// Trusted: this is `avt::Vt::cursor_key_app_mode`, which reads the mode
/// that the terminal keeps.
#[verifier::external_body]
fn terminal_cursor_key_app_mode(vt: &avt::Vt) -> (app: bool)
    ensures
        app == cursor_keys_app(*vt),
{
    vt.cursor_key_app_mode()
}

/// The dump of a terminal.
///
/// Trusted: this is `avt::Vt::dump`, which writes the state out as text
/// for a terminal of the same size. It stops with a panic where a position
/// does not fit in sixteen bits, which the bound on the size rules out.
#[verifier::external_body]
fn terminal_dump(vt: &avt::Vt) -> (dump: String)
    requires
        usable_size(screen_size(*vt).0, screen_size(*vt).1),
    ensures
        dump@ == screen_dump(*vt),
{
    vt.dump()
}

/// The text of the visible lines.
///
/// Trusted: this is `avt::Vt::view`, which hands out the lines that are on
/// the screen, and `avt::Line::text` on each, which gives its characters.
/// There are as many lines as the terminal has rows: the view passes over
/// all lines of the buffer but the last `rows`.
#[verifier::external_body]
fn terminal_lines(vt: &avt::Vt) -> (lines: Vec<String>)
    ensures
        texts(lines@) == screen_lines(*vt),
        lines@.len() == screen_size(*vt).1,
{
    vt.view().map(|line| line.text()).collect()
}

/// A virtual terminal.
pub struct Terminal {
    vt: avt::Vt,
}

/// What a terminal shows and tells.
pub struct Screen {
    /// Columns and rows.
    pub size: (usize, usize),
    /// The text of each visible line, from the top.
    pub lines: Seq<Seq<char>>,
    /// The text that restores this state in a fresh terminal.
    pub dump: Seq<char>,
    /// Whether the cursor keys are in application mode.
    pub cursor_key_app_mode: bool,
}

impl View for Terminal {
    type V = Screen;

    closed spec fn view(&self) -> Screen {
        Screen {
            size: screen_size(self.vt),
            lines: screen_lines(self.vt),
            dump: screen_dump(self.vt),
            cursor_key_app_mode: cursor_keys_app(self.vt),
        }
    }
}

impl Screen {
    /// The visible lines, one below the other.
    pub open spec fn text(self) -> Seq<char> {
        joined(self.lines, '\n')
    }
}

impl Terminal {
    /// What every terminal made here keeps: a size that a terminal can have.
    pub open spec fn wf(self) -> bool {
        usable_size(self@.size.0, self@.size.1)
    }

    /// The terminal of the given size to which nothing has been fed.
    pub closed spec fn fresh(cols: usize, rows: usize) -> Terminal {
        Terminal { vt: blank(cols, rows) }
    }

    /// This terminal after the given text has been fed to it.
    pub closed spec fn after_feed(self, text: Seq<char>) -> Terminal {
        Terminal { vt: fed(self.vt, text) }
    }

    /// This terminal after it has been given a new size.
    pub closed spec fn after_resize(self, cols: usize, rows: usize) -> Terminal {
        Terminal { vt: resized(self.vt, cols, rows) }
    }

    /// Whether a terminal can have this size.
    pub fn usable(cols: usize, rows: usize) -> (ok: bool)
        ensures
            ok == usable_size(cols, rows),
    {
        1 <= cols && cols <= MAX_SIDE && 1 <= rows && rows <= MAX_SIDE
    }

    /// A terminal of the given size.
    pub fn new(cols: usize, rows: usize) -> (vt: Terminal)
        requires
            usable_size(cols, rows),
        ensures
            vt.wf(),
            vt == Terminal::fresh(cols, rows),
            vt@.size == (cols, rows),
    {
        Terminal { vt: terminal_new(cols, rows) }
    }

    /// Feeds text to the terminal. The size stays as it is.
    pub fn feed_str(&mut self, text: &str)
        requires
            old(self).wf(),
        ensures
            final(self).wf(),
            *final(self) == old(self).after_feed(text@),
            final(self)@.size == old(self)@.size,
    {
        terminal_feed(&mut self.vt, text);
    }

    /// Feeds what the child wrote: the bytes are decoded as UTF-8, with the
    /// replacement character for what is invalid, and the text is fed.
    /// Bytes that are valid UTF-8 are fed as the text that they encode.
    pub fn feed_bytes(&mut self, bytes: &[u8])
        requires
            old(self).wf(),
        ensures
            final(self).wf(),
            *final(self) == old(self).after_feed(lossy_text(bytes@)),
            valid_utf8(bytes@) ==> *final(self) == old(self).after_feed(decode_utf8(bytes@)),
            final(self)@.size == old(self)@.size,
    {
        let text = decode_lossy(bytes);
        self.feed_str(text.as_str());
    }

    /// Gives the terminal a new size. The cursor key mode stays as it is.
    pub fn resize(&mut self, cols: usize, rows: usize)
        requires
            old(self).wf(),
            usable_size(cols, rows),
        ensures
            final(self).wf(),
            *final(self) == old(self).after_resize(cols, rows),
            final(self)@.size == (cols, rows),
            final(self)@.cursor_key_app_mode == old(self)@.cursor_key_app_mode,
    {
        terminal_resize(&mut self.vt, cols, rows);
    }

    /// Columns and rows.
    pub fn size(&self) -> (size: (usize, usize))
        ensures
            size == self@.size,
    {
        terminal_size(&self.vt)
    }

    /// Whether the cursor keys are in application mode.
    pub fn cursor_key_app_mode(&self) -> (app: bool)
        ensures
            app == self@.cursor_key_app_mode,
    {
        terminal_cursor_key_app_mode(&self.vt)
    }

    /// The text that, fed to a fresh terminal of the same size, restores
    /// what this one shows.
    pub fn dump(&self) -> (dump: String)
        requires
            self.wf(),
        ensures
            dump@ == self@.dump,
    {
        terminal_dump(&self.vt)
    }

    /// The text of each visible line, from the top: one line for each row.
    pub fn view_lines(&self) -> (lines: Vec<String>)
        ensures
            texts(lines@) == self@.lines,
            lines@.len() == self@.size.1,
    {
        terminal_lines(&self.vt)
    }

    /// The visible lines, one below the other.
    pub fn get_text(&self) -> (text: String)
        ensures
            text@ == self@.text(),
    {
        let lines = terminal_lines(&self.vt);
        join(&lines, '\n')
    }
}

/// The escape sequence that asks a terminal to take the given size:
/// `ESC [ 8 ; rows ; cols t`.
pub open spec fn resize_text(cols: usize, rows: usize) -> Seq<char> {
    seq!['\x1b', '[', '8', ';'] + decimal_text(rows as nat) + seq![';'] + decimal_text(cols as nat)
        + seq!['t']
}

/// Writes the escape sequence that asks a terminal to take the given size.
pub fn resize_seq(cols: usize, rows: usize) -> (seq: String)
    ensures
        seq@ == resize_text(cols, rows),
{
    let mut seq = String::new();
    push_char(&mut seq, '\x1b');
    push_char(&mut seq, '[');
    push_char(&mut seq, '8');
    push_char(&mut seq, ';');
    seq.append(decimal(rows).as_str());
    push_char(&mut seq, ';');
    seq.append(decimal(cols).as_str());
    push_char(&mut seq, 't');
    assert(seq@ =~= resize_text(cols, rows));
    seq
}

} // verus!
