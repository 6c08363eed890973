//! What the command line says: the size of the terminal and the command
//! to run in it.
use vstd::prelude::*;
use crate::api::{size_text, write_size};
use crate::text::{chars_of, join, joined, texts};
use crate::vt::usable_size;

verus! {

/// The size that the terminal starts with.
#[derive(Debug, Clone, Copy, PartialEq, Eq)]
pub struct Size {
    pub cols: u16,
    pub rows: u16,
}

/// Why a text is no size.
#[derive(Debug, Clone, Copy, PartialEq, Eq)]
pub enum SizeError {
    /// There is no `x` between columns and rows.
    Format,
    /// What stands before the first `x` is no number of columns.
    Cols,
    /// What stands behind the first `x` is no number of rows.
    Rows,
}

/// Whether a character is a decimal digit.
pub open spec fn is_digit(c: char) -> bool {
    '0' <= c <= '9'
}

/// Whether a text is made of decimal digits, at least one.
pub open spec fn is_digits(text: Seq<char>) -> bool {
    text.len() > 0 && forall|i: int| 0 <= i < text.len() ==> is_digit(#[trigger] text[i])
}

/// The number that decimal digits stand for.
pub open spec fn digits_value(text: Seq<char>) -> nat
    decreases text.len(),
{
    if text.len() == 0 {
        0
    } else {
        (digits_value(text.drop_last()) * 10 + (text.last() as u8 - 0x30)) as nat
    }
}

/// The number up to 65535 that a text stands for: decimal digits, with or
/// without a plus sign in front.
pub open spec fn number_of(text: Seq<char>) -> Option<u16> {
    let digits = if text.len() > 0 && text[0] == '+' {
        text.skip(1)
    } else {
        text
    };
    if is_digits(digits) && digits_value(digits) <= u16::MAX {
        Some(digits_value(digits) as u16)
    } else {
        None
    }
}

/// Where the first `x` of a text stands, or the length of the text.
pub open spec fn first_x(text: Seq<char>) -> nat
    decreases text.len(),
{
    if text.len() == 0 || text[0] == 'x' {
        0
    } else {
        1 + first_x(text.skip(1))
    }
}

/// The size that a text stands for: columns, `x`, rows.
pub open spec fn size_of(text: Seq<char>) -> Result<Size, SizeError> {
    let at = first_x(text);
    if at >= text.len() {
        Err(SizeError::Format)
    } else {
        match number_of(text.take(at as int)) {
            None => Err(SizeError::Cols),
            Some(cols) => match number_of(text.skip(at as int + 1)) {
                None => Err(SizeError::Rows),
                Some(rows) => Ok(Size { cols, rows }),
            },
        }
    }
}

proof fn lemma_first_x(text: Seq<char>, n: nat)
    requires
        n <= text.len(),
        forall|k: int| 0 <= k < n ==> text[k] != 'x',
        n == text.len() || text[n as int] == 'x',
    ensures
        first_x(text) == n,
    decreases n,
{
    if n > 0 {
        let rest = text.skip(1);
        assert forall|k: int| 0 <= k < n - 1 implies rest[k] != 'x' by {
            assert(rest[k] == text[k + 1]);
        }
        lemma_first_x(rest, (n - 1) as nat);
    }
}

/// More digits do not make a smaller number.
proof fn lemma_digits_grow(text: Seq<char>, n: int)
    requires
        0 <= n <= text.len(),
        forall|i: int| 0 <= i < text.len() ==> is_digit(#[trigger] text[i]),
    ensures
        digits_value(text.take(n)) <= digits_value(text),
    decreases text.len() - n,
{
    if n < text.len() {
        lemma_digits_grow(text, n + 1);
        assert(text.take(n + 1).drop_last() =~= text.take(n));
        assert(is_digit(text[n]));
    } else {
        assert(text.take(n) =~= text);
    }
}

/// Reads the number that the characters from `from` to `to` stand for.
fn read_number(chars: &Vec<char>, from: usize, to: usize) -> (number: Option<u16>)
    requires
        from <= to <= chars.len(),
    ensures
        number == number_of(chars@.subrange(from as int, to as int)),
{
    let ghost text = chars@.subrange(from as int, to as int);
    let start = if from < to && chars[from] == '+' {
        from + 1
    } else {
        from
    };
    let ghost digits = chars@.subrange(start as int, to as int);
    assert(digits =~= if text.len() > 0 && text[0] == '+' {
        text.skip(1)
    } else {
        text
    });
    if start == to {
        return None;
    }
    let mut value: u32 = 0;
    let mut i: usize = start;
    while i < to
        invariant
            start <= i <= to <= chars.len(),
            digits == chars@.subrange(start as int, to as int),
            text == chars@.subrange(from as int, to as int),
            digits == if text.len() > 0 && text[0] == '+' {
                text.skip(1)
            } else {
                text
            },
            forall|k: int| 0 <= k < i - start ==> is_digit(#[trigger] digits[k]),
            value == digits_value(digits.take(i - start)),
            value <= u16::MAX,
        decreases to - i,
    {
        let c = chars[i];
        assert(digits[i - start] == c);
        if !('0' <= c && c <= '9') {
            assert(!is_digit(digits[i - start]));
            return None;
        }
        assert(digits.take(i - start + 1).drop_last() =~= digits.take(i - start));
        value = value * 10 + (c as u32 - 0x30);
        if value > 0xFFFF {
            proof {
                if is_digits(digits) {
                    lemma_digits_grow(digits, i - start + 1);
                }
            }
            return None;
        }
        i += 1;
    }
    assert(digits.take(to - start) =~= digits);
    Some(value as u16)
}

impl Size {
    /// Reads a size written as columns, `x`, rows.
    pub fn parse(text: &str) -> (size: Result<Size, SizeError>)
        ensures
            size == size_of(text@),
    {
        let chars = chars_of(text);
        let mut at: usize = 0;
        while at < chars.len() && chars[at] != 'x'
            invariant
                at <= chars.len(),
                forall|k: int| 0 <= k < at ==> chars@[k] != 'x',
            decreases chars.len() - at,
        {
            at += 1;
        }
        proof {
            lemma_first_x(chars@, at as nat);
        }
        if at >= chars.len() {
            return Err(SizeError::Format);
        }
        assert(chars@.subrange(0, at as int) =~= chars@.take(at as int));
        assert(chars@.subrange(at + 1, chars.len() as int) =~= chars@.skip(at + 1));
        let cols = match read_number(&chars, 0, at) {
            Some(cols) => cols,
            None => {
                return Err(SizeError::Cols);
            },
        };
        match read_number(&chars, at + 1, chars.len()) {
            Some(rows) => Ok(Size { cols, rows }),
            None => Err(SizeError::Rows),
        }
    }

    /// The number of columns.
    pub fn cols(&self) -> (cols: usize)
        ensures
            cols == self.cols,
    {
        self.cols as usize
    }

    /// The number of rows.
    pub fn rows(&self) -> (rows: usize)
        ensures
            rows == self.rows,
    {
        self.rows as usize
    }

    /// Whether a terminal can have this size.
    pub fn usable(&self) -> (ok: bool)
        ensures
            ok == usable_size(self.cols as usize, self.rows as usize),
    {
        crate::vt::Terminal::usable(self.cols as usize, self.rows as usize)
    }

    /// The size written as columns, `x`, rows.
    pub fn to_text(&self) -> (text: String)
        ensures
            text@ == size_text(self.cols as usize, self.rows as usize),
    {
        write_size(self.cols as usize, self.rows as usize)
    }
}

impl std::str::FromStr for Size {
    type Err = SizeError;

    /// Reads a size written as columns, `x`, rows, as `parse` does.
    fn from_str(text: &str) -> (size: Result<Size, SizeError>)
        ensures
            size == size_of(text@),
    {
        Size::parse(text)
    }
}

impl SizeError {
    /// The error in words.
    pub fn message(&self) -> (text: String)
        ensures
            text@ == match *self {
                SizeError::Format => "invalid size format: no x between columns and rows"@,
                SizeError::Cols => "invalid size: columns are no number up to 65535"@,
                SizeError::Rows => "invalid size: rows are no number up to 65535"@,
            },
    {
        match self {
            SizeError::Format => "invalid size format: no x between columns and rows".to_owned(),
            SizeError::Cols => "invalid size: columns are no number up to 65535".to_owned(),
            SizeError::Rows => "invalid size: rows are no number up to 65535".to_owned(),
        }
    }
}

/// The command that the shell is given: the words of the command line
/// with a space between each two.
pub fn command_line(words: &Vec<String>) -> (command: String)
    ensures
        command@ == joined(texts(words@), ' '),
{
    join(words, ' ')
}

} // verus!
