//! The key encoder: from the name of a key to the characters a terminal
//! sends for it.
//!
//! A name is looked up in this order: the names of control characters
//! (`C-Space`, `Escape`, `Tab`, ...); the navigation and function keys, with
//! any of the modifiers `C-`, `S-` and `A-` in front, each at most once and
//! in any order; `C-x` and `^x` for a letter `x`; `A-x` for any character
//! `x`. Anything else stands for itself.
use vstd::prelude::*;
use vstd::utf8::{is_ascii_chars, is_ascii_chars_encode_utf8};
use crate::command::{wire_bytes, InputSeq, SeqView};
use crate::text::{chars_of, decimal, decimal_text, push_char, texts, word_at};

verus! {

/// The escape character.
pub const ESC: char = '\x1b';

/// Which modifier keys are held.
#[derive(Clone, Copy, Debug, PartialEq, Eq)]
pub struct Modifiers {
    pub ctrl: bool,
    pub shift: bool,
    pub alt: bool,
}

/// A navigation or function key, by the way its encoding is formed.
#[derive(Clone, Copy, Debug, PartialEq, Eq)]
pub enum KeyShape {
    /// A cursor key, which ends in this letter and follows the cursor key mode.
    Cursor(char),
    /// One of F1 to F4, which ends in this letter.
    Function(char),
    /// A key that is sent as this number and a tilde.
    Tilde(u8),
}

impl Modifiers {
    /// No modifier.
    pub open spec fn none() -> Modifiers {
        Modifiers { ctrl: false, shift: false, alt: false }
    }

    pub open spec fn is_none(self) -> bool {
        !self.ctrl && !self.shift && !self.alt
    }

    /// Whether the modifier written with this letter is held.
    pub open spec fn has(self, letter: char) -> bool {
        if letter == 'C' {
            self.ctrl
        } else if letter == 'S' {
            self.shift
        } else {
            letter == 'A' && self.alt
        }
    }

    /// These modifiers and the one written with this letter.
    pub open spec fn with(self, letter: char) -> Modifiers {
        if letter == 'C' {
            Modifiers { ctrl: true, ..self }
        } else if letter == 'S' {
            Modifiers { shift: true, ..self }
        } else if letter == 'A' {
            Modifiers { alt: true, ..self }
        } else {
            self
        }
    }

    /// The number that stands for these modifiers in an escape sequence:
    /// one, plus 1 for shift, 2 for alt and 4 for control.
    pub open spec fn param(self) -> nat {
        (1 + (if self.shift { 1nat } else { 0 }) + (if self.alt { 2nat } else { 0 }) + (if self.ctrl {
            4nat
        } else {
            0
        })) as nat
    }
}

/// Whether a letter names a modifier.
pub open spec fn is_modifier(letter: char) -> bool {
    letter == 'C' || letter == 'S' || letter == 'A'
}

/// Whether a name starts with a modifier: its letter and a hyphen.
pub open spec fn has_modifier_prefix(name: Seq<char>) -> bool {
    name.len() >= 2 && is_modifier(name[0]) && name[1] == '-'
}

/// Takes the modifiers off the front of a name, in addition to those already
/// seen. Gives the modifiers and what is left of the name, or nothing where
/// a modifier occurs twice.
pub open spec fn split_modifiers(seen: Modifiers, name: Seq<char>) -> Option<(Modifiers, Seq<char>)>
    decreases name.len(),
{
    if has_modifier_prefix(name) {
        if seen.has(name[0]) {
            None
        } else {
            split_modifiers(seen.with(name[0]), name.skip(2))
        }
    } else {
        Some((seen, name))
    }
}

/// The navigation and function keys by name.
pub open spec fn base_key(name: Seq<char>) -> Option<KeyShape> {
    if name == "Left"@ {
        Some(KeyShape::Cursor('D'))
    } else if name == "Right"@ {
        Some(KeyShape::Cursor('C'))
    } else if name == "Up"@ {
        Some(KeyShape::Cursor('A'))
    } else if name == "Down"@ {
        Some(KeyShape::Cursor('B'))
    } else if name == "Home"@ {
        Some(KeyShape::Cursor('H'))
    } else if name == "End"@ {
        Some(KeyShape::Cursor('F'))
    } else if name == "PageUp"@ {
        Some(KeyShape::Tilde(5))
    } else if name == "PageDown"@ {
        Some(KeyShape::Tilde(6))
    } else if name == "F1"@ {
        Some(KeyShape::Function('P'))
    } else if name == "F2"@ {
        Some(KeyShape::Function('Q'))
    } else if name == "F3"@ {
        Some(KeyShape::Function('R'))
    } else if name == "F4"@ {
        Some(KeyShape::Function('S'))
    } else if name == "F5"@ {
        Some(KeyShape::Tilde(15))
    } else if name == "F6"@ {
        Some(KeyShape::Tilde(17))
    } else if name == "F7"@ {
        Some(KeyShape::Tilde(18))
    } else if name == "F8"@ {
        Some(KeyShape::Tilde(19))
    } else if name == "F9"@ {
        Some(KeyShape::Tilde(20))
    } else if name == "F10"@ {
        Some(KeyShape::Tilde(21))
    } else if name == "F11"@ {
        Some(KeyShape::Tilde(23))
    } else if name == "F12"@ {
        Some(KeyShape::Tilde(24))
    } else {
        None
    }
}

/// `ESC [`, the control sequence introducer.
pub open spec fn csi() -> Seq<char> {
    seq![ESC, '[']
}

/// `ESC O`, the single shift that application mode uses.
pub open spec fn ss3() -> Seq<char> {
    seq![ESC, 'O']
}

/// What is sent for a navigation or function key with the given modifiers.
pub open spec fn shape_seq(shape: KeyShape, mods: Modifiers) -> SeqView {
    match shape {
        KeyShape::Cursor(letter) => if mods.is_none() {
            SeqView::Cursor(csi().push(letter), ss3().push(letter))
        } else {
            SeqView::Standard(csi() + seq!['1', ';'] + decimal_text(mods.param()) + seq![letter])
        },
        KeyShape::Function(letter) => if mods.is_none() {
            SeqView::Standard(ss3().push(letter))
        } else {
            SeqView::Standard(csi() + seq!['1', ';'] + decimal_text(mods.param()) + seq![letter])
        },
        KeyShape::Tilde(number) => if mods.is_none() {
            SeqView::Standard(csi() + decimal_text(number as nat) + seq!['~'])
        } else {
            SeqView::Standard(
                csi() + decimal_text(number as nat) + seq![';'] + decimal_text(mods.param())
                    + seq!['~'],
            )
        },
    }
}

/// What is sent for a name made of modifiers and a navigation or function
/// key; nothing for any other name.
pub open spec fn special_key(name: Seq<char>) -> Option<SeqView> {
    match split_modifiers(Modifiers::none(), name) {
        Some((mods, rest)) => match base_key(rest) {
            Some(shape) => Some(shape_seq(shape, mods)),
            None => None,
        },
        None => None,
    }
}

/// The control characters that have a name of their own.
pub open spec fn control_name(name: Seq<char>) -> Option<char> {
    if name == "C-@"@ || name == "C-Space"@ || name == "^@"@ {
        Some('\x00')
    } else if name == "C-["@ || name == "Escape"@ || name == "^["@ {
        Some('\x1b')
    } else if name == "C-\\"@ || name == "^\\"@ {
        Some('\x1c')
    } else if name == "C-]"@ || name == "^]"@ {
        Some('\x1d')
    } else if name == "C-^"@ || name == "C-/"@ {
        Some('\x1e')
    } else if name == "C--"@ || name == "C-_"@ {
        Some('\x1f')
    } else if name == "Tab"@ {
        Some('\x09')
    } else if name == "Enter"@ {
        Some('\x0d')
    } else if name == "Space"@ {
        Some(' ')
    } else {
        None
    }
}

/// The control character of a letter: the letter's code less 0x60 for a
/// small letter, less 0x40 for a capital; nothing for any other character.
pub open spec fn control_of(letter: char) -> Option<char> {
    if 'a' <= letter <= 'z' {
        Some((letter as u8 - 0x60) as char)
    } else if 'A' <= letter <= 'Z' {
        Some((letter as u8 - 0x40) as char)
    } else {
        None
    }
}

/// The control character that `C-x` or `^x` names, for a letter `x`.
pub open spec fn control_letter(name: Seq<char>) -> Option<char> {
    if name.len() == 3 && name[0] == 'C' && name[1] == '-' {
        control_of(name[2])
    } else if name.len() == 2 && name[0] == '^' {
        control_of(name[1])
    } else {
        None
    }
}

/// Whether a name is `A-x` for a single character `x`.
pub open spec fn is_alt_char(name: Seq<char>) -> bool {
    name.len() == 3 && name[0] == 'A' && name[1] == '-'
}

/// What is sent for a key name.
pub open spec fn key_seq(name: Seq<char>) -> SeqView {
    if control_name(name) is Some {
        SeqView::Standard(seq![control_name(name)->0])
    } else if special_key(name) is Some {
        special_key(name)->0
    } else if control_letter(name) is Some {
        SeqView::Standard(seq![control_letter(name)->0])
    } else if is_alt_char(name) {
        SeqView::Standard(seq![ESC, name[2]])
    } else {
        SeqView::Standard(name)
    }
}

/// What is sent for each of a run of key names, in order.
pub open spec fn key_seqs(names: Seq<Seq<char>>) -> Seq<SeqView> {
    Seq::new(names.len(), |i: int| key_seq(names[i]))
}

fn find_control_name(chars: &Vec<char>) -> (found: Option<char>)
    ensures
        found == control_name(chars@),
{
    assert(chars@.skip(0) =~= chars@);
    if word_at(chars, 0, "C-@") || word_at(chars, 0, "C-Space") || word_at(chars, 0, "^@") {
        Some('\x00')
    } else if word_at(chars, 0, "C-[") || word_at(chars, 0, "Escape") || word_at(chars, 0, "^[") {
        Some('\x1b')
    } else if word_at(chars, 0, "C-\\") || word_at(chars, 0, "^\\") {
        Some('\x1c')
    } else if word_at(chars, 0, "C-]") || word_at(chars, 0, "^]") {
        Some('\x1d')
    } else if word_at(chars, 0, "C-^") || word_at(chars, 0, "C-/") {
        Some('\x1e')
    } else if word_at(chars, 0, "C--") || word_at(chars, 0, "C-_") {
        Some('\x1f')
    } else if word_at(chars, 0, "Tab") {
        Some('\x09')
    } else if word_at(chars, 0, "Enter") {
        Some('\x0d')
    } else if word_at(chars, 0, "Space") {
        Some(' ')
    } else {
        None
    }
}

fn find_base_key(chars: &Vec<char>, from: usize) -> (found: Option<KeyShape>)
    requires
        from <= chars.len(),
    ensures
        found == base_key(chars@.skip(from as int)),
{
    if word_at(chars, from, "Left") {
        Some(KeyShape::Cursor('D'))
    } else if word_at(chars, from, "Right") {
        Some(KeyShape::Cursor('C'))
    } else if word_at(chars, from, "Up") {
        Some(KeyShape::Cursor('A'))
    } else if word_at(chars, from, "Down") {
        Some(KeyShape::Cursor('B'))
    } else if word_at(chars, from, "Home") {
        Some(KeyShape::Cursor('H'))
    } else if word_at(chars, from, "End") {
        Some(KeyShape::Cursor('F'))
    } else if word_at(chars, from, "PageUp") {
        Some(KeyShape::Tilde(5))
    } else if word_at(chars, from, "PageDown") {
        Some(KeyShape::Tilde(6))
    } else if word_at(chars, from, "F1") {
        Some(KeyShape::Function('P'))
    } else if word_at(chars, from, "F2") {
        Some(KeyShape::Function('Q'))
    } else if word_at(chars, from, "F3") {
        Some(KeyShape::Function('R'))
    } else if word_at(chars, from, "F4") {
        Some(KeyShape::Function('S'))
    } else if word_at(chars, from, "F5") {
        Some(KeyShape::Tilde(15))
    } else if word_at(chars, from, "F6") {
        Some(KeyShape::Tilde(17))
    } else if word_at(chars, from, "F7") {
        Some(KeyShape::Tilde(18))
    } else if word_at(chars, from, "F8") {
        Some(KeyShape::Tilde(19))
    } else if word_at(chars, from, "F9") {
        Some(KeyShape::Tilde(20))
    } else if word_at(chars, from, "F10") {
        Some(KeyShape::Tilde(21))
    } else if word_at(chars, from, "F11") {
        Some(KeyShape::Tilde(23))
    } else if word_at(chars, from, "F12") {
        Some(KeyShape::Tilde(24))
    } else {
        None
    }
}

/// Reads the modifiers at the front of a name. Gives them with the position
/// where the rest of the name starts.
fn read_modifiers(chars: &Vec<char>) -> (found: Option<(Modifiers, usize)>)
    ensures
        match found {
            Some((mods, at)) => at <= chars.len() && split_modifiers(Modifiers::none(), chars@)
                == Some((mods, chars@.skip(at as int))),
            None => split_modifiers(Modifiers::none(), chars@) is None,
        },
{
    let mut mods = Modifiers { ctrl: false, shift: false, alt: false };
    let mut at: usize = 0;
    assert(chars@.skip(0) =~= chars@);
    while chars.len() - at >= 2 && chars[at + 1] == '-' && (chars[at] == 'C' || chars[at] == 'S'
        || chars[at] == 'A')
        invariant
            at <= chars.len(),
            split_modifiers(Modifiers::none(), chars@) == split_modifiers(
                mods,
                chars@.skip(at as int),
            ),
        decreases chars.len() - at,
    {
        let letter = chars[at];
        let ghost rest = chars@.skip(at as int);
        assert(has_modifier_prefix(rest));
        assert(rest[0] == letter);
        assert(rest.skip(2) =~= chars@.skip(at + 2));
        if letter == 'C' {
            if mods.ctrl {
                return None;
            }
            mods.ctrl = true;
        } else if letter == 'S' {
            if mods.shift {
                return None;
            }
            mods.shift = true;
        } else {
            if mods.alt {
                return None;
            }
            mods.alt = true;
        }
        at += 2;
    }
    assert(!has_modifier_prefix(chars@.skip(at as int)));
    Some((mods, at))
}

/// The number that stands for the modifiers in an escape sequence.
fn modifier_param(mods: Modifiers) -> (n: usize)
    ensures
        n == mods.param(),
{
    let mut n: usize = 1;
    if mods.shift {
        n += 1;
    }
    if mods.alt {
        n += 2;
    }
    if mods.ctrl {
        n += 4;
    }
    n
}

/// Encodes a navigation or function key with the given modifiers.
fn encode_shape(shape: KeyShape, mods: Modifiers) -> (seq: InputSeq)
    ensures
        seq@ == shape_seq(shape, mods),
{
    let plain = !mods.ctrl && !mods.shift && !mods.alt;
    let mut text = String::new();
    push_char(&mut text, ESC);
    match shape {
        KeyShape::Cursor(letter) => {
            if plain {
                let mut app = text.clone();
                push_char(&mut text, '[');
                push_char(&mut text, letter);
                push_char(&mut app, 'O');
                push_char(&mut app, letter);
                assert(text@ =~= csi().push(letter));
                assert(app@ =~= ss3().push(letter));
                InputSeq::Cursor(text, app)
            } else {
                push_char(&mut text, '[');
                push_char(&mut text, '1');
                push_char(&mut text, ';');
                let param = decimal(modifier_param(mods));
                text.append(param.as_str());
                push_char(&mut text, letter);
                assert(text@ =~= csi() + seq!['1', ';'] + decimal_text(mods.param()) + seq![
                    letter,
                ]);
                InputSeq::Standard(text)
            }
        },
        KeyShape::Function(letter) => {
            if plain {
                push_char(&mut text, 'O');
                push_char(&mut text, letter);
                assert(text@ =~= ss3().push(letter));
                InputSeq::Standard(text)
            } else {
                push_char(&mut text, '[');
                push_char(&mut text, '1');
                push_char(&mut text, ';');
                let param = decimal(modifier_param(mods));
                text.append(param.as_str());
                push_char(&mut text, letter);
                assert(text@ =~= csi() + seq!['1', ';'] + decimal_text(mods.param()) + seq![
                    letter,
                ]);
                InputSeq::Standard(text)
            }
        },
        KeyShape::Tilde(number) => {
            push_char(&mut text, '[');
            let digits = decimal(number as usize);
            text.append(digits.as_str());
            if plain {
                push_char(&mut text, '~');
                assert(text@ =~= csi() + decimal_text(number as nat) + seq!['~']);
                InputSeq::Standard(text)
            } else {
                push_char(&mut text, ';');
                let param = decimal(modifier_param(mods));
                text.append(param.as_str());
                push_char(&mut text, '~');
                assert(text@ =~= csi() + decimal_text(number as nat) + seq![';'] + decimal_text(
                    mods.param(),
                ) + seq!['~']);
                InputSeq::Standard(text)
            }
        },
    }
}

/// The control character of a letter.
fn control_char(letter: char) -> (found: Option<char>)
    ensures
        found == control_of(letter),
{
    if 'a' <= letter && letter <= 'z' {
        Some((letter as u8 - 0x60) as char)
    } else if 'A' <= letter && letter <= 'Z' {
        Some((letter as u8 - 0x40) as char)
    } else {
        None
    }
}

fn find_control_letter(chars: &Vec<char>) -> (found: Option<char>)
    ensures
        found == control_letter(chars@),
{
    if chars.len() == 3 && chars[0] == 'C' && chars[1] == '-' {
        control_char(chars[2])
    } else if chars.len() == 2 && chars[0] == '^' {
        control_char(chars[1])
    } else {
        None
    }
}

/// A string of one character.
fn single(c: char) -> (s: String)
    ensures
        s@ == seq![c],
{
    let mut s = String::new();
    push_char(&mut s, c);
    assert(s@ =~= seq![c]);
    s
}

/// Encodes one key name.
pub fn encode_key(key: &str) -> (seq: InputSeq)
    ensures
        seq@ == key_seq(key@),
{
    let chars = chars_of(key);
    if let Some(c) = find_control_name(&chars) {
        return InputSeq::Standard(single(c));
    }
    if let Some((mods, at)) = read_modifiers(&chars) {
        if let Some(shape) = find_base_key(&chars, at) {
            return encode_shape(shape, mods);
        }
    }
    if let Some(c) = find_control_letter(&chars) {
        return InputSeq::Standard(single(c));
    }
    if chars.len() == 3 && chars[0] == 'A' && chars[1] == '-' {
        let mut text = single(ESC);
        push_char(&mut text, chars[2]);
        assert(text@ =~= seq![ESC, chars@[2]]);
        return InputSeq::Standard(text);
    }
    InputSeq::Standard(key.to_owned())
}

/// Encodes a run of key names, in order.
pub fn encode_keys(keys: &Vec<String>) -> (seqs: Vec<InputSeq>)
    ensures
        crate::command::seq_views(seqs@) == key_seqs(texts(keys@)),
{
    let mut seqs: Vec<InputSeq> = Vec::new();
    let mut i: usize = 0;
    while i < keys.len()
        invariant
            i <= keys.len(),
            seqs.len() == i,
            forall|j: int| 0 <= j < i ==> (#[trigger] seqs@[j])@ == key_seq(keys@[j]@),
        decreases keys.len() - i,
    {
        let seq = encode_key(keys[i].as_str());
        seqs.push(seq);
        i += 1;
    }
    assert(crate::command::seq_views(seqs@) =~= key_seqs(texts(keys@)));
    seqs
}

/// A name written with the modifiers of the given letters, in their order,
/// in front of `rest`.
pub open spec fn with_modifiers(letters: Seq<char>, rest: Seq<char>) -> Seq<char>
    decreases letters.len(),
{
    if letters.len() == 0 {
        rest
    } else {
        seq![letters[0], '-'] + with_modifiers(letters.skip(1), rest)
    }
}

/// Whether the letters name modifiers, each at most once.
pub open spec fn distinct_modifiers(letters: Seq<char>) -> bool {
    &&& forall|i: int| 0 <= i < letters.len() ==> is_modifier(#[trigger] letters[i])
    &&& forall|i: int, j: int| 0 <= i < j < letters.len() ==> letters[i] != letters[j]
}

/// The modifiers already seen and those of the given letters.
pub open spec fn add_modifiers(seen: Modifiers, letters: Seq<char>) -> Modifiers
    decreases letters.len(),
{
    if letters.len() == 0 {
        seen
    } else {
        add_modifiers(seen.with(letters[0]), letters.skip(1))
    }
}

/// What holds of the name of every navigation and function key: it has no
/// modifier in front and is not the name of a control character.
proof fn lemma_base_key_names(name: Seq<char>)
    requires
        base_key(name) is Some,
    ensures
        name.len() >= 2,
        !has_modifier_prefix(name),
        name[1] != '-',
        name != "Space"@,
        name[0] != ESC,
        control_name(name) is None,
        base_key(name) matches Some(KeyShape::Cursor(letter)) ==> name == cursor_key_name(letter)
            && is_cursor_letter(letter),
{
    reveal_strlit("Left");
    reveal_strlit("Right");
    reveal_strlit("Up");
    reveal_strlit("Down");
    reveal_strlit("Home");
    reveal_strlit("End");
    reveal_strlit("PageUp");
    reveal_strlit("PageDown");
    reveal_strlit("F1");
    reveal_strlit("F2");
    reveal_strlit("F3");
    reveal_strlit("F4");
    reveal_strlit("F5");
    reveal_strlit("F6");
    reveal_strlit("F7");
    reveal_strlit("F8");
    reveal_strlit("F9");
    reveal_strlit("F10");
    reveal_strlit("F11");
    reveal_strlit("F12");
    lemma_control_names(name);
}

/// What holds of the name of every control character: it is two or three
/// characters long, or one of a few longer words.
proof fn lemma_control_names(name: Seq<char>)
    ensures
        control_name(name) is Some ==> {
            ||| name.len() == 2 && name[0] == '^'
            ||| name.len() == 3 && name[0] == 'C' && name[1] == '-' && !('a' <= name[2] <= 'z')
                && !('A' <= name[2] <= 'Z')
            ||| name == seq!['C', '-', 'S', 'p', 'a', 'c', 'e']
            ||| name == seq!['E', 's', 'c', 'a', 'p', 'e']
            ||| name == seq!['T', 'a', 'b']
            ||| name == seq!['E', 'n', 't', 'e', 'r']
            ||| name == seq!['S', 'p', 'a', 'c', 'e']
        },
        "Space"@ == seq!['S', 'p', 'a', 'c', 'e'],
{
    reveal_strlit("C-@");
    reveal_strlit("C-Space");
    reveal_strlit("^@");
    reveal_strlit("C-[");
    reveal_strlit("Escape");
    reveal_strlit("^[");
    reveal_strlit("C-\\");
    reveal_strlit("^\\");
    reveal_strlit("C-]");
    reveal_strlit("^]");
    reveal_strlit("C-^");
    reveal_strlit("C-/");
    reveal_strlit("C--");
    reveal_strlit("C-_");
    reveal_strlit("Tab");
    reveal_strlit("Enter");
    reveal_strlit("Space");
    assert("C-Space"@ =~= seq!['C', '-', 'S', 'p', 'a', 'c', 'e']);
    assert("Escape"@ =~= seq!['E', 's', 'c', 'a', 'p', 'e']);
    assert("Tab"@ =~= seq!['T', 'a', 'b']);
    assert("Enter"@ =~= seq!['E', 'n', 't', 'e', 'r']);
    assert("Space"@ =~= seq!['S', 'p', 'a', 'c', 'e']);
}

/// Modifiers in front of a key are taken off one by one and collected.
proof fn lemma_split_with_modifiers(seen: Modifiers, letters: Seq<char>, rest: Seq<char>)
    requires
        distinct_modifiers(letters),
        forall|i: int| 0 <= i < letters.len() ==> !seen.has(#[trigger] letters[i]),
        !has_modifier_prefix(rest),
    ensures
        split_modifiers(seen, with_modifiers(letters, rest)) == Some(
            (add_modifiers(seen, letters), rest),
        ),
    decreases letters.len(),
{
    if letters.len() > 0 {
        let name = with_modifiers(letters, rest);
        let tail = letters.skip(1);
        assert(is_modifier(letters[0]));
        assert(name.skip(2) =~= with_modifiers(tail, rest));
        assert(has_modifier_prefix(name));
        assert forall|i: int| 0 <= i < tail.len() implies !seen.with(letters[0]).has(
            #[trigger] tail[i],
        ) by {
            assert(tail[i] == letters[i + 1]);
            assert(is_modifier(letters[i + 1]));
            assert(!seen.has(letters[i + 1]));
        }
        assert(distinct_modifiers(tail)) by {
            assert forall|i: int| 0 <= i < tail.len() implies is_modifier(#[trigger] tail[i]) by {
                assert(tail[i] == letters[i + 1]);
            }
            assert forall|i: int, j: int| 0 <= i < j < tail.len() implies tail[i] != tail[j] by {
                assert(tail[i] == letters[i + 1] && tail[j] == letters[j + 1]);
            }
        }
        lemma_split_with_modifiers(seen.with(letters[0]), tail, rest);
    }
}

/// The modifiers collected from letters are those seen before and those
/// that occur among the letters.
proof fn lemma_add_modifiers_has(seen: Modifiers, letters: Seq<char>, letter: char)
    requires
        is_modifier(letter),
    ensures
        add_modifiers(seen, letters).has(letter) <==> seen.has(letter) || letters.contains(letter),
    decreases letters.len(),
{
    if letters.len() > 0 {
        let tail = letters.skip(1);
        lemma_add_modifiers_has(seen.with(letters[0]), tail, letter);
        if tail.contains(letter) {
            let i = choose|i: int| 0 <= i < tail.len() && tail[i] == letter;
            assert(letters[i + 1] == letter);
        }
        if letters.contains(letter) {
            let i = choose|i: int| 0 <= i < letters.len() && letters[i] == letter;
            if i > 0 {
                assert(tail[i - 1] == letter);
            }
        }
    }
}

/// A modified key is no control character's name.
proof fn lemma_modified_is_no_control_name(letters: Seq<char>, base: Seq<char>)
    requires
        distinct_modifiers(letters),
        base_key(base) is Some,
    ensures
        control_name(with_modifiers(letters, base)) is None,
{
    lemma_base_key_names(base);
    let name = with_modifiers(letters, base);
    lemma_control_names(name);
    if letters.len() > 0 {
        let tail = letters.skip(1);
        let rest = with_modifiers(tail, base);
        assert(name =~= seq![letters[0], '-'] + rest);
        assert(is_modifier(letters[0]));
        if tail.len() > 0 {
            assert(rest =~= seq![tail[0], '-'] + with_modifiers(tail.skip(1), base));
            assert(rest[1] == '-');
            assert(name[3] == '-');
            assert(name.len() >= 4);
        } else {
            assert(rest == base);
            assert(name.len() == 2 + base.len());
            assert(name.skip(2) =~= base);
            if name == seq!['C', '-', 'S', 'p', 'a', 'c', 'e'] {
                assert(name.skip(2) =~= seq!['S', 'p', 'a', 'c', 'e']);
            }
        }
    }
}

/// Modifiers may be written in any order: two names with the same key and
/// the same modifiers, each written once, are encoded alike.
pub proof fn lemma_modifier_order(first: Seq<char>, second: Seq<char>, base: Seq<char>)
    requires
        distinct_modifiers(first),
        distinct_modifiers(second),
        forall|letter: char| first.contains(letter) <==> second.contains(letter),
        base_key(base) is Some,
    ensures
        key_seq(with_modifiers(first, base)) == key_seq(with_modifiers(second, base)),
        key_seq(with_modifiers(first, base)) == shape_seq(
            base_key(base)->0,
            add_modifiers(Modifiers::none(), first),
        ),
{
    let none = Modifiers::none();
    lemma_base_key_names(base);
    lemma_modified_is_no_control_name(first, base);
    lemma_modified_is_no_control_name(second, base);
    lemma_split_with_modifiers(none, first, base);
    lemma_split_with_modifiers(none, second, base);
    lemma_add_modifiers_has(none, first, 'C');
    lemma_add_modifiers_has(none, first, 'S');
    lemma_add_modifiers_has(none, first, 'A');
    lemma_add_modifiers_has(none, second, 'C');
    lemma_add_modifiers_has(none, second, 'S');
    lemma_add_modifiers_has(none, second, 'A');
}


/// The name of the cursor key whose encoding ends in the given letter.
pub open spec fn cursor_key_name(letter: char) -> Seq<char> {
    if letter == 'D' {
        "Left"@
    } else if letter == 'C' {
        "Right"@
    } else if letter == 'A' {
        "Up"@
    } else if letter == 'B' {
        "Down"@
    } else if letter == 'H' {
        "Home"@
    } else {
        "End"@
    }
}

/// A name for an input sequence: the text itself for a standard one, and
/// the name of the cursor key for a pair that a cursor key is encoded as.
pub open spec fn key_name(seq: SeqView) -> Seq<char> {
    match seq {
        SeqView::Standard(text) => text,
        SeqView::Cursor(normal, _) => if normal.len() == 3 && normal[0] == ESC && normal[1] == '['
            && (normal[2] == 'D' || normal[2] == 'C' || normal[2] == 'A' || normal[2] == 'B'
            || normal[2] == 'H' || normal[2] == 'F') {
            cursor_key_name(normal[2])
        } else {
            normal
        },
    }
}

/// A name for each of a run of input sequences, in order.
pub open spec fn key_names(seqs: Seq<SeqView>) -> Seq<Seq<char>> {
    Seq::new(seqs.len(), |i: int| key_name(seqs[i]))
}

/// Writes a name for an input sequence.
pub fn name_key(seq: &InputSeq) -> (name: String)
    ensures
        name@ == key_name(seq@),
{
    match seq {
        InputSeq::Standard(text) => text.clone(),
        InputSeq::Cursor(normal, _) => {
            let chars = chars_of(normal.as_str());
            if chars.len() == 3 && chars[0] == ESC && chars[1] == '[' {
                let letter = chars[2];
                if letter == 'D' {
                    return "Left".to_owned();
                } else if letter == 'C' {
                    return "Right".to_owned();
                } else if letter == 'A' {
                    return "Up".to_owned();
                } else if letter == 'B' {
                    return "Down".to_owned();
                } else if letter == 'H' {
                    return "Home".to_owned();
                } else if letter == 'F' {
                    return "End".to_owned();
                }
            }
            normal.clone()
        },
    }
}

/// Text of one character, and text that starts with the escape character,
/// stands for itself.
proof fn lemma_plain_text(text: Seq<char>)
    requires
        text.len() == 1 || (text.len() > 0 && text[0] == ESC),
    ensures
        key_seq(text) == SeqView::Standard(text),
{
    lemma_control_names(text);
    if base_key(text) is Some {
        lemma_base_key_names(text);
    }
    assert(!has_modifier_prefix(text));
}

/// Encoding the name of an encoded key gives the same sequence again.
pub proof fn lemma_key_name(name: Seq<char>)
    ensures
        key_seq(key_name(key_seq(name))) == key_seq(name),
{
    let seq = key_seq(name);
    if control_name(name) is Some {
        lemma_plain_text(seq![control_name(name)->0]);
    } else if special_key(name) is Some {
        let (mods, rest) = split_modifiers(Modifiers::none(), name)->0;
        let shape = base_key(rest)->0;
        lemma_base_key_names(rest);
        match shape {
            KeyShape::Cursor(letter) => {
                if mods.is_none() {
                    let again = cursor_key_name(letter);
                    assert(rest == again);
                    assert(key_name(seq) == again);
                    assert(!has_modifier_prefix(again));
                    assert(special_key(again) == Some(shape_seq(shape, Modifiers::none())));
                } else {
                    let text = csi() + seq!['1', ';'] + decimal_text(mods.param()) + seq![letter];
                    assert(text[0] == ESC);
                    lemma_plain_text(text);
                }
            },
            KeyShape::Function(letter) => {
                if mods.is_none() {
                    lemma_plain_text(ss3().push(letter));
                } else {
                    let text = csi() + seq!['1', ';'] + decimal_text(mods.param()) + seq![letter];
                    assert(text[0] == ESC);
                    lemma_plain_text(text);
                }
            },
            KeyShape::Tilde(number) => {
                if mods.is_none() {
                    let text = csi() + decimal_text(number as nat) + seq!['~'];
                    assert(text[0] == ESC);
                    lemma_plain_text(text);
                } else {
                    let text = csi() + decimal_text(number as nat) + seq![';'] + decimal_text(
                        mods.param(),
                    ) + seq!['~'];
                    assert(text[0] == ESC);
                    lemma_plain_text(text);
                }
            },
        }
    } else if control_letter(name) is Some {
        lemma_plain_text(seq![control_letter(name)->0]);
    } else if is_alt_char(name) {
        lemma_plain_text(seq![ESC, name[2]]);
    }
}


/// Whether a letter ends the encoding of a cursor key.
pub open spec fn is_cursor_letter(letter: char) -> bool {
    letter == 'D' || letter == 'C' || letter == 'A' || letter == 'B' || letter == 'H' || letter
        == 'F'
}

/// Modifiers that were seen stay among those that a name is split into.
proof fn lemma_split_keeps(seen: Modifiers, name: Seq<char>, letter: char)
    requires
        seen.has(letter),
        split_modifiers(seen, name) is Some,
    ensures
        split_modifiers(seen, name) matches Some((mods, _)) && mods.has(letter),
    decreases name.len(),
{
    if has_modifier_prefix(name) {
        lemma_split_keeps(seen.with(name[0]), name.skip(2), letter);
    }
}

/// The cursor key mode matters for the six cursor keys and for no other
/// name: these are encoded as a pair, the control sequence introducer and
/// their letter for normal mode and the single shift and their letter for
/// application mode, and every other name as one sequence for both modes.
pub proof fn lemma_cursor_keys(name: Seq<char>)
    ensures
        key_seq(name) is Cursor <==> exists|letter: char|
            is_cursor_letter(letter) && name == #[trigger] cursor_key_name(letter),
        forall|letter: char|
            is_cursor_letter(letter) ==> key_seq(#[trigger] cursor_key_name(letter))
                == SeqView::Cursor(seq![ESC, '[', letter], seq![ESC, 'O', letter]),
{
    assert forall|letter: char| is_cursor_letter(letter) implies key_seq(
        #[trigger] cursor_key_name(letter),
    ) == SeqView::Cursor(seq![ESC, '[', letter], seq![ESC, 'O', letter]) by {
        let key = cursor_key_name(letter);
        assert(base_key(key) == Some(KeyShape::Cursor(letter))) by {
            reveal_strlit("Left");
            reveal_strlit("Right");
            reveal_strlit("Up");
            reveal_strlit("Down");
            reveal_strlit("Home");
            reveal_strlit("End");
        }
        lemma_base_key_names(key);
        assert(csi().push(letter) =~= seq![ESC, '[', letter]);
        assert(ss3().push(letter) =~= seq![ESC, 'O', letter]);
    }
    if key_seq(name) is Cursor {
        let (mods, rest) = split_modifiers(Modifiers::none(), name)->0;
        let shape = base_key(rest)->0;
        lemma_base_key_names(rest);
        assert(mods.is_none());
        if has_modifier_prefix(name) {
            lemma_split_keeps(Modifiers::none().with(name[0]), name.skip(2), name[0]);
        }
        assert(rest == name);
        let letter = shape->Cursor_0;
        assert(is_cursor_letter(letter) && name == cursor_key_name(letter));
    }
}

/// The bytes that go out for a cursor key: escape, then `[` in normal mode
/// and `O` in application mode, then the letter of the key.
pub proof fn lemma_cursor_key_bytes(letter: char, app_mode: bool)
    requires
        is_cursor_letter(letter),
    ensures
        wire_bytes(key_seqs(seq![cursor_key_name(letter)]), app_mode) == seq![
            27u8,
            if app_mode {
                79u8
            } else {
                91u8
            },
            letter as u8,
        ],
{
    let name = cursor_key_name(letter);
    lemma_cursor_keys(name);
    let seqs = key_seqs(seq![name]);
    assert(seqs[0] == key_seq(name));
    let text = seqs[0].chosen(app_mode);
    assert(text == if app_mode {
        seq![ESC, 'O', letter]
    } else {
        seq![ESC, '[', letter]
    });
    assert(is_ascii_chars(text));
    is_ascii_chars_encode_utf8(text);
    assert(seqs.drop_last() =~= Seq::<SeqView>::empty());
    assert(wire_bytes(seqs.drop_last(), app_mode) =~= Seq::<u8>::empty());
    assert(wire_bytes(seqs, app_mode) =~= seqs[0].bytes(app_mode));
    assert(seqs[0].bytes(app_mode) =~= seq![
        27u8,
        if app_mode {
            79u8
        } else {
            91u8
        },
        letter as u8,
    ]);
}


} // verus!
