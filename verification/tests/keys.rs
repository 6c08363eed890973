use ht::command::{seqs_to_bytes, InputSeq};
use ht::keys::{encode_key, encode_keys, name_key};

fn standard(text: &str) -> InputSeq {
    InputSeq::Standard(text.to_string())
}

fn cursor(normal: &str, app: &str) -> InputSeq {
    InputSeq::Cursor(normal.to_string(), app.to_string())
}

fn wire(key: &str, app_mode: bool) -> Vec<u8> {
    seqs_to_bytes(&encode_keys(&vec![key.to_string()]), app_mode)
}

#[test]
fn control_names() {
    for name in ["C-@", "C-Space", "^@"] {
        assert_eq!(encode_key(name), standard("\x00"));
    }
    for name in ["C-[", "Escape", "^["] {
        assert_eq!(encode_key(name), standard("\x1b"));
    }
    for name in ["C-\\", "^\\"] {
        assert_eq!(encode_key(name), standard("\x1c"));
    }
    for name in ["C-]", "^]"] {
        assert_eq!(encode_key(name), standard("\x1d"));
    }
    for name in ["C-^", "C-/"] {
        assert_eq!(encode_key(name), standard("\x1e"));
    }
    for name in ["C--", "C-_"] {
        assert_eq!(encode_key(name), standard("\x1f"));
    }
    assert_eq!(encode_key("Tab"), standard("\x09"));
    assert_eq!(encode_key("Enter"), standard("\x0d"));
    assert_eq!(encode_key("Space"), standard(" "));
}

#[test]
fn cursor_keys_carry_both_encodings() {
    assert_eq!(encode_key("Left"), cursor("\x1b[D", "\x1bOD"));
    assert_eq!(encode_key("Right"), cursor("\x1b[C", "\x1bOC"));
    assert_eq!(encode_key("Up"), cursor("\x1b[A", "\x1bOA"));
    assert_eq!(encode_key("Down"), cursor("\x1b[B", "\x1bOB"));
    assert_eq!(encode_key("Home"), cursor("\x1b[H", "\x1bOH"));
    assert_eq!(encode_key("End"), cursor("\x1b[F", "\x1bOF"));
}

#[test]
fn function_keys() {
    let expected = [
        ("F1", "\x1bOP"),
        ("F2", "\x1bOQ"),
        ("F3", "\x1bOR"),
        ("F4", "\x1bOS"),
        ("F5", "\x1b[15~"),
        ("F6", "\x1b[17~"),
        ("F7", "\x1b[18~"),
        ("F8", "\x1b[19~"),
        ("F9", "\x1b[20~"),
        ("F10", "\x1b[21~"),
        ("F11", "\x1b[23~"),
        ("F12", "\x1b[24~"),
    ];
    for (name, seq) in expected {
        assert_eq!(encode_key(name), standard(seq), "{}", name);
    }
}

#[test]
fn page_keys() {
    assert_eq!(encode_key("PageUp"), standard("\x1b[5~"));
    assert_eq!(encode_key("PageDown"), standard("\x1b[6~"));
    assert_eq!(encode_key("C-PageUp"), standard("\x1b[5;5~"));
    assert_eq!(encode_key("S-PageDown"), standard("\x1b[6;2~"));
    assert_eq!(encode_key("C-A-S-PageDown"), standard("\x1b[6;8~"));
}

#[test]
fn modified_arrows() {
    let mods = [
        ("C-", '5'),
        ("S-", '2'),
        ("A-", '3'),
        ("C-S-", '6'),
        ("C-A-", '7'),
        ("S-A-", '4'),
        ("C-A-S-", '8'),
    ];
    let keys = [("Left", 'D'), ("Right", 'C'), ("Up", 'A'), ("Down", 'B')];
    for (prefix, n) in mods {
        for (key, letter) in keys {
            let name = format!("{}{}", prefix, key);
            let seq = format!("\x1b[1;{}{}", n, letter);
            assert_eq!(encode_key(&name), standard(&seq), "{}", name);
        }
    }
}

#[test]
fn modified_home_and_end() {
    assert_eq!(encode_key("C-Home"), standard("\x1b[1;5H"));
    assert_eq!(encode_key("S-Home"), standard("\x1b[1;2H"));
    assert_eq!(encode_key("A-End"), standard("\x1b[1;3F"));
    assert_eq!(encode_key("S-C-End"), standard("\x1b[1;6F"));
    assert_eq!(encode_key("A-C-S-Home"), standard("\x1b[1;8H"));
}

#[test]
fn modified_function_keys() {
    assert_eq!(encode_key("C-F1"), standard("\x1b[1;5P"));
    assert_eq!(encode_key("S-F2"), standard("\x1b[1;2Q"));
    assert_eq!(encode_key("A-F3"), standard("\x1b[1;3R"));
    assert_eq!(encode_key("C-S-F4"), standard("\x1b[1;6S"));
    assert_eq!(encode_key("C-F5"), standard("\x1b[15;5~"));
    assert_eq!(encode_key("S-F6"), standard("\x1b[17;2~"));
    assert_eq!(encode_key("A-F7"), standard("\x1b[18;3~"));
    assert_eq!(encode_key("C-A-F8"), standard("\x1b[19;7~"));
    assert_eq!(encode_key("S-A-F9"), standard("\x1b[20;4~"));
    assert_eq!(encode_key("C-S-F10"), standard("\x1b[21;6~"));
    assert_eq!(encode_key("C-A-S-F11"), standard("\x1b[23;8~"));
    assert_eq!(encode_key("S-C-A-F12"), standard("\x1b[24;8~"));
}

#[test]
fn modifier_permutations() {
    for name in [
        "C-A-S-Left",
        "C-S-A-Left",
        "A-C-S-Left",
        "S-C-A-Left",
        "A-S-C-Left",
        "S-A-C-Left",
    ] {
        assert_eq!(wire(name, false), b"\x1b[1;8D".to_vec(), "{}", name);
        assert_eq!(wire(name, true), b"\x1b[1;8D".to_vec(), "{}", name);
    }
    assert_eq!(encode_key("S-C-Up"), encode_key("C-S-Up"));
    assert_eq!(encode_key("A-C-F5"), encode_key("C-A-F5"));
    assert_eq!(encode_key("A-S-Home"), encode_key("S-A-Home"));
}

#[test]
fn control_letters() {
    assert_eq!(encode_key("C-a"), standard("\x01"));
    assert_eq!(encode_key("C-A"), standard("\x01"));
    assert_eq!(encode_key("^a"), standard("\x01"));
    assert_eq!(encode_key("^A"), standard("\x01"));
    assert_eq!(encode_key("C-c"), standard("\x03"));
    assert_eq!(encode_key("^c"), standard("\x03"));
    assert_eq!(encode_key("C-z"), standard("\x1a"));
    assert_eq!(encode_key("C-Z"), standard("\x1a"));
    assert_eq!(encode_key("^Z"), standard("\x1a"));
}

#[test]
fn alt_with_any_character() {
    assert_eq!(encode_key("A-x"), standard("\x1bx"));
    assert_eq!(encode_key("A-X"), standard("\x1bX"));
    assert_eq!(encode_key("A--"), standard("\x1b-"));
    assert_eq!(encode_key("A-1"), standard("\x1b1"));
    assert_eq!(encode_key("A-\u{e9}"), standard("\x1b\u{e9}"));
}

#[test]
fn other_names_stand_for_themselves() {
    for name in [
        "hello", "a", "", "C-", "C-1", "^1", "^^", "^", "C-C-Left", "S-S-Up", "C-Tab", "S-Enter",
        "left", "F13", "F0", "A-xy", "C-ab", "X-Left", "C-S-", "Left ", "-Left", "echo hi\n",
    ] {
        assert_eq!(encode_key(name), standard(name), "{:?}", name);
    }
}

#[test]
fn table_in_normal_mode() {
    let expected: [(&str, &[u8]); 20] = [
        ("C-Space", b"\x00"),
        ("Escape", b"\x1b"),
        ("Tab", b"\x09"),
        ("Enter", b"\x0d"),
        ("Space", b" "),
        ("Left", b"\x1b[D"),
        ("Right", b"\x1b[C"),
        ("Up", b"\x1b[A"),
        ("Down", b"\x1b[B"),
        ("Home", b"\x1b[H"),
        ("End", b"\x1b[F"),
        ("F1", b"\x1bOP"),
        ("F5", b"\x1b[15~"),
        ("F12", b"\x1b[24~"),
        ("PageUp", b"\x1b[5~"),
        ("PageDown", b"\x1b[6~"),
        ("C-Left", b"\x1b[1;5D"),
        ("C-Home", b"\x1b[1;5H"),
        ("C-a", b"\x01"),
        ("A-x", b"\x1bx"),
    ];
    for (name, bytes) in expected {
        assert_eq!(wire(name, false), bytes.to_vec(), "{}", name);
    }
}

#[test]
fn cursor_keys_in_application_mode() {
    let expected: [(&str, &[u8]); 6] = [
        ("Left", b"\x1bOD"),
        ("Right", b"\x1bOC"),
        ("Up", b"\x1bOA"),
        ("Down", b"\x1bOB"),
        ("Home", b"\x1bOH"),
        ("End", b"\x1bOF"),
    ];
    for (name, bytes) in expected {
        assert_eq!(wire(name, true), bytes.to_vec(), "{}", name);
    }
    assert_eq!(wire("F1", true), b"\x1bOP".to_vec());
    assert_eq!(wire("C-Left", true), b"\x1b[1;5D".to_vec());
    assert_eq!(wire("Enter", true), b"\x0d".to_vec());
}

#[test]
fn keys_are_encoded_in_order() {
    let keys = vec!["h".to_string(), "Left".to_string(), "C-c".to_string()];
    assert_eq!(
        encode_keys(&keys),
        vec![standard("h"), cursor("\x1b[D", "\x1bOD"), standard("\x03")]
    );
    assert_eq!(seqs_to_bytes(&encode_keys(&keys), false), b"h\x1b[D\x03".to_vec());
    assert_eq!(seqs_to_bytes(&encode_keys(&keys), true), b"h\x1bOD\x03".to_vec());
    assert_eq!(encode_keys(&Vec::new()), Vec::<InputSeq>::new());
}

#[test]
fn name_of_an_encoded_key_encodes_alike() {
    for name in [
        "Left", "Right", "Up", "Down", "Home", "End", "C-Left", "F1", "F7", "S-F7", "PageUp", "Tab",
        "C-Space", "C-a", "^Z", "A-x", "hello", "", "C-C-Left",
    ] {
        let seq = encode_key(name);
        assert_eq!(encode_key(&name_key(&seq)), seq, "{:?}", name);
    }
    assert_eq!(name_key(&cursor("\x1b[D", "\x1bOD")), "Left");
    assert_eq!(name_key(&cursor("\x1b[F", "\x1bOF")), "End");
    assert_eq!(name_key(&standard("abc")), "abc");
    assert_eq!(name_key(&cursor("xyz", "uvw")), "xyz");
}

#[test]
fn non_ascii_text_goes_out_as_utf8() {
    let seqs = vec![standard("h\u{e9}\u{65e5}")];
    assert_eq!(
        seqs_to_bytes(&seqs, false),
        vec![0x68, 0xc3, 0xa9, 0xe6, 0x97, 0xa5]
    );
}

#[test]
fn standard_sequences_are_joined_in_order() {
    let seqs = vec![standard("ab"), standard("c")];
    assert_eq!(seqs_to_bytes(&seqs, false), b"abc".to_vec());
    assert_eq!(seqs_to_bytes(&seqs, true), b"abc".to_vec());
    assert_eq!(seqs_to_bytes(&[], true), Vec::<u8>::new());
}
