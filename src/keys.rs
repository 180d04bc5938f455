//! The bytes a key press sends to the shell.

use vstd::prelude::*;
use vstd::string::*;

verus! {

/// The escape sequence or control byte sent for a named key, if it is one.
pub open spec fn named_key_bytes(key: Seq<char>) -> Option<Seq<u8>> {
    if key == "enter"@ {
        Some(seq![0x0Du8])
    } else if key == "tab"@ {
        Some(seq![0x09u8])
    } else if key == "backspace"@ {
        Some(seq![0x7Fu8])
    } else if key == "escape"@ {
        Some(seq![0x1Bu8])
    } else if key == "up"@ {
        Some(seq![0x1Bu8, 0x5Bu8, 0x41u8])
    } else if key == "down"@ {
        Some(seq![0x1Bu8, 0x5Bu8, 0x42u8])
    } else if key == "right"@ {
        Some(seq![0x1Bu8, 0x5Bu8, 0x43u8])
    } else if key == "left"@ {
        Some(seq![0x1Bu8, 0x5Bu8, 0x44u8])
    } else if key == "home"@ {
        Some(seq![0x1Bu8, 0x5Bu8, 0x48u8])
    } else if key == "end"@ {
        Some(seq![0x1Bu8, 0x5Bu8, 0x46u8])
    } else if key == "pageup"@ {
        Some(seq![0x1Bu8, 0x5Bu8, 0x35u8, 0x7Eu8])
    } else if key == "pagedown"@ {
        Some(seq![0x1Bu8, 0x5Bu8, 0x36u8, 0x7Eu8])
    } else if key == "delete"@ {
        Some(seq![0x1Bu8, 0x5Bu8, 0x33u8, 0x7Eu8])
    } else {
        None
    }
}

/// Whether `c` is an ASCII letter.
pub open spec fn is_ascii_letter(c: char) -> bool {
    ('a' <= c && c <= 'z') || ('A' <= c && c <= 'Z')
}

/// The control byte for a letter: 1 for `a` or `A`, up to 26.
pub open spec fn control_byte(c: char) -> u8 {
    if 'a' <= c && c <= 'z' {
        (c as u32 - 'a' as u32 + 1) as u8
    } else {
        (c as u32 - 'A' as u32 + 1) as u8
    }
}

/// The input for the key named `key`, pressed with Control or not: named
/// keys send their sequence; a single ASCII character is sent as itself, or
/// as its control byte when it is a letter pressed with Control; anything
/// else sends nothing.
pub open spec fn key_input(key: Seq<char>, control: bool) -> Option<Seq<u8>> {
    if named_key_bytes(key) is Some {
        named_key_bytes(key)
    } else if key.len() == 1 && (key[0] as u32) < 128 {
        if control && is_ascii_letter(key[0]) {
            Some(seq![control_byte(key[0])])
        } else {
            Some(seq![key[0] as u8])
        }
    } else {
        None
    }
}

fn same_text(a: &str, b: &str) -> (r: bool)
    ensures
        r == (a@ == b@),
{
    String::from_str(a) == String::from_str(b)
}

/// The bytes to send to the shell for the key named `key`, pressed with
/// Control or not; `None` for keys that send nothing.
pub fn key_to_input(key: &str, control: bool) -> (r: Option<Vec<u8>>)
    ensures
        match r {
            Some(v) => key_input(key@, control) == Some(v@),
            None => key_input(key@, control) is None,
        },
{
    let r: Option<Vec<u8>> = if same_text(key, "enter") {
        Some(vec![0x0Du8])
    } else if same_text(key, "tab") {
        Some(vec![0x09u8])
    } else if same_text(key, "backspace") {
        Some(vec![0x7Fu8])
    } else if same_text(key, "escape") {
        Some(vec![0x1Bu8])
    } else if same_text(key, "up") {
        Some(vec![0x1Bu8, 0x5Bu8, 0x41u8])
    } else if same_text(key, "down") {
        Some(vec![0x1Bu8, 0x5Bu8, 0x42u8])
    } else if same_text(key, "right") {
        Some(vec![0x1Bu8, 0x5Bu8, 0x43u8])
    } else if same_text(key, "left") {
        Some(vec![0x1Bu8, 0x5Bu8, 0x44u8])
    } else if same_text(key, "home") {
        Some(vec![0x1Bu8, 0x5Bu8, 0x48u8])
    } else if same_text(key, "end") {
        Some(vec![0x1Bu8, 0x5Bu8, 0x46u8])
    } else if same_text(key, "pageup") {
        Some(vec![0x1Bu8, 0x5Bu8, 0x35u8, 0x7Eu8])
    } else if same_text(key, "pagedown") {
        Some(vec![0x1Bu8, 0x5Bu8, 0x36u8, 0x7Eu8])
    } else if same_text(key, "delete") {
        Some(vec![0x1Bu8, 0x5Bu8, 0x33u8, 0x7Eu8])
    } else if key.unicode_len() == 1 && (key.get_char(0) as u32) < 128 {
        let c = key.get_char(0);
        if control && (('a' <= c && c <= 'z') || ('A' <= c && c <= 'Z')) {
            let b: u8 = if 'a' <= c && c <= 'z' {
                (c as u32 - 'a' as u32 + 1) as u8
            } else {
                (c as u32 - 'A' as u32 + 1) as u8
            };
            Some(vec![b])
        } else {
            Some(vec![c as u8])
        }
    } else {
        None
    };
    proof {
        if r is Some {
            assert(r->Some_0@ =~= key_input(key@, control)->Some_0);
        }
    }
    r
}

} // verus!
