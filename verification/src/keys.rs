//! Names of the keys that a mapping can inject, as the configuration spells them.

use vstd::prelude::*;

use crate::text::is_space;

verus! {

/// One target that a mapping can press: a virtual key code, or a mouse button.
#[derive(Clone, Copy, Debug, PartialEq, Eq, Structural)]
pub enum Key {
    Keyboard(u16),
    MouseLeft,
    MouseMiddle,
    MouseRight,
}

/// The configuration name of a virtual key code, where it has one.
pub open spec fn keyboard_name_spec(code: u16) -> Option<Seq<char>> {
    if code == 0x41 {
        Some("a"@)
    } else if code == 0x42 {
        Some("b"@)
    } else if code == 0x43 {
        Some("c"@)
    } else if code == 0x44 {
        Some("d"@)
    } else if code == 0x45 {
        Some("e"@)
    } else if code == 0x46 {
        Some("f"@)
    } else if code == 0x47 {
        Some("g"@)
    } else if code == 0x48 {
        Some("h"@)
    } else if code == 0x49 {
        Some("i"@)
    } else if code == 0x4a {
        Some("j"@)
    } else if code == 0x4b {
        Some("k"@)
    } else if code == 0x4c {
        Some("l"@)
    } else if code == 0x4d {
        Some("m"@)
    } else if code == 0x4e {
        Some("n"@)
    } else if code == 0x4f {
        Some("o"@)
    } else if code == 0x50 {
        Some("p"@)
    } else if code == 0x51 {
        Some("q"@)
    } else if code == 0x52 {
        Some("r"@)
    } else if code == 0x53 {
        Some("s"@)
    } else if code == 0x54 {
        Some("t"@)
    } else if code == 0x55 {
        Some("u"@)
    } else if code == 0x56 {
        Some("v"@)
    } else if code == 0x57 {
        Some("w"@)
    } else if code == 0x58 {
        Some("x"@)
    } else if code == 0x59 {
        Some("y"@)
    } else if code == 0x5a {
        Some("z"@)
    } else if code == 0x30 {
        Some("0"@)
    } else if code == 0x31 {
        Some("1"@)
    } else if code == 0x32 {
        Some("2"@)
    } else if code == 0x33 {
        Some("3"@)
    } else if code == 0x34 {
        Some("4"@)
    } else if code == 0x35 {
        Some("5"@)
    } else if code == 0x36 {
        Some("6"@)
    } else if code == 0x37 {
        Some("7"@)
    } else if code == 0x38 {
        Some("8"@)
    } else if code == 0x39 {
        Some("9"@)
    } else if code == 0xbd {
        Some("-"@)
    } else if code == 0xbb {
        Some("="@)
    } else if code == 0xdc {
        Some("\\"@)
    } else if code == 0xc0 {
        Some("`"@)
    } else if code == 0xdb {
        Some("["@)
    } else if code == 0xdd {
        Some("]"@)
    } else if code == 0xba {
        Some(";"@)
    } else if code == 0xde {
        Some("'"@)
    } else if code == 0xbc {
        Some(","@)
    } else if code == 0xbe {
        Some("."@)
    } else if code == 0xbf {
        Some("/"@)
    } else if code == 0x1b {
        Some("esc"@)
    } else if code == 0x09 {
        Some("tab"@)
    } else if code == 0x08 {
        Some("backspace"@)
    } else if code == 0x0d {
        Some("enter"@)
    } else if code == 0x20 {
        Some("space"@)
    } else if code == 0x24 {
        Some("home"@)
    } else if code == 0x23 {
        Some("end"@)
    } else if code == 0x21 {
        Some("pageup"@)
    } else if code == 0x22 {
        Some("pagedown"@)
    } else if code == 0x2d {
        Some("insert"@)
    } else if code == 0x2e {
        Some("delete"@)
    } else if code == 0x70 {
        Some("f1"@)
    } else if code == 0x71 {
        Some("f2"@)
    } else if code == 0x72 {
        Some("f3"@)
    } else if code == 0x73 {
        Some("f4"@)
    } else if code == 0x74 {
        Some("f5"@)
    } else if code == 0x75 {
        Some("f6"@)
    } else if code == 0x76 {
        Some("f7"@)
    } else if code == 0x77 {
        Some("f8"@)
    } else if code == 0x78 {
        Some("f9"@)
    } else if code == 0x79 {
        Some("f10"@)
    } else if code == 0x7a {
        Some("f11"@)
    } else if code == 0x7b {
        Some("f12"@)
    } else if code == 0x26 {
        Some("up"@)
    } else if code == 0x28 {
        Some("down"@)
    } else if code == 0x25 {
        Some("left"@)
    } else if code == 0x27 {
        Some("right"@)
    } else if code == 0x60 {
        Some("num0"@)
    } else if code == 0x61 {
        Some("num1"@)
    } else if code == 0x62 {
        Some("num2"@)
    } else if code == 0x63 {
        Some("num3"@)
    } else if code == 0x64 {
        Some("num4"@)
    } else if code == 0x65 {
        Some("num5"@)
    } else if code == 0x66 {
        Some("num6"@)
    } else if code == 0x67 {
        Some("num7"@)
    } else if code == 0x68 {
        Some("num8"@)
    } else if code == 0x69 {
        Some("num9"@)
    } else if code == 0x6b {
        Some("numplus"@)
    } else if code == 0x6d {
        Some("numminus"@)
    } else if code == 0x6a {
        Some("nummultiply"@)
    } else if code == 0x6f {
        Some("numdivide"@)
    } else if code == 0x6e {
        Some("numdot"@)
    } else if code == 0xa2 {
        Some("ctrl"@)
    } else if code == 0xa0 {
        Some("shift"@)
    } else if code == 0xa4 {
        Some("alt"@)
    } else if code == 0x5b {
        Some("meta"@)
    } else {
        None
    }
}

/// The virtual key code that a configuration name stands for, where it is one.
pub open spec fn keyboard_code_spec(name: Seq<char>) -> Option<u16> {
    if name == "a"@ {
        Some(0x41u16)
    } else if name == "b"@ {
        Some(0x42u16)
    } else if name == "c"@ {
        Some(0x43u16)
    } else if name == "d"@ {
        Some(0x44u16)
    } else if name == "e"@ {
        Some(0x45u16)
    } else if name == "f"@ {
        Some(0x46u16)
    } else if name == "g"@ {
        Some(0x47u16)
    } else if name == "h"@ {
        Some(0x48u16)
    } else if name == "i"@ {
        Some(0x49u16)
    } else if name == "j"@ {
        Some(0x4au16)
    } else if name == "k"@ {
        Some(0x4bu16)
    } else if name == "l"@ {
        Some(0x4cu16)
    } else if name == "m"@ {
        Some(0x4du16)
    } else if name == "n"@ {
        Some(0x4eu16)
    } else if name == "o"@ {
        Some(0x4fu16)
    } else if name == "p"@ {
        Some(0x50u16)
    } else if name == "q"@ {
        Some(0x51u16)
    } else if name == "r"@ {
        Some(0x52u16)
    } else if name == "s"@ {
        Some(0x53u16)
    } else if name == "t"@ {
        Some(0x54u16)
    } else if name == "u"@ {
        Some(0x55u16)
    } else if name == "v"@ {
        Some(0x56u16)
    } else if name == "w"@ {
        Some(0x57u16)
    } else if name == "x"@ {
        Some(0x58u16)
    } else if name == "y"@ {
        Some(0x59u16)
    } else if name == "z"@ {
        Some(0x5au16)
    } else if name == "0"@ {
        Some(0x30u16)
    } else if name == "1"@ {
        Some(0x31u16)
    } else if name == "2"@ {
        Some(0x32u16)
    } else if name == "3"@ {
        Some(0x33u16)
    } else if name == "4"@ {
        Some(0x34u16)
    } else if name == "5"@ {
        Some(0x35u16)
    } else if name == "6"@ {
        Some(0x36u16)
    } else if name == "7"@ {
        Some(0x37u16)
    } else if name == "8"@ {
        Some(0x38u16)
    } else if name == "9"@ {
        Some(0x39u16)
    } else if name == "-"@ {
        Some(0xbdu16)
    } else if name == "="@ {
        Some(0xbbu16)
    } else if name == "\\"@ {
        Some(0xdcu16)
    } else if name == "`"@ {
        Some(0xc0u16)
    } else if name == "["@ {
        Some(0xdbu16)
    } else if name == "]"@ {
        Some(0xddu16)
    } else if name == ";"@ {
        Some(0xbau16)
    } else if name == "'"@ {
        Some(0xdeu16)
    } else if name == ","@ {
        Some(0xbcu16)
    } else if name == "."@ {
        Some(0xbeu16)
    } else if name == "/"@ {
        Some(0xbfu16)
    } else if name == "esc"@ {
        Some(0x1bu16)
    } else if name == "tab"@ {
        Some(0x09u16)
    } else if name == "backspace"@ {
        Some(0x08u16)
    } else if name == "enter"@ {
        Some(0x0du16)
    } else if name == "space"@ {
        Some(0x20u16)
    } else if name == "home"@ {
        Some(0x24u16)
    } else if name == "end"@ {
        Some(0x23u16)
    } else if name == "pageup"@ {
        Some(0x21u16)
    } else if name == "pagedown"@ {
        Some(0x22u16)
    } else if name == "insert"@ {
        Some(0x2du16)
    } else if name == "delete"@ {
        Some(0x2eu16)
    } else if name == "f1"@ {
        Some(0x70u16)
    } else if name == "f2"@ {
        Some(0x71u16)
    } else if name == "f3"@ {
        Some(0x72u16)
    } else if name == "f4"@ {
        Some(0x73u16)
    } else if name == "f5"@ {
        Some(0x74u16)
    } else if name == "f6"@ {
        Some(0x75u16)
    } else if name == "f7"@ {
        Some(0x76u16)
    } else if name == "f8"@ {
        Some(0x77u16)
    } else if name == "f9"@ {
        Some(0x78u16)
    } else if name == "f10"@ {
        Some(0x79u16)
    } else if name == "f11"@ {
        Some(0x7au16)
    } else if name == "f12"@ {
        Some(0x7bu16)
    } else if name == "up"@ {
        Some(0x26u16)
    } else if name == "down"@ {
        Some(0x28u16)
    } else if name == "left"@ {
        Some(0x25u16)
    } else if name == "right"@ {
        Some(0x27u16)
    } else if name == "num0"@ {
        Some(0x60u16)
    } else if name == "num1"@ {
        Some(0x61u16)
    } else if name == "num2"@ {
        Some(0x62u16)
    } else if name == "num3"@ {
        Some(0x63u16)
    } else if name == "num4"@ {
        Some(0x64u16)
    } else if name == "num5"@ {
        Some(0x65u16)
    } else if name == "num6"@ {
        Some(0x66u16)
    } else if name == "num7"@ {
        Some(0x67u16)
    } else if name == "num8"@ {
        Some(0x68u16)
    } else if name == "num9"@ {
        Some(0x69u16)
    } else if name == "numplus"@ {
        Some(0x6bu16)
    } else if name == "numminus"@ {
        Some(0x6du16)
    } else if name == "nummultiply"@ {
        Some(0x6au16)
    } else if name == "numdivide"@ {
        Some(0x6fu16)
    } else if name == "numdot"@ {
        Some(0x6eu16)
    } else if name == "ctrl"@ {
        Some(0xa2u16)
    } else if name == "shift"@ {
        Some(0xa0u16)
    } else if name == "alt"@ {
        Some(0xa4u16)
    } else if name == "meta"@ {
        Some(0x5bu16)
    } else {
        None
    }
}

/// The mouse button that a configuration name stands for, where it is one.
pub open spec fn mouse_key_spec(name: Seq<char>) -> Option<Key> {
    if name == "mouseLeft"@ {
        Some(Key::MouseLeft)
    } else if name == "mouseMiddle"@ {
        Some(Key::MouseMiddle)
    } else if name == "mouseRight"@ {
        Some(Key::MouseRight)
    } else {
        None
    }
}

/// The name under which a key is written; a code without a name is written `none`.
pub open spec fn key_name_spec(key: Key) -> Seq<char> {
    match key {
        Key::Keyboard(code) => match keyboard_name_spec(code) {
            Some(name) => name,
            None => "none"@,
        },
        Key::MouseLeft => "mouseLeft"@,
        Key::MouseMiddle => "mouseMiddle"@,
        Key::MouseRight => "mouseRight"@,
    }
}

/// The key that a name stands for; keyboard names are looked up before mouse names.
pub open spec fn key_of_name(name: Seq<char>) -> Option<Key> {
    match keyboard_code_spec(name) {
        Some(code) => Some(Key::Keyboard(code)),
        None => mouse_key_spec(name),
    }
}

/// A key that the configuration can spell.
pub open spec fn is_named(key: Key) -> bool {
    match key {
        Key::Keyboard(code) => keyboard_name_spec(code) is Some,
        _ => true,
    }
}

/// A name that survives being joined with `+`, split and trimmed again, and
/// that is none of the words that stand alone in a mapping.
pub open spec fn plain_name(name: Seq<char>) -> bool {
    &&& name.len() > 0
    &&& !is_space(name[0])
    &&& !is_space(name.last())
    &&& !name.contains('+')
    &&& name != "switchSchema"@
    &&& name != "fallback"@
    &&& name != "none"@
}

/// Lengths of the names, and the characters that tell names of equal length apart.
proof fn lemma_name_literals()
    ensures
        "a"@.len() == 1,
        "b"@.len() == 1,
        "c"@.len() == 1,
        "d"@.len() == 1,
        "e"@.len() == 1,
        "f"@.len() == 1,
        "g"@.len() == 1,
        "h"@.len() == 1,
        "i"@.len() == 1,
        "j"@.len() == 1,
        "k"@.len() == 1,
        "l"@.len() == 1,
        "m"@.len() == 1,
        "n"@.len() == 1,
        "o"@.len() == 1,
        "p"@.len() == 1,
        "q"@.len() == 1,
        "r"@.len() == 1,
        "s"@.len() == 1,
        "t"@.len() == 1,
        "u"@.len() == 1,
        "v"@.len() == 1,
        "w"@.len() == 1,
        "x"@.len() == 1,
        "y"@.len() == 1,
        "z"@.len() == 1,
        "0"@.len() == 1,
        "1"@.len() == 1,
        "2"@.len() == 1,
        "3"@.len() == 1,
        "4"@.len() == 1,
        "5"@.len() == 1,
        "6"@.len() == 1,
        "7"@.len() == 1,
        "8"@.len() == 1,
        "9"@.len() == 1,
        "-"@.len() == 1,
        "="@.len() == 1,
        "\\"@.len() == 1,
        "`"@.len() == 1,
        "["@.len() == 1,
        "]"@.len() == 1,
        ";"@.len() == 1,
        "'"@.len() == 1,
        ","@.len() == 1,
        "."@.len() == 1,
        "/"@.len() == 1,
        "esc"@.len() == 3,
        "tab"@.len() == 3,
        "backspace"@.len() == 9,
        "enter"@.len() == 5,
        "space"@.len() == 5,
        "home"@.len() == 4,
        "end"@.len() == 3,
        "pageup"@.len() == 6,
        "pagedown"@.len() == 8,
        "insert"@.len() == 6,
        "delete"@.len() == 6,
        "f1"@.len() == 2,
        "f2"@.len() == 2,
        "f3"@.len() == 2,
        "f4"@.len() == 2,
        "f5"@.len() == 2,
        "f6"@.len() == 2,
        "f7"@.len() == 2,
        "f8"@.len() == 2,
        "f9"@.len() == 2,
        "f10"@.len() == 3,
        "f11"@.len() == 3,
        "f12"@.len() == 3,
        "up"@.len() == 2,
        "down"@.len() == 4,
        "left"@.len() == 4,
        "right"@.len() == 5,
        "num0"@.len() == 4,
        "num1"@.len() == 4,
        "num2"@.len() == 4,
        "num3"@.len() == 4,
        "num4"@.len() == 4,
        "num5"@.len() == 4,
        "num6"@.len() == 4,
        "num7"@.len() == 4,
        "num8"@.len() == 4,
        "num9"@.len() == 4,
        "numplus"@.len() == 7,
        "numminus"@.len() == 8,
        "nummultiply"@.len() == 11,
        "numdivide"@.len() == 9,
        "numdot"@.len() == 6,
        "ctrl"@.len() == 4,
        "shift"@.len() == 5,
        "alt"@.len() == 3,
        "meta"@.len() == 4,
        "mouseLeft"@.len() == 9,
        "mouseMiddle"@.len() == 11,
        "mouseRight"@.len() == 10,
        "switchSchema"@.len() == 12,
        "fallback"@.len() == 8,
        "none"@.len() == 4,
        "a"@[0] == 'a',
        "b"@[0] == 'b',
        "c"@[0] == 'c',
        "d"@[0] == 'd',
        "e"@[0] == 'e',
        "f"@[0] == 'f',
        "g"@[0] == 'g',
        "h"@[0] == 'h',
        "i"@[0] == 'i',
        "j"@[0] == 'j',
        "k"@[0] == 'k',
        "l"@[0] == 'l',
        "m"@[0] == 'm',
        "n"@[0] == 'n',
        "o"@[0] == 'o',
        "p"@[0] == 'p',
        "q"@[0] == 'q',
        "r"@[0] == 'r',
        "s"@[0] == 's',
        "t"@[0] == 't',
        "u"@[0] == 'u',
        "v"@[0] == 'v',
        "w"@[0] == 'w',
        "x"@[0] == 'x',
        "y"@[0] == 'y',
        "z"@[0] == 'z',
        "0"@[0] == '0',
        "1"@[0] == '1',
        "2"@[0] == '2',
        "3"@[0] == '3',
        "4"@[0] == '4',
        "5"@[0] == '5',
        "6"@[0] == '6',
        "7"@[0] == '7',
        "8"@[0] == '8',
        "9"@[0] == '9',
        "-"@[0] == '-',
        "="@[0] == '=',
        "\\"@[0] == '\\',
        "`"@[0] == '`',
        "["@[0] == '[',
        "]"@[0] == ']',
        ";"@[0] == ';',
        "'"@[0] == '\'',
        ","@[0] == ',',
        "."@[0] == '.',
        "/"@[0] == '/',
        "esc"@[0] == 'e',
        "esc"@[1] == 's',
        "tab"@[0] == 't',
        "backspace"@[0] == 'b',
        "enter"@[0] == 'e',
        "space"@[0] == 's',
        "space"@[1] == 'p',
        "home"@[0] == 'h',
        "end"@[0] == 'e',
        "end"@[1] == 'n',
        "pageup"@[0] == 'p',
        "pagedown"@[0] == 'p',
        "insert"@[0] == 'i',
        "delete"@[0] == 'd',
        "f1"@[0] == 'f',
        "f1"@[1] == '1',
        "f2"@[0] == 'f',
        "f2"@[1] == '2',
        "f3"@[0] == 'f',
        "f3"@[1] == '3',
        "f4"@[0] == 'f',
        "f4"@[1] == '4',
        "f5"@[0] == 'f',
        "f5"@[1] == '5',
        "f6"@[0] == 'f',
        "f6"@[1] == '6',
        "f7"@[0] == 'f',
        "f7"@[1] == '7',
        "f8"@[0] == 'f',
        "f8"@[1] == '8',
        "f9"@[0] == 'f',
        "f9"@[1] == '9',
        "f10"@[0] == 'f',
        "f10"@[2] == '0',
        "f11"@[0] == 'f',
        "f11"@[2] == '1',
        "f12"@[0] == 'f',
        "f12"@[2] == '2',
        "up"@[0] == 'u',
        "down"@[0] == 'd',
        "left"@[0] == 'l',
        "right"@[0] == 'r',
        "num0"@[0] == 'n',
        "num0"@[1] == 'u',
        "num0"@[3] == '0',
        "num1"@[0] == 'n',
        "num1"@[1] == 'u',
        "num1"@[3] == '1',
        "num2"@[0] == 'n',
        "num2"@[1] == 'u',
        "num2"@[3] == '2',
        "num3"@[0] == 'n',
        "num3"@[1] == 'u',
        "num3"@[3] == '3',
        "num4"@[0] == 'n',
        "num4"@[1] == 'u',
        "num4"@[3] == '4',
        "num5"@[0] == 'n',
        "num5"@[1] == 'u',
        "num5"@[3] == '5',
        "num6"@[0] == 'n',
        "num6"@[1] == 'u',
        "num6"@[3] == '6',
        "num7"@[0] == 'n',
        "num7"@[1] == 'u',
        "num7"@[3] == '7',
        "num8"@[0] == 'n',
        "num8"@[1] == 'u',
        "num8"@[3] == '8',
        "num9"@[0] == 'n',
        "num9"@[1] == 'u',
        "num9"@[3] == '9',
        "numminus"@[0] == 'n',
        "nummultiply"@[0] == 'n',
        "numdivide"@[0] == 'n',
        "numdot"@[0] == 'n',
        "ctrl"@[0] == 'c',
        "shift"@[0] == 's',
        "shift"@[1] == 'h',
        "alt"@[0] == 'a',
        "meta"@[0] == 'm',
        "mouseLeft"@[0] == 'm',
        "mouseMiddle"@[0] == 'm',
        "fallback"@[0] == 'f',
        "none"@[0] == 'n',
        "none"@[1] == 'o',
{
    reveal_strlit("a");
    reveal_strlit("b");
    reveal_strlit("c");
    reveal_strlit("d");
    reveal_strlit("e");
    reveal_strlit("f");
    reveal_strlit("g");
    reveal_strlit("h");
    reveal_strlit("i");
    reveal_strlit("j");
    reveal_strlit("k");
    reveal_strlit("l");
    reveal_strlit("m");
    reveal_strlit("n");
    reveal_strlit("o");
    reveal_strlit("p");
    reveal_strlit("q");
    reveal_strlit("r");
    reveal_strlit("s");
    reveal_strlit("t");
    reveal_strlit("u");
    reveal_strlit("v");
    reveal_strlit("w");
    reveal_strlit("x");
    reveal_strlit("y");
    reveal_strlit("z");
    reveal_strlit("0");
    reveal_strlit("1");
    reveal_strlit("2");
    reveal_strlit("3");
    reveal_strlit("4");
    reveal_strlit("5");
    reveal_strlit("6");
    reveal_strlit("7");
    reveal_strlit("8");
    reveal_strlit("9");
    reveal_strlit("-");
    reveal_strlit("=");
    reveal_strlit("\\");
    reveal_strlit("`");
    reveal_strlit("[");
    reveal_strlit("]");
    reveal_strlit(";");
    reveal_strlit("'");
    reveal_strlit(",");
    reveal_strlit(".");
    reveal_strlit("/");
    reveal_strlit("esc");
    reveal_strlit("tab");
    reveal_strlit("backspace");
    reveal_strlit("enter");
    reveal_strlit("space");
    reveal_strlit("home");
    reveal_strlit("end");
    reveal_strlit("pageup");
    reveal_strlit("pagedown");
    reveal_strlit("insert");
    reveal_strlit("delete");
    reveal_strlit("f1");
    reveal_strlit("f2");
    reveal_strlit("f3");
    reveal_strlit("f4");
    reveal_strlit("f5");
    reveal_strlit("f6");
    reveal_strlit("f7");
    reveal_strlit("f8");
    reveal_strlit("f9");
    reveal_strlit("f10");
    reveal_strlit("f11");
    reveal_strlit("f12");
    reveal_strlit("up");
    reveal_strlit("down");
    reveal_strlit("left");
    reveal_strlit("right");
    reveal_strlit("num0");
    reveal_strlit("num1");
    reveal_strlit("num2");
    reveal_strlit("num3");
    reveal_strlit("num4");
    reveal_strlit("num5");
    reveal_strlit("num6");
    reveal_strlit("num7");
    reveal_strlit("num8");
    reveal_strlit("num9");
    reveal_strlit("numplus");
    reveal_strlit("numminus");
    reveal_strlit("nummultiply");
    reveal_strlit("numdivide");
    reveal_strlit("numdot");
    reveal_strlit("ctrl");
    reveal_strlit("shift");
    reveal_strlit("alt");
    reveal_strlit("meta");
    reveal_strlit("mouseLeft");
    reveal_strlit("mouseMiddle");
    reveal_strlit("mouseRight");
    reveal_strlit("switchSchema");
    reveal_strlit("fallback");
    reveal_strlit("none");
}

/// The name of each named virtual key code leads back to it.
#[verifier::rlimit(100)]
proof fn lemma_keyboard_name(code: u16)
    requires
        keyboard_name_spec(code) is Some,
    ensures
        keyboard_code_spec(keyboard_name_spec(code)->0) == Some(code),
{
    lemma_name_literals();
    if code == 0x41 {
    } else if code == 0x42 {
    } else if code == 0x43 {
    } else if code == 0x44 {
    } else if code == 0x45 {
    } else if code == 0x46 {
    } else if code == 0x47 {
    } else if code == 0x48 {
    } else if code == 0x49 {
    } else if code == 0x4a {
    } else if code == 0x4b {
    } else if code == 0x4c {
    } else if code == 0x4d {
    } else if code == 0x4e {
    } else if code == 0x4f {
    } else if code == 0x50 {
    } else if code == 0x51 {
    } else if code == 0x52 {
    } else if code == 0x53 {
    } else if code == 0x54 {
    } else if code == 0x55 {
    } else if code == 0x56 {
    } else if code == 0x57 {
    } else if code == 0x58 {
    } else if code == 0x59 {
    } else if code == 0x5a {
    } else if code == 0x30 {
    } else if code == 0x31 {
    } else if code == 0x32 {
    } else if code == 0x33 {
    } else if code == 0x34 {
    } else if code == 0x35 {
    } else if code == 0x36 {
    } else if code == 0x37 {
    } else if code == 0x38 {
    } else if code == 0x39 {
    } else if code == 0xbd {
    } else if code == 0xbb {
    } else if code == 0xdc {
    } else if code == 0xc0 {
    } else if code == 0xdb {
    } else if code == 0xdd {
    } else if code == 0xba {
    } else if code == 0xde {
    } else if code == 0xbc {
    } else if code == 0xbe {
    } else if code == 0xbf {
    } else if code == 0x1b {
    } else if code == 0x09 {
    } else if code == 0x08 {
    } else if code == 0x0d {
    } else if code == 0x20 {
    } else if code == 0x24 {
    } else if code == 0x23 {
    } else if code == 0x21 {
    } else if code == 0x22 {
    } else if code == 0x2d {
    } else if code == 0x2e {
    } else if code == 0x70 {
    } else if code == 0x71 {
    } else if code == 0x72 {
    } else if code == 0x73 {
    } else if code == 0x74 {
    } else if code == 0x75 {
    } else if code == 0x76 {
    } else if code == 0x77 {
    } else if code == 0x78 {
    } else if code == 0x79 {
    } else if code == 0x7a {
    } else if code == 0x7b {
    } else if code == 0x26 {
    } else if code == 0x28 {
    } else if code == 0x25 {
    } else if code == 0x27 {
    } else if code == 0x60 {
    } else if code == 0x61 {
    } else if code == 0x62 {
    } else if code == 0x63 {
    } else if code == 0x64 {
    } else if code == 0x65 {
    } else if code == 0x66 {
    } else if code == 0x67 {
    } else if code == 0x68 {
    } else if code == 0x69 {
    } else if code == 0x6b {
    } else if code == 0x6d {
    } else if code == 0x6a {
    } else if code == 0x6f {
    } else if code == 0x6e {
    } else if code == 0xa2 {
    } else if code == 0xa0 {
    } else if code == 0xa4 {
    } else if code == 0x5b {
    }
}

/// The name of each named virtual key code is plain.
#[verifier::rlimit(100)]
proof fn lemma_keyboard_name_plain(code: u16)
    requires
        keyboard_name_spec(code) is Some,
    ensures
        plain_name(keyboard_name_spec(code)->0),
{
    lemma_name_literals();
    reveal_strlit("a");
    reveal_strlit("b");
    reveal_strlit("c");
    reveal_strlit("d");
    reveal_strlit("e");
    reveal_strlit("f");
    reveal_strlit("g");
    reveal_strlit("h");
    reveal_strlit("i");
    reveal_strlit("j");
    reveal_strlit("k");
    reveal_strlit("l");
    reveal_strlit("m");
    reveal_strlit("n");
    reveal_strlit("o");
    reveal_strlit("p");
    reveal_strlit("q");
    reveal_strlit("r");
    reveal_strlit("s");
    reveal_strlit("t");
    reveal_strlit("u");
    reveal_strlit("v");
    reveal_strlit("w");
    reveal_strlit("x");
    reveal_strlit("y");
    reveal_strlit("z");
    reveal_strlit("0");
    reveal_strlit("1");
    reveal_strlit("2");
    reveal_strlit("3");
    reveal_strlit("4");
    reveal_strlit("5");
    reveal_strlit("6");
    reveal_strlit("7");
    reveal_strlit("8");
    reveal_strlit("9");
    reveal_strlit("-");
    reveal_strlit("=");
    reveal_strlit("\\");
    reveal_strlit("`");
    reveal_strlit("[");
    reveal_strlit("]");
    reveal_strlit(";");
    reveal_strlit("'");
    reveal_strlit(",");
    reveal_strlit(".");
    reveal_strlit("/");
    reveal_strlit("esc");
    reveal_strlit("tab");
    reveal_strlit("backspace");
    reveal_strlit("enter");
    reveal_strlit("space");
    reveal_strlit("home");
    reveal_strlit("end");
    reveal_strlit("pageup");
    reveal_strlit("pagedown");
    reveal_strlit("insert");
    reveal_strlit("delete");
    reveal_strlit("f1");
    reveal_strlit("f2");
    reveal_strlit("f3");
    reveal_strlit("f4");
    reveal_strlit("f5");
    reveal_strlit("f6");
    reveal_strlit("f7");
    reveal_strlit("f8");
    reveal_strlit("f9");
    reveal_strlit("f10");
    reveal_strlit("f11");
    reveal_strlit("f12");
    reveal_strlit("up");
    reveal_strlit("down");
    reveal_strlit("left");
    reveal_strlit("right");
    reveal_strlit("num0");
    reveal_strlit("num1");
    reveal_strlit("num2");
    reveal_strlit("num3");
    reveal_strlit("num4");
    reveal_strlit("num5");
    reveal_strlit("num6");
    reveal_strlit("num7");
    reveal_strlit("num8");
    reveal_strlit("num9");
    reveal_strlit("numplus");
    reveal_strlit("numminus");
    reveal_strlit("nummultiply");
    reveal_strlit("numdivide");
    reveal_strlit("numdot");
    reveal_strlit("ctrl");
    reveal_strlit("shift");
    reveal_strlit("alt");
    reveal_strlit("meta");
    reveal_strlit("mouseLeft");
    reveal_strlit("mouseMiddle");
    reveal_strlit("mouseRight");
    reveal_strlit("switchSchema");
    reveal_strlit("fallback");
    reveal_strlit("none");
    if code == 0x41 {
    } else if code == 0x42 {
    } else if code == 0x43 {
    } else if code == 0x44 {
    } else if code == 0x45 {
    } else if code == 0x46 {
    } else if code == 0x47 {
    } else if code == 0x48 {
    } else if code == 0x49 {
    } else if code == 0x4a {
    } else if code == 0x4b {
    } else if code == 0x4c {
    } else if code == 0x4d {
    } else if code == 0x4e {
    } else if code == 0x4f {
    } else if code == 0x50 {
    } else if code == 0x51 {
    } else if code == 0x52 {
    } else if code == 0x53 {
    } else if code == 0x54 {
    } else if code == 0x55 {
    } else if code == 0x56 {
    } else if code == 0x57 {
    } else if code == 0x58 {
    } else if code == 0x59 {
    } else if code == 0x5a {
    } else if code == 0x30 {
    } else if code == 0x31 {
    } else if code == 0x32 {
    } else if code == 0x33 {
    } else if code == 0x34 {
    } else if code == 0x35 {
    } else if code == 0x36 {
    } else if code == 0x37 {
    } else if code == 0x38 {
    } else if code == 0x39 {
    } else if code == 0xbd {
    } else if code == 0xbb {
    } else if code == 0xdc {
    } else if code == 0xc0 {
    } else if code == 0xdb {
    } else if code == 0xdd {
    } else if code == 0xba {
    } else if code == 0xde {
    } else if code == 0xbc {
    } else if code == 0xbe {
    } else if code == 0xbf {
    } else if code == 0x1b {
    } else if code == 0x09 {
    } else if code == 0x08 {
    } else if code == 0x0d {
    } else if code == 0x20 {
    } else if code == 0x24 {
    } else if code == 0x23 {
    } else if code == 0x21 {
    } else if code == 0x22 {
    } else if code == 0x2d {
    } else if code == 0x2e {
    } else if code == 0x70 {
    } else if code == 0x71 {
    } else if code == 0x72 {
    } else if code == 0x73 {
    } else if code == 0x74 {
    } else if code == 0x75 {
    } else if code == 0x76 {
    } else if code == 0x77 {
    } else if code == 0x78 {
    } else if code == 0x79 {
    } else if code == 0x7a {
    } else if code == 0x7b {
    } else if code == 0x26 {
    } else if code == 0x28 {
    } else if code == 0x25 {
    } else if code == 0x27 {
    } else if code == 0x60 {
    } else if code == 0x61 {
    } else if code == 0x62 {
    } else if code == 0x63 {
    } else if code == 0x64 {
    } else if code == 0x65 {
    } else if code == 0x66 {
    } else if code == 0x67 {
    } else if code == 0x68 {
    } else if code == 0x69 {
    } else if code == 0x6b {
    } else if code == 0x6d {
    } else if code == 0x6a {
    } else if code == 0x6f {
    } else if code == 0x6e {
    } else if code == 0xa2 {
    } else if code == 0xa0 {
    } else if code == 0xa4 {
    } else if code == 0x5b {
    }
}

/// The name table is a bijection between the named keys and their names,
/// and every name is plain.
pub proof fn lemma_key_names()
    ensures
        forall|key: Key| #[trigger] is_named(key) ==> key_of_name(key_name_spec(key)) == Some(key),
        forall|key: Key| #[trigger] is_named(key) ==> plain_name(key_name_spec(key)),
        forall|name: Seq<char>| #[trigger] key_of_name(name) matches Some(key) ==> is_named(key)
            && key_name_spec(key) == name,
{
    lemma_name_literals();
    reveal_strlit("mouseLeft");
    reveal_strlit("mouseMiddle");
    reveal_strlit("mouseRight");
    reveal_strlit("switchSchema");
    reveal_strlit("fallback");
    reveal_strlit("none");
    assert forall|key: Key| #[trigger] is_named(key) implies key_of_name(key_name_spec(key)) == Some(key)
        && plain_name(key_name_spec(key)) by {
        if let Key::Keyboard(code) = key {
            lemma_keyboard_name(code);
            lemma_keyboard_name_plain(code);
        }
    }

}

/// The configuration name of a virtual key code, where it has one.
pub fn keyboard_name(code: u16) -> (r: Option<&'static str>)
    ensures
        match r {
            Some(name) => keyboard_name_spec(code) == Some(name@),
            None => keyboard_name_spec(code) is None,
        },
{
    match code {
        0x41 => Some("a"),
        0x42 => Some("b"),
        0x43 => Some("c"),
        0x44 => Some("d"),
        0x45 => Some("e"),
        0x46 => Some("f"),
        0x47 => Some("g"),
        0x48 => Some("h"),
        0x49 => Some("i"),
        0x4a => Some("j"),
        0x4b => Some("k"),
        0x4c => Some("l"),
        0x4d => Some("m"),
        0x4e => Some("n"),
        0x4f => Some("o"),
        0x50 => Some("p"),
        0x51 => Some("q"),
        0x52 => Some("r"),
        0x53 => Some("s"),
        0x54 => Some("t"),
        0x55 => Some("u"),
        0x56 => Some("v"),
        0x57 => Some("w"),
        0x58 => Some("x"),
        0x59 => Some("y"),
        0x5a => Some("z"),
        0x30 => Some("0"),
        0x31 => Some("1"),
        0x32 => Some("2"),
        0x33 => Some("3"),
        0x34 => Some("4"),
        0x35 => Some("5"),
        0x36 => Some("6"),
        0x37 => Some("7"),
        0x38 => Some("8"),
        0x39 => Some("9"),
        0xbd => Some("-"),
        0xbb => Some("="),
        0xdc => Some("\\"),
        0xc0 => Some("`"),
        0xdb => Some("["),
        0xdd => Some("]"),
        0xba => Some(";"),
        0xde => Some("'"),
        0xbc => Some(","),
        0xbe => Some("."),
        0xbf => Some("/"),
        0x1b => Some("esc"),
        0x09 => Some("tab"),
        0x08 => Some("backspace"),
        0x0d => Some("enter"),
        0x20 => Some("space"),
        0x24 => Some("home"),
        0x23 => Some("end"),
        0x21 => Some("pageup"),
        0x22 => Some("pagedown"),
        0x2d => Some("insert"),
        0x2e => Some("delete"),
        0x70 => Some("f1"),
        0x71 => Some("f2"),
        0x72 => Some("f3"),
        0x73 => Some("f4"),
        0x74 => Some("f5"),
        0x75 => Some("f6"),
        0x76 => Some("f7"),
        0x77 => Some("f8"),
        0x78 => Some("f9"),
        0x79 => Some("f10"),
        0x7a => Some("f11"),
        0x7b => Some("f12"),
        0x26 => Some("up"),
        0x28 => Some("down"),
        0x25 => Some("left"),
        0x27 => Some("right"),
        0x60 => Some("num0"),
        0x61 => Some("num1"),
        0x62 => Some("num2"),
        0x63 => Some("num3"),
        0x64 => Some("num4"),
        0x65 => Some("num5"),
        0x66 => Some("num6"),
        0x67 => Some("num7"),
        0x68 => Some("num8"),
        0x69 => Some("num9"),
        0x6b => Some("numplus"),
        0x6d => Some("numminus"),
        0x6a => Some("nummultiply"),
        0x6f => Some("numdivide"),
        0x6e => Some("numdot"),
        0xa2 => Some("ctrl"),
        0xa0 => Some("shift"),
        0xa4 => Some("alt"),
        0x5b => Some("meta"),
        _ => None,
    }
}

/// The virtual key code named by the characters `a[from..to]`.
pub fn keyboard_code_of_range(a: &Vec<char>, from: usize, to: usize) -> (r: Option<u16>)
    requires
        from <= to <= a@.len(),
    ensures
        r == keyboard_code_spec(a@.subrange(from as int, to as int)),
{
    if crate::text::range_eq_str(a, from, to, "a") {
        return Some(0x41);
    }
    if crate::text::range_eq_str(a, from, to, "b") {
        return Some(0x42);
    }
    if crate::text::range_eq_str(a, from, to, "c") {
        return Some(0x43);
    }
    if crate::text::range_eq_str(a, from, to, "d") {
        return Some(0x44);
    }
    if crate::text::range_eq_str(a, from, to, "e") {
        return Some(0x45);
    }
    if crate::text::range_eq_str(a, from, to, "f") {
        return Some(0x46);
    }
    if crate::text::range_eq_str(a, from, to, "g") {
        return Some(0x47);
    }
    if crate::text::range_eq_str(a, from, to, "h") {
        return Some(0x48);
    }
    if crate::text::range_eq_str(a, from, to, "i") {
        return Some(0x49);
    }
    if crate::text::range_eq_str(a, from, to, "j") {
        return Some(0x4a);
    }
    if crate::text::range_eq_str(a, from, to, "k") {
        return Some(0x4b);
    }
    if crate::text::range_eq_str(a, from, to, "l") {
        return Some(0x4c);
    }
    if crate::text::range_eq_str(a, from, to, "m") {
        return Some(0x4d);
    }
    if crate::text::range_eq_str(a, from, to, "n") {
        return Some(0x4e);
    }
    if crate::text::range_eq_str(a, from, to, "o") {
        return Some(0x4f);
    }
    if crate::text::range_eq_str(a, from, to, "p") {
        return Some(0x50);
    }
    if crate::text::range_eq_str(a, from, to, "q") {
        return Some(0x51);
    }
    if crate::text::range_eq_str(a, from, to, "r") {
        return Some(0x52);
    }
    if crate::text::range_eq_str(a, from, to, "s") {
        return Some(0x53);
    }
    if crate::text::range_eq_str(a, from, to, "t") {
        return Some(0x54);
    }
    if crate::text::range_eq_str(a, from, to, "u") {
        return Some(0x55);
    }
    if crate::text::range_eq_str(a, from, to, "v") {
        return Some(0x56);
    }
    if crate::text::range_eq_str(a, from, to, "w") {
        return Some(0x57);
    }
    if crate::text::range_eq_str(a, from, to, "x") {
        return Some(0x58);
    }
    if crate::text::range_eq_str(a, from, to, "y") {
        return Some(0x59);
    }
    if crate::text::range_eq_str(a, from, to, "z") {
        return Some(0x5a);
    }
    if crate::text::range_eq_str(a, from, to, "0") {
        return Some(0x30);
    }
    if crate::text::range_eq_str(a, from, to, "1") {
        return Some(0x31);
    }
    if crate::text::range_eq_str(a, from, to, "2") {
        return Some(0x32);
    }
    if crate::text::range_eq_str(a, from, to, "3") {
        return Some(0x33);
    }
    if crate::text::range_eq_str(a, from, to, "4") {
        return Some(0x34);
    }
    if crate::text::range_eq_str(a, from, to, "5") {
        return Some(0x35);
    }
    if crate::text::range_eq_str(a, from, to, "6") {
        return Some(0x36);
    }
    if crate::text::range_eq_str(a, from, to, "7") {
        return Some(0x37);
    }
    if crate::text::range_eq_str(a, from, to, "8") {
        return Some(0x38);
    }
    if crate::text::range_eq_str(a, from, to, "9") {
        return Some(0x39);
    }
    if crate::text::range_eq_str(a, from, to, "-") {
        return Some(0xbd);
    }
    if crate::text::range_eq_str(a, from, to, "=") {
        return Some(0xbb);
    }
    if crate::text::range_eq_str(a, from, to, "\\") {
        return Some(0xdc);
    }
    if crate::text::range_eq_str(a, from, to, "`") {
        return Some(0xc0);
    }
    if crate::text::range_eq_str(a, from, to, "[") {
        return Some(0xdb);
    }
    if crate::text::range_eq_str(a, from, to, "]") {
        return Some(0xdd);
    }
    if crate::text::range_eq_str(a, from, to, ";") {
        return Some(0xba);
    }
    if crate::text::range_eq_str(a, from, to, "'") {
        return Some(0xde);
    }
    if crate::text::range_eq_str(a, from, to, ",") {
        return Some(0xbc);
    }
    if crate::text::range_eq_str(a, from, to, ".") {
        return Some(0xbe);
    }
    if crate::text::range_eq_str(a, from, to, "/") {
        return Some(0xbf);
    }
    if crate::text::range_eq_str(a, from, to, "esc") {
        return Some(0x1b);
    }
    if crate::text::range_eq_str(a, from, to, "tab") {
        return Some(0x09);
    }
    if crate::text::range_eq_str(a, from, to, "backspace") {
        return Some(0x08);
    }
    if crate::text::range_eq_str(a, from, to, "enter") {
        return Some(0x0d);
    }
    if crate::text::range_eq_str(a, from, to, "space") {
        return Some(0x20);
    }
    if crate::text::range_eq_str(a, from, to, "home") {
        return Some(0x24);
    }
    if crate::text::range_eq_str(a, from, to, "end") {
        return Some(0x23);
    }
    if crate::text::range_eq_str(a, from, to, "pageup") {
        return Some(0x21);
    }
    if crate::text::range_eq_str(a, from, to, "pagedown") {
        return Some(0x22);
    }
    if crate::text::range_eq_str(a, from, to, "insert") {
        return Some(0x2d);
    }
    if crate::text::range_eq_str(a, from, to, "delete") {
        return Some(0x2e);
    }
    if crate::text::range_eq_str(a, from, to, "f1") {
        return Some(0x70);
    }
    if crate::text::range_eq_str(a, from, to, "f2") {
        return Some(0x71);
    }
    if crate::text::range_eq_str(a, from, to, "f3") {
        return Some(0x72);
    }
    if crate::text::range_eq_str(a, from, to, "f4") {
        return Some(0x73);
    }
    if crate::text::range_eq_str(a, from, to, "f5") {
        return Some(0x74);
    }
    if crate::text::range_eq_str(a, from, to, "f6") {
        return Some(0x75);
    }
    if crate::text::range_eq_str(a, from, to, "f7") {
        return Some(0x76);
    }
    if crate::text::range_eq_str(a, from, to, "f8") {
        return Some(0x77);
    }
    if crate::text::range_eq_str(a, from, to, "f9") {
        return Some(0x78);
    }
    if crate::text::range_eq_str(a, from, to, "f10") {
        return Some(0x79);
    }
    if crate::text::range_eq_str(a, from, to, "f11") {
        return Some(0x7a);
    }
    if crate::text::range_eq_str(a, from, to, "f12") {
        return Some(0x7b);
    }
    if crate::text::range_eq_str(a, from, to, "up") {
        return Some(0x26);
    }
    if crate::text::range_eq_str(a, from, to, "down") {
        return Some(0x28);
    }
    if crate::text::range_eq_str(a, from, to, "left") {
        return Some(0x25);
    }
    if crate::text::range_eq_str(a, from, to, "right") {
        return Some(0x27);
    }
    if crate::text::range_eq_str(a, from, to, "num0") {
        return Some(0x60);
    }
    if crate::text::range_eq_str(a, from, to, "num1") {
        return Some(0x61);
    }
    if crate::text::range_eq_str(a, from, to, "num2") {
        return Some(0x62);
    }
    if crate::text::range_eq_str(a, from, to, "num3") {
        return Some(0x63);
    }
    if crate::text::range_eq_str(a, from, to, "num4") {
        return Some(0x64);
    }
    if crate::text::range_eq_str(a, from, to, "num5") {
        return Some(0x65);
    }
    if crate::text::range_eq_str(a, from, to, "num6") {
        return Some(0x66);
    }
    if crate::text::range_eq_str(a, from, to, "num7") {
        return Some(0x67);
    }
    if crate::text::range_eq_str(a, from, to, "num8") {
        return Some(0x68);
    }
    if crate::text::range_eq_str(a, from, to, "num9") {
        return Some(0x69);
    }
    if crate::text::range_eq_str(a, from, to, "numplus") {
        return Some(0x6b);
    }
    if crate::text::range_eq_str(a, from, to, "numminus") {
        return Some(0x6d);
    }
    if crate::text::range_eq_str(a, from, to, "nummultiply") {
        return Some(0x6a);
    }
    if crate::text::range_eq_str(a, from, to, "numdivide") {
        return Some(0x6f);
    }
    if crate::text::range_eq_str(a, from, to, "numdot") {
        return Some(0x6e);
    }
    if crate::text::range_eq_str(a, from, to, "ctrl") {
        return Some(0xa2);
    }
    if crate::text::range_eq_str(a, from, to, "shift") {
        return Some(0xa0);
    }
    if crate::text::range_eq_str(a, from, to, "alt") {
        return Some(0xa4);
    }
    if crate::text::range_eq_str(a, from, to, "meta") {
        return Some(0x5b);
    }
    None
}

/// The key named by the characters `a[from..to]`.
pub fn key_of_range(a: &Vec<char>, from: usize, to: usize) -> (r: Option<Key>)
    requires
        from <= to <= a@.len(),
    ensures
        r == key_of_name(a@.subrange(from as int, to as int)),
{
    if let Some(code) = keyboard_code_of_range(a, from, to) {
        return Some(Key::Keyboard(code));
    }
    if crate::text::range_eq_str(a, from, to, "mouseLeft") {
        Some(Key::MouseLeft)
    } else if crate::text::range_eq_str(a, from, to, "mouseMiddle") {
        Some(Key::MouseMiddle)
    } else if crate::text::range_eq_str(a, from, to, "mouseRight") {
        Some(Key::MouseRight)
    } else {
        None
    }
}

/// The name table, name by name, against the Windows virtual-key codes: each
/// name reads as its code and each code is written as its name (`pageup` is
/// VK_PRIOR 0x21, `pagedown` VK_NEXT 0x22, `ctrl` VK_LCONTROL 0xa2, and so on).
pub proof fn lemma_key_table()
    ensures
        keyboard_code_spec("a"@) == Some(0x41u16) && keyboard_name_spec(0x41) == Some("a"@),
        keyboard_code_spec("b"@) == Some(0x42u16) && keyboard_name_spec(0x42) == Some("b"@),
        keyboard_code_spec("c"@) == Some(0x43u16) && keyboard_name_spec(0x43) == Some("c"@),
        keyboard_code_spec("d"@) == Some(0x44u16) && keyboard_name_spec(0x44) == Some("d"@),
        keyboard_code_spec("e"@) == Some(0x45u16) && keyboard_name_spec(0x45) == Some("e"@),
        keyboard_code_spec("f"@) == Some(0x46u16) && keyboard_name_spec(0x46) == Some("f"@),
        keyboard_code_spec("g"@) == Some(0x47u16) && keyboard_name_spec(0x47) == Some("g"@),
        keyboard_code_spec("h"@) == Some(0x48u16) && keyboard_name_spec(0x48) == Some("h"@),
        keyboard_code_spec("i"@) == Some(0x49u16) && keyboard_name_spec(0x49) == Some("i"@),
        keyboard_code_spec("j"@) == Some(0x4au16) && keyboard_name_spec(0x4a) == Some("j"@),
        keyboard_code_spec("k"@) == Some(0x4bu16) && keyboard_name_spec(0x4b) == Some("k"@),
        keyboard_code_spec("l"@) == Some(0x4cu16) && keyboard_name_spec(0x4c) == Some("l"@),
        keyboard_code_spec("m"@) == Some(0x4du16) && keyboard_name_spec(0x4d) == Some("m"@),
        keyboard_code_spec("n"@) == Some(0x4eu16) && keyboard_name_spec(0x4e) == Some("n"@),
        keyboard_code_spec("o"@) == Some(0x4fu16) && keyboard_name_spec(0x4f) == Some("o"@),
        keyboard_code_spec("p"@) == Some(0x50u16) && keyboard_name_spec(0x50) == Some("p"@),
        keyboard_code_spec("q"@) == Some(0x51u16) && keyboard_name_spec(0x51) == Some("q"@),
        keyboard_code_spec("r"@) == Some(0x52u16) && keyboard_name_spec(0x52) == Some("r"@),
        keyboard_code_spec("s"@) == Some(0x53u16) && keyboard_name_spec(0x53) == Some("s"@),
        keyboard_code_spec("t"@) == Some(0x54u16) && keyboard_name_spec(0x54) == Some("t"@),
        keyboard_code_spec("u"@) == Some(0x55u16) && keyboard_name_spec(0x55) == Some("u"@),
        keyboard_code_spec("v"@) == Some(0x56u16) && keyboard_name_spec(0x56) == Some("v"@),
        keyboard_code_spec("w"@) == Some(0x57u16) && keyboard_name_spec(0x57) == Some("w"@),
        keyboard_code_spec("x"@) == Some(0x58u16) && keyboard_name_spec(0x58) == Some("x"@),
        keyboard_code_spec("y"@) == Some(0x59u16) && keyboard_name_spec(0x59) == Some("y"@),
        keyboard_code_spec("z"@) == Some(0x5au16) && keyboard_name_spec(0x5a) == Some("z"@),
        keyboard_code_spec("0"@) == Some(0x30u16) && keyboard_name_spec(0x30) == Some("0"@),
        keyboard_code_spec("1"@) == Some(0x31u16) && keyboard_name_spec(0x31) == Some("1"@),
        keyboard_code_spec("2"@) == Some(0x32u16) && keyboard_name_spec(0x32) == Some("2"@),
        keyboard_code_spec("3"@) == Some(0x33u16) && keyboard_name_spec(0x33) == Some("3"@),
        keyboard_code_spec("4"@) == Some(0x34u16) && keyboard_name_spec(0x34) == Some("4"@),
        keyboard_code_spec("5"@) == Some(0x35u16) && keyboard_name_spec(0x35) == Some("5"@),
        keyboard_code_spec("6"@) == Some(0x36u16) && keyboard_name_spec(0x36) == Some("6"@),
        keyboard_code_spec("7"@) == Some(0x37u16) && keyboard_name_spec(0x37) == Some("7"@),
        keyboard_code_spec("8"@) == Some(0x38u16) && keyboard_name_spec(0x38) == Some("8"@),
        keyboard_code_spec("9"@) == Some(0x39u16) && keyboard_name_spec(0x39) == Some("9"@),
        keyboard_code_spec("-"@) == Some(0xbdu16) && keyboard_name_spec(0xbd) == Some("-"@),
        keyboard_code_spec("="@) == Some(0xbbu16) && keyboard_name_spec(0xbb) == Some("="@),
        keyboard_code_spec("\\"@) == Some(0xdcu16) && keyboard_name_spec(0xdc) == Some("\\"@),
        keyboard_code_spec("`"@) == Some(0xc0u16) && keyboard_name_spec(0xc0) == Some("`"@),
        keyboard_code_spec("["@) == Some(0xdbu16) && keyboard_name_spec(0xdb) == Some("["@),
        keyboard_code_spec("]"@) == Some(0xddu16) && keyboard_name_spec(0xdd) == Some("]"@),
        keyboard_code_spec(";"@) == Some(0xbau16) && keyboard_name_spec(0xba) == Some(";"@),
        keyboard_code_spec("'"@) == Some(0xdeu16) && keyboard_name_spec(0xde) == Some("'"@),
        keyboard_code_spec(","@) == Some(0xbcu16) && keyboard_name_spec(0xbc) == Some(","@),
        keyboard_code_spec("."@) == Some(0xbeu16) && keyboard_name_spec(0xbe) == Some("."@),
        keyboard_code_spec("/"@) == Some(0xbfu16) && keyboard_name_spec(0xbf) == Some("/"@),
        keyboard_code_spec("esc"@) == Some(0x1bu16) && keyboard_name_spec(0x1b) == Some("esc"@),
        keyboard_code_spec("tab"@) == Some(0x09u16) && keyboard_name_spec(0x09) == Some("tab"@),
        keyboard_code_spec("backspace"@) == Some(0x08u16) && keyboard_name_spec(0x08) == Some("backspace"@),
        keyboard_code_spec("enter"@) == Some(0x0du16) && keyboard_name_spec(0x0d) == Some("enter"@),
        keyboard_code_spec("space"@) == Some(0x20u16) && keyboard_name_spec(0x20) == Some("space"@),
        keyboard_code_spec("home"@) == Some(0x24u16) && keyboard_name_spec(0x24) == Some("home"@),
        keyboard_code_spec("end"@) == Some(0x23u16) && keyboard_name_spec(0x23) == Some("end"@),
        keyboard_code_spec("pageup"@) == Some(0x21u16) && keyboard_name_spec(0x21) == Some("pageup"@),
        keyboard_code_spec("pagedown"@) == Some(0x22u16) && keyboard_name_spec(0x22) == Some("pagedown"@),
        keyboard_code_spec("insert"@) == Some(0x2du16) && keyboard_name_spec(0x2d) == Some("insert"@),
        keyboard_code_spec("delete"@) == Some(0x2eu16) && keyboard_name_spec(0x2e) == Some("delete"@),
        keyboard_code_spec("f1"@) == Some(0x70u16) && keyboard_name_spec(0x70) == Some("f1"@),
        keyboard_code_spec("f2"@) == Some(0x71u16) && keyboard_name_spec(0x71) == Some("f2"@),
        keyboard_code_spec("f3"@) == Some(0x72u16) && keyboard_name_spec(0x72) == Some("f3"@),
        keyboard_code_spec("f4"@) == Some(0x73u16) && keyboard_name_spec(0x73) == Some("f4"@),
        keyboard_code_spec("f5"@) == Some(0x74u16) && keyboard_name_spec(0x74) == Some("f5"@),
        keyboard_code_spec("f6"@) == Some(0x75u16) && keyboard_name_spec(0x75) == Some("f6"@),
        keyboard_code_spec("f7"@) == Some(0x76u16) && keyboard_name_spec(0x76) == Some("f7"@),
        keyboard_code_spec("f8"@) == Some(0x77u16) && keyboard_name_spec(0x77) == Some("f8"@),
        keyboard_code_spec("f9"@) == Some(0x78u16) && keyboard_name_spec(0x78) == Some("f9"@),
        keyboard_code_spec("f10"@) == Some(0x79u16) && keyboard_name_spec(0x79) == Some("f10"@),
        keyboard_code_spec("f11"@) == Some(0x7au16) && keyboard_name_spec(0x7a) == Some("f11"@),
        keyboard_code_spec("f12"@) == Some(0x7bu16) && keyboard_name_spec(0x7b) == Some("f12"@),
        keyboard_code_spec("up"@) == Some(0x26u16) && keyboard_name_spec(0x26) == Some("up"@),
        keyboard_code_spec("down"@) == Some(0x28u16) && keyboard_name_spec(0x28) == Some("down"@),
        keyboard_code_spec("left"@) == Some(0x25u16) && keyboard_name_spec(0x25) == Some("left"@),
        keyboard_code_spec("right"@) == Some(0x27u16) && keyboard_name_spec(0x27) == Some("right"@),
        keyboard_code_spec("num0"@) == Some(0x60u16) && keyboard_name_spec(0x60) == Some("num0"@),
        keyboard_code_spec("num1"@) == Some(0x61u16) && keyboard_name_spec(0x61) == Some("num1"@),
        keyboard_code_spec("num2"@) == Some(0x62u16) && keyboard_name_spec(0x62) == Some("num2"@),
        keyboard_code_spec("num3"@) == Some(0x63u16) && keyboard_name_spec(0x63) == Some("num3"@),
        keyboard_code_spec("num4"@) == Some(0x64u16) && keyboard_name_spec(0x64) == Some("num4"@),
        keyboard_code_spec("num5"@) == Some(0x65u16) && keyboard_name_spec(0x65) == Some("num5"@),
        keyboard_code_spec("num6"@) == Some(0x66u16) && keyboard_name_spec(0x66) == Some("num6"@),
        keyboard_code_spec("num7"@) == Some(0x67u16) && keyboard_name_spec(0x67) == Some("num7"@),
        keyboard_code_spec("num8"@) == Some(0x68u16) && keyboard_name_spec(0x68) == Some("num8"@),
        keyboard_code_spec("num9"@) == Some(0x69u16) && keyboard_name_spec(0x69) == Some("num9"@),
        keyboard_code_spec("numplus"@) == Some(0x6bu16) && keyboard_name_spec(0x6b) == Some("numplus"@),
        keyboard_code_spec("numminus"@) == Some(0x6du16) && keyboard_name_spec(0x6d) == Some("numminus"@),
        keyboard_code_spec("nummultiply"@) == Some(0x6au16) && keyboard_name_spec(0x6a) == Some("nummultiply"@),
        keyboard_code_spec("numdivide"@) == Some(0x6fu16) && keyboard_name_spec(0x6f) == Some("numdivide"@),
        keyboard_code_spec("numdot"@) == Some(0x6eu16) && keyboard_name_spec(0x6e) == Some("numdot"@),
        keyboard_code_spec("ctrl"@) == Some(0xa2u16) && keyboard_name_spec(0xa2) == Some("ctrl"@),
        keyboard_code_spec("shift"@) == Some(0xa0u16) && keyboard_name_spec(0xa0) == Some("shift"@),
        keyboard_code_spec("alt"@) == Some(0xa4u16) && keyboard_name_spec(0xa4) == Some("alt"@),
        keyboard_code_spec("meta"@) == Some(0x5bu16) && keyboard_name_spec(0x5b) == Some("meta"@),
{
    lemma_key_names();
    assert(is_named(Key::Keyboard(0x41)) && is_named(Key::Keyboard(0x42)) && is_named(Key::Keyboard(0x43)) && is_named(Key::Keyboard(0x44)) && is_named(Key::Keyboard(0x45)) && is_named(Key::Keyboard(0x46)) && is_named(Key::Keyboard(0x47)) && is_named(Key::Keyboard(0x48)) && is_named(Key::Keyboard(0x49)) && is_named(Key::Keyboard(0x4a)) && is_named(Key::Keyboard(0x4b)) && is_named(Key::Keyboard(0x4c)) && is_named(Key::Keyboard(0x4d)) && is_named(Key::Keyboard(0x4e)) && is_named(Key::Keyboard(0x4f)) && is_named(Key::Keyboard(0x50)) && is_named(Key::Keyboard(0x51)) && is_named(Key::Keyboard(0x52)) && is_named(Key::Keyboard(0x53)) && is_named(Key::Keyboard(0x54)) && is_named(Key::Keyboard(0x55)) && is_named(Key::Keyboard(0x56)) && is_named(Key::Keyboard(0x57)) && is_named(Key::Keyboard(0x58)) && is_named(Key::Keyboard(0x59)) && is_named(Key::Keyboard(0x5a)) && is_named(Key::Keyboard(0x30)) && is_named(Key::Keyboard(0x31)) && is_named(Key::Keyboard(0x32)) && is_named(Key::Keyboard(0x33)) && is_named(Key::Keyboard(0x34)) && is_named(Key::Keyboard(0x35)) && is_named(Key::Keyboard(0x36)) && is_named(Key::Keyboard(0x37)) && is_named(Key::Keyboard(0x38)) && is_named(Key::Keyboard(0x39)) && is_named(Key::Keyboard(0xbd)) && is_named(Key::Keyboard(0xbb)) && is_named(Key::Keyboard(0xdc)) && is_named(Key::Keyboard(0xc0)) && is_named(Key::Keyboard(0xdb)) && is_named(Key::Keyboard(0xdd)) && is_named(Key::Keyboard(0xba)) && is_named(Key::Keyboard(0xde)) && is_named(Key::Keyboard(0xbc)) && is_named(Key::Keyboard(0xbe)) && is_named(Key::Keyboard(0xbf)) && is_named(Key::Keyboard(0x1b)) && is_named(Key::Keyboard(0x09)) && is_named(Key::Keyboard(0x08)) && is_named(Key::Keyboard(0x0d)) && is_named(Key::Keyboard(0x20)) && is_named(Key::Keyboard(0x24)) && is_named(Key::Keyboard(0x23)) && is_named(Key::Keyboard(0x21)) && is_named(Key::Keyboard(0x22)) && is_named(Key::Keyboard(0x2d)) && is_named(Key::Keyboard(0x2e)) && is_named(Key::Keyboard(0x70)) && is_named(Key::Keyboard(0x71)) && is_named(Key::Keyboard(0x72)) && is_named(Key::Keyboard(0x73)) && is_named(Key::Keyboard(0x74)) && is_named(Key::Keyboard(0x75)) && is_named(Key::Keyboard(0x76)) && is_named(Key::Keyboard(0x77)) && is_named(Key::Keyboard(0x78)) && is_named(Key::Keyboard(0x79)) && is_named(Key::Keyboard(0x7a)) && is_named(Key::Keyboard(0x7b)) && is_named(Key::Keyboard(0x26)) && is_named(Key::Keyboard(0x28)) && is_named(Key::Keyboard(0x25)) && is_named(Key::Keyboard(0x27)) && is_named(Key::Keyboard(0x60)) && is_named(Key::Keyboard(0x61)) && is_named(Key::Keyboard(0x62)) && is_named(Key::Keyboard(0x63)) && is_named(Key::Keyboard(0x64)) && is_named(Key::Keyboard(0x65)) && is_named(Key::Keyboard(0x66)) && is_named(Key::Keyboard(0x67)) && is_named(Key::Keyboard(0x68)) && is_named(Key::Keyboard(0x69)) && is_named(Key::Keyboard(0x6b)) && is_named(Key::Keyboard(0x6d)) && is_named(Key::Keyboard(0x6a)) && is_named(Key::Keyboard(0x6f)) && is_named(Key::Keyboard(0x6e)) && is_named(Key::Keyboard(0xa2)) && is_named(Key::Keyboard(0xa0)) && is_named(Key::Keyboard(0xa4)) && is_named(Key::Keyboard(0x5b)));
}

impl Key {
    /// The name under which the key is written in the configuration.
    pub fn name(&self) -> (r: &'static str)
        ensures
            r@ == key_name_spec(*self),
    {
        match self {
            Key::Keyboard(code) => match keyboard_name(*code) {
                Some(name) => name,
                None => "none",
            },
            Key::MouseLeft => "mouseLeft",
            Key::MouseMiddle => "mouseMiddle",
            Key::MouseRight => "mouseRight",
        }
    }

    /// The configuration name that is the single character `c`, where a
    /// keyboard key has such a name.
    pub fn config_name(c: char) -> (r: Option<&'static str>)
        ensures
            match r {
                Some(name) => keyboard_code_spec(seq![c]) is Some && name@ == seq![c],
                None => keyboard_code_spec(seq![c]) is None,
            },
    {
        let mut chars: Vec<char> = Vec::new();
        chars.push(c);
        assert(chars@.subrange(0, 1) =~= seq![c]);
        match keyboard_code_of_range(&chars, 0, 1) {
            Some(code) => {
                proof {
                    lemma_key_names();
                    reveal_strlit("none");
                    assert(key_of_name(seq![c]) == Some(Key::Keyboard(code)));
                    assert(key_name_spec(Key::Keyboard(code)) == seq![c]);
                    assert(keyboard_name_spec(code) is Some);
                }
                keyboard_name(code)
            },
            None => None,
        }
    }

    /// The key that a configuration name stands for.
    pub fn parse(name: &str) -> (r: Option<Key>)
        ensures
            r == key_of_name(name@),
    {
        let chars = crate::text::chars_of(name);
        let n = chars.len();
        assert(chars@.subrange(0, n as int) =~= name@);
        key_of_range(&chars, 0, n)
    }
}

} // verus!
