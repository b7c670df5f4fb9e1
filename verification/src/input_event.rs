//! Key codes for the virtual keyboard device and the mapping from
//! characters to key codes.
//!
//! The code values follow the Linux input event conventions; the actual
//! device registration and raw event emission live outside this crate.

use vstd::prelude::*;
use vstd::string::StringSliceAdditionalSpecFns;

verus! {

// Event types
pub const EV_SYN: u16 = 0x00;
pub const EV_KEY: u16 = 0x01;

// Synchronization events
pub const SYN_REPORT: u16 = 0;

// Key codes - basic ASCII and special keys
pub const KEY_ESC: u16 = 1;
pub const KEY_1: u16 = 2;
pub const KEY_2: u16 = 3;
pub const KEY_3: u16 = 4;
pub const KEY_4: u16 = 5;
pub const KEY_5: u16 = 6;
pub const KEY_6: u16 = 7;
pub const KEY_7: u16 = 8;
pub const KEY_8: u16 = 9;
pub const KEY_9: u16 = 10;
pub const KEY_0: u16 = 11;
pub const KEY_MINUS: u16 = 12;
pub const KEY_EQUAL: u16 = 13;
pub const KEY_BACKSPACE: u16 = 14;
pub const KEY_TAB: u16 = 15;
pub const KEY_Q: u16 = 16;
pub const KEY_W: u16 = 17;
pub const KEY_E: u16 = 18;
pub const KEY_R: u16 = 19;
pub const KEY_T: u16 = 20;
pub const KEY_Y: u16 = 21;
pub const KEY_U: u16 = 22;
pub const KEY_I: u16 = 23;
pub const KEY_O: u16 = 24;
pub const KEY_P: u16 = 25;
pub const KEY_LEFTBRACE: u16 = 26;
pub const KEY_RIGHTBRACE: u16 = 27;
pub const KEY_ENTER: u16 = 28;
pub const KEY_LEFTCTRL: u16 = 29;
pub const KEY_A: u16 = 30;
pub const KEY_S: u16 = 31;
pub const KEY_D: u16 = 32;
pub const KEY_F: u16 = 33;
pub const KEY_G: u16 = 34;
pub const KEY_H: u16 = 35;
pub const KEY_J: u16 = 36;
pub const KEY_K: u16 = 37;
pub const KEY_L: u16 = 38;
pub const KEY_SEMICOLON: u16 = 39;
pub const KEY_APOSTROPHE: u16 = 40;
pub const KEY_GRAVE: u16 = 41;
pub const KEY_LEFTSHIFT: u16 = 42;
pub const KEY_BACKSLASH: u16 = 43;
pub const KEY_Z: u16 = 44;
pub const KEY_X: u16 = 45;
pub const KEY_C: u16 = 46;
pub const KEY_V: u16 = 47;
pub const KEY_B: u16 = 48;
pub const KEY_N: u16 = 49;
pub const KEY_M: u16 = 50;
pub const KEY_COMMA: u16 = 51;
pub const KEY_DOT: u16 = 52;
pub const KEY_SLASH: u16 = 53;
pub const KEY_RIGHTSHIFT: u16 = 54;
pub const KEY_LEFTALT: u16 = 56;
pub const KEY_SPACE: u16 = 57;
pub const KEY_CAPSLOCK: u16 = 58;

// Function keys
pub const KEY_F1: u16 = 59;
pub const KEY_F2: u16 = 60;
pub const KEY_F3: u16 = 61;
pub const KEY_F4: u16 = 62;
pub const KEY_F5: u16 = 63;
pub const KEY_F6: u16 = 64;
pub const KEY_F7: u16 = 65;
pub const KEY_F8: u16 = 66;
pub const KEY_F9: u16 = 67;
pub const KEY_F10: u16 = 68;
pub const KEY_F11: u16 = 87;
pub const KEY_F12: u16 = 88;

// uinput constants
pub const UINPUT_MAX_NAME_SIZE: usize = 80;

/// Device identity reported for the virtual keyboard device.
#[derive(Debug, Clone, Copy, PartialEq, Eq, Structural)]
pub struct InputId {
    pub bustype: u16,
    pub vendor: u16,
    pub product: u16,
    pub version: u16,
}

impl Default for InputId {
    fn default() -> (r: Self)
        ensures
            r.bustype == 0,
            r.vendor == 0,
            r.product == 0,
            r.version == 0,
    {
        InputId { bustype: 0, vendor: 0, product: 0, version: 0 }
    }
}

/// The number of bytes of `name` that a device name of `len` bytes
/// occupies: everything up to the capacity less one, so the name stays
/// NUL-terminated.
pub open spec fn device_name_copy_len(len: int) -> int {
    if len < UINPUT_MAX_NAME_SIZE - 1 {
        len
    } else {
        UINPUT_MAX_NAME_SIZE - 1
    }
}

/// uinput device setup structure: a fixed USB identity and a
/// NUL-padded device name.
#[derive(Debug)]
pub struct UInputSetup {
    pub id: InputId,
    pub name: [u8; UINPUT_MAX_NAME_SIZE],
    pub ff_effects_max: u32,
}

impl UInputSetup {
    pub fn new(name: &str) -> (r: Self)
        ensures
            r.id.bustype == 0x03,
            r.id.vendor == 0x1234,
            r.id.product == 0x5678,
            r.id.version == 1,
            r.ff_effects_max == 0,
            forall|i: int|
                0 <= i < device_name_copy_len(name.spec_bytes().len() as int) ==> r.name@[i]
                    == name.spec_bytes()[i],
            forall|i: int|
                device_name_copy_len(name.spec_bytes().len() as int) <= i < UINPUT_MAX_NAME_SIZE
                    ==> r.name@[i] == 0,
    {
        let name_bytes = name.as_bytes();
        let mut buf: [u8; UINPUT_MAX_NAME_SIZE] = [0; UINPUT_MAX_NAME_SIZE];
        let copy_len = if name_bytes.len() < UINPUT_MAX_NAME_SIZE - 1 {
            name_bytes.len()
        } else {
            UINPUT_MAX_NAME_SIZE - 1
        };
        let mut i: usize = 0;
        while i < copy_len
            invariant
                copy_len == device_name_copy_len(name.spec_bytes().len() as int),
                copy_len < UINPUT_MAX_NAME_SIZE,
                name_bytes@ == name.spec_bytes(),
                0 <= i <= copy_len,
                buf@.len() == UINPUT_MAX_NAME_SIZE,
                forall|j: int| 0 <= j < i ==> buf@[j] == name.spec_bytes()[j],
                forall|j: int| i <= j < UINPUT_MAX_NAME_SIZE ==> buf@[j] == 0,
            decreases copy_len - i,
        {
            buf[i] = name_bytes[i];
            i = i + 1;
        }
        UInputSetup {
            id: InputId { bustype: 0x03, vendor: 0x1234, product: 0x5678, version: 1 },
            name: buf,
            ff_effects_max: 0,
        }
    }
}

/// Legacy uinput_user_dev structure for the old uinput interface.
#[derive(Debug)]
pub struct UInputUserDev {
    pub name: [u8; UINPUT_MAX_NAME_SIZE],
    pub id: InputId,
    pub ff_effects_max: u32,
    pub absmax: [i32; 64],
    pub absmin: [i32; 64],
    pub absfuzz: [i32; 64],
    pub absflat: [i32; 64],
}

impl Default for UInputUserDev {
    fn default() -> (r: Self)
        ensures
            forall|i: int| 0 <= i < UINPUT_MAX_NAME_SIZE ==> r.name@[i] == 0,
            r.id.bustype == 0 && r.id.vendor == 0 && r.id.product == 0 && r.id.version == 0,
            r.ff_effects_max == 0,
            forall|i: int|
                0 <= i < 64 ==> r.absmax@[i] == 0 && r.absmin@[i] == 0 && r.absfuzz@[i] == 0
                    && r.absflat@[i] == 0,
    {
        UInputUserDev {
            name: [0; UINPUT_MAX_NAME_SIZE],
            id: InputId { bustype: 0, vendor: 0, product: 0, version: 0 },
            ff_effects_max: 0,
            absmax: [0; 64],
            absmin: [0; 64],
            absfuzz: [0; 64],
            absflat: [0; 64],
        }
    }
}

/// The key code and shift state that types one character, as
/// `char_to_keycode` computes them: `None` for unsupported characters.
pub open spec fn spec_char_to_keycode(c: char) -> Option<(u16, bool)> {
    if c == 'a' || c == 'A' {
        Some((KEY_A, c == 'A'))
    } else if c == 'b' || c == 'B' {
        Some((KEY_B, c == 'B'))
    } else if c == 'c' || c == 'C' {
        Some((KEY_C, c == 'C'))
    } else if c == 'd' || c == 'D' {
        Some((KEY_D, c == 'D'))
    } else if c == 'e' || c == 'E' {
        Some((KEY_E, c == 'E'))
    } else if c == 'f' || c == 'F' {
        Some((KEY_F, c == 'F'))
    } else if c == 'g' || c == 'G' {
        Some((KEY_G, c == 'G'))
    } else if c == 'h' || c == 'H' {
        Some((KEY_H, c == 'H'))
    } else if c == 'i' || c == 'I' {
        Some((KEY_I, c == 'I'))
    } else if c == 'j' || c == 'J' {
        Some((KEY_J, c == 'J'))
    } else if c == 'k' || c == 'K' {
        Some((KEY_K, c == 'K'))
    } else if c == 'l' || c == 'L' {
        Some((KEY_L, c == 'L'))
    } else if c == 'm' || c == 'M' {
        Some((KEY_M, c == 'M'))
    } else if c == 'n' || c == 'N' {
        Some((KEY_N, c == 'N'))
    } else if c == 'o' || c == 'O' {
        Some((KEY_O, c == 'O'))
    } else if c == 'p' || c == 'P' {
        Some((KEY_P, c == 'P'))
    } else if c == 'q' || c == 'Q' {
        Some((KEY_Q, c == 'Q'))
    } else if c == 'r' || c == 'R' {
        Some((KEY_R, c == 'R'))
    } else if c == 's' || c == 'S' {
        Some((KEY_S, c == 'S'))
    } else if c == 't' || c == 'T' {
        Some((KEY_T, c == 'T'))
    } else if c == 'u' || c == 'U' {
        Some((KEY_U, c == 'U'))
    } else if c == 'v' || c == 'V' {
        Some((KEY_V, c == 'V'))
    } else if c == 'w' || c == 'W' {
        Some((KEY_W, c == 'W'))
    } else if c == 'x' || c == 'X' {
        Some((KEY_X, c == 'X'))
    } else if c == 'y' || c == 'Y' {
        Some((KEY_Y, c == 'Y'))
    } else if c == 'z' || c == 'Z' {
        Some((KEY_Z, c == 'Z'))
    } else if '0' <= c && c <= '9' {
        Some((((KEY_0 as int) + (c as int - '0' as int)) as u16, false))
    } else if c == ' ' {
        Some((KEY_SPACE, false))
    } else if c == '\n' {
        Some((KEY_ENTER, false))
    } else if c == '\t' {
        Some((KEY_TAB, false))
    } else if c == '!' {
        Some((KEY_1, true))
    } else if c == '@' {
        Some((KEY_2, true))
    } else if c == '#' {
        Some((KEY_3, true))
    } else if c == '$' {
        Some((KEY_4, true))
    } else if c == '%' {
        Some((KEY_5, true))
    } else if c == '^' {
        Some((KEY_6, true))
    } else if c == '&' {
        Some((KEY_7, true))
    } else if c == '*' {
        Some((KEY_8, true))
    } else if c == '(' {
        Some((KEY_9, true))
    } else if c == ')' {
        Some((KEY_0, true))
    } else if c == '-' {
        Some((KEY_MINUS, false))
    } else if c == '_' {
        Some((KEY_MINUS, true))
    } else if c == '=' {
        Some((KEY_EQUAL, false))
    } else if c == '+' {
        Some((KEY_EQUAL, true))
    } else if c == '[' {
        Some((KEY_LEFTBRACE, false))
    } else if c == '{' {
        Some((KEY_LEFTBRACE, true))
    } else if c == ']' {
        Some((KEY_RIGHTBRACE, false))
    } else if c == '}' {
        Some((KEY_RIGHTBRACE, true))
    } else if c == '\\' {
        Some((KEY_BACKSLASH, false))
    } else if c == '|' {
        Some((KEY_BACKSLASH, true))
    } else if c == ';' {
        Some((KEY_SEMICOLON, false))
    } else if c == ':' {
        Some((KEY_SEMICOLON, true))
    } else if c == '\'' {
        Some((KEY_APOSTROPHE, false))
    } else if c == '"' {
        Some((KEY_APOSTROPHE, true))
    } else if c == '`' {
        Some((KEY_GRAVE, false))
    } else if c == '~' {
        Some((KEY_GRAVE, true))
    } else if c == ',' {
        Some((KEY_COMMA, false))
    } else if c == '<' {
        Some((KEY_COMMA, true))
    } else if c == '.' {
        Some((KEY_DOT, false))
    } else if c == '>' {
        Some((KEY_DOT, true))
    } else if c == '/' {
        Some((KEY_SLASH, false))
    } else if c == '?' {
        Some((KEY_SLASH, true))
    } else {
        None
    }
}

/// Character to key code mapping.
pub fn char_to_keycode(c: char) -> (r: Option<(u16, bool)>)
    ensures
        r == spec_char_to_keycode(c),
{
    match c {
        // Direct letter mappings instead of calculating offsets
        'a' | 'A' => Some((KEY_A, c == 'A')),
        'b' | 'B' => Some((KEY_B, c == 'B')),
        'c' | 'C' => Some((KEY_C, c == 'C')),
        'd' | 'D' => Some((KEY_D, c == 'D')),
        'e' | 'E' => Some((KEY_E, c == 'E')),
        'f' | 'F' => Some((KEY_F, c == 'F')),
        'g' | 'G' => Some((KEY_G, c == 'G')),
        'h' | 'H' => Some((KEY_H, c == 'H')),
        'i' | 'I' => Some((KEY_I, c == 'I')),
        'j' | 'J' => Some((KEY_J, c == 'J')),
        'k' | 'K' => Some((KEY_K, c == 'K')),
        'l' | 'L' => Some((KEY_L, c == 'L')),
        'm' | 'M' => Some((KEY_M, c == 'M')),
        'n' | 'N' => Some((KEY_N, c == 'N')),
        'o' | 'O' => Some((KEY_O, c == 'O')),
        'p' | 'P' => Some((KEY_P, c == 'P')),
        'q' | 'Q' => Some((KEY_Q, c == 'Q')),
        'r' | 'R' => Some((KEY_R, c == 'R')),
        's' | 'S' => Some((KEY_S, c == 'S')),
        't' | 'T' => Some((KEY_T, c == 'T')),
        'u' | 'U' => Some((KEY_U, c == 'U')),
        'v' | 'V' => Some((KEY_V, c == 'V')),
        'w' | 'W' => Some((KEY_W, c == 'W')),
        'x' | 'X' => Some((KEY_X, c == 'X')),
        'y' | 'Y' => Some((KEY_Y, c == 'Y')),
        'z' | 'Z' => Some((KEY_Z, c == 'Z')),
        // Numbers and special characters
        '0'..='9' => Some((KEY_0 + (c as u16 - '0' as u16), false)),
        ' ' => Some((KEY_SPACE, false)),
        '\n' => Some((KEY_ENTER, false)),
        '\t' => Some((KEY_TAB, false)),
        '!' => Some((KEY_1, true)),
        '@' => Some((KEY_2, true)),
        '#' => Some((KEY_3, true)),
        '$' => Some((KEY_4, true)),
        '%' => Some((KEY_5, true)),
        '^' => Some((KEY_6, true)),
        '&' => Some((KEY_7, true)),
        '*' => Some((KEY_8, true)),
        '(' => Some((KEY_9, true)),
        ')' => Some((KEY_0, true)),
        '-' => Some((KEY_MINUS, false)),
        '_' => Some((KEY_MINUS, true)),
        '=' => Some((KEY_EQUAL, false)),
        '+' => Some((KEY_EQUAL, true)),
        '[' => Some((KEY_LEFTBRACE, false)),
        '{' => Some((KEY_LEFTBRACE, true)),
        ']' => Some((KEY_RIGHTBRACE, false)),
        '}' => Some((KEY_RIGHTBRACE, true)),
        '\\' => Some((KEY_BACKSLASH, false)),
        '|' => Some((KEY_BACKSLASH, true)),
        ';' => Some((KEY_SEMICOLON, false)),
        ':' => Some((KEY_SEMICOLON, true)),
        '\'' => Some((KEY_APOSTROPHE, false)),
        '"' => Some((KEY_APOSTROPHE, true)),
        '`' => Some((KEY_GRAVE, false)),
        '~' => Some((KEY_GRAVE, true)),
        ',' => Some((KEY_COMMA, false)),
        '<' => Some((KEY_COMMA, true)),
        '.' => Some((KEY_DOT, false)),
        '>' => Some((KEY_DOT, true)),
        '/' => Some((KEY_SLASH, false)),
        '?' => Some((KEY_SLASH, true)),
        _ => None,
    }
}

/// Helper function to get all required key codes for keyboard setup:
/// every code from 1 to 255, so no code needed for a special character
/// is missed.
pub fn get_all_keycodes() -> (keys: Vec<u16>)
    ensures
        keys@.len() == 255,
        forall|i: int| 0 <= i < 255 ==> keys@[i] == i + 1,
{
    let mut keys: Vec<u16> = Vec::new();
    let mut i: u16 = 1;
    while i <= 255
        invariant
            1 <= i <= 256,
            keys@.len() == i - 1,
            forall|j: int| 0 <= j < i - 1 ==> keys@[j] == j + 1,
        decreases 256 - i,
    {
        keys.push(i);
        i = i + 1;
    }
    keys
}

} // verus!
