//! The two lookup tables of the binding grammar: modifier names and key names.
use vstd::prelude::*;
use crate::text::{lower_of, to_lower, same_text, all_ascii, ascii_lower, ascii_upper,
    ascii_lower_char, ascii_upper_char};

verus! {

/// A modifier key that may be held together with a bound key.
#[derive(Debug, Clone, Copy, PartialEq, Eq, Hash, Structural)]
pub enum Modifier {
    Super,
    Alt,
    Control,
    Shift,
}

/// The modifier that a lower-case name stands for.
pub open spec fn modifier_of(s: Seq<char>) -> Option<Modifier> {
    if s == "super"@ || s == "mod4"@ {
        Some(Modifier::Super)
    } else if s == "alt"@ || s == "mod1"@ {
        Some(Modifier::Alt)
    } else if s == "control"@ || s == "ctrl"@ {
        Some(Modifier::Control)
    } else if s == "shift"@ {
        Some(Modifier::Shift)
    } else {
        None
    }
}

/// The modifier named by `name`, which is already in lower case.
pub fn modifier_from_lowercase(name: &str) -> (r: Option<Modifier>)
    ensures
        r == modifier_of(name@),
{
    if same_text(name, "super") || same_text(name, "mod4") {
        Some(Modifier::Super)
    } else if same_text(name, "alt") || same_text(name, "mod1") {
        Some(Modifier::Alt)
    } else if same_text(name, "control") || same_text(name, "ctrl") {
        Some(Modifier::Control)
    } else if same_text(name, "shift") {
        Some(Modifier::Shift)
    } else {
        None
    }
}

/// The modifier named by `name`, whatever its case.
pub fn match_modifier(name: &str) -> (r: Option<Modifier>)
    ensures
        r == modifier_of(lower_of(name@)),
        all_ascii(name@) ==> r == modifier_of(ascii_lower(name@)),
{
    let lower = to_lower(name);
    modifier_from_lowercase(lower.as_str())
}
/// Modifier names are read whatever their case: on ASCII text, the name in
/// upper case names the same modifier as the name itself.
pub proof fn lemma_modifier_case_insensitive(name: Seq<char>)
    requires
        all_ascii(name),
    ensures
        all_ascii(ascii_upper(name)),
        modifier_of(ascii_lower(ascii_upper(name))) == modifier_of(ascii_lower(name)),
{
    assert forall|i: int| 0 <= i < name.len() implies ascii_lower_char(
        ascii_upper_char(#[trigger] name[i]),
    ) == ascii_lower_char(name[i]) by {
        let c = name[i];
        if 'a' <= c <= 'z' {
            assert(((((c as u32) - 32) as char) as u32) == (c as u32) - 32);
            assert(((((c as u32) - 32) as char) as u32 + 32) as char == c);
        }
    }
    assert(ascii_lower(ascii_upper(name)) =~= ascii_lower(name));
    assert forall|i: int| 0 <= i < name.len() implies (#[trigger] ascii_upper(name)[i] as u32)
        < 128 by {
        let c = name[i];
        if 'a' <= c <= 'z' {
            assert(((((c as u32) - 32) as char) as u32) == (c as u32) - 32);
        }
    }
}

// Key codes, as the Linux input subsystem numbers them.
pub const KEY_Q: u16 = 16;
pub const KEY_W: u16 = 17;
pub const KEY_E: u16 = 18;
pub const KEY_R: u16 = 19;
pub const KEY_T: u16 = 20;
pub const KEY_Y: u16 = 21;
pub const KEY_U: u16 = 22;
pub const KEY_I: u16 = 23;
pub const KEY_O: u16 = 24;
pub const KEY_P: u16 = 25;
pub const KEY_A: u16 = 30;
pub const KEY_S: u16 = 31;
pub const KEY_D: u16 = 32;
pub const KEY_F: u16 = 33;
pub const KEY_G: u16 = 34;
pub const KEY_H: u16 = 35;
pub const KEY_J: u16 = 36;
pub const KEY_K: u16 = 37;
pub const KEY_L: u16 = 38;
pub const KEY_Z: u16 = 44;
pub const KEY_X: u16 = 45;
pub const KEY_C: u16 = 46;
pub const KEY_V: u16 = 47;
pub const KEY_B: u16 = 48;
pub const KEY_N: u16 = 49;
pub const KEY_M: u16 = 50;
pub const KEY_1: u16 = 2;
pub const KEY_2: u16 = 3;
pub const KEY_3: u16 = 4;
pub const KEY_4: u16 = 5;
pub const KEY_5: u16 = 6;
pub const KEY_6: u16 = 7;
pub const KEY_7: u16 = 8;
pub const KEY_8: u16 = 9;
pub const KEY_9: u16 = 10;
pub const KEY_0: u16 = 11;
pub const KEY_ESC: u16 = 1;
pub const KEY_BACKSPACE: u16 = 14;
pub const KEY_ENTER: u16 = 28;
pub const KEY_TAB: u16 = 15;
pub const KEY_SPACE: u16 = 57;
pub const KEY_KPPLUS: u16 = 78;
pub const KEY_MINUS: u16 = 12;
pub const KEY_EQUAL: u16 = 13;
pub const KEY_GRAVE: u16 = 41;
pub const KEY_SYSRQ: u16 = 99;
pub const KEY_VOLUMEUP: u16 = 115;
pub const KEY_VOLUMEDOWN: u16 = 114;
pub const KEY_MUTE: u16 = 113;
pub const KEY_BRIGHTNESSUP: u16 = 225;
pub const KEY_BRIGHTNESSDOWN: u16 = 224;
pub const KEY_PLAYPAUSE: u16 = 164;
pub const KEY_PREVIOUSSONG: u16 = 165;
pub const KEY_NEXTSONG: u16 = 163;
pub const KEY_STOP: u16 = 128;
pub const KEY_MEDIA: u16 = 226;
pub const KEY_COMMA: u16 = 51;
pub const KEY_DOT: u16 = 52;
pub const KEY_SLASH: u16 = 53;
pub const KEY_QUESTION: u16 = 214;
pub const KEY_BACKSLASH: u16 = 43;
pub const KEY_LEFTBRACE: u16 = 26;
pub const KEY_RIGHTBRACE: u16 = 27;
pub const KEY_SEMICOLON: u16 = 39;
pub const KEY_APOSTROPHE: u16 = 40;
pub const KEY_LEFT: u16 = 105;
pub const KEY_RIGHT: u16 = 106;
pub const KEY_UP: u16 = 103;
pub const KEY_DOWN: u16 = 108;
pub const KEY_PAUSE: u16 = 119;
pub const KEY_HOME: u16 = 102;
pub const KEY_DELETE: u16 = 111;
pub const KEY_INSERT: u16 = 110;
pub const KEY_END: u16 = 107;
pub const KEY_PAGEDOWN: u16 = 109;
pub const KEY_PAGEUP: u16 = 104;
pub const KEY_F1: u16 = 59;
pub const KEY_F2: u16 = 60;
pub const KEY_F3: u16 = 61;
pub const KEY_F4: u16 = 62;
pub const KEY_F5: u16 = 63;
pub const KEY_F6: u16 = 64;
pub const KEY_F7: u16 = 65;
pub const KEY_F8: u16 = 66;
pub const KEY_F9: u16 = 67;
pub const KEY_F10: u16 = 68;
pub const KEY_F11: u16 = 87;
pub const KEY_F12: u16 = 88;
pub const KEY_F13: u16 = 183;
pub const KEY_F14: u16 = 184;
pub const KEY_F15: u16 = 185;
pub const KEY_F16: u16 = 186;
pub const KEY_F17: u16 = 187;
pub const KEY_F18: u16 = 188;
pub const KEY_F19: u16 = 189;
pub const KEY_F20: u16 = 190;
pub const KEY_F21: u16 = 191;
pub const KEY_F22: u16 = 192;
pub const KEY_F23: u16 = 193;
pub const KEY_F24: u16 = 194;

/// The code of the key that a lower-case name stands for.
pub open spec fn keysym_of(s: Seq<char>) -> Option<u16> {
    if s == "q"@ {
        Some(KEY_Q)
    } else if s == "w"@ {
        Some(KEY_W)
    } else if s == "e"@ {
        Some(KEY_E)
    } else if s == "r"@ {
        Some(KEY_R)
    } else if s == "t"@ {
        Some(KEY_T)
    } else if s == "y"@ {
        Some(KEY_Y)
    } else if s == "u"@ {
        Some(KEY_U)
    } else if s == "i"@ {
        Some(KEY_I)
    } else if s == "o"@ {
        Some(KEY_O)
    } else if s == "p"@ {
        Some(KEY_P)
    } else if s == "a"@ {
        Some(KEY_A)
    } else if s == "s"@ {
        Some(KEY_S)
    } else if s == "d"@ {
        Some(KEY_D)
    } else if s == "f"@ {
        Some(KEY_F)
    } else if s == "g"@ {
        Some(KEY_G)
    } else if s == "h"@ {
        Some(KEY_H)
    } else if s == "j"@ {
        Some(KEY_J)
    } else if s == "k"@ {
        Some(KEY_K)
    } else if s == "l"@ {
        Some(KEY_L)
    } else if s == "z"@ {
        Some(KEY_Z)
    } else if s == "x"@ {
        Some(KEY_X)
    } else if s == "c"@ {
        Some(KEY_C)
    } else if s == "v"@ {
        Some(KEY_V)
    } else if s == "b"@ {
        Some(KEY_B)
    } else if s == "n"@ {
        Some(KEY_N)
    } else if s == "m"@ {
        Some(KEY_M)
    } else if s == "1"@ {
        Some(KEY_1)
    } else if s == "2"@ {
        Some(KEY_2)
    } else if s == "3"@ {
        Some(KEY_3)
    } else if s == "4"@ {
        Some(KEY_4)
    } else if s == "5"@ {
        Some(KEY_5)
    } else if s == "6"@ {
        Some(KEY_6)
    } else if s == "7"@ {
        Some(KEY_7)
    } else if s == "8"@ {
        Some(KEY_8)
    } else if s == "9"@ {
        Some(KEY_9)
    } else if s == "0"@ {
        Some(KEY_0)
    } else if s == "escape"@ {
        Some(KEY_ESC)
    } else if s == "backspace"@ {
        Some(KEY_BACKSPACE)
    } else if s == "return"@ {
        Some(KEY_ENTER)
    } else if s == "enter"@ {
        Some(KEY_ENTER)
    } else if s == "tab"@ {
        Some(KEY_TAB)
    } else if s == "space"@ {
        Some(KEY_SPACE)
    } else if s == "plus"@ {
        Some(KEY_KPPLUS)
    } else if s == "minus"@ {
        Some(KEY_MINUS)
    } else if s == "-"@ {
        Some(KEY_MINUS)
    } else if s == "equal"@ {
        Some(KEY_EQUAL)
    } else if s == "="@ {
        Some(KEY_EQUAL)
    } else if s == "grave"@ {
        Some(KEY_GRAVE)
    } else if s == "`"@ {
        Some(KEY_GRAVE)
    } else if s == "print"@ {
        Some(KEY_SYSRQ)
    } else if s == "volumeup"@ {
        Some(KEY_VOLUMEUP)
    } else if s == "xf86audioraisevolume"@ {
        Some(KEY_VOLUMEUP)
    } else if s == "volumedown"@ {
        Some(KEY_VOLUMEDOWN)
    } else if s == "xf86audiolowervolume"@ {
        Some(KEY_VOLUMEDOWN)
    } else if s == "mute"@ {
        Some(KEY_MUTE)
    } else if s == "xf86audiomute"@ {
        Some(KEY_MUTE)
    } else if s == "brightnessup"@ {
        Some(KEY_BRIGHTNESSUP)
    } else if s == "xf86monbrightnessup"@ {
        Some(KEY_BRIGHTNESSUP)
    } else if s == "brightnessdown"@ {
        Some(KEY_BRIGHTNESSDOWN)
    } else if s == "xf86monbrightnessdown"@ {
        Some(KEY_BRIGHTNESSDOWN)
    } else if s == "xf86audioplay"@ {
        Some(KEY_PLAYPAUSE)
    } else if s == "xf86audioprev"@ {
        Some(KEY_PREVIOUSSONG)
    } else if s == "xf86audionext"@ {
        Some(KEY_NEXTSONG)
    } else if s == "xf86audiostop"@ {
        Some(KEY_STOP)
    } else if s == "xf86audiomedia"@ {
        Some(KEY_MEDIA)
    } else if s == ","@ {
        Some(KEY_COMMA)
    } else if s == "comma"@ {
        Some(KEY_COMMA)
    } else if s == "."@ {
        Some(KEY_DOT)
    } else if s == "dot"@ {
        Some(KEY_DOT)
    } else if s == "period"@ {
        Some(KEY_DOT)
    } else if s == "/"@ {
        Some(KEY_SLASH)
    } else if s == "question"@ {
        Some(KEY_QUESTION)
    } else if s == "slash"@ {
        Some(KEY_SLASH)
    } else if s == "backslash"@ {
        Some(KEY_BACKSLASH)
    } else if s == "leftbrace"@ {
        Some(KEY_LEFTBRACE)
    } else if s == "["@ {
        Some(KEY_LEFTBRACE)
    } else if s == "bracketleft"@ {
        Some(KEY_LEFTBRACE)
    } else if s == "rightbrace"@ {
        Some(KEY_RIGHTBRACE)
    } else if s == "]"@ {
        Some(KEY_RIGHTBRACE)
    } else if s == "bracketright"@ {
        Some(KEY_RIGHTBRACE)
    } else if s == ";"@ {
        Some(KEY_SEMICOLON)
    } else if s == "semicolon"@ {
        Some(KEY_SEMICOLON)
    } else if s == "'"@ {
        Some(KEY_APOSTROPHE)
    } else if s == "apostrophe"@ {
        Some(KEY_APOSTROPHE)
    } else if s == "left"@ {
        Some(KEY_LEFT)
    } else if s == "right"@ {
        Some(KEY_RIGHT)
    } else if s == "up"@ {
        Some(KEY_UP)
    } else if s == "down"@ {
        Some(KEY_DOWN)
    } else if s == "pause"@ {
        Some(KEY_PAUSE)
    } else if s == "home"@ {
        Some(KEY_HOME)
    } else if s == "delete"@ {
        Some(KEY_DELETE)
    } else if s == "insert"@ {
        Some(KEY_INSERT)
    } else if s == "end"@ {
        Some(KEY_END)
    } else if s == "prior"@ {
        Some(KEY_PAGEDOWN)
    } else if s == "next"@ {
        Some(KEY_PAGEUP)
    } else if s == "pagedown"@ {
        Some(KEY_PAGEDOWN)
    } else if s == "pageup"@ {
        Some(KEY_PAGEUP)
    } else if s == "f1"@ {
        Some(KEY_F1)
    } else if s == "f2"@ {
        Some(KEY_F2)
    } else if s == "f3"@ {
        Some(KEY_F3)
    } else if s == "f4"@ {
        Some(KEY_F4)
    } else if s == "f5"@ {
        Some(KEY_F5)
    } else if s == "f6"@ {
        Some(KEY_F6)
    } else if s == "f7"@ {
        Some(KEY_F7)
    } else if s == "f8"@ {
        Some(KEY_F8)
    } else if s == "f9"@ {
        Some(KEY_F9)
    } else if s == "f10"@ {
        Some(KEY_F10)
    } else if s == "f11"@ {
        Some(KEY_F11)
    } else if s == "f12"@ {
        Some(KEY_F12)
    } else if s == "f13"@ {
        Some(KEY_F13)
    } else if s == "f14"@ {
        Some(KEY_F14)
    } else if s == "f15"@ {
        Some(KEY_F15)
    } else if s == "f16"@ {
        Some(KEY_F16)
    } else if s == "f17"@ {
        Some(KEY_F17)
    } else if s == "f18"@ {
        Some(KEY_F18)
    } else if s == "f19"@ {
        Some(KEY_F19)
    } else if s == "f20"@ {
        Some(KEY_F20)
    } else if s == "f21"@ {
        Some(KEY_F21)
    } else if s == "f22"@ {
        Some(KEY_F22)
    } else if s == "f23"@ {
        Some(KEY_F23)
    } else if s == "f24"@ {
        Some(KEY_F24)
    } else {
        None
    }
}

/// The code of the key named by `name`, which is already in lower case.
pub fn keysym_from_lowercase(name: &str) -> (r: Option<u16>)
    ensures
        r == keysym_of(name@),
{
    if same_text(name, "q") {
        Some(KEY_Q)
    } else if same_text(name, "w") {
        Some(KEY_W)
    } else if same_text(name, "e") {
        Some(KEY_E)
    } else if same_text(name, "r") {
        Some(KEY_R)
    } else if same_text(name, "t") {
        Some(KEY_T)
    } else if same_text(name, "y") {
        Some(KEY_Y)
    } else if same_text(name, "u") {
        Some(KEY_U)
    } else if same_text(name, "i") {
        Some(KEY_I)
    } else if same_text(name, "o") {
        Some(KEY_O)
    } else if same_text(name, "p") {
        Some(KEY_P)
    } else if same_text(name, "a") {
        Some(KEY_A)
    } else if same_text(name, "s") {
        Some(KEY_S)
    } else if same_text(name, "d") {
        Some(KEY_D)
    } else if same_text(name, "f") {
        Some(KEY_F)
    } else if same_text(name, "g") {
        Some(KEY_G)
    } else if same_text(name, "h") {
        Some(KEY_H)
    } else if same_text(name, "j") {
        Some(KEY_J)
    } else if same_text(name, "k") {
        Some(KEY_K)
    } else if same_text(name, "l") {
        Some(KEY_L)
    } else if same_text(name, "z") {
        Some(KEY_Z)
    } else if same_text(name, "x") {
        Some(KEY_X)
    } else if same_text(name, "c") {
        Some(KEY_C)
    } else if same_text(name, "v") {
        Some(KEY_V)
    } else if same_text(name, "b") {
        Some(KEY_B)
    } else if same_text(name, "n") {
        Some(KEY_N)
    } else if same_text(name, "m") {
        Some(KEY_M)
    } else if same_text(name, "1") {
        Some(KEY_1)
    } else if same_text(name, "2") {
        Some(KEY_2)
    } else if same_text(name, "3") {
        Some(KEY_3)
    } else if same_text(name, "4") {
        Some(KEY_4)
    } else if same_text(name, "5") {
        Some(KEY_5)
    } else if same_text(name, "6") {
        Some(KEY_6)
    } else if same_text(name, "7") {
        Some(KEY_7)
    } else if same_text(name, "8") {
        Some(KEY_8)
    } else if same_text(name, "9") {
        Some(KEY_9)
    } else if same_text(name, "0") {
        Some(KEY_0)
    } else if same_text(name, "escape") {
        Some(KEY_ESC)
    } else if same_text(name, "backspace") {
        Some(KEY_BACKSPACE)
    } else if same_text(name, "return") {
        Some(KEY_ENTER)
    } else if same_text(name, "enter") {
        Some(KEY_ENTER)
    } else if same_text(name, "tab") {
        Some(KEY_TAB)
    } else if same_text(name, "space") {
        Some(KEY_SPACE)
    } else if same_text(name, "plus") {
        Some(KEY_KPPLUS)
    } else if same_text(name, "minus") {
        Some(KEY_MINUS)
    } else if same_text(name, "-") {
        Some(KEY_MINUS)
    } else if same_text(name, "equal") {
        Some(KEY_EQUAL)
    } else if same_text(name, "=") {
        Some(KEY_EQUAL)
    } else if same_text(name, "grave") {
        Some(KEY_GRAVE)
    } else if same_text(name, "`") {
        Some(KEY_GRAVE)
    } else if same_text(name, "print") {
        Some(KEY_SYSRQ)
    } else if same_text(name, "volumeup") {
        Some(KEY_VOLUMEUP)
    } else if same_text(name, "xf86audioraisevolume") {
        Some(KEY_VOLUMEUP)
    } else if same_text(name, "volumedown") {
        Some(KEY_VOLUMEDOWN)
    } else if same_text(name, "xf86audiolowervolume") {
        Some(KEY_VOLUMEDOWN)
    } else if same_text(name, "mute") {
        Some(KEY_MUTE)
    } else if same_text(name, "xf86audiomute") {
        Some(KEY_MUTE)
    } else if same_text(name, "brightnessup") {
        Some(KEY_BRIGHTNESSUP)
    } else if same_text(name, "xf86monbrightnessup") {
        Some(KEY_BRIGHTNESSUP)
    } else if same_text(name, "brightnessdown") {
        Some(KEY_BRIGHTNESSDOWN)
    } else if same_text(name, "xf86monbrightnessdown") {
        Some(KEY_BRIGHTNESSDOWN)
    } else if same_text(name, "xf86audioplay") {
        Some(KEY_PLAYPAUSE)
    } else if same_text(name, "xf86audioprev") {
        Some(KEY_PREVIOUSSONG)
    } else if same_text(name, "xf86audionext") {
        Some(KEY_NEXTSONG)
    } else if same_text(name, "xf86audiostop") {
        Some(KEY_STOP)
    } else if same_text(name, "xf86audiomedia") {
        Some(KEY_MEDIA)
    } else if same_text(name, ",") {
        Some(KEY_COMMA)
    } else if same_text(name, "comma") {
        Some(KEY_COMMA)
    } else if same_text(name, ".") {
        Some(KEY_DOT)
    } else if same_text(name, "dot") {
        Some(KEY_DOT)
    } else if same_text(name, "period") {
        Some(KEY_DOT)
    } else if same_text(name, "/") {
        Some(KEY_SLASH)
    } else if same_text(name, "question") {
        Some(KEY_QUESTION)
    } else if same_text(name, "slash") {
        Some(KEY_SLASH)
    } else if same_text(name, "backslash") {
        Some(KEY_BACKSLASH)
    } else if same_text(name, "leftbrace") {
        Some(KEY_LEFTBRACE)
    } else if same_text(name, "[") {
        Some(KEY_LEFTBRACE)
    } else if same_text(name, "bracketleft") {
        Some(KEY_LEFTBRACE)
    } else if same_text(name, "rightbrace") {
        Some(KEY_RIGHTBRACE)
    } else if same_text(name, "]") {
        Some(KEY_RIGHTBRACE)
    } else if same_text(name, "bracketright") {
        Some(KEY_RIGHTBRACE)
    } else if same_text(name, ";") {
        Some(KEY_SEMICOLON)
    } else if same_text(name, "semicolon") {
        Some(KEY_SEMICOLON)
    } else if same_text(name, "'") {
        Some(KEY_APOSTROPHE)
    } else if same_text(name, "apostrophe") {
        Some(KEY_APOSTROPHE)
    } else if same_text(name, "left") {
        Some(KEY_LEFT)
    } else if same_text(name, "right") {
        Some(KEY_RIGHT)
    } else if same_text(name, "up") {
        Some(KEY_UP)
    } else if same_text(name, "down") {
        Some(KEY_DOWN)
    } else if same_text(name, "pause") {
        Some(KEY_PAUSE)
    } else if same_text(name, "home") {
        Some(KEY_HOME)
    } else if same_text(name, "delete") {
        Some(KEY_DELETE)
    } else if same_text(name, "insert") {
        Some(KEY_INSERT)
    } else if same_text(name, "end") {
        Some(KEY_END)
    } else if same_text(name, "prior") {
        Some(KEY_PAGEDOWN)
    } else if same_text(name, "next") {
        Some(KEY_PAGEUP)
    } else if same_text(name, "pagedown") {
        Some(KEY_PAGEDOWN)
    } else if same_text(name, "pageup") {
        Some(KEY_PAGEUP)
    } else if same_text(name, "f1") {
        Some(KEY_F1)
    } else if same_text(name, "f2") {
        Some(KEY_F2)
    } else if same_text(name, "f3") {
        Some(KEY_F3)
    } else if same_text(name, "f4") {
        Some(KEY_F4)
    } else if same_text(name, "f5") {
        Some(KEY_F5)
    } else if same_text(name, "f6") {
        Some(KEY_F6)
    } else if same_text(name, "f7") {
        Some(KEY_F7)
    } else if same_text(name, "f8") {
        Some(KEY_F8)
    } else if same_text(name, "f9") {
        Some(KEY_F9)
    } else if same_text(name, "f10") {
        Some(KEY_F10)
    } else if same_text(name, "f11") {
        Some(KEY_F11)
    } else if same_text(name, "f12") {
        Some(KEY_F12)
    } else if same_text(name, "f13") {
        Some(KEY_F13)
    } else if same_text(name, "f14") {
        Some(KEY_F14)
    } else if same_text(name, "f15") {
        Some(KEY_F15)
    } else if same_text(name, "f16") {
        Some(KEY_F16)
    } else if same_text(name, "f17") {
        Some(KEY_F17)
    } else if same_text(name, "f18") {
        Some(KEY_F18)
    } else if same_text(name, "f19") {
        Some(KEY_F19)
    } else if same_text(name, "f20") {
        Some(KEY_F20)
    } else if same_text(name, "f21") {
        Some(KEY_F21)
    } else if same_text(name, "f22") {
        Some(KEY_F22)
    } else if same_text(name, "f23") {
        Some(KEY_F23)
    } else if same_text(name, "f24") {
        Some(KEY_F24)
    } else {
        None
    }
}

/// The code of the key named by `name`, whatever its case.
pub fn match_keysym(name: &str) -> (r: Option<u16>)
    ensures
        r == keysym_of(lower_of(name@)),
        all_ascii(name@) ==> r == keysym_of(ascii_lower(name@)),
{
    let lower = to_lower(name);
    keysym_from_lowercase(lower.as_str())
}

} // verus!
