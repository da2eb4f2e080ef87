//! The table of named keys: the tokens that a script may write for keys that
//! are not a single literal character.
use vstd::prelude::*;
use crate::text::token_is;

verus! {

/// A key named in the table (navigation keys, modifiers, editing keys and the
/// function keys F1 to F20).
#[derive(Clone, Copy, Debug, PartialEq, Eq, Hash)]
pub enum NamedKey {
    Alt,
    Backspace,
    CapsLock,
    Control,
    Delete,
    DownArrow,
    End,
    Escape,
    F1,
    F2,
    F3,
    F4,
    F5,
    F6,
    F7,
    F8,
    F9,
    F10,
    F11,
    F12,
    F13,
    F14,
    F15,
    F16,
    F17,
    F18,
    F19,
    F20,
    Home,
    LeftArrow,
    Meta,
    Option,
    PageDown,
    PageUp,
    Return,
    RightArrow,
    Shift,
    Space,
    Tab,
    UpArrow,
}

/// The named key that the token `t` stands for: an exact, case-sensitive match
/// against the table, or `None`.
pub open spec fn key_table(t: Seq<char>) -> Option<NamedKey> {
    if t == "alt"@ {
        Some(NamedKey::Alt)
    } else if t == "back_space"@ {
        Some(NamedKey::Backspace)
    } else if t == "caps_lock"@ {
        Some(NamedKey::CapsLock)
    } else if t == "control"@ {
        Some(NamedKey::Control)
    } else if t == "delete"@ {
        Some(NamedKey::Delete)
    } else if t == "down_arrow"@ {
        Some(NamedKey::DownArrow)
    } else if t == "end"@ {
        Some(NamedKey::End)
    } else if t == "escape"@ {
        Some(NamedKey::Escape)
    } else if t == "f1"@ {
        Some(NamedKey::F1)
    } else if t == "f2"@ {
        Some(NamedKey::F2)
    } else if t == "f3"@ {
        Some(NamedKey::F3)
    } else if t == "f4"@ {
        Some(NamedKey::F4)
    } else if t == "f5"@ {
        Some(NamedKey::F5)
    } else if t == "f6"@ {
        Some(NamedKey::F6)
    } else if t == "f7"@ {
        Some(NamedKey::F7)
    } else if t == "f8"@ {
        Some(NamedKey::F8)
    } else if t == "f9"@ {
        Some(NamedKey::F9)
    } else if t == "f10"@ {
        Some(NamedKey::F10)
    } else if t == "f11"@ {
        Some(NamedKey::F11)
    } else if t == "f12"@ {
        Some(NamedKey::F12)
    } else if t == "f13"@ {
        Some(NamedKey::F13)
    } else if t == "f14"@ {
        Some(NamedKey::F14)
    } else if t == "f15"@ {
        Some(NamedKey::F15)
    } else if t == "f16"@ {
        Some(NamedKey::F16)
    } else if t == "f17"@ {
        Some(NamedKey::F17)
    } else if t == "f18"@ {
        Some(NamedKey::F18)
    } else if t == "f19"@ {
        Some(NamedKey::F19)
    } else if t == "f20"@ {
        Some(NamedKey::F20)
    } else if t == "home"@ {
        Some(NamedKey::Home)
    } else if t == "left_arrow"@ {
        Some(NamedKey::LeftArrow)
    } else if t == "meta"@ {
        Some(NamedKey::Meta)
    } else if t == "option"@ {
        Some(NamedKey::Option)
    } else if t == "page_down"@ {
        Some(NamedKey::PageDown)
    } else if t == "page_up"@ {
        Some(NamedKey::PageUp)
    } else if t == "return"@ {
        Some(NamedKey::Return)
    } else if t == "right_arrow"@ {
        Some(NamedKey::RightArrow)
    } else if t == "shift"@ {
        Some(NamedKey::Shift)
    } else if t == "space"@ {
        Some(NamedKey::Space)
    } else if t == "tab"@ {
        Some(NamedKey::Tab)
    } else if t == "up_arrow"@ {
        Some(NamedKey::UpArrow)
    } else {
        None
    }
}

/// Looks the token `chars[a..b]` up in the key table.
pub fn lookup_named_key(chars: &Vec<char>, a: usize, b: usize) -> (r: Option<NamedKey>)
    requires
        a <= b <= chars@.len(),
    ensures
        r == key_table(chars@.subrange(a as int, b as int)),
{
    if token_is(chars, a, b, "alt") {
        return Some(NamedKey::Alt);
    }
    if token_is(chars, a, b, "back_space") {
        return Some(NamedKey::Backspace);
    }
    if token_is(chars, a, b, "caps_lock") {
        return Some(NamedKey::CapsLock);
    }
    if token_is(chars, a, b, "control") {
        return Some(NamedKey::Control);
    }
    if token_is(chars, a, b, "delete") {
        return Some(NamedKey::Delete);
    }
    if token_is(chars, a, b, "down_arrow") {
        return Some(NamedKey::DownArrow);
    }
    if token_is(chars, a, b, "end") {
        return Some(NamedKey::End);
    }
    if token_is(chars, a, b, "escape") {
        return Some(NamedKey::Escape);
    }
    if token_is(chars, a, b, "f1") {
        return Some(NamedKey::F1);
    }
    if token_is(chars, a, b, "f2") {
        return Some(NamedKey::F2);
    }
    if token_is(chars, a, b, "f3") {
        return Some(NamedKey::F3);
    }
    if token_is(chars, a, b, "f4") {
        return Some(NamedKey::F4);
    }
    if token_is(chars, a, b, "f5") {
        return Some(NamedKey::F5);
    }
    if token_is(chars, a, b, "f6") {
        return Some(NamedKey::F6);
    }
    if token_is(chars, a, b, "f7") {
        return Some(NamedKey::F7);
    }
    if token_is(chars, a, b, "f8") {
        return Some(NamedKey::F8);
    }
    if token_is(chars, a, b, "f9") {
        return Some(NamedKey::F9);
    }
    if token_is(chars, a, b, "f10") {
        return Some(NamedKey::F10);
    }
    if token_is(chars, a, b, "f11") {
        return Some(NamedKey::F11);
    }
    if token_is(chars, a, b, "f12") {
        return Some(NamedKey::F12);
    }
    if token_is(chars, a, b, "f13") {
        return Some(NamedKey::F13);
    }
    if token_is(chars, a, b, "f14") {
        return Some(NamedKey::F14);
    }
    if token_is(chars, a, b, "f15") {
        return Some(NamedKey::F15);
    }
    if token_is(chars, a, b, "f16") {
        return Some(NamedKey::F16);
    }
    if token_is(chars, a, b, "f17") {
        return Some(NamedKey::F17);
    }
    if token_is(chars, a, b, "f18") {
        return Some(NamedKey::F18);
    }
    if token_is(chars, a, b, "f19") {
        return Some(NamedKey::F19);
    }
    if token_is(chars, a, b, "f20") {
        return Some(NamedKey::F20);
    }
    if token_is(chars, a, b, "home") {
        return Some(NamedKey::Home);
    }
    if token_is(chars, a, b, "left_arrow") {
        return Some(NamedKey::LeftArrow);
    }
    if token_is(chars, a, b, "meta") {
        return Some(NamedKey::Meta);
    }
    if token_is(chars, a, b, "option") {
        return Some(NamedKey::Option);
    }
    if token_is(chars, a, b, "page_down") {
        return Some(NamedKey::PageDown);
    }
    if token_is(chars, a, b, "page_up") {
        return Some(NamedKey::PageUp);
    }
    if token_is(chars, a, b, "return") {
        return Some(NamedKey::Return);
    }
    if token_is(chars, a, b, "right_arrow") {
        return Some(NamedKey::RightArrow);
    }
    if token_is(chars, a, b, "shift") {
        return Some(NamedKey::Shift);
    }
    if token_is(chars, a, b, "space") {
        return Some(NamedKey::Space);
    }
    if token_is(chars, a, b, "tab") {
        return Some(NamedKey::Tab);
    }
    if token_is(chars, a, b, "up_arrow") {
        return Some(NamedKey::UpArrow);
    }
    None
}

} // verus!
