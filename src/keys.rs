//! Virtual keys: the keys a hotkey can press, their names in a
//! configuration file, and their Windows virtual-key codes.
use vstd::prelude::*;

use crate::text::chars_of;

verus! {

/// Virtual-key codes the consumer treats specially.
pub const VK_BACK: i32 = 0x08;
pub const VK_SPACE: i32 = 0x20;
pub const VK_UP: i32 = 0x26;
pub const VK_DOWN: i32 = 0x28;

#[derive(Debug, Clone, Copy, PartialEq, Eq, Structural)]
pub enum KeyDirection {
    Up,
    Down,
}

pub open spec fn is_ascii_graphic(c: char) -> bool {
    '!' <= c && c <= '~'
}

pub open spec fn is_ascii_lowercase(c: char) -> bool {
    'a' <= c && c <= 'z'
}

pub open spec fn is_ascii_uppercase(c: char) -> bool {
    'A' <= c && c <= 'Z'
}

/// The code of the key that types `c`: letters in upper case, other ASCII
/// graphic characters as they are; none for anything else.
pub open spec fn graphic_code(c: char) -> Option<u32> {
    if is_ascii_lowercase(c) {
        Some((c as u32 - 32) as u32)
    } else if is_ascii_graphic(c) {
        Some(c as u32)
    } else {
        None
    }
}

/// A key that types an ASCII graphic character; letters are held in upper
/// case, as their keys are.
#[derive(Debug, Clone, Copy, PartialEq, Eq, Structural)]
pub struct GraphicKey {
    ch: char,
}

impl GraphicKey {
    #[verifier::type_invariant]
    spec fn graphic_upper(&self) -> bool {
        is_ascii_graphic(self.ch) && !is_ascii_lowercase(self.ch)
    }

    /// The character the key stands for.
    pub closed spec fn spec_char(&self) -> char {
        self.ch
    }

    /// The key for `ch`, if it is an ASCII graphic character.
    pub fn new(ch: char) -> (r: Option<Self>)
        ensures
            r is Some <==> graphic_code(ch) is Some,
            r matches Some(k) ==> k.spec_char() as u32 == graphic_code(ch)->0,
    {
        if 'a' <= ch && ch <= 'z' {
            let upper = ((ch as u32) - 32) as u8 as char;
            Some(GraphicKey { ch: upper })
        } else if '!' <= ch && ch <= '~' {
            Some(GraphicKey { ch: ch })
        } else {
            None
        }
    }

    /// The character the key stands for.
    pub fn char(&self) -> (r: char)
        ensures
            r == self.spec_char(),
            is_ascii_graphic(r) && !is_ascii_lowercase(r),
    {
        proof {
            use_type_invariant(self);
        }
        self.ch
    }
}

/// A key that a hotkey combination can press.
#[derive(Debug, Clone, Copy, PartialEq, Eq, Structural)]
pub enum VirtualKey {
    Shift,
    Alt,
    Control,
    Escape,
    Space,
    Enter,
    F1,
    F2,
    F3,
    F4,
    F5,
    F6,
    F7,
    F8,
    F9,
    F10,
    F11,
    F12,
    Graphic(GraphicKey),
}

/// The Windows virtual-key code of `k`.
pub open spec fn vk_code(k: VirtualKey) -> u8 {
    match k {
        VirtualKey::Shift => 0x10,
        VirtualKey::Alt => 0x12,
        VirtualKey::Control => 0x11,
        VirtualKey::Escape => 0x1B,
        VirtualKey::Space => 0x20,
        VirtualKey::Enter => 0x0D,
        VirtualKey::F1 => 0x70,
        VirtualKey::F2 => 0x71,
        VirtualKey::F3 => 0x72,
        VirtualKey::F4 => 0x73,
        VirtualKey::F5 => 0x74,
        VirtualKey::F6 => 0x75,
        VirtualKey::F7 => 0x76,
        VirtualKey::F8 => 0x77,
        VirtualKey::F9 => 0x78,
        VirtualKey::F10 => 0x79,
        VirtualKey::F11 => 0x7A,
        VirtualKey::F12 => 0x7B,
        VirtualKey::Graphic(g) => g.spec_char() as u8,
    }
}

/// `s` spells `name` in any ASCII case (`name` is lower case).
pub open spec fn spells(s: Seq<char>, name: Seq<char>) -> bool {
    &&& s.len() == name.len()
    &&& forall|i: int|
        0 <= i < s.len() ==> s[i] == name[i] || (is_ascii_uppercase(s[i]) && s[i] as u32 + 32
            == name[i] as u32)
}

/// The key a multi-character name stands for, in any ASCII case.
pub open spec fn named_key(s: Seq<char>) -> Option<VirtualKey> {
    if spells(s, seq!['s', 'h', 'i', 'f', 't']) {
        Some(VirtualKey::Shift)
    } else if spells(s, seq!['a', 'l', 't']) {
        Some(VirtualKey::Alt)
    } else if spells(s, seq!['c', 'o', 'n', 't', 'r', 'o', 'l']) || spells(s, seq!['c', 't', 'r', 'l']) {
        Some(VirtualKey::Control)
    } else if spells(s, seq!['e', 's', 'c', 'a', 'p', 'e']) {
        Some(VirtualKey::Escape)
    } else if spells(s, seq!['s', 'p', 'a', 'c', 'e']) {
        Some(VirtualKey::Space)
    } else if spells(s, seq!['e', 'n', 't', 'e', 'r']) {
        Some(VirtualKey::Enter)
    } else if spells(s, seq!['f', '1']) {
        Some(VirtualKey::F1)
    } else if spells(s, seq!['f', '2']) {
        Some(VirtualKey::F2)
    } else if spells(s, seq!['f', '3']) {
        Some(VirtualKey::F3)
    } else if spells(s, seq!['f', '4']) {
        Some(VirtualKey::F4)
    } else if spells(s, seq!['f', '5']) {
        Some(VirtualKey::F5)
    } else if spells(s, seq!['f', '6']) {
        Some(VirtualKey::F6)
    } else if spells(s, seq!['f', '7']) {
        Some(VirtualKey::F7)
    } else if spells(s, seq!['f', '8']) {
        Some(VirtualKey::F8)
    } else if spells(s, seq!['f', '9']) {
        Some(VirtualKey::F9)
    } else if spells(s, seq!['f', '1', '0']) {
        Some(VirtualKey::F10)
    } else if spells(s, seq!['f', '1', '1']) {
        Some(VirtualKey::F11)
    } else if spells(s, seq!['f', '1', '2']) {
        Some(VirtualKey::F12)
    } else {
        None
    }
}

/// The graphic key for character code `code`.
pub open spec fn graphic_key_for(code: u32) -> GraphicKey {
    choose|g: GraphicKey| g.spec_char() as u32 == code
}

/// The key that the name `s` denotes: a single character is a graphic key
/// (none if it is not ASCII graphic), a longer name a named key.
pub open spec fn parse_key(s: Seq<char>) -> Option<VirtualKey> {
    if s.len() == 1 {
        match graphic_code(s[0]) {
            Some(code) => Some(VirtualKey::Graphic(graphic_key_for(code))),
            None => None,
        }
    } else {
        named_key(s)
    }
}

/// Whether `s` spells the lower-case `name` in any ASCII case.
fn spells_exec(s: &Vec<char>, name: &[char]) -> (r: bool)
    ensures
        r == spells(s@, name@),
{
    if s.len() != name.len() {
        return false;
    }
    let mut i: usize = 0;
    while i < s.len()
        invariant
            s@.len() == name@.len(),
            i <= s@.len(),
            forall|k: int|
                0 <= k < i ==> s@[k] == name@[k] || (is_ascii_uppercase(s@[k]) && s@[k] as u32 + 32
                    == name@[k] as u32),
        decreases s@.len() - i,
    {
        let c = s[i];
        let n = name[i];
        if !(c == n || ('A' <= c && c <= 'Z' && (c as u32) + 32 == n as u32)) {
            return false;
        }
        i += 1;
    }
    true
}

impl VirtualKey {
    /// The key that a hotkey name denotes: one ASCII graphic character, or
    /// one of the names `shift`, `alt`, `control` (or `ctrl`), `escape`,
    /// `space`, `enter`, `f1` to `f12` in any ASCII case.
    pub fn parse(key: &str) -> (r: Option<VirtualKey>)
        ensures
            r == parse_key(key@),
    {
        let chars = chars_of(key);
        Self::parse_chars(&chars)
    }

    /// The key that the characters `chars` name, as `parse` reads them.
    pub fn parse_chars(chars: &Vec<char>) -> (r: Option<VirtualKey>)
        ensures
            r == parse_key(chars@),
    {
        if chars.len() == 1 {
            return match GraphicKey::new(chars[0]) {
                Some(g) => {
                    proof {
                        let code = graphic_code(chars@[0])->0;
                        let h = graphic_key_for(code);
                        assert(g.spec_char() as u32 == code);
                        assert(h.spec_char() as u32 == code);
                        assert(h.spec_char() == g.spec_char());
                        assert(h == g);
                    }
                    Some(VirtualKey::Graphic(g))
                },
                None => None,
            };
        }
        let s = &chars;
        if spells_exec(s, &['s', 'h', 'i', 'f', 't']) {
            Some(VirtualKey::Shift)
        } else if spells_exec(s, &['a', 'l', 't']) {
            Some(VirtualKey::Alt)
        } else if spells_exec(s, &['c', 'o', 'n', 't', 'r', 'o', 'l']) || spells_exec(s, &['c', 't', 'r', 'l']) {
            Some(VirtualKey::Control)
        } else if spells_exec(s, &['e', 's', 'c', 'a', 'p', 'e']) {
            Some(VirtualKey::Escape)
        } else if spells_exec(s, &['s', 'p', 'a', 'c', 'e']) {
            Some(VirtualKey::Space)
        } else if spells_exec(s, &['e', 'n', 't', 'e', 'r']) {
            Some(VirtualKey::Enter)
        } else if spells_exec(s, &['f', '1']) {
            Some(VirtualKey::F1)
        } else if spells_exec(s, &['f', '2']) {
            Some(VirtualKey::F2)
        } else if spells_exec(s, &['f', '3']) {
            Some(VirtualKey::F3)
        } else if spells_exec(s, &['f', '4']) {
            Some(VirtualKey::F4)
        } else if spells_exec(s, &['f', '5']) {
            Some(VirtualKey::F5)
        } else if spells_exec(s, &['f', '6']) {
            Some(VirtualKey::F6)
        } else if spells_exec(s, &['f', '7']) {
            Some(VirtualKey::F7)
        } else if spells_exec(s, &['f', '8']) {
            Some(VirtualKey::F8)
        } else if spells_exec(s, &['f', '9']) {
            Some(VirtualKey::F9)
        } else if spells_exec(s, &['f', '1', '0']) {
            Some(VirtualKey::F10)
        } else if spells_exec(s, &['f', '1', '1']) {
            Some(VirtualKey::F11)
        } else if spells_exec(s, &['f', '1', '2']) {
            Some(VirtualKey::F12)
        } else {
            None
        }
    }
}

impl From<VirtualKey> for u8 {
    /// The key's Windows virtual-key code.
    fn from(vk: VirtualKey) -> (r: u8) {
        match vk {
            VirtualKey::Shift => 0x10,
            VirtualKey::Alt => 0x12,
            VirtualKey::Control => 0x11,
            VirtualKey::Escape => 0x1B,
            VirtualKey::Space => 0x20,
            VirtualKey::Enter => 0x0D,
            VirtualKey::F1 => 0x70,
            VirtualKey::F2 => 0x71,
            VirtualKey::F3 => 0x72,
            VirtualKey::F4 => 0x73,
            VirtualKey::F5 => 0x74,
            VirtualKey::F6 => 0x75,
            VirtualKey::F7 => 0x76,
            VirtualKey::F8 => 0x77,
            VirtualKey::F9 => 0x78,
            VirtualKey::F10 => 0x79,
            VirtualKey::F11 => 0x7A,
            VirtualKey::F12 => 0x7B,
            VirtualKey::Graphic(g) => g.char() as u8,
        }
    }
}

impl vstd::std_specs::convert::FromSpecImpl<VirtualKey> for u8 {
    open spec fn obeys_from_spec() -> bool {
        true
    }

    open spec fn from_spec(vk: VirtualKey) -> u8 {
        vk_code(vk)
    }
}

impl From<GraphicKey> for char {
    fn from(gk: GraphicKey) -> (r: char) {
        gk.char()
    }
}

impl vstd::std_specs::convert::FromSpecImpl<GraphicKey> for char {
    open spec fn obeys_from_spec() -> bool {
        true
    }

    open spec fn from_spec(gk: GraphicKey) -> char {
        gk.spec_char()
    }
}

/// The character a virtual-key code types while the quasimode is on:
/// digits, upper-case letters and space; none for any other key.
pub fn vkey_to_char(vk_code: i32) -> (r: Option<char>)
    ensures
        r is Some <==> (0x30 <= vk_code <= 0x39 || 0x41 <= vk_code <= 0x5A || vk_code == VK_SPACE),
        r matches Some(c) ==> c as u32 == vk_code as u32,
{
    if (0x30 <= vk_code && vk_code <= 0x39) || (0x41 <= vk_code && vk_code <= 0x5A) {
        Some(vk_code as u8 as char)
    } else if vk_code == VK_SPACE {
        Some(' ')
    } else {
        None
    }
}

} // verus!
