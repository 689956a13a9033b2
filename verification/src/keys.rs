//! Keys as they are pressed, and the text that they type.
use vstd::prelude::*;

use crate::text;
use crate::text::{chars_of, is_control, push_char, same_text};

verus! {

/// A key that was pressed, with the keys that were held.
#[derive(Debug)]
pub struct KeyPress {
    pub key: String,
    /// The text that the key types, if any.
    pub key_char: Option<String>,
    pub shift: bool,
    pub control: bool,
    pub alt: bool,
    pub platform: bool,
}

/// Whether a text has a control character.
pub open spec fn has_control(s: Seq<char>) -> bool {
    exists|i: int| 0 <= i < s.len() && text::control(#[trigger] s[i])
}

/// Whether a text has a control character.
fn any_control(s: &str) -> (b: bool)
    ensures
        b == has_control(s@),
{
    let chars: Vec<char> = chars_of(s);
    let mut i: usize = 0;
    while i < chars.len()
        invariant
            i <= chars@.len(),
            chars@ == s@,
            forall|k: int| 0 <= k < i ==> !text::control(#[trigger] s@[k]),
        decreases chars@.len() - i,
    {
        if is_control(chars[i]) {
            assert(text::control(s@[i as int]));
            return true;
        }
        i = i + 1;
    }
    false
}

/// A character with the case that caps lock gives it. Only ASCII letters have their case swapped.
pub open spec fn case_swapped(c: char) -> char {
    if text::ascii_upper(c) {
        text::ascii_lowered(c)
    } else if text::ascii_lower(c) {
        text::ascii_raised(c)
    } else {
        c
    }
}

/// A text with the case of its ASCII letters swapped.
pub open spec fn caps_locked(s: Seq<char>) -> Seq<char> {
    s.map_values(|c: char| case_swapped(c))
}

/// A text with the case of its ASCII letters swapped.
pub fn swap_case(s: &str) -> (r: String)
    ensures
        r@ == caps_locked(s@),
{
    let chars: Vec<char> = chars_of(s);
    let mut r: String = String::new();
    let mut i: usize = 0;
    assert(r@ =~= caps_locked(s@.take(0)));
    while i < chars.len()
        invariant
            i <= chars@.len(),
            chars@ == s@,
            r@ == caps_locked(s@.take(i as int)),
        decreases chars@.len() - i,
    {
        let c: char = chars[i];
        let d: char = if c >= 'A' && c <= 'Z' {
            ((c as u8) + 32) as char
        } else if c >= 'a' && c <= 'z' {
            ((c as u8) - 32) as char
        } else {
            c
        };
        push_char(&mut r, d);
        i = i + 1;
        assert(r@ =~= caps_locked(s@.take(i as int)));
    }
    assert(s@.take(i as int) =~= s@);
    r
}

/// Swapping the case twice changes nothing.
pub proof fn caps_lock_twice(s: Seq<char>)
    ensures
        caps_locked(caps_locked(s)) == s,
{
    assert(caps_locked(caps_locked(s)) =~= s);
}

impl KeyPress {
    /// Whether the key is the one called `name`.
    pub fn is(&self, name: &str) -> (b: bool)
        ensures
            b == (self.key@ == name@),
    {
        same_text(self.key.as_str(), name)
    }

    /// Whether the platform key is held, and neither control nor alt.
    pub open spec fn platform_only(self) -> bool {
        self.platform && !self.control && !self.alt
    }

    /// Whether alt is held, and no other key that changes what a key does.
    pub open spec fn alt_only(self) -> bool {
        self.alt && !self.platform && !self.control && !self.shift
    }

    /// The text that the key types: none where control or the platform key is held, or where it
    /// would be a control character.
    pub open spec fn typed(self) -> Option<Seq<char>> {
        match self.key_char {
            Some(t) => if self.control || self.platform || has_control(t@) { None } else { Some(t@) },
            None => None,
        }
    }

    /// The text that the key types.
    pub fn typed_text(&self) -> (r: Option<&str>)
        ensures
            self.typed() == match r {
                Some(t) => Some(t@),
                None => None,
            },
    {
        match &self.key_char {
            Some(t) => if self.control || self.platform || any_control(t.as_str()) { None } else { Some(t.as_str()) },
            None => None,
        }
    }
}

} // verus!
