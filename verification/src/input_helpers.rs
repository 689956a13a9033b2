//! Editing of the one-line text inputs: search bars, the outline overlay, the finders. Positions
//! count characters.
use vstd::prelude::*;

use crate::text;
use crate::text::{chars_of, is_whitespace};

verus! {

/// `n`, or `limit` where that is less.
pub open spec fn capped(n: int, limit: int) -> int {
    if n < limit { n } else { limit }
}

/// `s` with `text` put in at `idx`, or at the end where `idx` is beyond it.
pub open spec fn inserted(s: Seq<char>, idx: int, text: Seq<char>) -> Seq<char> {
    let at = capped(idx, s.len() as int);
    s.take(at) + text + s.skip(at)
}

/// `s` up to `start`, followed by `s` from `end` on, each capped at the length.
pub open spec fn range_deleted(s: Seq<char>, start: int, end: int) -> Seq<char> {
    s.take(capped(start, s.len() as int)) + s.skip(capped(end, s.len() as int))
}

/// Where the white space that ends at `pos` starts.
pub open spec fn space_start(s: Seq<char>, pos: int) -> int
    decreases pos,
{
    if pos > 0 && text::whitespace(s[pos - 1]) { space_start(s, pos - 1) } else { pos }
}

/// Where the run of other characters that ends at `pos` starts.
pub open spec fn token_start(s: Seq<char>, pos: int) -> int
    decreases pos,
{
    if pos > 0 && !text::whitespace(s[pos - 1]) { token_start(s, pos - 1) } else { pos }
}

/// Where the word before `cursor` starts, any white space between the two skipped.
pub open spec fn word_start(s: Seq<char>, cursor: int) -> int {
    token_start(s, space_start(s, capped(cursor, s.len() as int)))
}

/// Puts `text` in at `char_idx`; beyond the end, at the end.
pub fn insert_at(s: &str, char_idx: usize, text: &str) -> (r: String)
    ensures
        r@ == inserted(s@, char_idx as int, text@),
{
    let n: usize = s.unicode_len();
    let idx: usize = if char_idx < n { char_idx } else { n };
    let mut r: String = s.substring_char(0, idx).to_owned();
    r.append(text);
    r.append(s.substring_char(idx, n));
    r
}

/// Deletes the character before `char_idx`; at the start, nothing.
pub fn delete_char_before(s: &str, char_idx: usize) -> (r: String)
    requires
        char_idx <= s@.len(),
    ensures
        char_idx == 0 ==> r@ == s@,
        char_idx > 0 ==> r@ == s@.remove(char_idx - 1),
{
    if char_idx == 0 {
        return s.to_owned();
    }
    let n: usize = s.unicode_len();
    let mut r: String = s.substring_char(0, char_idx - 1).to_owned();
    r.append(s.substring_char(char_idx, n));
    assert(r@ =~= s@.remove(char_idx - 1));
    r
}

/// The text before and after `char_idx`; beyond the end, all of it and nothing.
pub fn split_at_char(s: &str, char_idx: usize) -> (r: (String, String))
    ensures
        r.0@ == s@.take(capped(char_idx as int, s@.len() as int)),
        r.1@ == s@.skip(capped(char_idx as int, s@.len() as int)),
{
    let n: usize = s.unicode_len();
    let idx: usize = if char_idx < n { char_idx } else { n };
    (s.substring_char(0, idx).to_owned(), s.substring_char(idx, n).to_owned())
}

/// Where the word before `cursor` starts.
pub fn word_start_before(s: &str, cursor: usize) -> (pos: usize)
    ensures
        pos == word_start(s@, cursor as int),
        pos <= s@.len(),
        pos <= cursor,
{
    let chars: Vec<char> = chars_of(s);
    let mut pos: usize = if cursor < chars.len() { cursor } else { chars.len() };
    while pos > 0 && is_whitespace(chars[pos - 1])
        invariant
            pos <= chars@.len(),
            pos <= cursor,
            chars@ == s@,
            space_start(s@, pos as int) == space_start(s@, capped(cursor as int, s@.len() as int)),
        ensures
            pos == space_start(s@, capped(cursor as int, s@.len() as int)),
        decreases pos,
    {
        pos = pos - 1;
    }
    let ghost end = pos as int;
    while pos > 0 && !is_whitespace(chars[pos - 1])
        invariant
            pos <= chars@.len(),
            pos <= cursor,
            chars@ == s@,
            token_start(s@, pos as int) == token_start(s@, end),
        ensures
            pos == token_start(s@, end),
        decreases pos,
    {
        pos = pos - 1;
    }
    pos
}

/// Deletes the characters from `start` up to `end`.
pub fn delete_char_range(s: &str, start: usize, end: usize) -> (r: String)
    ensures
        r@ == range_deleted(s@, start as int, end as int),
{
    let n: usize = s.unicode_len();
    let start: usize = if start < n { start } else { n };
    let end: usize = if end < n { end } else { n };
    let mut r: String = s.substring_char(0, start).to_owned();
    r.append(s.substring_char(end, n));
    r
}

/// What `insert_at` puts in, `delete_char_range` takes out again.
pub proof fn insert_then_delete(s: Seq<char>, idx: int, text: Seq<char>)
    requires
        0 <= idx <= s.len(),
    ensures
        range_deleted(inserted(s, idx, text), idx, idx + text.len()) == s,
{
    let t = inserted(s, idx, text);
    assert(t.take(idx) =~= s.take(idx));
    assert(t.skip(idx + text.len()) =~= s.skip(idx));
    assert(s.take(idx) + s.skip(idx) =~= s);
}

/// A character typed at the cursor is the one that a deletion before the new cursor takes out.
pub proof fn type_then_backspace(s: Seq<char>, idx: int, c: char)
    requires
        0 <= idx <= s.len(),
    ensures
        inserted(s, idx, seq![c]).remove(idx) == s,
{
    assert(inserted(s, idx, seq![c]).remove(idx) =~= s);
}

/// Deleting the character before a position is deleting a range of one character.
pub proof fn backspace_is_range_deletion(s: Seq<char>, idx: int)
    requires
        0 < idx <= s.len(),
    ensures
        s.remove(idx - 1) == range_deleted(s, idx - 1, idx),
{
    assert(s.remove(idx - 1) =~= range_deleted(s, idx - 1, idx));
}

/// The two parts of a split text make up the text.
pub proof fn split_parts_rejoin(s: Seq<char>, idx: int)
    requires
        0 <= idx,
    ensures
        s.take(capped(idx, s.len() as int)) + s.skip(capped(idx, s.len() as int)) == s,
{
    assert(s.take(capped(idx, s.len() as int)) + s.skip(capped(idx, s.len() as int)) =~= s);
}

proof fn space_start_bounds(s: Seq<char>, pos: int)
    requires
        0 <= pos <= s.len(),
    ensures
        0 <= space_start(s, pos) <= pos,
        forall|i: int| space_start(s, pos) <= i < pos ==> text::whitespace(s[i]),
        space_start(s, pos) > 0 ==> !text::whitespace(s[space_start(s, pos) - 1]),
    decreases pos,
{
    if pos > 0 && text::whitespace(s[pos - 1]) {
        space_start_bounds(s, pos - 1);
    }
}

proof fn token_start_bounds(s: Seq<char>, pos: int)
    requires
        0 <= pos <= s.len(),
    ensures
        0 <= token_start(s, pos) <= pos,
        forall|i: int| token_start(s, pos) <= i < pos ==> !text::whitespace(s[i]),
        token_start(s, pos) > 0 ==> text::whitespace(s[token_start(s, pos) - 1]),
    decreases pos,
{
    if pos > 0 && !text::whitespace(s[pos - 1]) {
        token_start_bounds(s, pos - 1);
    }
}

/// Whether `s[from..to]` is white space throughout.
pub open spec fn all_space(s: Seq<char>, from: int, to: int) -> bool {
    forall|i: int| from <= i < to ==> text::whitespace(s[i])
}

/// Whether `s[from..to]` is free of white space.
pub open spec fn no_space(s: Seq<char>, from: int, to: int) -> bool {
    forall|i: int| from <= i < to ==> !text::whitespace(s[i])
}

/// The start of the word before a cursor is a word boundary: from there to the cursor stand
/// characters that are not white space, then white space alone, and white space or nothing
/// stands before it.
pub proof fn word_start_is_boundary(s: Seq<char>, cursor: int)
    requires
        0 <= cursor,
    ensures
        0 <= word_start(s, cursor) <= capped(cursor, s.len() as int),
        word_start(s, cursor) > 0 ==> text::whitespace(s[word_start(s, cursor) - 1]),
        exists|end: int|
            word_start(s, cursor) <= end <= capped(cursor, s.len() as int) && #[trigger] no_space(
                s,
                word_start(s, cursor),
                end,
            ) && all_space(s, end, capped(cursor, s.len() as int)),
{
    let pos = capped(cursor, s.len() as int);
    space_start_bounds(s, pos);
    let end = space_start(s, pos);
    token_start_bounds(s, end);
    assert(no_space(s, word_start(s, cursor), end));
}

} // verus!
