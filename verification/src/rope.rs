//! The text of a document: a `ropey::Rope`, seen as the sequence of its characters, and the lines
//! that ropey divides it into.
use ropey::Rope;
use vstd::prelude::*;

verus! {

/// `ropey::Rope`, a text stored as a balanced tree of chunks.
#[verifier::external_type_specification]
#[verifier::external_body]
pub struct ExRope(ropey::Rope);

/// The characters that a rope holds, in order.
pub uninterp spec fn rope_chars(rope: Rope) -> Seq<char>;

/// Whether `c` is one of the characters that ropey takes for a line break.
pub open spec fn line_break(c: char) -> bool {
    ||| '\u{a}' <= c <= '\u{d}'
    ||| c == '\u{85}'
    ||| c == '\u{2028}'
    ||| c == '\u{2029}'
}

/// Whether a line of `s` ends with the character at `i`. A carriage return that a line feed
/// follows ends nothing: the line feed does.
pub open spec fn ends_line(s: Seq<char>, i: int) -> bool {
    &&& 0 <= i < s.len()
    &&& line_break(s[i])
    &&& !(s[i] == '\r' && i + 1 < s.len() && s[i + 1] == '\n')
}

/// How many lines of `s` end before position `pos`.
pub open spec fn breaks_before(s: Seq<char>, pos: int) -> int
    decreases pos,
{
    if pos <= 0 {
        0
    } else {
        breaks_before(s, pos - 1) + if ends_line(s, pos - 1) { 1int } else { 0int }
    }
}

/// How many lines `s` has: one more than it has line breaks.
pub open spec fn line_count(s: Seq<char>) -> int {
    breaks_before(s, s.len() as int) + 1
}

/// Whether line `n` of `s` starts at `pos`. The line after the last one starts at the end.
pub open spec fn starts_line(s: Seq<char>, n: int, pos: int) -> bool {
    if n == line_count(s) {
        pos == s.len()
    } else {
        &&& 0 <= pos <= s.len()
        &&& breaks_before(s, pos) == n
        &&& pos == 0 || ends_line(s, pos - 1)
    }
}

/// Where line `n` of `s` starts.
pub open spec fn line_start(s: Seq<char>, n: int) -> int {
    choose|pos: int| starts_line(s, n, pos)
}

/// The line of `s` that position `pos` is on.
pub open spec fn line_of(s: Seq<char>, pos: int) -> int {
    breaks_before(s, pos)
}

/// Line `n` of `s`, with the break that ends it.
pub open spec fn line_text(s: Seq<char>, n: int) -> Seq<char> {
    s.subrange(line_start(s, n), line_start(s, n + 1))
}

/// How far `pos` is into its line.
pub open spec fn column_of(s: Seq<char>, pos: int) -> int {
    pos - line_start(s, line_of(s, pos))
}

/// `ropey::Rope::from_str`: a rope that holds the characters of `text`.
#[verifier::external_body]
pub(crate) fn rope_from_str(text: &str) -> (rope: Rope)
    ensures
        rope_chars(rope) == text@,
{
    Rope::from_str(text)
}

/// `ropey::Rope::len_chars`: how many characters the rope holds.
#[verifier::external_body]
pub(crate) fn rope_len(rope: &Rope) -> (n: usize)
    ensures
        n == rope_chars(*rope).len(),
{
    rope.len_chars()
}

/// `ropey::Rope::char`: the character at an index. It panics at the end and beyond.
#[verifier::external_body]
pub(crate) fn rope_char(rope: &Rope, index: usize) -> (c: char)
    requires
        index < rope_chars(*rope).len(),
    ensures
        c == rope_chars(*rope)[index as int],
{
    rope.char(index)
}

/// `ropey::Rope::slice` as a string: the characters of a range. It panics on a range that is
/// turned round or ends beyond the text.
#[verifier::external_body]
pub(crate) fn rope_slice(rope: &Rope, start: usize, end: usize) -> (s: String)
    requires
        start <= end <= rope_chars(*rope).len(),
    ensures
        s@ == rope_chars(*rope).subrange(start as int, end as int),
{
    rope.slice(start..end).to_string()
}

/// `ropey::Rope::insert`: puts `text` in before the character at an index, and changes nothing
/// else. It panics beyond the end.
#[verifier::external_body]
pub(crate) fn rope_insert(rope: &mut Rope, index: usize, text: &str)
    requires
        index <= rope_chars(*old(rope)).len(),
    ensures
        rope_chars(*final(rope)) == rope_chars(*old(rope)).take(index as int) + text@
            + rope_chars(*old(rope)).skip(index as int),
{
    rope.insert(index, text)
}

/// `ropey::Rope::remove`: takes the characters of a range out, and changes nothing else. It
/// panics on a range that is turned round or ends beyond the text.
#[verifier::external_body]
pub(crate) fn rope_remove(rope: &mut Rope, start: usize, end: usize)
    requires
        start <= end <= rope_chars(*old(rope)).len(),
    ensures
        rope_chars(*final(rope)) == rope_chars(*old(rope)).take(start as int)
            + rope_chars(*old(rope)).skip(end as int),
{
    rope.remove(start..end)
}

/// `ropey::Rope::len_lines`: how many lines the rope has.
#[verifier::external_body]
pub(crate) fn rope_line_count(rope: &Rope) -> (n: usize)
    ensures
        n == line_count(rope_chars(*rope)),
{
    rope.len_lines()
}

/// `ropey::Rope::char_to_line`: the line of a position, the end included. It panics beyond the
/// end.
#[verifier::external_body]
pub(crate) fn rope_line_of(rope: &Rope, pos: usize) -> (n: usize)
    requires
        pos <= rope_chars(*rope).len(),
    ensures
        n == line_of(rope_chars(*rope), pos as int),
{
    rope.char_to_line(pos)
}

/// `ropey::Rope::line_to_char`: where a line starts; for the line after the last, the end of the
/// text. It panics beyond that.
#[verifier::external_body]
pub(crate) fn rope_line_start(rope: &Rope, line: usize) -> (pos: usize)
    requires
        line <= line_count(rope_chars(*rope)),
    ensures
        starts_line(rope_chars(*rope), line as int, pos as int),
{
    rope.line_to_char(line)
}

/// Line starts are unique: a line starts at one position.
pub proof fn line_start_unique(s: Seq<char>, n: int, a: int, b: int)
    requires
        starts_line(s, n, a),
        starts_line(s, n, b),
    ensures
        a == b,
{
    if n != line_count(s) {
        if a < b {
            breaks_grow(s, a, b - 1);
        } else if b < a {
            breaks_grow(s, b, a - 1);
        }
    }
}

/// The number of line breaks before a position does not fall as the position moves on.
pub proof fn breaks_grow(s: Seq<char>, a: int, b: int)
    requires
        a <= b,
    ensures
        0 <= breaks_before(s, a) <= breaks_before(s, b),
    decreases b - a, b,
{
    if a < b {
        breaks_grow(s, a, b - 1);
    } else if b > 0 {
        breaks_grow(s, a - 1, b - 1);
    }
}

/// Every line up to the one after the last has a start, which `line_start` picks.
pub proof fn line_start_exists(s: Seq<char>, n: int)
    requires
        0 <= n <= line_count(s),
    ensures
        starts_line(s, n, line_start(s, n)),
        0 <= line_start(s, n) <= s.len(),
{
    if n == line_count(s) {
        assert(starts_line(s, n, s.len() as int));
    } else {
        find_line_start(s, n, s.len() as int);
    }
}

proof fn find_line_start(s: Seq<char>, n: int, pos: int)
    requires
        0 <= n <= breaks_before(s, pos),
        0 <= pos <= s.len(),
        n < line_count(s),
    ensures
        exists|p: int| starts_line(s, n, p),
    decreases pos,
{
    if pos == 0 {
        assert(starts_line(s, n, 0));
    } else if n <= breaks_before(s, pos - 1) {
        find_line_start(s, n, pos - 1);
    } else {
        assert(starts_line(s, n, pos));
    }
}

/// A position lies on its own line: at or after the line's start, and before the next line's
/// start unless it is the end of the text.
pub proof fn position_on_its_line(s: Seq<char>, pos: int)
    requires
        0 <= pos <= s.len(),
    ensures
        0 <= line_of(s, pos) < line_count(s),
        line_start(s, line_of(s, pos)) <= pos,
        pos < s.len() ==> pos < line_start(s, line_of(s, pos) + 1),
{
    let n = line_of(s, pos);
    breaks_grow(s, pos, s.len() as int);
    line_start_exists(s, n);
    line_start_exists(s, n + 1);
    let a = line_start(s, n);
    if a > pos {
        breaks_grow(s, pos, a - 1);
    }
    let b = line_start(s, n + 1);
    if n + 1 != line_count(s) && b <= pos {
        breaks_grow(s, b, pos);
    }
}

/// Where line `n` starts.
pub fn start_of_line(rope: &Rope, n: usize) -> (pos: usize)
    requires
        n <= line_count(rope_chars(*rope)),
    ensures
        pos == line_start(rope_chars(*rope), n as int),
        pos <= rope_chars(*rope).len(),
{
    let pos: usize = rope_line_start(rope, n);
    proof {
        line_start_exists(rope_chars(*rope), n as int);
        line_start_unique(rope_chars(*rope), n as int, pos as int, line_start(rope_chars(*rope), n as int));
    }
    pos
}

/// How far `pos` is into its line.
pub fn col_of(rope: &Rope, pos: usize) -> (col: usize)
    requires
        pos <= rope_chars(*rope).len(),
    ensures
        col == column_of(rope_chars(*rope), pos as int),
{
    let line: usize = rope_line_of(rope, pos);
    proof {
        position_on_its_line(rope_chars(*rope), pos as int);
    }
    pos - start_of_line(rope, line)
}

/// Line `n`, with the break that ends it.
pub fn line_string(rope: &Rope, n: usize) -> (s: String)
    requires
        n < line_count(rope_chars(*rope)),
    ensures
        s@ == line_text(rope_chars(*rope), n as int),
{
    let count: usize = rope_line_count(rope);
    let a: usize = start_of_line(rope, n);
    let b: usize = start_of_line(rope, if n < count { n + 1 } else { count });
    proof {
        line_starts_ordered(rope_chars(*rope), n as int);
    }
    rope_slice(rope, a, b)
}

/// A line does not start after the next one.
pub proof fn line_starts_ordered(s: Seq<char>, n: int)
    requires
        0 <= n < line_count(s),
    ensures
        0 <= line_start(s, n) <= line_start(s, n + 1) <= s.len(),
{
    line_start_exists(s, n);
    line_start_exists(s, n + 1);
    let a = line_start(s, n);
    let b = line_start(s, n + 1);
    if b < a {
        breaks_grow(s, b, a);
    }
}

} // verus!
