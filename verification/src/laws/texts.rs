//! What the operations on text give back.
use vstd::prelude::*;

use crate::file_preview;
use crate::line_cache;
use crate::matched_text;
use crate::matched_text::MatchSpan;
use crate::rope;
use crate::text;

verus! {

// ── Numbers ───────────────────────────────────────────────────────────────────

/// The number that decimal digits stand for.
pub open spec fn number_of(s: Seq<char>) -> int
    decreases s.len(),
{
    if s.len() == 0 { 0 } else { 10 * number_of(s.drop_last()) + (s.last() as int - '0' as int) }
}

/// The digits of a number stand for it, are digits all, and start with no zero but for zero itself.
pub proof fn decimals_stand_for_their_number(n: nat)
    ensures
        number_of(text::decimal(n)) == n,
        text::decimal(n).len() > 0,
        forall|i: int| 0 <= i < text::decimal(n).len() ==> '0' <= #[trigger] text::decimal(n)[i] <= '9',
        n > 0 ==> text::decimal(n)[0] != '0',
    decreases n,
{
    let d = text::decimal(n);
    let digit = (('0' as u32) + n % 10) as char;
    assert('0' as u32 == 48);
    assert(digit as int == 48 + n % 10);
    if n < 10 {
        reveal_with_fuel(number_of, 2);
        assert(d =~= seq![digit]);
        assert(d.drop_last() =~= Seq::empty());
        assert(d.last() == digit);
    } else {
        decimals_stand_for_their_number(n / 10);
        assert(d.drop_last() =~= text::decimal(n / 10));
        assert(d.last() == digit);
        assert forall|i: int| 0 <= i < d.len() implies '0' <= #[trigger] d[i] <= '9' by {
            if i < d.len() - 1 {
                assert(d[i] == text::decimal(n / 10)[i]);
            }
        }
        assert(d[0] == text::decimal(n / 10)[0]);
    }
}

// ── Lines ─────────────────────────────────────────────────────────────────────

/// A line feed ends a line, with the carriage return before it if there is one: what stands before
/// the first line feed is the first line, and the others are the lines of what follows.
pub proof fn line_feeds_end_lines(a: Seq<char>, b: Seq<char>)
    requires
        forall|i: int| 0 <= i < a.len() ==> a[i] != '\n',
    ensures
        text::lines(a.push('\n') + b) == seq![
            if a.len() > 0 && a.last() == '\r' { a.drop_last() } else { a },
        ] + text::lines(b),
        a.len() > 0 ==> text::lines(a) == seq![a],
        text::lines(Seq::empty()).len() == 0,
        text::feed_parts(a.push('\n') + b) == seq![a] + text::feed_parts(b),
        text::feed_parts(a) == seq![a],
{
    let s = a.push('\n') + b;
    text::first_feed_unique(s, a.len() as int);
    assert(s.take(a.len() as int) =~= a);
    assert(s.skip(a.len() as int + 1) =~= b);
    text::first_feed_unique(a, a.len() as int);
}

/// No carriage return is left at the end, and nothing else is taken away.
pub proof fn returns_go_from_the_end(s: Seq<char>)
    ensures
        text::without_returns(s).len() <= s.len(),
        text::without_returns(s) == s.take(text::without_returns(s).len() as int),
        text::without_returns(s).len() > 0 ==> text::without_returns(s).last() != '\r',
        forall|i: int| text::without_returns(s).len() <= i < s.len() ==> s[i] == '\r',
    decreases s.len(),
{
    if s.len() > 0 && s.last() == '\r' {
        returns_go_from_the_end(s.drop_last());
        let r = text::without_returns(s);
        assert(r =~= s.take(r.len() as int));
        assert forall|i: int| r.len() <= i < s.len() implies s[i] == '\r' by {
            if i < s.len() - 1 {
                assert(s[i] == s.drop_last()[i]);
            }
        }
    } else {
        assert(s =~= s.take(s.len() as int));
    }
}

/// A preview shows the lines of the text from the first on, as many as there are and at most two
/// thousand, each without the carriage returns at its end.
pub proof fn previews_start_with_the_text(lines: Seq<String>, s: Seq<char>, i: int)
    requires
        file_preview::previews(lines, s),
        0 <= i < lines.len(),
    ensures
        lines.len() <= 2000,
        lines.len() <= text::feed_parts(s).len(),
        lines.len() == 2000 || lines.len() == text::feed_parts(s).len(),
        lines[i]@ == text::without_returns(text::feed_parts(s)[i]),
{
}

/// A file with a zero byte is binary, and so is one that is not UTF-8.
pub proof fn zero_bytes_are_binary(bytes: Seq<u8>)
    ensures
        bytes.contains(0) ==> file_preview::is_binary(bytes),
        !vstd::utf8::valid_utf8(bytes) ==> file_preview::is_binary(bytes),
        !bytes.contains(0) && vstd::utf8::valid_utf8(bytes) ==> !file_preview::is_binary(bytes),
{
}

/// The widest line is as wide as any other, and wider than every line before it.
pub proof fn widest_line_is_the_first_such(s: Seq<char>, w: int, i: int)
    requires
        line_cache::first_widest(s, w, rope::line_count(s)),
        0 <= i < rope::line_count(s),
    ensures
        line_cache::shown_line(s, i).len() <= line_cache::shown_line(s, w).len(),
        i < w ==> line_cache::shown_line(s, i).len() < line_cache::shown_line(s, w).len(),
{
}

/// The lines of a text joined, each with the break that ends it, are the text up to there.
pub proof fn lines_make_up_the_text(s: Seq<char>, n: int)
    requires
        0 <= n < rope::line_count(s),
    ensures
        s.take(rope::line_start(s, n)) + rope::line_text(s, n) == s.take(rope::line_start(s, n + 1)),
        n == 0 ==> rope::line_start(s, n) == 0,
        n + 1 == rope::line_count(s) ==> rope::line_start(s, n + 1) == s.len(),
        n > 0 ==> rope::line_break(s[rope::line_start(s, n) - 1]),
{
    rope::line_starts_ordered(s, n);
    rope::line_start_exists(s, n);
    rope::line_start_exists(s, n + 1);
    let start = rope::line_start(s, n);
    if n == 0 && start > 0 {
        rope::breaks_grow(s, 0, start - 1);
    }
    if n > 0 && start == 0 {
        assert(rope::breaks_before(s, 0) == 0);
    }
    assert(s.take(start) + rope::line_text(s, n) =~= s.take(rope::line_start(s, n + 1)));
}

/// Within a line no break ends before its end.
pub proof fn lines_hold_one_break(s: Seq<char>, n: int, i: int)
    requires
        0 <= n < rope::line_count(s),
        rope::line_start(s, n) <= i,
        i + 1 < rope::line_start(s, n + 1),
    ensures
        !rope::ends_line(s, i),
{
    rope::line_start_exists(s, n);
    rope::line_start_exists(s, n + 1);
    let start = rope::line_start(s, n);
    let next = rope::line_start(s, n + 1);
    if rope::ends_line(s, i) {
        rope::breaks_grow(s, start, i);
        assert(rope::breaks_before(s, i + 1) == rope::breaks_before(s, i) + 1);
        rope::breaks_grow(s, i + 1, next);
        if n + 1 < rope::line_count(s) {
            assert(rope::breaks_before(s, next) == n + 1);
            rope::breaks_grow(s, i + 1, next - 1);
        } else {
            assert(next == s.len());
        }
    }
}

/// The line feed ends a line, alone or behind a carriage return; a carriage return ends one unless
/// a line feed follows.
pub proof fn feeds_and_returns_end_lines(s: Seq<char>, i: int)
    requires
        0 <= i < s.len(),
    ensures
        s[i] == '\n' ==> rope::ends_line(s, i),
        s[i] == '\r' ==> (rope::ends_line(s, i) <==> i + 1 == s.len() || s[i + 1] != '\n'),
        ' ' <= s[i] <= '~' ==> !rope::ends_line(s, i),
{
}

/// A position is as far into its line as its column says.
pub proof fn columns_count_from_the_line(s: Seq<char>, pos: int)
    requires
        0 <= pos <= s.len(),
    ensures
        0 <= rope::column_of(s, pos),
        rope::line_start(s, rope::line_of(s, pos)) + rope::column_of(s, pos) == pos,
        rope::line_of(s, pos) < rope::line_count(s),
{
    rope::position_on_its_line(s, pos);
}

// ── White space and letters ───────────────────────────────────────────────────

proof fn leading(s: Seq<char>)
    ensures
        0 <= text::leading_space(s) <= s.len(),
        text::leading_space(s) < s.len() ==> !text::whitespace(s[text::leading_space(s)]),
        forall|i: int| 0 <= i < text::leading_space(s) ==> text::whitespace(#[trigger] s[i]),
    decreases s.len(),
{
    if s.len() > 0 && text::whitespace(s[0]) {
        leading(s.drop_first());
        assert forall|i: int| 0 <= i < text::leading_space(s) implies text::whitespace(#[trigger] s[i]) by {
            if i > 0 {
                assert(s[i] == s.drop_first()[i - 1]);
            }
        }
    }
}

proof fn trailing(s: Seq<char>)
    ensures
        text::without_trailing_space(s).len() <= s.len(),
        text::without_trailing_space(s) == s.take(text::without_trailing_space(s).len() as int),
        text::without_trailing_space(s).len() > 0 ==> !text::whitespace(text::without_trailing_space(s).last()),
        forall|i: int| text::without_trailing_space(s).len() <= i < s.len() ==> text::whitespace(#[trigger] s[i]),
    decreases s.len(),
{
    if s.len() > 0 && text::whitespace(s.last()) {
        trailing(s.drop_last());
        let r = text::without_trailing_space(s);
        assert(r =~= s.take(r.len() as int));
        assert forall|i: int| r.len() <= i < s.len() implies text::whitespace(#[trigger] s[i]) by {
            if i < s.len() - 1 {
                assert(s[i] == s.drop_last()[i]);
            }
        }
    } else {
        assert(s =~= s.take(s.len() as int));
    }
}

/// Trimming takes white space away at both ends and nothing else, and leaves none there.
pub proof fn trimming_takes_the_space_around(s: Seq<char>)
    ensures
        ({
            let from = text::leading_space(s);
            let t = text::trimmed(s);
            &&& 0 <= from && from + t.len() <= s.len()
            &&& t == s.subrange(from, from + t.len())
            &&& t.len() > 0 ==> !text::whitespace(t[0]) && !text::whitespace(t.last())
            &&& forall|i: int| 0 <= i < s.len() && !(from <= i < from + t.len()) ==> text::whitespace(#[trigger] s[i])
        }),
{
    leading(s);
    let from = text::leading_space(s);
    let rest = s.skip(from);
    trailing(rest);
    let t = text::trimmed(s);
    assert(t =~= s.subrange(from, from + t.len()));
    assert forall|i: int| 0 <= i < s.len() && !(from <= i < from + t.len()) implies text::whitespace(#[trigger] s[i]) by {
        if i >= from {
            assert(s[i] == rest[i - from]);
        }
    }
    if t.len() > 0 {
        assert(t[0] == rest[0] && rest[0] == s[from]);
    }
}

/// Lower case of ASCII text changes capital letters alone.
pub proof fn lower_case_changes_capitals(s: Seq<char>, i: int)
    requires
        0 <= i < s.len(),
        forall|k: int| 0 <= k < s.len() ==> s[k] <= '\u{7f}',
    ensures
        text::lowered_text(s).len() == s.len(),
        'A' <= s[i] <= 'Z' ==> text::lowered_text(s)[i] as int == s[i] as int + 32,
        !('A' <= s[i] <= 'Z') ==> text::lowered_text(s)[i] == s[i],
{
}

/// What is contained in a text stands somewhere in it, whole; the empty text is contained in every
/// text.
pub proof fn parts_stand_in_their_text(a: Seq<char>, part: Seq<char>, b: Seq<char>)
    ensures
        text::contains(a + part + b, part),
        text::contains(a, Seq::empty()),
        a.len() < part.len() ==> !text::contains(a, part),
{
    let s = a + part + b;
    assert(s.subrange(a.len() as int, a.len() as int + part.len()) =~= part);
    assert(text::stands_at(s, part, a.len() as int));
    assert(a.subrange(0, 0) =~= Seq::<char>::empty());
    assert(text::stands_at(a, Seq::empty(), 0));
}

/// Letters and digits are what names are made of.
pub proof fn ascii_letters_and_digits(c: char)
    requires
        c <= '\u{7f}',
    ensures
        text::alphanumeric(c) <==> ('a' <= c <= 'z' || 'A' <= c <= 'Z' || '0' <= c <= '9'),
        text::uppercase(c) <==> 'A' <= c <= 'Z',
        text::lowercase(c) <==> 'a' <= c <= 'z',
        text::whitespace(c) <==> c == ' ' || '\t' <= c <= '\r',
        text::control(c) <==> c < ' ' || c == '\u{7f}',
        'A' <= c <= 'Z' ==> text::lowered(c) as int == c as int + 32,
        !('A' <= c <= 'Z') ==> text::lowered(c) == c,
{
}

/// Beyond ASCII there are control characters only up to the first letters that follow.
pub proof fn control_characters_beyond_ascii(c: char)
    requires
        c >= '\u{80}',
    ensures
        text::control(c) <==> c < '\u{a0}',
{
}

// ── What a query matches ──────────────────────────────────────────────────────

/// The stretches of a text tile it: every character is in one, which is marked just where the
/// character is matched.
pub proof fn matched_characters_are_marked(s: Seq<char>, positions: Seq<u32>, off: int, spans: Seq<MatchSpan>, i: int)
    requires
        matched_text::parted(s, positions, off, spans, s.len() as int),
        0 <= i < s.len(),
    ensures
        exists|k: int|
            0 <= k < spans.len() && (#[trigger] spans[k]).from <= i < spans[k].to && spans[k].text@[i - spans[k].from] == s[i]
                && (spans[k].matched <==> exists|j: int| 0 <= j < positions.len() && (#[trigger] positions[j]) == off + i),
{
    find_span(s, positions, off, spans, i, spans.len() - 1);
}

proof fn find_span(s: Seq<char>, positions: Seq<u32>, off: int, spans: Seq<MatchSpan>, i: int, k: int)
    requires
        matched_text::parted(s, positions, off, spans, s.len() as int),
        0 <= k < spans.len(),
        0 <= i < spans[k].to,
    ensures
        exists|k: int|
            0 <= k < spans.len() && (#[trigger] spans[k]).from <= i < spans[k].to && spans[k].text@[i - spans[k].from] == s[i]
                && (spans[k].matched <==> exists|j: int| 0 <= j < positions.len() && (#[trigger] positions[j]) == off + i),
    decreases k,
{
    assert(matched_text::uniform_span(s, positions, off, spans[k]));
    if spans[k].from <= i {
        assert(matched_text::is_hit(positions, off, i) == spans[k].matched);
        assert(spans[k].text@[i - spans[k].from] == s[i]);
    } else {
        assert(spans[k - 1].to == spans[k].from);
        find_span(s, positions, off, spans, i, k - 1);
    }
}

} // verus!
