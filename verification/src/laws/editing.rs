//! What clicks, drags, keys and edits do to the selection and the text.
use vstd::prelude::*;

use crate::buffer_view::ColorRole;
use crate::document::{Change, Selection};
use crate::editing;
use crate::editing::EditBuffer;
use crate::editor_frame;
use crate::editor_frame::HeaderView;
use crate::editor_keys::KeyOutcome;
use crate::editor_logic;
use crate::editor_view;
use crate::editor_view::{EditorView, EnterAction, SelectMode};
use crate::input_helpers;
use crate::keys;
use crate::keys::KeyPress;
use crate::markdown::{HighlightSpan, OutlineItem, SyntaxToken};
use crate::outline_overlay;
use crate::rope;
use crate::search::InputFocus;
use crate::text;
use crate::text_input::{CaretMove, FinderKey, InputView, TextInput};

verus! {

/// The lesser of two positions.
pub open spec fn lower(a: usize, b: usize) -> int {
    if a <= b { a as int } else { b as int }
}

/// The greater of two positions.
pub open spec fn upper(a: usize, b: usize) -> int {
    if a >= b { a as int } else { b as int }
}

/// Whether a selection covers everything from `from` to `to`.
pub open spec fn covers(sel: Selection, from: usize, to: usize) -> bool {
    lower(sel.anchor, sel.head) <= from && to <= upper(sel.anchor, sel.head)
}

/// Whether two units of a text, words or lines, are one or lie apart.
pub open spec fn apart_or_same(a_start: usize, a_end: usize, b_start: usize, b_end: usize) -> bool {
    (a_start == b_start && a_end == b_end) || a_end <= b_start || b_end <= a_start
}

// ── The mouse ─────────────────────────────────────────────────────────────────

/// While words or lines are selected by dragging, the selection reaches from what it was started
/// with to the unit under the mouse: before it, to the start of that unit; behind it, to its end.
/// What it was started with stays selected either way.
pub proof fn dragging_keeps_the_start(v: EditorView, offset: usize, unit: Selection, after: Selection)
    requires
        v.dragged(offset, unit, after),
        v.mouse.mode != SelectMode::Character,
        v.mouse.anchor_start <= v.mouse.anchor_end,
        unit.anchor <= offset <= unit.head,
        apart_or_same(v.mouse.anchor_start, v.mouse.anchor_end, unit.anchor, unit.head),
    ensures
        covers(after, v.mouse.anchor_start, v.mouse.anchor_end),
        offset <= v.mouse.anchor_start ==> after.head == unit.anchor && covers(after, unit.anchor, v.mouse.anchor_end),
        offset > v.mouse.anchor_start ==> after.head == unit.head && covers(after, v.mouse.anchor_start, unit.head),
{
}

/// What dragging selects by words or lines is the least stretch that holds what it was started with
/// and the unit under the mouse.
pub proof fn dragging_spans_both(v: EditorView, offset: usize, unit: Selection, after: Selection)
    requires
        v.dragged(offset, unit, after),
        v.mouse.mode != SelectMode::Character,
        v.mouse.anchor_start < v.mouse.anchor_end,
        unit.anchor <= offset <= unit.head,
        apart_or_same(v.mouse.anchor_start, v.mouse.anchor_end, unit.anchor, unit.head),
    ensures
        lower(after.anchor, after.head) == lower(v.mouse.anchor_start, unit.anchor),
        upper(after.anchor, after.head) == upper(v.mouse.anchor_end, unit.head),
{
}

/// Dragging by characters moves the head alone: the anchor stays where it was.
pub proof fn dragging_by_characters(v: EditorView, offset: usize, unit: Selection, after: Selection)
    requires
        v.dragged(offset, unit, after),
        v.mouse.mode == SelectMode::Character,
    ensures
        after.anchor == v.buf.sel.anchor,
        after.head == offset,
        lower(after.anchor, after.head) == lower(v.buf.sel.anchor, offset),
        upper(after.anchor, after.head) == upper(v.buf.sel.anchor, offset),
{
}

/// A click and a drag: with one click the selection is what lies between where the mouse went down
/// and where it is; with more, it holds the whole unit that was clicked on, wherever the mouse is.
pub proof fn click_and_drag(
    v: EditorView,
    down: usize,
    clicks: usize,
    unit: Selection,
    w: EditorView,
    offset: usize,
    there: Selection,
    after: Selection,
)
    requires
        v.clicked(down, clicks, false, unit, w.buf.sel),
        w.mouse == v.click_anchor(down, clicks, false, unit),
        w.dragged(offset, there, after),
    ensures
        w.mouse.active,
        clicks <= 1 ==> lower(after.anchor, after.head) == lower(down, offset) && upper(after.anchor, after.head) == upper(
            down,
            offset,
        ),
        clicks == 2 ==> w.mouse.mode == SelectMode::Word,
        clicks > 2 ==> w.mouse.mode == SelectMode::Line,
        clicks >= 2 ==> w.buf.sel.anchor == unit.anchor && w.buf.sel.head == unit.head,
        clicks >= 2 && unit.anchor <= unit.head && there.anchor <= offset <= there.head && apart_or_same(
            unit.anchor,
            unit.head,
            there.anchor,
            there.head,
        ) ==> covers(after, unit.anchor, unit.head),
{
}

/// A click with shift takes the selection to the mouse: its anchor stays.
pub proof fn shift_click_extends(v: EditorView, offset: usize, unit: Selection, after: Selection)
    requires
        v.clicked(offset, 1, true, unit, after),
    ensures
        after.anchor == v.buf.sel.anchor,
        after.head == offset,
        v.click_anchor(offset, 1, true, unit).mode == SelectMode::Character,
        v.click_anchor(offset, 1, true, unit).active,
{
}

/// A plain click leaves nothing selected.
pub proof fn click_selects_nothing(v: EditorView, offset: usize, unit: Selection, after: Selection)
    requires
        v.clicked(offset, 1, false, unit, after),
    ensures
        after.anchor == offset && after.head == offset,
{
}

// ── Edits ─────────────────────────────────────────────────────────────────────

/// An edit changes what is replaced and nothing else, and leaves a caret, with nothing selected.
pub proof fn edits_are_local(b: EditBuffer, after: EditBuffer, start: int, end: int, t: Seq<char>, caret: int)
    requires
        b.edited(after, start, end, t, caret),
    ensures
        after.chars().len() == b.chars().len() - (end - start) + t.len(),
        after.chars().take(start) == b.chars().take(start),
        after.chars().subrange(start, start + t.len()) == t,
        after.chars().skip(start + t.len()) == b.chars().skip(end),
        after.sel.anchor == caret && after.sel.head == caret,
        after.doc.dirty,
        after.doc.path == b.doc.path,
{
    assert(after.chars().take(start) =~= b.chars().take(start));
    assert(after.chars().subrange(start, start + t.len()) =~= t);
    assert(after.chars().skip(start + t.len()) =~= b.chars().skip(end));
}

/// A deletion removes what is selected, if anything is; otherwise the given range; and nothing
/// else. The caret ends up where that was.
pub proof fn deletions_remove_one_stretch(b: EditBuffer, after: EditBuffer, start: int, end: int, inverse: Option<Change>)
    requires
        b.wf(),
        b.deletes(after, start, end, inverse),
    ensures
        ({
            let selected = b.sel.anchor != b.sel.head;
            let from = if selected { lower(b.sel.anchor, b.sel.head) } else { start };
            let to = if selected { upper(b.sel.anchor, b.sel.head) } else { end };
            &&& from >= to ==> after == b && inverse is None
            &&& from < to ==> {
                &&& after.chars() == b.chars().take(from) + b.chars().skip(to)
                &&& after.sel.anchor == from && after.sel.head == from
                &&& inverse is Some
                &&& after.chars().take(inverse->0.start as int) + inverse->0.text@ + after.chars().skip(inverse->0.end as int)
                    == b.chars()
            }
        }),
{
    let selected = b.sel.anchor != b.sel.head;
    let from = if selected { lower(b.sel.anchor, b.sel.head) } else { start };
    let to = if selected { upper(b.sel.anchor, b.sel.head) } else { end };
    if from < to {
        assert(after.chars() =~= b.chars().take(from) + b.chars().skip(to));
        assert(after.chars().take(inverse->0.start as int) + inverse->0.text@ + after.chars().skip(inverse->0.end as int)
            =~= b.chars());
    }
}

/// Deleting a line removes all of it. With it goes the break that ends it; for the last line, the
/// last character of the break before it.
pub proof fn line_goes_with_its_break(b: EditBuffer)
    requires
        b.wf(),
        b.chars().len() > 0,
    ensures
        ({
            let s = b.chars();
            let (from, to) = b.line_extent();
            let n = b.edit_line();
            &&& 0 <= from < to <= s.len()
            &&& from <= rope::line_start(s, n) && rope::line_start(s, n + 1) <= to
            &&& n + 1 < rope::line_count(s) ==> s.subrange(from, to) == rope::line_text(s, n)
            &&& n + 1 == rope::line_count(s) && n > 0 ==> to == s.len() && from + 1 == rope::line_start(s, n)
                && rope::line_break(s[from])
            &&& n == 0 && rope::line_count(s) == 1 ==> from == 0 && to == s.len()
        }),
{
    let s = b.chars();
    let pos = editing::on_char(s, b.sel.head as int);
    let n = b.edit_line();
    rope::position_on_its_line(s, pos);
    rope::line_starts_ordered(s, n);
    rope::line_start_exists(s, n);
    rope::line_start_exists(s, n + 1);
    rope::line_start_exists(s, 0);
    assert(rope::breaks_before(s, 0) == 0);
    if n + 1 < rope::line_count(s) {
        let start = rope::line_start(s, n);
        let next = rope::line_start(s, n + 1);
        assert(rope::breaks_before(s, start) == n && rope::breaks_before(s, next) == n + 1);
    }
    if n > 0 && rope::line_start(s, n) == 0 {
        assert(rope::breaks_before(s, 0) == n);
    }
    if n == 0 && rope::line_start(s, n) > 0 {
        rope::breaks_grow(s, 0, rope::line_start(s, n) - 1);
    }
}

/// The content of a line is all of it but the line feeds and carriage returns at its end.
pub proof fn content_ends_before_the_break(s: Seq<char>, i: int)
    ensures
        0 <= editing::content_len(s) <= s.len(),
        editing::content_len(s) > 0 ==> s[editing::content_len(s) - 1] != '\n' && s[editing::content_len(s) - 1] != '\r',
        editing::content_len(s) <= i < s.len() ==> s[i] == '\n' || s[i] == '\r',
    decreases s.len(),
{
    editing::content_len_bounds(s);
    if s.len() > 0 && (s.last() == '\n' || s.last() == '\r') {
        content_ends_before_the_break(s.drop_last(), i);
    }
}

/// The place of the last character stands for the end of a text.
pub proof fn edit_position_has_a_character(s: Seq<char>, pos: int)
    requires
        0 <= pos,
        s.len() > 0,
    ensures
        0 <= editing::on_char(s, pos) < s.len(),
        pos < s.len() ==> editing::on_char(s, pos) == pos,
        pos >= s.len() ==> editing::on_char(s, pos) == s.len() - 1,
{
}

/// Enter puts a line break in place of what is selected, unless a list of a Markdown document goes
/// on or ends: then it puts the next mark, or takes away the one that is there.
pub proof fn enter_breaks_the_line(v: EditorView, after: EditorView, action: EnterAction, inverse: Change)
    requires
        v.entered(after, action, inverse),
    ensures
        ({
            let s = v.chars();
            let from = lower(v.buf.sel.anchor, v.buf.sel.head);
            let to = upper(v.buf.sel.anchor, v.buf.sel.head);
            &&& !v.markdown || action is Plain ==> after.chars() == s.take(from) + seq!['\n'] + s.skip(to)
                && after.buf.sel.head == from + 1
            &&& v.markdown && action is ContinueList ==> after.chars() == s.take(from) + action->insert@ + s.skip(to)
                && after.buf.sel.head == from + action->insert@.len()
            &&& v.markdown && action is ExitList ==> {
                let a = v.byte_on_line(action->start as int);
                let b = v.byte_on_line(action->end as int);
                after.chars() == s.take(a) + seq!['\n'] + s.skip(b) && after.buf.sel.head == a + 1
            }
        }),
        after.buf.sel.anchor == after.buf.sel.head,
        after.chars().take(inverse.start as int) + inverse.text@ + after.chars().skip(inverse.end as int) == v.chars(),
{
    assert(after.chars().take(inverse.start as int) + inverse.text@ + after.chars().skip(inverse.end as int) =~= v.chars());
}

/// A URL pasted over a selection in a Markdown document becomes a link with what was selected as
/// its label: both are there whole, in their places. Anything else is pasted as it is.
pub proof fn url_becomes_a_link(v: EditorView, clip: Seq<char>, is_url: bool)
    requires
        v.wf(),
    ensures
        ({
            let t = v.pasted(clip, is_url);
            let from = lower(v.buf.sel.anchor, v.buf.sel.head);
            let to = upper(v.buf.sel.anchor, v.buf.sel.head);
            let n = to - from;
            &&& !v.markdown || from == to || !is_url ==> t == clip
            &&& v.markdown && from < to && is_url ==> {
                &&& t.len() == n + clip.len() + 4
                &&& t[0] == '['
                &&& t.subrange(1, 1 + n) == v.chars().subrange(from, to)
                &&& t[1 + n] == ']' && t[2 + n] == '('
                &&& t.subrange(3 + n, 3 + n + clip.len()) == clip
                &&& t.last() == ')'
            }
        }),
{
    let t = v.pasted(clip, is_url);
    let from = lower(v.buf.sel.anchor, v.buf.sel.head);
    let to = upper(v.buf.sel.anchor, v.buf.sel.head);
    let n = to - from;
    if v.markdown && from < to && is_url {
        let label = v.chars().subrange(from, to);
        assert(t == editor_view::markdown_link(label, clip));
        assert(t.subrange(1, 1 + n) =~= label);
        assert(t.subrange(3 + n, 3 + n + clip.len()) =~= clip);
    }
}

/// After an edit nothing is left of the popover, of the link and of the marked occurrences, and the
/// lines are those of the text.
pub proof fn edits_clear_what_they_outdate(v: EditorView, after: EditorView)
    requires
        v.settled(after),
    ensures
        after.hover.content is None,
        after.hover.selection is None,
        after.hover.segments@.len() == 0,
        after.word_occ@.len() == 0,
        after.word_occ_key is None,
        v.completion is None ==> after.completion is None,
        after.search == v.search && after.overlay == v.overlay && after.outline == v.outline && after.mouse == v.mouse,
        after.markdown == v.markdown && after.show_preview == v.show_preview,
{
}

/// A location on a line of the text is as far behind the start of that line as it says; one on a
/// line that there is not is the last character.
pub proof fn locations_are_on_their_line(v: EditorView, line: int, character: int)
    requires
        0 <= line,
        0 <= character,
    ensures
        line < rope::line_count(v.chars()) ==> v.location_offset(line, character) - character == rope::line_start(
            v.chars(),
            line,
        ),
        line >= rope::line_count(v.chars()) && v.chars().len() > 0 ==> v.location_offset(line, character) + 1
            == v.chars().len(),
        line >= rope::line_count(v.chars()) && v.chars().len() == 0 ==> v.location_offset(line, character) == 0,
{
}

// ── Text inputs ───────────────────────────────────────────────────────────────

/// What is typed stands before the caret, and what stood around the caret still does.
pub proof fn typing_is_at_the_caret(a: TextInput, b: TextInput, t: Seq<char>)
    requires
        a.wf(),
        a.typed_into(b, t),
    ensures
        b.text@.take(b.cursor as int) == a.text@.take(a.cursor as int) + t,
        b.text@.skip(b.cursor as int) == a.text@.skip(a.cursor as int),
        b.wf(),
{
    assert(b.text@.take(b.cursor as int) =~= a.text@.take(a.cursor as int) + t);
    assert(b.text@.skip(b.cursor as int) =~= a.text@.skip(a.cursor as int));
}

/// Backspace takes back one character that was typed.
pub proof fn backspace_takes_back(a: TextInput, b: TextInput, c: TextInput, typed: char)
    requires
        a.wf(),
        a.typed_into(b, seq![typed]),
        b.backspaced(c),
    ensures
        c.text@ == a.text@,
        c.cursor == a.cursor,
{
    assert(c.text@ =~= a.text@);
}

/// Backspace deletes the one character before the caret; at the start, nothing.
pub proof fn backspace_deletes_one(a: TextInput, b: TextInput)
    requires
        a.wf(),
        a.backspaced(b),
    ensures
        a.cursor == 0 ==> b == a,
        a.cursor > 0 ==> b.cursor + 1 == a.cursor && b.text@.take(b.cursor as int) == a.text@.take(a.cursor - 1)
            && b.text@.skip(b.cursor as int) == a.text@.skip(a.cursor as int),
{
    if a.cursor > 0 {
        assert(b.text@.take(b.cursor as int) =~= a.text@.take(a.cursor - 1));
        assert(b.text@.skip(b.cursor as int) =~= a.text@.skip(a.cursor as int));
    }
}

/// Whether the characters from `from` to `end` are no white space, and those from there to `to` are.
pub open spec fn word_then_space(s: Seq<char>, from: int, end: int, to: int) -> bool {
    &&& forall|i: int| from <= i < end ==> !text::whitespace(#[trigger] s[i])
    &&& forall|i: int| end <= i < to ==> text::whitespace(#[trigger] s[i])
}

/// Deleting a word takes away one word before the caret with the space behind it, and nothing else:
/// what stands behind the caret stays, what is left before it ends with white space, and what went
/// is characters of a word followed by white space.
pub proof fn one_word_is_deleted(a: TextInput, b: TextInput)
    requires
        a.wf(),
        a.word_deleted(b),
    ensures
        b.cursor <= a.cursor,
        a.cursor > 0 ==> b.cursor < a.cursor,
        b.text@.take(b.cursor as int) == a.text@.take(b.cursor as int),
        b.text@.skip(b.cursor as int) == a.text@.skip(a.cursor as int),
        b.cursor > 0 ==> text::whitespace(a.text@[b.cursor - 1]),
        exists|end: int| b.cursor <= end <= a.cursor && #[trigger] word_then_space(a.text@, b.cursor as int, end, a.cursor as int),
{
    let start = input_helpers::word_start(a.text@, a.cursor as int);
    input_helpers::word_start_is_boundary(a.text@, a.cursor as int);
    let end = choose|end: int|
        start <= end <= a.cursor && #[trigger] input_helpers::no_space(a.text@, start, end) && input_helpers::all_space(
            a.text@,
            end,
            a.cursor as int,
        );
    if a.cursor > 0 && start == a.cursor {
        assert(end == a.cursor);
        assert(text::whitespace(a.text@[a.cursor - 1]));
        space_is_skipped(a.text@, a.cursor as int);
    }
    if start < a.cursor {
        assert(b.text@.take(b.cursor as int) =~= a.text@.take(b.cursor as int));
        assert(b.text@.skip(b.cursor as int) =~= a.text@.skip(a.cursor as int));
    }
    assert(b.cursor == start);
    assert(word_then_space(a.text@, b.cursor as int, end, a.cursor as int));
}

/// With white space before a position, the word before it starts earlier.
proof fn space_is_skipped(s: Seq<char>, pos: int)
    requires
        0 < pos <= s.len(),
        text::whitespace(s[pos - 1]),
    ensures
        input_helpers::word_start(s, pos) < pos,
{
    earlier_space(s, pos - 1);
    earlier_token(s, input_helpers::space_start(s, pos));
}

proof fn earlier_space(s: Seq<char>, pos: int)
    ensures
        input_helpers::space_start(s, pos) <= pos,
    decreases pos,
{
    if pos > 0 && text::whitespace(s[pos - 1]) {
        earlier_space(s, pos - 1);
    }
}

proof fn earlier_token(s: Seq<char>, pos: int)
    ensures
        input_helpers::token_start(s, pos) <= pos,
    decreases pos,
{
    if pos > 0 && !text::whitespace(s[pos - 1]) {
        earlier_token(s, pos - 1);
    }
}

/// The caret goes one character to the left or the right, or to either end, and never beyond the
/// ends; the text stays.
pub proof fn caret_moves(a: TextInput)
    requires
        a.wf(),
        a.text@.len() <= usize::MAX,
    ensures
        forall|m: CaretMove| (#[trigger] a.caret_moved(m)).text == a.text && a.caret_moved(m).cursor <= a.text@.len(),
        a.cursor > 0 ==> a.caret_moved(CaretMove::Left).cursor + 1 == a.cursor,
        a.cursor == 0 ==> a.caret_moved(CaretMove::Left).cursor == 0,
        a.cursor < a.text@.len() ==> a.caret_moved(CaretMove::Right).cursor == a.cursor + 1,
        a.cursor == a.text@.len() ==> a.caret_moved(CaretMove::Right).cursor == a.cursor,
        a.caret_moved(CaretMove::Start).cursor == 0,
        a.caret_moved(CaretMove::End).cursor == a.text@.len(),
{
}

/// What keys do in the input of a finder: backspace empties it with the platform key and deletes a
/// word with alt; a key that types text types it, unless control or the platform key is held.
pub proof fn keys_in_a_finder(a: TextInput, b: TextInput, key: KeyPress, r: FinderKey)
    requires
        a.wf(),
        a.finder_keyed(b, key, r),
    ensures
        key.platform && !key.control && !key.alt && key.key@ == "backspace"@ ==> b.text@.len() == 0 && b.cursor == 0 && r
            == FinderKey::Deleted,
        key.alt && !key.platform && !key.control && !key.shift && key.key@ == "backspace"@ ==> a.word_deleted(b),
        key.key@ != "backspace"@ && (key.control || key.platform || key.key_char is None) ==> b == a && r == FinderKey::Nothing,
        key.key@ != "backspace"@ && !key.control && !key.platform && key.key_char is Some && !(exists|i: int|
            0 <= i < key.key_char->0@.len() && text::control(#[trigger] key.key_char->0@[i])) ==> r == FinderKey::Typed
            && b.text@ == a.text@.take(a.cursor as int) + key.key_char->0@ + a.text@.skip(a.cursor as int),
{
}

// ── Keys ──────────────────────────────────────────────────────────────────────

/// Caps lock gives ASCII letters the other case and leaves every other character as it is.
pub proof fn caps_lock_swaps_letters(s: Seq<char>, i: int)
    requires
        0 <= i < s.len(),
    ensures
        keys::caps_locked(s).len() == s.len(),
        'a' <= s[i] <= 'z' ==> keys::caps_locked(s)[i] as int == s[i] as int - 32,
        'A' <= s[i] <= 'Z' ==> keys::caps_locked(s)[i] as int == s[i] as int + 32,
        !('a' <= s[i] <= 'z') && !('A' <= s[i] <= 'Z') ==> keys::caps_locked(s)[i] == s[i],
{
}

/// A key types its text unless control or the platform key is held or the text has a control
/// character.
pub proof fn keys_type_their_text(key: KeyPress)
    ensures
        key.control || key.platform ==> key.typed() is None,
        key.key_char is None ==> key.typed() is None,
        key.typed() is Some ==> key.key_char is Some && key.typed()->0 == key.key_char->0@ && forall|i: int|
            0 <= i < key.key_char->0@.len() ==> !text::control(#[trigger] key.key_char->0@[i]),
        key.key_char is Some && !key.control && !key.platform && (forall|i: int|
            0 <= i < key.key_char->0@.len() ==> !text::control(#[trigger] key.key_char->0@[i])) ==> key.typed() == Some(
            key.key_char->0@,
        ),
{
}

/// Whether a key types text: neither control nor the platform key is held, and the text has no
/// control character.
pub open spec fn types_text(key: KeyPress) -> bool {
    &&& key.key_char is Some && !key.control && !key.platform && !key.alt
    &&& forall|i: int| 0 <= i < key.key_char->0@.len() ==> !text::control(#[trigger] key.key_char->0@[i])
}

/// Text that is typed replaces what is selected, and the caret stands behind it, as long as no
/// input has the keyboard.
pub proof fn typing_replaces_the_selection(
    v: EditorView,
    after: EditorView,
    key: KeyPress,
    focus: InputFocus,
    r: KeyOutcome,
)
    requires
        v.key_effect(after, key, focus, false, r),
        types_text(key),
        key.key@ != "escape"@,
        focus == InputFocus::Editor,
    ensures
        ({
            let t = key.key_char->0@;
            let from = lower(v.buf.sel.anchor, v.buf.sel.head);
            let to = upper(v.buf.sel.anchor, v.buf.sel.head);
            &&& after.chars() == v.chars().take(from) + t + v.chars().skip(to)
            &&& after.buf.sel.anchor == from + t.len() && after.buf.sel.head == from + t.len()
            &&& r is Typed && r->text@ == t
            &&& r->schedule <==> !v.completion_suppress_once
            &&& after.chars().take(r->change.start as int) + r->change.text@ + after.chars().skip(r->change.end as int)
                == v.chars()
        }),
        !after.completion_suppress_once,
        after.search == v.search,
{
    keys_type_their_text(key);
    assert(after.chars().take(r->change.start as int) + r->change.text@ + after.chars().skip(r->change.end as int)
        =~= v.chars());
}

/// Text that is typed while an input has the keyboard goes into that input: the document and the
/// other inputs stay.
pub proof fn inputs_take_what_is_typed(
    v: EditorView,
    after: EditorView,
    key: KeyPress,
    focus: InputFocus,
    r: KeyOutcome,
)
    requires
        v.wf(),
        v.key_effect(after, key, focus, false, r),
        types_text(key),
        key.key@ != "escape"@,
        v.search.query.wf() && v.search.replace.wf() && v.overlay.input.wf(),
        (focus == InputFocus::Search && v.search.show_search) || (focus == InputFocus::Replace && v.search.show_replace) || (focus
            == InputFocus::Outline && v.overlay.open),
    ensures
        after.buf == v.buf,
        focus == InputFocus::Search ==> r is SearchEdited && after.search.query.text@ == v.search.query.text@.take(
            v.search.query.cursor as int,
        ) + key.key_char->0@ + v.search.query.text@.skip(v.search.query.cursor as int),
        focus == InputFocus::Replace ==> r is ReplaceEdited && after.search.replace.text@ == v.search.replace.text@.take(
            v.search.replace.cursor as int,
        ) + key.key_char->0@ + v.search.replace.text@.skip(v.search.replace.cursor as int),
        focus == InputFocus::Outline ==> r is OutlineEdited && after.overlay.input.text@ == v.overlay.input.text@.take(
            v.overlay.input.cursor as int,
        ) + key.key_char->0@ + v.overlay.input.text@.skip(v.overlay.input.cursor as int),
        focus != InputFocus::Search ==> after.search.query == v.search.query,
        focus != InputFocus::Replace ==> after.search.replace == v.search.replace,
        focus != InputFocus::Outline ==> after.overlay == v.overlay,
{
    keys_type_their_text(key);
}

/// With control held no key that types text does anything.
pub proof fn control_types_nothing(
    v: EditorView,
    after: EditorView,
    key: KeyPress,
    focus: InputFocus,
    caps_lock: bool,
    r: KeyOutcome,
)
    requires
        v.key_effect(after, key, focus, caps_lock, r),
        key.control,
        key.key_char is Some,
        key.key@ != "escape"@,
    ensures
        after == v,
        r is Nothing,
{
}

/// Escape takes the popover away, if there is one, and nothing else; otherwise it closes the
/// outline and goes nowhere.
pub proof fn escape_goes_step_by_step(
    v: EditorView,
    after: EditorView,
    key: KeyPress,
    focus: InputFocus,
    caps_lock: bool,
    r: KeyOutcome,
)
    requires
        v.key_effect(after, key, focus, caps_lock, r),
        key.key@ == "escape"@,
        key.key_char is None,
    ensures
        after.buf == v.buf,
        v.hover.content is Some ==> after.hover.content is None && after.overlay == v.overlay && r is HoverDismissed,
        v.hover.content is None && v.overlay.open ==> !after.overlay.open && r is OutlineClosed && r->scroll_to is None,
        v.hover.content is None ==> after.hover == v.hover,
{
    reveal_strlit("escape");
    reveal_strlit("backspace");
    reveal_strlit("delete");
    reveal_strlit("k");
    assert("escape"@.len() == 6 && "backspace"@.len() == 9 && "k"@.len() == 1);
    assert("escape"@[0] == 'e' && "delete"@[0] == 'd');
}

/// The platform key with backspace empties the input that has the keyboard, and leaves the document
/// as it is; without one it deletes what stands before the caret on its line.
pub proof fn platform_backspace(
    v: EditorView,
    after: EditorView,
    key: KeyPress,
    focus: InputFocus,
    caps_lock: bool,
    r: KeyOutcome,
)
    requires
        v.wf(),
        v.key_effect(after, key, focus, caps_lock, r),
        key.key@ == "backspace"@,
        key.platform && !key.control && !key.alt && !key.shift,
    ensures
        focus == InputFocus::Search && v.search.show_search ==> after.search.query.text@.len() == 0 && after.buf == v.buf
            && after.search.replace == v.search.replace,
        focus == InputFocus::Replace && v.search.show_replace ==> after.search.replace.text@.len() == 0 && after.buf == v.buf
            && after.search.query == v.search.query,
        focus == InputFocus::Outline && v.overlay.open ==> after.overlay.input.text@.len() == 0 && after.buf == v.buf,
        focus == InputFocus::Editor && v.buf.sel.anchor == v.buf.sel.head ==> ({
            let start = rope::line_start(v.chars(), v.buf.edit_line());
            let head = v.buf.sel.head as int;
            start < head ==> after.chars() == v.chars().take(start) + v.chars().skip(head) && after.buf.sel.head == start
        }),
        focus == InputFocus::Editor && v.buf.sel.anchor != v.buf.sel.head ==> after.chars() == v.chars().take(
            lower(v.buf.sel.anchor, v.buf.sel.head),
        ) + v.chars().skip(upper(v.buf.sel.anchor, v.buf.sel.head)),
{
    reveal_strlit("escape");
    reveal_strlit("backspace");
    assert("escape"@.len() == 6 && "backspace"@.len() == 9);
    let start = rope::line_start(v.chars(), v.buf.edit_line());
    let head = v.buf.sel.head as int;
    if focus == InputFocus::Editor {
        if v.buf.sel.anchor != v.buf.sel.head {
            let a = lower(v.buf.sel.anchor, v.buf.sel.head);
            let b = upper(v.buf.sel.anchor, v.buf.sel.head);
            assert(after.chars() =~= v.chars().take(a) + v.chars().skip(b));
        } else if start < head {
            assert(after.chars() =~= v.chars().take(start) + v.chars().skip(head));
        }
    }
}

/// The key context names the outline alone while it is open, and otherwise tells whether
/// completions are shown and whether the document is Markdown.
pub proof fn contexts_tell_apart(v: EditorView)
    ensures
        v.overlay.open ==> v.context() == "OutlineOverlay"@,
        !v.overlay.open && v.completion is None && !v.markdown ==> v.context() == "Editor"@,
        !v.overlay.open && v.completion is None && v.markdown ==> v.context() == "Editor markdown"@,
        !v.overlay.open && v.completion is Some && !v.markdown ==> v.context() == "Editor showing_completions"@,
        !v.overlay.open && v.completion is Some && v.markdown ==> v.context() == "Editor markdown showing_completions"@,
{
}

// ── Outlines ──────────────────────────────────────────────────────────────────

/// The entries that enclose a line start at or above it, get deeper from one to the next, and end
/// with the last entry at or above the line.
pub proof fn enclosing_entries_get_deeper(items: Seq<OutlineItem>, line: int, n: int, ix: Seq<int>, k: int)
    requires
        editor_logic::leads(items, line, n),
        editor_logic::breadcrumb(items, n, ix),
        0 <= k < ix.len(),
    ensures
        0 <= ix[k] < items.len(),
        items[ix[k]].source_line <= line,
        k + 1 < ix.len() ==> ix[k] < ix[k + 1] && items[ix[k]].depth < items[ix[k + 1]].depth,
        k + 1 == ix.len() ==> ix[k] == n - 1,
        ix[k] + 1 < items.len() && items[ix[k] + 1].source_line > line ==> k + 1 == ix.len(),
{
    assert(editor_logic::encloses(items, n, ix[k]));
    assert(items[ix[k]].source_line <= line);
    if k + 1 < ix.len() {
        assert(editor_logic::encloses(items, n, ix[k + 1]));
        assert(ix[k] < ix[k + 1]);
        assert(items[ix[k + 1]].depth > items[ix[k]].depth);
    }
    assert(editor_logic::encloses(items, n, n - 1));
    assert(ix.contains(n - 1));
    let m = choose|m: int| 0 <= m < ix.len() && ix[m] == n - 1;
    if k + 1 == ix.len() {
        if m < k {
            assert(ix[m] < ix[k]);
        }
    } else {
        assert(editor_logic::encloses(items, n, ix[k + 1]));
        if ix[k] + 1 < items.len() && items[ix[k] + 1].source_line > line {
            assert(items[ix[k] + 1].source_line <= line);
        }
    }
}

/// Where no entry starts at or above a line, nothing encloses it.
pub proof fn nothing_encloses_the_top(items: Seq<OutlineItem>, line: int, n: int, ix: Seq<int>)
    requires
        editor_logic::leads(items, line, n),
        editor_logic::breadcrumb(items, n, ix),
    ensures
        items.len() == 0 || items[0].source_line > line ==> ix.len() == 0,
        items.len() > 0 && items[0].source_line <= line ==> ix.len() > 0,
{
    if ix.len() > 0 {
        assert(editor_logic::encloses(items, n, ix[0]));
        assert(items[0].source_line <= line);
    }
    if items.len() > 0 && items[0].source_line <= line {
        assert(n > 0);
        assert(editor_logic::encloses(items, n, n - 1));
    }
}

/// Functions, types, modules and constants are colored as such, by their keyword; nothing else is.
pub proof fn keywords_have_their_color(c: Seq<char>)
    ensures
        c == "fn"@ <==> editor_logic::token_of_context(c) == Some(SyntaxToken::Function),
        c == "struct"@ || c == "enum"@ || c == "trait"@ || c == "type"@ || c == "impl"@ <==> editor_logic::token_of_context(
            c,
        ) == Some(SyntaxToken::Type),
        c == "mod"@ <==> editor_logic::token_of_context(c) == Some(SyntaxToken::Namespace),
        c == "const"@ <==> editor_logic::token_of_context(c) == Some(SyntaxToken::Constant),
{
    reveal_strlit("fn");
    reveal_strlit("struct");
    reveal_strlit("enum");
    reveal_strlit("trait");
    reveal_strlit("type");
    reveal_strlit("impl");
    reveal_strlit("mod");
    reveal_strlit("const");
    assert("fn"@.len() == 2 && "mod"@.len() == 3);
    assert("struct"@.len() == 6 && "trait"@.len() == 5 && "const"@.len() == 5);
    assert("enum"@.len() == 4 && "type"@.len() == 4 && "impl"@.len() == 4);
    assert("const"@[0] == 'c' && "trait"@[0] == 't');
}

/// An entry without a keyword that is known has the color of the text.
pub proof fn plain_entries_are_text(item: OutlineItem)
    ensures
        item.context is None ==> editor_frame::crumb_color(item) == ColorRole::Text,
        item.context is Some && item.context->0@ == "fn"@ ==> editor_frame::crumb_color(item)
            == ColorRole::Syntax(SyntaxToken::Function),
{
}

/// A text input shows its text, with the caret behind as many characters as stand before it; the
/// caret only while it has the keyboard, and a placeholder only while it has not and is empty.
pub proof fn inputs_show_their_text(a: TextInput, v: InputView, focused: bool, blink_on: bool)
    requires
        a.wf(),
        a.showing(v, focused, blink_on),
    ensures
        v.text@ == a.text@,
        v.caret_byte == text::byte_count(a.text@.take(a.cursor as int)),
        v.caret_shown <==> focused && blink_on,
        v.placeholder <==> !focused && a.text@.len() == 0,
        v.focused == focused,
{
}

/// The header names the document and shows what is open; a preview can be shown of Markdown only.
pub proof fn header_shows_what_is_open(v: EditorView, h: HeaderView, label: Seq<char>, top_line: int)
    requires
        v.header_shown(h, label, top_line),
    ensures
        h.path_label@ == label,
        h.can_open_outline <==> v.outline.items@.len() > 0,
        h.outline_active <==> v.overlay.open,
        v.search.show_search <==> h.search_color == ColorRole::Accent,
        h.preview is Some <==> v.markdown,
        v.markdown && v.show_preview ==> (h.preview->0).1 == ColorRole::Accent,
        v.markdown && !v.show_preview ==> (h.preview->0).1 == ColorRole::TextSubtle,
        v.outline.items@.len() == 0 ==> h.crumbs@.len() == 0,
        v.outline.items@.len() > 0 && v.outline.items@[0].source_line <= top_line ==> h.crumbs@.len() > 0,
        forall|k: int|
            0 <= k < h.crumbs@.len() ==> exists|i: int|
                0 <= i < v.outline.items@.len() && (#[trigger] v.outline.items@[i]).source_line <= top_line
                    && (#[trigger] h.crumbs@[k]).name@ == v.outline.items@[i].name@ && h.crumbs@[k].color
                    == editor_frame::crumb_color(v.outline.items@[i]),
{
    let items = v.outline.items@;
    let (n, ix) = choose|n: int, ix: Seq<int>|
        #![trigger editor_logic::breadcrumb(items, n, ix)]
        editor_logic::leads(items, top_line, n) && editor_logic::breadcrumb(items, n, ix) && h.crumbs@.len() == ix.len()
            && forall|k: int| 0 <= k < ix.len() ==> editor_frame::shows(#[trigger] h.crumbs@[k], items[ix[k]]);
    nothing_encloses_the_top(items, top_line, n, ix);
    assert forall|k: int| 0 <= k < h.crumbs@.len() implies exists|i: int|
        0 <= i < items.len() && (#[trigger] items[i]).source_line <= top_line && (#[trigger] h.crumbs@[k]).name@ == items[i].name@
            && h.crumbs@[k].color == editor_frame::crumb_color(items[i]) by {
        enclosing_entries_get_deeper(items, top_line, n, ix, k);
        assert(editor_frame::shows(h.crumbs@[k], items[ix[k]]));
    }
}

/// A byte is in a comment where a span of a comment reaches over it; a span without an end reaches
/// to the end of the line.
pub proof fn comments_reach_over_their_bytes(spans: Seq<HighlightSpan>, len: int, at: int, i: int)
    requires
        0 <= i < spans.len(),
        0 <= at < len,
    ensures
        spans[i].token == SyntaxToken::Comment && spans[i].start_byte_col <= at && (at < spans[i].end_byte_col
            || spans[i].end_byte_col == u32::MAX) ==> editor_frame::in_comment(spans, len, at),
        (forall|k: int| 0 <= k < spans.len() ==> (#[trigger] spans[k]).token != SyntaxToken::Comment)
            ==> !editor_frame::in_comment(spans, len, at),
        (forall|k: int| 0 <= k < spans.len() ==> (#[trigger] spans[k]).start_byte_col > at) ==> !editor_frame::in_comment(
            spans,
            len,
            at,
        ),
        (forall|k: int| 0 <= k < spans.len() ==> (#[trigger] spans[k]).end_byte_col <= at && spans[k].end_byte_col < u32::MAX)
            ==> !editor_frame::in_comment(spans, len, at),
{
    if spans[i].token == SyntaxToken::Comment && spans[i].start_byte_col <= at && (at < spans[i].end_byte_col
        || spans[i].end_byte_col == u32::MAX) {
        assert(spans[i].token == SyntaxToken::Comment);
    }
}

/// The byte of the caret is that of its column on its line.
pub proof fn caret_byte_is_that_of_its_column(v: EditorView)
    requires
        v.buf.sel.head < v.chars().len(),
    ensures
        ({
            let n = rope::line_of(v.chars(), v.buf.sel.head as int);
            let line = editing::content(rope::line_text(v.chars(), n));
            let col = v.buf.sel.head - rope::line_start(v.chars(), n);
            &&& 0 <= col
            &&& col <= line.len() ==> v.head_byte() == text::byte_count(line.take(col))
            &&& col > line.len() ==> v.head_byte() == text::byte_count(line)
        }),
{
    let n = rope::line_of(v.chars(), v.buf.sel.head as int);
    rope::position_on_its_line(v.chars(), v.buf.sel.head as int);
    let line = editing::content(rope::line_text(v.chars(), n));
    assert(line.take(line.len() as int) =~= line);
}

/// Bytes of the line of the caret count from the start of that line.
pub proof fn bytes_count_from_the_line(v: EditorView, k: int)
    requires
        0 <= k <= rope::line_text(v.chars(), v.buf.edit_line()).len(),
    ensures
        v.byte_on_line(text::byte_pos(rope::line_text(v.chars(), v.buf.edit_line()), k)) == rope::line_start(
            v.chars(),
            v.buf.edit_line(),
        ) + k,
{
    text::starts_char_at(rope::line_text(v.chars(), v.buf.edit_line()), k);
}

// ── More keys ─────────────────────────────────────────────────────────────────

/// There is a word to delete as soon as there is anything before the caret.
pub proof fn anything_before_is_a_word(a: TextInput)
    requires
        a.wf(),
    ensures
        a.has_word_before() <==> a.cursor > 0,
{
    input_helpers::word_start_is_boundary(a.text@, a.cursor as int);
    if a.cursor > 0 {
        if text::whitespace(a.text@[a.cursor - 1]) {
            space_is_skipped(a.text@, a.cursor as int);
        } else {
            assert(input_helpers::space_start(a.text@, a.cursor as int) == a.cursor);
            earlier_token(a.text@, a.cursor - 1);
        }
    }
}

/// Alt with backspace deletes a word of the input that has the keyboard, and nothing else; at its
/// start it does nothing.
pub proof fn alt_backspace_deletes_a_word(
    v: EditorView,
    after: EditorView,
    key: KeyPress,
    focus: InputFocus,
    caps_lock: bool,
    r: KeyOutcome,
)
    requires
        v.wf(),
        v.search.query.wf() && v.search.replace.wf() && v.overlay.input.wf(),
        v.key_effect(after, key, focus, caps_lock, r),
        key.key@ == "backspace"@,
        key.alt && !key.platform && !key.control && !key.shift,
        (focus == InputFocus::Search && v.search.show_search) || (focus == InputFocus::Replace && v.search.show_replace) || (focus
            == InputFocus::Outline && v.overlay.open),
    ensures
        after.buf == v.buf,
        ({
            let (a, b) = match focus {
                InputFocus::Search => (v.search.query, after.search.query),
                InputFocus::Replace => (v.search.replace, after.search.replace),
                _ => (v.overlay.input, after.overlay.input),
            };
            &&& a.word_deleted(b)
            &&& a.cursor == 0 ==> after == v && r is Nothing
            &&& a.cursor > 0 && focus == InputFocus::Search ==> r is SearchEdited
            &&& a.cursor > 0 && focus == InputFocus::Replace ==> r is ReplaceEdited
            &&& a.cursor > 0 && focus == InputFocus::Outline ==> r is OutlineEdited
        }),
        focus != InputFocus::Search ==> after.search.query == v.search.query,
        focus != InputFocus::Replace ==> after.search.replace == v.search.replace,
        focus != InputFocus::Outline ==> after.overlay.input == v.overlay.input,
{
    reveal_strlit("escape");
    reveal_strlit("backspace");
    assert("escape"@.len() == 6 && "backspace"@.len() == 9);
    anything_before_is_a_word(v.search.query);
    anything_before_is_a_word(v.search.replace);
    anything_before_is_a_word(v.overlay.input);
}

/// The platform key with delete removes what stands behind the caret on its line, up to the break;
/// with something selected, that.
pub proof fn platform_delete(v: EditorView, after: EditorView, key: KeyPress, focus: InputFocus, caps_lock: bool, r: KeyOutcome)
    requires
        v.wf(),
        v.key_effect(after, key, focus, caps_lock, r),
        key.key@ == "delete"@,
        key.platform && !key.control && !key.alt && !key.shift,
    ensures
        ({
            let n = v.buf.edit_line();
            let end = rope::line_start(v.chars(), n) + editing::content_len(rope::line_text(v.chars(), n));
            let selected = v.buf.sel.anchor != v.buf.sel.head;
            let from = if selected { lower(v.buf.sel.anchor, v.buf.sel.head) } else { v.buf.sel.head as int };
            let to = if selected { upper(v.buf.sel.anchor, v.buf.sel.head) } else { end };
            &&& r is Edited
            &&& from < to ==> after.chars() == v.chars().take(from) + v.chars().skip(to) && after.buf.sel.head == from
            &&& from >= to ==> after.buf == v.buf
        }),
{
    reveal_strlit("escape");
    reveal_strlit("backspace");
    reveal_strlit("delete");
    assert("escape"@.len() == 6 && "backspace"@.len() == 9 && "delete"@.len() == 6);
    assert("escape"@[0] == 'e' && "delete"@[0] == 'd');
    let n = v.buf.edit_line();
    let end = rope::line_start(v.chars(), n) + editing::content_len(rope::line_text(v.chars(), n));
    deletions_remove_one_stretch(v.buf, after.buf, v.buf.sel.head as int, end, r->Edited_inverse);
}

/// The platform key with shift and k deletes the line of the caret.
pub proof fn platform_k(v: EditorView, after: EditorView, key: KeyPress, focus: InputFocus, caps_lock: bool, r: KeyOutcome)
    requires
        v.wf(),
        v.key_effect(after, key, focus, caps_lock, r),
        key.key@ == "k"@,
        key.platform && !key.control && !key.alt && key.shift,
    ensures
        r is Edited,
        v.chars().len() == 0 ==> after == v,
        v.chars().len() > 0 ==> {
            let (from, to) = v.buf.line_extent();
            after.chars() == v.chars().take(from) + v.chars().skip(to) && after.buf.sel.head == from
        },
{
    reveal_strlit("escape");
    reveal_strlit("backspace");
    reveal_strlit("delete");
    reveal_strlit("k");
    assert("escape"@.len() == 6 && "backspace"@.len() == 9 && "delete"@.len() == 6 && "k"@.len() == 1);
    let (from, to) = v.buf.line_extent();
    if v.chars().len() > 0 {
        assert(after.chars() =~= v.chars().take(from) + v.chars().skip(to));
    }
}

/// In the outline the arrows move the caret, backspace deletes the character before it, and enter
/// goes to the first entry that matches and closes the outline. The document stays.
pub proof fn keys_in_the_outline(v: EditorView, after: EditorView, key: KeyPress, caps_lock: bool, r: KeyOutcome)
    requires
        v.wf(),
        v.overlay.input.wf(),
        v.overlay.input.text@.len() <= usize::MAX,
        v.overlay.open,
        v.key_effect(after, key, InputFocus::Outline, caps_lock, r),
        key.key_char is None,
        !key.platform && !key.alt && !key.control,
    ensures
        after.buf == v.buf,
        after.search == v.search,
        key.key@ == "backspace"@ ==> v.overlay.input.backspaced(after.overlay.input) && after.overlay.open,
        key.key@ == "left"@ ==> after.overlay.input.text == v.overlay.input.text && after.overlay.input.cursor
            == v.overlay.input.caret_moved(CaretMove::Left).cursor && after.overlay.open,
        key.key@ == "right"@ ==> after.overlay.input.text == v.overlay.input.text && after.overlay.input.cursor
            == v.overlay.input.caret_moved(CaretMove::Right).cursor && after.overlay.open,
        key.key@ == "enter"@ ==> !after.overlay.open && r is OutlineClosed && outline_overlay::first_line(
            v.outline.items@,
            v.overlay.input.text@,
            r->scroll_to,
        ),
{
    reveal_strlit("escape");
    reveal_strlit("backspace");
    reveal_strlit("left");
    reveal_strlit("right");
    reveal_strlit("enter");
    assert("escape"@.len() == 6 && "backspace"@.len() == 9 && "left"@.len() == 4 && "right"@.len() == 5 && "enter"@.len() == 5);
    assert("right"@[0] == 'r' && "enter"@[0] == 'e');
}

} // verus!
