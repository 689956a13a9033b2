//! How completions are matched, ranked, kept up to date and accepted.
use vstd::prelude::*;

use crate::buffer_view::ColorRole;
use crate::completion_logic;
use crate::completion_logic::{FuzzyMatch, ParsedCompletion};
use crate::completion_menu;
use crate::completion_menu::{Accepted, Answer, CompletionMenu, CompletionRow, InputStep};
use crate::editing::EditBuffer;
use crate::markdown::SyntaxToken;
use crate::rope;
use crate::text;

verus! {

/// The text of an item that a query is held against: what the server gave for that, or else the
/// label.
pub open spec fn match_text(item: ParsedCompletion) -> Seq<char> {
    if item.filter_text is Some { item.filter_text->0@ } else { item.label@ }
}

/// The text of an item that decides where nothing else does.
pub open spec fn tie_text(item: ParsedCompletion) -> Seq<char> {
    if item.sort_text is Some { item.sort_text->0@ } else { item.label@ }
}

/// Whether the query and the text of both items are the same, or neither is.
pub open spec fn alike(items: Seq<ParsedCompletion>, query: Seq<char>, a: FuzzyMatch, b: FuzzyMatch) -> bool {
    (match_text(items[a.item_ix as int]) == query) == (match_text(items[b.item_ix as int]) == query)
}

// ── Ranking ───────────────────────────────────────────────────────────────────

/// An item whose text is the query comes before every item whose text is not.
pub proof fn exact_text_first(items: Seq<ParsedCompletion>, query: Seq<char>, r: Seq<FuzzyMatch>, i: int, j: int)
    requires
        query.len() > 0,
        completion_logic::ranked(items, query, r),
        0 <= i < r.len(),
        0 <= j < r.len(),
        match_text(items[r[i].item_ix as int]) == query,
        match_text(items[r[j].item_ix as int]) != query,
    ensures
        i < j,
{
    if j < i {
        assert(completion_logic::ranks_before(items, query, r[j], r[i]));
    }
}

/// Of two matches that are both exact or both not, the one at the start of its text comes first.
pub proof fn start_of_text_first(items: Seq<ParsedCompletion>, query: Seq<char>, r: Seq<FuzzyMatch>, i: int, j: int)
    requires
        query.len() > 0,
        completion_logic::ranked(items, query, r),
        0 <= i < r.len(),
        0 <= j < r.len(),
        alike(items, query, r[i], r[j]),
        r[i].word_start && !r[j].word_start,
    ensures
        i < j,
{
    if j < i {
        assert(completion_logic::ranks_before(items, query, r[j], r[i]));
    }
}

/// Of two matches that are both exact or both not, and both at the start or both not, the one with
/// the higher score comes first: along a list of such matches no score rises.
pub proof fn higher_score_first(items: Seq<ParsedCompletion>, query: Seq<char>, r: Seq<FuzzyMatch>, i: int, j: int)
    requires
        query.len() > 0,
        completion_logic::ranked(items, query, r),
        0 <= i < r.len(),
        0 <= j < r.len(),
        alike(items, query, r[i], r[j]),
        r[i].word_start == r[j].word_start,
    ensures
        r[i].score > r[j].score ==> i < j,
        i < j ==> r[i].score >= r[j].score,
{
    if j < i {
        assert(completion_logic::ranks_before(items, query, r[j], r[i]));
    }
    if i < j {
        assert(completion_logic::ranks_before(items, query, r[i], r[j]));
    }
}

/// Whether texts that agree up to `p` part there, with `a` before `b`.
pub open spec fn parts_at(a: Seq<char>, b: Seq<char>, p: int) -> bool {
    &&& 0 <= p <= a.len() && p < b.len()
    &&& a.take(p) == b.take(p)
    &&& p == a.len() || a[p] < b[p]
}

proof fn parted_texts_are_ordered(a: Seq<char>, b: Seq<char>, p: int)
    requires
        parts_at(a, b, p),
    ensures
        completion_logic::text_before(a, b),
        !completion_logic::text_before(b, a),
    decreases p,
{
    if p > 0 {
        assert(a.take(p)[0] == b.take(p)[0]);
        assert(a.drop_first().take(p - 1) =~= a.take(p).drop_first());
        assert(b.drop_first().take(p - 1) =~= b.take(p).drop_first());
        parted_texts_are_ordered(a.drop_first(), b.drop_first(), p - 1);
    }
}

/// Of two matches that are equally good, the one whose sort text, or else label, comes first in
/// the order of characters is listed first.
pub proof fn sort_text_settles_ties(
    items: Seq<ParsedCompletion>,
    query: Seq<char>,
    r: Seq<FuzzyMatch>,
    i: int,
    j: int,
    p: int,
)
    requires
        query.len() > 0,
        completion_logic::ranked(items, query, r),
        0 <= i < r.len(),
        0 <= j < r.len(),
        alike(items, query, r[i], r[j]),
        r[i].word_start == r[j].word_start,
        r[i].score == r[j].score,
        parts_at(tie_text(items[r[i].item_ix as int]), tie_text(items[r[j].item_ix as int]), p),
    ensures
        i < j,
{
    let a = tie_text(items[r[i].item_ix as int]);
    let b = tie_text(items[r[j].item_ix as int]);
    parted_texts_are_ordered(a, b, p);
    if a == b {
        assert(completion_logic::text_before(b, a));
    }
    if j < i {
        assert(completion_logic::ranks_before(items, query, r[j], r[i]));
    }
    assert(i != j);
}

/// Matches that nothing tells apart keep the order of their items.
pub proof fn order_of_items_settles_the_rest(
    items: Seq<ParsedCompletion>,
    query: Seq<char>,
    r: Seq<FuzzyMatch>,
    i: int,
    j: int,
)
    requires
        completion_logic::ranked(items, query, r),
        0 <= i < r.len(),
        0 <= j < r.len(),
        r[i].item_ix < r[j].item_ix,
        query.len() == 0 || (alike(items, query, r[i], r[j]) && r[i].word_start == r[j].word_start && r[i].score
            == r[j].score && tie_text(items[r[i].item_ix as int]) == tie_text(items[r[j].item_ix as int])),
    ensures
        i < j,
{
    if j < i && query.len() > 0 {
        assert(completion_logic::ranks_before(items, query, r[j], r[i]));
    }
}

// ── Matching ──────────────────────────────────────────────────────────────────

/// Whether the characters of `query` stand in `text` at the places `ps`, in order.
pub open spec fn stand_at(text: Seq<char>, query: Seq<char>, strict: bool, ps: Seq<int>) -> bool {
    &&& ps.len() == query.len()
    &&& forall|k: int| 0 <= k < ps.len() ==> 0 <= #[trigger] ps[k] < text.len()
    &&& forall|k: int|
        0 <= k < ps.len() ==> (text[#[trigger] ps[k]] == query[k] || (!strict && text::lowered(text[ps[k]])
            == text::lowered(query[k])))
    &&& forall|j: int, k: int| 0 <= j < k < ps.len() ==> #[trigger] ps[j] < #[trigger] ps[k]
}

/// Whether a query has a capital, and so minds the case.
pub open spec fn strict(query: Seq<char>) -> bool {
    exists|i: int| 0 <= i < query.len() && text::uppercase(#[trigger] query[i])
}

/// What is listed matches: the positions are those of the characters of the query in the text of
/// the item, in order, and case counts just where the query has a capital.
pub proof fn listed_items_match(items: Seq<ParsedCompletion>, query: Seq<char>, r: Seq<FuzzyMatch>, i: int)
    requires
        query.len() > 0,
        completion_logic::ranked(items, query, r),
        0 <= i < r.len(),
        match_text(items[r[i].item_ix as int]).len() <= u32::MAX,
    ensures
        r[i].item_ix < items.len(),
        stand_at(
            match_text(items[r[i].item_ix as int]),
            query,
            strict(query),
            r[i].positions@.map_values(|p: u32| p as int),
        ),
        r[i].word_start == (r[i].positions@[0] == 0),
{
    assert(completion_logic::match_of(items, query, r[i]));
    let t = match_text(items[r[i].item_ix as int]);
    let ps = completion_logic::found_at(t, query, completion_logic::minds_case(query));
    assert(completion_logic::picks(t, query, completion_logic::minds_case(query), ps));
    let qs = r[i].positions@.map_values(|p: u32| p as int);
    assert(ps[0] < t.len());
    assert(qs =~= ps) by {
        assert forall|k: int| 0 <= k < ps.len() implies qs[k] == ps[k] by {
            assert(0 <= ps[k] < t.len());
        }
    }
}

/// What matches is listed: an item whose text has the characters of the query in order is among
/// the matches, wherever these stand.
pub proof fn matching_items_are_listed(
    items: Seq<ParsedCompletion>,
    query: Seq<char>,
    r: Seq<FuzzyMatch>,
    i: int,
    ps: Seq<int>,
)
    requires
        query.len() > 0,
        completion_logic::ranked(items, query, r),
        0 <= i < items.len(),
        stand_at(match_text(items[i]), query, strict(query), ps),
    ensures
        exists|k: int| 0 <= k < r.len() && (#[trigger] r[k]).item_ix == i,
{
    assert(completion_logic::picks(match_text(items[i]), query, completion_logic::minds_case(query), ps));
    assert(completion_logic::fits(items[i].matched_text(), query, completion_logic::minds_case(query)));
    assert(completion_logic::listed(r, items[i], i));
}

/// An empty query lists every item, each where it stands.
pub proof fn empty_query_lists_all(items: Seq<ParsedCompletion>, r: Seq<FuzzyMatch>, i: int)
    requires
        completion_logic::ranked(items, Seq::empty(), r),
        0 <= i < items.len(),
    ensures
        r.len() == items.len(),
        r[i].item_ix == i,
{
}

/// A match at the start of the text is worth a hundred points more than one elsewhere: the score
/// of no characters is that alone.
pub proof fn start_is_worth_a_hundred(text: Seq<char>, query: Seq<char>, strict: bool, ps: Seq<int>)
    requires
        ps.len() > 0,
    ensures
        completion_logic::score_of(text, query, strict, ps, 0) == if ps[0] == 0 { 100int } else { 0 },
{
}

/// A further character earns twenty points right behind the one before it, ten at the start of a
/// word, and five in its own case where case does not count; nothing else changes the score.
pub proof fn character_earns(text: Seq<char>, query: Seq<char>, strict: bool, ps: Seq<int>, n: int, gain: int)
    requires
        0 <= n < ps.len(),
        0 <= ps[n] < text.len(),
        gain == completion_logic::score_of(text, query, strict, ps, n + 1) - completion_logic::score_of(
            text,
            query,
            strict,
            ps,
            n,
        ),
    ensures
        ({
            let p = ps[n];
            let neighbour = n > 0 && ps[n] == ps[n - 1] + 1;
            let hump = p > 0 && text::lowercase(text[p - 1]) && text::uppercase(text[p]);
            let joint = p > 0 && (text[p - 1] == '_' || text[p - 1] == '-' || text[p - 1] == '.');
            let same_case = !strict && text[p] == query[n];
            &&& neighbour <==> gain >= 20
            &&& (hump || joint) <==> gain % 20 >= 10
            &&& same_case <==> gain % 10 == 5
            &&& 0 <= gain <= 35
        }),
{
}

/// Matches that are found in a row from the start on beat the same characters found apart: in case
/// that counts, a row of characters without word starts scores a hundred and twenty for each
/// character behind the first.
pub proof fn row_from_the_start_scores(text: Seq<char>, query: Seq<char>, ps: Seq<int>, n: int)
    requires
        1 <= n <= ps.len(),
        forall|k: int| 0 <= k < n ==> #[trigger] ps[k] == k,
        n <= text.len(),
        forall|k: int| 0 <= k < n ==> !text::uppercase(#[trigger] text[k]) && text[k] != '_' && text[k] != '-' && text[k] != '.',
    ensures
        completion_logic::score_of(text, query, true, ps, n) == 100 + 20 * (n - 1),
    decreases n,
{
    assert(ps[n - 1] == n - 1);
    assert(!text::uppercase(text[n - 1]));
    if n > 1 {
        row_from_the_start_scores(text, query, ps, n - 1);
        assert(ps[n - 2] == n - 2);
        assert(text[n - 2] != '_' && text[n - 2] != '-' && text[n - 2] != '.');
    } else {
        assert(completion_logic::score_of(text, query, true, ps, 0) == 100);
    }
}

/// Identifiers are made of letters, digits and underscores: no white space, no full stop, colon,
/// hyphen or bracket ends up in a word that is completed.
pub proof fn words_are_identifiers(c: char)
    ensures
        c == '_' || ('a' <= c <= 'z') || ('A' <= c <= 'Z') || ('0' <= c <= '9') ==> completion_logic::word_char(c),
        c == '.' || c == ':' || c == '-' || c == '(' || c == ')' || c == ' ' || c == '\n' || c == '\t' || c == '"' || c
            == '/' || c == '<' || c == ',' || c == ';' ==> !completion_logic::word_char(c),
{
}

// ── The menu ──────────────────────────────────────────────────────────────────

/// The selected entry is kept by its label: where a new list has an entry with the label of the
/// one that was selected, the first such entry is selected; otherwise the first of all.
pub proof fn selection_follows_the_label(before: CompletionMenu, items: Seq<ParsedCompletion>, ix: Seq<usize>, k: int)
    requires
        before.selected_ix < before.filtered@.len(),
        ix.len() > 0,
        0 <= k < ix.len(),
    ensures
        ({
            let label = before.items@[before.filtered@[before.selected_ix as int] as int].label@;
            let p = completion_menu::kept_selection(Some(before), items, ix);
            &&& 0 <= p < ix.len()
            &&& items[ix[k] as int].label@ == label ==> p <= k && items[ix[p] as int].label@ == label
            &&& items[ix[p] as int].label@ != label ==> p == 0
        }),
{
    let label = before.items@[before.filtered@[before.selected_ix as int] as int].label@;
    label_is_first(items, ix, label, 0);
}

proof fn label_is_first(items: Seq<ParsedCompletion>, ix: Seq<usize>, label: Seq<char>, from: int)
    requires
        0 <= from <= ix.len(),
    ensures
        ({
            let p = completion_menu::label_position(items, ix, label, from);
            &&& from <= p <= ix.len()
            &&& p < ix.len() ==> items[ix[p] as int].label@ == label
            &&& forall|k: int| from <= k < p ==> items[#[trigger] ix[k] as int].label@ != label
        }),
    decreases ix.len() - from,
{
    if from < ix.len() && items[ix[from] as int].label@ != label {
        label_is_first(items, ix, label, from + 1);
    }
}

/// An answer to a request that the caret has left behind changes nothing.
pub proof fn stale_answers_change_nothing(
    before: Option<CompletionMenu>,
    after: Option<CompletionMenu>,
    s: Seq<char>,
    head: int,
    word_start: int,
    initial: Seq<char>,
    items: Seq<ParsedCompletion>,
    is_incomplete: bool,
    r: Answer,
)
    requires
        completion_menu::answered(before, after, s, head, word_start, initial, items, is_incomplete, r),
        head < word_start,
    ensures
        after == before,
        r is Stale,
{
}

/// A menu that an answer fills lists just the items that match what stands before the caret now,
/// not what stood there when they were asked for.
pub proof fn answers_are_filtered_for_the_word(
    before: Option<CompletionMenu>,
    after: Option<CompletionMenu>,
    s: Seq<char>,
    head: int,
    word_start: int,
    initial: Seq<char>,
    items: Seq<ParsedCompletion>,
    is_incomplete: bool,
    r: Answer,
)
    requires
        completion_menu::answered(before, after, s, head, word_start, initial, items, is_incomplete, r),
        0 <= word_start <= head <= s.len(),
        r is Shown,
    ensures
        after is Some,
        after->0.items@ == items,
        after->0.query@ == s.subrange(word_start, head),
        after->0.initial_query@ == initial,
        after->0.word_start == word_start,
        after->0.is_incomplete == is_incomplete,
        completion_menu::lists(items, s.subrange(word_start, head), after->0.filtered@),
        after->0.filtered@.len() > 0,
{
    if after->0.filtered@.len() == 0 {
        assert(after->0.filtered@ =~= Seq::empty());
    }
}

/// An answer without a match never takes away entries that are shown, and closes the menu only
/// where the word is still the one that was asked for.
pub proof fn empty_answers_spare_the_menu(
    before: Option<CompletionMenu>,
    after: Option<CompletionMenu>,
    s: Seq<char>,
    head: int,
    word_start: int,
    initial: Seq<char>,
    items: Seq<ParsedCompletion>,
    is_incomplete: bool,
    r: Answer,
)
    requires
        completion_menu::answered(before, after, s, head, word_start, initial, items, is_incomplete, r),
        0 <= word_start <= head <= s.len(),
        completion_menu::lists(items, s.subrange(word_start, head), Seq::empty()),
    ensures
        before is Some && before->0.filtered@.len() > 0 ==> after is Some && after->0.filtered == before->0.filtered
            && after->0.items == before->0.items && after->0.selected_ix == before->0.selected_ix,
        r is Dismissed ==> after is None && s.subrange(word_start, head) == initial,
        r is Rerequest ==> s.subrange(word_start, head) != initial && r->query@ == s.subrange(word_start, head),
        !(r is Shown) && !(r is Stale),
{
}

/// The menu goes just where the caret leaves the word: behind its start, or with something between
/// that no identifier has.
pub proof fn menu_lives_as_long_as_the_word(before: CompletionMenu, after: Option<CompletionMenu>, s: Seq<char>, head: int)
    requires
        completion_menu::refreshed(before, after, s, head),
        0 <= head <= s.len(),
    ensures
        after is Some <==> before.word_start <= head && forall|i: int|
            before.word_start <= i < head ==> completion_logic::word_char(#[trigger] s[i]),
        after matches Some(m) ==> {
            &&& m.items == before.items
            &&& m.word_start == before.word_start
            &&& m.initial_query == before.initial_query
            &&& m.is_incomplete == before.is_incomplete
            &&& m.query@ == s.subrange(before.word_start as int, head)
            &&& completion_menu::lists(before.items@, s.subrange(before.word_start as int, head), m.filtered@)
            &&& m.selected_ix <= before.selected_ix
            &&& m.filtered@.len() > 0 ==> m.selected_ix < m.filtered@.len()
            &&& before.selected_ix < m.filtered@.len() ==> m.selected_ix == before.selected_ix
        },
{
    let ws = before.word_start as int;
    if ws <= head {
        let q = s.subrange(ws, head);
        assert(q == completion_menu::word_to_caret(s, ws, head));
        if completion_menu::all_word(q) {
            assert forall|i: int| ws <= i < head implies completion_logic::word_char(#[trigger] s[i]) by {
                assert(q[i - ws] == s[i]);
            }
        } else {
            let k = choose|k: int| 0 <= k < q.len() && !completion_logic::word_char(#[trigger] q[k]);
            assert(!completion_logic::word_char(s[ws + k]));
        }
    }
}

/// Typing a trigger asks for completions of an empty word at the caret; typing the character of an
/// identifier asks for the word that it ends, unless a menu has its items; typing anything else
/// closes the menu and asks for nothing.
pub proof fn typing_asks_for_the_word(
    before: Option<CompletionMenu>,
    after: Option<CompletionMenu>,
    s: Seq<char>,
    head: int,
    typed: Seq<char>,
    triggers: Seq<String>,
    r: InputStep,
)
    requires
        completion_menu::input_step(before, after, s, head, typed, triggers, r),
        0 < head <= s.len(),
        typed.len() == 1,
        s[head - 1] == typed[0],
    ensures
        (exists|i: int| 0 <= i < triggers.len() && (#[trigger] triggers[i])@ == typed) ==> r is Request && r->word_start == head
            && r->query@.len() == 0 && r->trigger_char is Some && r->trigger_char->0@ == typed && after == before,
        !(exists|i: int| 0 <= i < triggers.len() && (#[trigger] triggers[i])@ == typed) ==> {
            &&& !completion_logic::word_char(typed[0]) ==> after is None && !(r is Request)
            &&& completion_logic::word_char(typed[0]) ==> after == before && !(r is Dismissed)
            &&& completion_logic::word_char(typed[0]) && before is None ==> r is Request
            &&& before is Some && before->0.items@.len() > 0 ==> !(r is Request)
            &&& r is Request ==> {
                &&& r->trigger_char is None
                &&& r->word_start < head
                &&& r->query@ == s.subrange(r->word_start as int, head)
                &&& forall|i: int| r->word_start <= i < head ==> completion_logic::word_char(#[trigger] s[i])
                &&& r->word_start > 0 ==> !completion_logic::word_char(s[r->word_start - 1])
            }
        },
{
    assert(completion_menu::all_word(typed) <==> completion_logic::word_char(typed[0])) by {
        if completion_menu::all_word(typed) {
            assert(completion_logic::word_char(typed[0]));
        }
    }
}

/// What is asked for by hand is the whole word before the caret, and nothing where none is there.
pub proof fn asked_word_is_whole(s: Seq<char>, head: int, word_start: int, query: Seq<char>)
    requires
        completion_menu::asked_word(s, head, word_start, query),
        0 <= head <= s.len(),
    ensures
        0 <= word_start <= head,
        query == s.subrange(word_start, head),
        forall|i: int| word_start <= i < head ==> completion_logic::word_char(#[trigger] s[i]),
        word_start > 0 ==> !completion_logic::word_char(s[word_start - 1]),
{
    if word_start == head {
        assert(query =~= s.subrange(word_start, head));
    }
}

/// A backspace asks for the word before the caret only while no menu is open.
pub proof fn backspace_asks_without_a_menu(menu: Option<CompletionMenu>, s: Seq<char>, head: int, r: InputStep)
    requires
        completion_menu::reopens(menu, s, head, r),
        0 <= head <= s.len(),
    ensures
        r is Request <==> menu is None && head > 0 && completion_logic::word_char(s[head - 1]),
        r is Request ==> r->query@ == s.subrange(r->word_start as int, head) && r->word_start < head && r->trigger_char is None,
{
}

// ── Accepting ─────────────────────────────────────────────────────────────────

/// Where the server asked for a range and both its ends are in the text, just that range is
/// replaced; an end that is not in the text is that of the word. Where it asked for none, the word
/// up to the caret is replaced, whatever the positions are.
pub proof fn accepted_range(a: Accepted, head: usize, start: Option<usize>, end: Option<usize>, s: usize, e: usize)
    ensures
        a.edit is Some ==> a.extent(head, Some(s), Some(e)) == (s, e),
        a.edit is Some ==> a.extent(head, None, Some(e)) == (a.word_start, e),
        a.edit is Some ==> a.extent(head, Some(s), None) == (s, head),
        a.edit is None ==> a.extent(head, start, end) == (a.word_start, head),
{
}

/// An accepted completion changes nothing but the range that it replaces, and leaves the caret
/// behind its text.
pub proof fn accepted_text(
    a: Accepted,
    before: EditBuffer,
    after: EditBuffer,
    from: usize,
    to: usize,
    text: Seq<char>,
    start: Option<usize>,
    end: Option<usize>,
)
    requires
        a.edit is Some ==> start == Some(from) && end == Some(to),
        a.edit is None ==> from == a.word_start && to == before.sel.head,
        from <= to <= before.chars().len(),
        ({
            let (x, y) = a.extent(before.sel.head, start, end);
            before.edited(after, x as int, y as int, text, x + text.len())
        }),
    ensures
        after.chars().len() == before.chars().len() - (to - from) + text.len(),
        after.chars().take(from as int) == before.chars().take(from as int),
        after.chars().subrange(from as int, from + text.len()) == text,
        after.chars().skip(from + text.len()) == before.chars().skip(to as int),
        after.sel.head == from + text.len() && after.sel.anchor == from + text.len(),
{
    let s = before.chars();
    let t = after.chars();
    assert(t.take(from as int) =~= s.take(from as int));
    assert(t.subrange(from as int, from + text.len()) =~= text);
    assert(t.skip(from + text.len()) =~= s.skip(to as int));
}

/// The text that an item puts in: that of the edit of the server, or else the text to insert, or
/// else the label.
pub proof fn accepted_item_text(item: ParsedCompletion)
    ensures
        item.text_edit is Some ==> completion_menu::item_text(item) == item.text_edit->0.new_text@,
        item.text_edit is None && item.insert_text is Some ==> completion_menu::item_text(item) == item.insert_text->0@,
        item.text_edit is None && item.insert_text is None ==> completion_menu::item_text(item) == item.label@,
{
}

/// What is shown beside an item is its documentation; its detail only where it has none.
pub proof fn documentation_goes_first(item: ParsedCompletion)
    ensures
        item.documentation is Some ==> completion_menu::item_doc(item) == Some(item.documentation->0@),
        item.documentation is None && item.detail is Some ==> completion_menu::item_doc(item) == Some(item.detail->0@),
        item.documentation is None && item.detail is None ==> completion_menu::item_doc(item) is None,
{
}

// ── What is shown ─────────────────────────────────────────────────────────────

/// The menu shows no more entries than there are, but for an empty row, and never more than a
/// dozen; where there is room for more, more are shown.
pub proof fn rows_fill_the_room(fit: int, wider: int, count: int)
    requires
        0 <= fit <= wider,
        0 <= count,
    ensures
        1 <= completion_menu::rows_shown(fit, count) <= 12,
        count >= 1 ==> completion_menu::rows_shown(fit, count) <= count,
        completion_menu::rows_shown(fit, count) <= completion_menu::rows_shown(wider, count),
        3 <= fit <= 12 && fit <= count ==> completion_menu::rows_shown(fit, count) == fit,
        count >= 3 ==> completion_menu::rows_shown(fit, count) >= 3,
        1 <= count && count <= fit && count <= 12 ==> completion_menu::rows_shown(fit, count) == count,
{
}

/// One row is marked: that of the selected entry.
pub proof fn selected_row_is_marked(m: CompletionMenu, k: int, row: CompletionRow)
    requires
        completion_menu::shows_entry(m, k, row),
    ensures
        row.selected <==> k == m.selected_ix,
        row.label@ == m.items@[m.filtered@[k] as int].label@,
        row.detail == m.items@[m.filtered@[k] as int].detail,
{
}

/// The menu stands at the line that its word starts on; beyond the text, at the last line.
pub proof fn menu_stands_at_its_word(s: Seq<char>, m: CompletionMenu)
    requires
        s.len() > 0,
    ensures
        m.word_start < s.len() ==> completion_menu::word_line(s, m) == rope::line_of(s, m.word_start as int),
        m.word_start >= s.len() ==> completion_menu::word_line(s, m) == rope::line_of(s, s.len() - 1),
{
}

/// The characters of a query are found as early as they can be: no other way to pick them out of
/// the text, in order, picks any of them earlier.
pub proof fn characters_are_found_early(text: Seq<char>, query: Seq<char>, strict: bool, ps: Seq<int>, qs: Seq<int>, k: int)
    requires
        completion_logic::picks_leftmost(text, query, strict, ps),
        qs.len() == query.len(),
        forall|i: int| 0 <= i < qs.len() ==> 0 <= #[trigger] qs[i] < text.len() && completion_logic::same_char(
            text[qs[i]],
            query[i],
            strict,
        ),
        forall|i: int, j: int| 0 <= i < j < qs.len() ==> #[trigger] qs[i] < #[trigger] qs[j],
        0 <= k < query.len(),
    ensures
        ps[k] <= qs[k],
        k > 0 ==> ps[k - 1] < ps[k],
        completion_logic::same_char(text[ps[k]], query[k], strict),
    decreases k,
{
    if k > 0 {
        characters_are_found_early(text, query, strict, ps, qs, k - 1);
        assert(qs[k - 1] < qs[k]);
        assert(ps[k - 1] < ps[k]);
    }
    assert(0 <= qs[k] < text.len());
    assert(0 <= ps[k] < text.len());
    if qs[k] < ps[k] {
        assert(!completion_logic::same_char(text[qs[k]], query[k], strict));
    }
}

/// A query minds the case as soon as it has a capital; as long as it does not, letters match in
/// either case.
pub proof fn capitals_mind_the_case(query: Seq<char>, i: int, t: char, q: char)
    requires
        0 <= i < query.len(),
    ensures
        'A' <= query[i] <= 'Z' ==> completion_logic::minds_case(query),
        (forall|k: int| 0 <= k < query.len() ==> (#[trigger] query[k]) <= '\u{7f}' && !('A' <= query[k] <= 'Z'))
            ==> !completion_logic::minds_case(query),
        completion_logic::same_char(t, q, true) <==> t == q,
        t == q ==> completion_logic::same_char(t, q, false),
        'A' <= t <= 'Z' && q as int == t as int + 32 ==> completion_logic::same_char(t, q, false)
            && completion_logic::same_char(q, t, false),
        t <= '\u{7f}' && q <= '\u{7f}' && !('A' <= t <= 'Z') && !('A' <= q <= 'Z') ==> (completion_logic::same_char(
            t,
            q,
            false,
        ) <==> t == q),
{
}

/// The score of what is listed is what its positions earn.
pub proof fn listed_items_have_their_score(items: Seq<ParsedCompletion>, query: Seq<char>, r: Seq<FuzzyMatch>, i: int)
    requires
        query.len() > 0,
        completion_logic::ranked(items, query, r),
        0 <= i < r.len(),
        match_text(items[r[i].item_ix as int]).len() <= u32::MAX,
    ensures
        ({
            let t = match_text(items[r[i].item_ix as int]);
            let qs = r[i].positions@.map_values(|p: u32| p as int);
            let earned = completion_logic::score_of(t, query, strict(query), qs, query.len() as int);
            r[i].score == if earned <= i32::MAX { earned } else { i32::MAX as int }
        }),
{
    listed_items_match(items, query, r, i);
    assert(completion_logic::match_of(items, query, r[i]));
    let t = match_text(items[r[i].item_ix as int]);
    let ps = completion_logic::found_at(t, query, completion_logic::minds_case(query));
    let qs = r[i].positions@.map_values(|p: u32| p as int);
    assert(qs =~= ps) by {
        assert forall|k: int| 0 <= k < ps.len() implies qs[k] == ps[k] by {
            assert(0 <= ps[k] < t.len());
        }
    }
}

/// Functions, types, variables, constants, modules and keywords have the color that they have in
/// the text; what is not known has a dot.
pub proof fn kinds_have_their_color(k: i32)
    ensures
        completion_menu::kind_sign(Some(k)).0 == ColorRole::Syntax(SyntaxToken::Function) <==> k == 2 || k == 3,
        completion_menu::kind_sign(Some(k)).0 == ColorRole::Syntax(SyntaxToken::Variable) <==> k == 5 || k == 6 || k == 10,
        completion_menu::kind_sign(Some(k)).0 == ColorRole::Syntax(SyntaxToken::Type) <==> k == 7 || k == 8 || k == 13 || k
            == 22 || k == 25,
        completion_menu::kind_sign(Some(k)).0 == ColorRole::Syntax(SyntaxToken::Namespace) <==> k == 9,
        completion_menu::kind_sign(Some(k)).0 == ColorRole::Syntax(SyntaxToken::Constant) <==> k == 12 || k == 21,
        completion_menu::kind_sign(Some(k)).0 == ColorRole::Syntax(SyntaxToken::Keyword) <==> k == 14,
        k < 1 || k > 25 || k == 16 || k == 17 || k == 18 || k == 19 ==> completion_menu::kind_sign(Some(k)) == (
            ColorRole::Text,
            "·"@,
        ),
        completion_menu::kind_sign(None) == (ColorRole::Text, "·"@),
{
}

/// Every kind has its sign.
pub proof fn kinds_have_their_sign(k: i32)
    ensures
        k == 1 ==> completion_menu::kind_sign(Some(k)).1 == "ab"@,
        k == 2 || k == 3 ==> completion_menu::kind_sign(Some(k)).1 == "fn"@,
        k == 4 ==> completion_menu::kind_sign(Some(k)).1 == "c"@,
        k == 5 ==> completion_menu::kind_sign(Some(k)).1 == "f"@,
        k == 6 ==> completion_menu::kind_sign(Some(k)).1 == "v"@,
        k == 7 ==> completion_menu::kind_sign(Some(k)).1 == "C"@,
        k == 8 ==> completion_menu::kind_sign(Some(k)).1 == "I"@,
        k == 9 ==> completion_menu::kind_sign(Some(k)).1 == "ns"@,
        k == 10 ==> completion_menu::kind_sign(Some(k)).1 == "p"@,
        k == 11 ==> completion_menu::kind_sign(Some(k)).1 == "u"@,
        k == 12 ==> completion_menu::kind_sign(Some(k)).1 == "="@,
        k == 13 ==> completion_menu::kind_sign(Some(k)).1 == "E"@,
        k == 14 ==> completion_menu::kind_sign(Some(k)).1 == "kw"@,
        k == 15 ==> completion_menu::kind_sign(Some(k)).1 == "⋯"@,
        k == 20 ==> completion_menu::kind_sign(Some(k)).1 == "e"@,
        k == 21 ==> completion_menu::kind_sign(Some(k)).1 == "K"@,
        k == 22 || k == 25 ==> completion_menu::kind_sign(Some(k)).1 == "T"@,
        k == 23 ==> completion_menu::kind_sign(Some(k)).1 == "!"@,
        k == 24 ==> completion_menu::kind_sign(Some(k)).1 == "op"@,
{
}

/// What is selected is the item of the selected row; without rows nothing is.
pub proof fn selected_item_is_that_of_its_row(m: CompletionMenu)
    ensures
        m.selected_ix < m.filtered@.len() ==> m.selected() == Some(m.items@[m.filtered@[m.selected_ix as int] as int]),
        m.selected_ix >= m.filtered@.len() ==> m.selected() is None,
{
}

/// What the menu lists are the items of the ranked matches, in their order; without a query it lists
/// as many as there are.
pub proof fn menu_lists_what_matches(items: Seq<ParsedCompletion>, query: Seq<char>, ix: Seq<usize>)
    requires
        completion_menu::lists(items, query, ix),
    ensures
        exists|r: Seq<FuzzyMatch>|
            #[trigger] completion_logic::ranked(items, query, r) && r.len() == ix.len() && forall|i: int|
                0 <= i < ix.len() ==> r[i].item_ix == #[trigger] ix[i],
        query.len() == 0 ==> ix.len() == items.len(),
{
    let r = choose|r: Seq<FuzzyMatch>|
        #[trigger] completion_logic::ranked(items, query, r) && ix == Seq::new(r.len(), |i: int| r[i].item_ix);
    assert(completion_logic::ranked(items, query, r));
    if query.len() == 0 {
        assert(query =~= Seq::<char>::empty());
        if items.len() > 0 {
            empty_query_lists_all(items, r, 0);
        }
    }
}

} // verus!
