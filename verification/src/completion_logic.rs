//! Completion: the word before the caret, fuzzy filtering of a list of completions, and what to
//! do with a list that has grown stale.
use ropey::Rope;
use vstd::prelude::*;

use crate::rope;
use crate::rope::{rope_char, rope_slice};
use crate::text;
use crate::text::{chars_of, is_alphanumeric, is_lowercase, is_uppercase, same_text, to_lowered};

verus! {

/// A position as a language server counts it: a line, and code units into the line.
#[derive(Debug, Clone, Copy, PartialEq, Eq, Structural)]
pub struct LspPosition {
    pub line: u32,
    pub character: u32,
}

/// A replacement that a language server proposes.
#[derive(Debug)]
pub struct CompletionEdit {
    pub start: LspPosition,
    pub end: LspPosition,
    pub new_text: String,
}

/// One completion that a language server offers.
#[derive(Debug)]
pub struct ParsedCompletion {
    pub label: String,
    pub kind: Option<i32>,
    pub detail: Option<String>,
    pub sort_text: Option<String>,
    pub filter_text: Option<String>,
    pub insert_text: Option<String>,
    pub text_edit: Option<CompletionEdit>,
    pub additional_text_edits: Vec<CompletionEdit>,
    pub is_snippet: bool,
    pub documentation: Option<String>,
    /// What the server wants back when the item is resolved, as JSON text; `None` for null.
    pub data: Option<String>,
}

impl ParsedCompletion {
    /// The text that a query is matched against.
    pub open spec fn matched_text(self) -> Seq<char> {
        match self.filter_text {
            Some(t) => t@,
            None => self.label@,
        }
    }

    /// The text that equally good matches are ordered by.
    pub open spec fn order_text(self) -> Seq<char> {
        match self.sort_text {
            Some(t) => t@,
            None => self.label@,
        }
    }

    /// The filter text, or the label where there is none.
    pub fn match_text(&self) -> (t: &str)
        ensures
            t@ == self.matched_text(),
    {
        match &self.filter_text {
            Some(t) => t.as_str(),
            None => self.label.as_str(),
        }
    }

    /// The sort text, or the label where there is none.
    pub fn sort_key(&self) -> (t: &str)
        ensures
            t@ == self.order_text(),
    {
        match &self.sort_text {
            Some(t) => t.as_str(),
            None => self.label.as_str(),
        }
    }
}

// ── the word before the caret ─────────────────────────────────────────────────

/// Whether `c` can stand in an identifier.
pub open spec fn word_char(c: char) -> bool {
    text::alphanumeric(c) || c == '_'
}

/// Whether `c` can stand in an identifier.
pub fn is_word_char(c: char) -> (b: bool)
    ensures
        b == word_char(c),
{
    c == '_' || is_alphanumeric(c)
}

/// Whether `start` is where the run of identifier characters that ends at `caret` starts.
pub open spec fn prefix_starts(s: Seq<char>, caret: int, start: int) -> bool {
    &&& 0 <= start <= caret
    &&& forall|i: int| start <= i < caret ==> word_char(#[trigger] s[i])
    &&& start > 0 ==> !word_char(s[start - 1])
}

/// The part of the current word that stands before `caret`, with the position where it starts.
/// There is none at the start of the text and right after a character that no identifier has.
pub fn compute_word_prefix(rope: &Rope, caret: usize) -> (r: Option<(usize, String)>)
    requires
        caret <= rope::rope_chars(*rope).len(),
    ensures
        r is None <==> caret == 0 || !word_char(rope::rope_chars(*rope)[caret - 1]),
        r matches Some((start, query)) ==> start < caret && prefix_starts(
            rope::rope_chars(*rope),
            caret as int,
            start as int,
        ) && query@ == rope::rope_chars(*rope).subrange(start as int, caret as int),
{
    let ghost s = rope::rope_chars(*rope);
    let mut start: usize = caret;
    while start > 0 && is_word_char(rope_char(rope, start - 1))
        invariant
            start <= caret <= s.len(),
            s == rope::rope_chars(*rope),
            forall|i: int| start <= i < caret ==> word_char(#[trigger] s[i]),
        ensures
            prefix_starts(s, caret as int, start as int),
        decreases start,
    {
        start = start - 1;
    }
    if start == caret {
        return None;
    }
    Some((start, rope_slice(rope, start, caret)))
}

// ── fuzzy filtering ───────────────────────────────────────────────────────────

/// A completion that a query matches.
#[derive(Debug)]
pub struct FuzzyMatch {
    pub item_ix: usize,
    /// Higher is better.
    pub score: i32,
    /// Whether the first character of the query matches the first of the text.
    pub word_start: bool,
    /// Where the matched characters stand in the text.
    pub positions: Vec<u32>,
}

impl Clone for FuzzyMatch {
    fn clone(&self) -> (r: Self)
        ensures
            r.item_ix == self.item_ix,
            r.score == self.score,
            r.word_start == self.word_start,
            r.positions@ == self.positions@,
    {
        FuzzyMatch {
            item_ix: self.item_ix,
            score: self.score,
            word_start: self.word_start,
            positions: self.positions.clone(),
        }
    }
}

/// Whether `query` asks for its own case: it does as soon as it has an uppercase character.
pub open spec fn minds_case(query: Seq<char>) -> bool {
    exists|i: int| 0 <= i < query.len() && text::uppercase(#[trigger] query[i])
}

/// Whether a character of a text matches one of a query.
pub open spec fn same_char(t: char, q: char, case_sensitive: bool) -> bool {
    if case_sensitive { t == q } else { text::lowered(t) == text::lowered(q) }
}

/// Whether `ps` picks the characters of `query` out of `text`, in order.
pub open spec fn picks(text: Seq<char>, query: Seq<char>, case_sensitive: bool, ps: Seq<int>) -> bool {
    &&& ps.len() == query.len()
    &&& forall|k: int| 0 <= k < ps.len() ==> 0 <= #[trigger] ps[k] < text.len() && same_char(
        text[ps[k]],
        query[k],
        case_sensitive,
    )
    &&& forall|j: int, k: int| 0 <= j < k < ps.len() ==> #[trigger] ps[j] < #[trigger] ps[k]
}

/// The first position that is free for the character `k` of a query, after those before it.
pub open spec fn free_from(ps: Seq<int>, k: int) -> int {
    if k == 0 { 0 } else { ps[k - 1] + 1 }
}

/// Whether `ps` picks the characters of `query`, each as far left as those before it allow.
pub open spec fn picks_leftmost(text: Seq<char>, query: Seq<char>, case_sensitive: bool, ps: Seq<int>) -> bool {
    &&& picks(text, query, case_sensitive, ps)
    &&& forall|k: int, i: int|
        0 <= k < ps.len() && free_from(ps, k) <= i < ps[k] ==> !same_char(
            #[trigger] text[i],
            #[trigger] query[k],
            case_sensitive,
        )
}

/// Whether `query` matches `text`: its characters occur there, in order.
pub open spec fn fits(text: Seq<char>, query: Seq<char>, case_sensitive: bool) -> bool {
    query.len() > 0 && exists|ps: Seq<int>| picks(text, query, case_sensitive, ps)
}

/// Where the characters of `query` are found in `text`.
pub open spec fn found_at(text: Seq<char>, query: Seq<char>, case_sensitive: bool) -> Seq<int> {
    choose|ps: Seq<int>| picks_leftmost(text, query, case_sensitive, ps)
}

/// Whether a word starts at position `p` of `text`, within it: behind a separator, or where an
/// uppercase character follows a lowercase one. The start of the text counts by itself.
pub open spec fn word_boundary(text: Seq<char>, p: int) -> bool {
    p > 0 && (separator(text[p - 1]) || (text::lowercase(text[p - 1]) && text::uppercase(text[p])))
}

/// Whether `c` separates words.
pub open spec fn separator(c: char) -> bool {
    c == '_' || c == '-' || c == '.'
}

/// What the character `k` of the query adds to the score.
pub open spec fn char_bonus(text: Seq<char>, query: Seq<char>, case_sensitive: bool, ps: Seq<int>, k: int) -> int {
    (if k > 0 && ps[k - 1] + 1 == ps[k] { 20int } else { 0int })
        + (if word_boundary(text, ps[k]) { 10int } else { 0int })
        + (if !case_sensitive && text[ps[k]] == query[k] { 5int } else { 0int })
}

/// The score of the first `n` characters of the query: a hundred for a match at the start of the
/// text, and the bonus of each character.
pub open spec fn score_of(text: Seq<char>, query: Seq<char>, case_sensitive: bool, ps: Seq<int>, n: int) -> int
    decreases n,
{
    if n <= 0 {
        if ps.len() > 0 && ps[0] == 0 { 100 } else { 0 }
    } else {
        score_of(text, query, case_sensitive, ps, n - 1) + char_bonus(text, query, case_sensitive, ps, n - 1)
    }
}

/// The greatest score.
pub const MAX_SCORE: i32 = i32::MAX;

/// `n`, or the greatest score where `n` is more.
pub open spec fn as_score(n: int) -> int {
    if n <= MAX_SCORE { n } else { MAX_SCORE as int }
}

/// There is one leftmost choice of positions.
pub proof fn leftmost_unique(text: Seq<char>, query: Seq<char>, case_sensitive: bool, a: Seq<int>, b: Seq<int>)
    requires
        picks_leftmost(text, query, case_sensitive, a),
        picks_leftmost(text, query, case_sensitive, b),
    ensures
        a == b,
{
    leftmost_agree(text, query, case_sensitive, a, b, a.len() as int);
    assert(a =~= b);
}

proof fn leftmost_agree(text: Seq<char>, query: Seq<char>, case_sensitive: bool, a: Seq<int>, b: Seq<int>, n: int)
    requires
        picks_leftmost(text, query, case_sensitive, a),
        picks_leftmost(text, query, case_sensitive, b),
        0 <= n <= a.len(),
    ensures
        forall|k: int| 0 <= k < n ==> a[k] == b[k],
    decreases n,
{
    if n > 0 {
        leftmost_agree(text, query, case_sensitive, a, b, n - 1);
        let k = n - 1;
        assert(free_from(a, k) == free_from(b, k));
        if a[k] < b[k] {
            assert(!same_char(text[a[k]], query[k], case_sensitive));
        } else if b[k] < a[k] {
            assert(!same_char(text[b[k]], query[k], case_sensitive));
        }
    }
}

/// The score to which a bonus is added, short of the greatest.
fn raise(score: i32, bonus: i32) -> (r: i32)
    requires
        0 <= score,
        0 <= bonus,
    ensures
        r == as_score(score + bonus),
{
    if score <= MAX_SCORE - bonus { score + bonus } else { MAX_SCORE }
}

/// Where the characters of `query` are found in `text`, each as far left as those before it
/// allow; nothing where they do not all occur in order.
fn find_leftmost(text: &[char], query: &[char], case_sensitive: bool) -> (r: Option<Vec<usize>>)
    ensures
        r is None <==> !exists|ps: Seq<int>| picks(text@, query@, case_sensitive, ps),
        r matches Some(v) ==> picks_leftmost(text@, query@, case_sensitive, v@.map_values(|p: usize| p as int)),
{
    let mut found: Vec<usize> = Vec::new();
    let mut ti: usize = 0;
    while ti < text.len() && found.len() < query.len()
        invariant
            ti <= text@.len(),
            found@.len() <= query@.len(),
            forall|k: int| 0 <= k < found@.len() ==> #[trigger] found@[k] < ti && same_char(text@[found@[k] as int], query@[k], case_sensitive),
            forall|j: int, k: int| 0 <= j < k < found@.len() ==> #[trigger] found@[j] < #[trigger] found@[k],
            forall|k: int, i: int| 0 <= k < found@.len() && (if k == 0 { 0 } else { found@[k - 1] + 1 }) <= i < found@[k] ==> !same_char(#[trigger] text@[i], #[trigger] query@[k], case_sensitive),
            found@.len() < query@.len() ==> forall|i: int| (if found@.len() == 0 { 0 } else { found@[found@.len() - 1] + 1 }) <= i < ti ==> !same_char(#[trigger] text@[i], query@[found@.len() as int], case_sensitive),
            forall|ps: Seq<int>| #[trigger] picks(text@, query@, case_sensitive, ps) && found@.len() < query@.len() ==> ti <= ps[found@.len() as int],
        decreases text@.len() - ti,
    {
        let t: char = text[ti];
        let q: char = query[found.len()];
        let same: bool = if case_sensitive { t == q } else { to_lowered(t) == to_lowered(q) };
        assert(same == same_char(t, q, case_sensitive));
        proof {
            assert forall|ps: Seq<int>| #[trigger] picks(text@, query@, case_sensitive, ps) && same && found@.len() + 1 < query@.len() implies ti + 1 <= ps[found@.len() as int + 1] by {
                assert(ps[found@.len() as int] < ps[found@.len() as int + 1]);
            }
            assert forall|ps: Seq<int>| #[trigger] picks(text@, query@, case_sensitive, ps) && !same implies ti + 1 <= ps[found@.len() as int] by {
                assert(ps[found@.len() as int] != ti);
            }
        }
        if same {
            found.push(ti);
        }
        ti = ti + 1;
    }
    if found.len() < query.len() {
        proof {
            assert forall|ps: Seq<int>| !picks(text@, query@, case_sensitive, ps) by {
                if picks(text@, query@, case_sensitive, ps) {
                    assert(ps[found@.len() as int] < text@.len());
                }
            }
        }
        return None;
    }
    proof {
        let ps = found@.map_values(|p: usize| p as int);
        assert(picks(text@, query@, case_sensitive, ps));
        assert forall|k: int, i: int| 0 <= k < ps.len() && free_from(ps, k) <= i < ps[k] implies !same_char(#[trigger] text@[i], #[trigger] query@[k], case_sensitive) by {}
    }
    Some(found)
}

/// The score of `query` at the positions `found` of `text`.
fn score_positions(text: &[char], query: &[char], case_sensitive: bool, found: &[usize]) -> (r: i32)
    requires
        picks(text@, query@, case_sensitive, found@.map_values(|p: usize| p as int)),
    ensures
        r == as_score(score_of(text@, query@, case_sensitive, found@.map_values(|p: usize| p as int), query@.len() as int)),
        0 <= r,
{
    let ghost ps = found@.map_values(|p: usize| p as int);
    let mut score: i32 = if found.len() > 0 && found[0] == 0 { 100 } else { 0 };
    let mut k: usize = 0;
    while k < found.len()
        invariant
            k <= found@.len(),
            found@.len() == query@.len(),
            ps == found@.map_values(|p: usize| p as int),
            picks(text@, query@, case_sensitive, ps),
            0 <= score,
            0 <= score_of(text@, query@, case_sensitive, ps, k as int),
            score == as_score(score_of(text@, query@, case_sensitive, ps, k as int)),
        decreases found@.len() - k,
    {
        let p: usize = found[k];
        assert(ps[k as int] == p);
        let consecutive: bool = k > 0 && found[k - 1] < p && p - found[k - 1] == 1;
        let boundary: bool = is_boundary(text, p);
        let exact: bool = !case_sensitive && text[p] == query[k];
        let bonus: i32 = (if consecutive { 20 } else { 0 }) + (if boundary { 10 } else { 0 }) + (if exact { 5 } else { 0 });
        assert(bonus == char_bonus(text@, query@, case_sensitive, ps, k as int));
        score = raise(score, bonus);
        k = k + 1;
    }
    score
}

/// Whether a word starts at `p`, within the text.
fn is_boundary(text: &[char], p: usize) -> (b: bool)
    requires
        p < text@.len(),
    ensures
        b == word_boundary(text@, p as int),
{
    if p == 0 {
        return false;
    }
    let prev: char = text[p - 1];
    let cur: char = text[p];
    if prev == '_' || prev == '-' || prev == '.' {
        true
    } else {
        is_lowercase(prev) && is_uppercase(cur)
    }
}

/// Matches all characters of `query` with characters of `text`, in order: the score, whether the
/// match is at the start, and the positions. An empty query matches nothing.
pub fn subsequence_match(text: &str, query: &str, case_sensitive: bool) -> (r: Option<(i32, bool, Vec<u32>)>)
    ensures
        r is Some <==> fits(text@, query@, case_sensitive),
        r matches Some((score, word_start, positions)) ==> {
            let ps = found_at(text@, query@, case_sensitive);
            &&& picks_leftmost(text@, query@, case_sensitive, ps)
            &&& score == as_score(score_of(text@, query@, case_sensitive, ps, query@.len() as int))
            &&& word_start == (ps[0] == 0)
            &&& positions@ == ps.map_values(|p: int| p as u32)
        },
{
    let text_chars: Vec<char> = chars_of(text);
    let query_chars: Vec<char> = chars_of(query);
    if query_chars.len() == 0 {
        return None;
    }
    match find_leftmost(text_chars.as_slice(), query_chars.as_slice(), case_sensitive) {
        None => None,
        Some(found) => {
            let ghost ps = found@.map_values(|p: usize| p as int);
            proof {
                assert(picks(text@, query@, case_sensitive, ps));
                let chosen = found_at(text@, query@, case_sensitive);
                assert(picks_leftmost(text@, query@, case_sensitive, chosen));
                leftmost_unique(text@, query@, case_sensitive, ps, chosen);
            }
            let score: i32 = score_positions(text_chars.as_slice(), query_chars.as_slice(), case_sensitive, found.as_slice());
            assert(ps[0] == found@[0]);
            let word_start: bool = found[0] == 0;
            let mut positions: Vec<u32> = Vec::new();
            let mut k: usize = 0;
            while k < found.len()
                invariant
                    k <= found@.len(),
                    ps == found@.map_values(|p: usize| p as int),
                    positions@ == ps.take(k as int).map_values(|p: int| p as u32),
                decreases found@.len() - k,
            {
                positions.push(found[k] as u32);
                k = k + 1;
                assert(positions@ =~= ps.take(k as int).map_values(|p: int| p as u32));
            }
            assert(ps.take(ps.len() as int) =~= ps);
            Some((score, word_start, positions))
        },
    }
}

/// Whether `a` comes before `b` when texts are ordered by their characters.
pub open spec fn text_before(a: Seq<char>, b: Seq<char>) -> bool
    decreases a.len(),
{
    if b.len() == 0 {
        false
    } else if a.len() == 0 {
        true
    } else if a[0] == b[0] {
        text_before(a.drop_first(), b.drop_first())
    } else {
        a[0] < b[0]
    }
}

/// Of two texts, one comes before the other or they are the same.
pub proof fn text_order_total(a: Seq<char>, b: Seq<char>)
    ensures
        text_before(a, b) || text_before(b, a) || a == b,
        !(text_before(a, b) && text_before(b, a)),
        a == b ==> !text_before(a, b),
    decreases a.len(),
{
    if a.len() > 0 && b.len() > 0 && a[0] == b[0] {
        text_order_total(a.drop_first(), b.drop_first());
        if a.drop_first() == b.drop_first() {
            assert(a =~= seq![a[0]] + a.drop_first());
            assert(b =~= seq![b[0]] + b.drop_first());
        }
    } else if a.len() == 0 && b.len() == 0 {
        assert(a =~= b);
    }
}

/// The order of texts is transitive.
pub proof fn text_order_transitive(a: Seq<char>, b: Seq<char>, c: Seq<char>)
    requires
        text_before(a, b),
        text_before(b, c),
    ensures
        text_before(a, c),
    decreases a.len(),
{
    if a.len() > 0 && a[0] == b[0] && b[0] == c[0] {
        text_order_transitive(a.drop_first(), b.drop_first(), c.drop_first());
    }
}

/// Whether `a` comes before `b` when texts are ordered by their characters.
fn is_text_before(a: &str, b: &str) -> (r: bool)
    ensures
        r == text_before(a@, b@),
{
    let x: Vec<char> = chars_of(a);
    let y: Vec<char> = chars_of(b);
    let mut i: usize = 0;
    assert(a@.skip(0) =~= a@ && b@.skip(0) =~= b@);
    while i < x.len() && i < y.len() && x[i] == y[i]
        invariant
            i <= x@.len(),
            i <= y@.len(),
            x@ == a@,
            y@ == b@,
            text_before(a@, b@) == text_before(a@.skip(i as int), b@.skip(i as int)),
        ensures
            i == x@.len() || i == y@.len() || x@[i as int] != y@[i as int],
        decreases x@.len() - i,
    {
        assert(a@.skip(i as int).drop_first() =~= a@.skip(i + 1));
        assert(b@.skip(i as int).drop_first() =~= b@.skip(i + 1));
        i = i + 1;
    }
    if i == y.len() {
        false
    } else if i == x.len() {
        true
    } else {
        x[i] < y[i]
    }
}

/// Whether `m` is what matching `query` with the item it names gives.
pub open spec fn match_of(items: Seq<ParsedCompletion>, query: Seq<char>, m: FuzzyMatch) -> bool {
    let text = items[m.item_ix as int].matched_text();
    let case_sensitive = minds_case(query);
    let ps = found_at(text, query, case_sensitive);
    &&& m.item_ix < items.len()
    &&& fits(text, query, case_sensitive)
    &&& picks_leftmost(text, query, case_sensitive, ps)
    &&& m.score == as_score(score_of(text, query, case_sensitive, ps, query.len() as int))
    &&& m.word_start == (ps[0] == 0)
    &&& m.positions@ == ps.map_values(|p: int| p as u32)
}

/// Whether the match `a` is listed before the match `b`: a text that is the query itself comes
/// first, then a match at the start, then the higher score, then the order text, and then the
/// place in the list.
pub open spec fn ranks_before(items: Seq<ParsedCompletion>, query: Seq<char>, a: FuzzyMatch, b: FuzzyMatch) -> bool {
    let exact_a = items[a.item_ix as int].matched_text() == query;
    let exact_b = items[b.item_ix as int].matched_text() == query;
    let text_a = items[a.item_ix as int].order_text();
    let text_b = items[b.item_ix as int].order_text();
    if exact_a != exact_b {
        exact_a
    } else if a.word_start != b.word_start {
        a.word_start
    } else if a.score != b.score {
        a.score > b.score
    } else if text_a != text_b {
        text_before(text_a, text_b)
    } else {
        a.item_ix < b.item_ix
    }
}

proof fn ranks_transitive(items: Seq<ParsedCompletion>, query: Seq<char>, a: FuzzyMatch, b: FuzzyMatch, c: FuzzyMatch)
    requires
        ranks_before(items, query, a, b),
        ranks_before(items, query, b, c),
    ensures
        ranks_before(items, query, a, c),
{
    let ta = items[a.item_ix as int].order_text();
    let tb = items[b.item_ix as int].order_text();
    let tc = items[c.item_ix as int].order_text();
    if text_before(ta, tb) && text_before(tb, tc) {
        text_order_transitive(ta, tb, tc);
    }
    text_order_total(ta, tc);
    text_order_total(ta, tb);
    text_order_total(tb, tc);
}

/// Whether `a`, which stands earlier in the list of completions, is listed before `b`.
fn is_ranked_before(items: &[ParsedCompletion], query: &str, a: &FuzzyMatch, b: &FuzzyMatch) -> (r: bool)
    requires
        a.item_ix < items@.len(),
        b.item_ix < items@.len(),
    ensures
        r == ranks_before(items@, query@, *a, *b),
{
    let exact_a: bool = same_text(items[a.item_ix].match_text(), query);
    let exact_b: bool = same_text(items[b.item_ix].match_text(), query);
    if exact_a != exact_b {
        return exact_a;
    }
    if a.word_start != b.word_start {
        return a.word_start;
    }
    if a.score != b.score {
        return a.score > b.score;
    }
    let text_a: &str = items[a.item_ix].sort_key();
    let text_b: &str = items[b.item_ix].sort_key();
    if !same_text(text_a, text_b) {
        return is_text_before(text_a, text_b);
    }
    a.item_ix < b.item_ix
}

/// What `fuzzy_filter` returns for a query that is not empty: the match of every item that
/// matches, and of no other, in the order of `ranks_before`.
pub open spec fn filtered(items: Seq<ParsedCompletion>, query: Seq<char>, n: int, r: Seq<FuzzyMatch>) -> bool {
    &&& forall|k: int| 0 <= k < r.len() ==> match_of(items, query, #[trigger] r[k]) && r[k].item_ix < n
    &&& forall|i: int| 0 <= i < n && fits(items[i].matched_text(), query, minds_case(query)) ==> listed(r, #[trigger] items[i], i)
    &&& forall|j: int, k: int| 0 <= j < k < r.len() ==> ranks_before(items, query, #[trigger] r[j], #[trigger] r[k])
}

/// Whether the item at `i` is among the matches `r`.
pub open spec fn listed(r: Seq<FuzzyMatch>, item: ParsedCompletion, i: int) -> bool {
    exists|k: int| 0 <= k < r.len() && (#[trigger] r[k]).item_ix == i
}

/// What `fuzzy_filter` returns: all items in the order given for an empty query, and otherwise
/// those that match, best first.
pub open spec fn ranked(items: Seq<ParsedCompletion>, query: Seq<char>, r: Seq<FuzzyMatch>) -> bool {
    if query.len() > 0 {
        filtered(items, query, items.len() as int, r)
    } else {
        &&& r.len() == items.len()
        &&& forall|i: int|
            0 <= i < r.len() ==> (#[trigger] r[i]).item_ix == i && r[i].score == 0 && !r[i].word_start
                && r[i].positions@.len() == 0
    }
}

/// Two matches of which neither precedes the other or both do are impossible; matches of the same
/// item rank alike.
proof fn ranks_asymmetric(items: Seq<ParsedCompletion>, query: Seq<char>, a: FuzzyMatch, b: FuzzyMatch, c: FuzzyMatch, d: FuzzyMatch)
    requires
        match_of(items, query, a),
        match_of(items, query, b),
        match_of(items, query, c),
        match_of(items, query, d),
        a.item_ix == d.item_ix,
        b.item_ix == c.item_ix,
        ranks_before(items, query, a, b),
    ensures
        !ranks_before(items, query, c, d),
{
    text_order_total(items[a.item_ix as int].order_text(), items[b.item_ix as int].order_text());
}

/// Whether the item at `i` ranks before the one at `j`.
spec fn item_before(items: Seq<ParsedCompletion>, query: Seq<char>, i: usize, j: usize) -> bool {
    exists|a: FuzzyMatch, b: FuzzyMatch|
        match_of(items, query, a) && match_of(items, query, b) && a.item_ix == i && b.item_ix == j
            && #[trigger] ranks_before(items, query, a, b)
}

proof fn item_before_asymmetric(items: Seq<ParsedCompletion>, query: Seq<char>, i: usize, j: usize)
    ensures
        !(item_before(items, query, i, j) && item_before(items, query, j, i)),
{
    if item_before(items, query, i, j) && item_before(items, query, j, i) {
        let (a, b) = choose|a: FuzzyMatch, b: FuzzyMatch|
            match_of(items, query, a) && match_of(items, query, b) && a.item_ix == i && b.item_ix == j
                && #[trigger] ranks_before(items, query, a, b);
        let (c, d) = choose|a: FuzzyMatch, b: FuzzyMatch|
            match_of(items, query, a) && match_of(items, query, b) && a.item_ix == j && b.item_ix == i
                && #[trigger] ranks_before(items, query, a, b);
        ranks_asymmetric(items, query, a, b, c, d);
    }
}

/// Whether `a` is ordered by `lt`, each before all that follow.
spec fn ordered_by(a: Seq<usize>, lt: spec_fn(usize, usize) -> bool) -> bool {
    forall|j: int, k: int| 0 <= j < k < a.len() ==> lt(#[trigger] a[j], #[trigger] a[k])
}

/// The first `n` entries of two ordered lists of the same entries are the same.
proof fn ordered_lists_agree(a: Seq<usize>, b: Seq<usize>, lt: spec_fn(usize, usize) -> bool, n: int)
    requires
        ordered_by(a, lt),
        ordered_by(b, lt),
        forall|x: usize, y: usize| !(#[trigger] lt(x, y) && lt(y, x)),
        forall|x: usize| a.contains(x) <==> b.contains(x),
        0 <= n <= a.len(),
        n <= b.len(),
    ensures
        forall|i: int| 0 <= i < n ==> a[i] == b[i],
    decreases n,
{
    if n > 0 {
        let m = n - 1;
        ordered_lists_agree(a, b, lt, m);
        assert(a.contains(a[m]));
        assert(b.contains(b[m]));
        let k = choose|k: int| 0 <= k < b.len() && b[k] == a[m];
        let j = choose|j: int| 0 <= j < a.len() && a[j] == b[m];
        if k < m {
            assert(lt(a[k], a[m]));
        }
        if j < m {
            assert(lt(b[j], b[m]));
        }
        if k > m && j > m {
            assert(lt(b[m], b[k]));
            assert(lt(a[m], a[j]));
        }
    }
}

/// An ordered list has no more entries than another one of the same entries.
proof fn ordered_list_covers(a: Seq<usize>, b: Seq<usize>, lt: spec_fn(usize, usize) -> bool)
    requires
        ordered_by(a, lt),
        ordered_by(b, lt),
        forall|x: usize, y: usize| !(#[trigger] lt(x, y) && lt(y, x)),
        forall|x: usize| a.contains(x) <==> b.contains(x),
    ensures
        a.len() <= b.len(),
{
    if a.len() > b.len() {
        let n = b.len() as int;
        ordered_lists_agree(a, b, lt, n);
        assert(a.contains(a[n]));
        let k = choose|k: int| 0 <= k < b.len() && b[k] == a[n];
        assert(lt(a[k], a[n]));
    }
}

/// The items that matches are of.
spec fn item_places(r: Seq<FuzzyMatch>) -> Seq<usize> {
    Seq::new(r.len(), |i: int| r[i].item_ix)
}

proof fn ranking_is_ordered(items: Seq<ParsedCompletion>, query: Seq<char>, r: Seq<FuzzyMatch>)
    requires
        filtered(items, query, items.len() as int, r),
    ensures
        ordered_by(item_places(r), |i: usize, j: usize| item_before(items, query, i, j)),
        forall|x: usize|
            #[trigger] item_places(r).contains(x) <==> x < items.len() && fits(
                items[x as int].matched_text(),
                query,
                minds_case(query),
            ),
{
    let ix = item_places(r);
    assert forall|j: int, k: int| 0 <= j < k < ix.len() implies item_before(items, query, #[trigger] ix[j], #[trigger] ix[k]) by {
        assert(match_of(items, query, r[j]) && match_of(items, query, r[k]));
        assert(ranks_before(items, query, r[j], r[k]));
    }
    assert forall|x: usize|
        #[trigger] ix.contains(x) <==> x < items.len() && fits(items[x as int].matched_text(), query, minds_case(query)) by {
        if ix.contains(x) {
            let k = choose|k: int| 0 <= k < ix.len() && ix[k] == x;
            assert(match_of(items, query, r[k]));
        }
        if x < items.len() && fits(items[x as int].matched_text(), query, minds_case(query)) {
            assert(listed(r, items[x as int], x as int));
            let k = choose|k: int| 0 <= k < r.len() && (#[trigger] r[k]).item_ix == x;
            assert(ix[k] == x);
        }
    }
}

/// What a query lists, and in which order, is settled by the items and the query alone.
pub proof fn ranking_is_unique(items: Seq<ParsedCompletion>, query: Seq<char>, a: Seq<FuzzyMatch>, b: Seq<FuzzyMatch>)
    requires
        ranked(items, query, a),
        ranked(items, query, b),
    ensures
        a.len() == b.len(),
        forall|i: int| 0 <= i < a.len() ==> (#[trigger] a[i]).item_ix == (#[trigger] b[i]).item_ix,
{
    if query.len() > 0 {
        let lt = |i: usize, j: usize| item_before(items, query, i, j);
        ranking_is_ordered(items, query, a);
        ranking_is_ordered(items, query, b);
        assert forall|x: usize, y: usize| !(#[trigger] lt(x, y) && lt(y, x)) by {
            item_before_asymmetric(items, query, x, y);
        }
        let x = item_places(a);
        let y = item_places(b);
        ordered_list_covers(x, y, lt);
        ordered_list_covers(y, x, lt);
        ordered_lists_agree(x, y, lt, x.len() as int);
        assert forall|i: int| 0 <= i < a.len() implies (#[trigger] a[i]).item_ix == (#[trigger] b[i]).item_ix by {
            assert(x[i] == y[i]);
        }
    }
}

/// No item is listed twice.
pub proof fn listed_once(items: Seq<ParsedCompletion>, query: Seq<char>, r: Seq<FuzzyMatch>, i: int, j: int)
    requires
        ranked(items, query, r),
        0 <= i < j < r.len(),
    ensures
        r[i].item_ix != r[j].item_ix,
{
    if query.len() > 0 && r[i].item_ix == r[j].item_ix {
        assert(match_of(items, query, r[i]) && match_of(items, query, r[j]));
        assert(ranks_before(items, query, r[i], r[j]));
        ranks_asymmetric(items, query, r[i], r[j], r[i], r[j]);
    }
}

/// An item whose text is the query itself is listed before every other.
pub proof fn exact_match_comes_first(items: Seq<ParsedCompletion>, query: Seq<char>, r: Seq<FuzzyMatch>, i: int, j: int)
    requires
        query.len() > 0,
        ranked(items, query, r),
        0 <= i < r.len(),
        0 <= j < r.len(),
        items[r[i].item_ix as int].matched_text() == query,
        items[r[j].item_ix as int].matched_text() != query,
    ensures
        i < j,
{
    if j < i {
        assert(ranks_before(items, query, r[j], r[i]));
    }
}

/// A longer query matches no text that its beginning does not match, as long as both mind the
/// case or neither does: typing on only narrows what is listed.
pub proof fn longer_query_narrows(text: Seq<char>, query: Seq<char>, more: Seq<char>, case_sensitive: bool)
    requires
        query.len() > 0,
        fits(text, query + more, case_sensitive),
    ensures
        fits(text, query, case_sensitive),
{
    let ps = choose|ps: Seq<int>| picks(text, query + more, case_sensitive, ps);
    let qs = ps.take(query.len() as int);
    assert(picks(text, query, case_sensitive, qs)) by {
        assert forall|k: int| 0 <= k < query.len() implies (query + more)[k] == query[k] by {}
    }
}

/// Where the first `n` characters of a query can be picked at `ps`, they can be picked leftmost,
/// none of them further right.
proof fn leftmost_within(text: Seq<char>, query: Seq<char>, case_sensitive: bool, ps: Seq<int>, n: int) -> (ls: Seq<int>)
    requires
        picks(text, query, case_sensitive, ps),
        0 <= n <= query.len(),
    ensures
        picks_leftmost(text, query.take(n), case_sensitive, ls),
        forall|k: int| 0 <= k < n ==> ls[k] <= #[trigger] ps[k],
    decreases n,
{
    if n == 0 {
        Seq::empty()
    } else {
        let before = leftmost_within(text, query, case_sensitive, ps, n - 1);
        let k = n - 1;
        if k > 0 {
            assert(before[k - 1] <= ps[k - 1] < ps[k]);
        }
        let at = first_same(text, query[k], case_sensitive, free_from(before, k), ps[k]);
        let ls = before.push(at);
        let q = query.take(n);
        assert forall|j: int| 0 <= j < ls.len() implies 0 <= #[trigger] ls[j] < text.len() && same_char(
            text[ls[j]],
            q[j],
            case_sensitive,
        ) by {
            if j < k {
                assert(before[j] == ls[j] && q[j] == query.take(k)[j]);
            }
        }
        assert forall|j: int, i: int| 0 <= j < ls.len() && free_from(ls, j) <= i < ls[j] implies !same_char(
            #[trigger] text[i],
            #[trigger] q[j],
            case_sensitive,
        ) by {
            if j < k {
                assert(before[j] == ls[j] && q[j] == query.take(k)[j]);
                assert(free_from(before, j) == free_from(ls, j));
            } else {
                assert(free_from(before, j) == free_from(ls, j));
            }
        }
        ls
    }
}

/// The first position from `from` on that matches `q`, where the one at `to` does.
proof fn first_same(text: Seq<char>, q: char, case_sensitive: bool, from: int, to: int) -> (at: int)
    requires
        0 <= from <= to < text.len(),
        same_char(text[to], q, case_sensitive),
    ensures
        from <= at <= to,
        same_char(text[at], q, case_sensitive),
        forall|i: int| from <= i < at ==> !same_char(#[trigger] text[i], q, case_sensitive),
    decreases to - from,
{
    if same_char(text[from], q, case_sensitive) {
        from
    } else {
        first_same(text, q, case_sensitive, from + 1, to)
    }
}

/// A text that a query matches in its own case is matched without regard to case as well, and no
/// character is found further right then.
pub proof fn ignoring_case_keeps_matches(text: Seq<char>, query: Seq<char>)
    requires
        fits(text, query, true),
    ensures
        fits(text, query, false),
        picks_leftmost(text, query, true, found_at(text, query, true)),
        picks_leftmost(text, query, false, found_at(text, query, false)),
        forall|k: int|
            0 <= k < query.len() ==> #[trigger] found_at(text, query, false)[k] <= found_at(text, query, true)[k],
{
    assert(query.take(query.len() as int) =~= query);
    let ps = choose|ps: Seq<int>| picks(text, query, true, ps);
    leftmost_within(text, query, true, ps, query.len() as int);
    let minding = found_at(text, query, true);
    assert(picks_leftmost(text, query, true, minding));
    assert(picks(text, query, false, minding));
    let ls = leftmost_within(text, query, false, minding, query.len() as int);
    leftmost_unique(text, query, false, ls, found_at(text, query, false));
    assert forall|k: int| 0 <= k < query.len() implies #[trigger] found_at(text, query, false)[k] <= minding[k] by {
        assert(ls[k] <= minding[k]);
    }
}

/// The items that `query` matches, best first. Each character of the query must occur in the text
/// of the item, in order; case counts only where the query has an uppercase character. An empty
/// query lists every item, in the order given.
pub fn fuzzy_filter(items: &[ParsedCompletion], query: &str) -> (r: Vec<FuzzyMatch>)
    ensures
        ranked(items@, query@, r@),
{
    let mut r: Vec<FuzzyMatch> = Vec::new();
    if query.is_empty() {
        let mut i: usize = 0;
        while i < items.len()
            invariant
                i <= items@.len(),
                r@.len() == i,
                forall|j: int| 0 <= j < i ==> (#[trigger] r@[j]).item_ix == j && r@[j].score == 0 && !r@[j].word_start && r@[j].positions@.len() == 0,
            decreases items@.len() - i,
        {
            r.push(FuzzyMatch { item_ix: i, score: 0, word_start: false, positions: Vec::new() });
            i = i + 1;
        }
        return r;
    }
    let case_sensitive: bool = has_uppercase(query);
    let mut i: usize = 0;
    while i < items.len()
        invariant
            i <= items@.len(),
            case_sensitive == minds_case(query@),
            filtered(items@, query@, i as int, r@),
        decreases items@.len() - i,
    {
        match subsequence_match(items[i].match_text(), query, case_sensitive) {
            Some((score, word_start, positions)) => {
                let m: FuzzyMatch = FuzzyMatch { item_ix: i, score, word_start, positions };
                let ghost before = r@;
                let at: usize = rank_position(items, query, &r, &m);
                proof {
                    insertion_keeps_order(items@, query@, i as int, before, m, at as int);
                }
                r.insert(at, m);
            },
            None => {
                assert forall|j: int| 0 <= j < i + 1 && fits(items@[j].matched_text(), query@, minds_case(query@)) implies listed(r@, #[trigger] items@[j], j) by {}
            },
        }
        i = i + 1;
    }
    r
}

/// Whether `query` has an uppercase character.
fn has_uppercase(query: &str) -> (b: bool)
    ensures
        b == minds_case(query@),
{
    let chars: Vec<char> = chars_of(query);
    let mut i: usize = 0;
    while i < chars.len()
        invariant
            i <= chars@.len(),
            chars@ == query@,
            forall|j: int| 0 <= j < i ==> !text::uppercase(#[trigger] chars@[j]),
        decreases chars@.len() - i,
    {
        if is_uppercase(chars[i]) {
            assert(text::uppercase(query@[i as int]));
            return true;
        }
        i = i + 1;
    }
    false
}

/// Where the match `m` belongs among the ranked matches `r`.
fn rank_position(items: &[ParsedCompletion], query: &str, r: &Vec<FuzzyMatch>, m: &FuzzyMatch) -> (at: usize)
    requires
        filtered(items@, query@, m.item_ix as int, r@),
        m.item_ix < items@.len(),
    ensures
        at <= r@.len(),
        forall|k: int| 0 <= k < at ==> ranks_before(items@, query@, #[trigger] r@[k], *m),
        forall|k: int| at <= k < r@.len() ==> ranks_before(items@, query@, *m, #[trigger] r@[k]),
{
    let mut at: usize = 0;
    while at < r.len() && is_ranked_before(items, query, &r[at], m)
        invariant
            at <= r@.len(),
            m.item_ix < items@.len(),
            filtered(items@, query@, m.item_ix as int, r@),
            forall|k: int| 0 <= k < at ==> ranks_before(items@, query@, #[trigger] r@[k], *m),
        ensures
            at < r@.len() ==> !ranks_before(items@, query@, r@[at as int], *m),
        decreases r@.len() - at,
    {
        at = at + 1;
    }
    proof {
        if at < r@.len() {
            let e = r@[at as int];
            text_order_total(items@[e.item_ix as int].order_text(), items@[m.item_ix as int].order_text());
            assert(ranks_before(items@, query@, *m, e));
            assert forall|k: int| at <= k < r@.len() implies ranks_before(items@, query@, *m, #[trigger] r@[k]) by {
                if at < k {
                    ranks_transitive(items@, query@, *m, e, r@[k]);
                }
            }
        }
    }
    at
}

proof fn insertion_keeps_order(items: Seq<ParsedCompletion>, query: Seq<char>, n: int, r: Seq<FuzzyMatch>, m: FuzzyMatch, at: int)
    requires
        filtered(items, query, n, r),
        match_of(items, query, m),
        m.item_ix == n,
        0 <= n < items.len(),
        0 <= at <= r.len(),
        forall|k: int| 0 <= k < at ==> ranks_before(items, query, #[trigger] r[k], m),
        forall|k: int| at <= k < r.len() ==> ranks_before(items, query, m, #[trigger] r[k]),
    ensures
        filtered(items, query, n + 1, r.insert(at, m)),
{
    let t = r.insert(at, m);
    let good = |e: FuzzyMatch| match_of(items, query, e) && e.item_ix < n + 1;
    insert_keeps_all(r, m, at, good);
    assert forall|k: int| 0 <= k < t.len() implies match_of(items, query, #[trigger] t[k]) && t[k].item_ix < n + 1 by {
        assert(good(t[k]));
    }
    assert forall|i: int| 0 <= i < n + 1 && fits(items[i].matched_text(), query, minds_case(query)) implies listed(t, #[trigger] items[i], i) by {
        if i < n {
            assert(listed(r, items[i], i));
        }
        insert_keeps_listed(r, m, at, items[i], i);
    }
    insert_keeps_sorted(r, m, at, |a: FuzzyMatch, b: FuzzyMatch| ranks_before(items, query, a, b));
}

proof fn insert_keeps_all<T>(r: Seq<T>, m: T, at: int, good: spec_fn(T) -> bool)
    requires
        0 <= at <= r.len(),
        good(m),
        forall|k: int| 0 <= k < r.len() ==> good(#[trigger] r[k]),
    ensures
        forall|k: int| 0 <= k < r.len() + 1 ==> good(#[trigger] r.insert(at, m)[k]),
{
    let t = r.insert(at, m);
    assert forall|k: int| 0 <= k < r.len() + 1 implies good(#[trigger] t[k]) by {
        if k < at {
            assert(good(r[k]));
        } else if k > at {
            assert(good(r[k - 1]));
        }
    }
}

proof fn insert_keeps_listed(r: Seq<FuzzyMatch>, m: FuzzyMatch, at: int, item: ParsedCompletion, i: int)
    requires
        0 <= at <= r.len(),
        m.item_ix == i || listed(r, item, i),
    ensures
        listed(r.insert(at, m), item, i),
{
    let t = r.insert(at, m);
    if m.item_ix == i {
        assert(t[at].item_ix == i);
    } else {
        let k = choose|k: int| 0 <= k < r.len() && (#[trigger] r[k]).item_ix == i;
        if k < at {
            assert(t[k].item_ix == i);
        } else {
            assert(t[k + 1].item_ix == i);
        }
    }
}

proof fn insert_keeps_sorted<T>(r: Seq<T>, m: T, at: int, before: spec_fn(T, T) -> bool)
    requires
        0 <= at <= r.len(),
        forall|j: int, k: int| 0 <= j < k < r.len() ==> before(#[trigger] r[j], #[trigger] r[k]),
        forall|k: int| 0 <= k < at ==> before(#[trigger] r[k], m),
        forall|k: int| at <= k < r.len() ==> before(m, #[trigger] r[k]),
    ensures
        forall|j: int, k: int|
            0 <= j < k < r.len() + 1 ==> before(#[trigger] r.insert(at, m)[j], #[trigger] r.insert(at, m)[k]),
{
    let t = r.insert(at, m);
    assert forall|j: int, k: int| 0 <= j < k < r.len() + 1 implies before(#[trigger] t[j], #[trigger] t[k]) by {
        let a = if j < at { r[j] } else if j == at { m } else { r[j - 1] };
        let b = if k < at { r[k] } else if k == at { m } else { r[k - 1] };
        assert(t[j] == a && t[k] == b);
    }
}

// ── stale lists ───────────────────────────────────────────────────────────────

/// Whether a list that was requested for `initial_query` can be filtered for `new_query` without
/// asking the server again: it was complete, it stands at the same word, and the new query only
/// adds to the first one.
pub fn should_refilter_locally(is_incomplete: bool, initial_query: &str, new_query: &str, same_anchor: bool) -> (b: bool)
    ensures
        b == (!is_incomplete && same_anchor && initial_query@.is_prefix_of(new_query@)),
{
    if is_incomplete || !same_anchor {
        return false;
    }
    text::starts_with(new_query, initial_query)
}

/// What to do when a filter leaves nothing.
#[derive(Debug, PartialEq, Eq, Clone, Copy, Structural)]
pub enum EmptyFilterAction {
    /// Ask the server again, at the caret.
    Rerequest,
    /// Close the menu.
    Dismiss,
}

/// What to do when a filter for `current_query` leaves nothing of a list that was requested for
/// `initial_query`: ask again where the query has changed, close the menu where it has not.
pub fn resolve_empty_filter(_is_incomplete: bool, initial_query: &str, current_query: &str) -> (r: EmptyFilterAction)
    ensures
        r == if current_query@ != initial_query@ { EmptyFilterAction::Rerequest } else { EmptyFilterAction::Dismiss },
{
    if same_text(current_query, initial_query) {
        EmptyFilterAction::Dismiss
    } else {
        EmptyFilterAction::Rerequest
    }
}

} // verus!
