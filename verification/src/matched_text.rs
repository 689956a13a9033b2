//! Text in which the characters that a query matches stand out.
use vstd::prelude::*;

use crate::text::{chars_of, string_of};

verus! {

/// Characters from `from` to `to` of a text that are painted alike.
#[derive(Debug)]
pub struct MatchSpan {
    pub from: usize,
    pub to: usize,
    pub text: String,
    /// Whether a query matches them.
    pub matched: bool,
}

/// Whether character `i` of a text is matched, where the text starts at character `char_off` of
/// what `positions` count.
pub open spec fn is_hit(positions: Seq<u32>, char_off: int, i: int) -> bool {
    exists|k: int| 0 <= k < positions.len() && (#[trigger] positions[k]) == char_off + i
}

/// Whether a span holds characters that are all matched or all not.
pub open spec fn uniform_span(s: Seq<char>, positions: Seq<u32>, char_off: int, span: MatchSpan) -> bool {
    &&& span.from < span.to <= s.len()
    &&& span.text@ == s.subrange(span.from as int, span.to as int)
    &&& forall|i: int| span.from <= i < span.to ==> #[trigger] is_hit(positions, char_off, i) == span.matched
}

/// Whether `spans` part the first `n` characters of `s` into matched and unmatched ones, as few
/// spans as possible.
pub open spec fn parted(s: Seq<char>, positions: Seq<u32>, char_off: int, spans: Seq<MatchSpan>, n: int) -> bool {
    &&& forall|k: int| 0 <= k < spans.len() ==> uniform_span(s, positions, char_off, #[trigger] spans[k])
    &&& forall|j: int, k: int|
        0 <= j && k == j + 1 && k < spans.len() ==> (#[trigger] spans[j]).to == (#[trigger] spans[k]).from
            && spans[j].matched != spans[k].matched
    &&& if spans.len() == 0 { n == 0 } else { spans[0].from == 0 && spans.last().to == n }
}

/// Whether character `i` of a text is matched.
fn hit(positions: &[u32], char_off: u32, i: usize) -> (b: bool)
    ensures
        b == is_hit(positions@, char_off as int, i as int),
{
    let mut k: usize = 0;
    while k < positions.len()
        invariant
            k <= positions@.len(),
            forall|j: int| 0 <= j < k ==> (#[trigger] positions@[j]) != char_off + i,
        decreases positions@.len() - k,
    {
        let p: u32 = positions[k];
        if p >= char_off && (p - char_off) as u64 == i as u64 {
            assert(positions@[k as int] == char_off + i);
            return true;
        }
        k = k + 1;
    }
    false
}

/// Parts a text, which starts at character `char_off` of what `positions` count, into matched and
/// unmatched characters.
pub fn matched_spans(text: &str, positions: &[u32], char_off: u32) -> (spans: Vec<MatchSpan>)
    ensures
        parted(text@, positions@, char_off as int, spans@, text@.len() as int),
{
    let chars: Vec<char> = chars_of(text);
    let mut spans: Vec<MatchSpan> = Vec::new();
    let mut i: usize = 0;
    while i < chars.len()
        invariant
            i <= chars@.len(),
            chars@ == text@,
            parted(text@, positions@, char_off as int, spans@, i as int),
            i < chars@.len() && spans@.len() > 0 ==> is_hit(positions@, char_off as int, i as int)
                != spans@.last().matched,
        decreases chars@.len() - i,
    {
        let matched: bool = hit(positions, char_off, i);
        let start: usize = i;
        i = i + 1;
        while i < chars.len() && hit(positions, char_off, i) == matched
            invariant
                start < i <= chars@.len(),
                forall|k: int| start <= k < i ==> #[trigger] is_hit(positions@, char_off as int, k) == matched,
            ensures
                start < i <= chars@.len(),
                forall|k: int| start <= k < i ==> #[trigger] is_hit(positions@, char_off as int, k) == matched,
                i < chars@.len() ==> is_hit(positions@, char_off as int, i as int) != matched,
            decreases chars@.len() - i,
        {
            i = i + 1;
        }
        let part: String = string_of(chars.as_slice(), start, i);
        spans.push(MatchSpan { from: start, to: i, text: part, matched });
    }
    spans
}

} // verus!
