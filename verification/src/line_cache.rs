//! The lines of a document, as they are shown.
use ropey::Rope;
use vstd::prelude::*;

use crate::editing;
use crate::editing::content_chars;
use crate::rope;
use crate::rope::{line_string, rope_line_count, start_of_line};

verus! {

/// The lines of a document without their breaks, where they start, and which one is the longest.
#[derive(Debug)]
pub struct LineCache {
    pub line_cache: Vec<String>,
    pub line_starts: Vec<usize>,
    pub widest_line: usize,
}

/// Line `i` of `s`, without its break.
pub open spec fn shown_line(s: Seq<char>, i: int) -> Seq<char> {
    editing::content(rope::line_text(s, i))
}

/// Whether line `w` is the first of the longest among the first `n` lines.
pub open spec fn first_widest(s: Seq<char>, w: int, n: int) -> bool {
    &&& 0 <= w && (w < n || w == 0)
    &&& forall|i: int| 0 <= i < n ==> (#[trigger] shown_line(s, i)).len() <= shown_line(s, w).len()
    &&& forall|i: int| 0 <= i < w ==> (#[trigger] shown_line(s, i)).len() < shown_line(s, w).len()
}

impl LineCache {
    /// Whether these are the lines of `s`.
    pub open spec fn of(self, s: Seq<char>) -> bool {
        &&& self.line_cache@.len() == rope::line_count(s)
        &&& self.line_starts@.len() == rope::line_count(s)
        &&& forall|i: int| 0 <= i < self.line_cache@.len() ==> (#[trigger] self.line_cache@[i])@ == shown_line(s, i)
        &&& forall|i: int| 0 <= i < self.line_starts@.len() ==> #[trigger] self.line_starts@[i] == rope::line_start(s, i)
        &&& first_widest(s, self.widest_line as int, rope::line_count(s))
    }

    /// The lines of a document.
    pub fn build(rope: &Rope) -> (c: LineCache)
        ensures
            c.of(rope::rope_chars(*rope)),
    {
        let ghost s = rope::rope_chars(*rope);
        let count: usize = rope_line_count(rope);
        let mut line_cache: Vec<String> = Vec::new();
        let mut line_starts: Vec<usize> = Vec::new();
        let mut widest: usize = 0;
        let mut widest_chars: usize = 0;
        let mut i: usize = 0;
        while i < count
            invariant
                s == rope::rope_chars(*rope),
                count == rope::line_count(s),
                i <= count,
                line_cache@.len() == i,
                line_starts@.len() == i,
                forall|k: int| 0 <= k < i ==> (#[trigger] line_cache@[k])@ == shown_line(s, k),
                forall|k: int| 0 <= k < i ==> #[trigger] line_starts@[k] == rope::line_start(s, k),
                i == 0 ==> widest == 0 && widest_chars == 0,
                i > 0 ==> widest < i && widest_chars == shown_line(s, widest as int).len(),
                forall|k: int| 0 <= k < i ==> (#[trigger] shown_line(s, k)).len() <= widest_chars,
                forall|k: int| 0 <= k < widest ==> (#[trigger] shown_line(s, k)).len() < widest_chars,
            decreases count - i,
        {
            line_starts.push(start_of_line(rope, i));
            let raw: String = line_string(rope, i);
            let n: usize = content_chars(raw.as_str());
            if n > widest_chars {
                widest_chars = n;
                widest = i;
            }
            let content: String = raw.as_str().substring_char(0, n).to_owned();
            assert(content@ =~= shown_line(s, i as int));
            line_cache.push(content);
            i = i + 1;
        }
        LineCache { line_cache, line_starts, widest_line: widest }
    }

    /// The position of column `col` of line `line`. Beyond the last line it is that of the last
    /// one.
    pub fn offset_on_line(&self, line: usize, col: usize) -> (pos: usize)
        requires
            self.line_starts@.len() > 0,
            forall|i: int| 0 <= i < self.line_starts@.len() ==> #[trigger] self.line_starts@[i] + col <= usize::MAX,
        ensures
            ({
                let last = self.line_starts@.len() - 1;
                pos == self.line_starts@[if line < last { line as int } else { last }] + col
            }),
    {
        let last: usize = self.line_starts.len() - 1;
        self.line_starts[if line < last { line } else { last }] + col
    }
}

} // verus!
