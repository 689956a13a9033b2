//! Styled text: the runs that a line of source text is painted in, from its syntax and its
//! diagnostics.
use vstd::prelude::*;

use crate::markdown::{HighlightSpan, SyntaxToken};
use crate::order;
use crate::text;
use crate::text::{byte_len, char_at_byte};

verus! {

/// A color, by the part it plays in a theme.
#[derive(Debug, Clone, Copy, PartialEq, Eq, Structural)]
pub enum ColorRole {
    Text,
    TextMuted,
    TextSubtle,
    TextDisabled,
    TextOnAccent,
    Accent,
    Error,
    Warning,
    Info,
    Success,
    BgSunken,
    Selection,
    MatchBg,
    Syntax(SyntaxToken),
}

/// A line under a run of text.
#[derive(Debug, Clone, Copy, PartialEq, Eq, Structural)]
pub struct Underline {
    pub color: ColorRole,
    pub wavy: bool,
}

/// The type that a run of text is set in.
#[derive(Debug, Clone, Copy, PartialEq, Eq, Structural)]
pub struct FontRole {
    pub mono: bool,
    pub bold: bool,
    pub italic: bool,
}

/// A number of bytes of text that are painted alike.
#[derive(Debug, Clone, Copy, PartialEq, Eq, Structural)]
pub struct TextRun {
    pub len: usize,
    pub font: FontRole,
    pub color: ColorRole,
    pub background: Option<ColorRole>,
    pub underline: Option<Underline>,
    pub strikethrough: Option<ColorRole>,
}

/// How grave a diagnostic is, the gravest first.
#[derive(Debug, Clone, Copy, PartialEq, Eq, Structural)]
pub enum Severity {
    Error,
    Warning,
    Information,
    Hint,
}

/// A diagnostic on one line, from one column to another; columns count characters.
#[derive(Debug)]
pub struct DiagnosticEntry {
    pub lsp_line: u32,
    pub start_char: usize,
    pub end_char: usize,
    pub severity: Severity,
    pub deprecated: bool,
    pub unnecessary: bool,
    pub message: String,
    pub source: String,
}

impl Clone for DiagnosticEntry {
    fn clone(&self) -> (r: Self)
        ensures
            r == *self,
    {
        DiagnosticEntry {
            lsp_line: self.lsp_line,
            start_char: self.start_char,
            end_char: self.end_char,
            severity: self.severity,
            deprecated: self.deprecated,
            unnecessary: self.unnecessary,
            message: self.message.clone(),
            source: self.source.clone(),
        }
    }
}

/// The color of a syntax token.
pub fn token_color(token: SyntaxToken) -> (c: ColorRole)
    ensures
        c == ColorRole::Syntax(token),
{
    ColorRole::Syntax(token)
}

/// The upright monospace type.
pub open spec fn mono() -> FontRole {
    FontRole { mono: true, bold: false, italic: false }
}

/// A run of `len` bytes in monospace type and one color, with nothing else to it.
pub open spec fn plain_mono(len: int, color: ColorRole) -> TextRun {
    TextRun { len: len as usize, font: mono(), color, background: None, underline: None, strikethrough: None }
}

/// A run of `len` bytes in monospace type and one color.
pub fn plain_mono_run(len: usize, color: ColorRole) -> (r: TextRun)
    ensures
        r == plain_mono(len as int, color),
{
    TextRun {
        len,
        font: FontRole { mono: true, bold: false, italic: false },
        color,
        background: None,
        underline: None,
        strikethrough: None,
    }
}

/// How many bytes runs of text cover.
pub open spec fn total_len(runs: Seq<TextRun>) -> int
    decreases runs.len(),
{
    if runs.len() == 0 { 0 } else { total_len(runs.drop_last()) + runs.last().len }
}

/// `x`, or `n` where that is less.
pub open spec fn at_most(x: int, n: int) -> int {
    if x < n { x } else { n }
}

/// Where a span starts on a line of `n` bytes.
pub open spec fn span_start(s: HighlightSpan, n: int) -> int {
    at_most(s.start_byte_col as int, n)
}

/// Where a span ends on a line of `n` bytes.
pub open spec fn span_end(s: HighlightSpan, n: int) -> int {
    if s.end_byte_col == u32::MAX { n } else { at_most(s.end_byte_col as int, n) }
}

/// Where a span starts and ends on a line of `n` bytes.
fn span_range(s: &HighlightSpan, n: usize) -> (r: (usize, usize))
    ensures
        r.0 == span_start(*s, n as int),
        r.1 == span_end(*s, n as int),
        r.0 <= n,
        r.1 <= n,
{
    let start: usize = if (s.start_byte_col as usize) < n { s.start_byte_col as usize } else { n };
    let end: usize = if s.end_byte_col == u32::MAX {
        n
    } else if (s.end_byte_col as usize) < n {
        s.end_byte_col as usize
    } else {
        n
    };
    (start, end)
}

/// Whether the style of a line of `n` bytes may change at `p`: at its ends, and where a span
/// starts or ends.
pub open spec fn breaks_at(spans: Seq<HighlightSpan>, n: int, p: int) -> bool {
    ||| p == 0
    ||| p == n
    ||| exists|i: int|
        0 <= i < spans.len() && span_start(#[trigger] spans[i], n) < span_end(spans[i], n) && (p == span_start(
            spans[i],
            n,
        ) || p == span_end(spans[i], n))
}

/// Whether `bs` lists the places where the style of a line of `n` bytes may change, in order.
pub open spec fn breakpoints(spans: Seq<HighlightSpan>, n: int, bs: Seq<usize>) -> bool {
    &&& forall|i: int, j: int| 0 <= i < j < bs.len() ==> #[trigger] bs[i] < #[trigger] bs[j]
    &&& forall|i: int| 0 <= i < bs.len() ==> breaks_at(spans, n, (#[trigger] bs[i]) as int) && bs[i] <= n
    &&& forall|p: usize| breaks_at(spans, n, p as int) ==> #[trigger] bs.contains(p)
}

/// Whether `s` covers the bytes from `a` to `b` of a line of `n` bytes.
pub open spec fn covers(s: HighlightSpan, n: int, a: int, b: int) -> bool {
    span_start(s, n) <= a && b <= span_end(s, n)
}

/// The color of the bytes from `a` to `b`: that of the last of the spans that covers them.
pub open spec fn span_color(spans: Seq<HighlightSpan>, n: int, a: int, b: int) -> ColorRole
    decreases spans.len(),
{
    if spans.len() == 0 {
        ColorRole::Text
    } else if covers(spans.last(), n, a, b) {
        ColorRole::Syntax(spans.last().token)
    } else {
        span_color(spans.drop_last(), n, a, b)
    }
}

/// The byte at which the column `col` of a line starts; the end of the line beyond it.
pub open spec fn byte_col(line: Seq<char>, col: int) -> int {
    text::byte_count(line.take(at_most(col, line.len() as int)))
}

/// The color of the line under a diagnostic.
pub open spec fn severity_role(s: Severity) -> ColorRole {
    match s {
        Severity::Error => ColorRole::Error,
        Severity::Warning => ColorRole::Warning,
        Severity::Information => ColorRole::Info,
        Severity::Hint => ColorRole::TextMuted,
    }
}

/// Whether a diagnostic touches the bytes from `a` to `b` of `line`.
pub open spec fn touches(d: DiagnosticEntry, line: Seq<char>, a: int, b: int) -> bool {
    let start = byte_col(line, d.start_char as int);
    let end = byte_col(line, d.end_char as int);
    start < end && a < end && start < b
}

/// A run as a diagnostic on it leaves it: underlined unless it is already, struck through if what
/// it names is deprecated, muted if it is unnecessary.
pub open spec fn marked(run: TextRun, d: DiagnosticEntry) -> TextRun {
    TextRun {
        underline: match run.underline {
            Some(u) => Some(u),
            None => Some(Underline { color: severity_role(d.severity), wavy: true }),
        },
        strikethrough: if d.deprecated && run.strikethrough is None {
            Some(ColorRole::TextMuted)
        } else {
            run.strikethrough
        },
        color: if d.unnecessary { ColorRole::TextMuted } else { run.color },
        ..run
    }
}

/// The run from `a` to `b` as the diagnostics that touch it leave it, one after the other.
pub open spec fn decorated(run: TextRun, line: Seq<char>, ds: Seq<DiagnosticEntry>, a: int, b: int) -> TextRun
    decreases ds.len(),
{
    if ds.len() == 0 {
        run
    } else {
        let before = decorated(run, line, ds.drop_last(), a, b);
        if touches(ds.last(), line, a, b) { marked(before, ds.last()) } else { before }
    }
}

/// Whether `runs` paint a line: one run between each two breakpoints, in the color of its span,
/// marked by the diagnostics that touch it.
pub open spec fn paints(
    line: Seq<char>,
    spans: Seq<HighlightSpan>,
    ds: Seq<DiagnosticEntry>,
    bs: Seq<usize>,
    runs: Seq<TextRun>,
) -> bool {
    let n = text::byte_count(line);
    &&& breakpoints(spans, n, bs)
    &&& runs.len() + 1 == bs.len()
    &&& forall|i: int|
        0 <= i < runs.len() ==> (#[trigger] runs[i]) == decorated(
            plain_mono(bs[i + 1] - bs[i], span_color(spans, n, bs[i] as int, bs[i + 1] as int)),
            line,
            ds,
            bs[i] as int,
            bs[i + 1] as int,
        )
}

/// Whether `runs` paint a line: nothing for an empty one, and otherwise runs from breakpoint to
/// breakpoint. A line without syntax spans is one run.
pub open spec fn line_painted(
    line: Seq<char>,
    spans: Seq<HighlightSpan>,
    ds: Seq<DiagnosticEntry>,
    runs: Seq<TextRun>,
) -> bool {
    let n = text::byte_count(line);
    if n == 0 {
        runs.len() == 0
    } else {
        exists|bs: Seq<usize>| paints(line, spans, ds, bs, runs)
    }
}

/// The first `k` spans break a line in fewer places than all of them.
proof fn breaks_with_one_more(spans: Seq<HighlightSpan>, n: int, k: int, p: int)
    requires
        0 <= k < spans.len(),
    ensures
        breaks_at(spans.take(k + 1), n, p) <==> breaks_at(spans.take(k), n, p) || (span_start(spans[k], n) < span_end(
            spans[k],
            n,
        ) && (p == span_start(spans[k], n) || p == span_end(spans[k], n))),
{
    let a = spans.take(k);
    let b = spans.take(k + 1);
    assert(b[k] == spans[k]);
    assert forall|i: int| 0 <= i < k implies a[i] == b[i] by {}
    if breaks_at(a, n, p) && p != 0 && p != n {
        let i = choose|i: int| 0 <= i < a.len() && span_start(#[trigger] a[i], n) < span_end(a[i], n) && (p == span_start(a[i], n) || p == span_end(a[i], n));
        assert(b[i] == a[i]);
    }
    if breaks_at(b, n, p) && p != 0 && p != n {
        let i = choose|i: int| 0 <= i < b.len() && span_start(#[trigger] b[i], n) < span_end(b[i], n) && (p == span_start(b[i], n) || p == span_end(b[i], n));
        if i < k {
            assert(a[i] == b[i]);
        }
    }
}

/// Puts `p` into the ascending list `bs`, unless it is there.
fn insert_sorted(bs: &mut Vec<usize>, p: usize)
    requires
        forall|i: int, j: int| 0 <= i < j < old(bs)@.len() ==> #[trigger] old(bs)@[i] < #[trigger] old(bs)@[j],
    ensures
        forall|i: int, j: int| 0 <= i < j < final(bs)@.len() ==> #[trigger] final(bs)@[i] < #[trigger] final(bs)@[j],
        forall|q: usize| #[trigger] final(bs)@.contains(q) <==> old(bs)@.contains(q) || q == p,
{
    let ghost before = bs@;
    let mut at: usize = 0;
    while at < bs.len() && bs[at] < p
        invariant
            at <= bs@.len(),
            bs@ == before,
            forall|i: int| 0 <= i < at ==> (#[trigger] bs@[i]) < p,
            forall|i: int, j: int| 0 <= i < j < bs@.len() ==> #[trigger] bs@[i] < #[trigger] bs@[j],
        ensures
            at < bs@.len() ==> bs@[at as int] >= p,
        decreases bs@.len() - at,
    {
        at = at + 1;
    }
    if at < bs.len() && bs[at] == p {
        assert(before.contains(p)) by {
            assert(before[at as int] == p);
        }
        return;
    }
    bs.insert(at, p);
    proof {
        let t = bs@;
        assert forall|i: int, j: int| 0 <= i < j < t.len() implies #[trigger] t[i] < #[trigger] t[j] by {
            let x = if i < at { before[i] } else if i == at { p } else { before[i - 1] };
            let y = if j < at { before[j] } else if j == at { p } else { before[j - 1] };
            assert(t[i] == x && t[j] == y);
            if i == at && j > at + 1 {
                assert(before[at as int] < before[j - 1]);
            }
        }
        assert forall|q: usize| #[trigger] t.contains(q) <==> before.contains(q) || q == p by {
            if t.contains(q) {
                let i = choose|i: int| 0 <= i < t.len() && t[i] == q;
                if i < at {
                    assert(before[i] == q);
                } else if i > at {
                    assert(before[i - 1] == q);
                }
            }
            if before.contains(q) {
                let i = choose|i: int| 0 <= i < before.len() && before[i] == q;
                if i < at {
                    assert(t[i] == q);
                } else {
                    assert(t[i + 1] == q);
                }
            }
            if q == p {
                assert(t[at as int] == q);
            }
        }
    }
}

/// The places where the style of a line of `n` bytes may change, in order.
fn find_breakpoints(spans: &[HighlightSpan], n: usize) -> (bs: Vec<usize>)
    ensures
        breakpoints(spans@, n as int, bs@),
{
    let mut bs: Vec<usize> = Vec::new();
    bs.push(0);
    insert_sorted(&mut bs, n);
    let mut k: usize = 0;
    proof {
        assert forall|q: usize| #[trigger] bs@.contains(q) <==> breaks_at(spans@.take(0), n as int, q as int) by {
            assert(seq![0usize].contains(q) <==> q == 0) by {
                if q == 0 {
                    assert(seq![0usize][0] == q);
                }
            }
        }
    }
    while k < spans.len()
        invariant
            k <= spans@.len(),
            forall|i: int, j: int| 0 <= i < j < bs@.len() ==> #[trigger] bs@[i] < #[trigger] bs@[j],
            forall|q: usize| #[trigger] bs@.contains(q) <==> breaks_at(spans@.take(k as int), n as int, q as int),
        decreases spans@.len() - k,
    {
        let (start, end) = span_range(&spans[k], n);
        let ghost before = bs@;
        if start < end {
            insert_sorted(&mut bs, start);
            insert_sorted(&mut bs, end);
        }
        proof {
            assert forall|q: usize| #[trigger] bs@.contains(q) <==> breaks_at(spans@.take(k + 1), n as int, q as int) by {
                breaks_with_one_more(spans@, n as int, k as int, q as int);
                assert(before.contains(q) <==> breaks_at(spans@.take(k as int), n as int, q as int));
            }
        }
        k = k + 1;
    }
    proof {
        assert(spans@.take(k as int) =~= spans@);
        assert forall|i: int| 0 <= i < bs@.len() implies breaks_at(spans@, n as int, (#[trigger] bs@[i]) as int) && bs@[i] <= n by {
            assert(bs@.contains(bs@[i]));
        }
    }
    bs
}

/// The color of the bytes from `a` to `b` of a line of `n` bytes.
fn color_between(spans: &[HighlightSpan], n: usize, a: usize, b: usize) -> (c: ColorRole)
    ensures
        c == span_color(spans@, n as int, a as int, b as int),
{
    let mut k: usize = spans.len();
    assert(spans@.take(k as int) =~= spans@);
    while k > 0
        invariant
            k <= spans@.len(),
            span_color(spans@, n as int, a as int, b as int) == span_color(spans@.take(k as int), n as int, a as int, b as int),
        decreases k,
    {
        let s: HighlightSpan = spans[k - 1];
        let (start, end) = span_range(&s, n);
        assert(spans@.take(k as int).drop_last() =~= spans@.take(k - 1));
        if start <= a && b <= end {
            return token_color(s.token);
        }
        k = k - 1;
    }
    ColorRole::Text
}

/// The byte at which the column `col` of a line starts; the end of the line beyond it.
pub fn char_col_to_byte_col(line: &str, col: usize) -> (b: usize)
    ensures
        b == byte_col(line@, col as int),
{
    let n: usize = line.unicode_len();
    let c: usize = if col < n { col } else { n };
    assert(line@.subrange(0, c as int) =~= line@.take(c as int));
    byte_len(line.substring_char(0, c))
}

/// The color of the line under a diagnostic.
fn severity_color(s: Severity) -> (c: ColorRole)
    ensures
        c == severity_role(s),
{
    match s {
        Severity::Error => ColorRole::Error,
        Severity::Warning => ColorRole::Warning,
        Severity::Information => ColorRole::Info,
        Severity::Hint => ColorRole::TextMuted,
    }
}

/// A run as a diagnostic on it leaves it.
fn mark(run: TextRun, d: &DiagnosticEntry) -> (r: TextRun)
    ensures
        r == marked(run, *d),
{
    TextRun {
        underline: match run.underline {
            Some(u) => Some(u),
            None => Some(Underline { color: severity_color(d.severity), wavy: true }),
        },
        strikethrough: match run.strikethrough {
            Some(c) => Some(c),
            None => if d.deprecated { Some(ColorRole::TextMuted) } else { None },
        },
        color: if d.unnecessary { ColorRole::TextMuted } else { run.color },
        ..run
    }
}

/// The runs that a line is painted in: by its syntax, with what the diagnostics on it add.
pub fn build_text_runs(line: &str, spans: &[HighlightSpan], diagnostics: &[DiagnosticEntry]) -> (runs: Vec<TextRun>)
    ensures
        line_painted(line@, spans@, diagnostics@, runs@),
        total_len(runs@) == text::byte_count(line@),
{
    let n: usize = byte_len(line);
    let mut runs: Vec<TextRun> = Vec::new();
    if n == 0 {
        return runs;
    }
    let bs: Vec<usize> = find_breakpoints(spans, n);
    proof {
        assert(bs@.contains(0)) by {
            assert(breaks_at(spans@, n as int, 0));
        }
    }
    let mut i: usize = 1;
    while i < bs.len()
        invariant
            1 <= i <= bs@.len(),
            n == text::byte_count(line@),
            breakpoints(spans@, n as int, bs@),
            runs@.len() + 1 == i,
            forall|j: int|
                0 <= j < runs@.len() ==> (#[trigger] runs@[j]) == decorated(
                    plain_mono(bs@[j + 1] - bs@[j], span_color(spans@, n as int, bs@[j] as int, bs@[j + 1] as int)),
                    line@,
                    diagnostics@,
                    bs@[j] as int,
                    bs@[j + 1] as int,
                ),
        decreases bs@.len() - i,
    {
        let a: usize = bs[i - 1];
        let b: usize = bs[i];
        assert(a < b);
        let mut run: TextRun = plain_mono_run(b - a, color_between(spans, n, a, b));
        let ghost base = run;
        let mut k: usize = 0;
        assert(diagnostics@.take(0) =~= Seq::<DiagnosticEntry>::empty());
        while k < diagnostics.len()
            invariant
                k <= diagnostics@.len(),
                run == decorated(base, line@, diagnostics@.take(k as int), a as int, b as int),
            decreases diagnostics@.len() - k,
        {
            let d: &DiagnosticEntry = &diagnostics[k];
            let start: usize = char_col_to_byte_col(line, d.start_char);
            let end: usize = char_col_to_byte_col(line, d.end_char);
            assert(diagnostics@.take(k + 1).drop_last() =~= diagnostics@.take(k as int));
            assert(diagnostics@.take(k + 1).last() == *d);
            if start < end && a < end && start < b {
                run = mark(run, d);
            }
            k = k + 1;
        }
        assert(diagnostics@.take(k as int) =~= diagnostics@);
        runs.push(run);
        i = i + 1;
    }
    assert(paints(line@, spans@, diagnostics@, bs@, runs@));
    proof {
        painted_runs_tile(line@, spans@, diagnostics@, bs@, runs@);
    }
    runs
}

/// Diagnostics leave the length of a run as it is.
proof fn decoration_keeps_len(run: TextRun, line: Seq<char>, ds: Seq<DiagnosticEntry>, a: int, b: int)
    ensures
        decorated(run, line, ds, a, b).len == run.len,
    decreases ds.len(),
{
    if ds.len() > 0 {
        decoration_keeps_len(run, line, ds.drop_last(), a, b);
    }
}

/// Runs that reach from breakpoint to breakpoint are as long as the breakpoints are apart.
proof fn total_between(bs: Seq<usize>, runs: Seq<TextRun>, k: int)
    requires
        runs.len() + 1 == bs.len(),
        forall|i: int| 0 <= i < runs.len() ==> (#[trigger] runs[i]).len == bs[i + 1] - bs[i],
        0 <= k <= runs.len(),
    ensures
        total_len(runs.take(k)) == bs[k] - bs[0],
    decreases k,
{
    if k > 0 {
        total_between(bs, runs, k - 1);
        assert(runs.take(k).drop_last() =~= runs.take(k - 1));
    } else {
        assert(runs.take(k) =~= Seq::empty());
    }
}

/// The runs of a painted line tile it: together they are as long as the line.
pub proof fn painted_runs_tile(line: Seq<char>, spans: Seq<HighlightSpan>, ds: Seq<DiagnosticEntry>, bs: Seq<usize>, runs: Seq<TextRun>)
    requires
        paints(line, spans, ds, bs, runs),
        text::byte_count(line) <= usize::MAX,
    ensures
        total_len(runs) == text::byte_count(line),
{
    let n = text::byte_count(line);
    assert forall|i: int| 0 <= i < runs.len() implies (#[trigger] runs[i]).len == bs[i + 1] - bs[i] by {
        let base = plain_mono(bs[i + 1] - bs[i], span_color(spans, n, bs[i] as int, bs[i + 1] as int));
        decoration_keeps_len(base, line, ds, bs[i] as int, bs[i + 1] as int);
        assert(bs[i] < bs[i + 1]);
    }
    total_between(bs, runs, runs.len() as int);
    assert(runs.take(runs.len() as int) =~= runs);
    assert(breaks_at(spans, n, 0usize as int));
    assert(bs.contains(0usize));
    assert(breaks_at(spans, n, (n as usize) as int));
    assert(bs.contains(n as usize));
    let i = choose|i: int| 0 <= i < bs.len() && bs[i] == 0usize;
    let j = choose|j: int| 0 <= j < bs.len() && bs[j] == n as usize;
    if i > 0 {
        assert(bs[0] < bs[i]);
    }
    if j < bs.len() - 1 {
        assert(bs[j] < bs[bs.len() - 1]);
    }
}

/// A line without syntax is one run, in the color of text, marked by the diagnostics that touch it.
pub proof fn plain_line_is_one_run(line: Seq<char>, ds: Seq<DiagnosticEntry>, runs: Seq<TextRun>)
    requires
        0 < text::byte_count(line) <= usize::MAX,
        line_painted(line, Seq::empty(), ds, runs),
    ensures
        runs == seq![
            decorated(
                plain_mono(text::byte_count(line), ColorRole::Text),
                line,
                ds,
                0,
                text::byte_count(line),
            ),
        ],
{
    let n = text::byte_count(line);
    let bs = choose|bs: Seq<usize>| paints(line, Seq::empty(), ds, bs, runs);
    assert(bs.contains(0usize) && bs.contains(n as usize)) by {
        assert(breaks_at(Seq::empty(), n, 0usize as int) && breaks_at(Seq::empty(), n, (n as usize) as int));
    }
    assert forall|i: int| 0 <= i < bs.len() implies #[trigger] bs[i] == 0 || bs[i] == n by {
        assert(breaks_at(Seq::empty(), n, bs[i] as int));
    }
    let first = choose|i: int| 0 <= i < bs.len() && bs[i] == 0usize;
    let last = choose|i: int| 0 <= i < bs.len() && bs[i] == n as usize;
    assert(bs[first] == 0 && bs[last] == n && first < last);
    if bs.len() > 2 {
        assert(bs[0] < bs[1] && bs[1] < bs[2]);
    }
    assert(bs.len() == 2 && bs[0] == 0 && bs[1] == n);
    assert(runs =~= seq![runs[0]]);
}

/// There is one way to paint a line.
pub proof fn painting_is_unique(
    line: Seq<char>,
    spans: Seq<HighlightSpan>,
    ds: Seq<DiagnosticEntry>,
    a: Seq<TextRun>,
    b: Seq<TextRun>,
)
    requires
        line_painted(line, spans, ds, a),
        line_painted(line, spans, ds, b),
    ensures
        a == b,
{
    let n = text::byte_count(line);
    if n == 0 {
        assert(a =~= b);
    } else {
        let x = choose|bs: Seq<usize>| paints(line, spans, ds, bs, a);
        let y = choose|bs: Seq<usize>| paints(line, spans, ds, bs, b);
        let xi = x.map_values(|p: usize| p as int);
        let yi = y.map_values(|p: usize| p as int);
        assert forall|p: int| xi.contains(p) <==> yi.contains(p) by {
            if xi.contains(p) {
                let k = choose|k: int| 0 <= k < xi.len() && xi[k] == p;
                assert(breaks_at(spans, n as int, x[k] as int));
                assert(y.contains(x[k]));
                let m = choose|m: int| 0 <= m < y.len() && y[m] == x[k];
                assert(yi[m] == p);
            }
            if yi.contains(p) {
                let k = choose|k: int| 0 <= k < yi.len() && yi[k] == p;
                assert(breaks_at(spans, n as int, y[k] as int));
                assert(x.contains(y[k]));
                let m = choose|m: int| 0 <= m < x.len() && x[m] == y[k];
                assert(xi[m] == p);
            }
        }
        order::same_numbers_same_sequence(xi, yi);
        assert forall|k: int| 0 <= k < x.len() implies x[k] == y[k] by {
            assert(xi[k] == yi[k]);
        }
        assert(x =~= y);
        assert(a =~= b);
    }
}

/// A piece of a line and its color.
#[derive(Debug)]
pub struct SyntaxPiece {
    pub text: String,
    pub color: ColorRole,
}

/// Pieces by their values.
pub open spec fn piece_views(pieces: Seq<SyntaxPiece>) -> Seq<(Seq<char>, ColorRole)> {
    pieces.map_values(|p: SyntaxPiece| (p.text@, p.color))
}

/// The text from byte `a` to byte `b` of a line; nothing where characters are cut there.
pub open spec fn text_between(line: Seq<char>, a: int, b: int) -> Seq<char> {
    if text::starts_char(line, a) && text::starts_char(line, b) {
        line.subrange(text::char_from(line, a), text::char_from(line, b))
    } else {
        Seq::empty()
    }
}

/// The pieces of a line that its first `k` runs paint.
pub open spec fn pieces_of(line: Seq<char>, runs: Seq<TextRun>, k: int) -> Seq<(Seq<char>, ColorRole)>
    decreases k,
{
    if k <= 0 {
        Seq::empty()
    } else {
        pieces_of(line, runs, k - 1).push(
            (text_between(line, total_len(runs.take(k - 1)), total_len(runs.take(k))), runs[k - 1].color),
        )
    }
}

/// The text from byte `a` to byte `b` of a line.
fn piece_text(line: &str, a: usize, b: usize) -> (s: String)
    requires
        a <= b,
    ensures
        s@ == text_between(line@, a as int, b as int),
{
    let (i, at_i): (usize, usize) = char_at_byte(line, a);
    let (j, at_j): (usize, usize) = char_at_byte(line, b);
    if at_i != a || at_j != b {
        return String::new();
    }
    proof {
        text::char_from_grows(line@, a as int, b as int);
    }
    line.substring_char(i, j).to_owned()
}

proof fn total_len_grows(runs: Seq<TextRun>, k: int)
    requires
        0 <= k <= runs.len(),
    ensures
        0 <= total_len(runs.take(k)) <= total_len(runs),
    decreases runs.len() - k, k,
{
    if k < runs.len() {
        total_len_grows(runs, k + 1);
        assert(runs.take(k + 1).drop_last() =~= runs.take(k));
    } else {
        assert(runs.take(k) =~= runs);
    }
    total_len_nonnegative(runs.take(k));
}

proof fn total_len_nonnegative(runs: Seq<TextRun>)
    ensures
        total_len(runs) >= 0,
    decreases runs.len(),
{
    if runs.len() > 0 {
        total_len_nonnegative(runs.drop_last());
    }
}

/// A line in pieces, each in the color of its syntax.
pub fn build_syntax_spans(line: &str, spans: &[HighlightSpan]) -> (pieces: Vec<SyntaxPiece>)
    ensures
        exists|runs: Seq<TextRun>| #[trigger]
            line_painted(line@, spans@, Seq::<DiagnosticEntry>::empty(), runs) && piece_views(pieces@) == pieces_of(
                line@,
                runs,
                runs.len() as int,
            ),
{
    let none: Vec<DiagnosticEntry> = Vec::new();
    let runs: Vec<TextRun> = build_text_runs(line, spans, none.as_slice());
    assert(none@ =~= Seq::empty());
    let total: usize = byte_len(line);
    let mut pieces: Vec<SyntaxPiece> = Vec::new();
    let mut pos: usize = 0;
    let mut k: usize = 0;
    assert(piece_views(pieces@) =~= Seq::empty());
    assert(runs@.take(0) =~= Seq::empty());
    while k < runs.len()
        invariant
            k <= runs@.len(),
            total == text::byte_count(line@),
            total_len(runs@) == total,
            pos == total_len(runs@.take(k as int)),
            piece_views(pieces@) == pieces_of(line@, runs@, k as int),
        decreases runs@.len() - k,
    {
        proof {
            total_len_grows(runs@, k + 1);
            assert(runs@.take(k + 1).drop_last() =~= runs@.take(k as int));
        }
        let ghost before = pieces@;
        let end: usize = pos + runs[k].len;
        pieces.push(SyntaxPiece { text: piece_text(line, pos, end), color: runs[k].color });
        assert(piece_views(pieces@) =~= piece_views(before).push(
            (text_between(line@, pos as int, end as int), runs@[k as int].color),
        ));
        pos = end;
        k = k + 1;
    }
    pieces
}

} // verus!
