//! The status bar: its items, and what they show.
use vstd::prelude::*;

use crate::buffer_view::ColorRole;
use crate::lsp_status::{LspStatus, ServerState, ServerStatus};
use crate::text;
use crate::text::push_decimal;

verus! {

// ── The bar ───────────────────────────────────────────────────────────────────

/// The status bar, with items at its left and at its right end.
#[derive(Debug)]
pub struct StatusBar<V> {
    pub left: Vec<V>,
    pub right: Vec<V>,
}

/// What stands in one end of the bar: its items, by where they are, and lines between them.
#[derive(Debug, Clone, Copy, PartialEq, Eq, Structural)]
pub enum BarPart {
    Item(usize),
    Divider,
}

/// The first `n` items with a line between each two.
pub open spec fn divided(n: int) -> Seq<BarPart>
    decreases n,
{
    if n <= 0 {
        Seq::empty()
    } else if n == 1 {
        seq![BarPart::Item(0)]
    } else {
        divided(n - 1).push(BarPart::Divider).push(BarPart::Item((n - 1) as usize))
    }
}

/// `n` items with a line between each two.
pub fn with_dividers(n: usize) -> (parts: Vec<BarPart>)
    ensures
        parts@ == divided(n as int),
{
    let mut parts: Vec<BarPart> = Vec::new();
    let mut i: usize = 0;
    while i < n
        invariant
            i <= n,
            parts@ == divided(i as int),
        decreases n - i,
    {
        if i > 0 {
            parts.push(BarPart::Divider);
        }
        parts.push(BarPart::Item(i));
        assert(parts@ =~= divided(i + 1));
        i = i + 1;
    }
    parts
}

impl<V> StatusBar<V> {
    /// A bar without items.
    pub fn new() -> (b: StatusBar<V>)
        ensures
            b.left@ == Seq::<V>::empty(),
            b.right@ == Seq::<V>::empty(),
    {
        StatusBar { left: Vec::new(), right: Vec::new() }
    }

    /// Adds an item to the left end.
    pub fn push_left(&mut self, item: V)
        ensures
            final(self).left@ == old(self).left@.push(item),
            final(self).right == old(self).right,
    {
        self.left.push(item);
    }

    /// Adds an item to the right end.
    pub fn push_right(&mut self, item: V)
        ensures
            final(self).right@ == old(self).right@.push(item),
            final(self).left == old(self).left,
    {
        self.right.push(item);
    }
}

// ── Indexing ──────────────────────────────────────────────────────────────────

/// Nanoseconds that indexing runs before it is shown.
pub const APPEAR_DELAY_NS: u64 = 800_000_000;

/// Nanoseconds that indexing that has ended must have run to be shown.
pub const MIN_RUN_TO_SHOW_NS: u64 = 150_000_000;

/// Nanoseconds that indexing is shown at least.
pub const MIN_SHOWN_NS: u64 = 1_000_000_000;

/// Nanoseconds that a label stays at least.
pub const LABEL_DWELL_NS: u64 = 500_000_000;

/// Milliseconds between two looks at the clock.
pub const POLL_MS: u64 = 100;

/// What indexing is at.
#[derive(Debug, Clone, Copy, PartialEq, Eq, Structural)]
pub enum LabelPhase {
    Scanning,
    Indexing { done: usize, total: usize },
}

/// What the index tells of its progress.
#[derive(Debug, Clone, Copy, PartialEq, Eq, Structural)]
pub enum ProgressEvent {
    Begin,
    Report { phase: LabelPhase },
    End,
}

/// The item that shows that files are indexed. Times are nanoseconds of one clock.
#[derive(Debug, Clone, Copy, PartialEq, Eq, Structural)]
pub struct IndexingStatusItem {
    pub run_started_at: Option<u64>,
    pub run_ended_at: Option<u64>,
    pub shown_at: Option<u64>,
    pub visible: bool,
    pub label_shown_at: Option<u64>,
    pub label_phase: LabelPhase,
}

/// How long it is from `from` to `to`; nothing where `to` comes first.
pub open spec fn elapsed(from: u64, to: u64) -> int {
    if to > from { to - from } else { 0 }
}

/// How long it is from `from` to `to`.
fn elapsed_ns(from: u64, to: u64) -> (n: u64)
    ensures
        n == elapsed(from, to),
{
    if to > from { to - from } else { 0 }
}

impl IndexingStatusItem {
    /// An item that shows nothing.
    pub fn new() -> (i: IndexingStatusItem)
        ensures
            i == (IndexingStatusItem {
                run_started_at: None,
                run_ended_at: None,
                shown_at: None,
                visible: false,
                label_shown_at: None,
                label_phase: LabelPhase::Scanning,
            }),
    {
        IndexingStatusItem {
            run_started_at: None,
            run_ended_at: None,
            shown_at: None,
            visible: false,
            label_shown_at: None,
            label_phase: LabelPhase::Scanning,
        }
    }

    /// Whether files are being indexed.
    pub open spec fn running(self) -> bool {
        self.run_started_at is Some && self.run_ended_at is None
    }

    /// Whether the item comes up at `now`: indexing runs for long, or has ended after it ran for
    /// a while.
    pub open spec fn appears(self, now: u64) -> bool {
        &&& !self.visible
        &&& self.run_started_at matches Some(started) && match self.run_ended_at {
            None => elapsed(started, now) >= APPEAR_DELAY_NS,
            Some(ended) => elapsed(started, ended) >= MIN_RUN_TO_SHOW_NS,
        }
    }

    /// The item at `now`: it comes up, or goes where indexing has ended and it was shown for long
    /// enough.
    pub open spec fn at(self, now: u64) -> IndexingStatusItem {
        let up = if self.appears(now) {
            IndexingStatusItem { visible: true, shown_at: Some(now), ..self }
        } else {
            self
        };
        let long_enough = match up.shown_at {
            Some(s) => elapsed(s, now) >= MIN_SHOWN_NS,
            None => true,
        };
        if !self.running() && up.visible && long_enough {
            IndexingStatusItem {
                visible: false,
                shown_at: None,
                run_started_at: None,
                run_ended_at: None,
                ..up
            }
        } else {
            up
        }
    }

    /// Brings the item up to date at `now`.
    pub fn recompute_visibility(&mut self, now: u64)
        ensures
            *final(self) == old(self).at(now),
    {
        if let Some(started) = self.run_started_at {
            match self.run_ended_at {
                None => {
                    if !self.visible && elapsed_ns(started, now) >= APPEAR_DELAY_NS {
                        self.visible = true;
                        self.shown_at = Some(now);
                    }
                    return;
                },
                Some(ended) => {
                    if !self.visible && elapsed_ns(started, ended) >= MIN_RUN_TO_SHOW_NS {
                        self.visible = true;
                        self.shown_at = Some(now);
                    }
                },
            }
        }
        if self.visible {
            let dwell_done: bool = match self.shown_at {
                Some(s) => elapsed_ns(s, now) >= MIN_SHOWN_NS,
                None => true,
            };
            if dwell_done {
                self.visible = false;
                self.shown_at = None;
                self.run_started_at = None;
                self.run_ended_at = None;
            }
        }
    }

    /// Looks at the clock. Says whether the item has come up or gone.
    pub fn tick(&mut self, now: u64) -> (changed: bool)
        ensures
            *final(self) == old(self).at(now),
            changed == (final(self).visible != old(self).visible),
    {
        let before: bool = self.visible;
        self.recompute_visibility(now);
        self.visible != before
    }

    /// The item after the index has told of its progress, before it is brought up to date. A
    /// label stays for a while before another takes its place.
    pub open spec fn told(self, progress: Option<ProgressEvent>, now: u64) -> IndexingStatusItem {
        match progress {
            Some(ProgressEvent::Begin) => IndexingStatusItem { run_started_at: Some(now), run_ended_at: None, ..self },
            Some(ProgressEvent::Report { phase }) => {
                let begun = if self.run_started_at is None {
                    IndexingStatusItem { run_started_at: Some(now), run_ended_at: None, ..self }
                } else {
                    self
                };
                let stayed = match self.label_shown_at {
                    Some(s) => elapsed(s, now) >= LABEL_DWELL_NS,
                    None => true,
                };
                if stayed && phase != self.label_phase {
                    IndexingStatusItem { label_phase: phase, label_shown_at: Some(now), ..begun }
                } else if self.label_shown_at is None {
                    IndexingStatusItem { label_shown_at: Some(now), ..begun }
                } else {
                    begun
                }
            },
            Some(ProgressEvent::End) => IndexingStatusItem { run_ended_at: Some(now), ..self },
            None => self,
        }
    }

    /// The index has told of its progress at `now`.
    pub fn on_status_changed(&mut self, progress: Option<ProgressEvent>, now: u64)
        ensures
            *final(self) == old(self).told(progress, now).at(now),
    {
        match progress {
            Some(ProgressEvent::Begin) => {
                self.run_started_at = Some(now);
                self.run_ended_at = None;
            },
            Some(ProgressEvent::Report { phase }) => {
                if self.run_started_at.is_none() {
                    self.run_started_at = Some(now);
                    self.run_ended_at = None;
                }
                let stayed: bool = match self.label_shown_at {
                    Some(s) => elapsed_ns(s, now) >= LABEL_DWELL_NS,
                    None => true,
                };
                if stayed && phase != self.label_phase {
                    self.label_phase = phase;
                    self.label_shown_at = Some(now);
                } else if self.label_shown_at.is_none() {
                    self.label_shown_at = Some(now);
                }
            },
            Some(ProgressEvent::End) => {
                self.run_ended_at = Some(now);
            },
            None => {},
        }
        self.recompute_visibility(now);
    }

    /// The label of the item: `scanning`, or `indexing` with how far it is.
    pub open spec fn text(self, scanning: Seq<char>, indexing: Seq<char>) -> Seq<char> {
        match self.label_phase {
            LabelPhase::Scanning => scanning,
            LabelPhase::Indexing { done, total } => indexing + " "@ + text::decimal(done as nat) + " / "@ + text::decimal(
                total as nat,
            ),
        }
    }

    /// The label of the item, where it is shown.
    pub fn label(&self, scanning: &str, indexing: &str) -> (s: Option<String>)
        ensures
            s is Some <==> self.visible,
            s matches Some(l) ==> l@ == self.text(scanning@, indexing@),
    {
        if !self.visible {
            return None;
        }
        match self.label_phase {
            LabelPhase::Scanning => Some(scanning.to_owned()),
            LabelPhase::Indexing { done, total } => {
                let mut s: String = indexing.to_owned();
                s.append(" ");
                push_decimal(&mut s, done as u64);
                s.append(" / ");
                push_decimal(&mut s, total as u64);
                assert(s@ =~= self.text(scanning@, indexing@));
                Some(s)
            },
        }
    }

    /// How much is done, of how much: nothing while files are looked for.
    pub fn progress(&self) -> (r: (usize, usize))
        ensures
            r == match self.label_phase {
                LabelPhase::Indexing { done, total } => if total == 0 {
                    (0usize, 1usize)
                } else if done < total {
                    (done, total)
                } else {
                    (total, total)
                },
                LabelPhase::Scanning => (0usize, 1usize),
            },
    {
        match self.label_phase {
            LabelPhase::Indexing { done, total } => if total == 0 {
                (0, 1)
            } else if done < total {
                (done, total)
            } else {
                (total, total)
            },
            LabelPhase::Scanning => (0, 1),
        }
    }
}

/// Once shown, the item stays for a while, however soon indexing ends.
pub proof fn shown_for_a_while(item: IndexingStatusItem, now: u64)
    requires
        item.visible,
        item.shown_at matches Some(s) && elapsed(s, now) < MIN_SHOWN_NS,
    ensures
        item.at(now).visible,
        item.at(now).shown_at == item.shown_at,
{
}

/// Indexing that ends at once is never shown.
pub proof fn short_runs_stay_hidden(item: IndexingStatusItem, now: u64)
    requires
        !item.visible,
        item.run_started_at matches Some(a) && item.run_ended_at matches Some(b) && elapsed(a, b) < MIN_RUN_TO_SHOW_NS,
    ensures
        item.at(now) == item,
{
}

/// Indexing that goes on is shown from the end of the delay on, and stays as long as it runs.
pub proof fn long_runs_are_shown(item: IndexingStatusItem, now: u64)
    requires
        item.running(),
        item.visible || elapsed(item.run_started_at->0, now) >= APPEAR_DELAY_NS,
    ensures
        item.at(now).visible,
        item.at(now).running(),
{
}

// ── Language servers ──────────────────────────────────────────────────────────

/// How much a server in a state matters for the dot.
pub open spec fn state_rank(s: ServerState) -> int {
    match s {
        ServerState::Error => 4,
        ServerState::Downloading | ServerState::Starting | ServerState::Initializing | ServerState::Restarting => 3,
        ServerState::Running => 2,
        ServerState::Stopped => 0,
    }
}

/// How much a server in a state matters for the dot.
fn rank_of(s: ServerState) -> (r: u8)
    ensures
        r == state_rank(s),
{
    match s {
        ServerState::Error => 4,
        ServerState::Downloading | ServerState::Starting | ServerState::Initializing | ServerState::Restarting => 3,
        ServerState::Running => 2,
        ServerState::Stopped => 0,
    }
}

/// Whether server `i` is the one that the dot shows: the last of those that matter most.
pub open spec fn matters_most(statuses: Seq<ServerStatus>, i: int) -> bool {
    &&& 0 <= i < statuses.len()
    &&& forall|j: int| 0 <= j < statuses.len() ==> state_rank((#[trigger] statuses[j]).state) <= state_rank(statuses[i].state)
    &&& forall|j: int| i < j < statuses.len() ==> state_rank((#[trigger] statuses[j]).state) < state_rank(statuses[i].state)
}

/// The color of a server in a state.
pub open spec fn state_color(s: ServerState) -> ColorRole {
    match s {
        ServerState::Running => ColorRole::Success,
        ServerState::Downloading | ServerState::Starting | ServerState::Initializing | ServerState::Restarting => {
            ColorRole::Warning
        },
        ServerState::Error => ColorRole::Error,
        ServerState::Stopped => ColorRole::TextSubtle,
    }
}

/// The dot for the language servers.
#[derive(Debug, Clone, Copy, PartialEq, Eq, Structural)]
pub struct LspDot {
    pub color: ColorRole,
    /// The server whose download is shown.
    pub download: Option<usize>,
}

impl LspStatus {
    /// The dot for the language servers.
    pub fn dot(&self) -> (d: LspDot)
        ensures
            self.statuses@.len() == 0 ==> d == (LspDot { color: ColorRole::TextSubtle, download: None }),
            forall|i: int| #[trigger]
                matters_most(self.statuses@, i) ==> {
                    let state = self.statuses@[i].state;
                    &&& d.color == state_color(state)
                    &&& d.download == if state == ServerState::Downloading { Some(i as usize) } else { None }
                },
            self.statuses@.len() > 0 ==> exists|i: int| matters_most(self.statuses@, i),
    {
        let n: usize = self.statuses.len();
        if n == 0 {
            return LspDot { color: ColorRole::TextSubtle, download: None };
        }
        let mut best: usize = 0;
        let mut k: usize = 1;
        while k < n
            invariant
                1 <= k <= n,
                n == self.statuses@.len(),
                best < k,
                forall|j: int|
                    0 <= j < k ==> state_rank((#[trigger] self.statuses@[j]).state) <= state_rank(
                        self.statuses@[best as int].state,
                    ),
                forall|j: int|
                    best < j < k ==> state_rank((#[trigger] self.statuses@[j]).state) < state_rank(
                        self.statuses@[best as int].state,
                    ),
            decreases n - k,
        {
            if rank_of(self.statuses[k].state) >= rank_of(self.statuses[best].state) {
                best = k;
            }
            k = k + 1;
        }
        assert(matters_most(self.statuses@, best as int));
        proof {
            assert forall|i: int| #[trigger] matters_most(self.statuses@, i) implies i == best by {
                let a = self.statuses@[i];
                let b = self.statuses@[best as int];
                assert(state_rank(a.state) == state_rank(b.state));
            }
        }
        let state: ServerState = self.statuses[best].state;
        LspDot {
            color: match state {
                ServerState::Running => ColorRole::Success,
                ServerState::Downloading | ServerState::Starting | ServerState::Initializing
                | ServerState::Restarting => ColorRole::Warning,
                ServerState::Error => ColorRole::Error,
                ServerState::Stopped => ColorRole::TextSubtle,
            },
            download: if state == ServerState::Downloading { Some(best) } else { None },
        }
    }

    /// Whether a server runs.
    pub open spec fn any_running(self) -> bool {
        exists|i: int| 0 <= i < self.statuses@.len() && (#[trigger] self.statuses@[i]).state == ServerState::Running
    }

    /// Whether a server runs.
    fn has_running(&self) -> (b: bool)
        ensures
            b == self.any_running(),
    {
        let mut i: usize = 0;
        while i < self.statuses.len()
            invariant
                i <= self.statuses@.len(),
                forall|k: int| 0 <= k < i ==> (#[trigger] self.statuses@[k]).state != ServerState::Running,
            decreases self.statuses@.len() - i,
        {
            if self.statuses[i].state == ServerState::Running {
                return true;
            }
            i = i + 1;
        }
        false
    }

    /// The numbers of errors and warnings, each with its color. Shown while a server runs.
    pub fn problem_counts(&self) -> (r: Option<ProblemCounts>)
        ensures
            r is Some <==> self.any_running(),
            r matches Some(c) ==> {
                &&& c.errors@ == text::decimal(self.error_count as nat)
                &&& c.error_color == if self.error_count > 0 { ColorRole::Error } else { ColorRole::TextSubtle }
                &&& c.warnings@ == text::decimal(self.warning_count as nat)
                &&& c.warning_color == if self.warning_count > 0 { ColorRole::Warning } else { ColorRole::TextSubtle }
            },
    {
        if !self.has_running() {
            return None;
        }
        let mut errors: String = String::new();
        push_decimal(&mut errors, self.error_count as u64);
        let mut warnings: String = String::new();
        push_decimal(&mut warnings, self.warning_count as u64);
        assert(errors@ =~= text::decimal(self.error_count as nat));
        assert(warnings@ =~= text::decimal(self.warning_count as nat));
        Some(
            ProblemCounts {
                errors,
                error_color: if self.error_count > 0 { ColorRole::Error } else { ColorRole::TextSubtle },
                warnings,
                warning_color: if self.warning_count > 0 { ColorRole::Warning } else { ColorRole::TextSubtle },
            },
        )
    }
}

/// The numbers of errors and warnings.
#[derive(Debug)]
pub struct ProblemCounts {
    pub errors: String,
    pub error_color: ColorRole,
    pub warnings: String,
    pub warning_color: ColorRole,
}

// ── The active document ───────────────────────────────────────────────────────

/// What the bar knows of the active document.
#[derive(Debug)]
pub struct ActiveDocInfo {
    /// The name of its language.
    pub language: Option<String>,
    /// The line and the column of the caret, each counted from one.
    pub cursor: Option<(usize, usize)>,
    pub has_editor: bool,
}

impl ActiveDocInfo {
    /// No document.
    pub fn new() -> (i: ActiveDocInfo)
        ensures
            i.language is None,
            i.cursor is None,
            !i.has_editor,
    {
        ActiveDocInfo { language: None, cursor: None, has_editor: false }
    }

    /// The name of the language; `plain_text` for a document without one.
    pub fn language_label(&self, plain_text: &str) -> (s: String)
        ensures
            s@ == match self.language {
                Some(l) => l@,
                None => plain_text@,
            },
    {
        match &self.language {
            Some(l) => l.clone(),
            None => plain_text.to_owned(),
        }
    }

    /// Where the caret is, in an editor.
    pub fn cursor_shown(&self) -> (r: Option<(usize, usize)>)
        ensures
            r == if self.has_editor { self.cursor } else { None },
    {
        if self.has_editor { self.cursor } else { None }
    }
}

} // verus!
