//! The hover popover of an editor: when it comes and goes, what is selected in it, and the link
//! under the mouse.
use vstd::prelude::*;

use crate::completion_logic;
use crate::completion_logic::is_word_char;
use crate::hover_popover;
use crate::hover_popover::{HoverSelection, Segment};
use crate::hover_segments;
use crate::hover_segments::rebuild_segments;
use crate::locations::Location;
use crate::markdown::MarkdownDoc;
use crate::text::chars_of;

verus! {

/// Milliseconds that the mouse rests on a symbol before its popover is requested.
pub const HOVER_DELAY_MS: u64 = 300;

/// Milliseconds that a popover stays after the mouse has left its symbol.
pub const HOVER_HIDE_DELAY_MS: u64 = 300;

/// The hover popover of an editor.
#[derive(Debug)]
pub struct HoverState {
    /// Whether a request for a popover waits for its time.
    pub info_pending: bool,
    /// Whether the popover is about to go.
    pub hiding_pending: bool,
    pub content: Option<MarkdownDoc>,
    /// The symbol that the popover is about.
    pub symbol_range: Option<(usize, usize)>,
    /// The position that the last popover was requested for.
    pub char_offset: Option<usize>,
    pub segments: Vec<Segment>,
    pub selection: Option<HoverSelection>,
    /// Whether the mouse is making a selection.
    pub selecting: bool,
    /// The link that the mouse button went down on: its segment, and which link of it.
    pub pressed_link: Option<(usize, usize)>,
}

/// What a move of the mouse over the text leads to.
#[derive(Debug, Clone, Copy, PartialEq, Eq, Structural)]
pub enum HoverStep {
    Nothing,
    /// A timer is to be started, at whose end the popover is requested.
    ArmShow,
    /// A timer is to be started, at whose end the popover goes.
    ArmHide,
}

/// What the answer to a request for a popover leads to.
#[derive(Debug, Clone, Copy, PartialEq, Eq, Structural)]
pub enum HoverAnswer {
    Shown,
    /// The mouse has moved on.
    Stale,
    Dismissed,
}

/// Whether `off` lies in a range, the end included.
pub open spec fn touches(range: (usize, usize), off: usize) -> bool {
    range.0 <= off <= range.1
}

/// Whether a selection has an extent.
pub open spec fn has_extent(sel: Option<HoverSelection>) -> bool {
    sel matches Some(s) && s.start != s.end
}

impl HoverState {
    /// Whether there is nothing.
    pub open spec fn nothing(self) -> bool {
        &&& !self.info_pending && !self.hiding_pending
        &&& self.content is None && self.symbol_range is None && self.char_offset is None
        &&& self.segments@.len() == 0
        &&& self.selection is None && !self.selecting && self.pressed_link is None
    }

    /// Whether the segments are those of the content, and without content there are none.
    pub open spec fn wf(self) -> bool {
        match self.content {
            Some(md) => hover_segments::views(self.segments@) == hover_segments::doc_segments(
                md.blocks@,
                hover_segments::doc_cx(),
                md.blocks@.len() as int,
            ) && self.symbol_range is Some,
            None => self.segments@.len() == 0 && self.symbol_range is None,
        }
    }

    /// No popover.
    pub fn new() -> (r: HoverState)
        ensures
            r.nothing(),
            r.wf(),
    {
        HoverState {
            info_pending: false,
            hiding_pending: false,
            content: None,
            symbol_range: None,
            char_offset: None,
            segments: Vec::new(),
            selection: None,
            selecting: false,
            pressed_link: None,
        }
    }

    /// Whether a selection keeps the popover open.
    pub open spec fn locked(self) -> bool {
        self.selecting || has_extent(self.selection)
    }

    /// Whether a selection keeps the popover open: only a click outside, a key, scrolling or an
    /// edit closes it.
    pub fn selection_locked(&self) -> (b: bool)
        ensures
            b == self.locked(),
    {
        if self.selecting {
            return true;
        }
        match self.selection {
            Some(s) => !s.is_empty(),
            None => false,
        }
    }

    /// Closes the popover and forgets what was requested. Says whether there was one.
    pub fn dismiss_hover(&mut self) -> (had_content: bool)
        ensures
            final(self).nothing(),
            final(self).wf(),
            had_content == (old(self).content is Some),
    {
        let had_content: bool = self.content.is_some();
        self.info_pending = false;
        self.hiding_pending = false;
        self.char_offset = None;
        self.content = None;
        self.symbol_range = None;
        self.selection = None;
        self.selecting = false;
        self.pressed_link = None;
        self.segments = Vec::new();
        had_content
    }

    /// Whether it depends on the way the mouse goes what a move of it leads to.
    pub fn asks_for_distance(&self, offset: Option<usize>) -> (b: bool)
        ensures
            b == (!self.locked() && offset is None && self.content is Some),
    {
        !self.selection_locked() && offset.is_none() && self.content.is_some()
    }

    /// The state once the popover of position `off` is wanted.
    pub open spec fn shows(self, after: HoverState, off: usize, step: HoverStep) -> bool {
        if self.content is Some && self.symbol_range is Some && touches(self.symbol_range->0, off) {
            after == self && step == HoverStep::Nothing
        } else if self.char_offset == Some(off) && self.info_pending {
            after == self && step == HoverStep::Nothing
        } else {
            &&& step == HoverStep::ArmShow
            &&& after.char_offset == Some(off)
            &&& after.info_pending
            &&& after.content is None
            &&& self.content is None ==> after == (HoverState { char_offset: Some(off), info_pending: true, ..self })
            &&& self.content is Some ==> {
                &&& !after.hiding_pending && after.symbol_range is None && after.segments@.len() == 0
                &&& after.selection is None && !after.selecting && after.pressed_link is None
            }
        }
    }

    /// Wants the popover of position `off`. One that is shown for another symbol goes.
    pub fn show_hover(&mut self, off: usize) -> (step: HoverStep)
        requires
            old(self).wf(),
        ensures
            old(self).shows(*final(self), off, step),
            final(self).wf(),
    {
        if self.content.is_some() {
            if let Some((start, end)) = self.symbol_range {
                if start <= off && off <= end {
                    return HoverStep::Nothing;
                }
            }
        }
        let same: bool = match self.char_offset {
            Some(o) => o == off,
            None => false,
        };
        if same && self.info_pending {
            return HoverStep::Nothing;
        }
        if self.content.is_some() {
            self.dismiss_hover();
        }
        self.char_offset = Some(off);
        self.info_pending = true;
        HoverStep::ArmShow
    }

    /// Takes note that the mouse is over position `offset` of the text, or over none. Where it is
    /// over none, `getting_closer` says whether it is on its way to the popover.
    pub fn hover_at(&mut self, offset: Option<usize>, getting_closer: bool) -> (step: HoverStep)
        requires
            old(self).wf(),
        ensures
            final(self).wf(),
            old(self).locked() ==> *final(self) == *old(self) && step == HoverStep::Nothing,
            !old(self).locked() && offset is Some ==> (HoverState { hiding_pending: false, ..*old(self) }).shows(
                *final(self),
                offset->0,
                step,
            ),
            !old(self).locked() && offset is None && old(self).content is None ==> *final(self) == (HoverState {
                info_pending: false,
                char_offset: None,
                ..*old(self)
            }) && step == HoverStep::Nothing,
            !old(self).locked() && offset is None && old(self).content is Some ==> {
                &&& *final(self) == (HoverState { hiding_pending: true, ..*old(self) })
                &&& step == if !getting_closer && old(self).hiding_pending { HoverStep::Nothing } else { HoverStep::ArmHide }
            },
    {
        if self.selection_locked() {
            return HoverStep::Nothing;
        }
        match offset {
            Some(off) => {
                self.hiding_pending = false;
                self.show_hover(off)
            },
            None => {
                if self.content.is_none() {
                    self.info_pending = false;
                    self.char_offset = None;
                    return HoverStep::Nothing;
                }
                if !getting_closer && self.hiding_pending {
                    return HoverStep::Nothing;
                }
                self.hiding_pending = true;
                HoverStep::ArmHide
            },
        }
    }

    /// Whether an answer for `offset` is about where the mouse is now: at the same position, or
    /// within the symbol that the answer is about.
    pub open spec fn fresh(self, offset: usize, range: (usize, usize)) -> bool {
        self.char_offset matches Some(cur) && (cur == offset || touches(range, cur))
    }

    /// Takes over the answer to a request for the popover of `offset`: its content, and the
    /// symbol that it is about, for which the word at `offset` stands in where the server names
    /// none. Without content there is nothing to show.
    pub fn on_hover_answer(
        &mut self,
        offset: usize,
        answer: Option<(MarkdownDoc, Option<(usize, usize)>)>,
        word: (usize, usize),
    ) -> (r: HoverAnswer)
        requires
            old(self).wf(),
        ensures
            final(self).wf(),
            match answer {
                Some((md, range)) => {
                    let symbol = match range {
                        Some(r) => r,
                        None => word,
                    };
                    if old(self).fresh(offset, symbol) {
                        &&& r == HoverAnswer::Shown
                        &&& final(self).content == Some(md)
                        &&& final(self).symbol_range == Some(symbol)
                        &&& !final(self).hiding_pending && !final(self).info_pending
                        &&& final(self).selection is None && !final(self).selecting
                        &&& final(self).pressed_link is None
                        &&& final(self).char_offset == old(self).char_offset
                    } else {
                        *final(self) == *old(self) && r == HoverAnswer::Stale
                    }
                },
                None => if old(self).char_offset == Some(offset) {
                    final(self).nothing() && r == HoverAnswer::Dismissed
                } else {
                    *final(self) == *old(self) && r == HoverAnswer::Stale
                },
            },
    {
        match answer {
            Some((md, range)) => {
                let symbol: (usize, usize) = match range {
                    Some(r) => r,
                    None => word,
                };
                let fresh: bool = match self.char_offset {
                    Some(cur) => cur == offset || (symbol.0 <= cur && cur <= symbol.1),
                    None => false,
                };
                if !fresh {
                    return HoverAnswer::Stale;
                }
                self.hiding_pending = false;
                self.info_pending = false;
                rebuild_segments(&mut self.segments, &md);
                self.content = Some(md);
                self.symbol_range = Some(symbol);
                self.selection = None;
                self.selecting = false;
                self.pressed_link = None;
                HoverAnswer::Shown
            },
            None => {
                let here: bool = match self.char_offset {
                    Some(cur) => cur == offset,
                    None => false,
                };
                if here {
                    self.dismiss_hover();
                    HoverAnswer::Dismissed
                } else {
                    HoverAnswer::Stale
                }
            },
        }
    }

    // ── The mouse in the popover ──────────────────────────────────────────────

    /// The mouse button goes down in the popover: on the text at `hit`, and on the link `link`.
    pub fn press(&mut self, hit: Option<(usize, usize)>, link: Option<(usize, usize)>)
        requires
            old(self).wf(),
        ensures
            *final(self) == (HoverState {
                pressed_link: link,
                selection: match hit {
                    Some(h) => Some(HoverSelection { start: h, end: h }),
                    None => old(self).selection,
                },
                selecting: hit is Some || old(self).selecting,
                ..*old(self)
            }),
            final(self).wf(),
    {
        self.pressed_link = link;
        if let Some(h) = hit {
            self.selection = Some(HoverSelection { start: h, end: h });
            self.selecting = true;
        }
    }

    /// The mouse moves while it makes a selection. The end of the selection goes to `hit`.
    pub fn drag_to(&mut self, hit: (usize, usize))
        requires
            old(self).wf(),
        ensures
            *final(self) == (HoverState {
                selection: if old(self).selecting && old(self).selection is Some {
                    Some(HoverSelection { start: old(self).selection->0.start, end: hit })
                } else {
                    old(self).selection
                },
                ..*old(self)
            }),
            final(self).wf(),
    {
        if self.selecting {
            if let Some(s) = self.selection {
                self.selection = Some(HoverSelection { start: s.start, end: hit });
            }
        }
    }

    /// The mouse is inside the popover: it is not about to go.
    pub fn stay(&mut self)
        requires
            old(self).wf(),
        ensures
            *final(self) == (HoverState { hiding_pending: false, ..*old(self) }),
            final(self).wf(),
    {
        self.hiding_pending = false;
    }

    /// The link `link` of a segment.
    pub open spec fn link_url(self, link: (usize, usize)) -> Option<Seq<char>> {
        if link.0 < self.segments@.len() && link.1 < self.segments@[link.0 as int].links@.len() {
            Some(self.segments@[link.0 as int].links@[link.1 as int].url@)
        } else {
            None
        }
    }

    /// The mouse button comes up in the popover, on the link `link`. A click without a drag
    /// selects nothing; on a link, it opens it.
    pub fn release(&mut self, link: Option<(usize, usize)>) -> (url: Option<String>)
        requires
            old(self).wf(),
        ensures
            ({
                let clicked = old(self).selection matches Some(s) && s.start == s.end;
                &&& *final(self) == (HoverState {
                    selecting: false,
                    pressed_link: None,
                    selection: if clicked { None } else { old(self).selection },
                    ..*old(self)
                })
                &&& match url {
                    Some(u) => clicked && link is Some && old(self).pressed_link == link && old(self).link_url(link->0)
                        == Some(u@),
                    None => !(clicked && link is Some && old(self).pressed_link == link && old(self).link_url(
                        link->0,
                    ) is Some),
                }
            }),
            final(self).wf(),
    {
        self.selecting = false;
        let clicked: bool = match self.selection {
            Some(s) => s.is_empty(),
            None => false,
        };
        if clicked {
            self.selection = None;
        }
        let pressed: Option<(usize, usize)> = self.pressed_link;
        self.pressed_link = None;
        if !clicked {
            return None;
        }
        match (pressed, link) {
            (Some(p), Some(l)) => {
                if p.0 != l.0 || p.1 != l.1 || p.0 >= self.segments.len() {
                    return None;
                }
                let seg: &Segment = &self.segments[p.0];
                if p.1 < seg.links.len() { Some(seg.links[p.1].url.clone()) } else { None }
            },
            _ => None,
        }
    }

    /// The mouse button comes up outside the popover, at the end of a drag that started in it.
    pub fn release_outside(&mut self)
        requires
            old(self).wf(),
        ensures
            *final(self) == (HoverState {
                selecting: false,
                selection: if old(self).selecting && !has_extent(old(self).selection) {
                    None
                } else {
                    old(self).selection
                },
                ..*old(self)
            }),
            final(self).wf(),
    {
        if self.selecting {
            self.selecting = false;
            if let Some(s) = self.selection {
                if s.is_empty() {
                    self.selection = None;
                }
            }
        }
    }

    /// What is selected in the popover, unless that is nothing.
    pub fn selected(&self) -> (r: Option<String>)
        ensures
            match r {
                Some(t) => {
                    &&& has_extent(self.selection)
                    &&& t@ == hover_popover::selection_text(self.segments@, self.selection->0, self.segments@.len() as int)
                    &&& t@.len() > 0
                },
                None => !has_extent(self.selection) || hover_popover::selection_text(
                    self.segments@,
                    self.selection->0,
                    self.segments@.len() as int,
                ).len() == 0,
            },
    {
        match self.selection {
            Some(s) => {
                if s.is_empty() {
                    return None;
                }
                let t: String = hover_popover::selected_text(self.segments.as_slice(), &s);
                if t.as_str().is_empty() { None } else { Some(t) }
            },
            None => None,
        }
    }
}

// ── Links under the mouse ─────────────────────────────────────────────────────

/// The definitions of the symbol under the mouse. Without locations the symbol is known to have
/// none.
#[derive(Debug)]
pub struct HoveredLink {
    pub symbol_range: (usize, usize),
    pub locations: Vec<Location>,
}

/// The search for definitions of what is under the mouse.
#[derive(Debug)]
pub struct LinkState {
    pub link: Option<HoveredLink>,
    /// The position that definitions were last requested for.
    pub trigger: Option<usize>,
    /// Whether that request is on its way.
    pub pending: bool,
    pub cmd_held: bool,
}

/// Whether `off` lies in a range, the end not included.
pub open spec fn holds(range: (usize, usize), off: usize) -> bool {
    range.0 <= off < range.1
}

/// Whether a text has a character that identifiers have.
pub open spec fn has_word_char(s: Seq<char>) -> bool {
    exists|i: int| 0 <= i < s.len() && completion_logic::word_char(#[trigger] s[i])
}

/// Whether a text has a character that identifiers have.
fn any_word_char(s: &str) -> (b: bool)
    ensures
        b == has_word_char(s@),
{
    let chars: Vec<char> = chars_of(s);
    let mut i: usize = 0;
    while i < chars.len()
        invariant
            i <= chars@.len(),
            chars@ == s@,
            forall|k: int| 0 <= k < i ==> !completion_logic::word_char(#[trigger] s@[k]),
        decreases chars@.len() - i,
    {
        if is_word_char(chars[i]) {
            assert(completion_logic::word_char(s@[i as int]));
            return true;
        }
        i = i + 1;
    }
    false
}

/// What a move of the mouse means for the link under it.
#[derive(Debug, Clone, Copy, PartialEq, Eq, Structural)]
pub enum LinkStep {
    Nothing,
    Cleared,
    /// The definitions of what is at `offset` are to be requested.
    Request { offset: usize },
}

impl LinkState {
    /// No link.
    pub fn new() -> (r: LinkState)
        ensures
            r.link is None,
            r.trigger is None,
            !r.pending,
            !r.cmd_held,
    {
        LinkState { link: None, trigger: None, pending: false, cmd_held: false }
    }

    /// Whether the link is forgotten.
    pub open spec fn cleared(self, after: LinkState) -> bool {
        after == (LinkState { link: None, trigger: None, pending: false, ..self })
    }

    /// Forgets the link. Says whether there was one.
    pub fn clear_hovered_link(&mut self) -> (had: bool)
        ensures
            old(self).cleared(*final(self)),
            had == (old(self).link is Some),
    {
        let had: bool = self.link.is_some();
        self.link = None;
        self.trigger = None;
        self.pending = false;
        had
    }

    /// Takes note that the mouse is over `offset`, with or without the key that shows links, and
    /// that `word`, whose text is `word_text`, is there. `selecting` says whether the mouse makes
    /// a selection.
    pub fn update_hovered_link(
        &mut self,
        offset: Option<usize>,
        cmd: bool,
        selecting: bool,
        word: (usize, usize),
        word_text: &str,
    ) -> (step: LinkStep)
        ensures
            if offset is None || !cmd || selecting {
                old(self).cleared(*final(self)) && step == LinkStep::Cleared
            } else if (old(self).link matches Some(l) && holds(l.symbol_range, offset->0)) || (old(self).trigger == offset
                && old(self).pending) {
                *final(self) == *old(self) && step == LinkStep::Nothing
            } else if word.0 >= word.1 || !has_word_char(word_text@) {
                old(self).cleared(*final(self)) && step == LinkStep::Cleared
            } else {
                *final(self) == *old(self) && step == LinkStep::Request { offset: offset->0 }
            },
    {
        let off: usize = match offset {
            Some(o) => o,
            None => {
                self.clear_hovered_link();
                return LinkStep::Cleared;
            },
        };
        if !cmd || selecting {
            self.clear_hovered_link();
            return LinkStep::Cleared;
        }
        if let Some(l) = &self.link {
            if l.symbol_range.0 <= off && off < l.symbol_range.1 {
                return LinkStep::Nothing;
            }
        }
        let same: bool = match self.trigger {
            Some(t) => t == off,
            None => false,
        };
        if same && self.pending {
            return LinkStep::Nothing;
        }
        if word.0 >= word.1 || !any_word_char(word_text) {
            self.clear_hovered_link();
            return LinkStep::Cleared;
        }
        LinkStep::Request { offset: off }
    }

    /// Takes note that the definitions of what is at `offset` were requested.
    pub fn requested(&mut self, offset: usize)
        ensures
            *final(self) == (LinkState { trigger: Some(offset), pending: true, ..*old(self) }),
    {
        self.trigger = Some(offset);
        self.pending = true;
    }

    /// Takes over the definitions of what is at `offset`, where `word` is. An answer for where
    /// the mouse no longer is is dropped. The symbol is the one that the server names, or the
    /// word. Says whether the answer was taken over.
    pub fn on_link_answer(
        &mut self,
        offset: usize,
        locations: Vec<Location>,
        origin: Option<(usize, usize)>,
        word: (usize, usize),
    ) -> (taken: bool)
        ensures
            taken == (old(self).trigger == Some(offset)),
            !taken ==> *final(self) == *old(self),
            taken ==> *final(self) == (LinkState {
                link: Some(
                    HoveredLink {
                        symbol_range: match origin {
                            Some(r) => r,
                            None => word,
                        },
                        locations,
                    },
                ),
                ..*old(self)
            }),
    {
        let here: bool = match self.trigger {
            Some(t) => t == offset,
            None => false,
        };
        if !here {
            return false;
        }
        let symbol_range: (usize, usize) = match origin {
            Some(r) => r,
            None => word,
        };
        self.link = Some(HoveredLink { symbol_range, locations });
        true
    }

    /// Whether the symbol under the mouse is shown as a link.
    pub fn link_preview_active(&self) -> (b: bool)
        ensures
            b == (self.cmd_held && (self.link matches Some(l) && l.locations@.len() > 0)),
    {
        if !self.cmd_held {
            return false;
        }
        match &self.link {
            Some(l) => l.locations.len() > 0,
            None => false,
        }
    }

    /// What is known of the definition of what is at `offset`: `None` where nothing is, and
    /// otherwise the first location, if there is any.
    pub fn known_definition(&self, offset: usize) -> (r: Option<Option<Location>>)
        ensures
            match r {
                None => !(self.link matches Some(l) && holds(l.symbol_range, offset)),
                Some(first) => {
                    &&& self.link matches Some(l)
                    &&& holds(l.symbol_range, offset)
                    &&& first == if l.locations@.len() > 0 { Some(l.locations@[0]) } else { None }
                },
            },
    {
        match &self.link {
            Some(l) => {
                if l.symbol_range.0 <= offset && offset < l.symbol_range.1 {
                    if l.locations.len() > 0 { Some(Some(l.locations[0].clone())) } else { Some(None) }
                } else {
                    None
                }
            },
            None => None,
        }
    }
}

} // verus!
