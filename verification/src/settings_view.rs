//! The settings, and the controls that change them.
use vstd::prelude::*;

use crate::file_finder::PreviewPosition;
use crate::text;
use crate::text::{push_decimal, same_text};

verus! {

/// The language of the program.
#[derive(Debug, Clone, Copy, PartialEq, Eq, Structural)]
pub enum Language {
    System,
    En,
}

/// When documents are saved by themselves.
#[derive(Debug, Clone, Copy, PartialEq, Eq, Structural)]
pub enum AutoSave {
    Off,
    AfterDelay,
    OnFocusChange,
    OnWindowChange,
}

/// The settings.
#[derive(Debug, Clone, Copy, PartialEq, Eq, Structural)]
pub struct Settings {
    pub language: Language,
    pub reopen_last_session: bool,
    pub restore_split_layout: bool,
    pub line_numbers: bool,
    pub auto_save: AutoSave,
    pub file_finder_preview_position: PreviewPosition,
    pub auto_save_delay_ms: u64,
    /// The size of text, in thousandths of a pixel.
    pub font_size_milli: u64,
    pub show_scrollbar: bool,
    pub indent_guides: bool,
}

/// One of the settings.
#[derive(Debug, Clone, Copy, PartialEq, Eq, Structural)]
pub enum SettingId {
    Language,
    ReopenLastSession,
    RestoreSplitLayout,
    LineNumbers,
    AutoSave,
    FinderPreview,
    AutoSaveDelay,
    FontSize,
    Scrollbar,
    IndentGuides,
}

/// A group of settings, with the key of its title.
#[derive(Debug)]
pub struct SettingsSectionDef {
    pub title: &'static str,
    pub entries: Vec<SettingId>,
}

/// One of the values that can be chosen.
#[derive(Debug)]
pub struct Choice {
    pub value: &'static str,
    pub selected: bool,
    pub clickable: bool,
}

/// How a setting is changed.
#[derive(Debug)]
pub enum ControlView {
    Select { choices: Vec<Choice> },
    Stepper { label: String, enabled: bool },
    Toggle { on: bool, can_turn_on: bool, can_turn_off: bool },
}

/// Sections by their values.
pub open spec fn section_views(sections: Seq<SettingsSectionDef>) -> Seq<(Seq<char>, Seq<SettingId>)> {
    sections.map_values(|s: SettingsSectionDef| (s.title@, s.entries@))
}

/// The groups of settings, in the order in which they are shown.
pub open spec fn all_sections() -> Seq<(Seq<char>, Seq<SettingId>)> {
    seq![
        (
            "settings.section.general"@,
            seq![SettingId::Language, SettingId::ReopenLastSession, SettingId::RestoreSplitLayout],
        ),
        (
            "settings.section.editor"@,
            seq![SettingId::LineNumbers, SettingId::AutoSave, SettingId::FinderPreview, SettingId::AutoSaveDelay],
        ),
        (
            "settings.section.appearance"@,
            seq![SettingId::FontSize, SettingId::Scrollbar, SettingId::IndentGuides],
        ),
    ]
}

/// The groups of settings, in the order in which they are shown.
pub fn sections() -> (r: Vec<SettingsSectionDef>)
    ensures
        section_views(r@) == all_sections(),
{
    let general: Vec<SettingId> = vec![SettingId::Language, SettingId::ReopenLastSession, SettingId::RestoreSplitLayout];
    let editor: Vec<SettingId> = vec![
        SettingId::LineNumbers,
        SettingId::AutoSave,
        SettingId::FinderPreview,
        SettingId::AutoSaveDelay,
    ];
    let appearance: Vec<SettingId> = vec![SettingId::FontSize, SettingId::Scrollbar, SettingId::IndentGuides];
    assert(general@ =~= all_sections()[0].1);
    assert(editor@ =~= all_sections()[1].1);
    assert(appearance@ =~= all_sections()[2].1);
    let r: Vec<SettingsSectionDef> = vec![
        SettingsSectionDef { title: "settings.section.general", entries: general },
        SettingsSectionDef { title: "settings.section.editor", entries: editor },
        SettingsSectionDef { title: "settings.section.appearance", entries: appearance },
    ];
    assert(section_views(r@) =~= all_sections());
    r
}

/// Every setting is in one of the groups.
pub proof fn every_setting_is_listed(id: SettingId)
    ensures
        exists|i: int, k: int|
            0 <= i < all_sections().len() && 0 <= k < all_sections()[i].1.len() && #[trigger] all_sections()[i].1[k] == id,
{
    let all = all_sections();
    match id {
        SettingId::Language => assert(all[0].1[0] == id),
        SettingId::ReopenLastSession => assert(all[0].1[1] == id),
        SettingId::RestoreSplitLayout => assert(all[0].1[2] == id),
        SettingId::LineNumbers => assert(all[1].1[0] == id),
        SettingId::AutoSave => assert(all[1].1[1] == id),
        SettingId::FinderPreview => assert(all[1].1[2] == id),
        SettingId::AutoSaveDelay => assert(all[1].1[3] == id),
        SettingId::FontSize => assert(all[2].1[0] == id),
        SettingId::Scrollbar => assert(all[2].1[1] == id),
        SettingId::IndentGuides => assert(all[2].1[2] == id),
    }
}

impl SettingId {
    /// The key of the texts about the setting.
    pub open spec fn name(self) -> Seq<char> {
        match self {
            SettingId::Language => "settings.language"@,
            SettingId::ReopenLastSession => "settings.reopen_last_session"@,
            SettingId::RestoreSplitLayout => "settings.restore_split_layout"@,
            SettingId::LineNumbers => "settings.line_numbers"@,
            SettingId::AutoSave => "settings.auto_save"@,
            SettingId::FinderPreview => "settings.finder_preview"@,
            SettingId::AutoSaveDelay => "settings.auto_save_delay"@,
            SettingId::FontSize => "settings.font_size"@,
            SettingId::Scrollbar => "settings.scrollbar"@,
            SettingId::IndentGuides => "settings.indent_guides"@,
        }
    }

    /// The key of the texts about the setting.
    pub fn key(&self) -> (k: &'static str)
        ensures
            k@ == self.name(),
    {
        match self {
            SettingId::Language => "settings.language",
            SettingId::ReopenLastSession => "settings.reopen_last_session",
            SettingId::RestoreSplitLayout => "settings.restore_split_layout",
            SettingId::LineNumbers => "settings.line_numbers",
            SettingId::AutoSave => "settings.auto_save",
            SettingId::FinderPreview => "settings.finder_preview",
            SettingId::AutoSaveDelay => "settings.auto_save_delay",
            SettingId::FontSize => "settings.font_size",
            SettingId::Scrollbar => "settings.scrollbar",
            SettingId::IndentGuides => "settings.indent_guides",
        }
    }

    /// The values that can be chosen.
    pub open spec fn values(self) -> Seq<Seq<char>> {
        match self {
            SettingId::Language => seq!["system"@, "en"@],
            SettingId::AutoSave => seq!["off"@, "afterDelay"@, "onFocusChange"@, "onWindowChange"@],
            SettingId::FinderPreview => seq!["right"@, "left"@, "bottom"@],
            _ => Seq::empty(),
        }
    }

    /// The least and the greatest value, and how far apart values are.
    pub open spec fn range(self) -> Option<(u64, u64, u64)> {
        match self {
            SettingId::AutoSaveDelay => Some((250, 5000, 250)),
            SettingId::FontSize => Some((10_000, 24_000, 1000)),
            _ => None,
        }
    }
}

/// `v` brought between `min` and `max`.
pub open spec fn clamped(v: int, min: int, max: int) -> int {
    if v < min { min } else if v > max { max } else { v }
}

impl Settings {
    /// Whether a setting can be changed: some make sense only with others.
    pub open spec fn enabled(self, id: SettingId) -> bool {
        match id {
            SettingId::RestoreSplitLayout => self.reopen_last_session,
            SettingId::AutoSaveDelay => self.auto_save == AutoSave::AfterDelay,
            _ => true,
        }
    }

    /// The value that is chosen.
    pub open spec fn chosen(self, id: SettingId) -> Seq<char> {
        match id {
            SettingId::Language => match self.language {
                Language::System => "system"@,
                Language::En => "en"@,
            },
            SettingId::AutoSave => match self.auto_save {
                AutoSave::Off => "off"@,
                AutoSave::AfterDelay => "afterDelay"@,
                AutoSave::OnFocusChange => "onFocusChange"@,
                AutoSave::OnWindowChange => "onWindowChange"@,
            },
            SettingId::FinderPreview => match self.file_finder_preview_position {
                PreviewPosition::Right => "right"@,
                PreviewPosition::Left => "left"@,
                PreviewPosition::Bottom => "bottom"@,
            },
            _ => Seq::empty(),
        }
    }

    /// The settings with another value chosen. What is no value stands for the first.
    pub open spec fn with_choice(self, id: SettingId, value: Seq<char>) -> Settings {
        match id {
            SettingId::Language => Settings {
                language: if value == "en"@ { Language::En } else { Language::System },
                ..self
            },
            SettingId::AutoSave => Settings {
                auto_save: if value == "afterDelay"@ {
                    AutoSave::AfterDelay
                } else if value == "onFocusChange"@ {
                    AutoSave::OnFocusChange
                } else if value == "onWindowChange"@ {
                    AutoSave::OnWindowChange
                } else {
                    AutoSave::Off
                },
                ..self
            },
            SettingId::FinderPreview => Settings {
                file_finder_preview_position: if value == "left"@ {
                    PreviewPosition::Left
                } else if value == "bottom"@ {
                    PreviewPosition::Bottom
                } else {
                    PreviewPosition::Right
                },
                ..self
            },
            _ => self,
        }
    }

    /// Chooses a value of a setting.
    pub fn choose_value(&mut self, id: SettingId, value: &str)
        ensures
            *final(self) == old(self).with_choice(id, value@),
    {
        match id {
            SettingId::Language => {
                self.language = if same_text(value, "en") { Language::En } else { Language::System };
            },
            SettingId::AutoSave => {
                self.auto_save = if same_text(value, "afterDelay") {
                    AutoSave::AfterDelay
                } else if same_text(value, "onFocusChange") {
                    AutoSave::OnFocusChange
                } else if same_text(value, "onWindowChange") {
                    AutoSave::OnWindowChange
                } else {
                    AutoSave::Off
                };
            },
            SettingId::FinderPreview => {
                self.file_finder_preview_position = if same_text(value, "left") {
                    PreviewPosition::Left
                } else if same_text(value, "bottom") {
                    PreviewPosition::Bottom
                } else {
                    PreviewPosition::Right
                };
            },
            _ => {},
        }
    }

    /// The number that a setting is.
    pub open spec fn number(self, id: SettingId) -> u64 {
        match id {
            SettingId::AutoSaveDelay => self.auto_save_delay_ms,
            _ => self.font_size_milli,
        }
    }

    /// The settings with a number one step up or down, brought into its range.
    pub open spec fn stepped(self, id: SettingId, up: bool) -> Settings {
        match id.range() {
            None => self,
            Some((min, max, step)) => {
                let v = clamped(
                    if up { self.number(id) + step } else { self.number(id) - step },
                    min as int,
                    max as int,
                ) as u64;
                if id == SettingId::AutoSaveDelay {
                    Settings { auto_save_delay_ms: v, ..self }
                } else {
                    Settings { font_size_milli: v, ..self }
                }
            },
        }
    }

    /// Changes a number by one step.
    pub fn step(&mut self, id: SettingId, up: bool)
        ensures
            *final(self) == old(self).stepped(id, up),
    {
        match id {
            SettingId::AutoSaveDelay => {
                self.auto_save_delay_ms = step_in(self.auto_save_delay_ms, 250, 5000, 250, up);
            },
            SettingId::FontSize => {
                self.font_size_milli = step_in(self.font_size_milli, 10_000, 24_000, 1000, up);
            },
            _ => {},
        }
    }

    /// Whether a setting is switched on.
    pub open spec fn switched_on(self, id: SettingId) -> bool {
        match id {
            SettingId::ReopenLastSession => self.reopen_last_session,
            SettingId::RestoreSplitLayout => self.restore_split_layout,
            SettingId::LineNumbers => self.line_numbers,
            SettingId::Scrollbar => self.show_scrollbar,
            SettingId::IndentGuides => self.indent_guides,
            _ => false,
        }
    }

    /// The settings with one switched on or off.
    pub open spec fn with_switch(self, id: SettingId, on: bool) -> Settings {
        match id {
            SettingId::ReopenLastSession => Settings { reopen_last_session: on, ..self },
            SettingId::RestoreSplitLayout => Settings { restore_split_layout: on, ..self },
            SettingId::LineNumbers => Settings { line_numbers: on, ..self },
            SettingId::Scrollbar => Settings { show_scrollbar: on, ..self },
            SettingId::IndentGuides => Settings { indent_guides: on, ..self },
            _ => self,
        }
    }

    /// Switches a setting on or off.
    pub fn switch(&mut self, id: SettingId, on: bool)
        ensures
            *final(self) == old(self).with_switch(id, on),
    {
        match id {
            SettingId::ReopenLastSession => {
                self.reopen_last_session = on;
            },
            SettingId::RestoreSplitLayout => {
                self.restore_split_layout = on;
            },
            SettingId::LineNumbers => {
                self.line_numbers = on;
            },
            SettingId::Scrollbar => {
                self.show_scrollbar = on;
            },
            SettingId::IndentGuides => {
                self.indent_guides = on;
            },
            _ => {},
        }
    }

    /// Whether a setting can be changed.
    pub fn is_enabled(&self, id: SettingId) -> (b: bool)
        ensures
            b == self.enabled(id),
    {
        match id {
            SettingId::RestoreSplitLayout => self.reopen_last_session,
            SettingId::AutoSaveDelay => self.auto_save == AutoSave::AfterDelay,
            _ => true,
        }
    }

    /// Whether `choices` shows the values of a setting: the chosen one cannot be clicked.
    pub open spec fn shows_choices(self, id: SettingId, choices: Seq<Choice>) -> bool {
        &&& choices.len() == id.values().len()
        &&& forall|i: int|
            0 <= i < choices.len() ==> {
                &&& (#[trigger] choices[i]).value@ == id.values()[i]
                &&& choices[i].selected == (id.values()[i] == self.chosen(id))
                &&& choices[i].clickable == (self.enabled(id) && !choices[i].selected)
            }
    }

    /// One of the values of a setting.
    fn choice(&self, id: SettingId, value: &'static str) -> (c: Choice)
        ensures
            c.value@ == value@,
            c.selected == (value@ == self.chosen(id)),
            c.clickable == (self.enabled(id) && !c.selected),
    {
        let current: &'static str = match id {
            SettingId::Language => match self.language {
                Language::System => "system",
                Language::En => "en",
            },
            SettingId::AutoSave => match self.auto_save {
                AutoSave::Off => "off",
                AutoSave::AfterDelay => "afterDelay",
                AutoSave::OnFocusChange => "onFocusChange",
                AutoSave::OnWindowChange => "onWindowChange",
            },
            SettingId::FinderPreview => match self.file_finder_preview_position {
                PreviewPosition::Right => "right",
                PreviewPosition::Left => "left",
                PreviewPosition::Bottom => "bottom",
            },
            _ => "",
        };
        proof {
            reveal_strlit("");
            assert(""@ =~= Seq::<char>::empty());
        }
        let selected: bool = same_text(value, current);
        Choice { value, selected, clickable: self.is_enabled(id) && !selected }
    }

    /// Whether `v` is the control of a setting.
    pub open spec fn shows_control(self, id: SettingId, v: ControlView) -> bool {
        if id.values().len() > 0 {
            v matches ControlView::Select { choices } && self.shows_choices(id, choices@)
        } else if id == SettingId::AutoSaveDelay {
            v matches ControlView::Stepper { label, enabled } && label@ == text::decimal(self.auto_save_delay_ms as nat)
                + " ms"@ && enabled == self.enabled(id)
        } else if id == SettingId::FontSize {
            v matches ControlView::Stepper { label, enabled } && label@ == text::decimal((self.font_size_milli / 1000) as nat)
                + " px"@ && enabled == self.enabled(id)
        } else {
            v matches ControlView::Toggle { on, can_turn_on, can_turn_off } && on == self.switched_on(id) && can_turn_on == (
            self.enabled(id) && !on) && can_turn_off == (self.enabled(id) && on)
        }
    }

    /// The control of a setting.
    pub fn control(&self, id: SettingId) -> (v: ControlView)
        ensures
            self.shows_control(id, v),
    {
        let enabled: bool = self.is_enabled(id);
        let on: bool = match id {
            SettingId::Language => {
                let a: Choice = self.choice(id, "system");
                let b: Choice = self.choice(id, "en");
                return ControlView::Select { choices: vec![a, b] };
            },
            SettingId::AutoSave => {
                let a: Choice = self.choice(id, "off");
                let b: Choice = self.choice(id, "afterDelay");
                let c: Choice = self.choice(id, "onFocusChange");
                let d: Choice = self.choice(id, "onWindowChange");
                return ControlView::Select { choices: vec![a, b, c, d] };
            },
            SettingId::FinderPreview => {
                let a: Choice = self.choice(id, "right");
                let b: Choice = self.choice(id, "left");
                let c: Choice = self.choice(id, "bottom");
                return ControlView::Select { choices: vec![a, b, c] };
            },
            SettingId::AutoSaveDelay => {
                let mut label: String = String::new();
                push_decimal(&mut label, self.auto_save_delay_ms);
                label.append(" ms");
                assert(label@ =~= text::decimal(self.auto_save_delay_ms as nat) + " ms"@);
                return ControlView::Stepper { label, enabled };
            },
            SettingId::FontSize => {
                let mut label: String = String::new();
                push_decimal(&mut label, self.font_size_milli / 1000);
                label.append(" px");
                assert(label@ =~= text::decimal((self.font_size_milli / 1000) as nat) + " px"@);
                return ControlView::Stepper { label, enabled };
            },
            SettingId::ReopenLastSession => self.reopen_last_session,
            SettingId::RestoreSplitLayout => self.restore_split_layout,
            SettingId::LineNumbers => self.line_numbers,
            SettingId::Scrollbar => self.show_scrollbar,
            SettingId::IndentGuides => self.indent_guides,
        };
        ControlView::Toggle { on, can_turn_on: enabled && !on, can_turn_off: enabled && on }
    }
}

/// A number one step up or down, brought between `min` and `max`.
fn step_in(v: u64, min: u64, max: u64, step: u64, up: bool) -> (r: u64)
    requires
        min <= max,
        step <= min,
        max + step <= u64::MAX,
    ensures
        r == clamped(if up { v + step } else { v - step }, min as int, max as int),
{
    if up {
        if v >= max {
            return max;
        }
        let n: u64 = v + step;
        if n < min { min } else if n > max { max } else { n }
    } else {
        if v < min {
            return min;
        }
        let n: u64 = v - step;
        if n < min { min } else if n > max { max } else { n }
    }
}

/// Choosing one of its values chooses that value of a setting, and changes no other choice.
pub proof fn chosen_is_shown(s: Settings, id: SettingId, i: int)
    requires
        0 <= i < id.values().len(),
    ensures
        s.with_choice(id, id.values()[i]).chosen(id) == id.values()[i],
        forall|other: SettingId| other != id ==> #[trigger] s.with_choice(id, id.values()[i]).chosen(other) == s.chosen(other),
{
    reveal_strlit("system");
    reveal_strlit("en");
    reveal_strlit("off");
    reveal_strlit("afterDelay");
    reveal_strlit("onFocusChange");
    reveal_strlit("onWindowChange");
    reveal_strlit("right");
    reveal_strlit("left");
    reveal_strlit("bottom");
    assert("system"@.len() == 6 && "en"@.len() == 2 && "off"@.len() == 3 && "afterDelay"@.len() == 10);
    assert("onFocusChange"@.len() == 13 && "onWindowChange"@.len() == 14);
    assert("right"@.len() == 5 && "left"@.len() == 4 && "bottom"@.len() == 6);
}

/// However often a number is stepped, it stays within its range.
pub proof fn steps_stay_in_range(s: Settings, id: SettingId, up: bool)
    requires
        id.range() is Some,
    ensures
        (id.range()->0).0 <= s.stepped(id, up).number(id) <= (id.range()->0).1,
{
}

/// A setting that was switched is as it was switched, and the others are as they were.
pub proof fn switched_is_shown(s: Settings, id: SettingId, on: bool)
    requires
        id.values().len() == 0,
        id.range() is None,
    ensures
        s.with_switch(id, on).switched_on(id) == on,
        forall|other: SettingId| other != id ==> #[trigger] s.with_switch(id, on).switched_on(other) == s.switched_on(other),
{
}

} // verus!
