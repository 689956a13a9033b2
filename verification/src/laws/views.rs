//! What finders, settings, the status bar and the Markdown preview show.
use vstd::prelude::*;

use crate::buffer_view::ColorRole;
use crate::editor_logic;
use crate::file_finder;
use crate::file_finder::{FileFinderView, FinderList, PreviewLoad, PreviewPosition};
use crate::hover_segments;
use crate::http;
use crate::language_picker;
use crate::language_picker::{Language, LanguagePickerView, LanguageRow};
use crate::lsp_status::{LspStatus, ServerState, ServerStatus};
use crate::markdown::{Block, BlockKind, HighlightSpan, InlineRun, ListItem};
use crate::markdown_preview;
use crate::markdown_preview::{BlockView, CodeLine, HeadingMargin, InlinePiece, ItemView, Marker, PieceView};
use crate::paths;
use crate::settings_view::{AutoSave, Choice, ControlView, SettingId, Settings};
use crate::status_bar;
use crate::status_bar::{BarPart, IndexingStatusItem, LabelPhase, ProgressEvent};
use crate::symbol_finder;
use crate::symbol_finder::{SymbolFinderView, SymbolList, SymbolMatch, SymbolRow};
use crate::symbol_overlay;
use crate::text;

verus! {

// ── The file finder ───────────────────────────────────────────────────────────

/// Rows are shown as soon as there are any; without a folder there are none, and without rows the
/// list says why.
pub proof fn finder_says_why_it_is_empty(v: FileFinderView, has_root: bool)
    ensures
        !has_root <==> v.list(has_root) == FinderList::OpenFolder,
        has_root && v.rows@.len() > 0 <==> v.list(has_root) == FinderList::Rows,
        has_root && v.rows@.len() == 0 && v.filtering <==> v.list(has_root) == FinderList::Indexing,
        has_root && v.rows@.len() == 0 && !v.filtering && v.query.text@.len() > 0 <==> v.list(has_root) == FinderList::NoMatches,
        has_root && v.rows@.len() == 0 && !v.filtering && v.query.text@.len() == 0 <==> v.list(has_root) == FinderList::NoHistory,
{
}

/// What is previewed is the file of the selected row.
pub proof fn selected_row_is_the_path(v: FileFinderView, root: Seq<char>)
    ensures
        v.selected < v.rows@.len() ==> v.selected_path(root) == Some(
            paths::joined_path_of(root, v.rows@[v.selected as int].rel_path@),
        ),
        v.selected >= v.rows@.len() ==> v.selected_path(root) is None,
{
}

/// A file is loaded for the preview where it is shown and shows another; what was asked for before
/// is outdated then. The rest of the finder stays.
pub proof fn previews_are_loaded_when_they_change(
    v: FileFinderView,
    after: FileFinderView,
    has_root: bool,
    path: Option<Seq<char>>,
    load: Option<PreviewLoad>,
)
    requires
        v.preview_scheduled(after, has_root, path, load),
        v.preview.epoch < u64::MAX,
    ensures
        !v.preview_on ==> after == v && load is None,
        v.preview_on ==> after.preview.epoch > v.preview.epoch,
        load is Some ==> v.preview_on && has_root && path is Some && load->0.path@ == path->0 && load->0.epoch
            == after.preview.epoch,
        v.preview_on && has_root && path is Some && v.preview.path is None ==> load is Some,
        v.preview_on && has_root && path is Some && v.preview.path is Some && v.preview.path->0@ == path->0 ==> load is None,
        v.preview_on && has_root && path is None ==> after.preview.path is None && load is None,
        v.preview_on && !has_root ==> after.preview.path == v.preview.path && after.preview.content == v.preview.content
            && load is None,
        after.query == v.query && after.rows == v.rows && after.selected == v.selected && after.mask == v.mask,
{
}

/// The last index of a list is one less than its length; of an empty one it is the first.
pub proof fn last_index_of_a_list(n: int)
    requires
        0 <= n,
    ensures
        0 <= file_finder::last_ix(n),
        n > 0 ==> file_finder::last_ix(n) + 1 == n,
        n == 0 ==> file_finder::last_ix(n) == 0,
{
}

/// With the preview shown the window is larger than without. It grows from the smaller size to the
/// larger and back, and the first time it does not grow at all.
pub proof fn window_grows_with_the_preview(toggles: int, position: PreviewPosition)
    ensures
        ({
            let on = file_finder::modal_size_of(true, toggles, position);
            let off = file_finder::modal_size_of(false, toggles, position);
            &&& on.width > off.width && on.body_height >= off.body_height
            &&& toggles == 0 ==> on.from_width == on.width && on.from_body_height == on.body_height
            &&& toggles == 0 ==> off.from_width == off.width && off.from_body_height == off.body_height
            &&& toggles != 0 ==> on.from_width == off.width && on.from_body_height == off.body_height
            &&& toggles != 0 ==> off.from_width == on.width && off.from_body_height == on.body_height
        }),
{
}

/// The preview stands below the list or beside it, and leaves the list its least size.
pub proof fn preview_stands_where_it_is_set(position: PreviewPosition)
    ensures
        file_finder::split_of(position).stacked <==> position == PreviewPosition::Bottom,
        file_finder::split_of(position).preview_first <==> position == PreviewPosition::Left,
        0 < file_finder::split_of(position).list_min < file_finder::split_of(position).list_max,
        position == PreviewPosition::Bottom ==> file_finder::split_of(position).list_max
            < file_finder::modal_size_of(true, 0, position).body_height,
        position != PreviewPosition::Bottom ==> file_finder::split_of(position).list_max
            < file_finder::modal_size_of(true, 0, position).width,
{
}

/// A filter by extension is shown as a star, a dot and the extension.
pub proof fn filters_show_their_extension(ext: Seq<char>)
    ensures
        file_finder::ext_label(ext).len() == ext.len() + 2,
        file_finder::ext_label(ext)[0] == '*' && file_finder::ext_label(ext)[1] == '.',
        file_finder::ext_label(ext).skip(2) == ext,
{
    assert(file_finder::ext_label(ext).skip(2) =~= ext);
}

/// The slashes at the end of a folder are not shown, and nothing else is left out.
pub proof fn slashes_go_from_the_end(s: Seq<char>)
    ensures
        file_finder::without_slashes(s).len() <= s.len(),
        file_finder::without_slashes(s) == s.take(file_finder::without_slashes(s).len() as int),
        file_finder::without_slashes(s).len() > 0 ==> file_finder::without_slashes(s).last() != '/',
        forall|i: int| file_finder::without_slashes(s).len() <= i < s.len() ==> s[i] == '/',
    decreases s.len(),
{
    if s.len() > 0 && s.last() == '/' {
        slashes_go_from_the_end(s.drop_last());
        let r = file_finder::without_slashes(s);
        assert(r =~= s.take(r.len() as int));
        assert forall|i: int| r.len() <= i < s.len() implies s[i] == '/' by {
            if i < s.len() - 1 {
                assert(s[i] == s.drop_last()[i]);
            }
        }
    } else {
        assert(s =~= s.take(s.len() as int));
    }
}

// ── The symbol finder ─────────────────────────────────────────────────────────

/// Each symbol that was found has a row, in its order, that leads to its line; the line is shown
/// counted from one.
pub proof fn symbols_have_a_row_each(found: Seq<SymbolMatch>, rows: Seq<SymbolRow>, i: int)
    requires
        symbol_finder::rows_of(found, rows),
        0 <= i < found.len(),
    ensures
        rows.len() == found.len(),
        rows[i].name@ == found[i].name@,
        rows[i].rel_path@ == found[i].rel_path@,
        rows[i].source_line == found[i].source_line,
        rows[i].positions@ == found[i].positions@,
        rows[i].path_and_line@ == found[i].rel_path@ + seq![':'] + text::decimal((found[i].source_line + 1) as nat),
{
    assert(rows[i].name == found[i].name);
    assert(found[i].rel_path@.push(':') =~= found[i].rel_path@ + seq![':']);
}

/// Without a folder the list says so; without an index, or with a search under way that has found
/// nothing yet, it is indexing; where nothing matches a query it says so.
pub proof fn symbols_say_why_there_are_none(v: SymbolFinderView, has_root: bool, has_index: bool)
    ensures
        !has_root <==> v.list(has_root, has_index) == SymbolList::OpenFolder,
        has_root && !has_index ==> v.list(has_root, has_index) == SymbolList::Indexing,
        has_root && has_index && v.rows@.len() > 0 ==> v.list(has_root, has_index) == SymbolList::Rows,
        has_root && has_index && v.rows@.len() == 0 && v.filtering ==> v.list(has_root, has_index) == SymbolList::Indexing,
        has_root && has_index && v.rows@.len() == 0 && !v.filtering ==> (v.list(has_root, has_index) == SymbolList::NoMatches
            <==> v.query.text@.len() > 0),
{
}

/// A file is indexed under its path in the project, with slashes; one outside under nothing.
pub proof fn index_keys_have_slashes(relative: Option<Seq<char>>, i: int)
    ensures
        relative is None ==> symbol_overlay::index_key(relative).len() == 0,
        relative is Some ==> symbol_overlay::index_key(relative).len() == relative->0.len(),
        relative is Some && 0 <= i < relative->0.len() ==> symbol_overlay::index_key(relative)[i] == if relative->0[i] == '\\' {
            '/'
        } else {
            relative->0[i]
        },
{
}

// ── Languages ─────────────────────────────────────────────────────────────────

/// A language is found by its id, the first with it.
pub proof fn languages_are_found_by_id(languages: Seq<Language>, id: Seq<char>, from: int, k: int)
    requires
        0 <= from <= k <= languages.len(),
        forall|i: int| from <= i < k ==> (#[trigger] languages[i]).id@ != id,
        k < languages.len() ==> languages[k].id@ == id,
    ensures
        language_picker::language_from(languages, id, from) == k,
    decreases k - from,
{
    if from < k {
        languages_are_found_by_id(languages, id, from + 1, k);
    }
}

/// The row under the cursor is selected, and the language of the document is marked as such.
pub proof fn rows_of_languages(v: LanguagePickerView, i: int, row: LanguageRow)
    requires
        v.shows(i, row),
        0 <= i < v.languages@.len(),
    ensures
        row.name@ == v.languages@[i].name@,
        row.selected <==> i == v.cursor,
        row.current <==> v.current_lang_id is Some && v.current_lang_id->0@ == v.languages@[i].id@,
        row.selected <==> row.color == ColorRole::Text,
{
}

// ── The status bar ────────────────────────────────────────────────────────────

/// The parts of the bar are its items in their order, with a divider between each two.
pub proof fn items_have_dividers_between(n: int, i: int)
    requires
        0 < n <= usize::MAX,
        0 <= i < 2 * n - 1,
    ensures
        status_bar::divided(n).len() == 2 * n - 1,
        i % 2 == 0 ==> status_bar::divided(n)[i] == BarPart::Item((i / 2) as usize),
        i % 2 == 1 ==> status_bar::divided(n)[i] == BarPart::Divider,
    decreases n,
{
    if n > 1 {
        if i < 2 * n - 3 {
            items_have_dividers_between(n - 1, i);
        } else {
            items_have_dividers_between(n - 1, 0);
        }
    }
}

/// Time that has passed is not negative, whatever the clock does.
pub proof fn time_passes_forward(a: u64, b: u64)
    ensures
        status_bar::elapsed(a, b) >= 0,
        a <= b ==> a + status_bar::elapsed(a, b) == b,
        b <= a ==> status_bar::elapsed(a, b) == 0,
{
}

/// A run starts with its beginning, or with its first report where that was missed; it ends with
/// its end. What is told does not change whether the item is shown.
pub proof fn runs_begin_and_end(item: IndexingStatusItem, phase: LabelPhase, now: u64)
    ensures
        item.told(Some(ProgressEvent::Begin), now).running(),
        item.told(Some(ProgressEvent::Begin), now).run_started_at == Some(now),
        item.run_started_at is None ==> item.told(Some(ProgressEvent::Report { phase }), now).run_started_at == Some(now),
        item.run_started_at is Some ==> item.told(Some(ProgressEvent::Report { phase }), now).run_started_at == item.run_started_at,
        !item.told(Some(ProgressEvent::End), now).running(),
        item.told(Some(ProgressEvent::End), now).run_ended_at == Some(now),
        item.told(None, now) == item,
        item.told(Some(ProgressEvent::Begin), now).visible == item.visible,
        item.told(Some(ProgressEvent::Report { phase }), now).visible == item.visible,
        item.told(Some(ProgressEvent::End), now).visible == item.visible,
{
}

/// The label changes to what is reported, but never before it has stood for a while.
pub proof fn labels_stand_for_a_while(item: IndexingStatusItem, phase: LabelPhase, now: u64)
    ensures
        ({
            let after = item.told(Some(ProgressEvent::Report { phase }), now);
            &&& item.label_shown_at is None ==> after.label_phase == phase && after.label_shown_at == Some(now)
            &&& after.label_phase == phase || after.label_phase == item.label_phase
            &&& item.label_shown_at is Some && after.label_phase != item.label_phase ==> item.label_shown_at->0
                + status_bar::LABEL_DWELL_NS <= now && after.label_shown_at == Some(now)
            &&& item.label_shown_at is Some && item.label_shown_at->0 + status_bar::LABEL_DWELL_NS <= now ==> after.label_phase
                == phase
        }),
{
}

/// An item that is not shown appears while a run goes on that has gone on for a while, or behind one
/// that took long enough; and it goes once the run is over and it has been seen.
pub proof fn items_come_with_long_runs(item: IndexingStatusItem, now: u64)
    ensures
        item.appears(now) ==> !item.visible && item.run_started_at is Some,
        !item.visible && item.run_started_at is Some && item.run_ended_at is None ==> (item.appears(now) <==> item.run_started_at->0
            + status_bar::APPEAR_DELAY_NS <= now),
        !item.visible && item.run_started_at is Some && item.run_ended_at is Some ==> (item.appears(now)
            <==> item.run_started_at->0 + status_bar::MIN_RUN_TO_SHOW_NS <= item.run_ended_at->0),
        item.visible && !item.running() && item.shown_at is Some && item.shown_at->0 + status_bar::MIN_SHOWN_NS <= now
            ==> !item.at(now).visible && item.at(now).run_started_at is None,
        item.running() && item.visible ==> item.at(now).visible,
        item.at(now).label_phase == item.label_phase,
{
}

/// The label tells how far the indexing is, in numbers.
pub proof fn labels_tell_how_far_it_is(item: IndexingStatusItem, scanning: Seq<char>, indexing: Seq<char>, done: usize, total: usize)
    ensures
        item.label_phase == LabelPhase::Scanning ==> item.text(scanning, indexing) == scanning,
        item.label_phase == (LabelPhase::Indexing { done, total }) ==> item.text(scanning, indexing) == indexing + seq![' ']
            + text::decimal(done as nat) + seq![' ', '/', ' '] + text::decimal(total as nat),
{
    reveal_strlit(" ");
    reveal_strlit(" / ");
    assert(" "@ =~= seq![' ']);
    assert(" / "@ =~= seq![' ', '/', ' ']);
}

/// A server that failed matters more than one that is under way, that more than one that runs, and
/// that more than one that is stopped.
pub proof fn failed_servers_matter_most(s: ServerState)
    ensures
        s != ServerState::Error ==> status_bar::state_rank(s) < status_bar::state_rank(ServerState::Error),
        s != ServerState::Stopped ==> status_bar::state_rank(s) > status_bar::state_rank(ServerState::Stopped),
        s == ServerState::Downloading || s == ServerState::Starting || s == ServerState::Initializing || s
            == ServerState::Restarting ==> status_bar::state_rank(s) > status_bar::state_rank(ServerState::Running),
        s == ServerState::Error <==> status_bar::state_color(s) == ColorRole::Error,
        s == ServerState::Running <==> status_bar::state_color(s) == ColorRole::Success,
        s == ServerState::Stopped <==> status_bar::state_color(s) == ColorRole::TextSubtle,
{
}

/// Where any server has failed, the one that matters most has.
pub proof fn failures_are_not_hidden(statuses: Seq<ServerStatus>, i: int, j: int)
    requires
        status_bar::matters_most(statuses, i),
        0 <= j < statuses.len(),
        statuses[j].state == ServerState::Error,
    ensures
        statuses[i].state == ServerState::Error,
        j <= i,
{
    failed_servers_matter_most(statuses[i].state);
    assert(status_bar::state_rank(statuses[j].state) <= status_bar::state_rank(statuses[i].state));
    if i < j {
        assert(status_bar::state_rank(statuses[j].state) < status_bar::state_rank(statuses[i].state));
    }
}

// ── Settings ──────────────────────────────────────────────────────────────────

/// A step changes a number by its step, up or down, but never beyond its limits, and changes no
/// other setting.
pub proof fn steps_change_one_number(s: Settings)
    ensures
        250 <= s.auto_save_delay_ms && s.auto_save_delay_ms + 250 <= 5000 ==> s.stepped(SettingId::AutoSaveDelay, true)
            == (Settings { auto_save_delay_ms: (s.auto_save_delay_ms + 250) as u64, ..s }),
        500 <= s.auto_save_delay_ms <= 5000 ==> s.stepped(SettingId::AutoSaveDelay, false) == (Settings {
            auto_save_delay_ms: (s.auto_save_delay_ms - 250) as u64,
            ..s
        }),
        s.auto_save_delay_ms == 5000 ==> s.stepped(SettingId::AutoSaveDelay, true) == s,
        s.auto_save_delay_ms == 250 ==> s.stepped(SettingId::AutoSaveDelay, false) == s,
        10_000 <= s.font_size_milli && s.font_size_milli + 1000 <= 24_000 ==> s.stepped(SettingId::FontSize, true) == (Settings {
            font_size_milli: (s.font_size_milli + 1000) as u64,
            ..s
        }),
        11_000 <= s.font_size_milli <= 24_000 ==> s.stepped(SettingId::FontSize, false) == (Settings {
            font_size_milli: (s.font_size_milli - 1000) as u64,
            ..s
        }),
        s.font_size_milli == 24_000 ==> s.stepped(SettingId::FontSize, true) == s,
        s.font_size_milli == 10_000 ==> s.stepped(SettingId::FontSize, false) == s,
{
}

/// The split layout can be restored only where the last session is reopened, and the delay counts
/// only where saving is delayed; every other setting is always open to change.
pub proof fn settings_depend_on_each_other(s: Settings, id: SettingId)
    ensures
        s.enabled(SettingId::RestoreSplitLayout) <==> s.reopen_last_session,
        s.enabled(SettingId::AutoSaveDelay) <==> s.auto_save == AutoSave::AfterDelay,
        id != SettingId::RestoreSplitLayout && id != SettingId::AutoSaveDelay ==> s.enabled(id),
{
}

/// A switch changes the setting that it is for and no other.
pub proof fn switches_change_one_setting(s: Settings, on: bool)
    ensures
        s.with_switch(SettingId::LineNumbers, on) == (Settings { line_numbers: on, ..s }),
        s.with_switch(SettingId::ReopenLastSession, on) == (Settings { reopen_last_session: on, ..s }),
        s.with_switch(SettingId::RestoreSplitLayout, on) == (Settings { restore_split_layout: on, ..s }),
        s.with_switch(SettingId::Scrollbar, on) == (Settings { show_scrollbar: on, ..s }),
        s.with_switch(SettingId::IndentGuides, on) == (Settings { indent_guides: on, ..s }),
{
}

/// What a choice is called is what it sets.
pub proof fn choices_set_what_they_say(s: Settings)
    ensures
        s.with_choice(SettingId::AutoSave, "off"@).auto_save == AutoSave::Off,
        s.with_choice(SettingId::AutoSave, "afterDelay"@).auto_save == AutoSave::AfterDelay,
        s.with_choice(SettingId::AutoSave, "onFocusChange"@).auto_save == AutoSave::OnFocusChange,
        s.with_choice(SettingId::AutoSave, "onWindowChange"@).auto_save == AutoSave::OnWindowChange,
        s.with_choice(SettingId::FinderPreview, "right"@).file_finder_preview_position == PreviewPosition::Right,
        s.with_choice(SettingId::FinderPreview, "left"@).file_finder_preview_position == PreviewPosition::Left,
        s.with_choice(SettingId::FinderPreview, "bottom"@).file_finder_preview_position == PreviewPosition::Bottom,
{
    reveal_strlit("off");
    reveal_strlit("afterDelay");
    reveal_strlit("onFocusChange");
    reveal_strlit("onWindowChange");
    reveal_strlit("right");
    reveal_strlit("left");
    reveal_strlit("bottom");
    assert("off"@.len() == 3 && "afterDelay"@.len() == 10 && "onFocusChange"@.len() == 13 && "onWindowChange"@.len() == 14);
    assert("right"@.len() == 5 && "left"@.len() == 4 && "bottom"@.len() == 6);
}

// ── The Markdown preview ──────────────────────────────────────────────────────

/// What a piece of inline text reads in the preview: a soft break is a space.
pub open spec fn read_as(x: InlineRun) -> Seq<char> {
    match x {
        InlineRun::Text { text, .. } => text@,
        InlineRun::SoftBreak => seq![' '],
        _ => Seq::empty(),
    }
}

/// One more piece of a line adds what it reads, and one run for it; the rest of the line stays. A
/// link to the web leads from just that text.
pub proof fn lines_read_piece_by_piece(xs: Seq<InlineRun>, n: int)
    requires
        0 < n <= xs.len(),
        text::byte_count(read_as(xs[n - 1])) <= usize::MAX,
    ensures
        ({
            let a = markdown_preview::styled(xs, n - 1);
            let b = markdown_preview::styled(xs, n);
            let t = read_as(xs[n - 1]);
            &&& b.text == a.text + t
            &&& t.len() == 0 ==> b.runs == a.runs && b.links == a.links
            &&& t.len() > 0 ==> b.runs.len() == a.runs.len() + 1 && b.runs.drop_last() == a.runs && b.runs.last().len
                == text::byte_count(t)
            &&& xs[n - 1] is SoftBreak ==> b.links == a.links && b.runs.last().color == ColorRole::Text
            &&& xs[n - 1] matches InlineRun::Text { text, style, link } ==> text@.len() > 0 ==> {
                &&& b.runs.last().font.mono == style.code && b.runs.last().font.bold == style.bold
                &&& b.runs.last().font.italic == style.italic
                &&& b.runs.last().strikethrough is Some <==> style.strike
                &&& b.runs.last().background is Some <==> style.code
                &&& b.runs.last().color == if link is Some { ColorRole::Accent } else { ColorRole::Text }
                &&& b.runs.last().underline is Some <==> link is Some
                &&& link is Some && ("http://"@.is_prefix_of(link->0@) || "https://"@.is_prefix_of(link->0@)) ==> b.links
                    == a.links.push((a.text.len() as int, b.text.len() as int, link->0@))
                &&& !(link is Some && ("http://"@.is_prefix_of(link->0@) || "https://"@.is_prefix_of(link->0@))) ==> b.links
                    == a.links
            }
        }),
{
    let a = markdown_preview::styled(xs, n - 1);
    let b = markdown_preview::styled(xs, n);
    let t = read_as(xs[n - 1]);
    assert(b == markdown_preview::with_inline(a, xs[n - 1]));
    assert(a.text + t =~= b.text) by {
        if t.len() == 0 {
            assert(t =~= Seq::<char>::empty());
        }
    }
    if t.len() > 0 {
        assert(b.runs.drop_last() =~= a.runs);
    }
    if xs[n - 1] is SoftBreak {
        text::bytes_of_char(' ');
        assert(t =~= seq![' ']);
    }
}

/// Headings get smaller from one level to the next, and only the upper two have a line below them.
pub proof fn headings_get_smaller(level: u8)
    requires
        1 <= level < 6,
    ensures
        markdown_preview::heading_size(level) > markdown_preview::heading_size((level + 1) as u8),
        markdown_preview::heading_size(4) == 100,
        markdown_preview::heading_margin(level, 0) == HeadingMargin::Nothing,
        level <= 2 ==> markdown_preview::heading_margin(level, 1) == HeadingMargin::Wide,
        level > 2 ==> markdown_preview::heading_margin(level, 1) == HeadingMargin::Narrow,
{
}

/// A heading of the first two levels is ruled; the others are not.
pub proof fn upper_headings_are_ruled(block: Block, ix: int, base: Seq<char>, v: BlockView, level: u8, inlines: Vec<InlineRun>)
    requires
        markdown_preview::shows_block(block, ix, base, v),
        block.kind == (BlockKind::Heading { level, inlines }),
    ensures
        v is Heading,
        v->ruled <==> level <= 2,
        ix == 0 <==> v->margin == HeadingMargin::Nothing,
        v->title@.len() == editor_logic::hard_lines(inlines@).len(),
{
}

/// A line without images is one piece of text; an image stands by itself, and what is around it
/// becomes text before and behind it.
pub proof fn lines_without_images_are_text(xs: Seq<InlineRun>, base: Seq<char>)
    requires
        forall|i: int| 0 <= i < xs.len() ==> !((#[trigger] xs[i]) is Image),
    ensures
        markdown_preview::line_pieces(xs, base).len() == 1,
        markdown_preview::line_pieces(xs, base)[0] == (PieceView::Text {
            line: markdown_preview::styled(xs, xs.len() as int),
            part: None,
        }),
{
}

/// An image from the web is shown by its description, or as an image without one; any other is
/// looked for in the folder of the document.
pub proof fn images_are_shown_or_named(alt: Seq<char>, dest: Seq<char>, base: Seq<char>)
    ensures
        ({
            let web = "http://"@.is_prefix_of(dest) || "https://"@.is_prefix_of(dest);
            let p = markdown_preview::image_piece(alt, dest, base);
            &&& web && alt.len() > 0 ==> p == (PieceView::Label { label: alt })
            &&& web && alt.len() == 0 ==> p == (PieceView::Label { label: "[image]"@ })
            &&& !web ==> p == (PieceView::Picture { path: paths::joined_path_of(base, dest) })
        }),
{
}

/// A line that is one image is one piece.
pub proof fn image_alone_is_one_piece(alt: String, dest: String, link: Option<String>, base: Seq<char>)
    ensures
        markdown_preview::line_pieces(seq![InlineRun::Image { alt, dest, link }], base) == seq![
            markdown_preview::image_piece(alt@, dest@, base),
        ],
{
    let xs = seq![InlineRun::Image { alt, dest, link }];
    assert(xs[0] is Image);
    assert(markdown_preview::has_image(xs, 1));
    reveal_with_fuel(markdown_preview::pieces_up_to, 2);
    assert(markdown_preview::line_pieces(xs, base) =~= seq![markdown_preview::image_piece(alt@, dest@, base)]);
}

/// An image between two texts stands between them, and the texts are counted.
pub proof fn image_parts_a_line(
    a: InlineRun,
    alt: String,
    dest: String,
    link: Option<String>,
    b: InlineRun,
    base: Seq<char>,
)
    requires
        a is Text && b is Text,
    ensures
        markdown_preview::line_pieces(seq![a, InlineRun::Image { alt, dest, link }, b], base) == seq![
            PieceView::Text { line: markdown_preview::styled(seq![a], 1), part: Some(0usize) },
            markdown_preview::image_piece(alt@, dest@, base),
            PieceView::Text { line: markdown_preview::styled(seq![b], 1), part: Some(1usize) },
        ],
{
    let xs = seq![a, InlineRun::Image { alt, dest, link }, b];
    assert(xs[1] is Image);
    assert(markdown_preview::has_image(xs, 3));
    reveal_with_fuel(markdown_preview::pieces_up_to, 4);
    let none = Seq::<InlineRun>::empty();
    assert(none.push(a) =~= seq![a]);
    assert(none.push(b) =~= seq![b]);
    let one = markdown_preview::pieces_up_to(xs, base, 1);
    assert(one.pending =~= seq![a]);
    let two = markdown_preview::pieces_up_to(xs, base, 2);
    assert(two.pending =~= none);
    let three = markdown_preview::pieces_up_to(xs, base, 3);
    assert(three.pending =~= seq![b]);
    assert(markdown_preview::line_pieces(xs, base) =~= seq![
        PieceView::Text { line: markdown_preview::styled(seq![a], 1), part: Some(0usize) },
        markdown_preview::image_piece(alt@, dest@, base),
        PieceView::Text { line: markdown_preview::styled(seq![b], 1), part: Some(1usize) },
    ]);
}

/// Hard breaks part the text into lines; each line is shown by itself.
pub proof fn hard_breaks_part_lines(xs: Seq<InlineRun>, base: Seq<char>, lines: Seq<Vec<InlinePiece>>, i: int)
    requires
        markdown_preview::shows_lines(xs, base, lines),
        0 <= i < lines.len(),
    ensures
        lines.len() == editor_logic::hard_lines(xs).len(),
        markdown_preview::piece_views(lines[i]@) == markdown_preview::line_pieces(editor_logic::hard_lines(xs)[i], base),
{
}

/// One hard break behind some text starts a new line: the lines before it stay as they are.
pub proof fn hard_break_starts_a_line(xs: Seq<InlineRun>, x: InlineRun)
    requires
        !(x is HardBreak),
    ensures
        editor_logic::hard_lines(xs.push(InlineRun::HardBreak)) == editor_logic::hard_lines(xs).push(Seq::empty()),
        editor_logic::hard_lines(xs.push(x)).len() == editor_logic::hard_lines(xs).len(),
        editor_logic::hard_lines(xs.push(x)).last() == editor_logic::hard_lines(xs).last().push(x),
{
    assert(xs.push(InlineRun::HardBreak).drop_last() =~= xs);
    assert(xs.push(x).drop_last() =~= xs);
    editor_logic::hard_lines_rejoin(xs);
}

/// What stands before an item: a box for a task, and otherwise its number, which counts up from the
/// first, or a bullet.
pub proof fn preview_items_have_their_marker(m: Marker, task: Option<bool>, ordered: bool, start: u64, i: int)
    requires
        markdown_preview::marks(m, task, ordered, start, i),
        0 <= i,
        start + i <= u64::MAX,
    ensures
        task is Some ==> m is Task && m->done == task->0,
        task is None && !ordered ==> m is Bullet,
        task is None && ordered ==> m is Number && m->label@ == text::decimal((start + i) as nat) + seq!['.'],
{
    if task is None && ordered {
        assert(text::decimal((start + i) as nat).push('.') =~= text::decimal((start + i) as nat) + seq!['.']);
    }
}

/// Code is shown line by line, as it is; without spans it is set plainly.
pub proof fn preview_keeps_code_lines(source: Seq<char>, highlights: Seq<Vec<HighlightSpan>>, code: Seq<CodeLine>, i: int)
    requires
        markdown_preview::shows_code(source, highlights, code),
        0 <= i < text::lines(source).len(),
    ensures
        code.len() == text::lines(source).len(),
        code[i].text@ == text::lines(source)[i],
        i >= highlights.len() ==> code[i].runs@.len() == 0,
        i < highlights.len() && highlights[i]@.len() > 0 ==> code[i].runs@ == hover_segments::code_runs(
            highlights[i]@,
            text::byte_count(text::lines(source)[i]),
        ),
{
    assert(code[i].text@ == text::lines(source)[i]);
}

/// The items and blocks of the preview are those of the document, one for one.
pub proof fn preview_shows_every_block(blocks: Seq<Block>, base: Seq<char>, vs: Seq<BlockView>, i: int)
    requires
        markdown_preview::shows_blocks(blocks, base, vs),
        0 <= i < blocks.len(),
    ensures
        vs.len() == blocks.len(),
        blocks[i].kind is Heading <==> vs[i] is Heading,
        blocks[i].kind is Paragraph <==> vs[i] is Paragraph,
        blocks[i].kind is CodeBlock <==> vs[i] is Code,
        blocks[i].kind is Blockquote <==> vs[i] is Quote,
        blocks[i].kind is List <==> vs[i] is List,
        blocks[i].kind is Table <==> vs[i] is Table,
        blocks[i].kind is Rule <==> vs[i] is Rule,
        blocks[i].kind is HtmlBlock <==> vs[i] is Html,
{
    assert(markdown_preview::shows_block(blocks[i], i, base, vs[i]));
}

/// The preview is scrolled to the last block that starts at or above a line; above the first block,
/// to the first.
pub proof fn preview_scrolls_to_the_block(blocks: Seq<Block>, line: int, ix: int)
    requires
        markdown_preview::block_at_line(blocks, line, ix),
        blocks.len() > 0,
    ensures
        0 <= ix < blocks.len(),
        blocks[0].first_line > line ==> ix == 0,
        blocks[0].first_line <= line ==> blocks[ix].first_line <= line,
        blocks[0].first_line <= line && ix + 1 < blocks.len() ==> blocks[ix + 1].first_line > line,
{
}

// ── Requests ──────────────────────────────────────────────────────────────────

/// Only what is read or asked about has no body.
pub proof fn reading_has_no_body(method: Seq<char>)
    ensures
        http::bodyless(method) <==> method == "GET"@ || method == "HEAD"@,
{
}

/// What is offered is marked where it is what is set, and can be chosen where it is not, as long as
/// the setting is open to change.
pub proof fn choices_mark_what_is_set(s: Settings, id: SettingId, choices: Seq<Choice>, i: int)
    requires
        s.shows_choices(id, choices),
        0 <= i < choices.len(),
    ensures
        choices.len() == id.values().len(),
        choices[i].value@ == id.values()[i],
        choices[i].selected <==> id.values()[i] == s.chosen(id),
        choices[i].clickable <==> s.enabled(id) && id.values()[i] != s.chosen(id),
{
    assert(choices[i].value@ == id.values()[i]);
}

/// What is chosen of a setting is what it is set to.
pub proof fn chosen_is_what_is_set(s: Settings)
    ensures
        s.auto_save == AutoSave::Off <==> s.chosen(SettingId::AutoSave) == "off"@,
        s.auto_save == AutoSave::AfterDelay <==> s.chosen(SettingId::AutoSave) == "afterDelay"@,
        s.auto_save == AutoSave::OnFocusChange <==> s.chosen(SettingId::AutoSave) == "onFocusChange"@,
        s.auto_save == AutoSave::OnWindowChange <==> s.chosen(SettingId::AutoSave) == "onWindowChange"@,
        s.file_finder_preview_position == PreviewPosition::Right <==> s.chosen(SettingId::FinderPreview) == "right"@,
        s.file_finder_preview_position == PreviewPosition::Left <==> s.chosen(SettingId::FinderPreview) == "left"@,
        s.file_finder_preview_position == PreviewPosition::Bottom <==> s.chosen(SettingId::FinderPreview) == "bottom"@,
        s.switched_on(SettingId::LineNumbers) == s.line_numbers,
        s.switched_on(SettingId::ReopenLastSession) == s.reopen_last_session,
        s.switched_on(SettingId::RestoreSplitLayout) == s.restore_split_layout,
        s.switched_on(SettingId::Scrollbar) == s.show_scrollbar,
        s.switched_on(SettingId::IndentGuides) == s.indent_guides,
{
    reveal_strlit("off");
    reveal_strlit("afterDelay");
    reveal_strlit("onFocusChange");
    reveal_strlit("onWindowChange");
    reveal_strlit("right");
    reveal_strlit("left");
    reveal_strlit("bottom");
    assert("off"@.len() == 3 && "afterDelay"@.len() == 10 && "onFocusChange"@.len() == 13 && "onWindowChange"@.len() == 14);
    assert("right"@.len() == 5 && "left"@.len() == 4 && "bottom"@.len() == 6);
}

/// A number is shown with its unit, and can be changed where that is open; a switch can be turned
/// to where it is not.
pub proof fn controls_show_what_is_set(s: Settings, v: ControlView)
    ensures
        s.shows_control(SettingId::AutoSaveDelay, v) ==> v is Stepper && v->label@ == text::decimal(s.auto_save_delay_ms as nat)
            + " ms"@ && (v->enabled <==> s.auto_save == AutoSave::AfterDelay),
        s.shows_control(SettingId::FontSize, v) ==> v is Stepper && v->label@ == text::decimal(
            (s.font_size_milli / 1000) as nat,
        ) + " px"@ && v->enabled,
        s.shows_control(SettingId::LineNumbers, v) ==> v is Toggle && v->on == s.line_numbers && v->can_turn_on
            != s.line_numbers && v->can_turn_off == s.line_numbers,
        s.shows_control(SettingId::RestoreSplitLayout, v) ==> v is Toggle && v->on == s.restore_split_layout && (v->can_turn_on
            <==> s.reopen_last_session && !s.restore_split_layout) && (v->can_turn_off <==> s.reopen_last_session
            && s.restore_split_layout),
        s.shows_control(SettingId::Language, v) ==> v is Select,
        s.shows_control(SettingId::AutoSave, v) ==> v is Select,
        s.shows_control(SettingId::FinderPreview, v) ==> v is Select,
{
}

/// A server runs where any of them does.
pub proof fn one_running_server_is_enough(l: LspStatus, i: int)
    requires
        0 <= i < l.statuses@.len(),
    ensures
        l.statuses@[i].state == ServerState::Running ==> l.any_running(),
        (forall|k: int| 0 <= k < l.statuses@.len() ==> (#[trigger] l.statuses@[k]).state != ServerState::Running)
            ==> !l.any_running(),
{
}

/// Every item of a list is shown with its marker and its blocks, and every cell of a table by its
/// lines.
pub proof fn preview_shows_every_item_and_cell(
    ordered: bool,
    start: u64,
    items: Seq<ListItem>,
    vs: Seq<ItemView>,
    cells: Seq<Vec<InlineRun>>,
    shown: Seq<Vec<Vec<InlinePiece>>>,
    base: Seq<char>,
    i: int,
)
    ensures
        markdown_preview::shows_items(ordered, start, items, base, vs) && 0 <= i < items.len() ==> vs.len() == items.len()
            && markdown_preview::marks(vs[i].marker, items[i].task, ordered, start, i) && vs[i].blocks@.len()
            == items[i].blocks@.len(),
        markdown_preview::shows_cells(cells, base, shown) && 0 <= i < cells.len() ==> shown.len() == cells.len()
            && shown[i]@.len() == editor_logic::hard_lines(cells[i]@).len(),
{
    if markdown_preview::shows_items(ordered, start, items, base, vs) && 0 <= i < items.len() {
        assert(markdown_preview::marks(vs[i].marker, items[i].task, ordered, start, i));
        assert(markdown_preview::shows_blocks(items[i].blocks@, base, vs[i].blocks@));
    }
    if markdown_preview::shows_cells(cells, base, shown) && 0 <= i < cells.len() {
        assert(markdown_preview::shows_lines(cells[i]@, base, shown[i]@));
    }
}

} // verus!
