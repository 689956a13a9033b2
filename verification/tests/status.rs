use faber::buffer_view::ColorRole;
use faber::file_finder::PreviewPosition;
use faber::http::check_method;
use faber::lsp_status::{LspStatus, ServerState, ServerStatus};
use faber::settings_view::{sections, AutoSave, ControlView, Language, SettingId, Settings};
use faber::status_bar::{
    with_dividers, ActiveDocInfo, BarPart, IndexingStatusItem, LabelPhase, ProgressEvent, StatusBar,
};

const MS: u64 = 1_000_000;

fn settings() -> Settings {
    Settings {
        language: Language::System,
        reopen_last_session: true,
        restore_split_layout: false,
        line_numbers: true,
        auto_save: AutoSave::Off,
        file_finder_preview_position: PreviewPosition::Right,
        auto_save_delay_ms: 1000,
        font_size_milli: 13_500,
        show_scrollbar: true,
        indent_guides: false,
    }
}

fn server(state: ServerState) -> ServerStatus {
    ServerStatus { name: "s".to_string(), state }
}

#[test]
fn items_stand_between_dividers() {
    let mut b: StatusBar<u8> = StatusBar::new();
    b.push_left(1);
    b.push_right(2);
    b.push_left(3);
    assert_eq!((b.left, b.right), (vec![1, 3], vec![2]));
    assert_eq!(with_dividers(0), vec![]);
    assert_eq!(with_dividers(2), vec![BarPart::Item(0), BarPart::Divider, BarPart::Item(1)]);
}

#[test]
fn long_indexing_is_shown_for_a_while() {
    let mut i = IndexingStatusItem::new();
    i.on_status_changed(Some(ProgressEvent::Begin), 0);
    assert!(!i.tick(799 * MS));
    assert!(i.label("scan", "index").is_none());
    assert!(i.tick(800 * MS));
    assert_eq!(i.label("scan", "index").unwrap(), "scan");
    i.on_status_changed(Some(ProgressEvent::End), 900 * MS);
    assert!(!i.tick(1799 * MS));
    assert!(i.visible);
    assert!(i.tick(1800 * MS));
    assert!(!i.visible && i.run_started_at.is_none());
}

#[test]
fn short_indexing_is_not_shown() {
    let mut i = IndexingStatusItem::new();
    i.on_status_changed(Some(ProgressEvent::Begin), 0);
    i.on_status_changed(Some(ProgressEvent::End), 149 * MS);
    assert!(!i.tick(2000 * MS) && !i.visible);
    i.on_status_changed(Some(ProgressEvent::Begin), 3000 * MS);
    i.on_status_changed(Some(ProgressEvent::End), 3150 * MS);
    assert!(i.visible);
    i.on_status_changed(None, 3200 * MS);
    assert!(i.visible);
}

#[test]
fn labels_stay_for_a_while() {
    let mut i = IndexingStatusItem::new();
    let report = |done| Some(ProgressEvent::Report { phase: LabelPhase::Indexing { done, total: 8 } });
    i.on_status_changed(report(1), 0);
    assert_eq!(i.label_phase, LabelPhase::Indexing { done: 1, total: 8 });
    i.on_status_changed(report(2), 499 * MS);
    assert_eq!(i.progress(), (1, 8));
    i.on_status_changed(report(3), 500 * MS);
    assert_eq!(i.progress(), (3, 8));
    i.tick(900 * MS);
    assert_eq!(i.label("scan", "index").unwrap(), "index 3 / 8");
    i.label_phase = LabelPhase::Indexing { done: 9, total: 8 };
    assert_eq!(i.progress(), (8, 8));
    i.label_phase = LabelPhase::Indexing { done: 9, total: 0 };
    assert_eq!(i.progress(), (0, 1));
}

#[test]
fn the_dot_shows_the_server_that_matters_most() {
    let mut s = LspStatus::new();
    assert_eq!(s.dot().color, ColorRole::TextSubtle);
    assert!(s.problem_counts().is_none());
    s.statuses = vec![server(ServerState::Running), server(ServerState::Downloading), server(ServerState::Starting)];
    // Of several that matter alike, the last one.
    assert_eq!((s.dot().color, s.dot().download), (ColorRole::Warning, None));
    s.statuses.pop();
    assert_eq!(s.dot().download, Some(1));
    s.statuses.push(server(ServerState::Error));
    assert_eq!(s.dot().color, ColorRole::Error);
    s.statuses = vec![server(ServerState::Stopped)];
    assert_eq!(s.dot().color, ColorRole::TextSubtle);
    s.statuses = vec![server(ServerState::Running)];
    s.error_count = 12;
    let c = s.problem_counts().unwrap();
    assert_eq!((c.errors.as_str(), c.error_color), ("12", ColorRole::Error));
    assert_eq!((c.warnings.as_str(), c.warning_color), ("0", ColorRole::TextSubtle));
    assert_eq!(s.dot().color, ColorRole::Success);
}

#[test]
fn the_active_document() {
    let mut d = ActiveDocInfo::new();
    assert_eq!(d.language_label("Plain"), "Plain");
    d.cursor = Some((3, 4));
    assert_eq!(d.cursor_shown(), None);
    d.has_editor = true;
    d.language = Some("Rust".to_string());
    assert_eq!(d.cursor_shown(), Some((3, 4)));
    assert_eq!(d.language_label("Plain"), "Rust");
}

#[test]
fn every_setting_has_its_place() {
    let s = sections();
    assert_eq!(s.iter().map(|x| x.entries.len()).collect::<Vec<usize>>(), vec![3, 4, 3]);
    assert_eq!(s[1].title, "settings.section.editor");
    assert_eq!(s[1].entries[3], SettingId::AutoSaveDelay);
    assert_eq!(s[0].entries[0].key(), "settings.language");
}

#[test]
fn choices_can_be_made_once() {
    let mut s = settings();
    match s.control(SettingId::AutoSave) {
        ControlView::Select { choices } => {
            assert_eq!(choices.iter().map(|c| c.value).collect::<Vec<&str>>(), vec!["off", "afterDelay", "onFocusChange", "onWindowChange"]);
            assert!(choices[0].selected && !choices[0].clickable && choices[1].clickable);
        }
        _ => panic!("select"),
    }
    for value in ["afterDelay", "onFocusChange", "onWindowChange", "off", "nonsense"] {
        s.choose_value(SettingId::AutoSave, value);
        match s.control(SettingId::AutoSave) {
            ControlView::Select { choices } => {
                let chosen: Vec<&str> = choices.iter().filter(|c| c.selected).map(|c| c.value).collect();
                assert_eq!(chosen, vec![if value == "nonsense" { "off" } else { value }]);
            }
            _ => panic!("select"),
        }
    }
    s.choose_value(SettingId::Language, "en");
    s.choose_value(SettingId::FinderPreview, "bottom");
    assert_eq!((s.language, s.file_finder_preview_position), (Language::En, PreviewPosition::Bottom));
    s.choose_value(SettingId::FinderPreview, "left");
    assert_eq!(s.file_finder_preview_position, PreviewPosition::Left);
}

#[test]
fn numbers_stay_in_range() {
    let mut s = settings();
    assert!(matches!(s.control(SettingId::FontSize), ControlView::Stepper { label, enabled: true } if label == "13 px"));
    s.step(SettingId::FontSize, true);
    assert_eq!(s.font_size_milli, 14_500);
    for _ in 0..30 {
        s.step(SettingId::FontSize, true);
    }
    assert_eq!(s.font_size_milli, 24_000);
    assert!(matches!(s.control(SettingId::AutoSaveDelay), ControlView::Stepper { label, enabled: false } if label == "1000 ms"));
    s.choose_value(SettingId::AutoSave, "afterDelay");
    assert!(matches!(s.control(SettingId::AutoSaveDelay), ControlView::Stepper { enabled: true, .. }));
    s.auto_save_delay_ms = 3;
    s.step(SettingId::AutoSaveDelay, false);
    assert_eq!(s.auto_save_delay_ms, 250);
    s.auto_save_delay_ms = u64::MAX;
    s.step(SettingId::AutoSaveDelay, true);
    assert_eq!(s.auto_save_delay_ms, 5000);
    s.step(SettingId::Language, true);
    assert_eq!(s.auto_save_delay_ms, 5000);
}

#[test]
fn switches_depend_on_others() {
    let mut s = settings();
    let toggle = |s: &Settings, id| match s.control(id) {
        ControlView::Toggle { on, can_turn_on, can_turn_off } => (on, can_turn_on, can_turn_off),
        _ => panic!("toggle"),
    };
    assert_eq!(toggle(&s, SettingId::RestoreSplitLayout), (false, true, false));
    s.switch(SettingId::ReopenLastSession, false);
    assert_eq!(toggle(&s, SettingId::RestoreSplitLayout), (false, false, false));
    assert!(!s.is_enabled(SettingId::RestoreSplitLayout));
    for id in [SettingId::LineNumbers, SettingId::Scrollbar, SettingId::IndentGuides] {
        s.switch(id, true);
        assert_eq!(toggle(&s, id), (true, false, true));
        s.switch(id, false);
        assert_eq!(toggle(&s, id), (false, true, false));
    }
}

#[test]
fn only_requests_without_a_body_are_sent() {
    assert!(check_method("GET").is_ok() && check_method("HEAD").is_ok());
    assert_eq!(check_method("POST").unwrap_err(), "UreqHttpClient only supports GET/HEAD, got POST");
    assert!(check_method("get").is_err());
}
