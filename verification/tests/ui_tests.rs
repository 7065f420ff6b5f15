use gmtui::components::composer::ComposerComponent;
use gmtui::components::email_view::EmailViewComponent;
use gmtui::components::inbox::{pad_or_trim, InboxComponent};
use gmtui::components::search::SearchComponent;
use gmtui::components::sidebar::{count_unread, SidebarComponent};
use gmtui::components::status_bar::{keycode_label, mode_label, sort_label, SpanStyle, StatusBarComponent};
use gmtui::config::{KeyCode, Keybindings};
use gmtui::gmail::models::{GmailMessage, MailboxCategory};
use gmtui::state::{AppMode, AppState, ComposerField, ComposerState, EmailSummary, SearchState, SortOrder, StatusLevel};
use gmtui::ui::{
    body_pane, centered_rect, confirm_overlay_rect, header_tabs, help_lines, help_overlay_rect,
    help_text, inner_rect, overlay, search_overlay_rect, Overlay, Pane, Rect,
};

fn summary(from: &str, subject: &str, is_read: bool) -> EmailSummary {
    EmailSummary {
        id: "1".to_string(),
        thread_id: "t".to_string(),
        subject: subject.to_string(),
        from: from.to_string(),
        date: 1_700_000_000_000_000_000,
        snippet: String::new(),
        is_read,
        category: MailboxCategory::Primary,
    }
}

fn rect(x: u16, y: u16, width: u16, height: u16) -> Rect {
    Rect { x, y, width, height }
}

#[test]
fn pad_or_trim_pads_and_cuts_by_bytes() {
    assert_eq!(pad_or_trim("abc", 6), "abc   ");
    assert_eq!(pad_or_trim("abcdef", 3), "abc");
    assert_eq!(pad_or_trim("abc", 3), "abc");
    assert_eq!(pad_or_trim("", 2), "  ");
    assert_eq!(pad_or_trim("héllo", 3), "hé");
    assert_eq!(pad_or_trim("é", 4), "é  ");
    assert_eq!(pad_or_trim("héllo", 3).len(), 3);
}

#[test]
fn sort_and_key_labels() {
    assert_eq!(sort_label(SortOrder::DateDesc), "Date ↓");
    assert_eq!(sort_label(SortOrder::DateAsc), "Date ↑");
    assert_eq!(sort_label(SortOrder::SenderAsc), "Sender A→Z");
    assert_eq!(sort_label(SortOrder::SubjectAsc), "Subject A→Z");
    assert_eq!(keycode_label(KeyCode::Char('j')), "j");
    assert_eq!(keycode_label(KeyCode::BackTab), "Shift+Tab");
    assert_eq!(keycode_label(KeyCode::PageDown), "PgDn");
    assert_eq!(keycode_label(KeyCode::Backspace), "Key");
    assert_eq!(mode_label(&AppMode::EmailView), "VIEW");
    assert_eq!(mode_label(&AppMode::Help), "HELP");
}

#[test]
fn status_bar_lists_mode_sort_and_hints() {
    let state = AppState::new();
    let spans = StatusBarComponent::spans(&state, &Keybindings::default());
    let texts: Vec<&str> = spans.iter().map(|s| s.text.as_str()).collect();
    assert_eq!(texts.len(), 29);
    assert_eq!(texts[0], " NORMAL ");
    assert_eq!(spans[0].style, SpanStyle::Mode);
    assert_eq!(texts[2], "Sort: Date ↓");
    assert_eq!(texts[4], "[k] Up");
    assert_eq!(texts[5], " ");
    assert_eq!(texts[6], "[j] Down");
    assert_eq!(texts[8], "[Enter] Open");
    assert_eq!(texts[22], "[Tab] Next Tab");
    assert_eq!(texts[24], "[Shift+Tab] Prev Tab");
    assert_eq!(texts[28], "[?] Help");
}

#[test]
fn status_bar_tail_shows_send_loading_and_message() {
    let mut state = AppState::new();
    state.mode = AppMode::Compose;
    state.is_loading = true;
    state.status_message = Some(("Oops".to_string(), StatusLevel::Warning));
    state.mailbox_states[0].active_sort = SortOrder::SenderAsc;
    let spans = StatusBarComponent::spans(&state, &Keybindings::default());
    let n = spans.len();
    assert_eq!(n, 35);
    assert_eq!(spans[0].text, " COMPOSE ");
    assert_eq!(spans[2].text, "Sort: Sender A→Z");
    assert_eq!(spans[n - 5].text, "[Ctrl+S] Send");
    assert_eq!(spans[n - 3].text, "Loading...");
    assert_eq!(spans[n - 3].style, SpanStyle::Loading);
    assert_eq!(spans[n - 1].text, "Oops");
    assert_eq!(spans[n - 1].style, SpanStyle::Message(StatusLevel::Warning));
}

#[test]
fn help_lists_every_binding() {
    let keys = Keybindings::default();
    let lines = help_lines(&keys);
    assert_eq!(lines.len(), 15);
    assert_eq!(lines[0], "Up: k");
    assert_eq!(lines[4], "Send: Ctrl+S");
    assert_eq!(lines[10], "Next Tab: Tab");
    assert_eq!(lines[14], "Esc: close");
    let text = help_text(&keys);
    assert!(text.starts_with("Up: k\nDown: j\nOpen: Enter\n"));
    assert!(text.ends_with("Help: ?\nEsc: close"));
}

#[test]
fn overlays_are_centred_and_inside_the_screen() {
    let area = rect(0, 0, 100, 40);
    assert_eq!(confirm_overlay_rect(area), rect(25, 17, 50, 5));
    assert_eq!(help_overlay_rect(area), rect(20, 14, 60, 12));
    let small = rect(3, 1, 20, 6);
    assert_eq!(help_overlay_rect(small), rect(5, 2, 16, 4));
    assert_eq!(centered_rect(rect(0, 0, 2, 1), 50, 5), rect(1, 0, 0, 0));
    assert_eq!(search_overlay_rect(area, 12), rect(2, 27, 96, 12));
    assert_eq!(search_overlay_rect(rect(0, 0, 3, 5), 9), rect(2, 0, 0, 9));
    assert_eq!(inner_rect(rect(2, 27, 96, 12)), rect(3, 28, 94, 10));
    assert_eq!(inner_rect(rect(0, 0, 1, 1)), rect(1, 1, 0, 0));
}

#[test]
fn panes_and_overlays_by_mode() {
    assert_eq!(body_pane(&AppMode::Normal), Pane::Inbox);
    assert_eq!(body_pane(&AppMode::Search), Pane::Inbox);
    assert_eq!(body_pane(&AppMode::EmailView), Pane::Message);
    assert_eq!(body_pane(&AppMode::Compose), Pane::Composer);
    assert_eq!(overlay(&AppMode::Normal), None);
    assert_eq!(overlay(&AppMode::Search), Some(Overlay::Search));
    assert_eq!(overlay(&AppMode::Help), Some(Overlay::Help));
}

#[test]
fn header_marks_the_active_tab() {
    let tabs = header_tabs(MailboxCategory::Updates);
    let labels: Vec<&str> = tabs.iter().map(|t| t.label.as_str()).collect();
    assert_eq!(labels, vec![" Primary ", " Social ", " Promos ", " Updates ", " Forums "]);
    let active: Vec<bool> = tabs.iter().map(|t| t.active).collect();
    assert_eq!(active, vec![false, false, false, true, false]);
}

#[test]
fn sidebar_counts_unread_messages() {
    let mut state = AppState::new();
    state.mailbox_states[0].emails = vec![
        summary("a", "x", false),
        summary("b", "y", true),
        summary("c", "z", false),
    ];
    state.mailbox_states[4].emails = vec![summary("d", "w", true)];
    state.active_category = MailboxCategory::Forums;
    let labels = SidebarComponent::labels(&state);
    assert_eq!(labels, vec!["Primary (2)", "Social (0)", "Promos (0)", "Updates (0)", "Forums (0)"]);
    assert_eq!(SidebarComponent::selected(&state), 4);
    assert_eq!(count_unread(&state.mailbox_states[0].emails), 2);
}

#[test]
fn inbox_row_columns() {
    let row = InboxComponent::row(&summary("alice@example.com", "Lunch?", false));
    let mut early = summary("a", "b", false);
    early.date = -1;
    assert_eq!(InboxComponent::row(&early).date, "Dec 31 ");
    assert_eq!(row.marker, "• ");
    assert_eq!(row.date, "Nov 14 ");
    assert_eq!(row.from, "alice@example.com      ");
    assert_eq!(row.from.len(), 23);
    assert_eq!(row.subject.len(), 50);
    assert!(row.subject.starts_with("Lunch?  "));
    assert!(!row.is_read);
    let long = "a-very-long-sender-address@example.com";
    let row = InboxComponent::row_dated(&summary(long, "S", true), "Jan 01");
    assert_eq!(row.marker, "  ");
    assert_eq!(row.date, "Jan 01 ");
    assert_eq!(row.from, "a-very-long-sender-add ");
}

#[test]
fn message_header_and_body() {
    let msg = GmailMessage {
        id: "1".to_string(),
        thread_id: "t".to_string(),
        subject: "Topic".to_string(),
        from: "boss@work.com".to_string(),
        to: "me@work.com".to_string(),
        date: 1_700_000_000_000_000_000,
        snippet: String::new(),
        body: "Body text".to_string(),
        is_read: true,
        labels: vec![],
        category: MailboxCategory::Primary,
    };
    let lines = EmailViewComponent::header_lines(Some(&msg));
    assert_eq!(
        lines,
        vec!["Topic", "From: boss@work.com", "To: me@work.com", "Date: Tue, 14 Nov 2023 22:13:20 +0000"]
    );
    assert_eq!(EmailViewComponent::header_lines(None), vec!["No email selected"]);
    assert_eq!(EmailViewComponent::body_text(Some(&msg)), "Body text");
    assert_eq!(EmailViewComponent::body_text(None), "(no body loaded)");
}

#[test]
fn composer_titles_and_cursor() {
    let mut composer = ComposerState::new();
    assert_eq!(ComposerComponent::field_title(ComposerField::To, composer.active_field), "> To");
    assert_eq!(ComposerComponent::field_title(ComposerField::Body, composer.active_field), "Body");
    composer.to = "ab".to_string();
    composer.cursor_to = 2;
    let to_area = rect(10, 0, 50, 3);
    let subject_area = rect(10, 3, 50, 3);
    let body_area = rect(10, 6, 50, 20);
    assert_eq!(ComposerComponent::cursor_position(&composer, to_area, subject_area, body_area), (13, 1));
    composer.active_field = ComposerField::Body;
    composer.body = "first\nsecond line".to_string();
    composer.cursor_body = 9;
    assert_eq!(ComposerComponent::cursor_position(&composer, to_area, subject_area, body_area), (14, 8));
    composer.cursor_body = 100;
    assert_eq!(ComposerComponent::cursor_position(&composer, to_area, subject_area, body_area), (22, 8));
}

#[test]
fn composer_body_cursor_counts_bytes() {
    let mut composer = ComposerState::new();
    composer.active_field = ComposerField::Body;
    composer.body = "é".to_string();
    composer.cursor_body = 2;
    let area = rect(10, 6, 50, 20);
    assert_eq!(ComposerComponent::cursor_position(&composer, area, area, area), (13, 7));
    composer.body = "aé\nüx".to_string();
    composer.cursor_body = 6;
    assert_eq!(ComposerComponent::try_cursor_position(&composer, area, area, area), Some((13, 8)));
    composer.cursor_body = 2;
    assert_eq!(ComposerComponent::try_cursor_position(&composer, area, area, area), None);
}

#[test]
fn search_input_and_cursor() {
    let mut search = SearchState::default();
    search.query = "abc".to_string();
    search.cursor_pos = 3;
    assert_eq!(SearchComponent::input_text(&search), "/abc");
    assert_eq!(SearchComponent::cursor_position(rect(3, 30, 90, 3), &search), (8, 31));
}
