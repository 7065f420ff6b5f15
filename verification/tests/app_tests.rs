use gmtui::app::{build_mime_message, App, AppEvent, Command, InputEvent};
use gmtui::config::{Config, KeyCode, KeyEvent, KeyEventKind, KeyModifiers};
use gmtui::gmail::models::{GmailMessage, MailboxCategory};
use gmtui::state::{AppMode, ComposerField, ComposerState, ConfirmAction, EmailSummary, SortOrder, StatusLevel};

fn key(code: KeyCode) -> KeyEvent {
    KeyEvent { code, modifiers: KeyModifiers { control: false, alt: false, shift: false }, kind: KeyEventKind::Press }
}

fn ctrl(c: char) -> KeyEvent {
    KeyEvent {
        code: KeyCode::Char(c),
        modifiers: KeyModifiers { control: true, alt: false, shift: false },
        kind: KeyEventKind::Press,
    }
}

fn summary(id: &str, from: &str, subject: &str, date: i128) -> EmailSummary {
    EmailSummary {
        id: id.to_string(),
        thread_id: format!("t{id}"),
        subject: subject.to_string(),
        from: from.to_string(),
        date,
        snippet: String::new(),
        is_read: false,
        category: MailboxCategory::Primary,
    }
}

fn message(id: &str) -> GmailMessage {
    GmailMessage {
        id: id.to_string(),
        thread_id: "t".to_string(),
        subject: "Topic".to_string(),
        from: "boss@work.com".to_string(),
        to: "me@work.com".to_string(),
        date: 1_700_000_000_000_000_000,
        snippet: String::new(),
        body: "line one\nline two".to_string(),
        is_read: false,
        labels: vec![],
        category: MailboxCategory::Primary,
    }
}

/// An app whose Primary listing holds three messages, with the clock at 1 s.
fn loaded_app() -> App {
    let mut app = App::new(Config::default(), 1_000);
    let emails = vec![
        summary("a", "carol", "third", 10),
        summary("b", "alice", "first", 30),
        summary("c", "bob", "second", 20),
    ];
    let cmds = app.handle_app_event(
        AppEvent::EmailsLoaded { category: MailboxCategory::Primary, emails, next_page_token: None, append: false },
        1_000,
    );
    assert_eq!(cmds.len(), 3);
    app
}

/// Sends a key 100 ms after the previous one.
fn press(app: &mut App, now: &mut u64, k: KeyEvent) -> (bool, Vec<Command>) {
    *now += 100;
    app.handle_event(InputEvent::Key(k), *now)
}

#[test]
fn loaded_listing_is_sorted_newest_first_and_selected() {
    let app = loaded_app();
    let ids: Vec<&str> = app.state.mailbox_states[0].emails.iter().map(|e| e.id.as_str()).collect();
    assert_eq!(ids, vec!["b", "c", "a"]);
    assert_eq!(app.state.mailbox_states[0].list_state.selected(), Some(0));
    assert_eq!(app.state.mailbox_states[0].last_fetched, Some(1_000));
    assert!(!app.state.is_loading);
    assert_eq!(app.state.status_message, Some(("Mailbox updated".to_string(), StatusLevel::Info)));
}

#[test]
fn metadata_fetches_are_spaced_after_the_first_ten() {
    let mut app = App::new(Config::default(), 1_000);
    let emails: Vec<EmailSummary> = (0..12).map(|i| summary(&i.to_string(), "x", "y", 0)).collect();
    let cmds = app.handle_app_event(
        AppEvent::EmailsLoaded { category: MailboxCategory::Primary, emails, next_page_token: None, append: false },
        1_000,
    );
    let delays: Vec<u64> = cmds
        .iter()
        .map(|c| match c {
            Command::FetchMetadata { delay_ms, .. } => *delay_ms,
            _ => panic!("unexpected command"),
        })
        .collect();
    assert_eq!(delays, vec![0, 0, 0, 0, 0, 0, 0, 0, 0, 0, 150, 300]);
}

#[test]
fn selection_moves_and_stops_at_the_ends() {
    let mut app = loaded_app();
    let mut now = 1_000;
    press(&mut app, &mut now, key(KeyCode::Char('j')));
    press(&mut app, &mut now, key(KeyCode::Down));
    press(&mut app, &mut now, key(KeyCode::Down));
    assert_eq!(app.state.mailbox_states[0].list_state.selected(), Some(2));
    press(&mut app, &mut now, key(KeyCode::Up));
    press(&mut app, &mut now, key(KeyCode::Char('k')));
    press(&mut app, &mut now, key(KeyCode::Char('k')));
    assert_eq!(app.state.mailbox_states[0].list_state.selected(), Some(0));
}

#[test]
fn keys_within_ten_ms_are_throttled() {
    let mut app = loaded_app();
    app.handle_event(InputEvent::Key(key(KeyCode::Down)), 2_000);
    let (running, cmds) = app.handle_event(InputEvent::Key(key(KeyCode::Down)), 2_005);
    assert!(running);
    assert!(cmds.is_empty());
    assert_eq!(app.state.mailbox_states[0].list_state.selected(), Some(1));
    app.handle_event(InputEvent::Key(key(KeyCode::Down)), 2_010);
    assert_eq!(app.state.mailbox_states[0].list_state.selected(), Some(2));
}

#[test]
fn quit_key_stops_the_loop() {
    let mut app = loaded_app();
    let mut now = 1_000;
    let (running, cmds) = press(&mut app, &mut now, key(KeyCode::Char('q')));
    assert!(!running);
    assert!(cmds.is_empty());
}

#[test]
fn open_key_requests_the_selected_message() {
    let mut app = loaded_app();
    let mut now = 1_000;
    press(&mut app, &mut now, key(KeyCode::Down));
    let (_, cmds) = press(&mut app, &mut now, key(KeyCode::Enter));
    match &cmds[..] {
        [Command::OpenEmail { id }] => assert_eq!(id, "c"),
        other => panic!("unexpected {:?}", other),
    }
    assert!(app.state.is_loading);
    app.handle_app_event(AppEvent::EmailLoaded { message: message("c") }, now);
    assert!(matches!(app.state.mode, AppMode::EmailView));
    assert!(app.state.mailbox_states[0].emails[1].is_read);
    assert!(!app.state.mailbox_states[0].emails[0].is_read);
    assert_eq!(app.state.email_view.scroll, 0);
}

#[test]
fn sort_key_cycles_through_the_orders() {
    let mut app = loaded_app();
    let mut now = 1_000;
    press(&mut app, &mut now, key(KeyCode::Char('s')));
    assert_eq!(app.state.mailbox_states[0].active_sort, SortOrder::DateAsc);
    let ids: Vec<&str> = app.state.mailbox_states[0].emails.iter().map(|e| e.id.as_str()).collect();
    assert_eq!(ids, vec!["a", "c", "b"]);
    press(&mut app, &mut now, key(KeyCode::Char('s')));
    assert_eq!(app.state.mailbox_states[0].active_sort, SortOrder::SenderAsc);
    assert_eq!(app.state.mailbox_states[0].emails[0].from, "alice");
    press(&mut app, &mut now, key(KeyCode::Char('s')));
    assert_eq!(app.state.mailbox_states[0].active_sort, SortOrder::SubjectAsc);
    press(&mut app, &mut now, key(KeyCode::Char('s')));
    assert_eq!(app.state.mailbox_states[0].active_sort, SortOrder::DateDesc);
}

#[test]
fn tabs_cycle_and_fetch_uncached_listings() {
    let mut app = loaded_app();
    let mut now = 1_000;
    let (_, cmds) = press(&mut app, &mut now, key(KeyCode::Tab));
    assert_eq!(app.state.active_category, MailboxCategory::Social);
    match &cmds[..] {
        [Command::ListMessages { category, page_token, max_results, append }] => {
            assert_eq!(*category, MailboxCategory::Social);
            assert!(page_token.is_none());
            assert_eq!(*max_results, 20);
            assert!(!append);
        },
        other => panic!("unexpected {:?}", other),
    }
    let (_, cmds) = press(&mut app, &mut now, key(KeyCode::BackTab));
    assert_eq!(app.state.active_category, MailboxCategory::Primary);
    assert!(cmds.is_empty());
    assert_eq!(app.state.status_message, Some(("Using cached mailbox".to_string(), StatusLevel::Info)));
    press(&mut app, &mut now, key(KeyCode::BackTab));
    assert_eq!(app.state.active_category, MailboxCategory::Forums);
}

#[test]
fn refresh_key_forces_a_fetch() {
    let mut app = loaded_app();
    let mut now = 1_000;
    let (_, cmds) = press(&mut app, &mut now, key(KeyCode::Char('R')));
    assert_eq!(cmds.len(), 1);
    assert!(app.state.is_loading);
}

#[test]
fn load_more_without_next_page_does_nothing() {
    let mut app = loaded_app();
    let mut now = 1_000;
    let status = app.state.status_message.clone();
    let (_, cmds) = press(&mut app, &mut now, key(KeyCode::Char('L')));
    assert!(cmds.is_empty());
    assert!(!app.state.is_loading);
    assert_eq!(app.state.status_message, status);
}

#[test]
fn load_more_appends_the_next_page() {
    let mut app = App::new(Config::default(), 1_000);
    app.handle_app_event(
        AppEvent::EmailsLoaded {
            category: MailboxCategory::Primary,
            emails: vec![summary("a", "x", "one", 10)],
            next_page_token: Some("page2".to_string()),
            append: false,
        },
        1_000,
    );
    let mut now = 1_000;
    let (_, cmds) = press(&mut app, &mut now, key(KeyCode::Char('L')));
    match &cmds[..] {
        [Command::ListMessages { category, page_token, max_results, append }] => {
            assert_eq!(*category, MailboxCategory::Primary);
            assert_eq!(page_token.as_deref(), Some("page2"));
            assert_eq!(*max_results, 20);
            assert!(*append);
        },
        other => panic!("unexpected {:?}", other),
    }
    assert!(app.state.is_loading);
    app.handle_app_event(
        AppEvent::EmailsLoaded {
            category: MailboxCategory::Primary,
            emails: vec![summary("b", "y", "two", 20)],
            next_page_token: None,
            append: true,
        },
        now,
    );
    let ids: Vec<&str> = app.state.mailbox_states[0].emails.iter().map(|e| e.id.as_str()).collect();
    assert_eq!(ids, vec!["b", "a"]);
    assert!(!app.state.mailbox_states[0].has_more);
}

#[test]
fn search_mode_types_filters_and_opens() {
    let mut app = loaded_app();
    let mut now = 1_000;
    press(&mut app, &mut now, key(KeyCode::Char('/')));
    assert!(matches!(app.state.mode, AppMode::Search));
    assert_eq!(app.state.search.results.len(), 3);
    for c in "BOB".chars() {
        press(&mut app, &mut now, key(KeyCode::Char(c)));
    }
    assert_eq!(app.state.search.query, "BOB");
    assert_eq!(app.state.search.results.len(), 1);
    press(&mut app, &mut now, key(KeyCode::Backspace));
    assert_eq!(app.state.search.query, "BO");
    assert_eq!(app.state.search.cursor_pos, 2);
    press(&mut app, &mut now, key(KeyCode::Char('b')));
    let (_, cmds) = press(&mut app, &mut now, key(KeyCode::Enter));
    match &cmds[..] {
        [Command::OpenEmail { id }] => assert_eq!(id, "c"),
        other => panic!("unexpected {:?}", other),
    }
}

#[test]
fn search_escape_returns_to_normal_and_clears() {
    let mut app = loaded_app();
    let mut now = 1_000;
    press(&mut app, &mut now, key(KeyCode::Char('/')));
    press(&mut app, &mut now, key(KeyCode::Char('x')));
    press(&mut app, &mut now, key(KeyCode::Esc));
    assert!(matches!(app.state.mode, AppMode::Normal));
    assert_eq!(app.state.search.query, "");
}

#[test]
fn compose_edits_fields_and_sends() {
    let mut app = loaded_app();
    let mut now = 1_000;
    press(&mut app, &mut now, key(KeyCode::Char('c')));
    assert!(matches!(app.state.mode, AppMode::Compose));
    for c in "a@b.c".chars() {
        press(&mut app, &mut now, key(KeyCode::Char(c)));
    }
    press(&mut app, &mut now, key(KeyCode::Tab));
    for c in "Hey".chars() {
        press(&mut app, &mut now, key(KeyCode::Char(c)));
    }
    press(&mut app, &mut now, key(KeyCode::Tab));
    press(&mut app, &mut now, key(KeyCode::Char('x')));
    press(&mut app, &mut now, key(KeyCode::Enter));
    press(&mut app, &mut now, key(KeyCode::Char('y')));
    press(&mut app, &mut now, key(KeyCode::Left));
    press(&mut app, &mut now, key(KeyCode::Backspace));
    assert_eq!(app.state.composer.to, "a@b.c");
    assert_eq!(app.state.composer.subject, "Hey");
    assert_eq!(app.state.composer.body, "xy");
    assert_eq!(app.state.composer.cursor_body, 1);
    assert_eq!(
        build_mime_message(&app.state.composer),
        "To: a@b.c\r\nSubject: Hey\r\nMIME-Version: 1.0\r\nContent-Type: text/plain; charset=UTF-8\r\n\r\nxy\r\n"
    );
    let (_, cmds) = press(&mut app, &mut now, ctrl('s'));
    match &cmds[..] {
        [Command::SendMessage { raw }] => assert_eq!(
            raw,
            "VG86IGFAYi5jDQpTdWJqZWN0OiBIZXkNCk1JTUUtVmVyc2lvbjogMS4wDQpDb250ZW50LVR5cGU6IHRleHQvcGxhaW47IGNoYXJzZXQ9VVRGLTgNCg0KeHkNCg"
        ),
        other => panic!("unexpected {:?}", other),
    }
    app.handle_app_event(AppEvent::MessageSent(Ok(())), now);
    assert!(matches!(app.state.mode, AppMode::Normal));
    assert_eq!(app.state.composer.to, "");
    assert_eq!(app.state.status_message, Some(("Message sent".to_string(), StatusLevel::Info)));
}

#[test]
fn compose_cursor_moves_by_bytes() {
    let mut app = loaded_app();
    let mut now = 1_000;
    press(&mut app, &mut now, key(KeyCode::Char('c')));
    press(&mut app, &mut now, key(KeyCode::Char('a')));
    assert!(app.key_is_safe(key(KeyCode::Char('é')), now + 100));
    press(&mut app, &mut now, key(KeyCode::Char('é')));
    assert_eq!(app.state.composer.to, "aé");
    assert_eq!(app.state.composer.cursor_to, 2);
    assert!(!app.key_is_safe(key(KeyCode::Char('x')), now + 100));
    assert!(app.key_is_safe(key(KeyCode::Char('x')), now + 5));
    press(&mut app, &mut now, key(KeyCode::Backspace));
    assert_eq!(app.state.composer.to, "a");
    assert_eq!(app.state.composer.cursor_to, 1);
    press(&mut app, &mut now, key(KeyCode::Char('é')));
    press(&mut app, &mut now, key(KeyCode::Right));
    assert_eq!(app.state.composer.cursor_to, 3);
    press(&mut app, &mut now, key(KeyCode::Right));
    assert_eq!(app.state.composer.cursor_to, 3);
    press(&mut app, &mut now, key(KeyCode::Char('!')));
    assert_eq!(app.state.composer.to, "aé!");
}

#[test]
fn search_query_edits_by_bytes() {
    let mut app = loaded_app();
    let mut now = 1_000;
    press(&mut app, &mut now, key(KeyCode::Char('/')));
    press(&mut app, &mut now, key(KeyCode::Char('ß')));
    assert_eq!(app.state.search.cursor_pos, 1);
    assert!(!app.key_is_safe(key(KeyCode::Char('x')), now + 100));
    assert!(app.key_is_safe(key(KeyCode::Backspace), now + 100));
    press(&mut app, &mut now, key(KeyCode::Backspace));
    assert_eq!(app.state.search.query, "");
    assert_eq!(app.state.search.cursor_pos, 0);
    assert!(app.key_is_safe(key(KeyCode::Esc), now + 100));
}

#[test]
fn sending_without_recipient_warns() {
    let mut app = loaded_app();
    let mut now = 1_000;
    press(&mut app, &mut now, key(KeyCode::Char('c')));
    press(&mut app, &mut now, key(KeyCode::Char(' ')));
    let (_, cmds) = press(&mut app, &mut now, ctrl('s'));
    assert!(cmds.is_empty());
    assert_eq!(app.state.status_message, Some(("Recipient is empty".to_string(), StatusLevel::Warning)));
}

#[test]
fn compose_escape_discards() {
    let mut app = loaded_app();
    let mut now = 1_000;
    press(&mut app, &mut now, key(KeyCode::Char('c')));
    press(&mut app, &mut now, key(KeyCode::Char('z')));
    press(&mut app, &mut now, key(KeyCode::Esc));
    assert!(matches!(app.state.mode, AppMode::Normal));
    assert_eq!(app.state.composer.to, "");
    assert_eq!(app.state.composer.active_field, ComposerField::To);
}

#[test]
fn reply_and_delete_from_the_message_view() {
    let mut app = loaded_app();
    let mut now = 1_000;
    app.handle_app_event(AppEvent::EmailLoaded { message: message("b") }, now);
    press(&mut app, &mut now, key(KeyCode::Char('j')));
    assert_eq!(app.state.email_view.scroll, 1);
    press(&mut app, &mut now, key(KeyCode::Char('r')));
    assert!(matches!(app.state.mode, AppMode::Compose));
    assert_eq!(app.state.composer.to, "boss@work.com");
    assert_eq!(app.state.composer.subject, "Re: Topic");
    assert_eq!(app.state.composer.body, "> line one\n> line two");
    press(&mut app, &mut now, key(KeyCode::Esc));
    app.handle_app_event(AppEvent::EmailLoaded { message: message("b") }, now);
    press(&mut app, &mut now, key(KeyCode::Char('d')));
    match &app.state.mode {
        AppMode::Confirm(ConfirmAction::DeleteEmail(id)) => assert_eq!(id, "b"),
        other => panic!("unexpected {:?}", other),
    }
    let (_, cmds) = press(&mut app, &mut now, key(KeyCode::Char('y')));
    match &cmds[..] {
        [Command::DeleteMessage { id }] => assert_eq!(id, "b"),
        other => panic!("unexpected {:?}", other),
    }
    app.handle_app_event(AppEvent::MessageDeleted { id: "b".to_string(), result: Ok(()) }, now);
    let ids: Vec<&str> = app.state.mailbox_states[0].emails.iter().map(|e| e.id.as_str()).collect();
    assert_eq!(ids, vec!["c", "a"]);
    assert_eq!(app.state.status_message, Some(("Message deleted".to_string(), StatusLevel::Info)));
}

#[test]
fn confirm_no_keeps_the_message() {
    let mut app = loaded_app();
    let mut now = 1_000;
    app.handle_app_event(AppEvent::EmailLoaded { message: message("b") }, now);
    press(&mut app, &mut now, key(KeyCode::Char('d')));
    let (_, cmds) = press(&mut app, &mut now, key(KeyCode::Char('n')));
    assert!(cmds.is_empty());
    assert!(matches!(app.state.mode, AppMode::Normal));
    assert_eq!(app.state.mailbox_states[0].emails.len(), 3);
}

#[test]
fn help_opens_and_closes() {
    let mut app = loaded_app();
    let mut now = 1_000;
    press(&mut app, &mut now, key(KeyCode::Char('?')));
    assert!(matches!(app.state.mode, AppMode::Help));
    press(&mut app, &mut now, key(KeyCode::Char('x')));
    assert!(matches!(app.state.mode, AppMode::Help));
    press(&mut app, &mut now, key(KeyCode::Esc));
    assert!(matches!(app.state.mode, AppMode::Normal));
}

#[test]
fn failed_send_reports_the_error() {
    let mut app = loaded_app();
    app.state.composer = ComposerState::new();
    app.state.mode = AppMode::Compose;
    app.handle_app_event(AppEvent::MessageSent(Err("boom".to_string())), 2_000);
    assert!(matches!(app.state.mode, AppMode::Compose));
    let (text, level) = app.state.status_message.clone().unwrap();
    assert!(text.contains("boom"));
    assert_eq!(level, StatusLevel::Error);
}

#[test]
fn metadata_update_fills_the_entry_and_keeps_order() {
    let mut app = loaded_app();
    let mut filled = summary("c", "zed@example.com", "Filled", 40);
    filled.is_read = true;
    app.handle_app_event(
        AppEvent::EmailSummaryUpdated { category: MailboxCategory::Primary, summary: filled },
        2_000,
    );
    let list = &app.state.mailbox_states[0].emails;
    let c = list.iter().find(|e| e.id == "c").unwrap();
    assert_eq!(c.subject, "Filled");
    assert_eq!(c.from, "zed@example.com");
    assert_eq!(list[0].id, "c");
}

#[test]
fn other_terminal_events_change_nothing() {
    let mut app = loaded_app();
    let (running, cmds) = app.handle_event(InputEvent::Other, 5_000);
    assert!(running);
    assert!(cmds.is_empty());
    assert_eq!(app.state.mailbox_states[0].list_state.selected(), Some(0));
}

#[test]
fn scroll_takes_the_step_to_sixteen_bits() {
    let mut app = App::new(Config::default(), 1_000);
    app.scroll_email(3);
    assert_eq!(app.state.email_view.scroll, 3);
    app.scroll_email(70_000);
    assert_eq!(app.state.email_view.scroll, 3 + 4_464);
    app.scroll_email(-1);
    assert_eq!(app.state.email_view.scroll, 4_466);
    app.scroll_email(-70_000);
    assert_eq!(app.state.email_view.scroll, 2);
    app.scroll_email(-5);
    assert_eq!(app.state.email_view.scroll, 0);
    app.scroll_email(i32::MAX);
    assert_eq!(app.state.email_view.scroll, 65_535);
}
