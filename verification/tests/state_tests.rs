use gmtui::app::{App, AppEvent, Command};
use gmtui::config::Config;
use gmtui::gmail::models::{GmailMessage, MailboxCategory};
use gmtui::state::{
    all_categories, sort_emails, ComposerField, ComposerState, EmailSummary, SearchState,
    SortOrder,
};

fn sample_email(id: &str, from: &str, subject: &str, ts: i128) -> EmailSummary {
    EmailSummary {
        id: id.to_string(),
        thread_id: format!("t-{id}"),
        subject: subject.to_string(),
        from: from.to_string(),
        date: ts,
        snippet: "".to_string(),
        is_read: true,
        category: MailboxCategory::Primary,
    }
}

fn sample_message(subject: &str, body: &str) -> GmailMessage {
    GmailMessage {
        id: "1".to_string(),
        thread_id: "t1".to_string(),
        subject: subject.to_string(),
        from: "sender@example.com".to_string(),
        to: "me@example.com".to_string(),
        date: 1_700_000_000_000_000_000,
        snippet: "".to_string(),
        body: body.to_string(),
        is_read: true,
        labels: vec![],
        category: MailboxCategory::Primary,
    }
}

fn loaded(emails: Vec<EmailSummary>, next: Option<&str>, append: bool) -> AppEvent {
    AppEvent::EmailsLoaded {
        category: MailboxCategory::Primary,
        emails,
        next_page_token: next.map(|t| t.to_string()),
        append,
    }
}

#[test]
fn test_lazy_load_appends_emails() {
    let mut app = App::new(Config::default(), 1_000);
    app.handle_app_event(loaded(vec![sample_email("1", "a", "one", 1)], Some("next"), false), 1_000);
    let before = app.state.mailbox_states[0].emails.len();
    app.handle_app_event(loaded(vec![sample_email("2", "b", "two", 2)], None, true), 2_000);
    let after = app.state.mailbox_states[0].emails.len();
    assert_eq!(before + 1, after);
}

#[test]
fn test_cache_skips_fetch_within_ttl() {
    let mut config = Config::default();
    config.cache_ttl_secs = 300;
    let mut app = App::new(config, 1_000);
    let mut list_calls = 0;
    if let Some(Command::ListMessages { .. }) = app.refresh_category(false, 1_000) {
        list_calls += 1;
    }
    app.handle_app_event(loaded(vec![sample_email("1", "a", "one", 1)], None, false), 1_000);
    let fetched = app.refresh_category(false, 61_000);
    if let Some(Command::ListMessages { .. }) = fetched {
        list_calls += 1;
    }
    assert!(fetched.is_none());
    assert_eq!(list_calls, 1);
}

#[test]
fn cache_expires_after_ttl() {
    let mut config = Config::default();
    config.cache_ttl_secs = 300;
    let mut app = App::new(config, 1_000);
    app.handle_app_event(loaded(vec![sample_email("1", "a", "one", 1)], None, false), 1_000);
    assert!(app.refresh_category(false, 300_999).is_none());
    assert!(app.refresh_category(false, 301_000).is_some());
    assert!(app.state.is_loading);
}

#[test]
fn test_search_filters_correctly() {
    let mut search = SearchState::default();
    search.query = "rust".to_string();
    let emails = vec![
        sample_email("1", "a", "Rust newsletter", 1),
        sample_email("2", "b", "Python weekly", 2),
    ];
    search.apply_filter(&emails);
    assert_eq!(search.results.len(), 1);
    assert_eq!(search.results[0].subject, "Rust newsletter");
}

#[test]
fn test_sort_date_desc() {
    let mut emails = vec![
        sample_email("1", "a", "one", 10),
        sample_email("2", "b", "two", 20),
    ];
    sort_emails(&mut emails, SortOrder::DateDesc);
    assert_eq!(emails[0].id, "2");
}

#[test]
fn test_sort_sender_asc() {
    let mut emails = vec![
        sample_email("1", "bob", "one", 10),
        sample_email("2", "alice", "two", 20),
    ];
    sort_emails(&mut emails, SortOrder::SenderAsc);
    assert_eq!(emails[0].from, "alice");
}

#[test]
fn sort_date_asc_and_subject_asc() {
    let mut emails = vec![
        sample_email("1", "a", "b-subject", 30),
        sample_email("2", "b", "a-subject", 10),
        sample_email("3", "c", "c-subject", 20),
    ];
    sort_emails(&mut emails, SortOrder::DateAsc);
    let ids: Vec<&str> = emails.iter().map(|e| e.id.as_str()).collect();
    assert_eq!(ids, vec!["2", "3", "1"]);
    sort_emails(&mut emails, SortOrder::SubjectAsc);
    let ids: Vec<&str> = emails.iter().map(|e| e.id.as_str()).collect();
    assert_eq!(ids, vec!["2", "1", "3"]);
}

#[test]
fn sort_orders_within_a_second() {
    let mut emails = vec![
        sample_email("1", "a", "one", 1_700_000_000_100_000_000),
        sample_email("2", "b", "two", 1_700_000_000_900_000_000),
    ];
    sort_emails(&mut emails, SortOrder::DateDesc);
    assert_eq!(emails[0].id, "2");
}

#[test]
fn sort_is_stable_for_equal_keys() {
    let mut emails = vec![
        sample_email("1", "same", "x", 5),
        sample_email("2", "other", "y", 9),
        sample_email("3", "same", "z", 7),
        sample_email("4", "same", "w", 1),
    ];
    sort_emails(&mut emails, SortOrder::SenderAsc);
    let ids: Vec<&str> = emails.iter().map(|e| e.id.as_str()).collect();
    assert_eq!(ids, vec!["2", "1", "3", "4"]);
}

#[test]
fn sort_sender_ignores_case() {
    let mut emails = vec![
        sample_email("1", "Zed", "one", 1),
        sample_email("2", "bob", "two", 2),
    ];
    sort_emails(&mut emails, SortOrder::SenderAsc);
    assert_eq!(emails[0].from, "bob");
}

#[test]
fn test_compose_reply_prefill() {
    let msg = sample_message("Hello", "Hi there");
    let composer = ComposerState::from_reply(&msg);
    assert_eq!(composer.to, "sender@example.com");
    assert!(composer.subject.starts_with("Re: "));
}

#[test]
fn reply_quotes_each_line_and_keeps_existing_prefix() {
    let msg = sample_message("RE: Budget", "first\r\nsecond\n\nlast\n");
    let composer = ComposerState::from_reply(&msg);
    assert_eq!(composer.subject, "RE: Budget");
    assert_eq!(composer.body, "> first\n> second\n> \n> last");
    assert_eq!(composer.cursor_to, "sender@example.com".len());
    assert_eq!(composer.cursor_body, 0);
    assert_eq!(composer.active_field, ComposerField::Body);
}

#[test]
fn reply_cursor_counts_bytes_of_the_sender() {
    let mut msg = sample_message("Hi", "");
    msg.from = "José <jose@example.com>".to_string();
    let composer = ComposerState::from_reply(&msg);
    assert_eq!(composer.cursor_to, "José <jose@example.com>".len());
    assert_eq!(composer.cursor_to, 24);
}

#[test]
fn reply_subject_gets_prefix_once() {
    let composer = ComposerState::from_reply(&sample_message("Hello", ""));
    assert_eq!(composer.subject, "Re: Hello");
    assert_eq!(composer.body, "");
}

#[test]
fn composer_fields_cycle_both_ways() {
    let mut composer = ComposerState::new();
    assert_eq!(composer.active_field, ComposerField::To);
    composer.cycle_field_forward();
    assert_eq!(composer.active_field, ComposerField::Subject);
    composer.cycle_field_forward();
    assert_eq!(composer.active_field, ComposerField::Body);
    composer.cycle_field_forward();
    assert_eq!(composer.active_field, ComposerField::To);
    composer.cycle_field_backward();
    assert_eq!(composer.active_field, ComposerField::Body);
    composer.cycle_field_forward();
    assert_eq!(composer.active_field, ComposerField::To);
}

#[test]
fn composer_active_buffer_and_reset() {
    let mut composer = ComposerState::new();
    composer.cycle_field_forward();
    {
        let (text, cursor) = composer.active_buffer_mut();
        text.push_str("Hi");
        *cursor = 2;
    }
    assert_eq!(composer.subject, "Hi");
    assert_eq!(composer.cursor_subject, 2);
    composer.reset();
    assert_eq!(composer.subject, "");
    assert_eq!(composer.cursor_subject, 0);
    assert_eq!(composer.active_field, ComposerField::To);
}

#[test]
fn categories_come_in_tab_order() {
    assert_eq!(
        all_categories(),
        vec![
            MailboxCategory::Primary,
            MailboxCategory::Social,
            MailboxCategory::Promotions,
            MailboxCategory::Updates,
            MailboxCategory::Forums,
        ]
    );
}
