use gmtui::error::GmtuiError;
use gmtui::gmail::auth::{
    check_csrf, issued_token, parse_code_and_state, token_expiry, AuthStep,
    TokenStore,
};
use gmtui::gmail::client::{
    base_url, collect_bodies, decode_body, delete_message_url, extract_body, full_message_url,
    header_value, list_messages_url, message_from_detail, metadata_url, modify_labels_url,
    parse_date, send_message_url, strip_html, summaries_from_list, summary_from_detail, Body,
    Header, MessageDetail, MessageId, Payload,
};
use gmtui::gmail::models::MailboxCategory;

fn header(name: &str, value: &str) -> Header {
    Header { name: name.to_string(), value: value.to_string() }
}

fn part(mime: &str, data: Option<&str>, parts: Option<Vec<Payload>>) -> Payload {
    Payload {
        mime_type: mime.to_string(),
        headers: vec![],
        body: Body { data: data.map(|d| d.to_string()) },
        parts,
    }
}

fn detail(headers: Vec<Header>, labels: Option<Vec<&str>>, payload_body: Option<&str>) -> MessageDetail {
    let mut payload = part("text/plain", payload_body, None);
    payload.headers = headers;
    MessageDetail {
        id: "m1".to_string(),
        thread_id: "t1".to_string(),
        snippet: Some("snip".to_string()),
        label_ids: labels.map(|v| v.into_iter().map(|l| l.to_string()).collect()),
        payload,
    }
}

#[test]
fn header_value_ignores_ascii_case_and_takes_first() {
    let headers = vec![
        header("subject", "first"),
        header("Subject", "second"),
        header("From", "a@example.com"),
    ];
    assert_eq!(header_value(&headers, "SUBJECT"), "first");
    assert_eq!(header_value(&headers, "from"), "a@example.com");
    assert_eq!(header_value(&headers, "To"), "");
}

#[test]
fn parse_date_tries_rfc2822_then_rfc3339_then_now() {
    assert_eq!(parse_date("Tue, 1 Jul 2003 10:52:37 +0200", 5), 1_057_049_557_000_000_000);
    assert_eq!(parse_date("2024-01-02T03:04:05Z", 5), 1_704_164_645_000_000_000);
    assert_eq!(parse_date("2024-01-02T03:04:05.25Z", 5), 1_704_164_645_250_000_000);
    assert_eq!(parse_date("not a date", 5), 5);
}

#[test]
fn decode_body_reads_url_safe_base64() {
    assert_eq!(decode_body("SGVsbG8"), Some("Hello".to_string()));
    assert_eq!(decode_body("!!!"), None);
    assert_eq!(decode_body("__4"), None);
}

#[test]
fn strip_html_removes_tags_and_entities() {
    assert_eq!(strip_html("<p>A&amp;B&nbsp;&lt;x&gt;</p>".to_string()), "A&B <x>");
    assert_eq!(strip_html("no markup".to_string()), "no markup");
    assert_eq!(strip_html("&amp;lt;".to_string()), "<");
}

#[test]
fn extract_body_prefers_plain_text() {
    let payload = part(
        "multipart/alternative",
        None,
        Some(vec![
            part("text/html", Some("PHA-QSZhbXA7QiZuYnNwOyZsdDt4Jmd0OzwvcD4"), None),
            part("text/plain", Some("cGxhaW4gb25l"), None),
        ]),
    );
    assert_eq!(extract_body(&payload), Some("plain one".to_string()));
}

#[test]
fn extract_body_falls_back_to_stripped_html() {
    let payload = part(
        "multipart/alternative",
        None,
        Some(vec![part("text/html", Some("PHA-QSZhbXA7QiZuYnNwOyZsdDt4Jmd0OzwvcD4"), None)]),
    );
    assert_eq!(extract_body(&payload), Some("A&B <x>".to_string()));
    assert_eq!(extract_body(&part("image/png", Some("SGVsbG8"), None)), None);
}

#[test]
fn collect_bodies_keeps_first_found_parts() {
    let payload = part(
        "multipart/mixed",
        None,
        Some(vec![
            part("text/plain", None, None),
            part(
                "multipart/alternative",
                None,
                Some(vec![part("text/plain", Some("first"), None), part("text/html", Some("h1"), None)]),
            ),
            part("text/plain", Some("second"), None),
        ]),
    );
    let mut plain = None;
    let mut html = None;
    collect_bodies(&payload, &mut plain, &mut html);
    assert_eq!(plain, Some("first".to_string()));
    assert_eq!(html, Some("h1".to_string()));
    let mut plain = Some("kept".to_string());
    let mut html = None;
    collect_bodies(&payload, &mut plain, &mut html);
    assert_eq!(plain, Some("kept".to_string()));
}

#[test]
fn message_from_detail_reads_headers_labels_and_body() {
    let msg = message_from_detail(
        detail(
            vec![
                header("Subject", "Hi"),
                header("From", "a@example.com"),
                header("To", "me@example.com"),
                header("Date", "2024-01-02T03:04:05Z"),
            ],
            Some(vec!["INBOX", "UNREAD", "CATEGORY_SOCIAL"]),
            Some("SGkgdGhlcmU"),
        ),
        7,
    );
    assert_eq!(msg.id, "m1");
    assert_eq!(msg.subject, "Hi");
    assert_eq!(msg.from, "a@example.com");
    assert_eq!(msg.to, "me@example.com");
    assert_eq!(msg.date, 1_704_164_645_000_000_000);
    assert_eq!(msg.body, "Hi there");
    assert_eq!(msg.snippet, "snip");
    assert!(!msg.is_read);
    assert_eq!(msg.category, MailboxCategory::Social);
    assert_eq!(msg.labels.len(), 3);
}

#[test]
fn summary_from_detail_without_labels_is_read_primary() {
    let s = summary_from_detail(detail(vec![header("Subject", "S")], None, None), 99);
    assert_eq!(s.subject, "S");
    assert_eq!(s.from, "");
    assert_eq!(s.date, 99);
    assert!(s.is_read);
    assert_eq!(s.category, MailboxCategory::Primary);
}

#[test]
fn summaries_from_list_makes_placeholders() {
    let ids = vec![
        MessageId { id: "a".to_string(), thread_id: Some("ta".to_string()) },
        MessageId { id: "b".to_string(), thread_id: None },
    ];
    let list = summaries_from_list(Some(ids), MailboxCategory::Updates, &vec![41, 42]);
    assert_eq!(list.len(), 2);
    assert_eq!(list[0].id, "a");
    assert_eq!(list[0].thread_id, "ta");
    assert_eq!(list[1].thread_id, "");
    assert_eq!(list[0].date, 41);
    assert_eq!(list[1].date, 42);
    assert!(!list[1].is_read);
    assert_eq!(list[1].category, MailboxCategory::Updates);
    assert!(summaries_from_list(None, MailboxCategory::Primary, &vec![]).is_empty());
}

#[test]
fn category_from_labels_and_query_names() {
    let labels = vec!["INBOX".to_string(), "CATEGORY_PROMOTIONS".to_string(), "CATEGORY_SOCIAL".to_string()];
    assert_eq!(MailboxCategory::from_labels(&labels), MailboxCategory::Promotions);
    assert_eq!(MailboxCategory::from_labels(&["INBOX".to_string()]), MailboxCategory::Primary);
    assert_eq!(MailboxCategory::Forums.query_name(), "forums");
    assert_eq!(MailboxCategory::Promotions.display_name(), "Promos");
}

#[test]
fn urls_of_the_gmail_api() {
    let base = base_url();
    assert_eq!(
        list_messages_url(base, MailboxCategory::Social, Some("tok"), 20),
        "https://gmail.googleapis.com/gmail/v1/users/me/messages?labelIds=INBOX&q=category:social&maxResults=20&fields=messages(id,threadId),nextPageToken&pageToken=tok"
    );
    assert_eq!(
        full_message_url(base, "abc"),
        "https://gmail.googleapis.com/gmail/v1/users/me/messages/abc?format=full"
    );
    assert!(metadata_url(base, "abc").ends_with("abc?format=metadata&metadataHeaders=Subject&metadataHeaders=From&metadataHeaders=Date"));
    assert_eq!(delete_message_url(base, "x"), "https://gmail.googleapis.com/gmail/v1/users/me/messages/x");
    assert_eq!(modify_labels_url(base, "x"), "https://gmail.googleapis.com/gmail/v1/users/me/messages/x/modify");
    assert_eq!(send_message_url(base), "https://gmail.googleapis.com/gmail/v1/users/me/messages/send");
}

#[test]
fn redirect_line_gives_code_and_state() {
    let r = parse_code_and_state("GET /?code=4%2Fabc&state=xyz&scope=mail HTTP/1.1");
    assert_eq!(r.unwrap(), ("4/abc".to_string(), "xyz".to_string()));
}

#[test]
fn redirect_line_errors() {
    match parse_code_and_state("GET /?error=access_denied HTTP/1.1") {
        Err(GmtuiError::Auth(m)) => assert_eq!(m, "oauth error: access_denied"),
        other => panic!("unexpected {:?}", other),
    }
    match parse_code_and_state("GET / HTTP/1.1") {
        Err(GmtuiError::Auth(m)) => assert_eq!(m, "missing query string"),
        other => panic!("unexpected {:?}", other),
    }
    match parse_code_and_state("GET /?state=s HTTP/1.1") {
        Err(GmtuiError::Auth(m)) => assert_eq!(m, "missing auth code"),
        other => panic!("unexpected {:?}", other),
    }
    match parse_code_and_state("GET /?code=c HTTP/1.1") {
        Err(GmtuiError::Auth(m)) => assert_eq!(m, "missing state"),
        other => panic!("unexpected {:?}", other),
    }
    match parse_code_and_state("garbage") {
        Err(GmtuiError::Auth(m)) => assert_eq!(m, "invalid redirect"),
        other => panic!("unexpected {:?}", other),
    }
    match parse_code_and_state(" HTTP x/?code=c&state=s") {
        Err(GmtuiError::Auth(m)) => assert_eq!(m, "invalid redirect"),
        other => panic!("unexpected {:?}", other),
    }
}

#[test]
fn csrf_state_must_match() {
    assert!(check_csrf("abc", "abc").is_ok());
    match check_csrf("abc", "abd") {
        Err(GmtuiError::Auth(m)) => assert_eq!(m, "CSRF validation failed"),
        other => panic!("unexpected {:?}", other),
    }
}

#[test]
fn token_expiry_and_margin() {
    assert_eq!(token_expiry(1_000, Some(120)), 1_120);
    assert_eq!(token_expiry(1_000, None), 4_600);
    let t = TokenStore { access_token: "a".to_string(), refresh_token: "r".to_string(), expires_at: 1_120 };
    assert!(!t.is_expired(1_059));
    assert!(t.is_expired(1_060));
}

#[test]
fn issued_token_keeps_previous_refresh_token() {
    let prev = Some(TokenStore { access_token: "old".to_string(), refresh_token: "keep".to_string(), expires_at: 0 });
    let t = issued_token("new".to_string(), None, &prev, Some(10), 100);
    assert_eq!(t.access_token, "new");
    assert_eq!(t.refresh_token, "keep");
    assert_eq!(t.expires_at, 110);
    let t = issued_token("new".to_string(), Some("fresh".to_string()), &prev, None, 100);
    assert_eq!(t.refresh_token, "fresh");
    assert_eq!(t.expires_at, 3_700);
}

#[test]
fn next_auth_step_by_token_state() {
    let fresh = Some(TokenStore { access_token: "a".to_string(), refresh_token: "r".to_string(), expires_at: 10_000 });
    match TokenStore::next_auth_step(&fresh, 100) {
        AuthStep::UseToken(t) => assert_eq!(t, "a"),
        other => panic!("unexpected {:?}", other),
    }
    assert!(matches!(TokenStore::next_auth_step(&fresh, 9_950), AuthStep::Refresh));
    assert!(matches!(TokenStore::next_auth_step(&None, 0), AuthStep::Interactive));
}

#[test]
fn category_label_reads_back_as_the_category() {
    for c in [
        MailboxCategory::Primary,
        MailboxCategory::Social,
        MailboxCategory::Promotions,
        MailboxCategory::Updates,
        MailboxCategory::Forums,
    ] {
        let label = format!("CATEGORY_{}", c.query_name().to_uppercase());
        assert_eq!(MailboxCategory::from_labels(&[label]), c);
    }
}

#[test]
fn token_expiry_must_fit_a_utc_time() {
    assert!(gmtui::gmail::auth::expiry_fits(1_000, Some(3_600)));
    assert!(gmtui::gmail::auth::expiry_fits(1_000, None));
    assert!(!gmtui::gmail::auth::expiry_fits(8_210_266_876_000, None));
    assert!(!gmtui::gmail::auth::expiry_fits(8_210_266_870_000, Some(10_000)));
    assert!(gmtui::gmail::auth::expiry_fits(8_210_266_870_000, Some(9_223_372_036_854_776)));
}
