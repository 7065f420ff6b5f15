use vstd::prelude::*;
use vstd::utf8::{decode_utf8, encode_utf8, valid_utf8};
use base64::Engine;
use crate::gmail::models::{category_from_labels, epoch_nanos, query_name_spec, GmailMessage, MailboxCategory};
use crate::state::EmailSummary;
use crate::text::{chars_of, decimal_chars, decimal_seq, replace_chars, replace_seq, str_eq, string_of, strip_tags_chars, strip_tags_seq};

verus! {

/// A part of a message body, as the Gmail API returns it.
#[derive(Debug)]
pub struct Payload {
    pub mime_type: String,
    pub headers: Vec<Header>,
    pub body: Body,
    pub parts: Option<Vec<Payload>>,
}

/// A message header.
#[derive(Debug)]
pub struct Header {
    pub name: String,
    pub value: String,
}

/// The data of a body part, in URL-safe base64 without padding.
#[derive(Debug)]
pub struct Body {
    pub data: Option<String>,
}

/// The data of the first part of `p`, in pre-order, that has type `mime` and data.
pub open spec fn first_data(p: Payload, mime: Seq<char>) -> Option<Seq<char>>
    decreases p,
{
    if p.mime_type@ == mime && p.body.data is Some {
        Some(p.body.data->0@)
    } else {
        match p.parts {
            Some(parts) => first_data_in(parts@, mime, 0),
            None => None,
        }
    }
}

/// The data of the first part among `parts` from index `i` on, in pre-order, that has
/// type `mime` and data.
pub open spec fn first_data_in(parts: Seq<Payload>, mime: Seq<char>, i: int) -> Option<Seq<char>>
    decreases parts, parts.len() - i,
{
    if 0 <= i < parts.len() {
        match first_data(parts[i], mime) {
            Some(d) => Some(d),
            None => first_data_in(parts, mime, i + 1),
        }
    } else {
        None
    }
}

}

verus! {

/// The characters of an optional string.
pub open spec fn opt_chars(o: Option<String>) -> Option<Seq<char>> {
    match o {
        Some(s) => Some(s@),
        None => None,
    }
}

/// What one of the two accumulators of `collect_bodies` holds after walking `p`:
/// an earlier find stays, else the first data of that type in `p`.
pub open spec fn collected(before: Option<String>, p: Payload, mime: Seq<char>) -> Option<Seq<char>> {
    match before {
        Some(s) => Some(s@),
        None => first_data(p, mime),
    }
}

proof fn lemma_first_data_in_skip(parts: Seq<Payload>, mime: Seq<char>, i: int)
    requires
        0 <= i <= parts.len(),
        forall|k: int| 0 <= k < i ==> first_data(#[trigger] parts[k], mime) is None,
    ensures
        first_data_in(parts, mime, 0) == first_data_in(parts, mime, i),
    decreases i,
{
    if i > 0 {
        lemma_first_data_in_skip(parts, mime, i - 1);
    }
}

proof fn lemma_first_data_in_found(parts: Seq<Payload>, mime: Seq<char>, i: int)
    requires
        0 <= i < parts.len(),
        forall|k: int| 0 <= k < i ==> first_data(#[trigger] parts[k], mime) is None,
        first_data(parts[i], mime) is Some,
    ensures
        first_data_in(parts, mime, 0) == first_data(parts[i], mime),
{
    lemma_first_data_in_skip(parts, mime, i);
}

fn str_is(s: &String, lit: &str) -> (r: bool)
    ensures
        r == (s@ == lit@),
{
    crate::text::str_eq(s.as_str(), lit)
}

/// Walks `payload` in pre-order and keeps the data of the first `text/plain` part and of
/// the first `text/html` part that carry data, leaving alone what was found before.
pub fn collect_bodies(payload: &Payload, plain: &mut Option<String>, html: &mut Option<String>)
    ensures
        opt_chars(*final(plain)) == collected(*old(plain), *payload, "text/plain"@),
        opt_chars(*final(html)) == collected(*old(html), *payload, "text/html"@),
        *old(plain) is Some ==> *final(plain) == *old(plain),
        *old(html) is Some ==> *final(html) == *old(html),
    decreases payload,
{
    proof {
        reveal_strlit("text/plain");
        reveal_strlit("text/html");
        assert("text/html"@.len() == 9);
        assert("text/plain"@.len() == 10);
        assert("text/html"@ != "text/plain"@);
    }
    match &payload.body.data {
        Some(data) => {
            if str_is(&payload.mime_type, "text/plain") {
                if plain.is_none() {
                    *plain = Some(data.clone());
                }
            } else if str_is(&payload.mime_type, "text/html") {
                if html.is_none() {
                    *html = Some(data.clone());
                }
            }
        },
        None => {},
    }
    let ghost plain1 = *plain;
    let ghost html1 = *html;
    match &payload.parts {
        Some(parts) => {
            let mut i: usize = 0;
            while i < parts.len()
                invariant
                    i <= parts@.len(),
                    payload.parts == Some(*parts),
                    plain1 is Some ==> *plain == plain1,
                    html1 is Some ==> *html == html1,
                    plain1 is None ==> (if *plain is None {
                        forall|k: int| 0 <= k < i ==> first_data(#[trigger] parts@[k], "text/plain"@) is None
                    } else {
                        opt_chars(*plain) == first_data_in(parts@, "text/plain"@, 0)
                    }),
                    html1 is None ==> (if *html is None {
                        forall|k: int| 0 <= k < i ==> first_data(#[trigger] parts@[k], "text/html"@) is None
                    } else {
                        opt_chars(*html) == first_data_in(parts@, "text/html"@, 0)
                    }),
                decreases parts@.len() - i,
            {
                let ghost pb = *plain;
                let ghost hb = *html;
                proof {
                    assert(decreases_to!(*payload => payload.parts));
                    assert(decreases_to!(payload.parts => payload.parts->0));
                    assert(decreases_to!(payload.parts->0 => payload.parts->0@));
                    assert(decreases_to!(payload.parts->0@ => parts@[i as int]));
                }
                collect_bodies(&parts[i], plain, html);
                proof {
                    if plain1 is None && pb is None && *plain is Some {
                        lemma_first_data_in_found(parts@, "text/plain"@, i as int);
                    }
                    if html1 is None && hb is None && *html is Some {
                        lemma_first_data_in_found(parts@, "text/html"@, i as int);
                    }
                }
                i = i + 1;
            }
            proof {
                if plain1 is None && *plain is None {
                    lemma_first_data_in_skip(parts@, "text/plain"@, parts@.len() as int);
                }
                if html1 is None && *html is None {
                    lemma_first_data_in_skip(parts@, "text/html"@, parts@.len() as int);
                }
            }
        },
        None => {},
    }
}

}

verus! {

/// What URL-safe base64 decoding without padding (the `URL_SAFE_NO_PAD` engine of the
/// `base64` crate) gives for some bytes: the decoded bytes, or nothing for invalid input.
pub uninterp spec fn url_safe_no_pad_decode(data: Seq<u8>) -> Option<Seq<u8>>;

/// What URL-safe base64 encoding without padding gives for some bytes.
pub uninterp spec fn url_safe_no_pad_encode(data: Seq<u8>) -> Seq<char>;

/// `base64::engine::general_purpose::URL_SAFE_NO_PAD.decode`: its result, or nothing
/// where it reports an error, is named `url_safe_no_pad_decode`.
#[verifier::external_body]
fn base64_url_decode(data: &[u8]) -> (r: Option<Vec<u8>>)
    ensures
        match r {
            Some(v) => url_safe_no_pad_decode(data@) == Some(v@),
            None => url_safe_no_pad_decode(data@) is None,
        },
{
    match base64::engine::general_purpose::URL_SAFE_NO_PAD.decode(data) {
        Ok(v) => Some(v),
        Err(_) => None,
    }
}

/// `base64::engine::general_purpose::URL_SAFE_NO_PAD.encode`, named
/// `url_safe_no_pad_encode`. It panics when the length of the encoding overflows `usize`,
/// which the bound on the input's length rules out.
#[verifier::external_body]
pub(crate) fn base64_url_encode(data: &[u8]) -> (r: String)
    requires
        data@.len() <= usize::MAX / 4 * 3,
    ensures
        r@ == url_safe_no_pad_encode(data@),
{
    base64::engine::general_purpose::URL_SAFE_NO_PAD.encode(data)
}

/// `String::from_utf8` from std: succeeds exactly on valid UTF-8 and decodes it.
#[verifier::external_body]
fn utf8_string(bytes: Vec<u8>) -> (r: Option<String>)
    ensures
        r is Some <==> valid_utf8(bytes@),
        r matches Some(s) ==> s@ == decode_utf8(bytes@),
{
    match String::from_utf8(bytes) {
        Ok(s) => Some(s),
        Err(_) => None,
    }
}

/// What `chrono::DateTime::parse_from_rfc2822` gives for a string, as its whole seconds
/// since the Unix epoch and the nanoseconds after them, or nothing where it reports an error.
pub uninterp spec fn rfc2822_timestamp(s: Seq<char>) -> Option<(i64, u32)>;

/// What `chrono::DateTime::parse_from_rfc3339` gives for a string, as its whole seconds
/// since the Unix epoch and the nanoseconds after them, or nothing where it reports an error.
pub uninterp spec fn rfc3339_timestamp(s: Seq<char>) -> Option<(i64, u32)>;

/// `chrono::DateTime::parse_from_rfc2822`, taken to its `timestamp` and
/// `timestamp_subsec_nanos`; its result is named `rfc2822_timestamp`.
#[verifier::external_body]
fn parse_rfc2822(s: &str) -> (r: Option<(i64, u32)>)
    ensures
        r == rfc2822_timestamp(s@),
{
    match chrono::DateTime::parse_from_rfc2822(s) {
        Ok(d) => Some((d.timestamp(), d.timestamp_subsec_nanos())),
        Err(_) => None,
    }
}

/// `chrono::DateTime::parse_from_rfc3339`, taken to its `timestamp` and
/// `timestamp_subsec_nanos`; its result is named `rfc3339_timestamp`.
#[verifier::external_body]
fn parse_rfc3339(s: &str) -> (r: Option<(i64, u32)>)
    ensures
        r == rfc3339_timestamp(s@),
{
    match chrono::DateTime::parse_from_rfc3339(s) {
        Ok(d) => Some((d.timestamp(), d.timestamp_subsec_nanos())),
        Err(_) => None,
    }
}

/// The time a `Date` header gives, in nanoseconds since the Unix epoch: RFC 2822 first,
/// then RFC 3339, else `now`.
pub open spec fn date_from_header(input: Seq<char>, now: i128) -> int {
    match rfc2822_timestamp(input) {
        Some((secs, nanos)) => epoch_nanos(secs, nanos),
        None => match rfc3339_timestamp(input) {
            Some((secs, nanos)) => epoch_nanos(secs, nanos),
            None => now as int,
        },
    }
}

fn nanos_from_parts(secs: i64, nanos: u32) -> (r: i128)
    ensures
        r == epoch_nanos(secs, nanos),
{
    (secs as i128) * 1_000_000_000 + (nanos as i128)
}

/// The time a `Date` header gives, in nanoseconds since the Unix epoch; `now` where it
/// gives none.
pub fn parse_date(input: &str, now: i128) -> (r: i128)
    ensures
        r == date_from_header(input@, now),
{
    match parse_rfc2822(input) {
        Some((secs, nanos)) => nanos_from_parts(secs, nanos),
        None => match parse_rfc3339(input) {
            Some((secs, nanos)) => nanos_from_parts(secs, nanos),
            None => now,
        },
    }
}

/// Two characters are equal once ASCII upper case is taken to lower case.
pub open spec fn char_eq_ignore_ascii_case(a: char, b: char) -> bool {
    ||| a == b
    ||| ('A' <= a <= 'Z' && (a as u32) + 32 == (b as u32))
    ||| ('A' <= b <= 'Z' && (b as u32) + 32 == (a as u32))
}

/// Two strings match ignoring ASCII case, as `str::eq_ignore_ascii_case` tests.
pub open spec fn eq_ignore_ascii_case_seq(a: Seq<char>, b: Seq<char>) -> bool {
    a.len() == b.len() && forall|i: int| 0 <= i < a.len() ==> char_eq_ignore_ascii_case(#[trigger] a[i], b[i])
}

fn eq_ignore_ascii_case(a: &str, b: &str) -> (r: bool)
    ensures
        r == eq_ignore_ascii_case_seq(a@, b@),
{
    let x = chars_of(a);
    let y = chars_of(b);
    if x.len() != y.len() {
        return false;
    }
    let mut i: usize = 0;
    while i < x.len()
        invariant
            x.len() == y.len(),
            x@ == a@,
            y@ == b@,
            i <= x.len(),
            forall|k: int| 0 <= k < i ==> char_eq_ignore_ascii_case(#[trigger] x@[k], y@[k]),
        decreases x.len() - i,
    {
        let c = x[i];
        let d = y[i];
        let same = c == d || ('A' <= c && c <= 'Z' && (c as u32) + 32 == (d as u32)) || ('A' <= d
            && d <= 'Z' && (d as u32) + 32 == (c as u32));
        if !same {
            return false;
        }
        i = i + 1;
    }
    true
}

/// The value of the first header named `name`, ignoring ASCII case, or nothing.
pub open spec fn header_spec(headers: Seq<Header>, name: Seq<char>) -> Seq<char>
    decreases headers.len(),
{
    if headers.len() == 0 {
        Seq::empty()
    } else if eq_ignore_ascii_case_seq(headers[0].name@, name) {
        headers[0].value@
    } else {
        header_spec(headers.drop_first(), name)
    }
}

/// The value of the first header named `name`, ignoring ASCII case; empty without one.
pub fn header_value(headers: &[Header], name: &str) -> (r: String)
    ensures
        r@ == header_spec(headers@, name@),
{
    let mut i: usize = 0;
    assert(headers@.skip(0) =~= headers@);
    while i < headers.len()
        invariant
            i <= headers@.len(),
            header_spec(headers@, name@) == header_spec(headers@.skip(i as int), name@),
        decreases headers@.len() - i,
    {
        assert(headers@.skip(i as int).drop_first() =~= headers@.skip(i + 1));
        assert(headers@.skip(i as int)[0] == headers@[i as int]);
        if eq_ignore_ascii_case(headers[i].name.as_str(), name) {
            return headers[i].value.clone();
        }
        i = i + 1;
    }
    String::new()
}

/// What the data of a body part decodes to: base64 then UTF-8, or nothing if either fails.
pub open spec fn decoded_body(data: Seq<char>) -> Option<Seq<char>> {
    match url_safe_no_pad_decode(encode_utf8(data)) {
        Some(bytes) => if valid_utf8(bytes) {
            Some(decode_utf8(bytes))
        } else {
            None
        },
        None => None,
    }
}

/// The text of an HTML body: tags removed, then `&nbsp;`, `&amp;`, `&lt;` and `&gt;`
/// replaced, in that order.
pub open spec fn html_text(s: Seq<char>) -> Seq<char> {
    replace_seq(
        replace_seq(
            replace_seq(replace_seq(strip_tags_seq(s, false), "&nbsp;"@, " "@), "&amp;"@, "&"@),
            "&lt;"@,
            "<"@,
        ),
        "&gt;"@,
        ">"@,
    )
}

/// The text of the message in `payload`: its first plain-text part decoded, else its
/// first HTML part decoded and stripped of markup, else nothing.
pub open spec fn body_text(payload: Payload) -> Option<Seq<char>> {
    match first_data(payload, "text/plain"@) {
        Some(d) => decoded_body(d),
        None => match first_data(payload, "text/html"@) {
            Some(d) => match decoded_body(d) {
                Some(t) => Some(html_text(t)),
                None => None,
            },
            None => None,
        },
    }
}

/// Decodes the data of a body part.
pub fn decode_body(data: &str) -> (r: Option<String>)
    ensures
        opt_chars(r) == decoded_body(data@),
{
    match base64_url_decode(data.as_bytes()) {
        Some(bytes) => utf8_string(bytes),
        None => None,
    }
}

fn literal_chars(s: &str) -> (r: Vec<char>)
    ensures
        r@ == s@,
{
    chars_of(s)
}

/// The text of an HTML body.
pub fn strip_html(input: String) -> (r: String)
    ensures
        r@ == html_text(input@),
{
    let cs = chars_of(input.as_str());
    let stripped = strip_tags_chars(&cs);
    proof {
        reveal_strlit("&nbsp;");
        reveal_strlit("&amp;");
        reveal_strlit("&lt;");
        reveal_strlit("&gt;");
    }
    let a = replace_chars(&stripped, &literal_chars("&nbsp;"), &literal_chars(" "));
    let b = replace_chars(&a, &literal_chars("&amp;"), &literal_chars("&"));
    let c = replace_chars(&b, &literal_chars("&lt;"), &literal_chars("<"));
    let d = replace_chars(&c, &literal_chars("&gt;"), &literal_chars(">"));
    string_of(&d)
}

/// The text of the message in `payload`.
pub fn extract_body(payload: &Payload) -> (r: Option<String>)
    ensures
        opt_chars(r) == body_text(*payload),
{
    let mut plain: Option<String> = None;
    let mut html: Option<String> = None;
    collect_bodies(payload, &mut plain, &mut html);
    match plain {
        Some(data) => decode_body(data.as_str()),
        None => match html {
            Some(data) => match decode_body(data.as_str()) {
                Some(t) => Some(strip_html(t)),
                None => None,
            },
            None => None,
        },
    }
}

} // verus!

verus! {

/// A message reference in a listing.
#[derive(Debug)]
pub struct MessageId {
    pub id: String,
    pub thread_id: Option<String>,
}

/// A page of a message listing.
#[derive(Debug)]
pub struct MessagesList {
    pub messages: Option<Vec<MessageId>>,
    pub next_page_token: Option<String>,
}

/// A message as the Gmail API returns it, in full or as metadata.
#[derive(Debug)]
pub struct MessageDetail {
    pub id: String,
    pub thread_id: String,
    pub snippet: Option<String>,
    pub label_ids: Option<Vec<String>>,
    pub payload: Payload,
}

/// The characters of an optional string, or nothing for none.
pub open spec fn chars_or_empty(o: Option<String>) -> Seq<char> {
    match o {
        Some(s) => s@,
        None => Seq::empty(),
    }
}

/// The labels of a message, or none.
pub open spec fn labels_of(o: Option<Vec<String>>) -> Seq<Seq<char>> {
    match o {
        Some(v) => v@.map_values(|l: String| l@),
        None => Seq::empty(),
    }
}

/// A message counts as read unless it carries the `UNREAD` label.
pub open spec fn read_from_labels(labels: Seq<Seq<char>>) -> bool {
    !labels.contains("UNREAD"@)
}

/// The placeholder listing entry for a message whose metadata is still to come.
pub open spec fn placeholder_summary(m: MessageId, category: MailboxCategory, now: i128, e: EmailSummary) -> bool {
    &&& e.id == m.id
    &&& e.thread_id@ == chars_or_empty(m.thread_id)
    &&& e.subject@.len() == 0
    &&& e.from@.len() == 0
    &&& e.date == now
    &&& e.snippet@.len() == 0
    &&& !e.is_read
    &&& e.category == category
}

fn string_or_empty(o: Option<String>) -> (r: String)
    ensures
        r@ == chars_or_empty(o),
{
    match o {
        Some(s) => s,
        None => String::new(),
    }
}

fn has_unread(labels: &Vec<String>) -> (r: bool)
    ensures
        r == labels@.map_values(|l: String| l@).contains("UNREAD"@),
{
    let ghost views = labels@.map_values(|l: String| l@);
    let mut i: usize = 0;
    while i < labels.len()
        invariant
            i <= labels.len(),
            views == labels@.map_values(|l: String| l@),
            forall|k: int| 0 <= k < i ==> views[k] != "UNREAD"@,
        decreases labels.len() - i,
    {
        if str_eq(labels[i].as_str(), "UNREAD") {
            assert(views[i as int] == "UNREAD"@);
            return true;
        }
        i = i + 1;
    }
    false
}

/// The listing entries for a page of message references, all in `category`, each dated
/// by the time in `times` at its position (the clock read as it was listed) until its
/// metadata arrives.
pub fn summaries_from_list(messages: Option<Vec<MessageId>>, category: MailboxCategory, times: &Vec<i128>) -> (r: Vec<EmailSummary>)
    requires
        times@.len() == (match messages {
            Some(v) => v@.len(),
            None => 0,
        }),
    ensures
        r@.len() == (match messages {
            Some(v) => v@.len(),
            None => 0,
        }),
        messages matches Some(v) ==> forall|k: int| 0 <= k < v@.len() ==> placeholder_summary(
            #[trigger] v@[k],
            category,
            times@[k],
            r@[k],
        ),
{
    let mut out: Vec<EmailSummary> = Vec::new();
    match messages {
        Some(v) => {
            let ghost orig = v@;
            let mut v = v;
            let n = v.len();
            let mut i: usize = 0;
            while i < n
                invariant
                    n == orig.len(),
                    i <= n,
                    v@ == orig.skip(i as int),
                    out@.len() == i,
                    times@.len() == n,
                    forall|k: int| 0 <= k < i ==> placeholder_summary(#[trigger] orig[k], category, times@[k], out@[k]),
                decreases n - i,
            {
                let m = v.remove(0);
                assert(v@ =~= orig.skip(i + 1));
                out.push(EmailSummary {
                    id: m.id,
                    thread_id: string_or_empty(m.thread_id),
                    subject: String::new(),
                    from: String::new(),
                    date: times[i],
                    snippet: String::new(),
                    is_read: false,
                    category,
                });
                i = i + 1;
            }
        },
        None => {},
    }
    out
}

/// The message a full response describes, dated `now` if its `Date` header does not parse.
pub fn message_from_detail(msg: MessageDetail, now: i128) -> (r: GmailMessage)
    ensures
        r.id == msg.id,
        r.thread_id == msg.thread_id,
        r.subject@ == header_spec(msg.payload.headers@, "Subject"@),
        r.from@ == header_spec(msg.payload.headers@, "From"@),
        r.to@ == header_spec(msg.payload.headers@, "To"@),
        r.date == date_from_header(header_spec(msg.payload.headers@, "Date"@), now),
        r.snippet@ == chars_or_empty(msg.snippet),
        r.body@ == (match body_text(msg.payload) {
            Some(t) => t,
            None => Seq::empty(),
        }),
        r.labels@.map_values(|l: String| l@) == labels_of(msg.label_ids),
        r.category == category_from_labels(labels_of(msg.label_ids)),
        r.is_read == read_from_labels(labels_of(msg.label_ids)),
{
    let subject = header_value(msg.payload.headers.as_slice(), "Subject");
    let from = header_value(msg.payload.headers.as_slice(), "From");
    let to = header_value(msg.payload.headers.as_slice(), "To");
    let date_str = header_value(msg.payload.headers.as_slice(), "Date");
    let date = parse_date(date_str.as_str(), now);
    let labels = match msg.label_ids {
        Some(l) => l,
        None => Vec::new(),
    };
    assert(labels@.map_values(|l: String| l@) =~= labels_of(msg.label_ids));
    let category = MailboxCategory::from_labels(labels.as_slice());
    let is_read = !has_unread(&labels);
    let body = match extract_body(&msg.payload) {
        Some(b) => b,
        None => String::new(),
    };
    GmailMessage {
        id: msg.id,
        thread_id: msg.thread_id,
        subject,
        from,
        to,
        date,
        snippet: string_or_empty(msg.snippet),
        body,
        is_read,
        labels,
        category,
    }
}

/// The listing entry a metadata response describes, dated `now` if its `Date` header
/// does not parse.
pub fn summary_from_detail(msg: MessageDetail, now: i128) -> (r: EmailSummary)
    ensures
        r.id == msg.id,
        r.thread_id == msg.thread_id,
        r.subject@ == header_spec(msg.payload.headers@, "Subject"@),
        r.from@ == header_spec(msg.payload.headers@, "From"@),
        r.date == date_from_header(header_spec(msg.payload.headers@, "Date"@), now),
        r.snippet@ == chars_or_empty(msg.snippet),
        r.category == category_from_labels(labels_of(msg.label_ids)),
        r.is_read == read_from_labels(labels_of(msg.label_ids)),
{
    let subject = header_value(msg.payload.headers.as_slice(), "Subject");
    let from = header_value(msg.payload.headers.as_slice(), "From");
    let date_str = header_value(msg.payload.headers.as_slice(), "Date");
    let date = parse_date(date_str.as_str(), now);
    let labels = match msg.label_ids {
        Some(l) => l,
        None => Vec::new(),
    };
    assert(labels@.map_values(|l: String| l@) =~= labels_of(msg.label_ids));
    let category = MailboxCategory::from_labels(labels.as_slice());
    let is_read = !has_unread(&labels);
    EmailSummary {
        id: msg.id,
        thread_id: msg.thread_id,
        subject,
        from,
        date,
        snippet: string_or_empty(msg.snippet),
        is_read,
        category,
    }
}

} // verus!

verus! {

/// The root of the Gmail REST API.
pub open spec fn gmail_base_url() -> Seq<char> {
    "https://gmail.googleapis.com/gmail/v1"@
}

/// The root of the Gmail REST API.
pub fn base_url() -> (r: &'static str)
    ensures
        r@ == gmail_base_url(),
{
    "https://gmail.googleapis.com/gmail/v1"
}

/// The URL that lists a page of the inbox messages in `category`.
pub open spec fn list_url_spec(base: Seq<char>, category: MailboxCategory, page_token: Option<Seq<char>>, max_results: usize) -> Seq<char> {
    let head = base + "/users/me/messages?labelIds=INBOX&q=category:"@ + query_name_spec(category)
        + "&maxResults="@ + decimal_seq(max_results as nat) + "&fields=messages(id,threadId),nextPageToken"@;
    match page_token {
        Some(t) => head + "&pageToken="@ + t,
        None => head,
    }
}

/// The URL of message `id` followed by `suffix`.
pub open spec fn message_url_spec(base: Seq<char>, id: Seq<char>, suffix: Seq<char>) -> Seq<char> {
    base + "/users/me/messages/"@ + id + suffix
}

fn concat3(a: &str, b: &str, c: &str) -> (r: String)
    ensures
        r@ == a@ + b@ + c@,
{
    let s = String::from_str(a);
    let s = s.concat(b);
    s.concat(c)
}

/// The URL that lists a page of the inbox messages in `category`.
pub fn list_messages_url(base: &str, category: MailboxCategory, page_token: Option<&str>, max_results: usize) -> (r: String)
    ensures
        r@ == list_url_spec(base@, category, match page_token {
            Some(t) => Some(t@),
            None => None,
        }, max_results),
{
    let digits = string_of(&decimal_chars(max_results as u64));
    let mut url = concat3(base, "/users/me/messages?labelIds=INBOX&q=category:", category.query_name());
    url = concat3(url.as_str(), "&maxResults=", digits.as_str());
    url = url.concat("&fields=messages(id,threadId),nextPageToken");
    match page_token {
        Some(t) => {
            url = concat3(url.as_str(), "&pageToken=", t);
        },
        None => {},
    }
    url
}

/// The URL that reads message `id` in full.
pub fn full_message_url(base: &str, id: &str) -> (r: String)
    ensures
        r@ == message_url_spec(base@, id@, "?format=full"@),
{
    concat3(base, "/users/me/messages/", id).concat("?format=full")
}

/// The URL that reads the subject, sender and date of message `id`.
pub fn metadata_url(base: &str, id: &str) -> (r: String)
    ensures
        r@ == message_url_spec(
            base@,
            id@,
            "?format=metadata&metadataHeaders=Subject&metadataHeaders=From&metadataHeaders=Date"@,
        ),
{
    concat3(base, "/users/me/messages/", id).concat(
        "?format=metadata&metadataHeaders=Subject&metadataHeaders=From&metadataHeaders=Date",
    )
}

/// The URL that deletes message `id`.
pub fn delete_message_url(base: &str, id: &str) -> (r: String)
    ensures
        r@ == message_url_spec(base@, id@, Seq::empty()),
{
    let r = concat3(base, "/users/me/messages/", id);
    assert(r@ =~= message_url_spec(base@, id@, Seq::empty()));
    r
}

/// The URL that changes the labels of message `id`.
pub fn modify_labels_url(base: &str, id: &str) -> (r: String)
    ensures
        r@ == message_url_spec(base@, id@, "/modify"@),
{
    concat3(base, "/users/me/messages/", id).concat("/modify")
}

/// The URL that sends a message.
pub fn send_message_url(base: &str) -> (r: String)
    ensures
        r@ == base@ + "/users/me/messages/send"@,
{
    String::from_str(base).concat("/users/me/messages/send")
}

} // verus!
