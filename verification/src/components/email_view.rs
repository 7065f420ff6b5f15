use vstd::prelude::*;
use crate::gmail::models::{split_nanos, subsec_nanos, whole_secs, GmailMessage, MessageView};

verus! {

/// The message pane: a header with subject, sender, recipient and date, then the body.
pub struct EmailViewComponent;

/// The earliest time, in seconds since the Unix epoch, in year 0: RFC 2822 dates start there.
pub const MIN_RFC2822_TIMESTAMP: i64 = -62_167_219_200;

/// The latest time, in seconds since the Unix epoch, in year 9999: RFC 2822 dates end there.
pub const MAX_RFC2822_TIMESTAMP: i64 = 253_402_300_799;

/// The earliest time, in nanoseconds since the Unix epoch, in year 0.
pub const MIN_RFC2822_NANOS: i128 = -62_167_219_200_000_000_000;

/// The latest time, in nanoseconds since the Unix epoch, in year 9999.
pub const MAX_RFC2822_NANOS: i128 = 253_402_300_799_999_999_999;

/// What `chrono::DateTime::<Utc>::to_rfc2822` writes for a time given as whole seconds
/// since the Unix epoch and the nanoseconds after them.
pub uninterp spec fn rfc2822_text(secs: i64, nanos: u32) -> Seq<char>;

/// `chrono::DateTime::from_timestamp`, then `to_rfc2822` of the result; its result is
/// named `rfc2822_text`. `to_rfc2822` panics outside years 0 to 9999, which the
/// `requires` leaves out.
#[verifier::external_body]
fn format_rfc2822(secs: i64, nanos: u32) -> (r: String)
    requires
        MIN_RFC2822_TIMESTAMP <= secs <= MAX_RFC2822_TIMESTAMP,
        nanos < 1_000_000_000,
    ensures
        r@ == rfc2822_text(secs, nanos),
{
    match chrono::DateTime::from_timestamp(secs, nanos) {
        Some(d) => d.to_rfc2822(),
        None => String::new(),
    }
}

/// The header lines for a message whose date reads `date_text`: the subject, then the
/// sender, the recipient and the date, each after its label; without a message, a
/// notice that none is selected.
pub open spec fn header_lines_spec(m: Option<MessageView>, date_text: Seq<char>) -> Seq<Seq<char>> {
    match m {
        Some(e) => seq![e.subject, "From: "@ + e.from, "To: "@ + e.to, "Date: "@ + date_text],
        None => seq!["No email selected"@],
    }
}

/// The message, as plain values.
pub open spec fn message_ref_view(m: Option<&GmailMessage>) -> Option<MessageView> {
    match m {
        Some(e) => Some(e@),
        None => None,
    }
}

/// The body the pane shows: the message's, or a notice that none is loaded.
pub open spec fn body_text_spec(m: Option<MessageView>) -> Seq<char> {
    match m {
        Some(e) => e.body,
        None => "(no body loaded)"@,
    }
}

impl EmailViewComponent {
    /// The header lines, with the date as the given text.
    pub fn header_lines_dated(message: Option<&GmailMessage>, date_text: &str) -> (r: Vec<String>)
        ensures
            r@.map_values(|s: String| s@) == header_lines_spec(message_ref_view(message), date_text@),
    {
        let mut v: Vec<String> = Vec::new();
        match message {
            Some(e) => {
                v.push(e.subject.clone());
                v.push(String::from_str("From: ").concat(e.from.as_str()));
                v.push(String::from_str("To: ").concat(e.to.as_str()));
                v.push(String::from_str("Date: ").concat(date_text));
            },
            None => {
                v.push(String::from_str("No email selected"));
            },
        }
        assert(v@.map_values(|s: String| s@) =~= header_lines_spec(message_ref_view(message), date_text@));
        v
    }

    /// The header lines, with the date as RFC 2822 writes it.
    pub fn header_lines(message: Option<&GmailMessage>) -> (r: Vec<String>)
        requires
            match message {
                Some(e) => MIN_RFC2822_NANOS <= e.date <= MAX_RFC2822_NANOS,
                None => true,
            },
        ensures
            r@.map_values(|s: String| s@) == header_lines_spec(
                message_ref_view(message),
                match message {
                    Some(e) => rfc2822_text(whole_secs(e.date as int) as i64, subsec_nanos(e.date as int) as u32),
                    None => Seq::empty(),
                },
            ),
    {
        match message {
            Some(e) => {
                let (secs, nanos) = split_nanos(e.date);
                let date = format_rfc2822(secs, nanos);
                Self::header_lines_dated(message, date.as_str())
            },
            None => Self::header_lines_dated(message, ""),
        }
    }

    /// The body the pane shows.
    pub fn body_text(message: Option<&GmailMessage>) -> (r: String)
        ensures
            r@ == body_text_spec(message_ref_view(message)),
    {
        match message {
            Some(e) => e.body.clone(),
            None => String::from_str("(no body loaded)"),
        }
    }
}

} // verus!
