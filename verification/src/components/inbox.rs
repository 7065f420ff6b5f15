use vstd::prelude::*;
use vstd::utf8::{
    decode_utf8, decode_utf8_encode_utf8, encode_scalar, encode_utf8, encode_utf8_decode_utf8,
    encode_utf8_valid_utf8, is_char_boundary, valid_utf8_split,
};
use crate::gmail::auth::{MAX_UTC_TIMESTAMP, MIN_UTC_TIMESTAMP};
use crate::gmail::models::{split_nanos, subsec_nanos, whole_secs, MAX_UTC_NANOS, MIN_UTC_NANOS};
use crate::state::EmailSummary;
use crate::text::{
    chars_of, lemma_encode_concat, lemma_prefix_len_le, lemma_prefix_len_step, push_char, utf8_len, utf8_width,
};

verus! {

/// The listing of a mailbox: one row per message, with a read marker, the date, the
/// sender and the subject in columns of fixed width.
pub struct InboxComponent;

/// `n` spaces.
pub open spec fn spaces(n: nat) -> Seq<char> {
    Seq::new(n, |i: int| ' ')
}

/// A text fitted to `width` bytes: cut after `width` bytes where it is longer, else
/// followed by spaces up to `width` bytes.
pub open spec fn pad_or_trim_spec(s: Seq<char>, width: nat) -> Seq<char> {
    if utf8_len(s) > width {
        decode_utf8(encode_utf8(s).take(width as int))
    } else {
        s + spaces((width - utf8_len(s)) as nat)
    }
}

/// A text longer than `width` bytes has a character boundary at byte `width`, so that
/// cutting it there leaves whole characters (`String::truncate` panics elsewhere).
pub open spec fn cuts_cleanly(s: Seq<char>, width: nat) -> bool {
    utf8_len(s) > width ==> is_char_boundary(encode_utf8(s), width as int)
}

/// Spaces take one byte each.
pub proof fn lemma_spaces_len(n: nat)
    ensures
        utf8_len(spaces(n)) == n,
    decreases n,
{
    if n > 0 {
        lemma_spaces_len((n - 1) as nat);
        assert(spaces(n) =~= seq![' '] + spaces((n - 1) as nat));
        lemma_encode_concat(seq![' '], spaces((n - 1) as nat));
        assert(seq![' '].drop_first() =~= Seq::<char>::empty());
        assert(encode_utf8(seq![' ']) =~= encode_scalar(' ' as u32) + encode_utf8(Seq::<char>::empty()));
    }
}

/// Every text fitted by `pad_or_trim` takes exactly `width` bytes, so that the columns
/// of the listing line up.
pub proof fn lemma_pad_or_trim_width(s: Seq<char>, width: nat)
    requires
        cuts_cleanly(s, width),
    ensures
        utf8_len(pad_or_trim_spec(s, width)) == width,
{
    if utf8_len(s) > width {
        let bytes = encode_utf8(s);
        encode_utf8_valid_utf8(s);
        valid_utf8_split(bytes, width as int);
        assert(bytes.subrange(0, width as int) =~= bytes.take(width as int));
        decode_utf8_encode_utf8(bytes.take(width as int));
    } else {
        lemma_encode_concat(s, spaces((width - utf8_len(s)) as nat));
        lemma_spaces_len((width - utf8_len(s)) as nat);
    }
}

/// Fits a text to `width` bytes: cuts it after `width` bytes where it is longer, else
/// pads it with spaces.
pub fn pad_or_trim(input: &str, width: usize) -> (r: String)
    requires
        cuts_cleanly(input@, width as nat),
    ensures
        r@ == pad_or_trim_spec(input@, width as nat),
{
    let cs = chars_of(input);
    let mut used: usize = 0;
    let mut longer = false;
    let mut i: usize = 0;
    while i < cs.len() && !longer
        invariant
            i <= cs.len(),
            cs@ == input@,
            !longer ==> used == utf8_len(cs@.take(i as int)) && used <= width,
            longer ==> utf8_len(input@) > width,
        decreases cs.len() - i + if longer { 0int } else { 1int },
    {
        let w = utf8_width(cs[i]);
        proof {
            lemma_prefix_len_step(cs@, i as int);
        }
        if w > width - used {
            proof {
                lemma_prefix_len_le(cs@, i + 1);
            }
            longer = true;
        } else {
            used = used + w;
            i = i + 1;
        }
    }
    if longer {
        let (head, _tail) = input.split_at(width);
        proof {
            encode_utf8_decode_utf8(head@);
            assert(encode_utf8(input@).subrange(0, width as int) =~= encode_utf8(input@).take(width as int));
        }
        head.to_owned()
    } else {
        assert(cs@.take(i as int) =~= input@);
        let mut out = input.to_owned();
        let pad = width - used;
        let mut k: usize = 0;
        while k < pad
            invariant
                k <= pad,
                pad == width - utf8_len(input@),
                out@ == input@ + spaces(k as nat),
            decreases pad - k,
        {
            push_char(&mut out, ' ');
            assert(input@ + spaces((k + 1) as nat) =~= (input@ + spaces(k as nat)).push(' '));
            k = k + 1;
        }
        out
    }
}

/// What `chrono::DateTime::<Utc>::format("%b %d")` writes for a time given as whole
/// seconds since the Unix epoch and the nanoseconds after them: the month's abbreviated
/// name and the day of the month.
pub uninterp spec fn month_day_text(secs: i64, nanos: u32) -> Seq<char>;

/// `chrono::DateTime::from_timestamp`, then `format("%b %d")` of the result; the text is
/// named `month_day_text`. The `requires` keeps the time within what a `DateTime<Utc>` holds.
#[verifier::external_body]
fn format_month_day(secs: i64, nanos: u32) -> (r: String)
    requires
        MIN_UTC_TIMESTAMP <= secs <= MAX_UTC_TIMESTAMP,
        nanos < 1_000_000_000,
    ensures
        r@ == month_day_text(secs, nanos),
{
    match chrono::DateTime::from_timestamp(secs, nanos) {
        Some(d) => d.format("%b %d").to_string(),
        None => String::new(),
    }
}

/// A row of the listing: its columns as drawn, and whether the message is read.
pub struct InboxRow {
    /// A dot for an unread message, a space for a read one, then a space.
    pub marker: String,
    /// The date, then a space.
    pub date: String,
    /// The sender fitted to 22 bytes, then a space.
    pub from: String,
    /// The subject fitted to 50 bytes.
    pub subject: String,
    pub is_read: bool,
}

/// A row, as plain values.
pub struct InboxRowView {
    pub marker: Seq<char>,
    pub date: Seq<char>,
    pub from: Seq<char>,
    pub subject: Seq<char>,
    pub is_read: bool,
}

impl View for InboxRow {
    type V = InboxRowView;

    open spec fn view(&self) -> InboxRowView {
        InboxRowView {
            marker: self.marker@,
            date: self.date@,
            from: self.from@,
            subject: self.subject@,
            is_read: self.is_read,
        }
    }
}

/// The row for a message whose date reads `date_text`.
pub open spec fn row_spec(e: EmailSummary, date_text: Seq<char>) -> InboxRowView {
    InboxRowView {
        marker: (if e.is_read { " "@ } else { "•"@ }) + " "@,
        date: date_text + " "@,
        from: pad_or_trim_spec(e.from@, 22) + " "@,
        subject: pad_or_trim_spec(e.subject@, 50),
        is_read: e.is_read,
    }
}

/// The sender and subject can be cut to their columns.
pub open spec fn row_fits(e: EmailSummary) -> bool {
    cuts_cleanly(e.from@, 22) && cuts_cleanly(e.subject@, 50)
}

impl InboxComponent {
    /// The row for a message, with the date as the given text.
    pub fn row_dated(email: &EmailSummary, date_text: &str) -> (r: InboxRow)
        requires
            row_fits(*email),
        ensures
            r@ == row_spec(*email, date_text@),
    {
        let marker = if email.is_read { String::from_str("  ") } else { String::from_str("• ") };
        proof {
            reveal_strlit("  ");
            reveal_strlit(" ");
            reveal_strlit("• ");
            reveal_strlit("•");
            assert(" "@ + " "@ =~= "  "@);
            assert("•"@ + " "@ =~= "• "@);
        }
        InboxRow {
            marker,
            date: String::from_str(date_text).concat(" "),
            from: pad_or_trim(email.from.as_str(), 22).concat(" "),
            subject: pad_or_trim(email.subject.as_str(), 50),
            is_read: email.is_read,
        }
    }

    /// The row for a message, with the date as its month and day.
    pub fn row(email: &EmailSummary) -> (r: InboxRow)
        requires
            row_fits(*email),
            MIN_UTC_NANOS <= email.date <= MAX_UTC_NANOS,
        ensures
            r@ == row_spec(
                *email,
                month_day_text(whole_secs(email.date as int) as i64, subsec_nanos(email.date as int) as u32),
            ),
    {
        let (secs, nanos) = split_nanos(email.date);
        let date = format_month_day(secs, nanos);
        Self::row_dated(email, date.as_str())
    }
}

} // verus!
