use vstd::prelude::*;
use crate::gmail::auth::{MAX_UTC_TIMESTAMP, MIN_UTC_TIMESTAMP};
use crate::text::{chars_of, str_eq};

verus! {

/// A Gmail inbox category tab.
#[derive(Debug, Clone, Copy, PartialEq, Eq, Hash, Structural)]
pub enum MailboxCategory {
    Primary,
    Social,
    Promotions,
    Updates,
    Forums,
}

/// The category that a single Gmail label names, if it names one other than Primary.
pub open spec fn category_of_label(label: Seq<char>) -> Option<MailboxCategory> {
    if label == "CATEGORY_SOCIAL"@ {
        Some(MailboxCategory::Social)
    } else if label == "CATEGORY_PROMOTIONS"@ {
        Some(MailboxCategory::Promotions)
    } else if label == "CATEGORY_UPDATES"@ {
        Some(MailboxCategory::Updates)
    } else if label == "CATEGORY_FORUMS"@ {
        Some(MailboxCategory::Forums)
    } else {
        None
    }
}

/// The category of a message with these labels: the first category label decides,
/// and a message without one is Primary.
pub open spec fn category_from_labels(labels: Seq<Seq<char>>) -> MailboxCategory
    decreases labels.len(),
{
    if labels.len() == 0 {
        MailboxCategory::Primary
    } else {
        match category_of_label(labels[0]) {
            Some(c) => c,
            None => category_from_labels(labels.drop_first()),
        }
    }
}

/// The name Gmail's search syntax uses for a category.
pub open spec fn query_name_spec(c: MailboxCategory) -> Seq<char> {
    match c {
        MailboxCategory::Primary => "primary"@,
        MailboxCategory::Social => "social"@,
        MailboxCategory::Promotions => "promotions"@,
        MailboxCategory::Updates => "updates"@,
        MailboxCategory::Forums => "forums"@,
    }
}

/// The name a category is shown by.
pub open spec fn display_name_spec(c: MailboxCategory) -> Seq<char> {
    match c {
        MailboxCategory::Primary => "Primary"@,
        MailboxCategory::Social => "Social"@,
        MailboxCategory::Promotions => "Promos"@,
        MailboxCategory::Updates => "Updates"@,
        MailboxCategory::Forums => "Forums"@,
    }
}

/// The position of a category among the tabs.
pub open spec fn category_index(c: MailboxCategory) -> nat {
    match c {
        MailboxCategory::Primary => 0,
        MailboxCategory::Social => 1,
        MailboxCategory::Promotions => 2,
        MailboxCategory::Updates => 3,
        MailboxCategory::Forums => 4,
    }
}

/// The category at a tab position below 5.
pub open spec fn category_at(i: nat) -> MailboxCategory {
    if i == 0 {
        MailboxCategory::Primary
    } else if i == 1 {
        MailboxCategory::Social
    } else if i == 2 {
        MailboxCategory::Promotions
    } else if i == 3 {
        MailboxCategory::Updates
    } else {
        MailboxCategory::Forums
    }
}

fn label_category(label: &str) -> (r: Option<MailboxCategory>)
    ensures
        r == category_of_label(label@),
{
    if str_eq(label, "CATEGORY_SOCIAL") {
        Some(MailboxCategory::Social)
    } else if str_eq(label, "CATEGORY_PROMOTIONS") {
        Some(MailboxCategory::Promotions)
    } else if str_eq(label, "CATEGORY_UPDATES") {
        Some(MailboxCategory::Updates)
    } else if str_eq(label, "CATEGORY_FORUMS") {
        Some(MailboxCategory::Forums)
    } else {
        None
    }
}

impl MailboxCategory {
    /// The category of a message carrying `labels`.
    pub fn from_labels(labels: &[String]) -> (r: MailboxCategory)
        ensures
            r == category_from_labels(labels@.map_values(|l: String| l@)),
    {
        let ghost views = labels@.map_values(|l: String| l@);
        let mut i: usize = 0;
        assert(views.skip(0) =~= views);
        while i < labels.len()
            invariant
                i <= labels.len(),
                views == labels@.map_values(|l: String| l@),
                category_from_labels(views) == category_from_labels(views.skip(i as int)),
            decreases labels.len() - i,
        {
            assert(views.skip(i as int)[0] == labels@[i as int]@);
            assert(views.skip(i as int).drop_first() =~= views.skip(i + 1));
            match label_category(labels[i].as_str()) {
                Some(c) => {
                    return c;
                },
                None => {},
            }
            i = i + 1;
        }
        assert(views.skip(labels.len() as int).len() == 0);
        MailboxCategory::Primary
    }

    /// The name Gmail's `category:` search operator takes.
    pub fn query_name(&self) -> (r: &'static str)
        ensures
            r@ == query_name_spec(*self),
    {
        match self {
            MailboxCategory::Primary => "primary",
            MailboxCategory::Social => "social",
            MailboxCategory::Promotions => "promotions",
            MailboxCategory::Updates => "updates",
            MailboxCategory::Forums => "forums",
        }
    }

    /// The name the category is shown by in the tabs and the sidebar.
    pub fn display_name(&self) -> (r: &'static str)
        ensures
            r@ == display_name_spec(*self),
    {
        match self {
            MailboxCategory::Primary => "Primary",
            MailboxCategory::Social => "Social",
            MailboxCategory::Promotions => "Promos",
            MailboxCategory::Updates => "Updates",
            MailboxCategory::Forums => "Forums",
        }
    }

    /// The position of the category among the tabs.
    pub fn index(&self) -> (r: usize)
        ensures
            r == category_index(*self),
            r < 5,
    {
        match self {
            MailboxCategory::Primary => 0,
            MailboxCategory::Social => 1,
            MailboxCategory::Promotions => 2,
            MailboxCategory::Updates => 3,
            MailboxCategory::Forums => 4,
        }
    }

    /// The category at tab position `i`.
    pub fn at(i: usize) -> (r: MailboxCategory)
        requires
            i < 5,
        ensures
            r == category_at(i as nat),
            category_index(r) == i,
    {
        if i == 0 {
            MailboxCategory::Primary
        } else if i == 1 {
            MailboxCategory::Social
        } else if i == 2 {
            MailboxCategory::Promotions
        } else if i == 3 {
            MailboxCategory::Updates
        } else {
            MailboxCategory::Forums
        }
    }
}

/// Each category sits at its own position, and that position leads back to it.
pub proof fn lemma_category_index_roundtrip(c: MailboxCategory)
    ensures
        category_index(c) < 5,
        category_at(category_index(c)) == c,
{
}

/// A character in ASCII upper case: `a` to `z` become `A` to `Z`, others stay.
pub open spec fn ascii_upper_char(c: char) -> char {
    match c {
        'a' => 'A',
        'b' => 'B',
        'c' => 'C',
        'd' => 'D',
        'e' => 'E',
        'f' => 'F',
        'g' => 'G',
        'h' => 'H',
        'i' => 'I',
        'j' => 'J',
        'k' => 'K',
        'l' => 'L',
        'm' => 'M',
        'n' => 'N',
        'o' => 'O',
        'p' => 'P',
        'q' => 'Q',
        'r' => 'R',
        's' => 'S',
        't' => 'T',
        'u' => 'U',
        'v' => 'V',
        'w' => 'W',
        'x' => 'X',
        'y' => 'Y',
        'z' => 'Z',
        _ => c,
    }
}

/// A text in ASCII upper case.
pub open spec fn ascii_upper(s: Seq<char>) -> Seq<char> {
    s.map_values(|c: char| ascii_upper_char(c))
}

/// The Gmail label of a category: `CATEGORY_` and its query name in upper case.
pub open spec fn category_label(c: MailboxCategory) -> Seq<char> {
    "CATEGORY_"@ + ascii_upper(query_name_spec(c))
}

/// A message labelled with a category's label is filed under that category: the label
/// built from the upper-cased query name reads back as the category (Primary's label is
/// no category label, and a message without one is Primary).
pub proof fn lemma_category_label_roundtrip(c: MailboxCategory)
    ensures
        category_from_labels(seq![category_label(c)]) == c,
{
    reveal_strlit("CATEGORY_");
    reveal_strlit("primary");
    reveal_strlit("social");
    reveal_strlit("promotions");
    reveal_strlit("updates");
    reveal_strlit("forums");
    reveal_strlit("CATEGORY_SOCIAL");
    reveal_strlit("CATEGORY_PROMOTIONS");
    reveal_strlit("CATEGORY_UPDATES");
    reveal_strlit("CATEGORY_FORUMS");
    let label = category_label(c);
    let name = query_name_spec(c);
    assert("CATEGORY_"@.len() == 9);
    assert(label.len() == 9 + name.len());
    assert(forall|i: int| 0 <= i < name.len() ==> label[9 + i] == ascii_upper_char(#[trigger] name[i]));
    assert(forall|i: int| 0 <= i < 9 ==> label[i] == #[trigger] "CATEGORY_"@[i]);
    assert(seq![label].drop_first() =~= Seq::<Seq<char>>::empty());
    assert(seq![label][0] == label);
    assert(category_from_labels(Seq::<Seq<char>>::empty()) == MailboxCategory::Primary);
    match c {
        MailboxCategory::Primary => {
            assert(name[0] == 'p');
            assert(label[9] == 'P');
            assert(label != "CATEGORY_SOCIAL"@ && label != "CATEGORY_PROMOTIONS"@);
            assert(label != "CATEGORY_UPDATES"@ && label != "CATEGORY_FORUMS"@);
            assert(category_of_label(label) is None);
        },
        MailboxCategory::Social => {
            assert(label =~= "CATEGORY_SOCIAL"@);
            assert(category_of_label(label) == Some(MailboxCategory::Social));
        },
        MailboxCategory::Promotions => {
            assert(label =~= "CATEGORY_PROMOTIONS"@);
            assert(category_of_label(label) == Some(MailboxCategory::Promotions));
        },
        MailboxCategory::Updates => {
            assert(label =~= "CATEGORY_UPDATES"@);
            assert(category_of_label(label) == Some(MailboxCategory::Updates));
        },
        MailboxCategory::Forums => {
            assert(label =~= "CATEGORY_FORUMS"@);
            assert(label[9] != "CATEGORY_SOCIAL"@[9]);
            assert(category_of_label(label) == Some(MailboxCategory::Forums));
        },
    }
}

/// A time given as whole seconds since the Unix epoch and the nanoseconds after them,
/// in nanoseconds since the epoch.
pub open spec fn epoch_nanos(secs: i64, nanos: u32) -> int {
    secs * 1_000_000_000 + nanos
}

/// The whole seconds of a time in nanoseconds since the epoch, rounded down.
pub open spec fn whole_secs(t: int) -> int {
    t / 1_000_000_000
}

/// The nanoseconds of a time after its whole seconds.
pub open spec fn subsec_nanos(t: int) -> int {
    t % 1_000_000_000
}

/// The earliest time, in nanoseconds since the Unix epoch, that `chrono::DateTime<Utc>` holds.
pub const MIN_UTC_NANOS: i128 = -8_334_601_315_200_000_000_000;

/// The latest time, in nanoseconds since the Unix epoch, that `chrono::DateTime<Utc>` holds.
pub const MAX_UTC_NANOS: i128 = 8_210_266_876_799_999_999_999;

/// A time in nanoseconds since the epoch, split into its whole seconds and the
/// nanoseconds after them.
pub fn split_nanos(t: i128) -> (r: (i64, u32))
    requires
        MIN_UTC_NANOS <= t <= MAX_UTC_NANOS,
    ensures
        r.0 == whole_secs(t as int),
        r.1 == subsec_nanos(t as int),
        MIN_UTC_TIMESTAMP <= r.0 <= MAX_UTC_TIMESTAMP,
        r.1 < 1_000_000_000,
{
    let offset = (t - MIN_UTC_NANOS) as u128;
    let q = offset / 1_000_000_000;
    let rem = offset % 1_000_000_000;
    proof {
        vstd::arithmetic::div_mod::lemma_fundamental_div_mod(offset as int, 1_000_000_000);
        let secs = q as int + MIN_UTC_TIMESTAMP as int;
        assert(t == secs * 1_000_000_000 + rem) by (nonlinear_arith)
            requires
                offset == t - MIN_UTC_NANOS,
                offset == 1_000_000_000 * (offset as int / 1_000_000_000) + offset as int % 1_000_000_000,
                q == offset as int / 1_000_000_000,
                rem == offset as int % 1_000_000_000,
                secs == q as int + MIN_UTC_TIMESTAMP as int,
                MIN_UTC_NANOS == MIN_UTC_TIMESTAMP * 1_000_000_000,
        ;
        vstd::arithmetic::div_mod::lemma_fundamental_div_mod_converse(t as int, 1_000_000_000, secs, rem as int);
    }
    ((q as i128 + MIN_UTC_TIMESTAMP as i128) as i64, rem as u32)
}

/// A message as read in full.
#[derive(Debug)]
pub struct GmailMessage {
    pub id: String,
    pub thread_id: String,
    pub subject: String,
    pub from: String,
    pub to: String,
    /// Nanoseconds since the Unix epoch, UTC.
    pub date: i128,
    pub snippet: String,
    pub body: String,
    pub is_read: bool,
    pub labels: Vec<String>,
    pub category: MailboxCategory,
}

/// A thread of messages.
#[derive(Debug)]
pub struct GmailThread {
    pub id: String,
    pub messages: Vec<GmailMessage>,
    pub snippet: String,
}

/// A Gmail label.
#[derive(Debug)]
pub struct Label {
    pub id: String,
    pub name: String,
}

/// Copies a list of strings.
pub fn clone_strings(v: &Vec<String>) -> (r: Vec<String>)
    ensures
        r@ == v@,
{
    let mut r: Vec<String> = Vec::new();
    let mut i: usize = 0;
    while i < v.len()
        invariant
            i <= v.len(),
            r@ == v@.take(i as int),
        decreases v.len() - i,
    {
        r.push(v[i].clone());
        assert(r@ =~= v@.take(i + 1));
        i = i + 1;
    }
    assert(v@.take(v.len() as int) =~= v@);
    r
}

/// The contents of a message, as plain values.
pub struct MessageView {
    pub id: Seq<char>,
    pub thread_id: Seq<char>,
    pub subject: Seq<char>,
    pub from: Seq<char>,
    pub to: Seq<char>,
    pub date: i128,
    pub snippet: Seq<char>,
    pub body: Seq<char>,
    pub is_read: bool,
    pub labels: Seq<Seq<char>>,
    pub category: MailboxCategory,
}

impl View for GmailMessage {
    type V = MessageView;

    open spec fn view(&self) -> MessageView {
        MessageView {
            id: self.id@,
            thread_id: self.thread_id@,
            subject: self.subject@,
            from: self.from@,
            to: self.to@,
            date: self.date,
            snippet: self.snippet@,
            body: self.body@,
            is_read: self.is_read,
            labels: self.labels@.map_values(|l: String| l@),
            category: self.category,
        }
    }
}

impl Clone for GmailMessage {
    fn clone(&self) -> (r: Self)
        ensures
            r@ == self@,
    {
        GmailMessage {
            id: self.id.clone(),
            thread_id: self.thread_id.clone(),
            subject: self.subject.clone(),
            from: self.from.clone(),
            to: self.to.clone(),
            date: self.date,
            snippet: self.snippet.clone(),
            body: self.body.clone(),
            is_read: self.is_read,
            labels: clone_strings(&self.labels),
            category: self.category,
        }
    }
}

} // verus!
