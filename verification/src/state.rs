use vstd::prelude::*;
use vstd::relations::injective_on;
use vstd::set_lib::{lemma_int_range, lemma_map_size, lemma_subset_equality, set_int_range};
use crate::gmail::models::{category_index, GmailMessage, MailboxCategory, MessageView};
use crate::text::{chars_le, chars_of, contains_chars, contains_seq, occurs_at, extend_chars, join_chars, join_seq, lines_chars, lines_seq, drop_cr, lemma_lines_from_plain, lemma_lines_from_nonempty, lemma_join_prepend, starts_with_chars, starts_with_seq, string_of, lemma_seq_le_total, lemma_seq_le_trans, lowercase, seq_le, to_lowercase, utf8_len};

verus! {

/// Which screen the application shows and which keys it reads.
#[derive(Debug)]
pub enum AppMode {
    Normal,
    Search,
    Compose,
    EmailView,
    Help,
    Confirm(ConfirmAction),
}

/// An action that waits for the user's yes or no.
#[derive(Debug)]
pub enum ConfirmAction {
    DeleteEmail(String),
}

/// How the status line colours a message.
#[derive(Debug, Clone, Copy, PartialEq, Eq, Structural)]
pub enum StatusLevel {
    Info,
    Warning,
    Error,
}

/// The order a mailbox lists its messages in.
#[derive(Debug, Clone, Copy, PartialEq, Eq, Structural)]
pub enum SortOrder {
    DateDesc,
    DateAsc,
    SenderAsc,
    SubjectAsc,
}

/// One line of a mailbox listing.
#[derive(Debug)]
pub struct EmailSummary {
    pub id: String,
    pub thread_id: String,
    pub subject: String,
    pub from: String,
    /// Nanoseconds since the Unix epoch, UTC.
    pub date: i128,
    pub snippet: String,
    pub is_read: bool,
    pub category: MailboxCategory,
}

impl Clone for EmailSummary {
    fn clone(&self) -> (r: Self)
        ensures
            r == *self,
    {
        EmailSummary {
            id: self.id.clone(),
            thread_id: self.thread_id.clone(),
            subject: self.subject.clone(),
            from: self.from.clone(),
            date: self.date,
            snippet: self.snippet.clone(),
            is_read: self.is_read,
            category: self.category,
        }
    }
}

/// Copies a list of summaries.
pub fn clone_summaries(v: &Vec<EmailSummary>) -> (r: Vec<EmailSummary>)
    ensures
        r@ == v@,
{
    let mut r: Vec<EmailSummary> = Vec::new();
    let mut i: usize = 0;
    while i < v.len()
        invariant
            i <= v.len(),
            r@ == v@.take(i as int),
        decreases v.len() - i,
    {
        r.push(v[i].clone());
        assert(r@ =~= v@.take(i + 1));
        i = i + 1;
    }
    assert(v@.take(v.len() as int) =~= v@);
    r
}

/// `a` may stand before `b` in a listing sorted by `order`.
pub open spec fn sorts_before(order: SortOrder, a: EmailSummary, b: EmailSummary) -> bool {
    match order {
        SortOrder::DateDesc => b.date <= a.date,
        SortOrder::DateAsc => a.date <= b.date,
        SortOrder::SenderAsc => seq_le(lowercase(a.from@), lowercase(b.from@)),
        SortOrder::SubjectAsc => seq_le(lowercase(a.subject@), lowercase(b.subject@)),
    }
}

/// Any two entries can be ordered: one of them may stand before the other.
pub proof fn lemma_sorts_before_total(order: SortOrder, a: EmailSummary, b: EmailSummary)
    ensures
        sorts_before(order, a, b) || sorts_before(order, b, a),
{
    match order {
        SortOrder::SenderAsc => lemma_seq_le_total(lowercase(a.from@), lowercase(b.from@)),
        SortOrder::SubjectAsc => lemma_seq_le_total(lowercase(a.subject@), lowercase(b.subject@)),
        _ => {},
    }
}

/// The order of a listing is transitive.
pub proof fn lemma_sorts_before_trans(
    order: SortOrder,
    a: EmailSummary,
    b: EmailSummary,
    c: EmailSummary,
)
    requires
        sorts_before(order, a, b),
        sorts_before(order, b, c),
    ensures
        sorts_before(order, a, c),
{
    match order {
        SortOrder::SenderAsc => lemma_seq_le_trans(
            lowercase(a.from@),
            lowercase(b.from@),
            lowercase(c.from@),
        ),
        SortOrder::SubjectAsc => lemma_seq_le_trans(
            lowercase(a.subject@),
            lowercase(b.subject@),
            lowercase(c.subject@),
        ),
        _ => {},
    }
}

/// The first `n` entries of `s` are in order.
pub open spec fn sorted_prefix(order: SortOrder, s: Seq<EmailSummary>, n: int) -> bool {
    forall|a: int, b: int|
        #![trigger s[a], s[b]]
        0 <= a < b < n ==> sorts_before(order, s[a], s[b])
}

/// Among the first `n` entries of `s`, entries that compare equal keep the order of
/// the positions `p` they came from.
pub open spec fn stable_prefix(order: SortOrder, s: Seq<EmailSummary>, p: Seq<int>, n: int) -> bool {
    forall|a: int, b: int|
        #![trigger s[a], s[b]]
        0 <= a < b < n && sorts_before(order, s[b], s[a]) ==> p[a] < p[b]
}

/// `p` takes the positions of `out` to distinct positions of `input` holding the same entries.
pub open spec fn is_permutation_of(out: Seq<EmailSummary>, input: Seq<EmailSummary>, p: Seq<int>) -> bool {
    &&& out.len() == input.len()
    &&& p.len() == input.len()
    &&& forall|k: int| 0 <= k < out.len() ==> 0 <= #[trigger] p[k] < input.len() && out[k] == input[p[k]]
    &&& forall|k: int, l: int| #![trigger p[k], p[l]] 0 <= k < l < out.len() ==> p[k] != p[l]
}

/// `out` holds the entries of `input` sorted by `order`, entries that compare equal
/// keeping their relative order (a stable sort).
pub open spec fn is_stable_sort_of(order: SortOrder, out: Seq<EmailSummary>, input: Seq<EmailSummary>) -> bool {
    exists|p: Seq<int>|
        is_permutation_of(out, input, p) && sorted_prefix(order, out, out.len() as int)
            && stable_prefix(order, out, p, out.len() as int)
}

/// Whether `a` may stand before `b` in a listing sorted by `order`.
pub fn sorts_before_exec(order: SortOrder, a: &EmailSummary, b: &EmailSummary) -> (r: bool)
    ensures
        r == sorts_before(order, *a, *b),
{
    match order {
        SortOrder::DateDesc => b.date <= a.date,
        SortOrder::DateAsc => a.date <= b.date,
        SortOrder::SenderAsc => {
            let x = chars_of(to_lowercase(a.from.as_str()).as_str());
            let y = chars_of(to_lowercase(b.from.as_str()).as_str());
            chars_le(&x, &y)
        },
        SortOrder::SubjectAsc => {
            let x = chars_of(to_lowercase(a.subject.as_str()).as_str());
            let y = chars_of(to_lowercase(b.subject.as_str()).as_str());
            chars_le(&x, &y)
        },
    }
}

#[verifier::spinoff_prover]
proof fn lemma_insert_step(
    order: SortOrder,
    v: Seq<EmailSummary>,
    p: Seq<int>,
    input: Seq<EmailSummary>,
    i: int,
    j: int,
)
    requires
        0 <= j <= i < v.len(),
        is_permutation_of(v, input, p),
        forall|k: int| i <= k < v.len() ==> #[trigger] p[k] == k,
        forall|k: int| 0 <= k < i ==> #[trigger] p[k] < i,
        sorted_prefix(order, v, i),
        stable_prefix(order, v, p, i),
        j > 0 ==> sorts_before(order, v[j - 1], v[i]),
        forall|k: int| j <= k < i ==> !sorts_before(order, #[trigger] v[k], v[i]),
    ensures
        ({
            let w = v.remove(i).insert(j, v[i]);
            let q = p.remove(i).insert(j, i);
            &&& is_permutation_of(w, input, q)
            &&& forall|k: int| i + 1 <= k < w.len() ==> #[trigger] q[k] == k
            &&& forall|k: int| 0 <= k < i + 1 ==> #[trigger] q[k] < i + 1
            &&& sorted_prefix(order, w, i + 1)
            &&& stable_prefix(order, w, q, i + 1)
        }),
{
    let x = v[i];
    let w = v.remove(i).insert(j, x);
    let q = p.remove(i).insert(j, i);
    assert(w.len() == v.len());
    assert(q.len() == p.len());
    assert forall|k: int| 0 <= k < j implies #[trigger] w[k] == v[k] && q[k] == p[k] by {}
    assert(w[j] == x && q[j] == i);
    assert forall|k: int| j < k <= i implies #[trigger] w[k] == v[k - 1] && q[k] == p[k - 1] by {}
    assert forall|k: int| i < k < v.len() implies #[trigger] w[k] == v[k] && q[k] == p[k] by {}
    assert forall|k: int| 0 <= k < j implies sorts_before(order, #[trigger] v[k], x) by {
        if k < j - 1 {
            assert(sorts_before(order, v[k], v[j - 1]));
            lemma_sorts_before_trans(order, v[k], v[j - 1], x);
        }
    }
    assert forall|k: int| j <= k < i implies sorts_before(order, x, #[trigger] v[k]) by {
        lemma_sorts_before_total(order, x, v[k]);
    }
    assert forall|k: int| 0 <= k < w.len() implies 0 <= #[trigger] q[k] < input.len() && w[k]
        == input[q[k]] by {
        if k < j {
            assert(w[k] == v[k] && q[k] == p[k]);
            assert(0 <= p[k] < input.len() && v[k] == input[p[k]]);
        } else if k == j {
            assert(p[i] == i);
            assert(0 <= p[i] < input.len() && v[i] == input[p[i]]);
        } else if k <= i {
            assert(w[k] == v[k - 1] && q[k] == p[k - 1]);
            assert(0 <= p[k - 1] < input.len() && v[k - 1] == input[p[k - 1]]);
        } else {
            assert(w[k] == v[k] && q[k] == p[k]);
            assert(0 <= p[k] < input.len() && v[k] == input[p[k]]);
        }
    }
    assert forall|k: int, l: int| #![trigger q[k], q[l]] 0 <= k < l < w.len() implies q[k] != q[l] by {
        if k < j {
            if l < j {
                assert(p[k] != p[l]);
            } else if l == j {
            } else if l <= i {
                assert(p[k] != p[l - 1]);
            } else {
                assert(p[k] != p[l]);
            }
        } else if k == j {
            if l <= i {
                assert(p[l - 1] < i);
            } else {
                assert(p[l] == l);
            }
        } else if k <= i {
            if l <= i {
                assert(p[k - 1] != p[l - 1]);
            } else {
                assert(p[k - 1] != p[l]);
            }
        } else {
            assert(p[k] != p[l]);
        }
    }
    assert forall|a: int, b: int| #![trigger w[a], w[b]] 0 <= a < b < i + 1 implies sorts_before(
        order,
        w[a],
        w[b],
    ) by {
        if b < j {
            assert(sorts_before(order, v[a], v[b]));
        } else if b == j {
            assert(sorts_before(order, v[a], x));
        } else if a < j {
            assert(sorts_before(order, v[a], v[b - 1]));
        } else if a == j {
            assert(sorts_before(order, x, v[b - 1]));
        } else {
            assert(sorts_before(order, v[a - 1], v[b - 1]));
        }
    }
    assert forall|a: int, b: int| #![trigger w[a], w[b]]
        0 <= a < b < i + 1 && sorts_before(order, w[b], w[a]) implies q[a] < q[b] by {
        if b < j {
            assert(sorts_before(order, v[b], v[a]));
        } else if b == j {
            assert(p[a] < i);
        } else if a < j {
            assert(sorts_before(order, v[b - 1], v[a]));
        } else if a == j {
            assert(!sorts_before(order, v[b - 1], x));
        } else {
            assert(sorts_before(order, v[b - 1], v[a - 1]));
        }
    }
}

/// Sorting loses no entry: the sorted listing is as long as what was sorted and holds
/// each of its entries.
pub proof fn lemma_sort_keeps_entries(order: SortOrder, out: Seq<EmailSummary>, input: Seq<EmailSummary>, j: int)
    requires
        is_stable_sort_of(order, out, input),
        0 <= j < input.len(),
    ensures
        out.len() == input.len(),
        out.contains(input[j]),
{
    let p = choose|p: Seq<int>|
        is_permutation_of(out, input, p) && sorted_prefix(order, out, out.len() as int)
            && stable_prefix(order, out, p, out.len() as int);
    let n = input.len() as int;
    let positions = set_int_range(0, n);
    lemma_int_range(0, n);
    let f = |k: int| p[k];
    let sources = positions.map(f);
    assert(injective_on(f, positions)) by {
        assert forall|a: int, b: int|
            positions.contains(a) && positions.contains(b) && #[trigger] f(a) == #[trigger] f(b) implies a == b by {
            if a < b {
                assert(p[a] != p[b]);
            } else if b < a {
                assert(p[b] != p[a]);
            }
        }
    }
    lemma_map_size(positions, sources, f);
    assert(sources.subset_of(positions)) by {
        assert forall|v: int| sources.contains(v) implies positions.contains(v) by {
            let k = choose|k: int| positions.contains(k) && v == f(k);
            assert(0 <= p[k] < n);
        }
    }
    lemma_subset_equality(sources, positions);
    assert(positions.contains(j));
    assert(sources.contains(j));
    let k = choose|k: int| positions.contains(k) && j == f(k);
    assert(out[k] == input[j]);
}

/// Sorts a listing by `order`, keeping entries that compare equal in their order,
/// as the stable `sort_by` of std does.
pub fn sort_emails(emails: &mut Vec<EmailSummary>, order: SortOrder)
    ensures
        is_stable_sort_of(order, final(emails)@, old(emails)@),
{
    let ghost input = emails@;
    let ghost mut p: Seq<int> = Seq::new(emails@.len(), |k: int| k);
    let n = emails.len();
    let mut i: usize = 0;
    while i < n
        invariant
            n == emails.len(),
            i <= n,
            is_permutation_of(emails@, input, p),
            forall|k: int| i <= k < n ==> #[trigger] p[k] == k,
            forall|k: int| 0 <= k < i ==> #[trigger] p[k] < i,
            sorted_prefix(order, emails@, i as int),
            stable_prefix(order, emails@, p, i as int),
        decreases n - i,
    {
        let mut j: usize = i;
        while j > 0 && !sorts_before_exec(order, &emails[j - 1], &emails[i])
            invariant
                n == emails.len(),
                j <= i < n,
                forall|k: int| j <= k < i ==> !sorts_before(order, #[trigger] emails@[k], emails@[i as int]),
            decreases j,
        {
            j = j - 1;
        }
        proof {
            lemma_insert_step(order, emails@, p, input, i as int, j as int);
            p = p.remove(i as int).insert(j as int, i as int);
        }
        let x = emails.remove(i);
        emails.insert(j, x);
        i = i + 1;
    }
    assert(is_permutation_of(emails@, input, p) && sorted_prefix(order, emails@, emails@.len() as int)
        && stable_prefix(order, emails@, p, emails@.len() as int));
}


/// Sorting by subject ignores case: in a listing sorted by `SubjectAsc` the lower-cased
/// subjects never decrease, so "apple" stands before "Banana".
pub proof fn lemma_subject_sort_ignores_case(out: Seq<EmailSummary>, input: Seq<EmailSummary>)
    requires
        is_stable_sort_of(SortOrder::SubjectAsc, out, input),
    ensures
        forall|i: int, j: int|
            #![trigger out[i], out[j]]
            0 <= i < j < out.len() ==> seq_le(lowercase(out[i].subject@), lowercase(out[j].subject@)),
{
    assert forall|i: int, j: int| #![trigger out[i], out[j]] 0 <= i < j < out.len() implies seq_le(
        lowercase(out[i].subject@),
        lowercase(out[j].subject@),
    ) by {
        assert(sorts_before(SortOrder::SubjectAsc, out[i], out[j]));
    }
}

/// Sorting by sender ignores case: in a listing sorted by `SenderAsc` the lower-cased
/// senders never decrease.
pub proof fn lemma_sender_sort_ignores_case(out: Seq<EmailSummary>, input: Seq<EmailSummary>)
    requires
        is_stable_sort_of(SortOrder::SenderAsc, out, input),
    ensures
        forall|i: int, j: int|
            #![trigger out[i], out[j]]
            0 <= i < j < out.len() ==> seq_le(lowercase(out[i].from@), lowercase(out[j].from@)),
{
    assert forall|i: int, j: int| #![trigger out[i], out[j]] 0 <= i < j < out.len() implies seq_le(
        lowercase(out[i].from@),
        lowercase(out[j].from@),
    ) by {
        assert(sorts_before(SortOrder::SenderAsc, out[i], out[j]));
    }
}

/// Where an entry stands in a sort by subject or by sender does not depend on the case
/// of that field: an entry compares with any other as one whose field differs from it in
/// case alone.
pub proof fn lemma_text_orders_blind_to_case(a: EmailSummary, a2: EmailSummary, b: EmailSummary)
    ensures
        lowercase(a.subject@) == lowercase(a2.subject@) ==> sorts_before(SortOrder::SubjectAsc, a, b)
            == sorts_before(SortOrder::SubjectAsc, a2, b) && sorts_before(SortOrder::SubjectAsc, b, a)
            == sorts_before(SortOrder::SubjectAsc, b, a2),
        lowercase(a.from@) == lowercase(a2.from@) ==> sorts_before(SortOrder::SenderAsc, a, b)
            == sorts_before(SortOrder::SenderAsc, a2, b) && sorts_before(SortOrder::SenderAsc, b, a)
            == sorts_before(SortOrder::SenderAsc, b, a2),
{
}


/// A listing sorted newest first has dates that never increase, and one sorted oldest
/// first has dates that never decrease.
pub proof fn lemma_date_sorts_order_dates(order: SortOrder, out: Seq<EmailSummary>, input: Seq<EmailSummary>)
    requires
        order == SortOrder::DateDesc || order == SortOrder::DateAsc,
        is_stable_sort_of(order, out, input),
    ensures
        order == SortOrder::DateDesc ==> forall|i: int, j: int|
            #![trigger out[i], out[j]]
            0 <= i < j < out.len() ==> out[j].date <= out[i].date,
        order == SortOrder::DateAsc ==> forall|i: int, j: int|
            #![trigger out[i], out[j]]
            0 <= i < j < out.len() ==> out[i].date <= out[j].date,
{
    assert forall|i: int, j: int| #![trigger out[i], out[j]] 0 <= i < j < out.len() implies sorts_before(
        order,
        out[i],
        out[j],
    ) by {}
}

} // verus!

verus! {

/// The selection of a list widget.
#[derive(Debug, Clone, Copy, PartialEq, Eq, Structural)]
pub struct ListState {
    pub selected: Option<usize>,
}

impl ListState {
    /// A list with nothing selected.
    pub fn new() -> (r: ListState)
        ensures
            r.selected is None,
    {
        ListState { selected: None }
    }

    /// Selects the entry at `index`, or nothing.
    pub fn select(&mut self, index: Option<usize>)
        ensures
            final(self).selected == index,
    {
        self.selected = index;
    }

    /// The selected entry, if any.
    pub fn selected(&self) -> (r: Option<usize>)
        ensures
            r == self.selected,
    {
        self.selected
    }
}

/// The cached listing of one mailbox category.
#[derive(Debug)]
pub struct MailboxState {
    pub emails: Vec<EmailSummary>,
    pub list_state: ListState,
    pub next_page_token: Option<String>,
    pub has_more: bool,
    /// When the listing was last fetched, in milliseconds of the caller's monotonic clock.
    pub last_fetched: Option<u64>,
    pub active_sort: SortOrder,
}

impl MailboxState {
    /// An empty mailbox, never fetched, newest first.
    pub fn new() -> (r: MailboxState)
        ensures
            r@ == MailboxState::new_view(),
    {
        let r = MailboxState {
            emails: Vec::new(),
            list_state: ListState::new(),
            next_page_token: None,
            has_more: false,
            last_fetched: None,
            active_sort: SortOrder::DateDesc,
        };
        assert(r.emails@ =~= Seq::<EmailSummary>::empty());
        r
    }
}

impl Default for MailboxState {
    fn default() -> (r: MailboxState)
        ensures
            r@ == MailboxState::new_view(),
    {
        MailboxState::new()
    }
}

/// The text an entry is searched in: its subject, sender and snippet, lower-cased and
/// separated by spaces.
pub open spec fn search_haystack(e: EmailSummary) -> Seq<char> {
    lowercase(e.subject@) + seq![' '] + lowercase(e.from@) + seq![' '] + lowercase(e.snippet@)
}

/// The entries of `emails` whose search text holds `needle`, in their order.
pub open spec fn matching_entries(emails: Seq<EmailSummary>, needle: Seq<char>) -> Seq<EmailSummary>
    decreases emails.len(),
{
    if emails.len() == 0 {
        Seq::empty()
    } else {
        let rest = matching_entries(emails.drop_last(), needle);
        if contains_seq(search_haystack(emails.last()), needle) {
            rest.push(emails.last())
        } else {
            rest
        }
    }
}

/// What a search for `query` lists out of `emails`: all of them for an empty query,
/// else those whose search text holds the lower-cased query.
pub open spec fn search_results_for(query: Seq<char>, emails: Seq<EmailSummary>) -> Seq<EmailSummary> {
    if query.len() == 0 {
        emails
    } else {
        matching_entries(emails, lowercase(query))
    }
}

/// The selection a fresh result list gets: its first entry, or nothing when empty.
pub open spec fn first_or_none(len: nat) -> Option<usize> {
    if len == 0 {
        None
    } else {
        Some(0)
    }
}

/// The search overlay: the query being typed and what it matches.
#[derive(Debug)]
pub struct SearchState {
    pub query: String,
    /// The cursor, in bytes of UTF-8 into the query.
    pub cursor_pos: usize,
    pub results: Vec<EmailSummary>,
    pub list_state: ListState,
}

fn search_text(e: &EmailSummary) -> (r: Vec<char>)
    ensures
        r@ == search_haystack(*e),
{
    let mut r = chars_of(to_lowercase(e.subject.as_str()).as_str());
    r.push(' ');
    let from = chars_of(to_lowercase(e.from.as_str()).as_str());
    extend_chars(&mut r, &from);
    r.push(' ');
    let snippet = chars_of(to_lowercase(e.snippet.as_str()).as_str());
    extend_chars(&mut r, &snippet);
    r
}

impl SearchState {
    /// An empty search.
    pub fn new() -> (r: SearchState)
        ensures
            r.query@.len() == 0,
            r.cursor_pos == 0,
            r.results@.len() == 0,
            r.list_state.selected is None,
    {
        SearchState {
            query: String::new(),
            cursor_pos: 0,
            results: Vec::new(),
            list_state: ListState::new(),
        }
    }

    /// Lists the entries of `emails` that the query matches, and selects the first.
    pub fn apply_filter(&mut self, emails: &[EmailSummary])
        ensures
            final(self).query == old(self).query,
            final(self).cursor_pos == old(self).cursor_pos,
            final(self).results@ == search_results_for(old(self).query@, emails@),
            final(self).list_state.selected == first_or_none(final(self).results@.len()),
    {
        if self.query.as_str().is_empty() {
            let mut all: Vec<EmailSummary> = Vec::new();
            let mut i: usize = 0;
            while i < emails.len()
                invariant
                    i <= emails@.len(),
                    all@ == emails@.take(i as int),
                decreases emails@.len() - i,
            {
                all.push(emails[i].clone());
                assert(all@ =~= emails@.take(i + 1));
                i = i + 1;
            }
            assert(emails@.take(emails@.len() as int) =~= emails@);
            self.results = all;
        } else {
            let needle = chars_of(to_lowercase(self.query.as_str()).as_str());
            let mut found: Vec<EmailSummary> = Vec::new();
            let mut i: usize = 0;
            while i < emails.len()
                invariant
                    i <= emails@.len(),
                    needle@ == lowercase(self.query@),
                    found@ == matching_entries(emails@.take(i as int), needle@),
                decreases emails@.len() - i,
            {
                let hay = search_text(&emails[i]);
                assert(emails@.take(i + 1).drop_last() =~= emails@.take(i as int));
                if contains_chars(&hay, &needle) {
                    found.push(emails[i].clone());
                }
                i = i + 1;
            }
            assert(emails@.take(emails@.len() as int) =~= emails@);
            self.results = found;
        }
        if self.results.len() == 0 {
            self.list_state.select(None);
        } else {
            self.list_state.select(Some(0));
        }
    }

    /// Clears the query, the results and the selection.
    pub fn reset(&mut self)
        ensures
            final(self).query@.len() == 0,
            final(self).cursor_pos == 0,
            final(self).results@.len() == 0,
            final(self).list_state.selected is None,
    {
        self.query = String::new();
        self.cursor_pos = 0;
        self.results = Vec::new();
        self.list_state.select(None);
    }
}

impl Default for SearchState {
    fn default() -> (r: SearchState)
        ensures
            r.query@.len() == 0,
            r.cursor_pos == 0,
            r.results@.len() == 0,
            r.list_state.selected is None,
    {
        SearchState::new()
    }
}

/// Every result of a search matches it and is taken from the searched entries, in order:
/// the results are the searched entries with the non-matching ones left out.
pub proof fn lemma_search_results_match(emails: Seq<EmailSummary>, needle: Seq<char>)
    ensures
        forall|k: int| 0 <= k < matching_entries(emails, needle).len() ==> contains_seq(
            search_haystack(#[trigger] matching_entries(emails, needle)[k]),
            needle,
        ) && emails.contains(matching_entries(emails, needle)[k]),
        matching_entries(emails, needle).len() <= emails.len(),
    decreases emails.len(),
{
    if emails.len() > 0 {
        lemma_search_results_match(emails.drop_last(), needle);
        let rest = matching_entries(emails.drop_last(), needle);
        assert forall|k: int| 0 <= k < rest.len() implies emails.contains(#[trigger] rest[k]) by {
            let w = choose|m: int| 0 <= m < emails.drop_last().len() && emails.drop_last()[m] == rest[k];
            assert(emails[w] == rest[k]);
        }
        assert(emails[emails.len() - 1] == emails.last());
    }
}

/// An entry whose search text holds the needle is listed.
pub proof fn lemma_search_keeps_matches(emails: Seq<EmailSummary>, needle: Seq<char>, k: int)
    requires
        0 <= k < emails.len(),
        contains_seq(search_haystack(emails[k]), needle),
    ensures
        matching_entries(emails, needle).contains(emails[k]),
    decreases emails.len(),
{
    if k == emails.len() - 1 {
        let rest = matching_entries(emails.drop_last(), needle);
        assert(rest.push(emails.last())[rest.len() as int] == emails[k]);
    } else {
        lemma_search_keeps_matches(emails.drop_last(), needle, k);
        let rest = matching_entries(emails.drop_last(), needle);
        let w = choose|m: int| 0 <= m < rest.len() && rest[m] == emails[k];
        if contains_seq(search_haystack(emails.last()), needle) {
            assert(rest.push(emails.last())[w] == emails[k]);
        }
    }
}


/// Search ignores case: an entry is listed whenever the lower-cased query occurs in its
/// lower-cased subject, sender or snippet ("smith" finds "Alice Smith").
pub proof fn lemma_search_finds_in_any_field(query: Seq<char>, emails: Seq<EmailSummary>, k: int)
    requires
        0 <= k < emails.len(),
        contains_seq(lowercase(emails[k].subject@), lowercase(query))
            || contains_seq(lowercase(emails[k].from@), lowercase(query))
            || contains_seq(lowercase(emails[k].snippet@), lowercase(query)),
    ensures
        search_results_for(query, emails).contains(emails[k]),
{
    let e = emails[k];
    let n = lowercase(query);
    let ls = lowercase(e.subject@);
    let lf = lowercase(e.from@);
    let lt = lowercase(e.snippet@);
    let hay = search_haystack(e);
    assert(hay == ls + seq![' '] + lf + seq![' '] + lt);
    if contains_seq(ls, n) {
        let i = choose|i: int| occurs_at(ls, n, i);
        assert(hay.subrange(i, i + n.len()) =~= ls.subrange(i, i + n.len()));
        assert(occurs_at(hay, n, i));
    } else if contains_seq(lf, n) {
        let i = choose|i: int| occurs_at(lf, n, i);
        let j = ls.len() + 1 + i;
        assert(hay.subrange(j, j + n.len()) =~= lf.subrange(i, i + n.len()));
        assert(occurs_at(hay, n, j));
    } else {
        let i = choose|i: int| occurs_at(lt, n, i);
        let j = ls.len() + 1 + lf.len() + 1 + i;
        assert(hay.subrange(j, j + n.len()) =~= lt.subrange(i, i + n.len()));
        assert(occurs_at(hay, n, j));
    }
    if query.len() == 0 {
        assert(emails[k] == emails[k]);
    } else {
        lemma_search_keeps_matches(emails, n, k);
    }
}

/// A non-empty search lists only searched entries that hold the lower-cased query in
/// their lower-cased subject, sender and snippet joined by single spaces.
pub proof fn lemma_search_lists_only_matches(query: Seq<char>, emails: Seq<EmailSummary>, k: int)
    requires
        query.len() > 0,
        0 <= k < search_results_for(query, emails).len(),
    ensures
        emails.contains(search_results_for(query, emails)[k]),
        contains_seq(
            lowercase(search_results_for(query, emails)[k].subject@) + seq![' ']
                + lowercase(search_results_for(query, emails)[k].from@) + seq![' ']
                + lowercase(search_results_for(query, emails)[k].snippet@),
            lowercase(query),
        ),
{
    lemma_search_results_match(emails, lowercase(query));
    let e = search_results_for(query, emails)[k];
    assert(search_haystack(e) == lowercase(e.subject@) + seq![' '] + lowercase(e.from@) + seq![' ']
        + lowercase(e.snippet@));
}


/// An empty search lists every entry, in the order given.
pub proof fn lemma_empty_search_lists_all(emails: Seq<EmailSummary>)
    ensures
        search_results_for(Seq::empty(), emails) == emails,
{
}

/// A search that every entry matches lists them all, in the order given: a search only
/// leaves entries out and never reorders them.
pub proof fn lemma_search_keeps_order(query: Seq<char>, emails: Seq<EmailSummary>)
    requires
        forall|k: int| 0 <= k < emails.len() ==> contains_seq(search_haystack(#[trigger] emails[k]), lowercase(query)),
    ensures
        search_results_for(query, emails) == emails,
    decreases emails.len(),
{
    if query.len() > 0 && emails.len() > 0 {
        let rest = emails.drop_last();
        assert forall|k: int| 0 <= k < rest.len() implies contains_seq(search_haystack(#[trigger] rest[k]), lowercase(query)) by {
            assert(rest[k] == emails[k]);
        }
        lemma_search_keeps_order(query, rest);
        assert(emails[emails.len() - 1] == emails.last());
        assert(rest.push(emails.last()) =~= emails);
    }
}

} // verus!

verus! {

/// The message view's scroll offset.
#[derive(Debug, Clone, Copy, PartialEq, Eq, Structural)]
pub struct EmailViewState {
    pub scroll: u16,
}

/// The field of the composer that takes typed text.
#[derive(Debug, Clone, Copy, PartialEq, Eq, Structural)]
pub enum ComposerField {
    To,
    Subject,
    Body,
}

/// The message being written, with a cursor in each field counted in bytes of UTF-8.
#[derive(Debug)]
pub struct ComposerState {
    pub to: String,
    pub subject: String,
    pub body: String,
    pub cursor_to: usize,
    pub cursor_subject: usize,
    pub cursor_body: usize,
    pub active_field: ComposerField,
}

/// The subject of a reply to a message with subject `s`: kept when it already starts
/// with "re:" in any case, else prefixed with "Re: ".
pub open spec fn reply_subject(s: Seq<char>) -> Seq<char> {
    if starts_with_seq(lowercase(s), "re:"@) {
        s
    } else {
        "Re: "@ + s
    }
}

/// A line of `body` quoted as "> " and the line.
pub open spec fn quote_line(line: Seq<char>) -> Seq<char> {
    "> "@ + line
}

/// The body of a reply: each line of the replied-to body quoted, joined by newlines.
pub open spec fn quoted_body(body: Seq<char>) -> Seq<char> {
    join_seq(lines_seq(body).map_values(|l: Seq<char>| quote_line(l)), "\n"@)
}

/// The composer of a reply to `m`: addressed to its sender, with its subject marked as
/// a reply and its body quoted, the cursor after the recipient and the body field active.
pub open spec fn reply_composer(m: MessageView) -> ComposerView {
    ComposerView {
        to: m.from,
        subject: reply_subject(m.subject),
        body: quoted_body(m.body),
        cursor_to: utf8_len(m.from) as usize,
        cursor_subject: 0,
        cursor_body: 0,
        active_field: ComposerField::Body,
    }
}

/// The text begins with the three characters "re:".
pub open spec fn begins_with_re_colon(s: Seq<char>) -> bool {
    s.len() >= 3 && s[0] == 'r' && s[1] == 'e' && s[2] == ':'
}

/// A reply's subject marks it as a reply: "Re: " is put before the replied-to subject,
/// unless that subject, lower-cased, already begins with "re:"; then it is kept as it is.
/// A subject such as "Report" or "Re Q3" is prefixed.
pub proof fn lemma_reply_subject_marks_reply(m: MessageView)
    ensures
        begins_with_re_colon(lowercase(m.subject)) ==> reply_composer(m).subject == m.subject,
        !begins_with_re_colon(lowercase(m.subject)) ==> reply_composer(m).subject == seq!['R', 'e', ':', ' ']
            + m.subject,
{
    reveal_strlit("re:");
    reveal_strlit("Re: ");
    let l = lowercase(m.subject);
    if begins_with_re_colon(l) {
        assert(l.take(3) =~= "re:"@);
    } else if starts_with_seq(l, "re:"@) {
        assert(l.take(3)[0] == 'r' && l.take(3)[1] == 'e' && l.take(3)[2] == ':');
    }
    assert("Re: "@ =~= seq!['R', 'e', ':', ' ']);
}

/// A reply quotes the replied-to body line by line: its first line, without the `\r` of a
/// `\r\n` break, comes back after "> ", and the lines after the first break are quoted
/// in the same way after a newline.
pub proof fn lemma_reply_quotes_each_line(first: Seq<char>, rest: Seq<char>)
    requires
        forall|k: int| 0 <= k < first.len() ==> first[k] != '\n',
    ensures
        quoted_body(first + seq!['\n'] + rest) == seq!['>', ' '] + drop_cr(first) + (if rest.len() == 0 {
            Seq::<char>::empty()
        } else {
            seq!['\n'] + quoted_body(rest)
        }),
{
    reveal_strlit("> ");
    reveal_strlit("\n");
    assert("> "@ =~= seq!['>', ' ']);
    assert("\n"@ =~= seq!['\n']);
    let body = first + seq!['\n'] + rest;
    assert(body =~= first + (seq!['\n'] + rest));
    lemma_lines_from_plain(first, seq!['\n'] + rest, Seq::empty());
    assert(Seq::<char>::empty() + first =~= first);
    let nl = seq!['\n'] + rest;
    assert(nl.drop_first() =~= rest);
    let tail = lines_seq(rest);
    assert(lines_seq(body) == seq![drop_cr(first)] + tail);
    let f = |l: Seq<char>| quote_line(l);
    assert((seq![drop_cr(first)] + tail).map_values(f) =~= seq![quote_line(drop_cr(first))] + tail.map_values(f));
    if rest.len() == 0 {
        assert(tail.len() == 0);
        assert(seq![quote_line(drop_cr(first))] + tail.map_values(f) =~= seq![quote_line(drop_cr(first))]);
        assert(join_seq(seq![quote_line(drop_cr(first))], "\n"@) == quote_line(drop_cr(first)));
        assert(quote_line(drop_cr(first)) + Seq::<char>::empty() =~= quote_line(drop_cr(first)));
    } else {
        lemma_lines_from_nonempty(rest, Seq::empty());
        lemma_join_prepend(quote_line(drop_cr(first)), tail.map_values(f), "\n"@);
        assert(quote_line(drop_cr(first)) + "\n"@ + join_seq(tail.map_values(f), "\n"@) =~= seq!['>', ' ']
            + drop_cr(first) + (seq!['\n'] + quoted_body(rest)));
    }
}

/// A body of one line, without a line break, is quoted as "> " and the line.
pub proof fn lemma_reply_quotes_single_line(line: Seq<char>)
    requires
        line.len() > 0,
        forall|k: int| 0 <= k < line.len() ==> line[k] != '\n',
    ensures
        quoted_body(line) == seq!['>', ' '] + line,
{
    reveal_strlit("> ");
    assert("> "@ =~= seq!['>', ' ']);
    lemma_lines_from_plain(line, Seq::empty(), Seq::empty());
    assert(line + Seq::<char>::empty() =~= line);
    assert(Seq::<char>::empty() + line =~= line);
    assert(lines_seq(line) == seq![line]);
    let f = |l: Seq<char>| quote_line(l);
    assert(seq![line].map_values(f) =~= seq![quote_line(line)]);
    assert(join_seq(seq![quote_line(line)], "\n"@) == quote_line(line));
}

/// The field after `f`, going round.
pub open spec fn next_field(f: ComposerField) -> ComposerField {
    match f {
        ComposerField::To => ComposerField::Subject,
        ComposerField::Subject => ComposerField::Body,
        ComposerField::Body => ComposerField::To,
    }
}

/// The field before `f`, going round.
pub open spec fn prev_field(f: ComposerField) -> ComposerField {
    match f {
        ComposerField::To => ComposerField::Body,
        ComposerField::Subject => ComposerField::To,
        ComposerField::Body => ComposerField::Subject,
    }
}

/// The text of the active field.
pub open spec fn active_text(c: ComposerState) -> Seq<char> {
    match c.active_field {
        ComposerField::To => c.to@,
        ComposerField::Subject => c.subject@,
        ComposerField::Body => c.body@,
    }
}

/// The cursor of the active field.
pub open spec fn active_cursor(c: ComposerState) -> usize {
    match c.active_field {
        ComposerField::To => c.cursor_to,
        ComposerField::Subject => c.cursor_subject,
        ComposerField::Body => c.cursor_body,
    }
}

/// `c` with the active field's text and cursor replaced.
pub open spec fn with_active(c: ComposerState, text: String, cursor: usize) -> ComposerState {
    match c.active_field {
        ComposerField::To => ComposerState { to: text, cursor_to: cursor, ..c },
        ComposerField::Subject => ComposerState { subject: text, cursor_subject: cursor, ..c },
        ComposerField::Body => ComposerState { body: text, cursor_body: cursor, ..c },
    }
}

fn quote_lines(body: &str) -> (r: String)
    ensures
        r@ == quoted_body(body@),
{
    let cs = chars_of(body);
    let lines = lines_chars(&cs);
    let ghost lv = lines@.map_values(|l: Vec<char>| l@);
    let mut quoted: Vec<Vec<char>> = Vec::new();
    let mut i: usize = 0;
    while i < lines.len()
        invariant
            i <= lines.len(),
            lv == lines@.map_values(|l: Vec<char>| l@),
            quoted@.map_values(|l: Vec<char>| l@) == lv.take(i as int).map_values(
                |l: Seq<char>| quote_line(l),
            ),
        decreases lines.len() - i,
    {
        let mut q: Vec<char> = Vec::new();
        q.push('>');
        q.push(' ');
        extend_chars(&mut q, &lines[i]);
        proof {
            reveal_strlit("> ");
            assert(q@ =~= quote_line(lv[i as int]));
        }
        let ghost before = quoted@.map_values(|l: Vec<char>| l@);
        quoted.push(q);
        assert(quoted@.map_values(|l: Vec<char>| l@) =~= before.push(q@));
        assert(lv.take(i + 1).map_values(|l: Seq<char>| quote_line(l)) =~= lv.take(
            i as int,
        ).map_values(|l: Seq<char>| quote_line(l)).push(quote_line(lv[i as int])));
        i = i + 1;
    }
    assert(lv.take(lines.len() as int) =~= lv);
    let mut sep: Vec<char> = Vec::new();
    sep.push('\n');
    proof {
        reveal_strlit("\n");
        assert(sep@ =~= "\n"@);
    }
    let joined = join_chars(&quoted, &sep);
    string_of(&joined)
}

impl ComposerState {
    /// An empty composer.
    pub fn new() -> (r: ComposerState)
        ensures
            r@ == blank_composer(),
    {
        let r = ComposerState {
            to: String::new(),
            subject: String::new(),
            body: String::new(),
            cursor_to: 0,
            cursor_subject: 0,
            cursor_body: 0,
            active_field: ComposerField::To,
        };
        assert(r@ =~= blank_composer());
        r
    }

    /// A reply to `message`: addressed to its sender, with its subject marked as a reply
    /// and its body quoted, the cursor after the recipient and the body field active.
    pub fn from_reply(message: &GmailMessage) -> (r: ComposerState)
        ensures
            r.to@ == message.from@,
            r.subject@ == reply_subject(message.subject@),
            r.body@ == quoted_body(message.body@),
            r.cursor_to == utf8_len(message.from@) as usize,
            r.cursor_subject == 0,
            r.cursor_body == 0,
            r.active_field == ComposerField::Body,
            r@ == reply_composer(message@),
    {
        let lower = chars_of(to_lowercase(message.subject.as_str()).as_str());
        let mut re: Vec<char> = Vec::new();
        re.push('r');
        re.push('e');
        re.push(':');
        proof {
            reveal_strlit("re:");
            assert(re@ =~= "re:"@);
        }
        let subject = if starts_with_chars(&lower, &re) {
            message.subject.clone()
        } else {
            let prefix = String::from_str("Re: ");
            prefix.concat(message.subject.as_str())
        };
        let to_len = message.from.as_str().len();
        ComposerState {
            to: message.from.clone(),
            subject,
            body: quote_lines(message.body.as_str()),
            cursor_to: to_len,
            cursor_subject: 0,
            cursor_body: 0,
            active_field: ComposerField::Body,
        }
    }

    /// Empties the composer.
    pub fn reset(&mut self)
        ensures
            final(self)@ == blank_composer(),
    {
        *self = ComposerState::new();
    }

    /// The active field's text and cursor, to edit in place.
    pub fn active_buffer_mut(&mut self) -> (r: (&mut String, &mut usize))
        ensures
            *r.0 == active_text_string(*old(self)),
            *r.1 == active_cursor(*old(self)),
            *final(self) == with_active(*old(self), *final(r.0), *final(r.1)),
    {
        match self.active_field {
            ComposerField::To => (&mut self.to, &mut self.cursor_to),
            ComposerField::Subject => (&mut self.subject, &mut self.cursor_subject),
            ComposerField::Body => (&mut self.body, &mut self.cursor_body),
        }
    }

    /// Moves to the next field, after the body coming back to the recipient.
    pub fn cycle_field_forward(&mut self)
        ensures
            final(self).active_field == next_field(old(self).active_field),
            *final(self) == (ComposerState { active_field: final(self).active_field, ..*old(self) }),
    {
        self.active_field = match self.active_field {
            ComposerField::To => ComposerField::Subject,
            ComposerField::Subject => ComposerField::Body,
            ComposerField::Body => ComposerField::To,
        };
    }

    /// Moves to the previous field, before the recipient coming back to the body.
    pub fn cycle_field_backward(&mut self)
        ensures
            final(self).active_field == prev_field(old(self).active_field),
            *final(self) == (ComposerState { active_field: final(self).active_field, ..*old(self) }),
    {
        self.active_field = match self.active_field {
            ComposerField::To => ComposerField::Body,
            ComposerField::Subject => ComposerField::To,
            ComposerField::Body => ComposerField::Subject,
        };
    }
}

/// The active field's text as a string.
pub open spec fn active_text_string(c: ComposerState) -> String {
    match c.active_field {
        ComposerField::To => c.to,
        ComposerField::Subject => c.subject,
        ComposerField::Body => c.body,
    }
}

/// Going forward and then back through the composer fields, or back and then forward,
/// returns to the field one started from; three steps either way go all the way round.
pub proof fn lemma_field_cycle_inverse(f: ComposerField)
    ensures
        prev_field(next_field(f)) == f,
        next_field(prev_field(f)) == f,
        next_field(next_field(next_field(f))) == f,
        prev_field(prev_field(prev_field(f))) == f,
{
}

} // verus!

verus! {

/// The contents of a mailbox listing, as plain values.
pub struct MailboxView {
    pub emails: Seq<EmailSummary>,
    pub selected: Option<usize>,
    pub next_page_token: Option<Seq<char>>,
    pub has_more: bool,
    pub last_fetched: Option<u64>,
    pub active_sort: SortOrder,
}

/// The characters of an optional string.
pub open spec fn opt_view(o: Option<String>) -> Option<Seq<char>> {
    match o {
        Some(s) => Some(s@),
        None => None,
    }
}

impl View for MailboxState {
    type V = MailboxView;

    open spec fn view(&self) -> MailboxView {
        MailboxView {
            emails: self.emails@,
            selected: self.list_state.selected,
            next_page_token: opt_view(self.next_page_token),
            has_more: self.has_more,
            last_fetched: self.last_fetched,
            active_sort: self.active_sort,
        }
    }
}

/// The search overlay, as plain values.
pub struct SearchView {
    pub query: Seq<char>,
    pub cursor_pos: usize,
    pub results: Seq<EmailSummary>,
    pub selected: Option<usize>,
}

impl View for SearchState {
    type V = SearchView;

    open spec fn view(&self) -> SearchView {
        SearchView {
            query: self.query@,
            cursor_pos: self.cursor_pos,
            results: self.results@,
            selected: self.list_state.selected,
        }
    }
}

/// The composer, as plain values.
pub struct ComposerView {
    pub to: Seq<char>,
    pub subject: Seq<char>,
    pub body: Seq<char>,
    pub cursor_to: usize,
    pub cursor_subject: usize,
    pub cursor_body: usize,
    pub active_field: ComposerField,
}

impl View for ComposerState {
    type V = ComposerView;

    open spec fn view(&self) -> ComposerView {
        ComposerView {
            to: self.to@,
            subject: self.subject@,
            body: self.body@,
            cursor_to: self.cursor_to,
            cursor_subject: self.cursor_subject,
            cursor_body: self.cursor_body,
            active_field: self.active_field,
        }
    }
}

/// The empty composer.
pub open spec fn blank_composer() -> ComposerView {
    ComposerView {
        to: Seq::empty(),
        subject: Seq::empty(),
        body: Seq::empty(),
        cursor_to: 0,
        cursor_subject: 0,
        cursor_body: 0,
        active_field: ComposerField::To,
    }
}

/// The mode, as plain values.
pub enum ModeView {
    Normal,
    Search,
    Compose,
    EmailView,
    Help,
    ConfirmDelete(Seq<char>),
}

impl View for AppMode {
    type V = ModeView;

    open spec fn view(&self) -> ModeView {
        match self {
            AppMode::Normal => ModeView::Normal,
            AppMode::Search => ModeView::Search,
            AppMode::Compose => ModeView::Compose,
            AppMode::EmailView => ModeView::EmailView,
            AppMode::Help => ModeView::Help,
            AppMode::Confirm(ConfirmAction::DeleteEmail(id)) => ModeView::ConfirmDelete(id@),
        }
    }
}

/// The cache lifetime of a mailbox listing.
#[derive(Debug, Clone, Copy, PartialEq, Eq, Structural)]
pub struct CacheState {
    pub ttl_secs: u64,
}

/// The five categories, in the order of their tabs.
pub open spec fn categories_in_order() -> Seq<MailboxCategory> {
    seq![
        MailboxCategory::Primary,
        MailboxCategory::Social,
        MailboxCategory::Promotions,
        MailboxCategory::Updates,
        MailboxCategory::Forums,
    ]
}

/// The five categories, in the order of their tabs.
pub fn all_categories() -> (r: Vec<MailboxCategory>)
    ensures
        r@ == categories_in_order(),
{
    let mut v: Vec<MailboxCategory> = Vec::new();
    v.push(MailboxCategory::Primary);
    v.push(MailboxCategory::Social);
    v.push(MailboxCategory::Promotions);
    v.push(MailboxCategory::Updates);
    v.push(MailboxCategory::Forums);
    assert(v@ =~= categories_in_order());
    v
}

/// Each category stands in the tab list at its own position.
pub proof fn lemma_categories_in_order(c: MailboxCategory)
    ensures
        categories_in_order().len() == 5,
        categories_in_order()[category_index(c) as int] == c,
        forall|i: int| 0 <= i < 5 ==> category_index(#[trigger] categories_in_order()[i]) == i,
{
}

/// Everything the interface shows and edits.
#[derive(Debug)]
pub struct AppState {
    pub mode: AppMode,
    pub active_category: MailboxCategory,
    /// One listing per category, at the category's tab position.
    pub mailbox_states: Vec<MailboxState>,
    pub search: SearchState,
    pub status_message: Option<(String, StatusLevel)>,
    pub is_loading: bool,
    pub current_email: Option<GmailMessage>,
    pub email_view: EmailViewState,
    pub composer: ComposerState,
}

/// The application state, as plain values.
pub struct AppStateView {
    pub mode: ModeView,
    pub active_category: MailboxCategory,
    pub mailboxes: Seq<MailboxView>,
    pub search: SearchView,
    pub status: Option<(Seq<char>, StatusLevel)>,
    pub is_loading: bool,
    pub current_email: Option<MessageView>,
    pub scroll: u16,
    pub composer: ComposerView,
}

/// The status line's message, as plain values.
pub open spec fn status_view(s: Option<(String, StatusLevel)>) -> Option<(Seq<char>, StatusLevel)> {
    match s {
        Some((m, l)) => Some((m@, l)),
        None => None,
    }
}

/// The open message, as plain values.
pub open spec fn message_opt_view(m: Option<GmailMessage>) -> Option<MessageView> {
    match m {
        Some(x) => Some(x@),
        None => None,
    }
}

impl View for AppState {
    type V = AppStateView;

    open spec fn view(&self) -> AppStateView {
        AppStateView {
            mode: self.mode@,
            active_category: self.active_category,
            mailboxes: self.mailbox_states@.map_values(|m: MailboxState| m@),
            search: self.search@,
            status: status_view(self.status_message),
            is_loading: self.is_loading,
            current_email: message_opt_view(self.current_email),
            scroll: self.email_view.scroll,
            composer: self.composer@,
        }
    }
}

impl AppStateView {
    /// One listing per category.
    pub open spec fn wf(self) -> bool {
        self.mailboxes.len() == 5
    }

    /// The listing of the active category.
    pub open spec fn active_mailbox(self) -> MailboxView {
        self.mailboxes[category_index(self.active_category) as int]
    }
}

/// The state at start: normal mode on the Primary tab, every listing empty and never
/// fetched, nothing searched, no message open, the composer blank.
pub open spec fn initial_state_view() -> AppStateView {
    AppStateView {
        mode: ModeView::Normal,
        active_category: MailboxCategory::Primary,
        mailboxes: Seq::new(5, |i: int| MailboxState::new_view()),
        search: SearchView { query: Seq::empty(), cursor_pos: 0, results: Seq::empty(), selected: None },
        status: None,
        is_loading: false,
        current_email: None,
        scroll: 0,
        composer: blank_composer(),
    }
}

impl AppState {
    /// The state at start: normal mode on the Primary tab, every listing empty.
    pub fn new() -> (r: AppState)
        ensures
            r@ == initial_state_view(),
            r@.wf(),
    {
        let mut mailbox_states: Vec<MailboxState> = Vec::new();
        let mut i: usize = 0;
        while i < 5
            invariant
                i <= 5,
                mailbox_states@.len() == i,
                forall|k: int| 0 <= k < i ==> #[trigger] mailbox_states@[k]@ == MailboxState::new_view(),
            decreases 5 - i,
        {
            mailbox_states.push(MailboxState::new());
            i = i + 1;
        }
        let r = AppState {
            mode: AppMode::Normal,
            active_category: MailboxCategory::Primary,
            mailbox_states,
            search: SearchState::new(),
            status_message: None,
            is_loading: false,
            current_email: None,
            email_view: EmailViewState { scroll: 0 },
            composer: ComposerState::new(),
        };
        assert(r@.search.query =~= Seq::<char>::empty());
        assert(r@.search.results =~= Seq::<EmailSummary>::empty());
        assert(r@.composer.to =~= Seq::<char>::empty());
        assert(r@.composer.subject =~= Seq::<char>::empty());
        assert(r@.composer.body =~= Seq::<char>::empty());
        assert(r@.mailboxes =~= Seq::new(5, |i: int| MailboxState::new_view()));
        r
    }
}

impl MailboxState {
    /// A fresh listing, as plain values.
    pub open spec fn new_view() -> MailboxView {
        MailboxView {
            emails: Seq::empty(),
            selected: None,
            next_page_token: None,
            has_more: false,
            last_fetched: None,
            active_sort: SortOrder::DateDesc,
        }
    }
}

impl Default for AppState {
    fn default() -> (r: AppState)
        ensures
            r@ == initial_state_view(),
            r@.wf(),
    {
        AppState::new()
    }
}

} // verus!
