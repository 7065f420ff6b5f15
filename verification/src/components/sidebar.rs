use vstd::prelude::*;
use crate::gmail::models::{category_at, category_index, display_name_spec, MailboxCategory};
use crate::state::{AppState, AppStateView, EmailSummary};
use crate::text::{decimal_chars, decimal_seq, string_of};

verus! {

/// The list of mailboxes at the left: each category with its count of unread messages,
/// the active one selected.
pub struct SidebarComponent;

/// The number of unread messages in a listing.
pub open spec fn unread_count(emails: Seq<EmailSummary>) -> nat
    decreases emails.len(),
{
    if emails.len() == 0 {
        0
    } else {
        unread_count(emails.drop_last()) + if emails.last().is_read { 0nat } else { 1nat }
    }
}

/// The unread messages of a category's listing, or none where the state holds no listing for it.
pub open spec fn category_unread(s: AppStateView, c: MailboxCategory) -> nat {
    let i = category_index(c);
    if i < s.mailboxes.len() {
        unread_count(s.mailboxes[i as int].emails)
    } else {
        0
    }
}

/// How a category reads in the list: its name, then its unread count in brackets.
pub open spec fn sidebar_label(c: MailboxCategory, unread: nat) -> Seq<char> {
    display_name_spec(c) + " ("@ + decimal_seq(unread) + ")"@
}

/// Counts the unread messages of a listing.
pub fn count_unread(emails: &Vec<EmailSummary>) -> (n: usize)
    ensures
        n == unread_count(emails@),
{
    let mut n: usize = 0;
    let mut i: usize = 0;
    while i < emails.len()
        invariant
            i <= emails.len(),
            n <= i,
            n == unread_count(emails@.take(i as int)),
        decreases emails.len() - i,
    {
        assert(emails@.take(i + 1).drop_last() =~= emails@.take(i as int));
        if !emails[i].is_read {
            n = n + 1;
        }
        i = i + 1;
    }
    assert(emails@.take(emails.len() as int) =~= emails@);
    n
}

impl SidebarComponent {
    /// The labels of the list, one per category in tab order.
    pub fn labels(state: &AppState) -> (r: Vec<String>)
        ensures
            r.len() == 5,
            forall|i: int| 0 <= i < 5 ==> #[trigger] r@[i]@ == sidebar_label(
                category_at(i as nat),
                category_unread(state@, category_at(i as nat)),
            ),
    {
        let mut v: Vec<String> = Vec::new();
        let mut i: usize = 0;
        while i < 5
            invariant
                i <= 5,
                v.len() == i,
                forall|j: int| 0 <= j < i ==> #[trigger] v@[j]@ == sidebar_label(
                    category_at(j as nat),
                    category_unread(state@, category_at(j as nat)),
                ),
            decreases 5 - i,
        {
            let c = MailboxCategory::at(i);
            let unread: usize = if i < state.mailbox_states.len() {
                count_unread(&state.mailbox_states[i].emails)
            } else {
                0
            };
            let digits = string_of(&decimal_chars(unread as u64));
            let label = String::from_str(c.display_name()).concat(" (").concat(digits.as_str()).concat(")");
            v.push(label);
            i = i + 1;
        }
        v
    }

    /// The position of the active category in the list.
    pub fn selected(state: &AppState) -> (r: usize)
        ensures
            r == category_index(state.active_category),
    {
        state.active_category.index()
    }
}

} // verus!
