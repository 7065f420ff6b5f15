use vstd::prelude::*;
use vstd::utf8::encode_utf8;
use crate::gmail::client::{base64_url_encode, url_safe_no_pad_encode};
use crate::text::{
    can_insert_at_byte, can_remove_at_byte, char_count, char_index_at_byte, insert_at_byte, insert_at_byte_offset,
    lemma_insert_then_remove_at_byte, longer_than_bytes, remove_at_byte, remove_at_byte_offset, trim_seq,
    trim_str, utf8_len,
};
use crate::config::{key_matches, Action, Config, KeyCode, KeyEvent, KeyEventKind};
use crate::gmail::models::{category_at, category_index, GmailMessage, MailboxCategory, MessageView};
use crate::state::{ConfirmAction, next_field, prev_field, opt_view, blank_composer, first_or_none, reply_composer, search_results_for, AppMode, ComposerField, ComposerState, ComposerView, EmailSummary, ModeView, initial_state_view, message_opt_view, AppState, AppStateView, MailboxView, SearchView, SortOrder, StatusLevel, is_stable_sort_of, lemma_sort_keeps_entries, sort_emails};

verus! {

/// Work the interface hands to the Gmail client; each finishes with an `AppEvent`.
#[derive(Debug)]
pub enum Command {
    /// List a page of `category`, replacing or extending the cached listing.
    ListMessages { category: MailboxCategory, page_token: Option<String>, max_results: usize, append: bool },
    /// Read message `id` in full and mark it read.
    OpenEmail { id: String },
    /// After `delay_ms`, read the subject, sender and date of message `id`.
    FetchMetadata { category: MailboxCategory, id: String, delay_ms: u64 },
    /// Send the base64-encoded message `raw`.
    SendMessage { raw: String },
    /// Delete message `id`.
    DeleteMessage { id: String },
}

/// A command, as plain values.
pub enum CommandView {
    ListMessages { category: MailboxCategory, page_token: Option<Seq<char>>, max_results: usize, append: bool },
    OpenEmail { id: Seq<char> },
    FetchMetadata { category: MailboxCategory, id: Seq<char>, delay_ms: u64 },
    SendMessage { raw: Seq<char> },
    DeleteMessage { id: Seq<char> },
}

impl View for Command {
    type V = CommandView;

    open spec fn view(&self) -> CommandView {
        match self {
            Command::ListMessages { category, page_token, max_results, append } => CommandView::ListMessages {
                category: *category,
                page_token: match page_token {
                    Some(t) => Some(t@),
                    None => None,
                },
                max_results: *max_results,
                append: *append,
            },
            Command::OpenEmail { id } => CommandView::OpenEmail { id: id@ },
            Command::FetchMetadata { category, id, delay_ms } => CommandView::FetchMetadata {
                category: *category,
                id: id@,
                delay_ms: *delay_ms,
            },
            Command::SendMessage { raw } => CommandView::SendMessage { raw: raw@ },
            Command::DeleteMessage { id } => CommandView::DeleteMessage { id: id@ },
        }
    }
}

/// An optional command, as plain values.
pub open spec fn command_opt_view(c: Option<Command>) -> Option<CommandView> {
    match c {
        Some(x) => Some(x@),
        None => None,
    }
}

/// `s` with the listing at `i` replaced by `m`.
pub open spec fn with_mailbox(s: AppStateView, i: int, m: MailboxView) -> AppStateView {
    AppStateView { mailboxes: s.mailboxes.update(i, m), ..s }
}

/// The position of the active category's listing.
pub open spec fn active_index(s: AppStateView) -> int {
    category_index(s.active_category) as int
}

/// The selection after moving it by `delta` in a list of `len` entries, kept within the
/// list; nothing in an empty list.
pub open spec fn moved_selection(selected: Option<usize>, delta: int, len: nat) -> Option<usize> {
    if len == 0 {
        None
    } else {
        let from = match selected {
            Some(i) => i as int,
            None => 0,
        };
        let to = from + delta;
        Some(
            (if to < 0 {
                0
            } else if to > len - 1 {
                len - 1
            } else {
                to
            }) as usize,
        )
    }
}

/// The state with the active listing's selection moved by `delta`.
pub open spec fn selection_moved(s: AppStateView, delta: int) -> AppStateView {
    let m = s.active_mailbox();
    with_mailbox(s, active_index(s), MailboxView { selected: moved_selection(m.selected, delta, m.emails.len()), ..m })
}

/// The sort order after `o`, going round.
pub open spec fn next_sort(o: SortOrder) -> SortOrder {
    match o {
        SortOrder::DateDesc => SortOrder::DateAsc,
        SortOrder::DateAsc => SortOrder::SenderAsc,
        SortOrder::SenderAsc => SortOrder::SubjectAsc,
        SortOrder::SubjectAsc => SortOrder::DateDesc,
    }
}

/// The active listing moved to the next sort order and sorted by it.
pub open spec fn sort_toggled(s: AppStateView, new_s: AppStateView) -> bool {
    let m = s.active_mailbox();
    let n = new_s.active_mailbox();
    &&& new_s == with_mailbox(s, active_index(s), n)
    &&& n == MailboxView { emails: n.emails, active_sort: next_sort(m.active_sort), ..m }
    &&& is_stable_sort_of(next_sort(m.active_sort), n.emails, m.emails)
}

/// The tab after `c`, going round.
pub open spec fn next_category(c: MailboxCategory) -> MailboxCategory {
    category_at(((category_index(c) + 1) % 5) as nat)
}

/// The tab before `c`, going round.
pub open spec fn prev_category(c: MailboxCategory) -> MailboxCategory {
    if category_index(c) == 0 {
        category_at(4)
    } else {
        category_at((category_index(c) - 1) as nat)
    }
}

/// The time from `then` to `now` on a monotonic clock, zero if `now` is earlier.
pub open spec fn elapsed_ms(then: u64, now: u64) -> int {
    if now >= then { now - then } else { 0 }
}

/// A listing is fetched when forced, when never fetched, or when its cache has lived
/// `ttl_secs` seconds.
pub open spec fn should_fetch(m: MailboxView, ttl_secs: u64, force: bool, now: u64) -> bool {
    force || match m.last_fetched {
        Some(t) => elapsed_ms(t, now) >= ttl_secs * 1000,
        None => true,
    }
}

/// The number of messages a listing request asks for: the configured page, at most 20.
pub open spec fn list_page_size(page_size: usize) -> usize {
    if page_size < 20 { page_size } else { 20 }
}

/// The interface's state machine: the state, the settings, and when the last key acted.
#[derive(Debug)]
pub struct App {
    pub state: AppState,
    pub config: Config,
    /// When a key last acted, in milliseconds of the caller's monotonic clock.
    pub last_action_at: u64,
}

impl App {
    /// A fresh interface at `now_ms`, ready to act on the first key.
    pub fn new(config: Config, now_ms: u64) -> (r: App)
        requires
            now_ms >= 20,
        ensures
            r.state@ == initial_state_view(),
            r.state@.wf(),
            r.config == config,
            r.last_action_at == now_ms - 20,
    {
        App { state: AppState::new(), config, last_action_at: now_ms - 20 }
    }
}

} // verus!

verus! {

/// The effect `f` has on the whole state when it changes only the listing at `i`.
pub proof fn lemma_update_mailbox_view(old_v: Seq<crate::state::MailboxState>, new_v: Seq<crate::state::MailboxState>, i: int)
    requires
        0 <= i < old_v.len(),
        new_v.len() == old_v.len(),
        forall|k: int| 0 <= k < old_v.len() && k != i ==> new_v[k] == old_v[k],
    ensures
        new_v.map_values(|m: crate::state::MailboxState| m@) == old_v.map_values(
            |m: crate::state::MailboxState| m@,
        ).update(i, new_v[i]@),
{
    assert(new_v.map_values(|m: crate::state::MailboxState| m@) =~= old_v.map_values(
        |m: crate::state::MailboxState| m@,
    ).update(i, new_v[i]@));
}

impl App {
    /// Moves the selection of the active listing by `delta`, within the listing.
    pub fn move_selection(&mut self, delta: i32)
        requires
            old(self).state@.wf(),
        ensures
            final(self).state@ == selection_moved(old(self).state@, delta as int),
            final(self).config == old(self).config,
            final(self).last_action_at == old(self).last_action_at,
    {
        let i = self.state.active_category.index();
        let ghost before = self.state.mailbox_states@;
        let len = self.state.mailbox_states[i].emails.len();
        if len == 0 {
            self.state.mailbox_states[i].list_state.select(None);
        } else {
            let from: i128 = match self.state.mailbox_states[i].list_state.selected() {
                Some(x) => x as i128,
                None => 0,
            };
            let to: i128 = from + delta as i128;
            let next: usize = if to < 0 {
                0
            } else if to > (len - 1) as i128 {
                len - 1
            } else {
                to as usize
            };
            self.state.mailbox_states[i].list_state.select(Some(next));
        }
        proof {
            lemma_update_mailbox_view(before, self.state.mailbox_states@, i as int);
        }
    }
}

} // verus!

verus! {

/// The status line's informational message `text`.
pub open spec fn info(text: Seq<char>) -> Option<(Seq<char>, StatusLevel)> {
    Some((text, StatusLevel::Info))
}

/// The search overlay with its selection moved by `delta` within the results.
pub open spec fn search_moved(s: AppStateView, delta: int) -> AppStateView {
    AppStateView {
        search: SearchView {
            selected: moved_selection(s.search.selected, delta, s.search.results.len()),
            ..s.search
        },
        ..s
    }
}

/// The message view scrolled by `delta` lines taken to 16 bits (as `delta as u16` takes
/// them, on its size for a step back), within 0 and `u16::MAX`.
pub open spec fn scrolled(s: AppStateView, delta: int) -> AppStateView {
    let to = if delta > 0 { s.scroll + delta % 65536 } else { s.scroll - (-delta) % 65536 };
    AppStateView {
        scroll: (if to < 0 {
            0
        } else if to > u16::MAX {
            u16::MAX as int
        } else {
            to
        }) as u16,
        ..s
    }
}

/// The state after a fetch of `category` starts.
pub open spec fn loading(s: AppStateView) -> AppStateView {
    AppStateView { is_loading: true, ..s }
}

/// The command that lists the first page of `category` afresh.
pub open spec fn list_command(category: MailboxCategory, page_size: usize) -> CommandView {
    CommandView::ListMessages { category, page_token: None, max_results: list_page_size(page_size), append: false }
}

/// What refreshing the active listing does: start a fetch when one is due, else say the
/// cache is used.
pub open spec fn refreshed(s: AppStateView, c: Config, force: bool, now: u64, new_s: AppStateView, cmd: Option<CommandView>) -> bool {
    if should_fetch(s.active_mailbox(), c.cache_ttl_secs, force, now) {
        new_s == loading(s) && cmd == Some(list_command(s.active_category, c.page_size))
    } else {
        new_s == AppStateView { status: info("Using cached mailbox"@), ..s } && cmd is None
    }
}

impl App {
    /// Moves the search selection by `delta`, within the results.
    pub fn move_search_selection(&mut self, delta: i32)
        ensures
            final(self).state@ == search_moved(old(self).state@, delta as int),
            final(self).config == old(self).config,
            final(self).last_action_at == old(self).last_action_at,
    {
        let len = self.state.search.results.len();
        if len == 0 {
            self.state.search.list_state.select(None);
            return;
        }
        let from: i128 = match self.state.search.list_state.selected() {
            Some(x) => x as i128,
            None => 0,
        };
        let to: i128 = from + delta as i128;
        let next: usize = if to < 0 {
            0
        } else if to > (len - 1) as i128 {
            len - 1
        } else {
            to as usize
        };
        self.state.search.list_state.select(Some(next));
    }

    /// Scrolls the message view by `delta` lines; `i32::MIN`, whose negation overflows,
    /// is left out.
    pub fn scroll_email(&mut self, delta: i32)
        requires
            delta != i32::MIN,
        ensures
            final(self).state@ == scrolled(old(self).state@, delta as int),
            final(self).config == old(self).config,
            final(self).last_action_at == old(self).last_action_at,
    {
        if delta > 0 {
            let step = (delta % 65536) as u16;
            self.state.email_view.scroll = self.state.email_view.scroll.saturating_add(step);
        } else {
            let step = ((-delta) % 65536) as u16;
            self.state.email_view.scroll = self.state.email_view.scroll.saturating_sub(step);
        }
    }

    /// Moves the active listing to the next sort order and sorts it.
    pub fn toggle_sort(&mut self)
        requires
            old(self).state@.wf(),
        ensures
            sort_toggled(old(self).state@, final(self).state@),
            final(self).state@.wf(),
            final(self).config == old(self).config,
            final(self).last_action_at == old(self).last_action_at,
    {
        let i = self.state.active_category.index();
        let ghost before = self.state.mailbox_states@;
        let next = match self.state.mailbox_states[i].active_sort {
            SortOrder::DateDesc => SortOrder::DateAsc,
            SortOrder::DateAsc => SortOrder::SenderAsc,
            SortOrder::SenderAsc => SortOrder::SubjectAsc,
            SortOrder::SubjectAsc => SortOrder::DateDesc,
        };
        self.state.mailbox_states[i].active_sort = next;
        sort_emails(&mut self.state.mailbox_states[i].emails, next);
        proof {
            lemma_update_mailbox_view(before, self.state.mailbox_states@, i as int);
        }
    }

    /// Starts a fetch of the active listing when forced or when its cache is missing or
    /// stale, else notes that the cache is used.
    pub fn refresh_category(&mut self, force: bool, now_ms: u64) -> (cmd: Option<Command>)
        requires
            old(self).state@.wf(),
        ensures
            refreshed(old(self).state@, old(self).config, force, now_ms, final(self).state@, command_opt_view(cmd)),
            final(self).config == old(self).config,
            final(self).last_action_at == old(self).last_action_at,
    {
        let i = self.state.active_category.index();
        let fetch = if force {
            true
        } else {
            match self.state.mailbox_states[i].last_fetched {
                Some(t) => {
                    let elapsed = if now_ms >= t { now_ms - t } else { 0 };
                    elapsed / 1000 >= self.config.cache_ttl_secs
                },
                None => true,
            }
        };
        if !fetch {
            self.state.status_message = Some((String::from_str("Using cached mailbox"), StatusLevel::Info));
            return None;
        }
        let category = self.state.active_category;
        Some(self.spawn_list_messages(category, None, false))
    }

    /// Marks the state as loading and makes the command that lists a page of `category`.
    pub fn spawn_list_messages(&mut self, category: MailboxCategory, page_token: Option<String>, append: bool) -> (cmd: Command)
        ensures
            final(self).state@ == loading(old(self).state@),
            cmd@ == (CommandView::ListMessages {
                category,
                page_token: match page_token {
                    Some(t) => Some(t@),
                    None => None,
                },
                max_results: list_page_size(old(self).config.page_size),
                append,
            }),
            final(self).config == old(self).config,
            final(self).last_action_at == old(self).last_action_at,
    {
        self.state.is_loading = true;
        let page_size = if self.config.page_size < 20 { self.config.page_size } else { 20 };
        Command::ListMessages { category, page_token, max_results: page_size, append }
    }

    /// Moves to the next tab, or the previous one, and refreshes it unless its cache is fresh.
    pub fn cycle_category(&mut self, forward: bool, now_ms: u64) -> (cmd: Option<Command>)
        requires
            old(self).state@.wf(),
        ensures
            ({
                let s = old(self).state@;
                let moved = AppStateView {
                    active_category: if forward {
                        next_category(s.active_category)
                    } else {
                        prev_category(s.active_category)
                    },
                    ..s
                };
                refreshed(moved, old(self).config, false, now_ms, final(self).state@, command_opt_view(cmd))
            }),
            final(self).config == old(self).config,
            final(self).last_action_at == old(self).last_action_at,
    {
        let idx = self.state.active_category.index();
        let next = if forward {
            (idx + 1) % 5
        } else if idx == 0 {
            4
        } else {
            idx - 1
        };
        self.state.active_category = MailboxCategory::at(next);
        self.refresh_category(false, now_ms)
    }
}

/// Going to the next tab and back, or back and then on, returns to the tab one started
/// from; five steps either way go all the way round.
pub proof fn lemma_category_cycle(c: MailboxCategory)
    ensures
        prev_category(next_category(c)) == c,
        next_category(prev_category(c)) == c,
        next_category(next_category(next_category(next_category(next_category(c))))) == c,
{
}

/// Four sort toggles return to the order one started from.
pub proof fn lemma_sort_cycle(o: SortOrder)
    ensures
        next_sort(next_sort(next_sort(next_sort(o)))) == o,
{
}

} // verus!

verus! {

/// The id of the message at `idx` of `list`, if there is one.
pub open spec fn id_at(list: Seq<EmailSummary>, idx: Option<usize>) -> Option<Seq<char>> {
    match idx {
        Some(i) => if i < list.len() {
            Some(list[i as int].id@)
        } else {
            None
        },
        None => None,
    }
}

/// What asking to open message `id` (if any) does.
pub open spec fn open_requested(s: AppStateView, id: Option<Seq<char>>, new_s: AppStateView, cmd: Option<CommandView>) -> bool {
    match id {
        Some(x) => new_s == loading(s) && cmd == Some(CommandView::OpenEmail { id: x }),
        None => new_s == s && cmd is None,
    }
}

/// The search overlay as entering search mode leaves it: an empty query listing every
/// message of the active listing, the first selected.
pub open spec fn search_entered(s: AppStateView) -> AppStateView {
    let emails = s.active_mailbox().emails;
    AppStateView {
        search: SearchView {
            query: Seq::empty(),
            cursor_pos: 0,
            results: emails,
            selected: first_or_none(emails.len()),
        },
        mode: ModeView::Search,
        ..s
    }
}

/// The state after leaving search mode.
pub open spec fn search_exited(s: AppStateView) -> AppStateView {
    AppStateView {
        search: SearchView { query: Seq::empty(), cursor_pos: 0, results: Seq::empty(), selected: None },
        mode: ModeView::Normal,
        ..s
    }
}

/// The search results for the current query over the active listing.
pub open spec fn search_updated(s: AppStateView) -> AppStateView {
    let results = search_results_for(s.search.query, s.active_mailbox().emails);
    AppStateView { search: SearchView { results, selected: first_or_none(results.len()), ..s.search }, ..s }
}

/// The state after entering compose mode, blank or replying to `reply_to`.
pub open spec fn compose_entered(s: AppStateView, reply_to: Option<MessageView>) -> AppStateView {
    AppStateView {
        composer: match reply_to {
            Some(m) => reply_composer(m),
            None => blank_composer(),
        },
        mode: ModeView::Compose,
        ..s
    }
}

impl App {
    /// Asks to open the selected message of the active listing.
    pub fn open_selected_email(&mut self) -> (cmd: Option<Command>)
        requires
            old(self).state@.wf(),
        ensures
            open_requested(
                old(self).state@,
                id_at(old(self).state@.active_mailbox().emails, old(self).state@.active_mailbox().selected),
                final(self).state@,
                command_opt_view(cmd),
            ),
            final(self).config == old(self).config,
            final(self).last_action_at == old(self).last_action_at,
    {
        let i = self.state.active_category.index();
        let id = match self.state.mailbox_states[i].list_state.selected() {
            Some(idx) => if idx < self.state.mailbox_states[i].emails.len() {
                Some(self.state.mailbox_states[i].emails[idx].id.clone())
            } else {
                None
            },
            None => None,
        };
        match id {
            Some(x) => Some(self.request_open_email(x)),
            None => None,
        }
    }

    /// Asks to open the selected search result, or the first if none is selected.
    pub fn open_search_selected(&mut self) -> (cmd: Option<Command>)
        ensures
            open_requested(
                old(self).state@,
                id_at(old(self).state@.search.results, Some(match old(self).state@.search.selected {
                    Some(i) => i,
                    None => 0,
                })),
                final(self).state@,
                command_opt_view(cmd),
            ),
            final(self).config == old(self).config,
            final(self).last_action_at == old(self).last_action_at,
    {
        let idx = match self.state.search.list_state.selected() {
            Some(i) => i,
            None => 0,
        };
        if idx < self.state.search.results.len() {
            let id = self.state.search.results[idx].id.clone();
            Some(self.request_open_email(id))
        } else {
            None
        }
    }

    /// Marks the state as loading and makes the command that opens message `id`.
    pub fn request_open_email(&mut self, id: String) -> (cmd: Command)
        ensures
            final(self).state@ == loading(old(self).state@),
            cmd@ == (CommandView::OpenEmail { id: id@ }),
            final(self).config == old(self).config,
            final(self).last_action_at == old(self).last_action_at,
    {
        self.state.is_loading = true;
        Command::OpenEmail { id }
    }

    /// Lists the results of the current query over the active listing.
    pub fn update_search_results(&mut self)
        requires
            old(self).state@.wf(),
        ensures
            final(self).state@ == search_updated(old(self).state@),
            final(self).config == old(self).config,
            final(self).last_action_at == old(self).last_action_at,
    {
        let i = self.state.active_category.index();
        self.state.search.apply_filter(self.state.mailbox_states[i].emails.as_slice());
    }

    /// Opens the search overlay with an empty query.
    pub fn enter_search_mode(&mut self)
        requires
            old(self).state@.wf(),
        ensures
            final(self).state@ == search_entered(old(self).state@),
            final(self).config == old(self).config,
            final(self).last_action_at == old(self).last_action_at,
    {
        self.state.search.reset();
        self.update_search_results();
        self.state.mode = AppMode::Search;
        assert(self.state@.search.query =~= Seq::<char>::empty());
    }

    /// Closes the search overlay.
    pub fn exit_search_mode(&mut self)
        ensures
            final(self).state@ == search_exited(old(self).state@),
            final(self).config == old(self).config,
            final(self).last_action_at == old(self).last_action_at,
    {
        self.state.search.reset();
        self.state.mode = AppMode::Normal;
        assert(self.state@.search.query =~= Seq::<char>::empty());
        assert(self.state@.search.results =~= Seq::<EmailSummary>::empty());
    }

    /// Opens the composer, blank or as a reply to `reply_to`.
    pub fn enter_compose_mode(&mut self, reply_to: Option<GmailMessage>)
        ensures
            final(self).state@ == compose_entered(old(self).state@, message_opt_view(reply_to)),
            final(self).config == old(self).config,
            final(self).last_action_at == old(self).last_action_at,
    {
        match &reply_to {
            Some(message) => {
                self.state.composer = ComposerState::from_reply(message);
            },
            None => {
                self.state.composer.reset();
            },
        }
        self.state.mode = AppMode::Compose;
    }
}

} // verus!

verus! {

/// The MIME text of the composed message: recipient and subject trimmed, plain UTF-8 text.
pub open spec fn mime_message(c: ComposerView) -> Seq<char> {
    "To: "@ + trim_seq(c.to) + "\r\nSubject: "@ + trim_seq(c.subject)
        + "\r\nMIME-Version: 1.0\r\nContent-Type: text/plain; charset=UTF-8\r\n\r\n"@ + c.body + "\r\n"@
}

/// The longest input whose base64 encoding has a length that fits in `usize`.
pub open spec fn max_encodable_len() -> int {
    usize::MAX / 4 * 3
}

/// What sending the composed message does: warn about a missing recipient, refuse a
/// message too long to encode, else start sending its base64 encoding.
pub open spec fn send_requested(s: AppStateView, new_s: AppStateView, cmd: Option<CommandView>) -> bool {
    let bytes = encode_utf8(mime_message(s.composer));
    if trim_seq(s.composer.to).len() == 0 {
        new_s == AppStateView { status: Some(("Recipient is empty"@, StatusLevel::Warning)), ..s } && cmd is None
    } else if bytes.len() > max_encodable_len() {
        new_s == AppStateView { status: Some(("Message too large to encode"@, StatusLevel::Error)), ..s }
            && cmd is None
    } else {
        new_s == loading(s) && cmd == Some(CommandView::SendMessage { raw: url_safe_no_pad_encode(bytes) })
    }
}

/// The MIME text of the composed message.
pub fn build_mime_message(composer: &ComposerState) -> (r: String)
    ensures
        r@ == mime_message(composer@),
{
    let to = trim_str(composer.to.as_str());
    let subject = trim_str(composer.subject.as_str());
    let r = String::from_str("To: ");
    let r = r.concat(to.as_str());
    let r = r.concat("\r\nSubject: ");
    let r = r.concat(subject.as_str());
    let r = r.concat("\r\nMIME-Version: 1.0\r\nContent-Type: text/plain; charset=UTF-8\r\n\r\n");
    let r = r.concat(composer.body.as_str());
    r.concat("\r\n")
}

impl App {
    /// Starts sending the composed message, unless it has no recipient.
    pub fn send_composed_email(&mut self) -> (cmd: Option<Command>)
        ensures
            send_requested(old(self).state@, final(self).state@, command_opt_view(cmd)),
            final(self).config == old(self).config,
            final(self).last_action_at == old(self).last_action_at,
    {
        let to = trim_str(self.state.composer.to.as_str());
        if to.as_str().is_empty() {
            self.state.status_message = Some((String::from_str("Recipient is empty"), StatusLevel::Warning));
            return None;
        }
        let mime = build_mime_message(&self.state.composer);
        let bytes = mime.as_str().as_bytes();
        if bytes.len() > usize::MAX / 4 * 3 {
            self.state.status_message = Some((String::from_str("Message too large to encode"), StatusLevel::Error));
            return None;
        }
        let raw = base64_url_encode(bytes);
        self.state.is_loading = true;
        Some(Command::SendMessage { raw })
    }

    /// Marks the state as loading and makes the command that deletes message `id`.
    pub fn delete_email(&mut self, id: String) -> (cmd: Command)
        ensures
            final(self).state@ == loading(old(self).state@),
            cmd@ == (CommandView::DeleteMessage { id: id@ }),
            final(self).config == old(self).config,
            final(self).last_action_at == old(self).last_action_at,
    {
        self.state.is_loading = true;
        Command::DeleteMessage { id }
    }
}

} // verus!

verus! {

/// How long the metadata fetch for the entry at `k` waits: the first ten at once, the
/// rest 150 ms apart (saturating at the largest delay).
pub open spec fn fetch_delay(k: int) -> u64 {
    if k < 10 {
        0
    } else if 150 * (k - 9) > u64::MAX {
        u64::MAX
    } else {
        (150 * (k - 9)) as u64
    }
}

/// The metadata fetches for a listing of `category`: one per entry, in order.
pub open spec fn metadata_fetches(category: MailboxCategory, emails: Seq<EmailSummary>) -> Seq<CommandView> {
    Seq::new(
        emails.len(),
        |k: int| CommandView::FetchMetadata { category, id: emails[k].id@, delay_ms: fetch_delay(k) },
    )
}

/// A list of commands, as plain values.
pub open spec fn commands_view(v: Seq<Command>) -> Seq<CommandView> {
    v.map_values(|c: Command| c@)
}

/// The entries of `emails` with the one having id `id` marked read.
pub open spec fn marked_read(emails: Seq<EmailSummary>, id: Seq<char>) -> Seq<EmailSummary> {
    Seq::new(
        emails.len(),
        |k: int| if emails[k].id@ == id {
            EmailSummary { is_read: true, ..emails[k] }
        } else {
            emails[k]
        },
    )
}

/// The entries of `emails` other than those with id `id`, in order.
pub open spec fn without_id(emails: Seq<EmailSummary>, id: Seq<char>) -> Seq<EmailSummary>
    decreases emails.len(),
{
    if emails.len() == 0 {
        Seq::empty()
    } else {
        let rest = without_id(emails.drop_last(), id);
        if emails.last().id@ == id {
            rest
        } else {
            rest.push(emails.last())
        }
    }
}

/// The position of the first entry with id `id`.
pub open spec fn first_with_id(emails: Seq<EmailSummary>, id: Seq<char>) -> Option<int>
    decreases emails.len(),
{
    if emails.len() == 0 {
        None
    } else if emails[0].id@ == id {
        Some(0)
    } else {
        match first_with_id(emails.drop_first(), id) {
            Some(k) => Some(k + 1),
            None => None,
        }
    }
}

/// An entry updated with the metadata `summary` fetched for it, in `category`: the
/// snippet stands in for an empty subject.
pub open spec fn with_metadata(e: EmailSummary, summary: EmailSummary, category: MailboxCategory) -> EmailSummary {
    EmailSummary {
        id: e.id,
        thread_id: e.thread_id,
        subject: if summary.subject@.len() == 0 { summary.snippet } else { summary.subject },
        from: summary.from,
        date: summary.date,
        snippet: summary.snippet,
        is_read: summary.is_read,
        category,
    }
}

impl App {
    /// The metadata fetches for the listing of `category`.
    pub fn spawn_metadata_fetches(&self, category: MailboxCategory) -> (cmds: Vec<Command>)
        requires
            self.state@.wf(),
        ensures
            commands_view(cmds@) == metadata_fetches(category, self.state@.mailboxes[category_index(category) as int].emails),
    {
        let i = category.index();
        let emails = &self.state.mailbox_states[i].emails;
        let mut cmds: Vec<Command> = Vec::new();
        let mut k: usize = 0;
        while k < emails.len()
            invariant
                k <= emails@.len(),
                commands_view(cmds@) == metadata_fetches(category, emails@).take(k as int),
            decreases emails@.len() - k,
        {
            let delay: u64 = if k < 10 {
                0
            } else if (k - 9) as u64 <= u64::MAX / 150 {
                150 * ((k - 9) as u64)
            } else {
                u64::MAX
            };
            let ghost before = commands_view(cmds@);
            cmds.push(Command::FetchMetadata { category, id: emails[k].id.clone(), delay_ms: delay });
            assert(commands_view(cmds@) =~= before.push(cmds@[k as int]@));
            assert(metadata_fetches(category, emails@).take(k + 1) =~= metadata_fetches(category, emails@).take(
                k as int,
            ).push(metadata_fetches(category, emails@)[k as int]));
            k = k + 1;
        }
        assert(metadata_fetches(category, emails@).take(emails@.len() as int) =~= metadata_fetches(
            category,
            emails@,
        ));
        cmds
    }
}

} // verus!

verus! {

/// What a loaded page of `category` does to the state: the listing takes the page (after
/// its entries, with `append`), sorted in its order, with the page token, the fetch time
/// and a first selection; loading ends, the status says so, and the metadata of every
/// entry is fetched.
pub open spec fn emails_loaded(
    s: AppStateView,
    category: MailboxCategory,
    page: Seq<EmailSummary>,
    token: Option<Seq<char>>,
    append: bool,
    now: u64,
    new_s: AppStateView,
    cmds: Seq<CommandView>,
) -> bool {
    let i = category_index(category) as int;
    let m = s.mailboxes[i];
    let n = new_s.mailboxes[i];
    let unsorted = if append { m.emails + page } else { page };
    &&& new_s == AppStateView {
        mailboxes: s.mailboxes.update(i, n),
        is_loading: false,
        status: info("Mailbox updated"@),
        ..s
    }
    &&& is_stable_sort_of(m.active_sort, n.emails, unsorted)
    &&& n == MailboxView {
        emails: n.emails,
        selected: if m.selected is None && n.emails.len() > 0 { Some(0) } else { m.selected },
        next_page_token: token,
        has_more: token is Some,
        last_fetched: Some(now),
        active_sort: m.active_sort,
    }
    &&& cmds == metadata_fetches(category, n.emails)
}

/// Loading a further page keeps the cache: the listing grows by the page's length and
/// still holds every entry it held before, as well as every entry of the page.
pub proof fn lemma_more_pages_keep_cache(
    s: AppStateView,
    category: MailboxCategory,
    page: Seq<EmailSummary>,
    token: Option<Seq<char>>,
    now: u64,
    new_s: AppStateView,
    cmds: Seq<CommandView>,
)
    requires
        s.wf(),
        emails_loaded(s, category, page, token, true, now, new_s, cmds),
    ensures
        ({
            let i = category_index(category) as int;
            &&& new_s.mailboxes[i].emails.len() == s.mailboxes[i].emails.len() + page.len()
            &&& forall|j: int| 0 <= j < s.mailboxes[i].emails.len()
                ==> new_s.mailboxes[i].emails.contains(#[trigger] s.mailboxes[i].emails[j])
            &&& forall|j: int| 0 <= j < page.len() ==> new_s.mailboxes[i].emails.contains(#[trigger] page[j])
        }),
{
    let i = category_index(category) as int;
    let old_emails = s.mailboxes[i].emails;
    let new_emails = new_s.mailboxes[i].emails;
    let joined = old_emails + page;
    let order = s.mailboxes[i].active_sort;
    assert forall|j: int| 0 <= j < old_emails.len() implies new_emails.contains(#[trigger] old_emails[j]) by {
        assert(joined[j] == old_emails[j]);
        lemma_sort_keeps_entries(order, new_emails, joined, j);
    }
    assert forall|j: int| 0 <= j < page.len() implies new_emails.contains(#[trigger] page[j]) by {
        assert(joined[old_emails.len() + j] == page[j]);
        lemma_sort_keeps_entries(order, new_emails, joined, old_emails.len() + j);
    }
    if joined.len() > 0 {
        lemma_sort_keeps_entries(order, new_emails, joined, 0);
    }
}

impl App {
    /// Takes a loaded page of `category` into its listing.
    pub fn on_emails_loaded(
        &mut self,
        category: MailboxCategory,
        emails: Vec<EmailSummary>,
        next_page_token: Option<String>,
        append: bool,
        now_ms: u64,
    ) -> (cmds: Vec<Command>)
        requires
            old(self).state@.wf(),
        ensures
            emails_loaded(
                old(self).state@,
                category,
                emails@,
                opt_view(next_page_token),
                append,
                now_ms,
                final(self).state@,
                commands_view(cmds@),
            ),
            final(self).state@.wf(),
            final(self).config == old(self).config,
            final(self).last_action_at == old(self).last_action_at,
    {
        let i = category.index();
        let ghost before = self.state.mailbox_states@;
        let mut emails = emails;
        if append {
            self.state.mailbox_states[i].emails.append(&mut emails);
        } else {
            self.state.mailbox_states[i].emails = emails;
        }
        let order = self.state.mailbox_states[i].active_sort;
        sort_emails(&mut self.state.mailbox_states[i].emails, order);
        let has_more = next_page_token.is_some();
        self.state.mailbox_states[i].next_page_token = next_page_token;
        self.state.mailbox_states[i].has_more = has_more;
        self.state.mailbox_states[i].last_fetched = Some(now_ms);
        if self.state.mailbox_states[i].list_state.selected().is_none()
            && self.state.mailbox_states[i].emails.len() > 0 {
            self.state.mailbox_states[i].list_state.select(Some(0));
        }
        proof {
            lemma_update_mailbox_view(before, self.state.mailbox_states@, i as int);
        }
        self.state.is_loading = false;
        self.state.status_message = Some((String::from_str("Mailbox updated"), StatusLevel::Info));
        self.spawn_metadata_fetches(category)
    }

    /// Shows a message read in full and marks it read in its listing.
    pub fn on_email_loaded(&mut self, message: GmailMessage)
        requires
            old(self).state@.wf(),
        ensures
            ({
                let s = old(self).state@;
                let i = category_index(message.category) as int;
                let m = s.mailboxes[i];
                final(self).state@ == AppStateView {
                    mailboxes: s.mailboxes.update(i, MailboxView { emails: marked_read(m.emails, message.id@), ..m }),
                    current_email: Some(message@),
                    scroll: 0,
                    mode: ModeView::EmailView,
                    is_loading: false,
                    ..s
                }
            }),
            final(self).state@.wf(),
            final(self).config == old(self).config,
            final(self).last_action_at == old(self).last_action_at,
    {
        let i = message.category.index();
        let ghost before = self.state.mailbox_states@;
        let mut emails: Vec<EmailSummary> = Vec::new();
        std::mem::swap(&mut emails, &mut self.state.mailbox_states[i].emails);
        let ghost emails0 = emails@;
        let n = emails.len();
        let mut k: usize = 0;
        while k < n
            invariant
                n == emails0.len(),
                k <= n,
                emails@.len() == n,
                forall|j: int| 0 <= j < k ==> #[trigger] emails@[j] == marked_read(emails0, message.id@)[j],
                forall|j: int| k <= j < n ==> #[trigger] emails@[j] == emails0[j],
            decreases n - k,
        {
            if emails[k].id == message.id {
                emails[k].is_read = true;
            }
            k = k + 1;
        }
        assert(emails@ =~= marked_read(emails0, message.id@));
        self.state.mailbox_states[i].emails = emails;
        proof {
            lemma_update_mailbox_view(before, self.state.mailbox_states@, i as int);
        }
        self.state.current_email = Some(message);
        self.state.email_view.scroll = 0;
        self.state.mode = AppMode::EmailView;
        self.state.is_loading = false;
    }
}

} // verus!

verus! {

/// What the Gmail client reports back for a command.
#[derive(Debug)]
pub enum AppEvent {
    EmailsLoaded {
        category: MailboxCategory,
        emails: Vec<EmailSummary>,
        next_page_token: Option<String>,
        append: bool,
    },
    EmailLoaded { message: GmailMessage },
    MessageSent(Result<(), String>),
    MessageDeleted { id: String, result: Result<(), String> },
    Status { message: String, level: StatusLevel },
    EmailSummaryUpdated { category: MailboxCategory, summary: EmailSummary },
}

/// What the outcome of sending does: on success the status says so, the composer empties
/// and the normal view returns; on failure the status shows the error. Loading ends.
pub open spec fn message_sent(s: AppStateView, result: Result<(), String>) -> AppStateView {
    match result {
        Ok(()) => AppStateView {
            is_loading: false,
            status: info("Message sent"@),
            mode: ModeView::Normal,
            composer: blank_composer(),
            ..s
        },
        Err(e) => AppStateView { is_loading: false, status: Some((e@, StatusLevel::Error)), ..s },
    }
}

/// What the outcome of deleting message `id` does: on success it leaves the active
/// listing, the status says so, the normal view returns and no message is open; on
/// failure the status shows the error. Loading ends.
pub open spec fn message_deleted(s: AppStateView, id: Seq<char>, result: Result<(), String>) -> AppStateView {
    match result {
        Ok(()) => {
            let i = active_index(s);
            let m = s.mailboxes[i];
            AppStateView {
                mailboxes: s.mailboxes.update(i, MailboxView { emails: without_id(m.emails, id), ..m }),
                is_loading: false,
                status: info("Message deleted"@),
                mode: ModeView::Normal,
                current_email: None,
                ..s
            }
        },
        Err(e) => AppStateView { is_loading: false, status: Some((e@, StatusLevel::Error)), ..s },
    }
}

/// What fetched metadata does to the listing of `category`: the first entry with its id
/// takes it, and the listing is sorted again in its order.
pub open spec fn summary_updated(s: AppStateView, category: MailboxCategory, summary: EmailSummary, new_s: AppStateView) -> bool {
    let i = category_index(category) as int;
    let m = s.mailboxes[i];
    let n = new_s.mailboxes[i];
    let updated = match first_with_id(m.emails, summary.id@) {
        Some(k) => m.emails.update(k, with_metadata(m.emails[k], summary, category)),
        None => m.emails,
    };
    &&& new_s == with_mailbox(s, i, n)
    &&& n == MailboxView { emails: n.emails, ..m }
    &&& is_stable_sort_of(m.active_sort, n.emails, updated)
}

/// Leaving out the entries with an id leaves none with it, and keeps every other entry.
pub proof fn lemma_without_id(emails: Seq<EmailSummary>, id: Seq<char>)
    ensures
        forall|k: int| 0 <= k < without_id(emails, id).len() ==> (#[trigger] without_id(emails, id)[k]).id@ != id,
        forall|k: int| 0 <= k < emails.len() && (#[trigger] emails[k]).id@ != id ==> without_id(emails, id).contains(emails[k]),
    decreases emails.len(),
{
    if emails.len() > 0 {
        let init = emails.drop_last();
        lemma_without_id(init, id);
        let rest = without_id(init, id);
        assert forall|k: int| 0 <= k < emails.len() && (#[trigger] emails[k]).id@ != id implies without_id(emails, id).contains(emails[k]) by {
            if k < emails.len() - 1 {
                assert(init[k] == emails[k]);
                let j = choose|j: int| 0 <= j < rest.len() && rest[j] == init[k];
                if emails.last().id@ != id {
                    assert(rest.push(emails.last())[j] == emails[k]);
                }
            } else {
                assert(rest.push(emails.last())[rest.len() as int] == emails[k]);
            }
        }
    }
}

/// A deleted message leaves the active listing: after a successful delete no entry of it
/// has the deleted id, and every entry with another id is still listed.
pub proof fn lemma_deleted_message_leaves_listing(s: AppStateView, id: Seq<char>)
    requires
        s.wf(),
    ensures
        ({
            let before = s.active_mailbox().emails;
            let after = message_deleted(s, id, Ok(())).active_mailbox().emails;
            &&& forall|k: int| 0 <= k < after.len() ==> (#[trigger] after[k]).id@ != id
            &&& forall|k: int| 0 <= k < before.len() && (#[trigger] before[k]).id@ != id ==> after.contains(before[k])
        }),
{
    lemma_without_id(s.active_mailbox().emails, id);
}

proof fn lemma_without_id_step(emails: Seq<EmailSummary>, id: Seq<char>, k: int)
    requires
        0 <= k < emails.len(),
    ensures
        without_id(emails.take(k + 1), id) == if emails[k].id@ == id {
            without_id(emails.take(k), id)
        } else {
            without_id(emails.take(k), id).push(emails[k])
        },
{
    assert(emails.take(k + 1).drop_last() =~= emails.take(k));
}

proof fn lemma_first_with_id_none_prefix(emails: Seq<EmailSummary>, id: Seq<char>, k: int)
    requires
        0 <= k <= emails.len(),
        forall|j: int| 0 <= j < k ==> emails[j].id@ != id,
    ensures
        first_with_id(emails, id) == (match first_with_id(emails.skip(k), id) {
            Some(x) => Some(x + k),
            None => None,
        }),
    decreases k,
{
    if k == 0 {
        assert(emails.skip(0) =~= emails);
    } else {
        lemma_first_with_id_none_prefix(emails.drop_first(), id, k - 1);
        assert(emails.drop_first().skip(k - 1) =~= emails.skip(k));
    }
}

/// What a report from the Gmail client does to the state, and the commands it leads to.
pub open spec fn app_event_effect(s: AppStateView, event: AppEvent, now: u64, new_s: AppStateView, cmds: Seq<CommandView>) -> bool {
    match event {
        AppEvent::EmailsLoaded { category, emails, next_page_token, append } => emails_loaded(
            s,
            category,
            emails@,
            opt_view(next_page_token),
            append,
            now,
            new_s,
            cmds,
        ),
        AppEvent::EmailLoaded { message } => {
            let i = category_index(message.category) as int;
            let m = s.mailboxes[i];
            &&& new_s == AppStateView {
                mailboxes: s.mailboxes.update(i, MailboxView { emails: marked_read(m.emails, message.id@), ..m }),
                current_email: Some(message@),
                scroll: 0,
                mode: ModeView::EmailView,
                is_loading: false,
                ..s
            }
            &&& cmds.len() == 0
        },
        AppEvent::MessageSent(result) => new_s == message_sent(s, result)
            && cmds.len() == 0,
        AppEvent::MessageDeleted { id, result } => new_s == message_deleted(
            s,
            id@,
            result,
        ) && cmds.len() == 0,
        AppEvent::Status { message, level } => new_s == (AppStateView {
            is_loading: false,
            status: Some((message@, level)),
            ..s
        }) && cmds.len() == 0,
        AppEvent::EmailSummaryUpdated { category, summary } => summary_updated(
            s,
            category,
            summary,
            new_s,
        ) && cmds.len() == 0,
    }
}

impl App {
    /// Takes the outcome of sending a message.
    pub fn on_message_sent(&mut self, result: Result<(), String>)
        ensures
            final(self).state@ == message_sent(old(self).state@, result),
            final(self).config == old(self).config,
            final(self).last_action_at == old(self).last_action_at,
    {
        self.state.is_loading = false;
        match result {
            Ok(()) => {
                self.state.status_message = Some((String::from_str("Message sent"), StatusLevel::Info));
                self.state.mode = AppMode::Normal;
                self.state.composer.reset();
            },
            Err(err) => {
                self.state.status_message = Some((err, StatusLevel::Error));
            },
        }
    }

    /// Takes the outcome of deleting message `id`.
    pub fn on_message_deleted(&mut self, id: String, result: Result<(), String>)
        requires
            old(self).state@.wf(),
        ensures
            final(self).state@ == message_deleted(old(self).state@, id@, result),
            final(self).state@.wf(),
            final(self).config == old(self).config,
            final(self).last_action_at == old(self).last_action_at,
    {
        self.state.is_loading = false;
        match result {
            Ok(()) => {
                let i = self.state.active_category.index();
                let ghost before = self.state.mailbox_states@;
                let mut emails: Vec<EmailSummary> = Vec::new();
                std::mem::swap(&mut emails, &mut self.state.mailbox_states[i].emails);
                let mut kept: Vec<EmailSummary> = Vec::new();
                let mut k: usize = 0;
                while k < emails.len()
                    invariant
                        k <= emails@.len(),
                        kept@ == without_id(emails@.take(k as int), id@),
                    decreases emails@.len() - k,
                {
                    proof {
                        lemma_without_id_step(emails@, id@, k as int);
                    }
                    if emails[k].id != id {
                        kept.push(emails[k].clone());
                    }
                    k = k + 1;
                }
                assert(emails@.take(emails@.len() as int) =~= emails@);
                self.state.mailbox_states[i].emails = kept;
                proof {
                    lemma_update_mailbox_view(before, self.state.mailbox_states@, i as int);
                }
                self.state.status_message = Some((String::from_str("Message deleted"), StatusLevel::Info));
                self.state.mode = AppMode::Normal;
                self.state.current_email = None;
            },
            Err(err) => {
                self.state.status_message = Some((err, StatusLevel::Error));
            },
        }
    }

    /// Shows a status message; loading ends.
    pub fn on_status(&mut self, message: String, level: StatusLevel)
        ensures
            final(self).state@ == (AppStateView { is_loading: false, status: Some((message@, level)), ..old(self).state@ }),
            final(self).config == old(self).config,
            final(self).last_action_at == old(self).last_action_at,
    {
        self.state.is_loading = false;
        self.state.status_message = Some((message, level));
    }

    /// Takes fetched metadata into the listing of `category`.
    pub fn on_summary_updated(&mut self, category: MailboxCategory, summary: EmailSummary)
        requires
            old(self).state@.wf(),
        ensures
            summary_updated(old(self).state@, category, summary, final(self).state@),
            final(self).state@.wf(),
            final(self).config == old(self).config,
            final(self).last_action_at == old(self).last_action_at,
    {
        let i = category.index();
        let ghost before = self.state.mailbox_states@;
        let mut emails: Vec<EmailSummary> = Vec::new();
        std::mem::swap(&mut emails, &mut self.state.mailbox_states[i].emails);
        let ghost emails0 = emails@;
        let mut k: usize = 0;
        while k < emails.len()
            invariant
                emails@ == emails0,
                k <= emails@.len(),
                forall|j: int| 0 <= j < k ==> emails0[j].id@ != summary.id@,
            ensures
                emails@ == emails0,
                k <= emails@.len(),
                forall|j: int| 0 <= j < k ==> emails0[j].id@ != summary.id@,
                k < emails@.len() ==> emails0[k as int].id@ == summary.id@,
            decreases emails@.len() - k,
        {
            if emails[k].id == summary.id {
                break;
            }
            k = k + 1;
        }
        proof {
            lemma_first_with_id_none_prefix(emails0, summary.id@, k as int);
        }
        if k < emails.len() {
            assert(emails0.skip(k as int)[0] == emails0[k as int]);
            let subject = if summary.subject.as_str().is_empty() {
                summary.snippet.clone()
            } else {
                summary.subject
            };
            emails[k].subject = subject;
            emails[k].from = summary.from;
            emails[k].date = summary.date;
            emails[k].snippet = summary.snippet;
            emails[k].is_read = summary.is_read;
            emails[k].category = category;
            assert(emails@ =~= emails0.update(k as int, with_metadata(emails0[k as int], summary, category)));
        } else {
            assert(emails0.skip(k as int).len() == 0);
        }
        let order = self.state.mailbox_states[i].active_sort;
        sort_emails(&mut emails, order);
        self.state.mailbox_states[i].emails = emails;
        proof {
            lemma_update_mailbox_view(before, self.state.mailbox_states@, i as int);
        }
    }

    /// Takes what the Gmail client reports back, at `now_ms`.
    pub fn handle_app_event(&mut self, event: AppEvent, now_ms: u64) -> (cmds: Vec<Command>)
        requires
            old(self).state@.wf(),
        ensures
            final(self).state@.wf(),
            final(self).config == old(self).config,
            final(self).last_action_at == old(self).last_action_at,
            app_event_effect(old(self).state@, event, now_ms, final(self).state@, commands_view(cmds@)),
    {
        match event {
            AppEvent::EmailsLoaded { category, emails, next_page_token, append } => {
                self.on_emails_loaded(category, emails, next_page_token, append, now_ms)
            },
            AppEvent::EmailLoaded { message } => {
                self.on_email_loaded(message);
                Vec::new()
            },
            AppEvent::MessageSent(result) => {
                self.on_message_sent(result);
                Vec::new()
            },
            AppEvent::MessageDeleted { id, result } => {
                self.on_message_deleted(id, result);
                Vec::new()
            },
            AppEvent::Status { message, level } => {
                self.on_status(message, level);
                Vec::new()
            },
            AppEvent::EmailSummaryUpdated { category, summary } => {
                self.on_summary_updated(category, summary);
                Vec::new()
            },
        }
    }
}

} // verus!

verus! {

/// The state with mode `m`.
pub open spec fn with_mode(s: AppStateView, m: ModeView) -> AppStateView {
    AppStateView { mode: m, ..s }
}

/// The state with the search query and cursor replaced and the results listed afresh.
pub open spec fn query_edited(s: AppStateView, query: Seq<char>, cursor: usize) -> AppStateView {
    search_updated(AppStateView { search: SearchView { query, cursor_pos: cursor, ..s.search }, ..s })
}

/// The position a search result is opened from: the selected one, or the first.
pub open spec fn search_pick(s: AppStateView) -> Option<usize> {
    Some(match s.search.selected {
        Some(i) => i,
        None => 0,
    })
}

/// The unchanged state with no command.
pub open spec fn unchanged(s: AppStateView, new_s: AppStateView, cmd: Option<CommandView>) -> bool {
    new_s == s && cmd is None
}

/// What asking for more messages does: where the active listing has a next page, start
/// loading that page to be appended to the listing; where it has none, nothing.
pub open spec fn more_requested(s: AppStateView, c: Config, new_s: AppStateView, cmd: Option<CommandView>) -> bool {
    match s.active_mailbox().next_page_token {
        Some(token) => new_s == loading(s) && cmd == Some(
            CommandView::ListMessages {
                category: s.active_category,
                page_token: Some(token),
                max_results: list_page_size(c.page_size),
                append: true,
            },
        ),
        None => unchanged(s, new_s, cmd),
    }
}

impl App {
    /// Starts loading the page after the active listing's, to be appended to it, where
    /// there is such a page.
    pub fn load_more(&mut self) -> (cmd: Option<Command>)
        requires
            old(self).state@.wf(),
        ensures
            more_requested(old(self).state@, old(self).config, final(self).state@, command_opt_view(cmd)),
            final(self).state@.wf(),
            final(self).config == old(self).config,
            final(self).last_action_at == old(self).last_action_at,
    {
        let i = self.state.active_category.index();
        let token = match &self.state.mailbox_states[i].next_page_token {
            Some(t) => t.clone(),
            None => {
                return None;
            },
        };
        let category = self.state.active_category;
        Some(self.spawn_list_messages(category, Some(token), true))
    }
}

/// The effect of a key in normal mode, the first matching binding deciding.
pub open spec fn normal_key_effect(
    s: AppStateView,
    c: Config,
    key: KeyEvent,
    now: u64,
    new_s: AppStateView,
    cmd: Option<CommandView>,
) -> bool {
    let k = c.keybindings;
    if key_matches(k, Action::Down, key) {
        new_s == selection_moved(s, 1) && cmd is None
    } else if key_matches(k, Action::Up, key) {
        new_s == selection_moved(s, -1) && cmd is None
    } else if key_matches(k, Action::Open, key) {
        open_requested(s, id_at(s.active_mailbox().emails, s.active_mailbox().selected), new_s, cmd)
    } else if key_matches(k, Action::Search, key) {
        new_s == search_entered(s) && cmd is None
    } else if key_matches(k, Action::Compose, key) {
        new_s == compose_entered(s, None) && cmd is None
    } else if key_matches(k, Action::Help, key) {
        new_s == with_mode(s, ModeView::Help) && cmd is None
    } else if key_matches(k, Action::Refresh, key) {
        refreshed(s, c, true, now, new_s, cmd)
    } else if key_matches(k, Action::LoadMore, key) {
        more_requested(s, c, new_s, cmd)
    } else if key_matches(k, Action::NextTab, key) {
        refreshed(AppStateView { active_category: next_category(s.active_category), ..s }, c, false, now, new_s, cmd)
    } else if key_matches(k, Action::PrevTab, key) {
        refreshed(AppStateView { active_category: prev_category(s.active_category), ..s }, c, false, now, new_s, cmd)
    } else if key.code == KeyCode::Char('s') {
        sort_toggled(s, new_s) && cmd is None
    } else {
        unchanged(s, new_s, cmd)
    }
}

/// The effect of a key in search mode: Esc closes, the Down and Up bindings move the
/// selection, Backspace moves the cursor back a byte and deletes the character there,
/// Enter opens the selected result, and a character without Control or Alt is typed at
/// the cursor, which moves on a byte. The cursor counts bytes of UTF-8.
pub open spec fn search_key_effect(s: AppStateView, c: Config, key: KeyEvent, new_s: AppStateView, cmd: Option<CommandView>) -> bool {
    let k = c.keybindings;
    let q = s.search.query;
    let at = s.search.cursor_pos;
    if key.code == KeyCode::Esc {
        new_s == search_exited(s) && cmd is None
    } else if key_matches(k, Action::Down, key) {
        new_s == search_moved(s, 1) && cmd is None
    } else if key_matches(k, Action::Up, key) {
        new_s == search_moved(s, -1) && cmd is None
    } else {
        match key.code {
            KeyCode::Backspace => if at > 0 {
                new_s == query_edited(s, remove_at_byte(q, at - 1), (at - 1) as usize) && cmd is None
            } else {
                unchanged(s, new_s, cmd)
            },
            KeyCode::Enter => open_requested(s, id_at(s.search.results, search_pick(s)), new_s, cmd),
            KeyCode::Char(ch) => if !key.modifiers.control && !key.modifiers.alt {
                new_s == query_edited(s, insert_at_byte(q, at as int, ch), (at + 1) as usize) && cmd is None
            } else {
                unchanged(s, new_s, cmd)
            },
            _ => unchanged(s, new_s, cmd),
        }
    }
}

/// The effect of a key in the message view.
pub open spec fn email_view_key_effect(s: AppStateView, c: Config, key: KeyEvent, new_s: AppStateView, cmd: Option<CommandView>) -> bool {
    let k = c.keybindings;
    &&& cmd is None
    &&& if key.code == KeyCode::Esc {
        new_s == with_mode(s, ModeView::Normal)
    } else if key_matches(k, Action::Help, key) {
        new_s == with_mode(s, ModeView::Help)
    } else if key_matches(k, Action::Reply, key) {
        new_s == match s.current_email {
            Some(m) => compose_entered(s, Some(m)),
            None => s,
        }
    } else if key_matches(k, Action::Delete, key) {
        new_s == match s.current_email {
            Some(m) => with_mode(s, ModeView::ConfirmDelete(m.id)),
            None => s,
        }
    } else if key_matches(k, Action::Down, key) {
        new_s == scrolled(s, 1)
    } else if key_matches(k, Action::Up, key) {
        new_s == scrolled(s, -1)
    } else {
        new_s == s
    }
}

/// The text of the composer's active field.
pub open spec fn active_text_view(c: ComposerView) -> Seq<char> {
    match c.active_field {
        ComposerField::To => c.to,
        ComposerField::Subject => c.subject,
        ComposerField::Body => c.body,
    }
}

/// The cursor of the composer's active field.
pub open spec fn active_cursor_view(c: ComposerView) -> usize {
    match c.active_field {
        ComposerField::To => c.cursor_to,
        ComposerField::Subject => c.cursor_subject,
        ComposerField::Body => c.cursor_body,
    }
}

/// The composer with its active field's text and cursor replaced.
pub open spec fn active_edited(c: ComposerView, text: Seq<char>, cursor: usize) -> ComposerView {
    match c.active_field {
        ComposerField::To => ComposerView { to: text, cursor_to: cursor, ..c },
        ComposerField::Subject => ComposerView { subject: text, cursor_subject: cursor, ..c },
        ComposerField::Body => ComposerView { body: text, cursor_body: cursor, ..c },
    }
}

/// The state with the composer's active field edited.
pub open spec fn composer_edited(s: AppStateView, text: Seq<char>, cursor: usize) -> AppStateView {
    AppStateView { composer: active_edited(s.composer, text, cursor), ..s }
}

/// An editing key in the composer leaves `String::insert`, `String::remove` and the cursor
/// arithmetic without panic: a character is typed where a character boundary lies and
/// the cursor can move on, Backspace deletes a character that starts a byte back, and
/// the text's length in bytes fits in `usize`.
pub open spec fn compose_key_safe(s: AppStateView, c: Config, key: KeyEvent) -> bool {
    let t = active_text_view(s.composer);
    let at = active_cursor_view(s.composer);
    let editing = key.code != KeyCode::Esc && !key_matches(c.keybindings, Action::Help, key)
        && key.code != KeyCode::Tab && key.code != KeyCode::BackTab
        && !(key.modifiers.control && key.code == KeyCode::Char('s'));
    editing ==> match key.code {
        KeyCode::Backspace => at > 0 ==> can_remove_at_byte(t, at - 1),
        KeyCode::Right => utf8_len(t) <= usize::MAX,
        KeyCode::Enter => s.composer.active_field == ComposerField::Body ==> can_insert_at_byte(t, at as int)
            && at < usize::MAX,
        KeyCode::Char(_) => !key.modifiers.control && !key.modifiers.alt ==> can_insert_at_byte(t, at as int)
            && at < usize::MAX,
        _ => true,
    }
}

/// An editing key in search mode leaves the query's `String::insert`, `String::remove` and
/// the cursor arithmetic without panic.
pub open spec fn search_key_safe(s: AppStateView, c: Config, key: KeyEvent) -> bool {
    let q = s.search.query;
    let at = s.search.cursor_pos;
    let editing = key.code != KeyCode::Esc && !key_matches(c.keybindings, Action::Down, key)
        && !key_matches(c.keybindings, Action::Up, key);
    editing ==> match key.code {
        KeyCode::Backspace => at > 0 ==> can_remove_at_byte(q, at - 1),
        KeyCode::Char(_) => !key.modifiers.control && !key.modifiers.alt ==> can_insert_at_byte(q, at as int)
            && at < usize::MAX,
        _ => true,
    }
}

/// A key leaves the text editing of the current mode without panic.
pub open spec fn key_safe(s: AppStateView, c: Config, key: KeyEvent) -> bool {
    match s.mode {
        ModeView::Compose => compose_key_safe(s, c, key),
        ModeView::Search => search_key_safe(s, c, key),
        _ => true,
    }
}

/// A key event is handled without panic: it is throttled, it quits, or its editing is safe.
pub open spec fn key_event_safe(last: u64, s: AppStateView, c: Config, key: KeyEvent, now: u64) -> bool {
    throttled(last, key, now) || key_matches(c.keybindings, Action::Quit, key) || key_safe(s, c, key)
}

/// The effect of a key in the composer: Esc discards and leaves, the Help binding opens
/// help, Tab and Shift+Tab change field, Control+S sends on press, and the editing keys
/// act on the active field at its cursor (Enter only in the body). Cursors count bytes of
/// UTF-8 and move a byte at a time.
pub open spec fn compose_key_effect(s: AppStateView, c: Config, key: KeyEvent, new_s: AppStateView, cmd: Option<CommandView>) -> bool {
    let k = c.keybindings;
    let t = active_text_view(s.composer);
    let at = active_cursor_view(s.composer);
    if key.code == KeyCode::Esc {
        new_s == (AppStateView { composer: blank_composer(), mode: ModeView::Normal, ..s }) && cmd is None
    } else if key_matches(k, Action::Help, key) {
        new_s == with_mode(s, ModeView::Help) && cmd is None
    } else if key.code == KeyCode::Tab {
        new_s == (AppStateView {
            composer: ComposerView { active_field: next_field(s.composer.active_field), ..s.composer },
            ..s
        }) && cmd is None
    } else if key.code == KeyCode::BackTab {
        new_s == (AppStateView {
            composer: ComposerView { active_field: prev_field(s.composer.active_field), ..s.composer },
            ..s
        }) && cmd is None
    } else if key.modifiers.control && key.code == KeyCode::Char('s') {
        if key.kind == KeyEventKind::Press {
            send_requested(s, new_s, cmd)
        } else {
            unchanged(s, new_s, cmd)
        }
    } else {
        &&& cmd is None
        &&& match key.code {
            KeyCode::Backspace => new_s == if at > 0 {
                composer_edited(s, remove_at_byte(t, at - 1), (at - 1) as usize)
            } else {
                s
            },
            KeyCode::Left => new_s == if at > 0 {
                composer_edited(s, t, (at - 1) as usize)
            } else {
                s
            },
            KeyCode::Right => new_s == if at < utf8_len(t) {
                composer_edited(s, t, (at + 1) as usize)
            } else {
                s
            },
            KeyCode::Enter => new_s == if s.composer.active_field == ComposerField::Body {
                composer_edited(s, insert_at_byte(t, at as int, '\n'), (at + 1) as usize)
            } else {
                s
            },
            KeyCode::Char(ch) => new_s == if !key.modifiers.control && !key.modifiers.alt {
                composer_edited(s, insert_at_byte(t, at as int, ch), (at + 1) as usize)
            } else {
                s
            },
            _ => new_s == s,
        }
    }
}

/// The composer's cursors stand within their texts, counted in bytes.
pub open spec fn cursors_within(c: ComposerView) -> bool {
    &&& c.cursor_to <= utf8_len(c.to)
    &&& c.cursor_subject <= utf8_len(c.subject)
    &&& c.cursor_body <= utf8_len(c.body)
}

/// Every key in the composer keeps each cursor within its text: typing moves the cursor
/// on past the new character, Backspace and Left stop at the start, Right stops at the
/// end, Esc empties the composer, and the other keys leave the cursors alone.
pub proof fn lemma_compose_keeps_cursors(
    s: AppStateView,
    c: Config,
    key: KeyEvent,
    new_s: AppStateView,
    cmd: Option<CommandView>,
)
    requires
        cursors_within(s.composer),
        compose_key_safe(s, c, key),
        compose_key_effect(s, c, key, new_s, cmd),
    ensures
        cursors_within(new_s.composer),
{
    let t = active_text_view(s.composer);
    let at = active_cursor_view(s.composer);
    match key.code {
        KeyCode::Backspace => {
            if at > 0 && can_remove_at_byte(t, at - 1) {
                crate::text::lemma_remove_at_byte_len(t, at - 1);
            }
        },
        KeyCode::Enter => {
            if can_insert_at_byte(t, at as int) {
                crate::text::lemma_insert_at_byte_len(t, at as int, '\n');
            }
        },
        KeyCode::Char(ch) => {
            if can_insert_at_byte(t, at as int) {
                crate::text::lemma_insert_at_byte_len(t, at as int, ch);
            }
        },
        _ => {},
    }
}

/// Typing a character in the composer and then pressing Backspace gives the composer
/// back as it was.
pub proof fn lemma_compose_type_then_backspace(
    s: AppStateView,
    c: Config,
    typed: KeyEvent,
    back: KeyEvent,
    mid: AppStateView,
    end: AppStateView,
    first: Option<CommandView>,
    second: Option<CommandView>,
)
    requires
        s.wf(),
        s.mode is Compose,
        compose_key_safe(s, c, typed),
        typed.code is Char,
        !typed.modifiers.control,
        !typed.modifiers.alt,
        !key_matches(c.keybindings, Action::Help, typed),
        back.code == KeyCode::Backspace,
        !key_matches(c.keybindings, Action::Help, back),
        compose_key_effect(s, c, typed, mid, first),
        compose_key_effect(mid, c, back, end, second),
    ensures
        end == s,
        first is None,
        second is None,
{
    let t = active_text_view(s.composer);
    let at = active_cursor_view(s.composer);
    let ch = typed.code->Char_0;
    lemma_insert_then_remove_at_byte(t, at as int, ch);
    assert(active_text_view(mid.composer) == insert_at_byte(t, at as int, ch));
    assert(end.composer == s.composer);
}

/// The effect of a key in the delete confirmation: `y` deletes the message waiting for it,
/// `y`, `n` and Esc return to the normal view.
pub open spec fn confirm_key_effect(s: AppStateView, key: KeyEvent, new_s: AppStateView, cmd: Option<CommandView>) -> bool {
    match key.code {
        KeyCode::Char('y') => match s.mode {
            ModeView::ConfirmDelete(id) => new_s == with_mode(loading(s), ModeView::Normal) && cmd
                == Some(CommandView::DeleteMessage { id }),
            _ => new_s == with_mode(s, ModeView::Normal) && cmd is None,
        },
        KeyCode::Char('n') | KeyCode::Esc => new_s == with_mode(s, ModeView::Normal) && cmd is None,
        _ => unchanged(s, new_s, cmd),
    }
}

/// The effect of a key in the help screen: Esc or the Help binding closes it.
pub open spec fn help_key_effect(s: AppStateView, c: Config, key: KeyEvent, new_s: AppStateView, cmd: Option<CommandView>) -> bool {
    if key.code == KeyCode::Esc || key_matches(c.keybindings, Action::Help, key) {
        new_s == with_mode(s, ModeView::Normal) && cmd is None
    } else {
        unchanged(s, new_s, cmd)
    }
}

/// The effect of a key, by mode.
pub open spec fn key_effect(s: AppStateView, c: Config, key: KeyEvent, now: u64, new_s: AppStateView, cmd: Option<CommandView>) -> bool {
    match s.mode {
        ModeView::Normal => normal_key_effect(s, c, key, now, new_s, cmd),
        ModeView::Search => search_key_effect(s, c, key, new_s, cmd),
        ModeView::Compose => compose_key_effect(s, c, key, new_s, cmd),
        ModeView::EmailView => email_view_key_effect(s, c, key, new_s, cmd),
        ModeView::Help => help_key_effect(s, c, key, new_s, cmd),
        ModeView::ConfirmDelete(_) => confirm_key_effect(s, key, new_s, cmd),
    }
}

} // verus!

verus! {

impl App {
    /// Acts on a key in normal mode.
    pub fn handle_normal_key(&mut self, key: KeyEvent, now_ms: u64) -> (cmd: Option<Command>)
        requires
            old(self).state@.wf(),
        ensures
            normal_key_effect(old(self).state@, old(self).config, key, now_ms, final(self).state@, command_opt_view(cmd)),
            final(self).state@.wf(),
            final(self).config == old(self).config,
            final(self).last_action_at == old(self).last_action_at,
    {
        let keys = self.config.keybindings;
        if keys.matches(Action::Down, key) {
            self.move_selection(1);
            return None;
        }
        if keys.matches(Action::Up, key) {
            self.move_selection(-1);
            return None;
        }
        if keys.matches(Action::Open, key) {
            return self.open_selected_email();
        }
        if keys.matches(Action::Search, key) {
            self.enter_search_mode();
            return None;
        }
        if keys.matches(Action::Compose, key) {
            self.enter_compose_mode(None);
            return None;
        }
        if keys.matches(Action::Help, key) {
            self.state.mode = AppMode::Help;
            return None;
        }
        if keys.matches(Action::Refresh, key) {
            return self.refresh_category(true, now_ms);
        }
        if keys.matches(Action::LoadMore, key) {
            return self.load_more();
        }
        if keys.matches(Action::NextTab, key) {
            return self.cycle_category(true, now_ms);
        }
        if keys.matches(Action::PrevTab, key) {
            return self.cycle_category(false, now_ms);
        }
        if key.code == KeyCode::Char('s') {
            self.toggle_sort();
            return None;
        }
        None
    }

    /// Acts on a key in search mode.
    pub fn handle_search_key(&mut self, key: KeyEvent) -> (cmd: Option<Command>)
        requires
            old(self).state@.wf(),
            search_key_safe(old(self).state@, old(self).config, key),
        ensures
            search_key_effect(old(self).state@, old(self).config, key, final(self).state@, command_opt_view(cmd)),
            final(self).state@.wf(),
            final(self).config == old(self).config,
            final(self).last_action_at == old(self).last_action_at,
    {
        let keys = self.config.keybindings;
        if key.code == KeyCode::Esc {
            self.exit_search_mode();
            return None;
        }
        if keys.matches(Action::Down, key) {
            self.move_search_selection(1);
            return None;
        }
        if keys.matches(Action::Up, key) {
            self.move_search_selection(-1);
            return None;
        }
        match key.code {
            KeyCode::Backspace => {
                if self.state.search.cursor_pos > 0 {
                    let at = self.state.search.cursor_pos - 1;
                    self.state.search.query = remove_at_byte_offset(&self.state.search.query, at);
                    self.state.search.cursor_pos = at;
                    self.update_search_results();
                }
                None
            },
            KeyCode::Enter => self.open_search_selected(),
            KeyCode::Char(c) => {
                if !key.modifiers.control && !key.modifiers.alt {
                    let at = self.state.search.cursor_pos;
                    self.state.search.query = insert_at_byte_offset(&self.state.search.query, at, c);
                    self.state.search.cursor_pos = at + 1;
                    self.update_search_results();
                }
                None
            },
            _ => None,
        }
    }

    /// Acts on a key in the message view.
    pub fn handle_email_view_key(&mut self, key: KeyEvent) -> (cmd: Option<Command>)
        requires
            old(self).state@.wf(),
        ensures
            email_view_key_effect(old(self).state@, old(self).config, key, final(self).state@, command_opt_view(cmd)),
            final(self).state@.wf(),
            final(self).config == old(self).config,
            final(self).last_action_at == old(self).last_action_at,
    {
        let keys = self.config.keybindings;
        if key.code == KeyCode::Esc {
            self.state.mode = AppMode::Normal;
            return None;
        }
        if keys.matches(Action::Help, key) {
            self.state.mode = AppMode::Help;
            return None;
        }
        if keys.matches(Action::Reply, key) {
            let reply = match &self.state.current_email {
                Some(email) => Some(email.clone()),
                None => None,
            };
            match reply {
                Some(email) => self.enter_compose_mode(Some(email)),
                None => {},
            }
            return None;
        }
        if keys.matches(Action::Delete, key) {
            let id = match &self.state.current_email {
                Some(email) => Some(email.id.clone()),
                None => None,
            };
            match id {
                Some(id) => {
                    self.state.mode = AppMode::Confirm(ConfirmAction::DeleteEmail(id));
                },
                None => {},
            }
            return None;
        }
        if keys.matches(Action::Down, key) {
            self.scroll_email(1);
            return None;
        }
        if keys.matches(Action::Up, key) {
            self.scroll_email(-1);
            return None;
        }
        None
    }
}

} // verus!

verus! {

impl App {
    /// Acts on a key in the composer.
    pub fn handle_compose_key(&mut self, key: KeyEvent) -> (cmd: Option<Command>)
        requires
            old(self).state@.wf(),
            compose_key_safe(old(self).state@, old(self).config, key),
        ensures
            compose_key_effect(old(self).state@, old(self).config, key, final(self).state@, command_opt_view(cmd)),
            final(self).state@.wf(),
            final(self).config == old(self).config,
            final(self).last_action_at == old(self).last_action_at,
    {
        if key.code == KeyCode::Esc {
            self.state.composer.reset();
            self.state.mode = AppMode::Normal;
            return None;
        }
        if self.config.keybindings.matches(Action::Help, key) {
            self.state.mode = AppMode::Help;
            return None;
        }
        if key.code == KeyCode::Tab {
            self.state.composer.cycle_field_forward();
            return None;
        }
        if key.code == KeyCode::BackTab {
            self.state.composer.cycle_field_backward();
            return None;
        }
        if key.modifiers.control && key.code == KeyCode::Char('s') {
            if key.kind == KeyEventKind::Press {
                return self.send_composed_email();
            }
            return None;
        }
        let is_body = self.state.composer.active_field == ComposerField::Body;
        match key.code {
            KeyCode::Backspace => {
                let (buf, cursor) = self.state.composer.active_buffer_mut();
                if *cursor > 0 {
                    *cursor = *cursor - 1;
                    *buf = remove_at_byte_offset(buf, *cursor);
                }
            },
            KeyCode::Left => {
                let (_, cursor) = self.state.composer.active_buffer_mut();
                if *cursor > 0 {
                    *cursor = *cursor - 1;
                }
            },
            KeyCode::Right => {
                let (buf, cursor) = self.state.composer.active_buffer_mut();
                if longer_than_bytes(buf.as_str(), *cursor) {
                    *cursor = *cursor + 1;
                }
            },
            KeyCode::Enter => {
                if is_body {
                    let (buf, cursor) = self.state.composer.active_buffer_mut();
                    *buf = insert_at_byte_offset(buf, *cursor, '\n');
                    *cursor = *cursor + 1;
                }
            },
            KeyCode::Char(c) => {
                if !key.modifiers.control && !key.modifiers.alt {
                    let (buf, cursor) = self.state.composer.active_buffer_mut();
                    *buf = insert_at_byte_offset(buf, *cursor, c);
                    *cursor = *cursor + 1;
                }
            },
            _ => {},
        }
        None
    }

    /// Acts on a key in the delete confirmation.
    pub fn handle_confirm_key(&mut self, key: KeyEvent) -> (cmd: Option<Command>)
        requires
            old(self).state@.wf(),
        ensures
            confirm_key_effect(old(self).state@, key, final(self).state@, command_opt_view(cmd)),
            final(self).state@.wf(),
            final(self).config == old(self).config,
            final(self).last_action_at == old(self).last_action_at,
    {
        match key.code {
            KeyCode::Char('y') => {
                let id = match &self.state.mode {
                    AppMode::Confirm(ConfirmAction::DeleteEmail(id)) => Some(id.clone()),
                    _ => None,
                };
                let cmd = match id {
                    Some(id) => Some(self.delete_email(id)),
                    None => None,
                };
                self.state.mode = AppMode::Normal;
                cmd
            },
            KeyCode::Char('n') | KeyCode::Esc => {
                self.state.mode = AppMode::Normal;
                None
            },
            _ => None,
        }
    }

    /// Acts on a key in the help screen.
    pub fn handle_help_key(&mut self, key: KeyEvent) -> (cmd: Option<Command>)
        requires
            old(self).state@.wf(),
        ensures
            help_key_effect(old(self).state@, old(self).config, key, final(self).state@, command_opt_view(cmd)),
            final(self).state@.wf(),
            final(self).config == old(self).config,
            final(self).last_action_at == old(self).last_action_at,
    {
        if key.code == KeyCode::Esc || self.config.keybindings.matches(Action::Help, key) {
            self.state.mode = AppMode::Normal;
        }
        None
    }

    /// Acts on a key according to the mode.
    pub fn handle_key(&mut self, key: KeyEvent, now_ms: u64) -> (cmd: Option<Command>)
        requires
            old(self).state@.wf(),
            key_safe(old(self).state@, old(self).config, key),
        ensures
            key_effect(old(self).state@, old(self).config, key, now_ms, final(self).state@, command_opt_view(cmd)),
            final(self).state@.wf(),
            final(self).config == old(self).config,
            final(self).last_action_at == old(self).last_action_at,
    {
        match &self.state.mode {
            AppMode::Normal => self.handle_normal_key(key, now_ms),
            AppMode::Search => self.handle_search_key(key),
            AppMode::Compose => self.handle_compose_key(key),
            AppMode::EmailView => self.handle_email_view_key(key),
            AppMode::Help => self.handle_help_key(key),
            AppMode::Confirm(_) => self.handle_confirm_key(key),
        }
    }
}

} // verus!

verus! {

/// Keys with Control or Alt are never throttled; other keys are, within 10 ms of the
/// last key that acted.
pub open spec fn throttled(last: u64, key: KeyEvent, now: u64) -> bool {
    !key.modifiers.control && !key.modifiers.alt && elapsed_ms(last, now) < 10
}

/// When the last key acted, after `key` at `now`: a key that is neither throttled nor
/// modified by Control or Alt moves it to `now`.
pub open spec fn last_action_after(last: u64, key: KeyEvent, now: u64) -> u64 {
    if key.modifiers.control || key.modifiers.alt || elapsed_ms(last, now) < 10 {
        last
    } else {
        now
    }
}

/// Whether `text` takes a character at byte offset `at` and the cursor can move on after it.
fn insert_safe(text: &String, at: usize) -> (r: bool)
    ensures
        r == (can_insert_at_byte(text@, at as int) && at < usize::MAX),
{
    at < usize::MAX && char_index_at_byte(text.as_str(), at).is_some()
}

/// Whether a character of `text` starts at byte offset `at`.
fn remove_safe(text: &String, at: usize) -> (r: bool)
    ensures
        r == can_remove_at_byte(text@, at as int),
{
    match char_index_at_byte(text.as_str(), at) {
        Some(k) => k < char_count(text.as_str()),
        None => false,
    }
}

impl App {
    fn compose_key_is_safe(&self, key: KeyEvent) -> (r: bool)
        ensures
            r == compose_key_safe(self.state@, self.config, key),
    {
        let editing = key.code != KeyCode::Esc && !self.config.keybindings.matches(Action::Help, key)
            && key.code != KeyCode::Tab && key.code != KeyCode::BackTab
            && !(key.modifiers.control && key.code == KeyCode::Char('s'));
        if !editing {
            return true;
        }
        let composer = &self.state.composer;
        let (text, at) = match composer.active_field {
            ComposerField::To => (&composer.to, composer.cursor_to),
            ComposerField::Subject => (&composer.subject, composer.cursor_subject),
            ComposerField::Body => (&composer.body, composer.cursor_body),
        };
        match key.code {
            KeyCode::Backspace => at == 0 || remove_safe(text, at - 1),
            KeyCode::Right => !longer_than_bytes(text.as_str(), usize::MAX),
            KeyCode::Enter => composer.active_field != ComposerField::Body || insert_safe(text, at),
            KeyCode::Char(_) => key.modifiers.control || key.modifiers.alt || insert_safe(text, at),
            _ => true,
        }
    }

    fn search_key_is_safe(&self, key: KeyEvent) -> (r: bool)
        ensures
            r == search_key_safe(self.state@, self.config, key),
    {
        let keys = self.config.keybindings;
        let editing = key.code != KeyCode::Esc && !keys.matches(Action::Down, key) && !keys.matches(Action::Up, key);
        if !editing {
            return true;
        }
        let at = self.state.search.cursor_pos;
        match key.code {
            KeyCode::Backspace => at == 0 || remove_safe(&self.state.search.query, at - 1),
            KeyCode::Char(_) => key.modifiers.control || key.modifiers.alt || insert_safe(&self.state.search.query, at),
            _ => true,
        }
    }

    /// Whether handling `key` at `now_ms` edits text without panic, as `handle_event`
    /// requires.
    pub fn key_is_safe(&self, key: KeyEvent, now_ms: u64) -> (r: bool)
        ensures
            r == key_event_safe(self.last_action_at, self.state@, self.config, key, now_ms),
    {
        let elapsed = if now_ms >= self.last_action_at { now_ms - self.last_action_at } else { 0 };
        let throttled = !key.modifiers.control && !key.modifiers.alt && elapsed < 10;
        if throttled || self.config.keybindings.matches(Action::Quit, key) {
            return true;
        }
        match self.state.mode {
            AppMode::Compose => self.compose_key_is_safe(key),
            AppMode::Search => self.search_key_is_safe(key),
            _ => true,
        }
    }
}

/// An input to the state machine.
#[derive(Debug)]
pub enum InputEvent {
    /// A key from the terminal.
    Key(KeyEvent),
    /// Another terminal event, such as a resize.
    Other,
    /// A report from the Gmail client.
    App(AppEvent),
}

impl App {
    /// Whether `key` comes too soon after the last key that acted; a key that acts moves
    /// the time of the last action.
    pub fn should_throttle_key(&mut self, key: KeyEvent, now_ms: u64) -> (r: bool)
        ensures
            r == throttled(old(self).last_action_at, key, now_ms),
            final(self).last_action_at == last_action_after(old(self).last_action_at, key, now_ms),
            final(self).state == old(self).state,
            final(self).config == old(self).config,
    {
        if key.modifiers.control || key.modifiers.alt {
            return false;
        }
        let elapsed = if now_ms >= self.last_action_at { now_ms - self.last_action_at } else { 0 };
        if elapsed < 10 {
            return true;
        }
        self.last_action_at = now_ms;
        false
    }

    /// Acts on an input at `now_ms`, giving whether to keep running and the commands to run.
    pub fn handle_event(&mut self, event: InputEvent, now_ms: u64) -> (r: (bool, Vec<Command>))
        requires
            old(self).state@.wf(),
            event matches InputEvent::Key(key) ==> key_event_safe(
                old(self).last_action_at,
                old(self).state@,
                old(self).config,
                key,
                now_ms,
            ),
        ensures
            final(self).state@.wf(),
            final(self).config == old(self).config,
            match event {
                InputEvent::Key(key) => {
                    &&& final(self).last_action_at == last_action_after(old(self).last_action_at, key, now_ms)
                    &&& if throttled(old(self).last_action_at, key, now_ms) {
                        r.0 && r.1@.len() == 0 && final(self).state == old(self).state
                    } else if key_matches(old(self).config.keybindings, Action::Quit, key) {
                        !r.0 && r.1@.len() == 0 && final(self).state == old(self).state
                    } else {
                        &&& r.0
                        &&& r.1@.len() <= 1
                        &&& key_effect(
                            old(self).state@,
                            old(self).config,
                            key,
                            now_ms,
                            final(self).state@,
                            if r.1@.len() == 1 {
                                Some(r.1@[0]@)
                            } else {
                                None
                            },
                        )
                    }
                },
                InputEvent::Other => r.0 && r.1@.len() == 0 && final(self).state == old(self).state
                    && final(self).last_action_at == old(self).last_action_at,
                InputEvent::App(ev) => r.0 && final(self).last_action_at == old(self).last_action_at
                    && app_event_effect(old(self).state@, ev, now_ms, final(self).state@, commands_view(r.1@)),
            },
    {
        match event {
            InputEvent::Key(key) => {
                if self.should_throttle_key(key, now_ms) {
                    return (true, Vec::new());
                }
                if self.config.keybindings.matches(Action::Quit, key) {
                    return (false, Vec::new());
                }
                let mut cmds: Vec<Command> = Vec::new();
                match self.handle_key(key, now_ms) {
                    Some(c) => cmds.push(c),
                    None => {},
                }
                (true, cmds)
            },
            InputEvent::Other => (true, Vec::new()),
            InputEvent::App(ev) => {
                let cmds = self.handle_app_event(ev, now_ms);
                (true, cmds)
            },
        }
    }
}

} // verus!
