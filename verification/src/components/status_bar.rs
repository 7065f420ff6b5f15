use vstd::prelude::*;
use crate::config::{KeyCode, Keybindings};
use crate::gmail::models::category_index;
use crate::state::{AppMode, AppState, AppStateView, ModeView, SortOrder, StatusLevel};

verus! {

/// The status bar at the foot of the screen: mode, sort order, key hints, progress and
/// the latest message.
pub struct StatusBarComponent;

/// How the status bar draws a piece of its text.
#[derive(Debug, Clone, Copy, PartialEq, Eq, Structural)]
pub enum SpanStyle {
    /// The mode badge.
    Mode,
    /// Spacing.
    Plain,
    /// The sort order and the key hints.
    Hint,
    /// The loading notice.
    Loading,
    /// The status message, coloured by its level.
    Message(StatusLevel),
}

/// A piece of the status bar: its text and how it is drawn.
pub struct StatusSpan {
    pub text: String,
    pub style: SpanStyle,
}

/// The pieces of a status bar, as plain values.
pub open spec fn spans_view(v: Seq<StatusSpan>) -> Seq<(Seq<char>, SpanStyle)> {
    v.map_values(|s: StatusSpan| (s.text@, s.style))
}

/// How the sort order reads on the status bar.
pub open spec fn sort_label_spec(sort: SortOrder) -> Seq<char> {
    match sort {
        SortOrder::DateDesc => "Date ↓"@,
        SortOrder::DateAsc => "Date ↑"@,
        SortOrder::SenderAsc => "Sender A→Z"@,
        SortOrder::SubjectAsc => "Subject A→Z"@,
    }
}

/// How the sort order reads on the status bar.
pub fn sort_label(sort: SortOrder) -> (r: &'static str)
    ensures
        r@ == sort_label_spec(sort),
{
    match sort {
        SortOrder::DateDesc => "Date ↓",
        SortOrder::DateAsc => "Date ↑",
        SortOrder::SenderAsc => "Sender A→Z",
        SortOrder::SubjectAsc => "Subject A→Z",
    }
}

/// How a key reads in hints: a character as itself, named keys by short names, and
/// "Key" for the others.
pub open spec fn keycode_label_spec(code: KeyCode) -> Seq<char> {
    match code {
        KeyCode::Char(c) => seq![c],
        KeyCode::Enter => "Enter"@,
        KeyCode::Tab => "Tab"@,
        KeyCode::BackTab => "Shift+Tab"@,
        KeyCode::Esc => "Esc"@,
        KeyCode::Up => "Up"@,
        KeyCode::Down => "Down"@,
        KeyCode::Left => "Left"@,
        KeyCode::Right => "Right"@,
        KeyCode::PageUp => "PgUp"@,
        KeyCode::PageDown => "PgDn"@,
        KeyCode::Home => "Home"@,
        KeyCode::End => "End"@,
        _ => "Key"@,
    }
}

/// How a key reads in hints.
pub fn keycode_label(code: KeyCode) -> (r: String)
    ensures
        r@ == keycode_label_spec(code),
{
    match code {
        KeyCode::Char(c) => {
            let mut s = String::new();
            crate::text::push_char(&mut s, c);
            assert(s@ =~= seq![c]);
            s
        },
        KeyCode::Enter => String::from_str("Enter"),
        KeyCode::Tab => String::from_str("Tab"),
        KeyCode::BackTab => String::from_str("Shift+Tab"),
        KeyCode::Esc => String::from_str("Esc"),
        KeyCode::Up => String::from_str("Up"),
        KeyCode::Down => String::from_str("Down"),
        KeyCode::Left => String::from_str("Left"),
        KeyCode::Right => String::from_str("Right"),
        KeyCode::PageUp => String::from_str("PgUp"),
        KeyCode::PageDown => String::from_str("PgDn"),
        KeyCode::Home => String::from_str("Home"),
        KeyCode::End => String::from_str("End"),
        _ => String::from_str("Key"),
    }
}

/// How the mode reads on its badge.
pub open spec fn mode_label_spec(mode: ModeView) -> Seq<char> {
    match mode {
        ModeView::Normal => "NORMAL"@,
        ModeView::Search => "SEARCH"@,
        ModeView::Compose => "COMPOSE"@,
        ModeView::EmailView => "VIEW"@,
        ModeView::Help => "HELP"@,
        ModeView::ConfirmDelete(_) => "CONFIRM"@,
    }
}

/// How the mode reads on its badge.
pub fn mode_label(mode: &AppMode) -> (r: &'static str)
    ensures
        r@ == mode_label_spec(mode@),
{
    match mode {
        AppMode::Normal => "NORMAL",
        AppMode::Search => "SEARCH",
        AppMode::Compose => "COMPOSE",
        AppMode::EmailView => "VIEW",
        AppMode::Help => "HELP",
        AppMode::Confirm(_) => "CONFIRM",
    }
}

/// A key hint: the key in brackets, then what it does.
pub open spec fn hint(key: KeyCode, name: Seq<char>) -> Seq<char> {
    "["@ + keycode_label_spec(key) + "] "@ + name
}

/// A hint after another: a space, then the hint.
pub open spec fn spaced(text: Seq<char>) -> Seq<(Seq<char>, SpanStyle)> {
    seq![(" "@, SpanStyle::Plain), (text, SpanStyle::Hint)]
}

/// The sort order the status bar shows: the active listing's, or newest first where
/// there is no such listing.
pub open spec fn shown_sort(s: AppStateView) -> SortOrder {
    let i = category_index(s.active_category);
    if i < s.mailboxes.len() {
        s.mailboxes[i as int].active_sort
    } else {
        SortOrder::DateDesc
    }
}

/// The mode badge, the sort order and the first hint.
pub open spec fn status_head(s: AppStateView, k: Keybindings) -> Seq<(Seq<char>, SpanStyle)> {
    seq![
        (" "@ + mode_label_spec(s.mode) + " "@, SpanStyle::Mode),
        ("  "@, SpanStyle::Plain),
        ("Sort: "@ + sort_label_spec(shown_sort(s)), SpanStyle::Hint),
        ("  "@, SpanStyle::Plain),
        (hint(k.up, "Up"@), SpanStyle::Hint),
    ]
}

/// The hints after the first, in the order the bar lists them.
pub open spec fn status_hints(k: Keybindings) -> Seq<(Seq<char>, SpanStyle)> {
    spaced(hint(k.down, "Down"@)) + spaced(hint(k.open, "Open"@)) + spaced(hint(k.compose, "Compose"@))
        + spaced(hint(k.reply, "Reply"@)) + spaced(hint(k.delete, "Delete"@)) + spaced(hint(k.search, "Search"@))
        + spaced(hint(k.refresh, "Refresh"@)) + spaced(hint(k.quit, "Quit"@)) + spaced(hint(k.next_tab, "Next Tab"@))
        + spaced(hint(k.prev_tab, "Prev Tab"@)) + spaced(hint(k.load_more, "Load More"@)) + spaced(hint(k.help, "Help"@))
}

/// What follows the hints: the send hint while composing, the loading notice while
/// loading, and the status message where there is one.
pub open spec fn status_tail(s: AppStateView) -> Seq<(Seq<char>, SpanStyle)> {
    (if s.mode is Compose { spaced("[Ctrl+S] Send"@) } else { Seq::empty() })
        + (if s.is_loading { seq![("  "@, SpanStyle::Plain), ("Loading..."@, SpanStyle::Loading)] } else { Seq::empty() })
        + match s.status {
            Some((m, level)) => seq![("  "@, SpanStyle::Plain), (m, SpanStyle::Message(level))],
            None => Seq::empty(),
        }
}

/// Everything the status bar shows, piece by piece.
pub open spec fn status_bar_spec(s: AppStateView, k: Keybindings) -> Seq<(Seq<char>, SpanStyle)> {
    status_head(s, k) + status_hints(k) + status_tail(s)
}

/// Appends a piece to the bar.
fn push_span(out: &mut Vec<StatusSpan>, text: String, style: SpanStyle)
    ensures
        spans_view(final(out)@) == spans_view(old(out)@).push((text@, style)),
{
    out.push(StatusSpan { text, style });
    assert(spans_view(out@) =~= spans_view(old(out)@).push((text@, style)));
}

/// The hint for a key and what it does.
fn hint_text(key: KeyCode, name: &str) -> (r: String)
    ensures
        r@ == hint(key, name@),
{
    String::from_str("[").concat(keycode_label(key).as_str()).concat("] ").concat(name)
}

/// Appends a spaced hint to the bar.
fn push_hint(out: &mut Vec<StatusSpan>, key: KeyCode, name: &str)
    ensures
        spans_view(final(out)@) == spans_view(old(out)@) + spaced(hint(key, name@)),
{
    push_span(out, String::from_str(" "), SpanStyle::Plain);
    push_span(out, hint_text(key, name), SpanStyle::Hint);
    assert(spans_view(out@) =~= spans_view(old(out)@) + spaced(hint(key, name@)));
}

/// The mode badge, the sort order and the first hint.
fn head_spans(state: &AppState, keys: &Keybindings) -> (r: Vec<StatusSpan>)
    ensures
        spans_view(r@) == status_head(state@, *keys),
{
    let mut out: Vec<StatusSpan> = Vec::new();
    push_span(&mut out, String::from_str(" ").concat(mode_label(&state.mode)).concat(" "), SpanStyle::Mode);
    push_span(&mut out, String::from_str("  "), SpanStyle::Plain);
    let idx = state.active_category.index();
    let sort = if idx < state.mailbox_states.len() {
        state.mailbox_states[idx].active_sort
    } else {
        SortOrder::DateDesc
    };
    push_span(&mut out, String::from_str("Sort: ").concat(sort_label(sort)), SpanStyle::Hint);
    push_span(&mut out, String::from_str("  "), SpanStyle::Plain);
    push_span(&mut out, hint_text(keys.up, "Up"), SpanStyle::Hint);
    assert(spans_view(out@) =~= status_head(state@, *keys));
    out
}

/// Appends the hints after the first.
fn push_hints(out: &mut Vec<StatusSpan>, keys: &Keybindings)
    ensures
        spans_view(final(out)@) == spans_view(old(out)@) + status_hints(*keys),
{
    push_hint(out, keys.down, "Down");
    push_hint(out, keys.open, "Open");
    push_hint(out, keys.compose, "Compose");
    push_hint(out, keys.reply, "Reply");
    push_hint(out, keys.delete, "Delete");
    push_hint(out, keys.search, "Search");
    push_hint(out, keys.refresh, "Refresh");
    push_hint(out, keys.quit, "Quit");
    push_hint(out, keys.next_tab, "Next Tab");
    push_hint(out, keys.prev_tab, "Prev Tab");
    push_hint(out, keys.load_more, "Load More");
    push_hint(out, keys.help, "Help");
    assert(spans_view(out@) =~= spans_view(old(out)@) + status_hints(*keys));
}

/// Appends the send hint, the loading notice and the status message, as they apply.
fn push_tail(out: &mut Vec<StatusSpan>, state: &AppState)
    ensures
        spans_view(final(out)@) == spans_view(old(out)@) + status_tail(state@),
{
    let ghost start = spans_view(out@);
    let compose = match state.mode {
        AppMode::Compose => true,
        _ => false,
    };
    if compose {
        push_span(out, String::from_str(" "), SpanStyle::Plain);
        push_span(out, String::from_str("[Ctrl+S] Send"), SpanStyle::Hint);
    }
    let ghost after_compose = spans_view(out@);
    let ghost compose_part = if state@.mode is Compose { spaced("[Ctrl+S] Send"@) } else { Seq::empty() };
    assert(after_compose =~= start + compose_part);
    if state.is_loading {
        push_span(out, String::from_str("  "), SpanStyle::Plain);
        push_span(out, String::from_str("Loading..."), SpanStyle::Loading);
    }
    let ghost after_loading = spans_view(out@);
    let ghost loading_part = if state@.is_loading {
        seq![("  "@, SpanStyle::Plain), ("Loading..."@, SpanStyle::Loading)]
    } else {
        Seq::empty()
    };
    assert(after_loading =~= after_compose + loading_part);
    match &state.status_message {
        Some((msg, level)) => {
            push_span(out, String::from_str("  "), SpanStyle::Plain);
            push_span(out, msg.clone(), SpanStyle::Message(*level));
        },
        None => {},
    }
    assert(spans_view(out@) =~= start + status_tail(state@));
}

impl StatusBarComponent {
    /// The pieces of the status bar for a state and the key bindings, in order.
    pub fn spans(state: &AppState, keys: &Keybindings) -> (r: Vec<StatusSpan>)
        ensures
            spans_view(r@) == status_bar_spec(state@, *keys),
    {
        let mut out = head_spans(state, keys);
        push_hints(&mut out, keys);
        push_tail(&mut out, state);
        out
    }
}

} // verus!
