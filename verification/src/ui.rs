use vstd::prelude::*;
use crate::components::status_bar::{keycode_label, keycode_label_spec};
use crate::config::{KeyCode, Keybindings};
use crate::gmail::models::{category_at, display_name_spec, MailboxCategory};
use crate::state::{AppMode, ModeView};
use crate::text::join_seq;

verus! {

/// A rectangle of terminal cells: its top-left corner and its size.
#[derive(Debug, Clone, Copy, PartialEq, Eq, Structural)]
pub struct Rect {
    pub x: u16,
    pub y: u16,
    pub width: u16,
    pub height: u16,
}

/// `a - b`, or 0 where `b` is the larger.
pub open spec fn saturating_diff(a: int, b: int) -> int {
    if a > b { a - b } else { 0 }
}

/// The smaller of two integers.
pub open spec fn min_int(a: int, b: int) -> int {
    if a <= b { a } else { b }
}

/// The search overlay for a given height: two cells in from the left, four cells
/// narrower than the area, its bottom edge one row above the area's where there is room.
pub open spec fn search_overlay_spec(area: Rect, height: u16) -> Rect {
    Rect {
        x: (area.x + 2) as u16,
        y: (area.y + saturating_diff(area.height as int, height + 1)) as u16,
        width: saturating_diff(area.width as int, 4) as u16,
        height,
    }
}

/// The search overlay's place on the screen, for the height it is given.
pub fn search_overlay_rect(area: Rect, height: u16) -> (r: Rect)
    requires
        area.x + 2 <= u16::MAX,
        height < u16::MAX,
        area.y + saturating_diff(area.height as int, height + 1) <= u16::MAX,
    ensures
        r == search_overlay_spec(area, height),
{
    Rect {
        x: area.x + 2,
        y: area.y + area.height.saturating_sub(height + 1),
        width: area.width.saturating_sub(4),
        height,
    }
}

/// The inside of a bordered box: one cell in on every side.
pub open spec fn inner_spec(outer: Rect) -> Rect {
    Rect {
        x: (outer.x + 1) as u16,
        y: (outer.y + 1) as u16,
        width: saturating_diff(outer.width as int, 2) as u16,
        height: saturating_diff(outer.height as int, 2) as u16,
    }
}

/// The inside of a bordered box.
pub fn inner_rect(outer: Rect) -> (r: Rect)
    requires
        outer.x + 1 <= u16::MAX,
        outer.y + 1 <= u16::MAX,
    ensures
        r == inner_spec(outer),
{
    Rect {
        x: outer.x + 1,
        y: outer.y + 1,
        width: outer.width.saturating_sub(2),
        height: outer.height.saturating_sub(2),
    }
}

/// A box centred in the area, at most `max_width` by `max_height`, and leaving at least
/// two columns on each side and a row above and below where the area allows.
pub open spec fn centered_spec(area: Rect, max_width: u16, max_height: u16) -> Rect {
    let w = min_int(max_width as int, saturating_diff(area.width as int, 4));
    let h = min_int(max_height as int, saturating_diff(area.height as int, 2));
    Rect {
        x: (area.x + (area.width - w) / 2) as u16,
        y: (area.y + (area.height - h) / 2) as u16,
        width: w as u16,
        height: h as u16,
    }
}

/// A box centred in the area; it lies inside the area.
pub fn centered_rect(area: Rect, max_width: u16, max_height: u16) -> (r: Rect)
    requires
        area.x + (area.width - min_int(max_width as int, saturating_diff(area.width as int, 4))) / 2 <= u16::MAX,
        area.y + (area.height - min_int(max_height as int, saturating_diff(area.height as int, 2))) / 2 <= u16::MAX,
    ensures
        r == centered_spec(area, max_width, max_height),
        area.x <= r.x,
        r.x + r.width <= area.x + area.width,
        area.y <= r.y,
        r.y + r.height <= area.y + area.height,
{
    let room_w = area.width.saturating_sub(4);
    let width = if max_width <= room_w { max_width } else { room_w };
    let room_h = area.height.saturating_sub(2);
    let height = if max_height <= room_h { max_height } else { room_h };
    Rect {
        x: area.x + (area.width - width) / 2,
        y: area.y + (area.height - height) / 2,
        width,
        height,
    }
}

/// Where the delete confirmation shows: centred, at most 50 by 5 cells.
pub fn confirm_overlay_rect(area: Rect) -> (r: Rect)
    requires
        area.x + (area.width - min_int(50, saturating_diff(area.width as int, 4))) / 2 <= u16::MAX,
        area.y + (area.height - min_int(5, saturating_diff(area.height as int, 2))) / 2 <= u16::MAX,
    ensures
        r == centered_spec(area, 50, 5),
{
    centered_rect(area, 50, 5)
}

/// Where the help shows: centred, at most 60 by 12 cells.
pub fn help_overlay_rect(area: Rect) -> (r: Rect)
    requires
        area.x + (area.width - min_int(60, saturating_diff(area.width as int, 4))) / 2 <= u16::MAX,
        area.y + (area.height - min_int(12, saturating_diff(area.height as int, 2))) / 2 <= u16::MAX,
    ensures
        r == centered_spec(area, 60, 12),
{
    centered_rect(area, 60, 12)
}

/// The question the delete confirmation asks.
pub const CONFIRM_PROMPT: &'static str = "Delete this email? (y/n)";

/// A help line: what a key does, then the key.
pub open spec fn help_line(name: Seq<char>, key: KeyCode) -> Seq<char> {
    name + ": "@ + keycode_label_spec(key)
}

/// The lines of the help, one per action.
pub open spec fn help_lines_spec(k: Keybindings) -> Seq<Seq<char>> {
    seq![
        help_line("Up"@, k.up),
        help_line("Down"@, k.down),
        help_line("Open"@, k.open),
        help_line("Compose"@, k.compose),
        "Send: Ctrl+S"@,
        help_line("Reply"@, k.reply),
        help_line("Delete"@, k.delete),
        help_line("Search"@, k.search),
        help_line("Refresh"@, k.refresh),
        help_line("Quit"@, k.quit),
        help_line("Next Tab"@, k.next_tab),
        help_line("Prev Tab"@, k.prev_tab),
        help_line("Load More"@, k.load_more),
        help_line("Help"@, k.help),
        "Esc: close"@,
    ]
}

fn help_line_text(name: &str, key: KeyCode) -> (r: String)
    ensures
        r@ == help_line(name@, key),
{
    String::from_str(name).concat(": ").concat(keycode_label(key).as_str())
}

/// The lines of the help, one per action, with the keys bound to them.
pub fn help_lines(keys: &Keybindings) -> (r: Vec<String>)
    ensures
        r@.map_values(|s: String| s@) == help_lines_spec(*keys),
{
    let mut v: Vec<String> = Vec::new();
    v.push(help_line_text("Up", keys.up));
    v.push(help_line_text("Down", keys.down));
    v.push(help_line_text("Open", keys.open));
    v.push(help_line_text("Compose", keys.compose));
    v.push(String::from_str("Send: Ctrl+S"));
    v.push(help_line_text("Reply", keys.reply));
    v.push(help_line_text("Delete", keys.delete));
    v.push(help_line_text("Search", keys.search));
    v.push(help_line_text("Refresh", keys.refresh));
    v.push(help_line_text("Quit", keys.quit));
    v.push(help_line_text("Next Tab", keys.next_tab));
    v.push(help_line_text("Prev Tab", keys.prev_tab));
    v.push(help_line_text("Load More", keys.load_more));
    v.push(help_line_text("Help", keys.help));
    v.push(String::from_str("Esc: close"));
    assert(v@.map_values(|s: String| s@) =~= help_lines_spec(*keys));
    v
}

/// The help as one text, its lines joined by line breaks.
pub fn help_text(keys: &Keybindings) -> (r: String)
    ensures
        r@ == join_seq(help_lines_spec(*keys), "\n"@),
{
    let lines = help_lines(keys);
    crate::text::join_strings(&lines, "\n")
}

/// A tab of the header.
pub struct Tab {
    pub label: String,
    pub active: bool,
}

/// How a category's tab reads.
pub open spec fn tab_label(c: MailboxCategory) -> Seq<char> {
    " "@ + display_name_spec(c) + " "@
}

/// The header's tabs: one per category in tab order, the active one marked.
pub fn header_tabs(active: MailboxCategory) -> (r: Vec<Tab>)
    ensures
        r.len() == 5,
        forall|i: int| 0 <= i < 5 ==> #[trigger] r@[i].label@ == tab_label(category_at(i as nat))
            && r@[i].active == (category_at(i as nat) == active),
{
    let mut v: Vec<Tab> = Vec::new();
    let mut i: usize = 0;
    while i < 5
        invariant
            i <= 5,
            v.len() == i,
            forall|j: int| 0 <= j < i ==> #[trigger] v@[j].label@ == tab_label(category_at(j as nat))
                && v@[j].active == (category_at(j as nat) == active),
        decreases 5 - i,
    {
        let c = MailboxCategory::at(i);
        let label = String::from_str(" ").concat(c.display_name()).concat(" ");
        v.push(Tab { label, active: c == active });
        i = i + 1;
    }
    v
}

/// What the main pane shows.
#[derive(Debug, Clone, Copy, PartialEq, Eq, Structural)]
pub enum Pane {
    /// The active category's listing.
    Inbox,
    /// The open message.
    Message,
    /// The composer.
    Composer,
}

/// What the main pane shows in a mode: the message while viewing one, the composer
/// while composing, else the listing.
pub open spec fn pane_for(m: ModeView) -> Pane {
    match m {
        ModeView::EmailView => Pane::Message,
        ModeView::Compose => Pane::Composer,
        _ => Pane::Inbox,
    }
}

/// What the main pane shows in a mode.
pub fn body_pane(mode: &AppMode) -> (r: Pane)
    ensures
        r == pane_for(mode@),
{
    match mode {
        AppMode::EmailView => Pane::Message,
        AppMode::Compose => Pane::Composer,
        _ => Pane::Inbox,
    }
}

/// A box drawn over the screen.
#[derive(Debug, Clone, Copy, PartialEq, Eq, Structural)]
pub enum Overlay {
    Search,
    Confirm,
    Help,
}

/// The box drawn over the screen in a mode, if any.
pub open spec fn overlay_for(m: ModeView) -> Option<Overlay> {
    match m {
        ModeView::Search => Some(Overlay::Search),
        ModeView::ConfirmDelete(_) => Some(Overlay::Confirm),
        ModeView::Help => Some(Overlay::Help),
        _ => None,
    }
}

/// The box drawn over the screen in a mode, if any.
pub fn overlay(mode: &AppMode) -> (r: Option<Overlay>)
    ensures
        r == overlay_for(mode@),
{
    match mode {
        AppMode::Search => Some(Overlay::Search),
        AppMode::Confirm(_) => Some(Overlay::Confirm),
        AppMode::Help => Some(Overlay::Help),
        _ => None,
    }
}

} // verus!
