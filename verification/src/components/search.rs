use vstd::prelude::*;
use crate::components::composer::low16;
use crate::state::SearchState;
use crate::ui::Rect;

verus! {

/// The search overlay: the query on top, the matching messages below it.
pub struct SearchComponent;

/// How the query reads in its box: after a slash.
pub open spec fn search_input_spec(query: Seq<char>) -> Seq<char> {
    "/"@ + query
}

/// Where the terminal cursor stands while searching: inside the query box, after the
/// slash and the query text before the cursor.
pub open spec fn search_cursor_spec(area: Rect, cursor: usize) -> (int, int) {
    (area.x + 2 + low16(cursor as nat), area.y + 1)
}

impl SearchComponent {
    /// How the query reads in its box.
    pub fn input_text(search: &SearchState) -> (r: String)
        ensures
            r@ == search_input_spec(search.query@),
    {
        String::from_str("/").concat(search.query.as_str())
    }

    /// Where the terminal cursor stands, given the query box.
    pub fn cursor_position(area: Rect, search: &SearchState) -> (r: (u16, u16))
        requires
            area.x + 2 + low16(search.cursor_pos as nat) <= u16::MAX,
            area.y + 1 <= u16::MAX,
        ensures
            (r.0 as int, r.1 as int) == search_cursor_spec(area, search.cursor_pos),
    {
        let col = (search.cursor_pos % 65536) as u16;
        (area.x + 2 + col, area.y + 1)
    }

    /// Where the terminal cursor stands, or nothing where that lies beyond the screen's
    /// coordinates.
    pub fn try_cursor_position(area: Rect, search: &SearchState) -> (r: Option<(u16, u16)>)
        ensures
            r is None <==> !(area.x + 2 + low16(search.cursor_pos as nat) <= u16::MAX && area.y + 1 <= u16::MAX),
            r matches Some(p) ==> (p.0 as int, p.1 as int) == search_cursor_spec(area, search.cursor_pos),
    {
        let x = area.x as u64 + 2 + (search.cursor_pos % 65536) as u64;
        let y = area.y as u64 + 1;
        if x <= 65535 && y <= 65535 {
            Some((x as u16, y as u16))
        } else {
            None
        }
    }
}

} // verus!
