use vstd::prelude::*;
use crate::state::{ComposerField, ComposerState, ComposerView};
use vstd::utf8::encode_scalar;
use crate::text::{
    char_at_byte, char_index_at_byte, chars_of, lemma_char_at_byte_prefix, lemma_prefix_len_step,
    lemma_prefix_len_strict, longer_than_bytes, utf8_len, utf8_width,
};
use crate::ui::Rect;

verus! {

/// The composer: three bordered fields, To, Subject and Body, the active one marked.
pub struct ComposerComponent;

/// A field's title: its name, with "> " before it while it is active.
pub open spec fn field_title_spec(field: ComposerField, active: ComposerField) -> Seq<char> {
    let marked = field == active;
    match field {
        ComposerField::To => if marked { "> To"@ } else { "To"@ },
        ComposerField::Subject => if marked { "> Subject"@ } else { "Subject"@ },
        ComposerField::Body => if marked { "> Body"@ } else { "Body"@ },
    }
}

/// The number of line breaks in a text.
pub open spec fn newline_count(s: Seq<char>) -> nat
    decreases s.len(),
{
    if s.len() == 0 {
        0
    } else {
        newline_count(s.drop_last()) + if s.last() == '\n' { 1nat } else { 0nat }
    }
}

/// The length in UTF-8 bytes of a text's last line: the characters after its last line break.
pub open spec fn last_line_bytes(s: Seq<char>) -> nat
    decreases s.len(),
{
    if s.len() == 0 {
        0
    } else if s.last() == '\n' {
        0
    } else {
        last_line_bytes(s.drop_last()) + encode_scalar(s.last() as u32).len()
    }
}

/// A count as a terminal coordinate takes it: its low 16 bits.
pub open spec fn low16(n: nat) -> int {
    (n % 65536) as int
}

/// The byte offset the body is read up to: the cursor, or the body's end where the
/// cursor lies past it.
pub open spec fn body_cut(c: ComposerView) -> int {
    if c.cursor_body <= utf8_len(c.body) { c.cursor_body as int } else { utf8_len(c.body) as int }
}

/// The body text before the cursor: its characters up to the cut, where the cut falls
/// between characters (slicing the body elsewhere panics).
pub open spec fn body_before_cursor(c: ComposerView) -> Seq<char> {
    match char_at_byte(c.body, body_cut(c)) {
        Some(k) => c.body.take(k),
        None => c.body,
    }
}

/// Where the terminal cursor stands while composing: one cell inside the active field's
/// box, after the text before the cursor, counted in bytes as the cursors are; in the
/// body, on the cursor's line and after the bytes of that line's text before it.
pub open spec fn cursor_spec(c: ComposerView, to_area: Rect, subject_area: Rect, body_area: Rect) -> (int, int) {
    match c.active_field {
        ComposerField::To => (to_area.x + low16(c.cursor_to as nat) + 1, to_area.y + 1),
        ComposerField::Subject => (subject_area.x + low16(c.cursor_subject as nat) + 1, subject_area.y + 1),
        ComposerField::Body => {
            let before = body_before_cursor(c);
            (body_area.x + 1 + low16(last_line_bytes(before)), body_area.y + 1 + low16(newline_count(before)))
        },
    }
}

/// The cursor position can be found and lies on the screen's coordinates: in the body,
/// the cut falls between characters.
pub open spec fn cursor_fits(c: ComposerView, to_area: Rect, subject_area: Rect, body_area: Rect) -> bool {
    let (x, y) = cursor_spec(c, to_area, subject_area, body_area);
    &&& x <= u16::MAX
    &&& y <= u16::MAX
    &&& c.active_field == ComposerField::Body ==> char_at_byte(c.body, body_cut(c)) is Some
}

impl ComposerComponent {
    /// A field's title.
    pub fn field_title(field: ComposerField, active: ComposerField) -> (r: &'static str)
        ensures
            r@ == field_title_spec(field, active),
    {
        let marked = field == active;
        match field {
            ComposerField::To => if marked { "> To" } else { "To" },
            ComposerField::Subject => if marked { "> Subject" } else { "Subject" },
            ComposerField::Body => if marked { "> Body" } else { "Body" },
        }
    }

    /// Where the terminal cursor stands, given the boxes of the three fields.
    pub fn cursor_position(composer: &ComposerState, to_area: Rect, subject_area: Rect, body_area: Rect) -> (r: (u16, u16))
        requires
            cursor_fits(composer@, to_area, subject_area, body_area),
        ensures
            (r.0 as int, r.1 as int) == cursor_spec(composer@, to_area, subject_area, body_area),
    {
        match Self::try_cursor_position(composer, to_area, subject_area, body_area) {
            Some(p) => p,
            None => (0, 0),
        }
    }

    /// Where the terminal cursor stands, or nothing where that lies beyond the screen's
    /// coordinates.
    pub fn try_cursor_position(composer: &ComposerState, to_area: Rect, subject_area: Rect, body_area: Rect) -> (r: Option<(u16, u16)>)
        ensures
            r is None <==> !cursor_fits(composer@, to_area, subject_area, body_area),
            r matches Some(p) ==> (p.0 as int, p.1 as int) == cursor_spec(composer@, to_area, subject_area, body_area),
    {
        let (x, y): (u64, u64) = match composer.active_field {
            ComposerField::To => (to_area.x as u64 + (composer.cursor_to % 65536) as u64 + 1, to_area.y as u64 + 1),
            ComposerField::Subject => (
                subject_area.x as u64 + (composer.cursor_subject % 65536) as u64 + 1,
                subject_area.y as u64 + 1,
            ),
            ComposerField::Body => match body_cursor(composer) {
                Some((col, lines)) => (
                    body_area.x as u64 + 1 + (col % 65536) as u64,
                    body_area.y as u64 + 1 + (lines % 65536) as u64,
                ),
                None => {
                    return None;
                },
            },
        };
        if x <= 65535 && y <= 65535 {
            Some((x as u16, y as u16))
        } else {
            None
        }
    }
}

/// The column and the line of the body's cursor: the bytes of its line before it, and
/// the line breaks before it; nothing where the cursor falls inside a character.
fn body_cursor(composer: &ComposerState) -> (r: Option<(usize, usize)>)
    ensures
        r is None <==> char_at_byte(composer.body@, body_cut(composer@)) is None,
        r matches Some(p) ==> p.0 == last_line_bytes(body_before_cursor(composer@)) && p.1 == newline_count(
            body_before_cursor(composer@),
        ),
{
    let cs = chars_of(composer.body.as_str());
    let ghost body = composer.body@;
    let end = if longer_than_bytes(composer.body.as_str(), composer.cursor_body) {
        match char_index_at_byte(composer.body.as_str(), composer.cursor_body) {
            Some(k) => k,
            None => {
                return None;
            },
        }
    } else {
        proof {
            assert(body.take(body.len() as int) =~= body);
            lemma_char_at_byte_prefix(body, body.len() as int);
        }
        cs.len()
    };
    assert(char_at_byte(body, body_cut(composer@)) == Some(end as int));
    let mut lines: usize = 0;
    let mut col: usize = 0;
    let mut i: usize = 0;
    while i < end
        invariant
            i <= end <= cs.len(),
            cs@ == body,
            utf8_len(body.take(end as int)) <= composer.cursor_body,
            lines == newline_count(cs@.take(i as int)),
            col == last_line_bytes(cs@.take(i as int)),
            lines <= i,
            col <= utf8_len(cs@.take(i as int)),
        decreases end - i,
    {
        assert(cs@.take(i + 1).drop_last() =~= cs@.take(i as int));
        proof {
            lemma_prefix_len_step(cs@, i as int);
            if i + 1 < end {
                lemma_prefix_len_strict(cs@, i + 1, end as int);
            }
        }
        if cs[i] == '\n' {
            lines = lines + 1;
            col = 0;
        } else {
            col = col + utf8_width(cs[i]);
        }
        i = i + 1;
    }
    assert(cs@.take(end as int) =~= body_before_cursor(composer@));
    Some((col, lines))
}

} // verus!
