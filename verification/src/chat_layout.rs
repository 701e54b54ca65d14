//! Where a chat pane puts its title, its transcript and its input box: the box sits at the
//! bottom of a chat with messages and in the middle of an empty one, and the cursor is
//! placed inside the box's text area.
use vstd::prelude::*;
use crate::geometry::{Rect, Position, rect_new, sat_add16, sat_sub16};
use crate::layout::{LayoutConstraint, LayoutDirection, split_layout, split_outcome, split_space, part_of};
use crate::input_box::{
    input_layout, input_layout_spec, bottom_input_height, bottom_input_height_spec, centered_input_height,
    centered_input_height_spec, input_box_area, input_box_area_spec, chat_messages_area, chat_messages_area_spec,
};

verus! {

/// Where the chat pane's parts are drawn.
#[derive(Debug, Clone, Copy, PartialEq, Eq, Structural)]
pub struct ChatAreas {
    /// The title row, when the chat has a title.
    pub title: Option<Rect>,
    /// The transcript, when the chat has messages.
    pub messages: Option<Rect>,
    /// The input box with its border.
    pub input_box: Rect,
    /// The text area inside the input box.
    pub input_text: Rect,
    /// The first row of the input text shown, kept so that the cursor is visible.
    pub input_scroll: usize,
    /// Whether the input box shows a scrollbar.
    pub input_scrollbar: bool,
    /// Where the cursor is shown, when the text area has room.
    pub cursor: Option<Position>,
}

/// The chat pane's rows: a title of two rows if there is one, then for an empty chat the
/// input box between two flexible rows, otherwise the transcript and the input box.
pub open spec fn chat_constraints(empty: bool, has_title: bool, input_height: u16) -> Seq<LayoutConstraint> {
    (if has_title { seq![LayoutConstraint::Length(2)] } else { Seq::empty() })
        + if empty {
            seq![LayoutConstraint::Min(0), LayoutConstraint::Length(input_height), LayoutConstraint::Min(0)]
        } else {
            seq![LayoutConstraint::Min(0), LayoutConstraint::Length(input_height)]
        }
}

/// The input box laid out in `region`: the box inside its margin, the text layout, the text
/// area inside the border (one column narrower with a scrollbar), and the cursor inside it.
pub open spec fn input_areas_spec(region: Rect, content: Seq<char>, cursor: nat, scroll: nat) -> (Rect, Rect, usize, bool, Option<Position>) {
    let b = input_box_area_spec(region);
    let lay = input_layout_spec(content, cursor, scroll, sat_sub16(b.width, 2) as nat, sat_sub16(b.height, 2) as nat, true);
    let inner = rect_new(sat_add16(b.x, 1), sat_add16(b.y, 1),
        sat_sub16(sat_sub16(b.width, 2), if lay.show_scrollbar { 1 } else { 0 }), sat_sub16(b.height, 2));
    (b, inner, lay.scroll as usize, lay.show_scrollbar,
        if inner.width > 0 && inner.height > 0 {
            Some(Position { x: sat_add16(inner.x, lay.cursor_x), y: sat_add16(inner.y, lay.cursor_y) })
        } else {
            None
        })
}

fn input_areas(region: Rect, content: &str, cursor: usize, scroll: usize) -> (r: (Rect, Rect, usize, bool, Option<Position>))
    ensures
        r == input_areas_spec(region, content@, cursor as nat, scroll as nat),
{
    let b = input_box_area(region);
    let lay = input_layout(content, cursor, scroll, b.width.saturating_sub(2) as usize, b.height.saturating_sub(2) as usize, true);
    let ghost lv = input_layout_spec(content@, cursor as nat, scroll as nat, sat_sub16(b.width, 2) as nat, sat_sub16(b.height, 2) as nat, true);
    assert(lay.show_scrollbar == lv.show_scrollbar);
    assert(lay.scroll as nat == lv.scroll);
    assert(lay.cursor_x == lv.cursor_x && lay.cursor_y == lv.cursor_y);
    let bar: u16 = if lay.show_scrollbar { 1 } else { 0 };
    let inner = Rect::new(b.x.saturating_add(1), b.y.saturating_add(1), b.width.saturating_sub(2).saturating_sub(bar), b.height.saturating_sub(2));
    let cursor_at = if inner.width > 0 && inner.height > 0 {
        Some(Position { x: inner.x.saturating_add(lay.cursor_x), y: inner.y.saturating_add(lay.cursor_y) })
    } else {
        None
    };
    (b, inner, lay.scroll, lay.show_scrollbar, cursor_at)
}

/// The height the input box asks for in `area`: centred in an empty chat, at the bottom
/// otherwise.
pub open spec fn chat_input_height(area: Rect, empty: bool, content: Seq<char>, cursor: nat, scroll: nat) -> u16 {
    if empty {
        centered_input_height_spec(content, cursor, scroll, area.width, area.height)
    } else {
        bottom_input_height_spec(content, cursor, scroll, area.width, area.height)
    }
}

/// The chat pane's areas from the rows the layout solver gave: the title row if there is
/// one, the transcript row `body` (the transcript one column in and one row shorter, in a
/// chat with messages), and the region the input box is drawn in.
pub open spec fn chat_areas_spec(title: Option<Rect>, body: Rect, region: Rect, empty: bool, content: Seq<char>, cursor: nat, scroll: nat) -> ChatAreas {
    let ia = input_areas_spec(region, content, cursor, scroll);
    ChatAreas {
        title,
        messages: if empty { None } else { Some(chat_messages_area_spec(body)) },
        input_box: ia.0,
        input_text: ia.1,
        input_scroll: ia.2,
        input_scrollbar: ia.3,
        cursor: ia.4,
    }
}

/// The columns an empty chat's input row is cut into: 12%, 76% and 12%.
pub open spec fn centre_columns() -> Seq<LayoutConstraint> {
    seq![LayoutConstraint::Percentage(12), LayoutConstraint::Percentage(76), LayoutConstraint::Percentage(12)]
}

/// Whether `r` can be the chat pane's areas in `area`, for an empty chat or not, with a
/// title or not: the areas from some rows the layout solver may give for `chat_constraints`,
/// the input region being the input row (or, in an empty chat, the middle of its columns).
pub open spec fn chat_layout_spec(area: Rect, empty: bool, has_title: bool, content: Seq<char>, cursor: nat, scroll: nat, r: ChatAreas) -> bool {
    exists|chunks: Seq<Rect>, region: Rect| #[trigger] chat_laid_out(area, empty, has_title, content, cursor, scroll, chunks, region, r)
}

/// Whether `r` is the chat pane's areas in `area` from the rows `chunks` the layout solver
/// gave for `chat_constraints` and the input region `region`.
pub open spec fn chat_laid_out(area: Rect, empty: bool, has_title: bool, content: Seq<char>, cursor: nat, scroll: nat,
    chunks: Seq<Rect>, region: Rect, r: ChatAreas) -> bool {
    let h = chat_input_height(area, empty, content, cursor, scroll);
    let k: int = if has_title { 1 } else { 0 };
    &&& split_outcome(area, LayoutDirection::Vertical, 0, chat_constraints(empty, has_title, h), chunks)
    &&& if empty {
            part_of(split_space(chunks[k + 1], 0), LayoutDirection::Horizontal, region)
        } else {
            region == chunks[k + 1]
        }
    &&& r == chat_areas_spec(if has_title { Some(chunks[0]) } else { None }, chunks[k], region, empty, content, cursor, scroll)
}

/// Lays out a chat pane in `area` (see `chat_layout_spec`).
pub fn chat_layout(area: Rect, empty: bool, has_title: bool, content: &str, cursor: usize, scroll: usize) -> (r: ChatAreas)
    ensures
        chat_layout_spec(area, empty, has_title, content@, cursor as nat, scroll as nat, r),
{
    let h = if empty {
        centered_input_height(content, cursor, scroll, area.width, area.height)
    } else {
        bottom_input_height(content, cursor, scroll, area.width, area.height)
    };
    let mut cs: Vec<LayoutConstraint> = Vec::new();
    if has_title {
        cs.push(LayoutConstraint::Length(2));
    }
    cs.push(LayoutConstraint::Min(0));
    cs.push(LayoutConstraint::Length(h));
    if empty {
        cs.push(LayoutConstraint::Min(0));
    }
    proof {
        assert(cs@ =~= chat_constraints(empty, has_title, h));
    }
    let chunks = split_layout(area, LayoutDirection::Vertical, 0, &cs);
    let k: usize = if has_title { 1 } else { 0 };
    let region = if empty {
        let hs = vec![LayoutConstraint::Percentage(12), LayoutConstraint::Percentage(76), LayoutConstraint::Percentage(12)];
        proof {
            assert(hs@ =~= centre_columns());
        }
        let parts = split_layout(chunks[k + 1], LayoutDirection::Horizontal, 0, &hs);
        assert(part_of(split_space(chunks@[k + 1], 0), LayoutDirection::Horizontal, parts@[1]));
        parts[1]
    } else {
        chunks[k + 1]
    };
    let title = if has_title { Some(chunks[0]) } else { None };
    let r = chat_areas(title, chunks[k], region, empty, content, cursor, scroll);
    proof {
        assert(chat_laid_out(area, empty, has_title, content@, cursor as nat, scroll as nat, chunks@, region, r));
    }
    r
}

/// The chat pane's areas from its rows (see `chat_areas_spec`).
pub fn chat_areas(title: Option<Rect>, body: Rect, region: Rect, empty: bool, content: &str, cursor: usize, scroll: usize) -> (r: ChatAreas)
    ensures
        r == chat_areas_spec(title, body, region, empty, content@, cursor as nat, scroll as nat),
{
    let ia = input_areas(region, content, cursor, scroll);
    ChatAreas {
        title,
        messages: if empty { None } else { Some(chat_messages_area(body)) },
        input_box: ia.0,
        input_text: ia.1,
        input_scroll: ia.2,
        input_scrollbar: ia.3,
        cursor: ia.4,
    }
}

} // verus!
