//! The main screen's frame: a top bar, a status bar, and between them the conversation
//! sidebar, the chat pane and the artifact sidebar side by side.
use vstd::prelude::*;
use crate::geometry::{Rect, rect_new, rect_right, sat_add16, sat_sub16, bordered_inner, bordered_inner_exec};
use crate::layout::{LayoutConstraint, LayoutDirection, split_layout, split_outcome};

verus! {

/// What the frame's layout reads of the screen's state.
#[derive(Debug, Clone, Copy, PartialEq, Eq, Structural)]
pub struct UiLayoutInput {
    pub sidebar_open: bool,
    pub artifact_sidebar_open: bool,
}

impl UiLayoutInput {
    /// The screen as it starts: both sidebars closed.
    pub fn new() -> (r: UiLayoutInput)
        ensures
            !r.sidebar_open && !r.artifact_sidebar_open,
    {
        UiLayoutInput { sidebar_open: false, artifact_sidebar_open: false }
    }
}

/// Where the parts of the main screen are drawn.
#[derive(Debug, Clone, Copy, PartialEq, Eq, Structural)]
pub struct UiAreas {
    pub top_bar: Rect,
    /// The row between the bars, shared by the sidebars and the chat.
    pub content: Rect,
    pub status_bar: Rect,
    pub sidebar: Rect,
    pub chat: Rect,
    pub artifact_sidebar: Rect,
    /// The chat pane inside its border.
    pub pane: Rect,
    /// Whether the artifact sidebar is drawn (it is kept only where the room allows it).
    pub show_artifact_sidebar: bool,
}

/// The conversation sidebar's width: 24 columns when it is open.
pub open spec fn sidebar_width(open: bool) -> u16 {
    if open { 24 } else { 0 }
}

/// Whether the artifact sidebar is drawn: it is open and the room beside the conversation
/// sidebar is at least 72 columns.
pub open spec fn artifact_shown(middle_width: u16, state: UiLayoutInput) -> bool {
    state.artifact_sidebar_open && sat_sub16(middle_width, sidebar_width(state.sidebar_open)) >= 72
}

/// The artifact sidebar's width: none when it is not drawn; otherwise what is left after
/// the conversation sidebar and 24 columns for the chat, at most 32 unless that is under 22.
pub open spec fn artifact_width(middle_width: u16, state: UiLayoutInput) -> u16 {
    let max_w = sat_sub16(sat_sub16(middle_width, sidebar_width(state.sidebar_open)), 24);
    if !artifact_shown(middle_width, state) {
        0
    } else if max_w < 22 {
        max_w
    } else if max_w < 32 {
        max_w
    } else {
        32
    }
}

/// The main screen's rows: one line, the rest and one line.
pub open spec fn ui_row_constraints() -> Seq<LayoutConstraint> {
    seq![LayoutConstraint::Length(1), LayoutConstraint::Min(0), LayoutConstraint::Length(1)]
}

/// The main screen's areas from its three rows: the middle row `m` cut into the sidebar, the
/// chat and the artifact sidebar; the pane inside the chat's border.
pub open spec fn ui_areas_spec(top: Rect, m: Rect, bottom: Rect, state: UiLayoutInput) -> UiAreas {
    let left = sidebar_width(state.sidebar_open);
    let aw = artifact_width(m.width, state);
    let chat = rect_new(sat_add16(m.x, left), m.y, sat_sub16(sat_sub16(m.width, left), aw), m.height);
    UiAreas {
        top_bar: top,
        content: m,
        status_bar: bottom,
        sidebar: rect_new(m.x, m.y, left, m.height),
        chat,
        artifact_sidebar: rect_new(sat_sub16(rect_right(m), aw), m.y, aw, m.height),
        pane: bordered_inner(chat),
        show_artifact_sidebar: artifact_shown(m.width, state),
    }
}

/// Lays out the main screen in `area`: the rows the layout solver gives (one line, the rest,
/// one line) and the areas they give (see `ui_areas_spec`).
pub fn ui_layout(area: Rect, state: &UiLayoutInput) -> (r: UiAreas)
    ensures
        split_outcome(area, LayoutDirection::Vertical, 0, ui_row_constraints(), seq![r.top_bar, r.content, r.status_bar]),
        r == ui_areas_spec(r.top_bar, r.content, r.status_bar, *state),
{
    let cs = vec![LayoutConstraint::Length(1), LayoutConstraint::Min(0), LayoutConstraint::Length(1)];
    proof {
        assert(cs@ =~= ui_row_constraints());
    }
    let rows = split_layout(area, LayoutDirection::Vertical, 0, &cs);
    proof {
        assert(rows@ =~= seq![rows@[0], rows@[1], rows@[2]]);
    }
    ui_areas(rows[0], rows[1], rows[2], state)
}

/// The main screen's areas from its three rows (see `ui_areas_spec`).
pub fn ui_areas(top: Rect, m: Rect, bottom: Rect, state: &UiLayoutInput) -> (r: UiAreas)
    ensures
        r == ui_areas_spec(top, m, bottom, *state),
{
    let left: u16 = if state.sidebar_open { 24 } else { 0 };
    let room = m.width.saturating_sub(left);
    let show = state.artifact_sidebar_open && room >= 72;
    let max_w = room.saturating_sub(24);
    let aw: u16 = if !show {
        0
    } else if max_w < 22 {
        max_w
    } else if max_w < 32 {
        max_w
    } else {
        32
    };
    let chat = Rect::new(m.x.saturating_add(left), m.y, room.saturating_sub(aw), m.height);
    UiAreas {
        top_bar: top,
        content: m,
        status_bar: bottom,
        sidebar: Rect::new(m.x, m.y, left, m.height),
        chat,
        artifact_sidebar: Rect::new(m.right().saturating_sub(aw), m.y, aw, m.height),
        pane: bordered_inner_exec(chat),
        show_artifact_sidebar: show,
    }
}

} // verus!
