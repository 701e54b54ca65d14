//! Splitting an area with the terminal layout solver, what holds of every split, and where
//! the popups sit on the screen.
use vstd::prelude::*;
use crate::geometry::{Rect, rect_new, sat_add16};
use ratatui::layout::{Constraint, Direction, Layout};

verus! {

/// The direction an area is split along.
#[derive(Debug, Clone, Copy, PartialEq, Eq, Structural)]
pub enum LayoutDirection {
    Vertical,
    Horizontal,
}

/// How much of an area one part of a split asks for.
#[derive(Debug, Clone, Copy, PartialEq, Eq, Structural)]
pub enum LayoutConstraint {
    Percentage(u16),
    Length(u16),
    Min(u16),
}

/// `area` less `m` cells on every side, as ratatui's `Rect::inner` gives it: nothing when
/// the area is narrower or lower than twice the margin.
pub open spec fn margin_inner(area: Rect, m: u16) -> Rect {
    let dm: u16 = if 2 * m > u16::MAX { u16::MAX } else { (2 * m) as u16 };
    if area.width < dm || area.height < dm {
        Rect { x: 0, y: 0, width: 0, height: 0 }
    } else {
        Rect { x: sat_add16(area.x, m), y: sat_add16(area.y, m), width: (area.width - dm) as u16, height: (area.height - dm) as u16 }
    }
}

/// The space a split of `area` with `margin` shares out: the area cut to the coordinate range
/// (as ratatui's `Rect::new` cuts it), less the margin.
pub open spec fn split_space(area: Rect, margin: u16) -> Rect {
    margin_inner(rect_new(area.x, area.y, area.width, area.height), margin)
}

/// Whether `p` can be a part of `space` split along `direction`: it spans the whole space
/// across the split, and along it starts and ends within the space.
pub open spec fn part_of(space: Rect, direction: LayoutDirection, p: Rect) -> bool {
    match direction {
        LayoutDirection::Vertical => p.x == space.x && p.width == space.width
            && space.y <= p.y && p.y + p.height <= space.y + space.height,
        LayoutDirection::Horizontal => p.y == space.y && p.height == space.height
            && space.x <= p.x && p.x + p.width <= space.x + space.width,
    }
}

/// Whether `parts` can be what ratatui's solver gives for `area` less `margin` split along
/// `direction` by `constraints`: one part per constraint, each a part of that space.
pub open spec fn split_outcome(area: Rect, direction: LayoutDirection, margin: u16,
    constraints: Seq<LayoutConstraint>, parts: Seq<Rect>) -> bool {
    &&& parts.len() == constraints.len()
    &&& forall|i: int| 0 <= i < parts.len() ==> part_of(split_space(area, margin), direction, #[trigger] parts[i])
}

/// Whether `r` lies within `outer`.
pub open spec fn rect_within(outer: Rect, r: Rect) -> bool {
    outer.x <= r.x && r.x + r.width <= outer.x + outer.width
        && outer.y <= r.y && r.y + r.height <= outer.y + outer.height
}

/// Splits `area` with ratatui's `Layout::split` (the direction, a uniform margin and the
/// constraints given). Trusted for what holds of every outcome: one part per constraint, and
/// each part spans the area less its margin across the split and lies within it along the
/// split. The solver's segments are pairs of its variables, each held (as required
/// constraints) between the start and the end of that space and no greater than its pair's
/// end, then rounded; across the split a part copies the space. Where the parts fall within
/// the space is left unsaid: the solver may settle competing constraints either way, walking
/// hash maps seeded per process, so two calls on the same arguments may differ.
#[verifier::external_body]
pub(crate) fn split_layout(area: Rect, direction: LayoutDirection, margin: u16, constraints: &Vec<LayoutConstraint>) -> (r: Vec<Rect>)
    ensures
        split_outcome(area, direction, margin, constraints@, r@),
{
    let dir = match direction {
        LayoutDirection::Vertical => Direction::Vertical,
        LayoutDirection::Horizontal => Direction::Horizontal,
    };
    let cs: Vec<Constraint> = constraints.iter().map(|c| match c {
        LayoutConstraint::Percentage(v) => Constraint::Percentage(*v),
        LayoutConstraint::Length(v) => Constraint::Length(*v),
        LayoutConstraint::Min(v) => Constraint::Min(*v),
    }).collect();
    let parts = Layout::default().direction(dir).margin(margin).constraints(cs)
        .split(ratatui::layout::Rect::new(area.x, area.y, area.width, area.height));
    parts.iter().map(|p| Rect { x: p.x, y: p.y, width: p.width, height: p.height }).collect()
}

/// A split space lies within the coordinate range, and without a margin it is the area
/// (cut to the coordinate range) itself.
pub proof fn lemma_split_space_in_range(area: Rect, margin: u16)
    ensures
        split_space(area, margin).x + split_space(area, margin).width <= u16::MAX,
        split_space(area, margin).y + split_space(area, margin).height <= u16::MAX,
        split_space(area, 0) == rect_new(area.x, area.y, area.width, area.height),
{
}

/// Splits `area` in three along `direction` and returns the middle part.
fn split_middle(area: Rect, direction: LayoutDirection, first: LayoutConstraint, middle: LayoutConstraint, last: LayoutConstraint) -> (r: Rect)
    ensures
        part_of(split_space(area, 0), direction, r),
{
    let cs = vec![first, middle, last];
    let parts = split_layout(area, direction, 0, &cs);
    assert(part_of(split_space(area, 0), direction, parts@[1]));
    parts[1]
}

/// A rectangle split in three along one direction and then the middle part split across:
/// the middle of the middle lies within the rectangle (cut to the coordinate range).
proof fn lemma_middle_of_middle(area: Rect, row: Rect, r: Rect)
    requires
        part_of(split_space(area, 0), LayoutDirection::Vertical, row),
        part_of(split_space(row, 0), LayoutDirection::Horizontal, r),
    ensures
        rect_within(rect_new(area.x, area.y, area.width, area.height), r),
{
    lemma_split_space_in_range(area, 0);
}

/// The part of `area` taking `percent_x` of its width and `percent_y` of its height in its
/// middle: the area is cut in three rows of `(100 - percent_y) / 2`, `percent_y` and
/// `(100 - percent_y) / 2` percent, and the middle row in three columns likewise. Where the
/// solver puts the parts is not known here; the result lies within the area.
pub fn centered_rect(percent_x: u16, percent_y: u16, area: Rect) -> (r: Rect)
    requires
        percent_x <= 100,
        percent_y <= 100,
    ensures
        rect_within(rect_new(area.x, area.y, area.width, area.height), r),
{
    let side_y = (100 - percent_y) / 2;
    let side_x = (100 - percent_x) / 2;
    let row = split_middle(area, LayoutDirection::Vertical,
        LayoutConstraint::Percentage(side_y), LayoutConstraint::Percentage(percent_y), LayoutConstraint::Percentage(side_y));
    let r = split_middle(row, LayoutDirection::Horizontal,
        LayoutConstraint::Percentage(side_x), LayoutConstraint::Percentage(percent_x), LayoutConstraint::Percentage(side_x));
    proof { lemma_middle_of_middle(area, row, r); }
    r
}

/// The part of `area` a dialog of `height` rows and `percent_x` of the width takes in its
/// middle: rows `Min(0)`, `Length(h)`, `Min(0)` with `h` the height at most two rows less
/// than the area and at least four, then the middle row cut in
/// columns of `(100 - percent_x) / 2`, `percent_x` and `(100 - percent_x) / 2` percent. The
/// result lies within the area.
pub fn centered_rect_in(percent_x: u16, height: u16, area: Rect) -> (r: Rect)
    requires
        percent_x <= 100,
    ensures
        rect_within(rect_new(area.x, area.y, area.width, area.height), r),
{
    let room = area.height.saturating_sub(2);
    let h = if height < room { height } else { room };
    let h = if h > 4 { h } else { 4 };
    let side_x = (100 - percent_x) / 2;
    let row = split_middle(area, LayoutDirection::Vertical,
        LayoutConstraint::Min(0), LayoutConstraint::Length(h), LayoutConstraint::Min(0));
    let r = split_middle(row, LayoutDirection::Horizontal,
        LayoutConstraint::Percentage(side_x), LayoutConstraint::Percentage(percent_x), LayoutConstraint::Percentage(side_x));
    proof { lemma_middle_of_middle(area, row, r); }
    r
}

/// Where the external-editor popup sits in `area`: rows of 6%, 88% and two lines, then the
/// middle row's columns of 25%, 75% and 0%. The result lies within the area.
pub fn popup_area_pub(area: Rect) -> (r: Rect)
    ensures
        rect_within(rect_new(area.x, area.y, area.width, area.height), r),
{
    let row = split_middle(area, LayoutDirection::Vertical,
        LayoutConstraint::Percentage(6), LayoutConstraint::Percentage(88), LayoutConstraint::Length(2));
    let r = split_middle(row, LayoutDirection::Horizontal,
        LayoutConstraint::Percentage(25), LayoutConstraint::Percentage(75), LayoutConstraint::Percentage(0));
    proof { lemma_middle_of_middle(area, row, r); }
    r
}

} // verus!
