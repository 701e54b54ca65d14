//! The list popup: a titled list of items, optionally with a selection that the arrow keys
//! and the mouse move, each item possibly carrying an action.
use vstd::prelude::*;
use crate::geometry::{Position, Rect, below_title, below_title_exec, rect_bottom, rect_contains, rect_new, rect_right, sat_sub16};
use crate::text::{trim, trimmed_string};

verus! {

/// What choosing a list item does.
#[derive(Debug, Clone, PartialEq, Eq)]
pub enum ListPopupAction {
    InsertText(String),
    ReplaceInput(String),
    SetTheme(String),
}

/// The abstract form of an action.
pub enum ActionView {
    InsertText(Seq<char>),
    ReplaceInput(Seq<char>),
    SetTheme(Seq<char>),
}

/// The abstract form of an action.
pub open spec fn action_view(a: ListPopupAction) -> ActionView {
    match a {
        ListPopupAction::InsertText(s) => ActionView::InsertText(s@),
        ListPopupAction::ReplaceInput(s) => ActionView::ReplaceInput(s@),
        ListPopupAction::SetTheme(s) => ActionView::SetTheme(s@),
    }
}

/// The abstract form of an optional action.
pub open spec fn opt_action_view(a: Option<ListPopupAction>) -> Option<ActionView> {
    match a {
        Some(a) => Some(action_view(a)),
        None => None,
    }
}

impl ListPopupAction {
    /// A copy of the action.
    pub fn duplicate(&self) -> (r: ListPopupAction)
        ensures
            action_view(r) == action_view(*self),
    {
        match self {
            ListPopupAction::InsertText(s) => ListPopupAction::InsertText(s.clone()),
            ListPopupAction::ReplaceInput(s) => ListPopupAction::ReplaceInput(s.clone()),
            ListPopupAction::SetTheme(s) => ListPopupAction::SetTheme(s.clone()),
        }
    }
}

/// An item of the list: its label and what choosing it does, if anything.
#[derive(Debug, Clone)]
pub struct ListPopupItem {
    pub label: String,
    pub action: Option<ListPopupAction>,
}

impl ListPopupItem {
    /// An item that inserts `text` into the input; its label is the text trimmed.
    pub fn insert(text: String) -> (r: ListPopupItem)
        ensures
            r.label@ == trim(text@),
            opt_action_view(r.action) == Some(ActionView::InsertText(text@)),
    {
        let label = trimmed_string(text.as_str());
        ListPopupItem { label, action: Some(ListPopupAction::InsertText(text)) }
    }

    /// An item with a label and an action.
    pub fn action(label: String, action: ListPopupAction) -> (r: ListPopupItem)
        ensures
            r.label@ == label@,
            opt_action_view(r.action) == Some(action_view(action)),
    {
        ListPopupItem { label, action: Some(action) }
    }
}

/// Where the popup opens: centred, or above an anchor rectangle (centred when there is none).
#[derive(Debug, Clone, Copy, PartialEq, Eq, Structural)]
pub enum ListPopupPlacement {
    Centered,
    Anchored(Option<Rect>),
}

/// A titled list of items with an optional selection and a scroll offset.
#[derive(Debug, Clone)]
pub struct ListPopup {
    pub title: String,
    pub empty_label: String,
    pub items: Vec<ListPopupItem>,
    pub scroll: usize,
    pub selected: Option<usize>,
    pub placement: ListPopupPlacement,
    pub live_input: bool,
}

/// The labels of a list's items.
pub open spec fn labels_view(items: Seq<ListPopupItem>) -> Seq<Seq<char>> {
    items.map_values(|i: ListPopupItem| i.label@)
}

/// Whether the selection, if any, is one of the items.
pub open spec fn selection_in_range(p: ListPopup) -> bool {
    match p.selected {
        Some(i) => i < p.items.len(),
        None => true,
    }
}

/// 70% of a length, the product capped at the largest `u16`.
pub open spec fn seventy_percent(v: u16) -> u16 {
    ((if v * 70 > u16::MAX { u16::MAX as int } else { v * 70 }) / 100) as u16
}

/// The width of the centred popup: 70% of the area, at least 30 columns.
pub open spec fn centered_width(area: Rect) -> u16 {
    if seventy_percent(area.width) >= 30 { seventy_percent(area.width) } else { 30 }
}

/// The height of the centred popup: 70% of the area, at least 10 rows.
pub open spec fn centered_height(area: Rect) -> u16 {
    if seventy_percent(area.height) >= 10 { seventy_percent(area.height) } else { 10 }
}

/// Whether the centred popup's corner can be computed without leaving the coordinate range.
pub open spec fn centered_fits(area: Rect) -> bool {
    area.x + sat_sub16(area.width, centered_width(area)) / 2 <= u16::MAX
        && area.y + sat_sub16(area.height, centered_height(area)) / 2 <= u16::MAX
}

/// The centred popup: 70% of the area each way (at least 30 by 10, at most the area),
/// centred in it.
pub open spec fn centered_popup(area: Rect) -> Rect {
    let w = centered_width(area);
    let h = centered_height(area);
    rect_new(
        (area.x + sat_sub16(area.width, w) / 2) as u16,
        (area.y + sat_sub16(area.height, h) / 2) as u16,
        if w <= area.width { w } else { area.width },
        if h <= area.height { h } else { area.height },
    )
}

/// The height an anchored popup asks for: its items plus two rows, between 4 and 12, the
/// item count truncated to 16 bits.
pub open spec fn anchored_height(items: nat) -> int {
    let want = (items as u16) + 2;
    if want < 4 { 4 } else if want > 12 { 12 } else { want }
}

/// The anchored popup: at least 36 columns wide (at most the area), its height from the item
/// count (at most the area), just above the anchor and kept inside the area.
pub open spec fn anchored_popup(area: Rect, anchor: Rect, items: nat) -> Rect {
    let w0: u16 = if anchor.width >= 36 { anchor.width } else { 36 };
    let w: u16 = if w0 <= area.width { w0 } else { area.width };
    let h: u16 = if anchored_height(items) <= area.height { anchored_height(items) as u16 } else { area.height };
    let right_limit = sat_sub16(rect_right(area), w);
    let x: u16 = if anchor.x <= right_limit { anchor.x } else { right_limit };
    let above = sat_sub16(anchor.y, h);
    let y0: u16 = if above >= area.y { above } else { area.y };
    let bottom_limit = sat_sub16(rect_bottom(area), h);
    let y: u16 = if y0 <= bottom_limit { y0 } else { bottom_limit };
    rect_new(x, y, w, h)
}

/// Whether the popup's area can be computed for `area` (see `ListPopup::popup_area_in`).
pub open spec fn placement_fits(p: ListPopup, area: Rect) -> bool {
    match p.placement {
        ListPopupPlacement::Anchored(Some(_)) => (p.items.len() as u16) + 2 <= u16::MAX,
        _ => centered_fits(area),
    }
}

/// The popup's area within `area`.
pub open spec fn popup_area_spec(p: ListPopup, area: Rect) -> Rect {
    match p.placement {
        ListPopupPlacement::Anchored(Some(anchor)) => anchored_popup(area, anchor, p.items.len() as nat),
        _ => centered_popup(area),
    }
}

/// The action of the selected item, if any.
pub open spec fn selected_action_spec(p: ListPopup) -> Option<ActionView> {
    match p.selected {
        Some(i) => if i < p.items.len() { opt_action_view(p.items@[i as int].action) } else { None },
        None => None,
    }
}

/// The popup unchanged but for its scroll offset and selection.
pub open spec fn same_but_cursor(a: ListPopup, b: ListPopup) -> bool {
    a.title == b.title && a.empty_label == b.empty_label && a.items == b.items && a.placement == b.placement
        && a.live_input == b.live_input
}

impl ListPopup {
    /// A centred popup listing `items` as labels without actions, nothing selected.
    pub fn new(title: String, empty_label: String, items: Vec<String>) -> (r: ListPopup)
        ensures
            r.title@ == title@,
            r.empty_label@ == empty_label@,
            labels_view(r.items@) == items@.map_values(|s: String| s@),
            forall|i: int| 0 <= i < r.items.len() ==> #[trigger] r.items@[i].action is None,
            r.scroll == 0,
            r.selected is None,
            r.placement == ListPopupPlacement::Centered,
            !r.live_input,
    {
        let mut list: Vec<ListPopupItem> = Vec::new();
        let mut i: usize = 0;
        while i < items.len()
            invariant
                i <= items.len(),
                labels_view(list@) == items@.take(i as int).map_values(|s: String| s@),
                forall|k: int| 0 <= k < list.len() ==> #[trigger] list@[k].action is None,
            decreases items.len() - i,
        {
            let ghost before = list@;
            list.push(ListPopupItem { label: items[i].clone(), action: None });
            proof {
                assert(labels_view(list@) =~= labels_view(before).push(items@[i as int]@));
                assert(items@.take(i as int + 1).map_values(|s: String| s@)
                    =~= items@.take(i as int).map_values(|s: String| s@).push(items@[i as int]@));
            }
            i = i + 1;
        }
        proof {
            assert(items@.take(items.len() as int) =~= items@);
        }
        ListPopup {
            title,
            empty_label,
            items: list,
            scroll: 0,
            selected: None,
            placement: ListPopupPlacement::Centered,
            live_input: false,
        }
    }

    /// A centred popup over `items` with the first item selected, if there is one.
    pub fn selectable(title: String, empty_label: String, items: Vec<ListPopupItem>) -> (r: ListPopup)
        ensures
            r.title@ == title@,
            r.empty_label@ == empty_label@,
            r.items@ == items@,
            r.scroll == 0,
            r.selected == (if items.len() > 0 { Some(0usize) } else { None }),
            r.placement == ListPopupPlacement::Centered,
            !r.live_input,
            selection_in_range(r),
    {
        let selected = if items.len() > 0 { Some(0) } else { None };
        ListPopup { title, empty_label, items, scroll: 0, selected, placement: ListPopupPlacement::Centered, live_input: false }
    }

    /// A popup above `anchor` over `items`, the first item selected, following the input as it
    /// is typed.
    pub fn anchored_selectable(title: String, empty_label: String, items: Vec<ListPopupItem>, anchor: Option<Rect>) -> (r: ListPopup)
        ensures
            r.title@ == title@,
            r.empty_label@ == empty_label@,
            r.items@ == items@,
            r.scroll == 0,
            r.selected == (if items.len() > 0 { Some(0usize) } else { None }),
            r.placement == ListPopupPlacement::Anchored(anchor),
            r.live_input,
            selection_in_range(r),
    {
        let selected = if items.len() > 0 { Some(0) } else { None };
        ListPopup { title, empty_label, items, scroll: 0, selected, placement: ListPopupPlacement::Anchored(anchor), live_input: true }
    }

    /// The centred popup area within `area` (see `centered_popup`).
    pub fn popup_area(area: Rect) -> (r: Rect)
        requires
            centered_fits(area),
        ensures
            r == centered_popup(area),
    {
        let w70 = ((if area.width as u32 * 70 > 0xffff { 0xffff } else { area.width as u32 * 70 }) / 100) as u16;
        let h70 = ((if area.height as u32 * 70 > 0xffff { 0xffff } else { area.height as u32 * 70 }) / 100) as u16;
        let width = if w70 >= 30 { w70 } else { 30 };
        let height = if h70 >= 10 { h70 } else { 10 };
        Rect::new(
            area.x + area.width.saturating_sub(width) / 2,
            area.y + area.height.saturating_sub(height) / 2,
            if width <= area.width { width } else { area.width },
            if height <= area.height { height } else { area.height },
        )
    }

    /// The popup's area within `area`, as its placement asks (see `popup_area_spec`).
    pub fn popup_area_in(&self, area: Rect) -> (r: Rect)
        requires
            placement_fits(*self, area),
        ensures
            r == popup_area_spec(*self, area),
    {
        match self.placement {
            ListPopupPlacement::Anchored(Some(anchor)) => {
                let w0 = if anchor.width >= 36 { anchor.width } else { 36 };
                let width = if w0 <= area.width { w0 } else { area.width };
                let want = (self.items.len() as u16) + 2;
                let desired: u16 = if want < 4 { 4 } else if want > 12 { 12 } else { want };
                let height = if desired <= area.height { desired } else { area.height };
                let right_limit = area.right().saturating_sub(width);
                let x = if anchor.x <= right_limit { anchor.x } else { right_limit };
                let above = anchor.y.saturating_sub(height);
                let y0 = if above >= area.y { above } else { area.y };
                let bottom_limit = area.bottom().saturating_sub(height);
                let y = if y0 <= bottom_limit { y0 } else { bottom_limit };
                Rect::new(x, y, width, height)
            },
            _ => Self::popup_area(area),
        }
    }

    /// Scrolls up by one row, stopping at the top.
    pub fn scroll_up(&mut self)
        ensures
            final(self).scroll == sat_sub_usize(old(self).scroll, 1),
            final(self).selected == old(self).selected,
            same_but_cursor(*final(self), *old(self)),
    {
        self.scroll = self.scroll.saturating_sub(1);
    }

    /// Scrolls down by one row, no further than the last screenful of `visible_rows`.
    pub fn scroll_down(&mut self, visible_rows: usize)
        requires
            old(self).scroll < usize::MAX,
        ensures
            final(self).scroll == min_usize((old(self).scroll + 1) as usize, sat_sub_usize(old(self).items.len(), visible_rows)),
            final(self).selected == old(self).selected,
            same_but_cursor(*final(self), *old(self)),
    {
        let max_scroll = self.items.len().saturating_sub(visible_rows);
        let next = self.scroll + 1;
        self.scroll = if next <= max_scroll { next } else { max_scroll };
    }

    /// Moves the selection up one item (scrolling to keep it in view), or scrolls up when
    /// nothing is selected.
    pub fn move_up(&mut self)
        ensures
            match old(self).selected {
                Some(s) => final(self).selected == Some(sat_sub_usize(s, 1))
                    && final(self).scroll == min_usize(old(self).scroll, sat_sub_usize(s, 1)),
                None => final(self).selected is None && final(self).scroll == sat_sub_usize(old(self).scroll, 1),
            },
            same_but_cursor(*final(self), *old(self)),
            selection_in_range(*old(self)) ==> selection_in_range(*final(self)),
    {
        match self.selected {
            Some(selected) => {
                let prev = selected.saturating_sub(1);
                self.selected = Some(prev);
                if prev < self.scroll {
                    self.scroll = prev;
                }
            },
            None => self.scroll_up(),
        }
    }

    /// Moves the selection down one item, no further than the last, scrolling so that it stays
    /// among the `visible_rows` rows shown; or scrolls down when nothing is selected.
    pub fn move_down(&mut self, visible_rows: usize)
        requires
            match old(self).selected {
                Some(s) => s < usize::MAX && old(self).scroll + visible_rows <= usize::MAX,
                None => old(self).scroll < usize::MAX,
            },
        ensures
            match old(self).selected {
                Some(s) => final(self).selected == Some(moved_down(s, old(self).scroll, old(self).items.len() as nat, visible_rows).0)
                    && final(self).scroll == moved_down(s, old(self).scroll, old(self).items.len() as nat, visible_rows).1,
                None => final(self).selected is None
                    && final(self).scroll == min_usize((old(self).scroll + 1) as usize, sat_sub_usize(old(self).items.len(), visible_rows)),
            },
            same_but_cursor(*final(self), *old(self)),
            old(self).items.len() > 0 ==> selection_in_range(*final(self)),
    {
        match self.selected {
            Some(selected) => {
                let last = if self.items.len() >= 1 { self.items.len() - 1 } else { 0 };
                let next = if selected + 1 <= last { selected + 1 } else { last };
                self.selected = Some(next);
                if next >= self.scroll + visible_rows {
                    self.scroll = next + 1 - visible_rows;
                }
            },
            None => self.scroll_down(visible_rows),
        }
    }

    /// The action of the selected item, if any.
    pub fn selected_action(&self) -> (r: Option<ListPopupAction>)
        ensures
            opt_action_view(r) == selected_action_spec(*self),
    {
        match self.selected {
            Some(idx) => {
                if idx < self.items.len() {
                    match &self.items[idx].action {
                        Some(a) => Some(a.duplicate()),
                        None => None,
                    }
                } else {
                    None
                }
            },
            None => None,
        }
    }

    /// Handles a click at `position` with the popup laid out in `area`: a click on an item
    /// selects it and returns its action; a click below the items clears the selection; a
    /// click outside the list changes nothing and returns nothing.
    pub fn action_at(&mut self, area: Rect, position: Position) -> (r: Option<ListPopupAction>)
        requires
            placement_fits(*old(self), area),
            popup_area_spec(*old(self), area).y < u16::MAX,
            rect_contains(below_title(popup_area_spec(*old(self), area)), position)
                ==> old(self).scroll + (position.y - below_title(popup_area_spec(*old(self), area)).y) <= usize::MAX,
        ensures
            same_but_cursor(*final(self), *old(self)),
            final(self).scroll == old(self).scroll,
            ({
                let inner = below_title(popup_area_spec(*old(self), area));
                if rect_contains(inner, position) {
                    let idx = old(self).scroll + (position.y - inner.y);
                    &&& final(self).selected == (if idx < old(self).items.len() { Some(idx as usize) } else { None })
                    &&& opt_action_view(r) == selected_action_spec(*final(self))
                } else {
                    final(self).selected == old(self).selected && r is None
                }
            }),
            selection_in_range(*final(self)) || final(self).selected == old(self).selected,
    {
        let popup = self.popup_area_in(area);
        let inner = below_title_exec(popup);
        if !inner.contains(position) {
            return None;
        }
        let idx = self.scroll + (position.y - inner.y) as usize;
        self.selected = if idx < self.items.len() { Some(idx) } else { None };
        self.selected_action()
    }
}

/// `a - b`, or 0 when `b` is larger.
pub open spec fn sat_sub_usize(a: usize, b: usize) -> usize {
    if a >= b { (a - b) as usize } else { 0 }
}

/// The smaller of two sizes.
pub open spec fn min_usize(a: usize, b: usize) -> usize {
    if a <= b { a } else { b }
}

/// The selection and scroll offset after moving the selection of a list of `len` items down
/// from `s`, with `visible_rows` rows shown from `scroll`.
pub open spec fn moved_down(s: usize, scroll: usize, len: nat, visible_rows: usize) -> (usize, usize) {
    let last: nat = if len >= 1 { (len - 1) as nat } else { 0 };
    let next: usize = if s + 1 <= last { (s + 1) as usize } else { last as usize };
    (next, if next >= scroll + visible_rows { (next + 1 - visible_rows) as usize } else { scroll })
}

/// Moving the selection down keeps it in view: a selection on an item, not above the first
/// row shown, ends up on an item among the `visible_rows` rows shown.
pub proof fn law_move_down_keeps_selection_visible(s: usize, scroll: usize, len: nat, visible_rows: usize)
    requires
        s < len,
        s < usize::MAX,
        scroll <= s,
        visible_rows > 0,
        scroll + visible_rows <= usize::MAX,
    ensures
        moved_down(s, scroll, len, visible_rows).0 < len,
        moved_down(s, scroll, len, visible_rows).1 <= moved_down(s, scroll, len, visible_rows).0,
        moved_down(s, scroll, len, visible_rows).0 < moved_down(s, scroll, len, visible_rows).1 + visible_rows,
{
    let last: nat = (len - 1) as nat;
    if s + 1 <= last {
        assert((s + 1) as usize == s + 1);
        assert(moved_down(s, scroll, len, visible_rows).0 == s + 1);
    } else {
        assert(last <= s);
        assert(last as usize == last);
        assert(moved_down(s, scroll, len, visible_rows).0 == last);
    }
}

} // verus!
