//! The list dropdowns: those of the chat tab's status line (provider, model, reasoning
//! effort), opening above their control, and the provider lists of the settings' providers
//! tab, opening below theirs. For each: which items show for the scroll offset, their labels
//! and highlight, and where the dropdown, its rows and its scrollbar go.
use vstd::prelude::*;
use crate::geometry::{Rect, rect_new, sat_sub16};
use crate::input_box::{clipped_label, clipped_label_spec, dropdown_width_for, dropdown_width_spec, strs_view, widest_from};
use crate::unicode::str_display_width;
use crate::name_set::same_text;
use crate::render::sat_sub;
use crate::settings_popup::{ProvidersDropdown, SettingsPopup, pair_provider};

verus! {

/// The dropdowns of the chat tab.
#[derive(Debug, Clone, Copy, PartialEq, Eq, Structural)]
pub enum ChatDropdown {
    Provider,
    Model,
    Reasoning,
}

/// How a dropdown is laid out: the scroll offset it is shown at, the labels of the rows in
/// view and whether each is the current choice, the dropdown's area, the area of its rows,
/// its scrollbar's track when not every item fits, and the clickable area of each row.
#[derive(Debug, Clone)]
pub struct DropdownLayout {
    pub scroll_offset: usize,
    pub labels: Vec<String>,
    pub selected: Vec<bool>,
    pub area: Rect,
    pub viewport: Rect,
    pub scrollbar: Option<Rect>,
    pub item_areas: Vec<Rect>,
}

/// The rows a dropdown of `total` items shows at once: all of them, but at most `limit`.
pub open spec fn visible_rows(total: nat, limit: nat) -> nat {
    if total < limit { total } else { limit }
}

/// The scroll offset kept within the items: at most the number of items past one page of
/// `limit` rows.
pub open spec fn clamped_offset(offset: nat, total: nat, limit: nat) -> nat {
    let max = sat_sub(total, visible_rows(total, limit));
    if offset <= max { offset } else { max }
}

/// The least label width of a dropdown: thirty cells for providers and models, eight for
/// reasoning efforts.
pub open spec fn min_label_width(kind: ChatDropdown) -> nat {
    if kind == ChatDropdown::Reasoning { 8 } else { 30 }
}

/// The scrollbar column of a dropdown: one for providers and models, none for reasoning
/// efforts.
pub open spec fn scrollbar_width(kind: ChatDropdown) -> u16 {
    if kind == ChatDropdown::Reasoning { 0 } else { 1 }
}

/// An item's label: a reasoning effort clipped to eight characters, other items whole.
pub open spec fn item_label(kind: ChatDropdown, item: Seq<char>) -> Seq<char> {
    if kind == ChatDropdown::Reasoning { clipped_label_spec(item, 8) } else { item }
}

/// The labels of the `count` items from `offset` on.
pub open spec fn labels_in_view(kind: ChatDropdown, items: Seq<Seq<char>>, offset: nat, count: nat) -> Seq<Seq<char>> {
    Seq::new(count, |k: int| item_label(kind, items[offset + k]))
}

/// Whether each of the `count` items from `offset` on is the current choice.
pub open spec fn selected_in_view(items: Seq<Seq<char>>, current: Option<Seq<char>>, offset: nat, count: nat) -> Seq<bool> {
    Seq::new(count, |k: int| current == Some(items[offset + k]))
}

/// The clickable rows: one row each from the top of the viewport, its full width.
pub open spec fn row_areas(vp: Rect, count: nat) -> Seq<Rect> {
    Seq::new(count, |i: int| Rect { x: vp.x, y: (vp.y + i) as u16, width: vp.width, height: 1 })
}

/// The widest display width among `ls[i..]`, or `acc` if wider.
pub open spec fn widest_label(ls: Seq<Seq<char>>, i: nat, acc: nat) -> nat
    decreases ls.len() - i,
{
    if i >= ls.len() {
        acc
    } else {
        let w = str_display_width(ls[i as int]) as nat;
        widest_label(ls, i + 1, if w > acc { w } else { acc })
    }
}

/// The width of a dropdown listing `labels`: the widest label (or 1 with no labels), at
/// least `min_chars` and at least 1, plus two border cells and the scrollbar.
pub open spec fn dropdown_width_of(labels: Seq<Seq<char>>, min_chars: nat, scrollbar: u16) -> int {
    let widest = if labels.len() == 0 { 1 } else { widest_label(labels, 1, str_display_width(labels[0]) as nat) };
    let content: nat = if widest >= min_chars { widest } else { min_chars };
    let content1: nat = if content >= 1 { content } else { 1 };
    content1 + 2 + scrollbar
}

proof fn lemma_widest_same(labels: Seq<String>, i: nat, acc: nat)
    ensures
        widest_from(labels, i, acc) == widest_label(strs_view(labels), i, acc),
    decreases labels.len() - i,
{
    if i < labels.len() {
        let w = str_display_width(labels[i as int]@) as nat;
        assert(strs_view(labels)[i as int] == labels[i as int]@);
        lemma_widest_same(labels, i + 1, if w > acc { w } else { acc });
    }
}

proof fn lemma_widest_bound(ls: Seq<Seq<char>>, i: nat, acc: nat)
    ensures
        widest_label(ls, i, acc) >= acc,
    decreases ls.len() - i,
{
    if i < ls.len() {
        let w = str_display_width(ls[i as int]) as nat;
        lemma_widest_bound(ls, i + 1, if w > acc { w } else { acc });
    }
}

/// The labels shown by dropdown `kind` over `items` at scroll offset `offset`.
pub open spec fn shown_labels(kind: ChatDropdown, items: Seq<Seq<char>>, offset: nat) -> Seq<Seq<char>> {
    labels_in_view(kind, items, clamped_offset(offset, items.len(), 6), visible_rows(items.len(), 6))
}

/// The dropdown's area for `labels` opening above `anchor`: as wide as `dropdown_width_of`
/// says and two rows taller than its `count` rows, ending just above the anchor (at the top
/// when there is no room).
pub open spec fn dropdown_area_spec(kind: ChatDropdown, anchor: Rect, labels: Seq<Seq<char>>, count: nat) -> Rect {
    rect_new(
        anchor.x,
        sat_sub16(anchor.y, (count + 2) as u16),
        dropdown_width_of(labels, min_label_width(kind), scrollbar_width(kind)) as u16,
        (count + 2) as u16,
    )
}

/// The area of the rows inside the dropdown: inside its border and left of its scrollbar.
pub open spec fn dropdown_viewport_spec(kind: ChatDropdown, area: Rect, count: nat) -> Rect {
    rect_new((area.x + 1) as u16, (area.y + 1) as u16, sat_sub16(area.width, (2 + scrollbar_width(kind)) as u16), count as u16)
}

/// Whether `l` is the layout of dropdown `kind` over `items` with current choice `current`,
/// opened above `anchor` at scroll offset `offset`.
pub open spec fn dropdown_layout_spec(
    kind: ChatDropdown,
    anchor: Rect,
    items: Seq<Seq<char>>,
    current: Option<Seq<char>>,
    offset: nat,
    l: DropdownLayout,
) -> bool {
    let total = items.len();
    let count = visible_rows(total, 6);
    let off = clamped_offset(offset, total, 6);
    let area = dropdown_area_spec(kind, anchor, labels_in_view(kind, items, off, count), count);
    let vp = dropdown_viewport_spec(kind, area, count);
    &&& l.scroll_offset == off
    &&& strs_view(l.labels@) == labels_in_view(kind, items, off, count)
    &&& l.selected@ == selected_in_view(items, current, off, count)
    &&& l.area == area
    &&& l.viewport == vp
    &&& l.scrollbar == (if kind != ChatDropdown::Reasoning && total > count {
        Some(rect_new((area.x + area.width - 2) as u16, (area.y + 1) as u16, 1, count as u16))
    } else {
        None::<Rect>
    })
    &&& l.item_areas@ == row_areas(vp, count)
}

/// The labels and highlight of the `count` items from `off` on.
fn rows_in_view(kind: ChatDropdown, items: &Vec<String>, current: Option<&str>, off: usize, count: usize) -> (r: (Vec<String>, Vec<bool>))
    requires
        off + count <= items.len(),
    ensures
        strs_view(r.0@) == labels_in_view(kind, strs_view(items@), off as nat, count as nat),
        r.1@ == selected_in_view(strs_view(items@), match current { Some(c) => Some(c@), None => None }, off as nat, count as nat),
{
    let ghost iv = strs_view(items@);
    let ghost cur = match current { Some(c) => Some(c@), None => None::<Seq<char>> };
    let mut labels: Vec<String> = Vec::new();
    let mut selected: Vec<bool> = Vec::new();
    let mut k: usize = 0;
    while k < count
        invariant
            k <= count,
            off + count <= items.len(),
            iv == strs_view(items@),
            cur == (match current { Some(c) => Some(c@), None => None::<Seq<char>> }),
            strs_view(labels@) == labels_in_view(kind, iv, off as nat, count as nat).take(k as int),
            selected@ == selected_in_view(iv, cur, off as nat, count as nat).take(k as int),
        decreases count - k,
    {
        let item = &items[off + k];
        let label = if kind == ChatDropdown::Reasoning { clipped_label(item.as_str(), 8) } else { item.clone() };
        let is_current = match current {
            Some(c) => same_text(item.as_str(), c),
            None => false,
        };
        let ghost before_labels = strs_view(labels@);
        labels.push(label);
        selected.push(is_current);
        proof {
            assert(iv[off + k] == items@[off + k]@);
            assert(strs_view(labels@) =~= before_labels.push(labels_in_view(kind, iv, off as nat, count as nat)[k as int]));
            assert(labels_in_view(kind, iv, off as nat, count as nat).take(k + 1) =~= labels_in_view(kind, iv, off as nat, count as nat).take(k as int).push(labels_in_view(kind, iv, off as nat, count as nat)[k as int]));
            assert(selected_in_view(iv, cur, off as nat, count as nat).take(k + 1) =~= selected_in_view(iv, cur, off as nat, count as nat).take(k as int).push(selected_in_view(iv, cur, off as nat, count as nat)[k as int]));
        }
        k = k + 1;
    }
    proof {
        assert(labels_in_view(kind, iv, off as nat, count as nat).take(count as int) =~= labels_in_view(kind, iv, off as nat, count as nat));
        assert(selected_in_view(iv, cur, off as nat, count as nat).take(count as int) =~= selected_in_view(iv, cur, off as nat, count as nat));
    }
    (labels, selected)
}

/// The clickable rows of viewport `vp`.
fn rows_of(vp: Rect, count: usize) -> (r: Vec<Rect>)
    requires
        count == 0 || vp.y + count - 1 <= u16::MAX,
    ensures
        r@ == row_areas(vp, count as nat),
{
    let mut item_areas: Vec<Rect> = Vec::new();
    let mut i: usize = 0;
    while i < count
        invariant
            i <= count,
            count == 0 || vp.y + count - 1 <= u16::MAX,
            item_areas@ == row_areas(vp, count as nat).take(i as int),
        decreases count - i,
    {
        item_areas.push(Rect { x: vp.x, y: vp.y + i as u16, width: vp.width, height: 1 });
        proof {
            assert(row_areas(vp, count as nat).take(i + 1) =~= row_areas(vp, count as nat).take(i as int).push(row_areas(vp, count as nat)[i as int]));
        }
        i = i + 1;
    }
    proof {
        assert(row_areas(vp, count as nat).take(count as int) =~= row_areas(vp, count as nat));
    }
    item_areas
}

/// Lays out dropdown `kind` of the chat tab over `items`, `current` being the current
/// choice, opened above `anchor` at scroll offset `offset` (see `dropdown_layout_spec`); the
/// dropdown's width must fit in 16 bits and the anchor must not be in the last column.
pub fn dropdown_layout(
    kind: ChatDropdown,
    anchor: Rect,
    items: &Vec<String>,
    current: Option<&str>,
    offset: usize,
) -> (l: DropdownLayout)
    requires
        anchor.x < u16::MAX,
        dropdown_width_of(shown_labels(kind, strs_view(items@), offset as nat), min_label_width(kind), scrollbar_width(kind)) <= u16::MAX,
    ensures
        dropdown_layout_spec(kind, anchor, strs_view(items@), match current { Some(c) => Some(c@), None => None }, offset as nat, l),
{
    let total = items.len();
    let count: usize = if total < 6 { total } else { 6 };
    let max = total - count;
    let off = if offset <= max { offset } else { max };
    let ghost iv = strs_view(items@);
    let (labels, selected) = rows_in_view(kind, items, current, off, count);
    let (min_chars, sb): (usize, u16) = if kind == ChatDropdown::Reasoning { (8, 0) } else { (30, 1) };
    proof {
        let ls = labels_in_view(kind, iv, off as nat, count as nat);
        assert(strs_view(labels@) == ls);
        if labels@.len() > 0 {
            lemma_widest_same(labels@, 1, str_display_width(labels@[0]@) as nat);
            lemma_widest_bound(ls, 1, str_display_width(ls[0]) as nat);
        }
        assert(dropdown_width_spec(labels@, min_chars as nat, sb) == dropdown_width_of(ls, min_chars as nat, sb));
    }
    let width = dropdown_width_for(labels.as_slice(), min_chars, sb);
    let height: u16 = (count + 2) as u16;
    let area = Rect::new(anchor.x, anchor.y.saturating_sub(height), width, height);
    let vp = Rect::new(area.x + 1, area.y + 1, area.width.saturating_sub(2 + sb), count as u16);
    let scrollbar = if kind != ChatDropdown::Reasoning && total > count {
        Some(Rect::new(area.x + area.width - 2, area.y + 1, 1, count as u16))
    } else {
        None
    };
    let item_areas = rows_of(vp, count);
    DropdownLayout { scroll_offset: off, labels, selected, area, viewport: vp, scrollbar, item_areas }
}

/// Whether `l` is the layout of a list of `names` with current choice `current`, opened below
/// `anchor` at scroll offset `offset`: at most eight rows, the dropdown as wide as the anchor
/// and two rows taller than its rows, the rows inside its border and left of its scrollbar
/// column, the scrollbar's track when not every name fits.
pub open spec fn list_below_spec(anchor: Rect, names: Seq<Seq<char>>, current: Seq<char>, offset: nat, l: DropdownLayout) -> bool {
    let total = names.len();
    let count = visible_rows(total, 8);
    let off = clamped_offset(offset, total, 8);
    let area = rect_new(anchor.x, (anchor.y + anchor.height) as u16, anchor.width, (count + 2) as u16);
    let vp = rect_new((area.x + 1) as u16, (area.y + 1) as u16, (area.width - 3) as u16, count as u16);
    &&& l.scroll_offset == off
    &&& strs_view(l.labels@) == labels_in_view(ChatDropdown::Provider, names, off, count)
    &&& l.selected@ == selected_in_view(names, Some(current), off, count)
    &&& l.area == area
    &&& l.viewport == vp
    &&& l.scrollbar == (if total > count { Some(rect_new((area.x + area.width - 2) as u16, (area.y + 1) as u16, 1, count as u16)) } else { None::<Rect> })
    &&& l.item_areas@ == row_areas(vp, count)
}

/// Whether a list of `total` names fits below `anchor`: the anchor at least three columns
/// wide and within the coordinate range, with room below it for the list's first border row
/// and its rows.
pub open spec fn fits_below(anchor: Rect, total: nat) -> bool {
    &&& anchor.width >= 3
    &&& anchor.x + anchor.width <= u16::MAX
    &&& anchor.y + anchor.height < u16::MAX
    &&& anchor.y + anchor.height + visible_rows(total, 8) <= u16::MAX
}

/// Lays out a list of `names` opened below `anchor` (see `list_below_spec`), which must fit
/// there (see `fits_below`).
pub fn list_below(anchor: Rect, names: &Vec<String>, current: &str, offset: usize) -> (l: DropdownLayout)
    requires
        fits_below(anchor, names@.len()),
    ensures
        list_below_spec(anchor, strs_view(names@), current@, offset as nat, l),
{
    let total = names.len();
    let count: usize = if total < 8 { total } else { 8 };
    let max = total - count;
    let off = if offset <= max { offset } else { max };
    let (labels, selected) = rows_in_view(ChatDropdown::Provider, names, Some(current), off, count);
    let area = Rect::new(anchor.x, anchor.y + anchor.height, anchor.width, (count + 2) as u16);
    let vp = Rect::new(area.x + 1, area.y + 1, area.width - 3, count as u16);
    let scrollbar = if total > count { Some(Rect::new(area.x + area.width - 2, area.y + 1, 1, count as u16)) } else { None };
    let item_areas = rows_of(vp, count);
    DropdownLayout { scroll_offset: off, labels, selected, area, viewport: vp, scrollbar, item_areas }
}

impl SettingsPopup {
    /// The layout of the providers tab's open provider dropdown over `chunks` (the areas of
    /// the tab's rows): the default provider's below row 0, the small model's provider's
    /// below row 2, listing the enabled providers with the current one highlighted; `None`
    /// when no provider dropdown is open.
    pub fn providers_dropdown_layout(&self, chunks: &Vec<Rect>) -> (r: Option<DropdownLayout>)
        requires
            self.providers_dropdown_open == Some(ProvidersDropdown::DefaultProvider)
                ==> chunks@.len() >= 1 && fits_below(chunks@[0], self.enabled_names().len()),
            self.providers_dropdown_open == Some(ProvidersDropdown::SmallProvider)
                ==> chunks@.len() >= 3 && fits_below(chunks@[2], self.enabled_names().len()),
        ensures
            match self.providers_dropdown_open {
                Some(ProvidersDropdown::DefaultProvider) => r matches Some(l)
                    && list_below_spec(chunks@[0], self.enabled_names().map_values(|s: String| s@), self.default_provider@, self.dropdown_scroll_offset as nat, l),
                Some(ProvidersDropdown::SmallProvider) => r matches Some(l)
                    && list_below_spec(chunks@[2], self.enabled_names().map_values(|s: String| s@), pair_provider(self.small_model@), self.dropdown_scroll_offset as nat, l),
                _ => r is None,
            },
    {
        match self.providers_dropdown_open {
            Some(ProvidersDropdown::DefaultProvider) => {
                let names = self.all_enabled_provider_names();
                proof {
                    assert(strs_view(names@) =~= self.enabled_names().map_values(|s: String| s@));
                }
                Some(list_below(chunks[0], &names, self.default_provider.as_str(), self.dropdown_scroll_offset))
            },
            Some(ProvidersDropdown::SmallProvider) => {
                let names = self.all_enabled_provider_names();
                let current = self.small_model_provider();
                proof {
                    assert(strs_view(names@) =~= self.enabled_names().map_values(|s: String| s@));
                }
                Some(list_below(chunks[2], &names, current.as_str(), self.dropdown_scroll_offset))
            },
            _ => None,
        }
    }
}

} // verus!
