//! Layout of the chat input box: wrapping the typed text into rows, keeping the cursor in
//! view, and sizing the box; with the small text helpers of the chat view.
use vstd::prelude::*;
use crate::text::{chars_of, string_from_chars, push_char};
use crate::unicode::{str_display_width, str_width};
use crate::geometry::{Rect, rect_new, sat_add16, sat_sub16};

verus! {

/// Rows of space around the input box.
pub const INPUT_MARGIN_VERTICAL: u16 = 1;

/// Columns of space on each side of the input box.
pub const INPUT_MARGIN_HORIZONTAL: u16 = 2;

/// How the typed text is laid out in the input box.
#[derive(Debug, Clone, PartialEq, Eq)]
pub struct InputLayout {
    /// The rows shown, from `scroll` on.
    pub visible_lines: Vec<String>,
    /// For each row, the character range of the text it shows.
    pub line_ranges: Vec<(usize, usize)>,
    /// The first row shown.
    pub scroll: usize,
    /// The cursor's column in its row.
    pub cursor_x: u16,
    /// The cursor's row among the rows shown.
    pub cursor_y: u16,
    /// The number of rows in all.
    pub total_lines: usize,
    /// Whether there are more rows than fit.
    pub show_scrollbar: bool,
}

/// The abstract form of an input layout.
pub struct InputLayoutView {
    pub visible_lines: Seq<Seq<char>>,
    pub line_ranges: Seq<(nat, nat)>,
    pub scroll: nat,
    pub cursor_x: u16,
    pub cursor_y: u16,
    pub total_lines: nat,
    pub show_scrollbar: bool,
}

/// The abstract form of a sequence of strings.
pub open spec fn strs_view(v: Seq<String>) -> Seq<Seq<char>> {
    v.map_values(|s: String| s@)
}

/// The abstract form of a sequence of ranges.
pub open spec fn ranges_view(v: Seq<(usize, usize)>) -> Seq<(nat, nat)> {
    v.map_values(|r: (usize, usize)| (r.0 as nat, r.1 as nat))
}

/// The abstract form of an input layout.
pub open spec fn layout_view(l: InputLayout) -> InputLayoutView {
    InputLayoutView {
        visible_lines: strs_view(l.visible_lines@),
        line_ranges: ranges_view(l.line_ranges@),
        scroll: l.scroll as nat,
        cursor_x: l.cursor_x,
        cursor_y: l.cursor_y,
        total_lines: l.total_lines as nat,
        show_scrollbar: l.show_scrollbar,
    }
}

/// The rows of `cs[idx..]` and their ranges, after `lines`/`ranges` and with the row under
/// way holding `current` from `start`, `column` characters wide: a newline ends a row, and a
/// row is full at `width` characters.
pub open spec fn split_rows(
    cs: Seq<char>,
    idx: nat,
    width: nat,
    lines: Seq<Seq<char>>,
    ranges: Seq<(nat, nat)>,
    current: Seq<char>,
    start: nat,
    column: nat,
) -> (Seq<Seq<char>>, Seq<(nat, nat)>)
    decreases cs.len() - idx,
{
    if idx >= cs.len() {
        (lines.push(current), ranges.push((start, cs.len())))
    } else if cs[idx as int] == '\n' {
        split_rows(cs, idx + 1, width, lines.push(current), ranges.push((start, idx)), Seq::empty(), idx + 1, 0)
    } else if column >= width {
        split_rows(cs, idx + 1, width, lines.push(current), ranges.push((start, idx)), seq![cs[idx as int]], idx, 1)
    } else {
        split_rows(cs, idx + 1, width, lines, ranges, current.push(cs[idx as int]), start, column + 1)
    }
}

/// The rows of a text at `width` characters, with their ranges.
pub open spec fn input_rows(cs: Seq<char>, width: nat) -> (Seq<Seq<char>>, Seq<(nat, nat)>) {
    split_rows(cs, 0, width, Seq::empty(), Seq::empty(), Seq::empty(), 0, 0)
}

/// The first row from `j` on whose range ends after `cursor`, or the last row.
pub open spec fn cursor_row_from(ranges: Seq<(nat, nat)>, cursor: nat, j: nat) -> nat
    decreases ranges.len() - j,
{
    if j >= ranges.len() {
        if ranges.len() > 0 { (ranges.len() - 1) as nat } else { 0 }
    } else if cursor < ranges[j as int].1 {
        j
    } else {
        cursor_row_from(ranges, cursor, j + 1)
    }
}

/// The text shown in an empty input box.
pub open spec fn placeholder_text(show: bool) -> Seq<char> {
    if show { "Type your message..."@ } else { Seq::empty() }
}

/// `a - b`, or 0 when `b` is larger.
pub open spec fn minus(a: nat, b: nat) -> nat {
    if a >= b { (a - b) as nat } else { 0 }
}

/// The smaller of two numbers.
pub open spec fn min_nat(a: nat, b: nat) -> nat {
    if a <= b { a } else { b }
}

/// The first row shown: the requested scroll, no further than the last screenful, moved just
/// enough to show the cursor's row.
pub open spec fn scroll_for(scroll: nat, total: nat, viewport: nat, cursor_row: nat) -> nat {
    let s0 = min_nat(scroll, minus(total, viewport));
    let s1 = if cursor_row < s0 { cursor_row } else { s0 };
    if cursor_row >= s1 + viewport { (cursor_row + 1 - viewport) as nat } else { s1 }
}

/// The layout of `content` in a box of `width` columns and `viewport` rows, with the cursor
/// at character `cursor` and the view scrolled to row `scroll`.
pub open spec fn input_layout_spec(content: Seq<char>, cursor: nat, scroll: nat, width: nat, viewport: nat, show_placeholder: bool) -> InputLayoutView {
    if width == 0 || viewport == 0 {
        InputLayoutView {
            visible_lines: Seq::empty(),
            line_ranges: Seq::empty(),
            scroll,
            cursor_x: 0,
            cursor_y: 0,
            total_lines: 0,
            show_scrollbar: false,
        }
    } else if content.len() == 0 {
        let p = placeholder_text(show_placeholder);
        InputLayoutView {
            visible_lines: seq![p.take(min_nat(width, p.len()) as int)],
            line_ranges: seq![(0nat, 0nat)],
            scroll: 0,
            cursor_x: 0,
            cursor_y: 0,
            total_lines: 1,
            show_scrollbar: false,
        }
    } else {
        text_layout_spec(content, cursor, scroll, width, viewport)
    }
}

/// The layout of a non-empty text (see `input_layout_spec`).
pub open spec fn text_layout_spec(content: Seq<char>, cursor: nat, scroll: nat, width: nat, viewport: nat) -> InputLayoutView {
    let (lines, ranges) = input_rows(content, width);
    let c = min_nat(cursor, content.len());
    let row = cursor_row_from(ranges, c, 0);
    let s = scroll_for(scroll, lines.len(), viewport, row);
    InputLayoutView {
        visible_lines: lines.subrange(s as int, min_nat(s + viewport, lines.len()) as int),
        line_ranges: ranges,
        scroll: s,
        cursor_x: min_nat(minus(c, ranges[row as int].0), width) as u16,
        cursor_y: minus(row, s) as u16,
        total_lines: lines.len(),
        show_scrollbar: lines.len() > viewport,
    }
}

proof fn lemma_split_rows(
    cs: Seq<char>,
    idx: nat,
    width: nat,
    lines: Seq<Seq<char>>,
    ranges: Seq<(nat, nat)>,
    current: Seq<char>,
    start: nat,
    column: nat,
)
    requires
        idx <= cs.len(),
        lines.len() == ranges.len(),
        width > 0,
        current.len() == column,
        column <= width,
        forall|k: int| 0 <= k < lines.len() ==> #[trigger] lines[k].len() <= width,
    ensures
        split_rows(cs, idx, width, lines, ranges, current, start, column).0.len()
            == split_rows(cs, idx, width, lines, ranges, current, start, column).1.len(),
        split_rows(cs, idx, width, lines, ranges, current, start, column).0.len() > lines.len(),
        forall|k: int| 0 <= k < split_rows(cs, idx, width, lines, ranges, current, start, column).0.len()
            ==> #[trigger] split_rows(cs, idx, width, lines, ranges, current, start, column).0[k].len() <= width,
        split_rows(cs, idx, width, lines, ranges, current, start, column).1.last().1 == cs.len(),
    decreases cs.len() - idx,
{
    if idx >= cs.len() {
    } else if cs[idx as int] == '\n' {
        lemma_split_rows(cs, idx + 1, width, lines.push(current), ranges.push((start, idx)), Seq::empty(), idx + 1, 0);
    } else if column >= width {
        lemma_split_rows(cs, idx + 1, width, lines.push(current), ranges.push((start, idx)), seq![cs[idx as int]], idx, 1);
    } else {
        lemma_split_rows(cs, idx + 1, width, lines, ranges, current.push(cs[idx as int]), start, column + 1);
    }
}

proof fn lemma_cursor_row(ranges: Seq<(nat, nat)>, cursor: nat, j: nat)
    requires
        ranges.len() > 0,
    ensures
        cursor_row_from(ranges, cursor, j) < ranges.len(),
    decreases ranges.len() - j,
{
    if j < ranges.len() && !(cursor < ranges[j as int].1) {
        lemma_cursor_row(ranges, cursor, j + 1);
    }
}

/// The input box keeps the cursor in view: the rows shown fit the box, the cursor's row is
/// among them, and no row is wider than the box.
pub proof fn law_input_cursor_visible(content: Seq<char>, cursor: nat, scroll: nat, width: nat, viewport: nat, show_placeholder: bool)
    requires
        width > 0,
        viewport > 0,
        viewport <= u16::MAX,
    ensures
        ({
            let l = input_layout_spec(content, cursor, scroll, width, viewport, show_placeholder);
            &&& 1 <= l.visible_lines.len() <= viewport
            &&& (l.cursor_y as nat) < l.visible_lines.len()
            &&& l.line_ranges.len() == l.total_lines
            &&& forall|k: int| 0 <= k < l.visible_lines.len() ==> #[trigger] l.visible_lines[k].len() <= width
        }),
{
    if content.len() > 0 {
        lemma_split_rows(content, 0, width, Seq::empty(), Seq::empty(), Seq::empty(), 0, 0);
        let (lines, ranges) = input_rows(content, width);
        let c = min_nat(cursor, content.len());
        lemma_cursor_row(ranges, c, 0);
        let row = cursor_row_from(ranges, c, 0);
        let s = scroll_for(scroll, lines.len(), viewport, row);
        let l = input_layout_spec(content, cursor, scroll, width, viewport, show_placeholder);
        assert(l == text_layout_spec(content, cursor, scroll, width, viewport));
        assert(minus(row, s) < viewport);
        assert forall|k: int| 0 <= k < l.visible_lines.len() implies #[trigger] l.visible_lines[k].len() <= width by {
            assert(l.visible_lines[k] == lines[s + k]);
        }
    }
}

/// The layout of an empty input box: the placeholder cut to the width.
fn placeholder_layout(width: usize, show_placeholder: bool) -> (r: InputLayout)
    ensures
        layout_view(r) == (InputLayoutView {
            visible_lines: seq![placeholder_text(show_placeholder).take(min_nat(width as nat, placeholder_text(show_placeholder).len()) as int)],
            line_ranges: seq![(0nat, 0nat)],
            scroll: 0,
            cursor_x: 0,
            cursor_y: 0,
            total_lines: 1,
            show_scrollbar: false,
        }),
{
    let placeholder = if show_placeholder { "Type your message..." } else { "" };
    let p = chars_of(placeholder);
    proof {
        reveal_strlit("");
        assert(p@ == placeholder_text(show_placeholder));
    }
    let n = if width <= p.len() { width } else { p.len() };
    let shown = crate::text::sub_chars(p.as_slice(), 0, n);
    let line = string_from_chars(shown.as_slice());
    let mut visible: Vec<String> = Vec::new();
    visible.push(line);
    let mut ranges: Vec<(usize, usize)> = Vec::new();
    ranges.push((0, 0));
    let r = InputLayout {
        visible_lines: visible,
        line_ranges: ranges,
        scroll: 0,
        cursor_x: 0,
        cursor_y: 0,
        total_lines: 1,
        show_scrollbar: false,
    };
    proof {
        assert(line@ =~= placeholder_text(show_placeholder).take(n as int));
        assert(strs_view(r.visible_lines@) =~= seq![line@]);
        assert(ranges_view(r.line_ranges@) =~= seq![(0nat, 0nat)]);
    }
    r
}

/// The rows of a non-empty text at `width` characters, with their ranges.
fn split_input_rows(chars: &Vec<char>, width: usize) -> (r: (Vec<String>, Vec<(usize, usize)>))
    requires
        width > 0,
    ensures
        strs_view(r.0@) == input_rows(chars@, width as nat).0,
        ranges_view(r.1@) == input_rows(chars@, width as nat).1,
{
    let ghost cs = chars@;
    let mut lines: Vec<String> = Vec::new();
    let mut ranges: Vec<(usize, usize)> = Vec::new();
    let mut current: Vec<char> = Vec::new();
    let mut start: usize = 0;
    let mut column: usize = 0;
    let mut idx: usize = 0;
    proof {
        assert(strs_view(lines@) =~= Seq::<Seq<char>>::empty());
        assert(ranges_view(ranges@) =~= Seq::<(nat, nat)>::empty());
    }
    while idx < chars.len()
        invariant
            idx <= chars.len(),
            cs == chars@,
            width > 0,
            start <= idx,
            split_rows(cs, idx as nat, width as nat, strs_view(lines@), ranges_view(ranges@), current@, start as nat, column as nat)
                == input_rows(cs, width as nat),
        decreases chars.len() - idx,
    {
        let ch = chars[idx];
        let ghost lv = strs_view(lines@);
        let ghost rv = ranges_view(ranges@);
        if ch == '\n' || column >= width {
            lines.push(string_from_chars(current.as_slice()));
            ranges.push((start, idx));
            proof {
                assert(strs_view(lines@) =~= lv.push(current@));
                assert(ranges_view(ranges@) =~= rv.push((start as nat, idx as nat)));
            }
            current = Vec::new();
            if ch == '\n' {
                start = idx + 1;
                column = 0;
            } else {
                current.push(ch);
                start = idx;
                column = 1;
            }
            proof {
                if ch == '\n' {
                    assert(current@ =~= Seq::<char>::empty());
                } else {
                    assert(current@ =~= seq![ch]);
                }
            }
        } else {
            current.push(ch);
            column = column + 1;
        }
        idx = idx + 1;
    }
    let ghost lv = strs_view(lines@);
    let ghost rv = ranges_view(ranges@);
    lines.push(string_from_chars(current.as_slice()));
    ranges.push((start, chars.len()));
    proof {
        assert(strs_view(lines@) =~= lv.push(current@));
        assert(ranges_view(ranges@) =~= rv.push((start as nat, chars.len() as nat)));
    }
    (lines, ranges)
}

/// Copies of `lines[from..to]`.
fn slice_lines(lines: &Vec<String>, from: usize, to: usize) -> (r: Vec<String>)
    requires
        from <= to <= lines.len(),
    ensures
        strs_view(r@) == strs_view(lines@).subrange(from as int, to as int),
{
    let mut out: Vec<String> = Vec::new();
    let mut k: usize = from;
    while k < to
        invariant
            from <= k <= to <= lines.len(),
            strs_view(out@) == strs_view(lines@).subrange(from as int, k as int),
        decreases to - k,
    {
        let ghost before = out@;
        out.push(lines[k].clone());
        proof {
            assert(strs_view(out@) =~= strs_view(before).push(lines@[k as int]@));
            assert(strs_view(out@) =~= strs_view(lines@).subrange(from as int, k as int + 1));
        }
        k = k + 1;
    }
    out
}

/// The row holding the cursor: the first whose range ends after it, or the last row.
fn cursor_row(ranges: &Vec<(usize, usize)>, cursor: usize) -> (r: usize)
    requires
        ranges.len() > 0,
    ensures
        r == cursor_row_from(ranges_view(ranges@), cursor as nat, 0),
        r < ranges.len(),
{
    let ghost rv = ranges_view(ranges@);
    let mut row: usize = 0;
    while row < ranges.len() && !(cursor < ranges[row].1)
        invariant
            row <= ranges.len(),
            rv == ranges_view(ranges@),
            cursor_row_from(rv, cursor as nat, row as nat) == cursor_row_from(rv, cursor as nat, 0),
        decreases ranges.len() - row,
    {
        row = row + 1;
    }
    proof {
        lemma_cursor_row(rv, cursor as nat, 0);
    }
    if row >= ranges.len() {
        ranges.len() - 1
    } else {
        row
    }
}

/// The first row shown (see `scroll_for`).
fn scroll_to(scroll: usize, total: usize, viewport: usize, row: usize) -> (r: usize)
    requires
        viewport > 0,
        row < total,
    ensures
        r == scroll_for(scroll as nat, total as nat, viewport as nat, row as nat),
        r <= row,
        row - r < viewport,
{
    let last_screen = if total >= viewport { total - viewport } else { 0 };
    let mut s = if scroll <= last_screen { scroll } else { last_screen };
    if row < s {
        s = row;
    }
    if row - s >= viewport {
        s = row + 1 - viewport;
    }
    s
}

/// The layout of a non-empty text (see `text_layout_spec`).
fn text_layout(chars: &Vec<char>, cursor: usize, scroll: usize, width: usize, viewport_height: usize) -> (r: InputLayout)
    requires
        chars.len() > 0,
        width > 0,
        viewport_height > 0,
    ensures
        layout_view(r) == text_layout_spec(chars@, cursor as nat, scroll as nat, width as nat, viewport_height as nat),
{
    let (lines, ranges) = split_input_rows(chars, width);
    proof {
        lemma_split_rows(chars@, 0, width as nat, Seq::empty(), Seq::empty(), Seq::empty(), 0, 0);
    }
    assert(strs_view(lines@).len() == lines.len());
    assert(ranges_view(ranges@).len() == ranges.len());
    let cursor = if cursor <= chars.len() { cursor } else { chars.len() };
    let row = cursor_row(&ranges, cursor);
    let from = ranges[row].0;
    let offset = if cursor >= from { cursor - from } else { 0 };
    let cursor_x = (if offset <= width { offset } else { width }) as u16;
    let total = lines.len();
    let scroll = scroll_to(scroll, total, viewport_height, row);
    let end = if viewport_height >= total - scroll { total } else { scroll + viewport_height };
    let visible = slice_lines(&lines, scroll, end);
    let cursor_y = (row - scroll) as u16;
    InputLayout {
        visible_lines: visible,
        line_ranges: ranges,
        scroll,
        cursor_x,
        cursor_y,
        total_lines: total,
        show_scrollbar: total > viewport_height,
    }
}

/// Lays out the typed text of the input box (see `input_layout_spec`): rows break at
/// newlines and every `width` characters; the view scrolls as little as needed to keep the
/// cursor's row visible; an empty text shows the placeholder, cut to the width.
pub fn input_layout(content: &str, cursor: usize, scroll: usize, width: usize, viewport_height: usize, show_placeholder: bool) -> (r: InputLayout)
    ensures
        layout_view(r) == input_layout_spec(content@, cursor as nat, scroll as nat, width as nat, viewport_height as nat, show_placeholder),
{
    if width == 0 || viewport_height == 0 {
        let r = InputLayout {
            visible_lines: Vec::new(),
            line_ranges: Vec::new(),
            scroll,
            cursor_x: 0,
            cursor_y: 0,
            total_lines: 0,
            show_scrollbar: false,
        };
        proof {
            assert(strs_view(r.visible_lines@) =~= Seq::<Seq<char>>::empty());
            assert(ranges_view(r.line_ranges@) =~= Seq::<(nat, nat)>::empty());
        }
        return r;
    }
    let chars = chars_of(content);
    if chars.len() == 0 {
        return placeholder_layout(width, show_placeholder);
    }
    text_layout(&chars, cursor, scroll, width, viewport_height)
}

/// The height of the input box at the bottom of a chat area of `area_width` by
/// `area_height` cells: its rows of text plus borders and margins, between 3 and half the
/// area (at least 3).
pub open spec fn bottom_input_height_spec(content: Seq<char>, cursor: nat, scroll: nat, area_width: u16, area_height: u16) -> u16 {
    let max_box: nat = if area_height / 2 >= 3 { (area_height / 2) as nat } else { 3 };
    let viewport = minus(minus(max_box, 2), 2);
    let width = minus(minus(area_width as nat, 3), 4);
    let rows = input_layout_spec(content, cursor, scroll, width, if viewport >= 1 { viewport } else { 1 }, true).visible_lines.len();
    let h = rows + 4;
    (if h < 3 { 3 } else if h > max_box { max_box } else { h }) as u16
}

/// The height of the input box centred in an empty chat: as `bottom_input_height` but for a
/// box 76% of the area wide and at least 5 rows high.
pub open spec fn centered_input_height_spec(content: Seq<char>, cursor: nat, scroll: nat, area_width: u16, area_height: u16) -> u16 {
    let box_width: nat = (if (area_width as nat) * 76 > u16::MAX { u16::MAX as nat } else { (area_width as nat) * 76 }) / 100;
    let max_box: nat = if area_height / 2 >= 5 { (area_height / 2) as nat } else { 5 };
    let viewport = minus(minus(max_box, 2), 2);
    let width = minus(minus(box_width, 3), 4);
    let rows = input_layout_spec(content, cursor, scroll, width, if viewport >= 1 { viewport } else { 1 }, true).visible_lines.len();
    let h = rows + 4;
    (if h < 5 { 5 } else if h > max_box { max_box } else { h }) as u16
}

/// The number of rows a layout shows, bounded by the viewport.
fn shown_rows(content: &str, cursor: usize, scroll: usize, width: usize, viewport: usize) -> (r: usize)
    requires
        1 <= viewport <= u16::MAX,
    ensures
        r == input_layout_spec(content@, cursor as nat, scroll as nat, width as nat, viewport as nat, true).visible_lines.len(),
        r <= viewport,
{
    let layout = input_layout(content, cursor, scroll, width, viewport, true);
    proof {
        if width > 0 {
            law_input_cursor_visible(content@, cursor as nat, scroll as nat, width as nat, viewport as nat, true);
        }
    }
    assert(strs_view(layout.visible_lines@).len() == layout.visible_lines.len());
    layout.visible_lines.len()
}

/// The height of the input box at the bottom of the chat (see `bottom_input_height_spec`).
pub fn bottom_input_height(content: &str, cursor: usize, scroll: usize, area_width: u16, area_height: u16) -> (r: u16)
    ensures
        r == bottom_input_height_spec(content@, cursor as nat, scroll as nat, area_width, area_height),
{
    let max_box: u16 = if area_height / 2 >= 3 { area_height / 2 } else { 3 };
    let margin: u16 = INPUT_MARGIN_VERTICAL * 2;
    let viewport = max_box.saturating_sub(2).saturating_sub(margin) as usize;
    let width = area_width.saturating_sub(3).saturating_sub(INPUT_MARGIN_HORIZONTAL * 2) as usize;
    let rows = shown_rows(content, cursor, scroll, width, if viewport >= 1 { viewport } else { 1 });
    let h = rows + 4;
    (if h < 3 { 3 } else if h > max_box as usize { max_box as usize } else { h }) as u16
}

/// The height of the input box centred in an empty chat (see `centered_input_height_spec`).
pub fn centered_input_height(content: &str, cursor: usize, scroll: usize, area_width: u16, area_height: u16) -> (r: u16)
    ensures
        r == centered_input_height_spec(content@, cursor as nat, scroll as nat, area_width, area_height),
{
    let scaled: u32 = area_width as u32 * 76;
    let box_width: u16 = (if scaled > 0xffff { 0xffff } else { scaled } / 100) as u16;
    let max_box: u16 = if area_height / 2 >= 5 { area_height / 2 } else { 5 };
    let margin: u16 = INPUT_MARGIN_VERTICAL * 2;
    let viewport = max_box.saturating_sub(2).saturating_sub(margin) as usize;
    let width = box_width.saturating_sub(3).saturating_sub(INPUT_MARGIN_HORIZONTAL * 2) as usize;
    let rows = shown_rows(content, cursor, scroll, width, if viewport >= 1 { viewport } else { 1 });
    let h = rows + 4;
    (if h < 5 { 5 } else if h > max_box as usize { max_box as usize } else { h }) as u16
}

/// The dots of the "working" animation: one, two, three, then none, changing every ten
/// frames.
pub open spec fn animated_dots_spec(frame_tick: u64) -> Seq<char> {
    let phase = (frame_tick / 10) % 4;
    if phase == 0 { "."@ } else if phase == 1 { ".."@ } else if phase == 2 { "..."@ } else { ""@ }
}

/// The dots of the "working" animation at a frame.
pub fn animated_dots(frame_tick: u64) -> (r: &'static str)
    ensures
        r@ == animated_dots_spec(frame_tick),
{
    match (frame_tick / 10) % 4 {
        0 => ".",
        1 => "..",
        2 => "...",
        _ => "",
    }
}

/// A label of at most `max_chars` characters: unchanged when short enough, otherwise its
/// first `max_chars - 1` characters and a `~`.
pub open spec fn clipped_label_spec(label: Seq<char>, max_chars: nat) -> Seq<char> {
    if label.len() <= max_chars { label } else { label.take(minus(max_chars, 1) as int).push('~') }
}

/// Clips a label to `max_chars` characters, marking a cut with `~`.
pub fn clipped_label(label: &str, max_chars: usize) -> (r: String)
    ensures
        r@ == clipped_label_spec(label@, max_chars as nat),
{
    let chars = chars_of(label);
    if chars.len() <= max_chars {
        return string_from_chars(chars.as_slice());
    }
    let keep = if max_chars >= 1 { max_chars - 1 } else { 0 };
    let mut clipped = string_from_chars(crate::text::sub_chars(chars.as_slice(), 0, keep).as_slice());
    push_char(&mut clipped, '~');
    proof {
        assert(chars@.subrange(0, keep as int) =~= chars@.take(keep as int));
    }
    clipped
}

/// The widest display width among `labels[i..]`, or `acc` if wider.
pub open spec fn widest_from(labels: Seq<String>, i: nat, acc: nat) -> nat
    decreases labels.len() - i,
{
    if i >= labels.len() {
        acc
    } else {
        let w = str_display_width(labels[i as int]@) as nat;
        widest_from(labels, i + 1, if w > acc { w } else { acc })
    }
}

/// The width of a dropdown listing `labels`: the widest label (or 1 with no labels), at
/// least `min_chars` and at least 1, truncated to 16 bits, plus two border cells and the
/// scrollbar.
pub open spec fn dropdown_width_spec(labels: Seq<String>, min_chars: nat, scrollbar_width: u16) -> int {
    let widest = if labels.len() == 0 { 1 } else { widest_from(labels, 1, str_display_width(labels[0]@) as nat) };
    let content: nat = if widest >= min_chars { widest } else { min_chars };
    let content1: nat = if content >= 1 { content } else { 1 };
    (content1 as u16) + 2 + scrollbar_width
}

/// The content width of a dropdown: the widest label (1 with no labels), at least
/// `min_chars` and at least 1, truncated to 16 bits.
fn label_content_width(labels: &[String], min_chars: usize) -> (r: u16)
    ensures
        r as int + 2 == dropdown_width_spec(labels@, min_chars as nat, 0),
{
    let mut widest: usize = 1;
    if labels.len() > 0 {
        widest = str_width(labels[0].as_str());
        let mut i: usize = 1;
        while i < labels.len()
            invariant
                1 <= i <= labels.len(),
                widest_from(labels@, i as nat, widest as nat) == widest_from(labels@, 1, str_display_width(labels@[0]@) as nat),
            decreases labels.len() - i,
        {
            let w = str_width(labels[i].as_str());
            if w > widest {
                widest = w;
            }
            i = i + 1;
        }
    }
    let content = if widest >= min_chars { widest } else { min_chars };
    let content = if content >= 1 { content } else { 1 };
    content as u16
}

/// The width of a dropdown listing `labels` (see `dropdown_width_spec`); the sum must fit in
/// 16 bits.
pub fn dropdown_width_for(labels: &[String], min_chars: usize, scrollbar_width: u16) -> (r: u16)
    requires
        dropdown_width_spec(labels@, min_chars as nat, scrollbar_width) <= u16::MAX,
    ensures
        r == dropdown_width_spec(labels@, min_chars as nat, scrollbar_width),
{
    label_content_width(labels, min_chars) + 2 + scrollbar_width
}

/// The width of a dropdown listing `labels`, or `None` when it does not fit in 16 bits.
pub fn checked_dropdown_width(labels: &[String], min_chars: usize, scrollbar_width: u16) -> (r: Option<u16>)
    ensures
        match r {
            Some(w) => w == dropdown_width_spec(labels@, min_chars as nat, scrollbar_width),
            None => dropdown_width_spec(labels@, min_chars as nat, scrollbar_width) > u16::MAX,
        },
{
    let content = label_content_width(labels, min_chars);
    if content as u32 + 2 + scrollbar_width as u32 > 0xffff {
        None
    } else {
        Some(dropdown_width_for(labels, min_chars, scrollbar_width))
    }
}

/// The input box inside its area: the margins taken off each side, or an empty rectangle
/// at the origin when the area is too small for them.
pub open spec fn input_box_area_spec(area: Rect) -> Rect {
    if area.width < 4 || area.height < 2 {
        Rect { x: 0, y: 0, width: 0, height: 0 }
    } else {
        Rect { x: sat_add16(area.x, 2), y: sat_add16(area.y, 1), width: (area.width - 4) as u16, height: (area.height - 2) as u16 }
    }
}

/// The input box inside its area (see `input_box_area_spec`).
pub fn input_box_area(area: Rect) -> (r: Rect)
    ensures
        r == input_box_area_spec(area),
{
    if area.width < INPUT_MARGIN_HORIZONTAL * 2 || area.height < INPUT_MARGIN_VERTICAL * 2 {
        Rect { x: 0, y: 0, width: 0, height: 0 }
    } else {
        Rect {
            x: area.x.saturating_add(INPUT_MARGIN_HORIZONTAL),
            y: area.y.saturating_add(INPUT_MARGIN_VERTICAL),
            width: area.width - INPUT_MARGIN_HORIZONTAL * 2,
            height: area.height - INPUT_MARGIN_VERTICAL * 2,
        }
    }
}

/// The transcript area of the chat: one column in from the left, two columns narrower and
/// one row shorter.
pub open spec fn chat_messages_area_spec(area: Rect) -> Rect {
    rect_new(sat_add16(area.x, 1), area.y, sat_sub16(area.width, 2), sat_sub16(area.height, 1))
}

/// The transcript area of the chat (see `chat_messages_area_spec`).
pub fn chat_messages_area(area: Rect) -> (r: Rect)
    ensures
        r == chat_messages_area_spec(area),
{
    Rect::new(area.x.saturating_add(1), area.y, area.width.saturating_sub(2), area.height.saturating_sub(1))
}

} // verus!
