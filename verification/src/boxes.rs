//! The boxed transcript lines of the chat view: a box's title row, its content rows padded
//! for alignment and clipped to the box, and its closing row.
use vstd::prelude::*;
use crate::geometry::Rect;
use crate::inline::{StyledRun, RunView, run_view, runs_view, cell_width, clone_link};
use crate::terminal::{TermColor, TermStyle};
use crate::text::{chars_of, push_char, string_from_chars};
use crate::unicode::{char_width, str_display_width, str_width};

verus! {

/// Horizontal alignment of a line.
#[derive(Debug, Clone, Copy, PartialEq, Eq, Structural)]
pub enum Alignment {
    Left,
    Center,
    Right,
}

/// A line of styled runs with an optional alignment and a style for the whole line.
#[derive(Debug, Clone)]
pub struct BoxLine {
    pub runs: Vec<StyledRun>,
    pub alignment: Option<Alignment>,
    pub style: TermStyle,
}

/// The display width of runs `runs[i..]`.
pub open spec fn runs_cells(runs: Seq<RunView>, i: nat) -> nat
    decreases runs.len() - i,
{
    if i >= runs.len() { 0 } else { str_display_width(runs[i as int].text) as nat + runs_cells(runs, i + 1) }
}

/// The display width of a line: the widths of its runs added up.
pub open spec fn line_cells(line: BoxLine) -> nat {
    runs_cells(runs_view(line.runs@), 0)
}

/// The display width of a line, which must fit in a `usize`.
pub fn line_width(line: &BoxLine) -> (r: usize)
    requires
        line_cells(*line) <= usize::MAX,
    ensures
        r == line_cells(*line),
{
    let ghost rv = runs_view(line.runs@);
    let mut total: usize = 0;
    let mut i: usize = 0;
    while i < line.runs.len()
        invariant
            i <= line.runs.len(),
            rv == runs_view(line.runs@),
            total + runs_cells(rv, i as nat) == runs_cells(rv, 0),
            runs_cells(rv, 0) <= usize::MAX,
        decreases line.runs.len() - i,
    {
        proof {
            assert(rv[i as int] == run_view(line.runs@[i as int]));
        }
        let w = str_width(line.runs[i].text.as_str());
        total = total + w;
        i = i + 1;
    }
    total
}

/// The padding before a text of `text_width` cells in `width` cells: none for left, half the
/// spare room (rounded down) for centre, all of it for right.
pub open spec fn alignment_padding_spec(width: nat, text_width: nat, alignment: Alignment) -> nat {
    let tw = if text_width <= width { text_width } else { width };
    let spare = (width - tw) as nat;
    match alignment {
        Alignment::Left => 0,
        Alignment::Center => spare / 2,
        Alignment::Right => spare,
    }
}

/// The padding before a text of `text_width` cells aligned in `width` cells.
pub fn alignment_padding_for(width: usize, text_width: usize, alignment: Alignment) -> (r: usize)
    ensures
        r == alignment_padding_spec(width as nat, text_width as nat, alignment),
        r <= width,
{
    let tw = if text_width <= width { text_width } else { width };
    let spare = width - tw;
    match alignment {
        Alignment::Left => 0,
        Alignment::Center => spare / 2,
        Alignment::Right => spare,
    }
}

/// The padding on each side of runs of `runs` cells aligned by `alignment` in `width`
/// cells: the left from the alignment (left when unset), the right the rest of the spare
/// room.
pub open spec fn padding_of(width: nat, cells: nat, alignment: Option<Alignment>) -> (nat, nat) {
    let left = alignment_padding_spec(width, cells, match alignment { Some(a) => a, None => Alignment::Left });
    let spare = (width - (if cells <= width { cells } else { width })) as nat;
    (left, if spare >= left { (spare - left) as nat } else { 0 })
}

/// The padding on each side of a line in `width` cells.
pub open spec fn content_padding_spec(width: nat, line: BoxLine) -> (nat, nat) {
    padding_of(width, line_cells(line), line.alignment)
}

/// The display width of runs, but at most `cap`.
pub fn runs_width_capped(runs: &Vec<StyledRun>, cap: usize) -> (r: usize)
    ensures
        r == (if runs_cells(runs_view(runs@), 0) <= cap { runs_cells(runs_view(runs@), 0) } else { cap as nat }),
{
    let ghost rv = runs_view(runs@);
    let mut total: usize = 0;
    let mut i: usize = 0;
    while i < runs.len()
        invariant
            i <= runs.len(),
            rv == runs_view(runs@),
            total <= cap,
            runs_cells(rv, i as nat) <= runs_cells(rv, 0),
            total == (if runs_cells(rv, 0) - runs_cells(rv, i as nat) <= cap { runs_cells(rv, 0) - runs_cells(rv, i as nat) } else { cap as int }),
        decreases runs.len() - i,
    {
        proof {
            assert(rv[i as int] == run_view(runs@[i as int]));
        }
        let w = str_width(runs[i].text.as_str());
        total = if w >= cap - total { cap } else { total + w };
        i = i + 1;
    }
    total
}

/// The display width of a line, but at most `cap`.
pub fn line_width_capped(line: &BoxLine, cap: usize) -> (r: usize)
    ensures
        r == (if line_cells(*line) <= cap { line_cells(*line) } else { cap as nat }),
{
    runs_width_capped(&line.runs, cap)
}

/// The padding on each side of a line in `width` cells.
pub fn content_padding(width: usize, line: &BoxLine) -> (r: (usize, usize))
    ensures
        r.0 == content_padding_spec(width as nat, *line).0,
        r.1 == content_padding_spec(width as nat, *line).1,
        r.0 + r.1 <= width,
{
    let tw = line_width_capped(line, width);
    let alignment = match line.alignment {
        Some(a) => a,
        None => Alignment::Left,
    };
    let left = alignment_padding_for(width, tw, alignment);
    let spare = width - tw;
    (left, if spare >= left { spare - left } else { 0 })
}

/// The column a line starts at in `area`, after its alignment padding.
pub open spec fn aligned_line_x_spec(area: Rect, line: BoxLine) -> int {
    let w = (line_cells(line) as u16) as int;
    let spare: int = if area.width >= w { area.width - w } else { 0 };
    area.x + match line.alignment {
        Some(Alignment::Center) => spare / 2,
        Some(Alignment::Right) => spare,
        _ => 0,
    }
}

/// The column a line starts at in `area`, its width truncated to 16 bits as the layout
/// reads it; the column must fit in 16 bits.
pub fn aligned_line_x(area: Rect, line: &BoxLine) -> (r: u16)
    requires
        line_cells(*line) <= usize::MAX,
        aligned_line_x_spec(area, *line) <= u16::MAX,
    ensures
        r == aligned_line_x_spec(area, *line),
{
    let w = line_width(line) as u16;
    let spare = area.width.saturating_sub(w);
    area.x + match line.alignment {
        Some(Alignment::Center) => spare / 2,
        Some(Alignment::Right) => spare,
        _ => 0,
    }
}

/// `n` spaces.
pub open spec fn spaces(n: nat) -> Seq<char> {
    Seq::new(n, |_i: int| ' ')
}

/// `n` spaces as a string.
fn space_string(n: usize) -> (r: String)
    ensures
        r@ == spaces(n as nat),
{
    let mut s = String::new();
    let mut i: usize = 0;
    while i < n
        invariant
            i <= n,
            s@ == spaces(i as nat),
        decreases n - i,
    {
        push_char(&mut s, ' ');
        i = i + 1;
        assert(s@ =~= spaces(i as nat));
    }
    s
}

/// A run of spaces without a link.
pub open spec fn fill_run(n: nat, style: TermStyle) -> RunView {
    RunView { text: spaces(n), style, link: None }
}

/// The abstract form of a boxed line: its runs and its style.
pub struct BoxLineView {
    pub runs: Seq<RunView>,
    pub alignment: Option<Alignment>,
    pub style: TermStyle,
}

/// The abstract form of a boxed line.
pub open spec fn box_line_view(l: BoxLine) -> BoxLineView {
    BoxLineView { runs: runs_view(l.runs@), alignment: l.alignment, style: l.style }
}

/// The longest prefix of `title` (cut a character at a time from the end) that fits in
/// `max` cells, by the display width of what remains.
pub open spec fn fitted_title(title: Seq<char>, max: nat) -> Seq<char>
    decreases title.len(),
{
    if title.len() == 0 || str_display_width(title) as nat <= max { title } else { fitted_title(title.drop_last(), max) }
}

/// The title row of a box `width` cells wide after `inset` cells: the title between spaces,
/// cut to fit, then spaces to the edge; a box narrower than two cells shows only the inset.
pub open spec fn box_top_spec(inset: nat, width: nat, title: Seq<char>, title_style: TermStyle, fill: TermStyle) -> BoxLineView {
    if width < 2 {
        BoxLineView { runs: seq![fill_run(inset, fill)], alignment: None, style: fill }
    } else {
        let inner = (width - 2) as nat;
        let t = fitted_title(" "@ + title + " "@, inner);
        let tw = str_display_width(t) as nat;
        BoxLineView {
            alignment: None,
            runs: seq![
                fill_run(inset, fill),
                fill_run(1, fill),
                RunView { text: t, style: title_style, link: None },
                fill_run(if inner >= tw { (inner - tw) as nat } else { 0 }, fill),
                fill_run(1, fill),
            ],
            style: fill,
        }
    }
}

/// The title row of a box (see `box_top_spec`).
pub fn box_top_line(inset: usize, width: usize, title: &str, title_style: TermStyle, fill_style: TermStyle) -> (r: BoxLine)
    ensures
        box_line_view(r) == box_top_spec(inset as nat, width as nat, title@, title_style, fill_style),
        r.alignment is None,
{
    if width < 2 {
        let runs = vec![StyledRun { text: space_string(inset), style: fill_style, link: None }];
        let r = BoxLine { runs, alignment: None, style: fill_style };
        proof {
            assert(runs_view(r.runs@) =~= seq![fill_run(inset as nat, fill_style)]);
        }
        return r;
    }
    let inner = width - 2;
    let mut text: Vec<char> = Vec::new();
    text.push(' ');
    let tc = chars_of(title);
    let mut i: usize = 0;
    while i < tc.len()
        invariant
            i <= tc.len(),
            tc@ == title@,
            text@ == seq![' '] + tc@.take(i as int),
        decreases tc.len() - i,
    {
        text.push(tc[i]);
        i = i + 1;
        assert(text@ =~= seq![' '] + tc@.take(i as int));
    }
    text.push(' ');
    proof {
        reveal_strlit(" ");
        assert(tc@.take(tc.len() as int) =~= tc@);
        assert(text@ =~= " "@ + title@ + " "@);
    }
    let ghost full = text@;
    let mut shown = string_from_chars(text.as_slice());
    loop
        invariant
            shown@ == text@,
            fitted_title(text@, inner as nat) == fitted_title(full, inner as nat),
        ensures
            shown@ == text@,
            text@ == fitted_title(full, inner as nat),
        decreases text.len(),
    {
        if text.len() == 0 || str_width(shown.as_str()) <= inner {
            break;
        }
        text.pop();
        shown = string_from_chars(text.as_slice());
    }
    let tw = str_width(shown.as_str());
    let rule = if inner >= tw { inner - tw } else { 0 };
    let runs = vec![
        StyledRun { text: space_string(inset), style: fill_style, link: None },
        StyledRun { text: space_string(1), style: fill_style, link: None },
        StyledRun { text: shown, style: title_style, link: None },
        StyledRun { text: space_string(rule), style: fill_style, link: None },
        StyledRun { text: space_string(1), style: fill_style, link: None },
    ];
    let r = BoxLine { runs, alignment: None, style: fill_style };
    proof {
        assert(runs_view(r.runs@) =~= box_top_spec(inset as nat, width as nat, title@, title_style, fill_style).runs);
    }
    r
}

/// The closing row of a box: spaces across its width after the inset; a box narrower than
/// two cells shows only the inset.
pub open spec fn box_bottom_spec(inset: nat, width: nat, fill: TermStyle) -> BoxLineView {
    if width < 2 {
        BoxLineView { runs: seq![fill_run(inset, fill)], alignment: None, style: fill }
    } else {
        BoxLineView {
            alignment: None,
            runs: seq![fill_run(inset, fill), fill_run(1, fill), fill_run((width - 2) as nat, fill), fill_run(1, fill)],
            style: fill,
        }
    }
}

/// The closing row of a box (see `box_bottom_spec`).
pub fn box_bottom_line(inset: usize, width: usize, fill_style: TermStyle) -> (r: BoxLine)
    ensures
        box_line_view(r) == box_bottom_spec(inset as nat, width as nat, fill_style),
        r.alignment is None,
{
    if width < 2 {
        let r = BoxLine { runs: vec![StyledRun { text: space_string(inset), style: fill_style, link: None }], alignment: None, style: fill_style };
        proof {
            assert(runs_view(r.runs@) =~= seq![fill_run(inset as nat, fill_style)]);
        }
        return r;
    }
    let runs = vec![
        StyledRun { text: space_string(inset), style: fill_style, link: None },
        StyledRun { text: space_string(1), style: fill_style, link: None },
        StyledRun { text: space_string(width - 2), style: fill_style, link: None },
        StyledRun { text: space_string(1), style: fill_style, link: None },
    ];
    let r = BoxLine { runs, alignment: None, style: fill_style };
    proof {
        assert(runs_view(r.runs@) =~= box_bottom_spec(inset as nat, width as nat, fill_style).runs);
    }
    r
}

/// The characters of `cs[i..]` kept within `remaining` cells, after `acc`: they are taken in
/// order until one is wider than what is left, which ends the clipping with no room left.
pub open spec fn clip_chars(cs: Seq<char>, i: nat, remaining: nat, acc: Seq<char>) -> (Seq<char>, nat)
    decreases cs.len() - i,
{
    if i >= cs.len() {
        (acc, remaining)
    } else if cell_width(cs[i as int]) > remaining {
        (acc, 0)
    } else {
        clip_chars(cs, i + 1, (remaining - cell_width(cs[i as int])) as nat, acc.push(cs[i as int]))
    }
}

/// `s` drawn on the background `bg`.
pub open spec fn on_background(s: TermStyle, bg: TermColor) -> TermStyle {
    TermStyle { fg: s.fg, bg: Some(bg), bold: s.bold, italic: s.italic, underlined: s.underlined, crossed_out: s.crossed_out }
}

/// The runs `runs[k..]` clipped to `remaining` cells, each kept part on the background `bg`;
/// a run with nothing kept is left out, and clipping stops once no room is left.
pub open spec fn clip_runs(runs: Seq<RunView>, k: nat, remaining: nat, bg: TermColor) -> Seq<RunView>
    decreases runs.len() - k,
{
    if k >= runs.len() || remaining == 0 {
        Seq::empty()
    } else {
        let (kept, left) = clip_chars(runs[k as int].text, 0, remaining, Seq::empty());
        let rest = clip_runs(runs, k + 1, left, bg);
        if kept.len() == 0 {
            rest
        } else {
            seq![RunView { text: kept, style: on_background(runs[k as int].style, bg), link: runs[k as int].link }] + rest
        }
    }
}

/// A content row of a box `width` cells wide after `inset` cells holding `runs` aligned by
/// `alignment`: two cells of margin, the runs padded for the alignment and clipped to the
/// width, then two cells of margin.
pub open spec fn boxed_runs_spec(inset: nat, width: nat, runs: Seq<RunView>, alignment: Option<Alignment>, fill: TermStyle) -> BoxLineView {
    let (left, right) = padding_of(width, runs_cells(runs, 0), alignment);
    let bg = match fill.bg { Some(c) => c, None => TermColor::Reset };
    BoxLineView {
        alignment: None,
        runs: seq![fill_run(inset, fill), fill_run(2, fill), fill_run(left, fill)]
            + clip_runs(runs, 0, (width - left - right) as nat, bg)
            + seq![fill_run(right, fill), fill_run(2, fill)],
        style: fill,
    }
}

/// A content row of a box `width` cells wide after `inset` cells (see `boxed_runs_spec`).
pub open spec fn box_content_spec(inset: nat, width: nat, line: BoxLine, fill: TermStyle) -> BoxLineView {
    boxed_runs_spec(inset, width, runs_view(line.runs@), line.alignment, fill)
}

/// Clips one run's text to `remaining` cells.
fn clip_text(text: &str, remaining: usize) -> (r: (Vec<char>, usize))
    ensures
        r.0@ == clip_chars(text@, 0, remaining as nat, Seq::empty()).0,
        r.1 == clip_chars(text@, 0, remaining as nat, Seq::empty()).1,
{
    let cs = chars_of(text);
    let mut kept: Vec<char> = Vec::new();
    let mut left = remaining;
    let mut i: usize = 0;
    loop
        invariant
            i <= cs.len(),
            cs@ == text@,
            clip_chars(cs@, i as nat, left as nat, kept@) == clip_chars(text@, 0, remaining as nat, Seq::empty()),
        ensures
            (kept@, left as nat) == clip_chars(text@, 0, remaining as nat, Seq::empty()),
        decreases cs.len() - i,
    {
        if i >= cs.len() {
            break;
        }
        let w = match char_width(cs[i]) {
            Some(w) => w,
            None => 0,
        };
        if w > left {
            left = 0;
            break;
        }
        kept.push(cs[i]);
        left = left - w;
        i = i + 1;
    }
    (kept, left)
}

/// A content row of a box (see `box_content_spec`).
pub fn box_content_line(inset: usize, width: usize, line: BoxLine, fill_style: TermStyle) -> (r: BoxLine)
    ensures
        box_line_view(r) == box_content_spec(inset as nat, width as nat, line, fill_style),
        r.alignment is None,
{
    let (left, right) = content_padding(width, &line);
    let bg = match fill_style.bg {
        Some(c) => c,
        None => TermColor::Reset,
    };
    let mut runs: Vec<StyledRun> = Vec::new();
    runs.push(StyledRun { text: space_string(inset), style: fill_style, link: None });
    runs.push(StyledRun { text: space_string(2), style: fill_style, link: None });
    runs.push(StyledRun { text: space_string(left), style: fill_style, link: None });
    let ghost head = runs_view(runs@);
    let ghost lv = runs_view(line.runs@);
    let mut remaining = width - (left + right);
    let mut k: usize = 0;
    while k < line.runs.len() && remaining > 0
        invariant
            k <= line.runs.len(),
            lv == runs_view(line.runs@),
            runs_view(runs@) + clip_runs(lv, k as nat, remaining as nat, bg)
                == head + clip_runs(lv, 0, (width - left - right) as nat, bg),
        decreases line.runs.len() - k,
    {
        let run = &line.runs[k];
        let (kept, left_after) = clip_text(run.text.as_str(), remaining);
        proof {
            assert(lv[k as int] == run_view(*run));
        }
        if kept.len() > 0 {
            let ghost before = runs_view(runs@);
            runs.push(StyledRun {
                text: string_from_chars(kept.as_slice()),
                style: TermStyle { bg: Some(bg), ..run.style },
                link: clone_link(&run.link),
            });
            proof {
                assert(runs_view(runs@) =~= before.push(RunView { text: kept@, style: on_background(run.style, bg), link: lv[k as int].link }));
            }
        }
        remaining = left_after;
        k = k + 1;
    }
    assert(clip_runs(lv, k as nat, remaining as nat, bg) =~= Seq::<RunView>::empty());
    let ghost mid = runs_view(runs@);
    runs.push(StyledRun { text: space_string(right), style: fill_style, link: None });
    runs.push(StyledRun { text: space_string(2), style: fill_style, link: None });
    let r = BoxLine { runs, alignment: None, style: fill_style };
    proof {
        assert(mid =~= head + clip_runs(lv, 0, (width - left - right) as nat, bg));
        assert(runs_view(r.runs@) =~= mid.push(fill_run(right as nat, fill_style)).push(fill_run(2, fill_style)));
        assert(runs_view(r.runs@) =~= box_content_spec(inset as nat, width as nat, line, fill_style).runs);
    }
    r
}

} // verus!
