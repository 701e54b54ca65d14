//! Rendering of markdown into styled lines: headings, paragraphs, lists, quotes, code,
//! tables, rules and images, with the clickable link areas, image slots and terminal-sized
//! headings that the lines carry.
use vstd::prelude::*;
use crate::inline::{
    StyledRun, RunView, LinkTarget, LinkTargetView, run_view, runs_view, lines_view, targets_view, link_targets_from,
    append_link_targets, truncate_spec, truncate_to_display_width, sat_add,
};
use crate::inline_runs::{InlineColors, inline_runs_spec, markdown_inline_events, parse_inline_runs,
    plain_runs_with_skills, segment_runs};
use crate::inline::skill_segments_spec;
use crate::markdown::{Block, BlockView, blocks_from, blocks_view, block_view, char_rows, row_cells, lines_of, parse_blocks, split_lines};
use crate::terminal::{KittyHeadingTier, TermColor, TermStyle, TerminalCapabilities, plain_style, rendered_width_spec};
use crate::text::{decimal_digits, push_char, push_decimal, string_from_chars, trim, trim_chars, concat_str};
use crate::unicode::{str_display_width, str_width};
use crate::wrap::{wrap_runs, wrap_runs_spec};

verus! {

/// How much markdown is rendered: `Off` shows the text as it is (with `@skill` mentions
/// still clickable), `Full` renders blocks and may leave room for images and sized headings.
#[derive(Debug, Clone, Copy, PartialEq, Eq, Structural)]
pub enum MarkdownMode {
    Off,
    Full,
}

/// How many tiers the terminal-sized headings are scaled down by: none, one or two.
#[derive(Debug, Clone, Copy, PartialEq, Eq, Structural)]
pub enum HeadingDownscale {
    Zero,
    One,
    Two,
}

/// The settings markdown is rendered with.
#[derive(Debug, Clone, Copy, PartialEq, Eq, Structural)]
pub struct RenderOptions {
    pub mode: MarkdownMode,
    pub width: usize,
    pub kitty_enhanced_text: bool,
    pub kitty_heading_downscale: HeadingDownscale,
    pub image_protocol_enabled: bool,
    pub terminal_capabilities: TerminalCapabilities,
}

/// The theme colours and heading styles markdown is drawn with. `headings[k]` is the style
/// of a level `k + 1` heading for the first five levels; `headings[5]` serves the others.
#[derive(Debug, Clone, Copy, PartialEq, Eq)]
pub struct RenderTheme {
    pub info: TermColor,
    pub foreground: TermColor,
    pub accent: TermColor,
    pub warning: TermColor,
    pub code_fg: TermColor,
    pub code_bg: TermColor,
    pub selection_fg: TermColor,
    pub selection_bg: TermColor,
    pub muted: TermColor,
    pub border: TermColor,
    pub headings: [TermStyle; 6],
}

/// An image placed in the rendered lines: the slot of `height` empty lines from
/// `start_line` on.
#[derive(Debug, Clone)]
pub struct RenderedImage {
    pub start_line: usize,
    pub height: usize,
    pub source: String,
}

/// A heading to be drawn over two lines from `start_line` with the terminal's text sizing.
#[derive(Debug, Clone)]
pub struct RenderedHeading {
    pub start_line: usize,
    pub text: String,
    pub tier: KittyHeadingTier,
    pub style: TermStyle,
}

/// Rendered markdown: the lines (each a sequence of styled runs), the clickable link areas,
/// the image slots and the sized headings.
#[derive(Debug, Clone)]
pub struct RenderedMarkdown {
    pub lines: Vec<Vec<StyledRun>>,
    pub link_targets: Vec<LinkTarget>,
    pub images: Vec<RenderedImage>,
    pub kitty_headings: Vec<RenderedHeading>,
}

/// The abstract form of an image slot.
pub struct ImageView {
    pub start_line: nat,
    pub height: nat,
    pub source: Seq<char>,
}

/// The abstract form of a sized heading.
pub struct HeadingView {
    pub start_line: nat,
    pub text: Seq<char>,
    pub tier: KittyHeadingTier,
    pub style: TermStyle,
}

/// The abstract form of rendered markdown.
pub struct RenderState {
    pub lines: Seq<Seq<RunView>>,
    pub targets: Seq<LinkTargetView>,
    pub images: Seq<ImageView>,
    pub headings: Seq<HeadingView>,
}

/// The abstract form of the image slots.
pub open spec fn images_view(v: Seq<RenderedImage>) -> Seq<ImageView> {
    v.map_values(|i: RenderedImage| ImageView { start_line: i.start_line as nat, height: i.height as nat, source: i.source@ })
}

/// The abstract form of the sized headings.
pub open spec fn headings_view(v: Seq<RenderedHeading>) -> Seq<HeadingView> {
    v.map_values(|h: RenderedHeading| HeadingView { start_line: h.start_line as nat, text: h.text@, tier: h.tier, style: h.style })
}

/// The abstract form of rendered markdown.
pub open spec fn rendered_view(r: RenderedMarkdown) -> RenderState {
    RenderState {
        lines: lines_view(r.lines@),
        targets: targets_view(r.link_targets@),
        images: images_view(r.images@),
        headings: headings_view(r.kitty_headings@),
    }
}

/// Nothing rendered yet.
pub open spec fn empty_render() -> RenderState {
    RenderState { lines: Seq::empty(), targets: Seq::empty(), images: Seq::empty(), headings: Seq::empty() }
}

/// `x`, or 1 when it is 0.
pub open spec fn at_least_one(x: nat) -> nat {
    if x >= 1 { x } else { 1 }
}

/// `a - b`, or 0 when `b` is larger.
pub open spec fn sat_sub(a: nat, b: nat) -> nat {
    if a >= b { (a - b) as nat } else { 0 }
}

/// A style with the given colours and attributes, neither italic nor struck out.
pub open spec fn style_of(fg: Option<TermColor>, bg: Option<TermColor>, bold: bool, underlined: bool) -> TermStyle {
    TermStyle { fg, bg, bold, italic: false, underlined, crossed_out: false }
}

/// A run without a link.
pub open spec fn plain_run(text: Seq<char>, style: TermStyle) -> RunView {
    RunView { text, style, link: None }
}

/// The colours inline text is drawn with.
pub open spec fn inline_colors(theme: RenderTheme) -> InlineColors {
    InlineColors { accent: theme.accent, warning: theme.warning, code_bg: theme.code_bg }
}

/// The state after adding a line that holds no link.
pub open spec fn with_line(st: RenderState, line: Seq<RunView>) -> RenderState {
    RenderState { lines: st.lines.push(line), targets: st.targets, images: st.images, headings: st.headings }
}

/// The state after adding a line and recording its link areas.
pub open spec fn with_linked_line(st: RenderState, line: Seq<RunView>) -> RenderState {
    RenderState {
        lines: st.lines.push(line),
        targets: link_targets_from(st.targets, st.lines.len(), line, 0, 0),
        images: st.images,
        headings: st.headings,
    }
}

/// The state after adding the lines `ls[k..]` with their link areas.
pub open spec fn with_lines(st: RenderState, ls: Seq<Seq<RunView>>, k: nat) -> RenderState
    decreases ls.len() - k,
{
    if k >= ls.len() { st } else { with_lines(with_linked_line(st, ls[k as int]), ls, k + 1) }
}

/// The abstract state of a rendering in progress.
impl RenderedMarkdown {
    pub open spec fn state(&self) -> RenderState {
        rendered_view(*self)
    }

    /// Nothing rendered.
    pub fn new() -> (r: RenderedMarkdown)
        ensures
            r.state() == empty_render(),
    {
        let r = RenderedMarkdown { lines: Vec::new(), link_targets: Vec::new(), images: Vec::new(), kitty_headings: Vec::new() };
        proof {
            assert(r.state() =~= empty_render()) by {
                assert(lines_view(r.lines@) =~= Seq::<Seq<RunView>>::empty());
                assert(targets_view(r.link_targets@) =~= Seq::<LinkTargetView>::empty());
                assert(images_view(r.images@) =~= Seq::<ImageView>::empty());
                assert(headings_view(r.kitty_headings@) =~= Seq::<HeadingView>::empty());
            }
        }
        r
    }

    /// Adds a line that holds no link.
    fn push_line(&mut self, line: Vec<StyledRun>)
        ensures
            final(self).state() == with_line(old(self).state(), runs_view(line@)),
    {
        let ghost before = self.state();
        self.lines.push(line);
        proof {
            assert(lines_view(self.lines@) =~= before.lines.push(runs_view(line@)));
        }
    }

    /// Adds a line and records its link areas.
    fn push_linked_line(&mut self, line: Vec<StyledRun>)
        ensures
            final(self).state() == with_linked_line(old(self).state(), runs_view(line@)),
    {
        let ghost before = self.state();
        let n = self.lines.len();
        append_link_targets(&mut self.link_targets, n, line.as_slice());
        self.lines.push(line);
        proof {
            assert(lines_view(self.lines@) =~= before.lines.push(runs_view(line@)));
        }
    }

    /// Adds wrapped lines, recording their link areas.
    fn push_linked_lines(&mut self, ls: Vec<Vec<StyledRun>>)
        ensures
            final(self).state() == with_lines(old(self).state(), lines_view(ls@), 0),
    {
        let ghost lv = lines_view(ls@);
        let ghost start = self.state();
        let mut k: usize = 0;
        while k < ls.len()
            invariant
                k <= ls.len(),
                lv == lines_view(ls@),
                with_lines(self.state(), lv, k as nat) == with_lines(start, lv, 0),
            decreases ls.len() - k,
        {
            let line = clone_runs(&ls[k]);
            self.push_linked_line(line);
            k = k + 1;
        }
    }
}

/// A copy of a run.
pub fn clone_run(r: &StyledRun) -> (c: StyledRun)
    ensures
        run_view(c) == run_view(*r),
{
    StyledRun { text: r.text.clone(), style: r.style, link: crate::inline::clone_link(&r.link) }
}

/// A copy of a line of runs.
pub fn clone_runs(v: &Vec<StyledRun>) -> (c: Vec<StyledRun>)
    ensures
        runs_view(c@) == runs_view(v@),
{
    let mut c: Vec<StyledRun> = Vec::new();
    let mut i: usize = 0;
    while i < v.len()
        invariant
            i <= v.len(),
            runs_view(c@) == runs_view(v@.take(i as int)),
        decreases v.len() - i,
    {
        let ghost before = c@;
        c.push(clone_run(&v[i]));
        proof {
            assert(runs_view(c@) =~= runs_view(before).push(run_view(v@[i as int])));
            assert(v@.take(i as int + 1) =~= v@.take(i as int).push(v@[i as int]));
            assert(runs_view(c@) =~= runs_view(v@.take(i as int + 1)));
        }
        i = i + 1;
    }
    proof {
        assert(v@.take(v.len() as int) =~= v@);
    }
    c
}

/// A run without a link.
fn run_of(text: String, style: TermStyle) -> (r: StyledRun)
    ensures
        run_view(r) == plain_run(text@, style),
{
    StyledRun { text, style, link: None }
}

/// `n` copies of `c`.
pub fn repeat_char(c: char, n: usize) -> (r: String)
    ensures
        r@ == Seq::new(n as nat, |_i: int| c),
{
    let mut s = String::new();
    let mut i: usize = 0;
    while i < n
        invariant
            i <= n,
            s@ == Seq::new(i as nat, |_i: int| c),
        decreases n - i,
    {
        push_char(&mut s, c);
        i = i + 1;
        assert(s@ =~= Seq::new(i as nat, |_i: int| c));
    }
    s
}

/// The line of a horizontal rule: `max(width, 3)` box-drawing dashes.
pub open spec fn rule_line(width: nat) -> Seq<RunView> {
    seq![plain_run(Seq::new(if width >= 3 { width } else { 3 }, |_i: int| '─'), plain_style())]
}

/// The number of lines an image slot takes: the width, kept between 4 and 12.
pub open spec fn image_height(width: nat) -> nat {
    if width < 4 { 4 } else if width > 12 { 12 } else { width }
}

/// The state after rendering an image block: a caption line, an empty slot for the image
/// when images are drawn, and an `open <source>` line whose whole text links to the source.
pub open spec fn image_spec(st: RenderState, alt: Seq<char>, source: Seq<char>, opts: RenderOptions, theme: RenderTheme) -> RenderState {
    let start = st.lines.len();
    let caption = seq![
        plain_run("[image] "@, style_of(Some(theme.info), None, true, false)),
        plain_run(if alt.len() == 0 { source } else { alt }, style_of(Some(theme.foreground), None, false, false)),
    ];
    let st1 = with_line(st, caption);
    let h = image_height(opts.width as nat);
    let st2 = if opts.mode == MarkdownMode::Full && opts.image_protocol_enabled {
        RenderState {
            lines: st1.lines + Seq::new(h, |_i: int| Seq::<RunView>::empty()),
            targets: st1.targets,
            images: st1.images.push(ImageView { start_line: start + 1, height: h, source }),
            headings: st1.headings,
        }
    } else {
        st1
    };
    let link_style = style_of(Some(theme.accent), None, false, true);
    let st3 = with_line(st2, seq![plain_run("open "@, link_style), plain_run(source, link_style)]);
    RenderState {
        lines: st3.lines,
        targets: st3.targets.push(LinkTargetView {
            line: (st3.lines.len() - 1) as nat,
            column: 0,
            width: str_display_width("open "@ + source) as nat,
            target: source,
        }),
        images: st3.images,
        headings: st3.headings,
    }
}

/// The sized-heading tier of a heading level, after scaling down.
pub open spec fn heading_tier_spec(level: nat, downscale: HeadingDownscale) -> Option<KittyHeadingTier> {
    if level == 1 {
        match downscale {
            HeadingDownscale::Zero => Some(KittyHeadingTier::H1),
            HeadingDownscale::One => Some(KittyHeadingTier::H2),
            HeadingDownscale::Two => Some(KittyHeadingTier::H3),
        }
    } else if level == 2 {
        match downscale {
            HeadingDownscale::Zero => Some(KittyHeadingTier::H2),
            _ => Some(KittyHeadingTier::H3),
        }
    } else if level == 3 {
        Some(KittyHeadingTier::H3)
    } else {
        None
    }
}

/// The tier a heading of `level` is drawn at with the terminal's text sizing, if any: levels
/// 1 to 3 map to H1 to H3, moved down by the downscale (never below H3).
pub fn enhanced_heading_tier(level: usize, downscale: HeadingDownscale) -> (r: Option<KittyHeadingTier>)
    ensures
        r == heading_tier_spec(level as nat, downscale),
{
    match (level, downscale) {
        (1, HeadingDownscale::Zero) => Some(KittyHeadingTier::H1),
        (1, HeadingDownscale::One) | (2, HeadingDownscale::Zero) => Some(KittyHeadingTier::H2),
        (1, HeadingDownscale::Two) | (2, HeadingDownscale::One) | (2, HeadingDownscale::Two) | (3, _) => Some(KittyHeadingTier::H3),
        _ => None,
    }
}

/// The style of a heading of `level`.
pub open spec fn heading_style_spec(theme: RenderTheme, level: nat) -> TermStyle {
    if 1 <= level <= 5 { theme.headings[level - 1] } else { theme.headings[5] }
}

/// The style of a heading of `level`.
pub fn heading_style(theme: &RenderTheme, level: usize) -> (r: TermStyle)
    ensures
        r == heading_style_spec(*theme, level as nat),
{
    if 1 <= level && level <= 5 { theme.headings[level - 1] } else { theme.headings[5] }
}

/// Whether sized headings are drawn at all.
pub open spec fn sized_headings_on(opts: RenderOptions) -> bool {
    opts.kitty_enhanced_text && opts.terminal_capabilities.kitty_text_sizing && opts.mode == MarkdownMode::Full
}

/// The state after rendering a heading: its trimmed text on a line of its own, and, when
/// sized headings are on and the heading fits the width at its tier, an empty line below
/// and a sized heading over the two lines.
pub open spec fn heading_spec_render(st: RenderState, text: Seq<char>, level: nat, opts: RenderOptions, theme: RenderTheme) -> RenderState {
    let t = trim(text);
    let style = heading_style_spec(theme, level);
    let st1 = with_line(st, seq![plain_run(t, style)]);
    match heading_tier_spec(level, opts.kitty_heading_downscale) {
        Some(tier) => if sized_headings_on(opts)
            && rendered_width_spec(tier, str_display_width(t) as nat) <= at_least_one(opts.width as nat) {
            let st2 = with_line(st1, Seq::empty());
            RenderState {
                lines: st2.lines,
                targets: st2.targets,
                images: st2.images,
                headings: st2.headings.push(HeadingView { start_line: st.lines.len(), text: t, tier, style }),
            }
        } else {
            st1
        },
        None => st1,
    }
}

/// The state after rendering a code block: the language as a label when there is one, then
/// each line of the code in the code colours, cut to the width.
pub open spec fn code_spec(st: RenderState, language: Option<Seq<char>>, content: Seq<char>, width: nat, theme: RenderTheme) -> RenderState {
    let st1 = match language {
        Some(l) => if l.len() > 0 {
            with_line(st, seq![plain_run(" "@ + l + " "@, style_of(Some(theme.selection_fg), Some(theme.selection_bg), true, false))])
        } else {
            st
        },
        None => st,
    };
    code_lines_from(st1, lines_of(content), 0, width, theme)
}

/// A line of code, cut to `width` cells when wider.
pub open spec fn code_text(line: Seq<char>, width: nat) -> Seq<char> {
    if str_display_width(line) as nat > width { truncate_spec(line, width) } else { line }
}

/// The state after adding the code lines `ls[k..]`.
pub open spec fn code_lines_from(st: RenderState, ls: Seq<Seq<char>>, k: nat, width: nat, theme: RenderTheme) -> RenderState
    decreases ls.len() - k,
{
    if k >= ls.len() {
        st
    } else {
        code_lines_from(
            with_line(st, seq![plain_run(code_text(ls[k as int], width), style_of(Some(theme.code_fg), Some(theme.code_bg), false, false))]),
            ls,
            k + 1,
            width,
            theme,
        )
    }
}

/// Renders a horizontal rule.
fn render_rule(out: &mut RenderedMarkdown, width: usize)
    ensures
        final(out).state() == with_line(old(out).state(), rule_line(width as nat)),
{
    let n = if width >= 3 { width } else { 3 };
    let line = vec![run_of(repeat_char('─', n), TermStyle::plain())];
    proof {
        assert(runs_view(line@) =~= rule_line(width as nat));
    }
    out.push_line(line);
}

/// The style `fg` in the given colour, optionally bold or underlined.
fn style_with(fg: Option<TermColor>, bg: Option<TermColor>, bold: bool, underlined: bool) -> (r: TermStyle)
    ensures
        r == style_of(fg, bg, bold, underlined),
{
    TermStyle { fg, bg, bold, italic: false, underlined, crossed_out: false }
}

/// Renders an image block (see `image_spec`).
fn render_image(out: &mut RenderedMarkdown, alt: &Vec<char>, source: &Vec<char>, opts: RenderOptions, theme: &RenderTheme)
    ensures
        final(out).state() == image_spec(old(out).state(), alt@, source@, opts, *theme),
{
    let ghost st = out.state();
    let label = if alt.len() == 0 { string_from_chars(source.as_slice()) } else { string_from_chars(alt.as_slice()) };
    let caption = vec![
        run_of("[image] ".to_owned(), style_with(Some(theme.info), None, true, false)),
        run_of(label, style_with(Some(theme.foreground), None, false, false)),
    ];
    proof {
        assert(runs_view(caption@) =~= seq![
            plain_run("[image] "@, style_of(Some(theme.info), None, true, false)),
            plain_run(if alt@.len() == 0 { source@ } else { alt@ }, style_of(Some(theme.foreground), None, false, false)),
        ]);
    }
    out.push_line(caption);
    let ghost st1 = out.state();
    let height = if opts.width < 4 { 4 } else if opts.width > 12 { 12 } else { opts.width };
    if opts.mode == MarkdownMode::Full && opts.image_protocol_enabled {
        let slot_start = out.lines.len();
        let mut k: usize = 0;
        while k < height
            invariant
                k <= height,
                out.state() == (RenderState {
                    lines: st1.lines + Seq::new(k as nat, |_i: int| Seq::<RunView>::empty()),
                    targets: st1.targets,
                    images: st1.images,
                    headings: st1.headings,
                }),
            decreases height - k,
        {
            let empty: Vec<StyledRun> = Vec::new();
            out.push_line(empty);
            k = k + 1;
            proof {
                assert(runs_view(empty@) =~= Seq::<RunView>::empty());
                assert(st1.lines + Seq::new(k as nat, |_i: int| Seq::<RunView>::empty())
                    =~= (st1.lines + Seq::new((k - 1) as nat, |_i: int| Seq::<RunView>::empty())).push(Seq::<RunView>::empty()));
            }
        }
        let ghost before = images_view(out.images@);
        out.images.push(RenderedImage { start_line: slot_start, height, source: string_from_chars(source.as_slice()) });
        proof {
            assert(images_view(out.images@) =~= before.push(ImageView { start_line: st.lines.len() + 1, height: height as nat, source: source@ }));
        }
    }
    let link_style = style_with(Some(theme.accent), None, false, true);
    let src = string_from_chars(source.as_slice());
    let open_line = vec![run_of("open ".to_owned(), link_style), run_of(src.clone(), link_style)];
    proof {
        assert(runs_view(open_line@) =~= seq![plain_run("open "@, link_style), plain_run(source@, link_style)]);
    }
    out.push_line(open_line);
    let shown = concat_str("open ".to_owned(), src.as_str());
    let width = str_width(shown.as_str());
    assert(out.state().lines.len() == out.lines@.len());
    let last = out.lines.len() - 1;
    let ghost before = targets_view(out.link_targets@);
    out.link_targets.push(LinkTarget { line: last, column: 0, width, target: src });
    proof {
        assert(targets_view(out.link_targets@) =~= before.push(LinkTargetView {
            line: last as nat,
            column: 0,
            width: str_display_width("open "@ + source@) as nat,
            target: source@,
        }));
    }
}

/// Renders a heading (see `heading_spec_render`).
fn render_heading(out: &mut RenderedMarkdown, text: &Vec<char>, level: usize, opts: RenderOptions, theme: &RenderTheme)
    ensures
        final(out).state() == heading_spec_render(old(out).state(), text@, level as nat, opts, *theme),
{
    let ghost st = out.state();
    let start = out.lines.len();
    let t = string_from_chars(trim_chars(text.as_slice()).as_slice());
    let style = heading_style(theme, level);
    let line = vec![run_of(t.clone(), style)];
    proof {
        assert(runs_view(line@) =~= seq![plain_run(trim(text@), style)]);
    }
    out.push_line(line);
    let tier = match enhanced_heading_tier(level, opts.kitty_heading_downscale) {
        Some(tier) => tier,
        None => return,
    };
    if !(opts.kitty_enhanced_text && opts.terminal_capabilities.kitty_text_sizing && opts.mode == MarkdownMode::Full) {
        return;
    }
    let limit = if opts.width >= 1 { opts.width } else { 1 };
    if tier.rendered_width(t.as_str()) > limit {
        return;
    }
    let empty: Vec<StyledRun> = Vec::new();
    proof {
        assert(runs_view(empty@) =~= Seq::<RunView>::empty());
    }
    out.push_line(empty);
    let ghost before = headings_view(out.kitty_headings@);
    out.kitty_headings.push(RenderedHeading { start_line: start, text: t, tier, style });
    proof {
        assert(headings_view(out.kitty_headings@) =~= before.push(HeadingView { start_line: st.lines.len(), text: trim(text@), tier, style }));
    }
}

/// Renders a code block (see `code_spec`).
fn render_code(out: &mut RenderedMarkdown, language: &Option<Vec<char>>, content: &Vec<char>, width: usize, theme: &RenderTheme)
    ensures
        final(out).state() == code_spec(
            old(out).state(),
            match language { Some(l) => Some(l@), None => None },
            content@,
            width as nat,
            *theme,
        ),
{
    match language {
        Some(l) => {
            if l.len() > 0 {
                let mut label = String::new();
                push_char(&mut label, ' ');
                let label = concat_str(label, string_from_chars(l.as_slice()).as_str());
                let mut label = label;
                push_char(&mut label, ' ');
                proof {
                    reveal_strlit(" ");
                    assert(label@ =~= " "@ + l@ + " "@);
                }
                let line = vec![run_of(label, style_with(Some(theme.selection_fg), Some(theme.selection_bg), true, false))];
                proof {
                    assert(runs_view(line@) =~= seq![plain_run(" "@ + l@ + " "@, style_of(Some(theme.selection_fg), Some(theme.selection_bg), true, false))]);
                }
                out.push_line(line);
            }
        },
        None => {},
    }
    let ghost st1 = out.state();
    let text = string_from_chars(content.as_slice());
    let lines = split_lines(text.as_str());
    let ghost ls = char_rows(lines@);
    let style = style_with(Some(theme.code_fg), Some(theme.code_bg), false, false);
    let mut k: usize = 0;
    while k < lines.len()
        invariant
            k <= lines.len(),
            ls == char_rows(lines@),
            ls == lines_of(content@),
            style == style_of(Some(theme.code_fg), Some(theme.code_bg), false, false),
            code_lines_from(out.state(), ls, k as nat, width as nat, *theme) == code_lines_from(st1, ls, 0, width as nat, *theme),
        decreases lines.len() - k,
    {
        let s = string_from_chars(lines[k].as_slice());
        let shown = if str_width(s.as_str()) > width { truncate_to_display_width(s.as_str(), width) } else { s };
        let line = vec![run_of(shown, style)];
        proof {
            assert(runs_view(line@) =~= seq![plain_run(code_text(ls[k as int], width as nat), style)]);
        }
        out.push_line(line);
        k = k + 1;
    }
}

/// The colours inline text is drawn with.
fn colors_of(theme: &RenderTheme) -> (r: InlineColors)
    ensures
        r == inline_colors(*theme),
{
    InlineColors { accent: theme.accent, warning: theme.warning, code_bg: theme.code_bg }
}

/// The wrapped lines of a block of inline text drawn from `base`, at `width` cells (at
/// least one).
pub open spec fn inline_lines(text: Seq<char>, base: TermStyle, width: nat, theme: RenderTheme) -> Seq<Seq<RunView>> {
    wrap_runs_spec(inline_runs_spec(markdown_inline_events(text), base, inline_colors(theme)), at_least_one(width))
}

/// Wraps a block of inline text and adds its lines with their link areas.
fn render_inline_block(out: &mut RenderedMarkdown, text: &Vec<char>, width: usize, base: TermStyle, theme: &RenderTheme)
    ensures
        final(out).state() == with_lines(old(out).state(), inline_lines(text@, base, width as nat, *theme), 0),
{
    let s = string_from_chars(text.as_slice());
    let runs = parse_inline_runs(s.as_str(), base, colors_of(theme));
    let wrapped = wrap_runs(runs, if width >= 1 { width } else { 1 });
    out.push_linked_lines(wrapped);
}

/// Lines with a run put in front of each: `first` before the first line, `rest` before the
/// others.
pub open spec fn prefix_lines(ls: Seq<Seq<RunView>>, first: RunView, rest: RunView) -> Seq<Seq<RunView>> {
    Seq::new(ls.len(), |j: int| seq![if j == 0 { first } else { rest }] + ls[j])
}

/// Adds wrapped lines with `first` put in front of the first and `rest` in front of the
/// others, recording their link areas.
fn push_prefixed_lines(out: &mut RenderedMarkdown, wrapped: Vec<Vec<StyledRun>>, first: &StyledRun, rest: &StyledRun)
    ensures
        final(out).state() == with_lines(old(out).state(), prefix_lines(lines_view(wrapped@), run_view(*first), run_view(*rest)), 0),
{
    let ghost pl = prefix_lines(lines_view(wrapped@), run_view(*first), run_view(*rest));
    let ghost start = out.state();
    let mut k: usize = 0;
    while k < wrapped.len()
        invariant
            k <= wrapped.len(),
            pl == prefix_lines(lines_view(wrapped@), run_view(*first), run_view(*rest)),
            with_lines(out.state(), pl, k as nat) == with_lines(start, pl, 0),
        decreases wrapped.len() - k,
    {
        let head = if k == 0 { clone_run(first) } else { clone_run(rest) };
        let mut line: Vec<StyledRun> = Vec::new();
        line.push(head);
        let body = clone_runs(&wrapped[k]);
        let ghost h = line@;
        let mut body = body;
        line.append(&mut body);
        proof {
            assert(runs_view(line@) =~= runs_view(h) + runs_view(wrapped@[k as int]@));
            assert(runs_view(line@) =~= pl[k as int]);
        }
        out.push_linked_line(line);
        k = k + 1;
    }
}

/// The marker in front of list item `idx`: its number and a dot when the list is ordered,
/// a dash otherwise, then a space.
pub open spec fn list_prefix(ordered: bool, idx: nat) -> Seq<char> {
    if ordered { decimal_digits(idx + 1) + ". "@ } else { "- "@ }
}

/// The lines of list item `idx`: its text wrapped beside the marker, continuation lines
/// indented by two spaces.
pub open spec fn list_item_lines(item: Seq<char>, idx: nat, ordered: bool, width: nat, theme: RenderTheme) -> Seq<Seq<RunView>> {
    let prefix = list_prefix(ordered, idx);
    prefix_lines(
        inline_lines(item, plain_style(), sat_sub(width, prefix.len()), theme),
        plain_run(prefix, style_of(Some(theme.warning), None, true, false)),
        plain_run("  "@, plain_style()),
    )
}

/// The state after rendering the list items `items[i..]`.
pub open spec fn list_from(st: RenderState, ordered: bool, items: Seq<Seq<char>>, i: nat, width: nat, theme: RenderTheme) -> RenderState
    decreases items.len() - i,
{
    if i >= items.len() {
        st
    } else {
        list_from(with_lines(st, list_item_lines(items[i as int], i, ordered, width, theme), 0), ordered, items, i + 1, width, theme)
    }
}

/// The marker of list item `idx`.
fn list_prefix_exec(ordered: bool, idx: usize) -> (r: String)
    requires
        idx < usize::MAX,
    ensures
        r@ == list_prefix(ordered, idx as nat),
{
    let mut s = String::new();
    if ordered {
        push_decimal(&mut s, (idx + 1) as u64);
        push_char(&mut s, '.');
        push_char(&mut s, ' ');
        proof {
            reveal_strlit(". ");
            assert(s@ =~= list_prefix(ordered, idx as nat));
        }
    } else {
        push_char(&mut s, '-');
        push_char(&mut s, ' ');
        proof {
            reveal_strlit("- ");
            assert(s@ =~= list_prefix(ordered, idx as nat));
        }
    }
    s
}

/// Renders a list (see `list_item_lines`).
fn render_list(out: &mut RenderedMarkdown, ordered: bool, items: &Vec<Vec<char>>, width: usize, theme: &RenderTheme)
    ensures
        final(out).state() == list_from(old(out).state(), ordered, char_rows(items@), 0, width as nat, *theme),
{
    let ghost its = char_rows(items@);
    let ghost start = out.state();
    let mut idx: usize = 0;
    while idx < items.len()
        invariant
            idx <= items.len(),
            its == char_rows(items@),
            list_from(out.state(), ordered, its, idx as nat, width as nat, *theme) == list_from(start, ordered, its, 0, width as nat, *theme),
        decreases items.len() - idx,
    {
        let prefix = list_prefix_exec(ordered, idx);
        let plen = crate::text::chars_of(prefix.as_str()).len();
        let avail = if width >= plen { width - plen } else { 0 };
        let item = string_from_chars(items[idx].as_slice());
        let runs = parse_inline_runs(item.as_str(), TermStyle::plain(), colors_of(theme));
        let wrapped = wrap_runs(runs, if avail >= 1 { avail } else { 1 });
        let first = run_of(prefix, style_with(Some(theme.warning), None, true, false));
        let rest = run_of("  ".to_owned(), TermStyle::plain());
        push_prefixed_lines(out, wrapped, &first, &rest);
        idx = idx + 1;
    }
}

/// The lines of a quote item: its text wrapped in the muted colour behind a `| ` bar.
pub open spec fn quote_item_lines(item: Seq<char>, width: nat, theme: RenderTheme) -> Seq<Seq<RunView>> {
    let bar = plain_run("| "@, style_of(Some(theme.border), None, false, false));
    prefix_lines(inline_lines(item, style_of(Some(theme.muted), None, false, false), sat_sub(width, 2), theme), bar, bar)
}

/// The state after rendering the quote items `items[i..]`.
pub open spec fn quote_from(st: RenderState, items: Seq<Seq<char>>, i: nat, width: nat, theme: RenderTheme) -> RenderState
    decreases items.len() - i,
{
    if i >= items.len() {
        st
    } else {
        quote_from(with_lines(st, quote_item_lines(items[i as int], width, theme), 0), items, i + 1, width, theme)
    }
}

/// Renders a quote (see `quote_item_lines`).
fn render_quote(out: &mut RenderedMarkdown, items: &Vec<Vec<char>>, width: usize, theme: &RenderTheme)
    ensures
        final(out).state() == quote_from(old(out).state(), char_rows(items@), 0, width as nat, *theme),
{
    let ghost its = char_rows(items@);
    let ghost start = out.state();
    let mut idx: usize = 0;
    while idx < items.len()
        invariant
            idx <= items.len(),
            its == char_rows(items@),
            quote_from(out.state(), its, idx as nat, width as nat, *theme) == quote_from(start, its, 0, width as nat, *theme),
        decreases items.len() - idx,
    {
        let item = string_from_chars(items[idx].as_slice());
        let runs = parse_inline_runs(item.as_str(), style_with(Some(theme.muted), None, false, false), colors_of(theme));
        let avail = if width >= 2 { width - 2 } else { 0 };
        let wrapped = wrap_runs(runs, if avail >= 1 { avail } else { 1 });
        let bar = run_of("| ".to_owned(), style_with(Some(theme.border), None, false, false));
        push_prefixed_lines(out, wrapped, &bar, &bar);
        idx = idx + 1;
    }
}

/// The most cells in a row of `rows[i..]`, or `acc` if more.
pub open spec fn max_cells(rows: Seq<Seq<Seq<char>>>, i: nat, acc: nat) -> nat
    decreases rows.len() - i,
{
    if i >= rows.len() {
        acc
    } else {
        max_cells(rows, i + 1, if rows[i as int].len() > acc { rows[i as int].len() } else { acc })
    }
}

/// `a * b`, capped at the largest `usize`.
pub open spec fn sat_mul(a: nat, b: nat) -> nat {
    if a * b > usize::MAX { usize::MAX as nat } else { a * b }
}

/// The width of a table column: the width left after the `|` separators, shared among the
/// columns, at least three cells.
pub open spec fn table_col_width(width: nat, col_count: nat) -> nat {
    let w = sat_sub(width, sat_add(col_count, 1)) / at_least_one(col_count);
    if w >= 3 { w } else { 3 }
}

/// A cell's trimmed text, cut with an ellipsis when wider than the column.
pub open spec fn cell_text(cell: Seq<char>, col_width: nat) -> Seq<char> {
    let c = trim(cell);
    if str_display_width(c) as nat > col_width { truncate_spec(c, sat_sub(col_width, 1)).push('…') } else { c }
}

/// `c` padded with spaces to `n` characters.
pub open spec fn padded(c: Seq<char>, n: nat) -> Seq<char> {
    if c.len() >= n { c } else { c + Seq::new((n - c.len()) as nat, |_i: int| ' ') }
}

/// The text of a table row after `acc`, from cell `k` on: each cell as ` <text>|`.
pub open spec fn row_text_from(acc: Seq<char>, row: Seq<Seq<char>>, k: nat, col_width: nat) -> Seq<char>
    decreases row.len() - k,
{
    if k >= row.len() {
        acc
    } else {
        row_text_from(acc + seq![' '] + padded(cell_text(row[k as int], col_width), col_width) + seq!['|'], row, k + 1, col_width)
    }
}

/// The line under the header row: dashes across all its columns, between two bars.
pub open spec fn header_rule(cells: nat, col_width: nat) -> Seq<char> {
    let n = sat_add(sat_mul(sat_add(col_width, 2), cells), sat_sub(cells, 1));
    seq!['|'] + Seq::new(n, |_i: int| '─') + seq!['|']
}

/// The state after rendering the table rows `rows[i..]` with columns of `col_width` cells.
pub open spec fn table_from(st: RenderState, rows: Seq<Seq<Seq<char>>>, i: nat, col_width: nat) -> RenderState
    decreases rows.len() - i,
{
    if i >= rows.len() {
        st
    } else {
        let st1 = with_line(st, seq![plain_run(row_text_from(seq!['|'], rows[i as int], 0, col_width), plain_style())]);
        let st2 = if i == 0 { with_line(st1, seq![plain_run(header_rule(rows[0].len(), col_width), plain_style())]) } else { st1 };
        table_from(st2, rows, i + 1, col_width)
    }
}

/// The state after rendering a table: one line per row, the header row underlined.
pub open spec fn table_spec(st: RenderState, rows: Seq<Seq<Seq<char>>>, width: nat) -> RenderState {
    if rows.len() == 0 { st } else { table_from(st, rows, 0, table_col_width(width, max_cells(rows, 0, 0))) }
}

/// Appends ` <cell>|` for one cell.
fn push_cell(acc: &mut Vec<char>, cell: &Vec<char>, col_width: usize)
    requires
        col_width >= 1,
    ensures
        final(acc)@ == old(acc)@ + seq![' '] + padded(cell_text(cell@, col_width as nat), col_width as nat) + seq!['|'],
{
    let c = trim_chars(cell.as_slice());
    let cs = string_from_chars(c.as_slice());
    let text: Vec<char> = if str_width(cs.as_str()) > col_width {
        let t = truncate_to_display_width(cs.as_str(), col_width - 1);
        let mut v = crate::text::chars_of(t.as_str());
        v.push('…');
        v
    } else {
        c
    };
    let ghost start = acc@;
    acc.push(' ');
    let mut i: usize = 0;
    while i < text.len()
        invariant
            i <= text.len(),
            acc@ == start.push(' ') + text@.take(i as int),
        decreases text.len() - i,
    {
        acc.push(text[i]);
        i = i + 1;
        assert(acc@ =~= start.push(' ') + text@.take(i as int));
    }
    let mut k: usize = text.len();
    while k < col_width
        invariant
            text.len() <= k <= col_width || (k == text.len() && k >= col_width),
            acc@ == start.push(' ') + text@ + Seq::new((k - text.len()) as nat, |_i: int| ' '),
        decreases col_width - k,
    {
        acc.push(' ');
        k = k + 1;
        assert(acc@ =~= start.push(' ') + text@ + Seq::new((k - text.len()) as nat, |_i: int| ' '));
    }
    acc.push('|');
    proof {
        assert(text@ == cell_text(cell@, col_width as nat));
        if text@.len() >= col_width {
            assert(Seq::new((k - text.len()) as nat, |_i: int| ' ') =~= Seq::<char>::empty());
        }
        assert(acc@ =~= start + seq![' '] + padded(cell_text(cell@, col_width as nat), col_width as nat) + seq!['|']);
    }
}

/// Renders a table (see `table_spec`).
fn render_table(out: &mut RenderedMarkdown, rows: &Vec<Vec<Vec<char>>>, width: usize)
    ensures
        final(out).state() == table_spec(old(out).state(), row_cells(rows@), width as nat),
{
    let ghost rv = row_cells(rows@);
    if rows.len() == 0 {
        return;
    }
    let mut col_count: usize = 0;
    let mut i: usize = 0;
    while i < rows.len()
        invariant
            i <= rows.len(),
            rv == row_cells(rows@),
            max_cells(rv, i as nat, col_count as nat) == max_cells(rv, 0, 0),
        decreases rows.len() - i,
    {
        if rows[i].len() > col_count {
            col_count = rows[i].len();
        }
        i = i + 1;
    }
    let gaps = col_count.saturating_add(1);
    let spare = if width >= gaps { width - gaps } else { 0 };
    let share = spare / (if col_count >= 1 { col_count } else { 1 });
    let col_width = if share >= 3 { share } else { 3 };
    assert(col_width == table_col_width(width as nat, max_cells(rv, 0, 0)));
    let ghost start = out.state();
    let mut idx: usize = 0;
    while idx < rows.len()
        invariant
            idx <= rows.len(),
            rows.len() > 0,
            rv == row_cells(rows@),
            col_width >= 3,
            table_from(out.state(), rv, idx as nat, col_width as nat) == table_from(start, rv, 0, col_width as nat),
        decreases rows.len() - idx,
    {
        let row = &rows[idx];
        let ghost cells = rv[idx as int];
        let mut acc: Vec<char> = Vec::new();
        acc.push('|');
        let mut k: usize = 0;
        while k < row.len()
            invariant
                k <= row.len(),
                col_width >= 3,
                cells == char_rows(row@),
                row_text_from(acc@, cells, k as nat, col_width as nat) == row_text_from(seq!['|'], cells, 0, col_width as nat),
            decreases row.len() - k,
        {
            push_cell(&mut acc, &row[k], col_width);
            k = k + 1;
        }
        let line = vec![run_of(string_from_chars(acc.as_slice()), TermStyle::plain())];
        proof {
            assert(runs_view(line@) =~= seq![plain_run(row_text_from(seq!['|'], cells, 0, col_width as nat), plain_style())]);
        }
        out.push_line(line);
        if idx == 0 {
            let cells_n = row.len();
            let stretch = col_width.saturating_add(2);
            let across = match stretch.checked_mul(cells_n) {
                Some(p) => p,
                None => usize::MAX,
            };
            let seps = if cells_n >= 1 { cells_n - 1 } else { 0 };
            let n = across.saturating_add(seps);
            let mut rule = String::new();
            push_char(&mut rule, '|');
            let dashes = repeat_char('─', n);
            let rule = concat_str(rule, dashes.as_str());
            let mut rule = rule;
            push_char(&mut rule, '|');
            proof {
                assert(rule@ =~= header_rule(rv[0].len(), col_width as nat));
            }
            let line = vec![run_of(rule, TermStyle::plain())];
            proof {
                assert(runs_view(line@) =~= seq![plain_run(header_rule(rv[0].len(), col_width as nat), plain_style())]);
            }
            out.push_line(line);
        }
        idx = idx + 1;
    }
}

/// The state after rendering one block.
pub open spec fn block_spec(st: RenderState, b: BlockView, opts: RenderOptions, theme: RenderTheme) -> RenderState {
    let width = opts.width as nat;
    match b {
        BlockView::Heading { level, text } => heading_spec_render(st, text, level, opts, theme),
        BlockView::Paragraph(text) => with_lines(st, inline_lines(text, plain_style(), width, theme), 0),
        BlockView::List { ordered, items } => list_from(st, ordered, items, 0, width, theme),
        BlockView::Quote(items) => quote_from(st, items, 0, width, theme),
        BlockView::Code { language, content } => code_spec(st, language, content, width, theme),
        BlockView::Table(rows) => table_spec(st, rows, width),
        BlockView::Rule => with_line(st, rule_line(width)),
        BlockView::MediaImage { alt, source } => image_spec(st, alt, source, opts, theme),
    }
}

/// Whether the last line is an empty one.
pub open spec fn ends_blank(st: RenderState) -> bool {
    st.lines.len() > 0 && st.lines.last().len() == 0
}

/// The state after a block: an empty line follows unless the block already ends with one.
pub open spec fn close_block(st: RenderState) -> RenderState {
    if ends_blank(st) { st } else { with_line(st, Seq::empty()) }
}

/// The state after rendering the blocks `bs[i..]`, each followed by an empty line.
pub open spec fn blocks_render_from(st: RenderState, bs: Seq<BlockView>, i: nat, opts: RenderOptions, theme: RenderTheme) -> RenderState
    decreases bs.len() - i,
{
    if i >= bs.len() { st } else { blocks_render_from(close_block(block_spec(st, bs[i as int], opts, theme)), bs, i + 1, opts, theme) }
}

/// The state after showing the lines `ls[k..]` as they are, mentions made clickable.
pub open spec fn plain_lines_from(st: RenderState, ls: Seq<Seq<char>>, k: nat, accent: TermColor) -> RenderState
    decreases ls.len() - k,
{
    if k >= ls.len() {
        st
    } else {
        plain_lines_from(with_linked_line(st, segment_runs(skill_segments_spec(ls[k as int]), plain_style(), accent)), ls, k + 1, accent)
    }
}

/// What `content` renders to: with markdown off, each line as it is with `@skill`
/// mentions as links; otherwise each block in turn, blocks separated by one empty line and
/// no empty line at the end.
pub open spec fn render_spec(content: Seq<char>, opts: RenderOptions, theme: RenderTheme) -> RenderState {
    if opts.mode == MarkdownMode::Off {
        plain_lines_from(empty_render(), lines_of(content), 0, theme.accent)
    } else {
        let st = blocks_render_from(empty_render(), blocks_from(lines_of(content), 0), 0, opts, theme);
        if ends_blank(st) {
            RenderState { lines: st.lines.drop_last(), targets: st.targets, images: st.images, headings: st.headings }
        } else {
            st
        }
    }
}

/// Renders one block.
fn render_block(out: &mut RenderedMarkdown, block: &Block, opts: RenderOptions, theme: &RenderTheme)
    ensures
        final(out).state() == block_spec(old(out).state(), block_view(*block), opts, *theme),
{
    match block {
        Block::Heading { level, text } => render_heading(out, text, *level, opts, theme),
        Block::Paragraph(text) => render_inline_block(out, text, opts.width, TermStyle::plain(), theme),
        Block::List { ordered, items } => render_list(out, *ordered, items, opts.width, theme),
        Block::Quote(items) => render_quote(out, items, opts.width, theme),
        Block::Code { language, content } => render_code(out, language, content, opts.width, theme),
        Block::Table(rows) => render_table(out, rows, opts.width),
        Block::Rule => render_rule(out, opts.width),
        Block::MediaImage { alt, source } => render_image(out, alt, source, opts, theme),
    }
}

/// Whether the last rendered line is empty.
fn last_line_blank(out: &RenderedMarkdown) -> (r: bool)
    ensures
        r == ends_blank(out.state()),
{
    let n = out.lines.len();
    n > 0 && out.lines[n - 1].len() == 0
}

/// Renders markdown `content` into styled lines at `opts.width` cells with the colours of
/// `theme` (see `render_spec`), with the link areas, image slots and sized headings of the
/// lines.
pub fn render_markdown(content: &str, opts: RenderOptions, theme: &RenderTheme) -> (r: RenderedMarkdown)
    ensures
        r.state() == render_spec(content@, opts, *theme),
{
    let mut out = RenderedMarkdown::new();
    if opts.mode == MarkdownMode::Off {
        let lines = split_lines(content);
        let ghost ls = char_rows(lines@);
        let mut k: usize = 0;
        while k < lines.len()
            invariant
                k <= lines.len(),
                ls == char_rows(lines@),
                ls == lines_of(content@),
                plain_lines_from(out.state(), ls, k as nat, theme.accent) == plain_lines_from(empty_render(), ls, 0, theme.accent),
            decreases lines.len() - k,
        {
            let line = string_from_chars(lines[k].as_slice());
            let runs = plain_runs_with_skills(line.as_str(), theme.accent);
            out.push_linked_line(runs);
            k = k + 1;
        }
        return out;
    }
    let blocks = parse_blocks(content);
    let ghost bs = blocks_view(blocks@);
    let mut i: usize = 0;
    while i < blocks.len()
        invariant
            i <= blocks.len(),
            bs == blocks_view(blocks@),
            bs == blocks_from(lines_of(content@), 0),
            blocks_render_from(out.state(), bs, i as nat, opts, *theme) == blocks_render_from(empty_render(), bs, 0, opts, *theme),
        decreases blocks.len() - i,
    {
        render_block(&mut out, &blocks[i], opts, theme);
        if !last_line_blank(&out) {
            let empty: Vec<StyledRun> = Vec::new();
            proof {
                assert(runs_view(empty@) =~= Seq::<RunView>::empty());
            }
            out.push_line(empty);
        }
        proof {
            assert(bs[i as int] == block_view(blocks@[i as int]));
        }
        i = i + 1;
    }
    if last_line_blank(&out) {
        let ghost before = out.state();
        out.lines.pop();
        proof {
            assert(lines_view(out.lines@) =~= before.lines.drop_last());
        }
    }
    out
}

/// A markdown renderer for a terminal with known capabilities.
#[derive(Debug, Clone, Copy)]
pub struct MarkdownRenderer {
    terminal_capabilities: TerminalCapabilities,
}

impl MarkdownRenderer {
    /// A renderer for a terminal with `terminal_capabilities`.
    pub fn new(terminal_capabilities: TerminalCapabilities) -> (r: MarkdownRenderer)
        ensures
            r.capabilities() == terminal_capabilities,
    {
        MarkdownRenderer { terminal_capabilities }
    }

    /// The capabilities of the terminal rendered for.
    pub closed spec fn capabilities(&self) -> TerminalCapabilities {
        self.terminal_capabilities
    }

    /// Renders `content` with the given settings for this terminal (see `render_markdown`).
    pub fn render(
        &self,
        content: &str,
        mode: MarkdownMode,
        width: usize,
        kitty_enhanced_text: bool,
        kitty_heading_downscale: HeadingDownscale,
        image_protocol_enabled: bool,
        theme: &RenderTheme,
    ) -> (r: RenderedMarkdown)
        ensures
            r.state() == render_spec(
                content@,
                (RenderOptions {
                    mode,
                    width,
                    kitty_enhanced_text,
                    kitty_heading_downscale,
                    image_protocol_enabled,
                    terminal_capabilities: self.capabilities(),
                }),
                *theme,
            ),
    {
        render_markdown(
            content,
            RenderOptions {
                mode,
                width,
                kitty_enhanced_text,
                kitty_heading_downscale,
                image_protocol_enabled,
                terminal_capabilities: self.terminal_capabilities,
            },
            theme,
        )
    }
}

/// Every link area lies on a line that exists and is not empty.
pub open spec fn targets_on_lines(targets: Seq<LinkTargetView>, lines: Seq<Seq<RunView>>) -> bool {
    forall|k: int| 0 <= k < targets.len()
        ==> #[trigger] targets[k].line < lines.len() && lines[targets[k].line as int].len() > 0
}

/// Whether the link areas of a rendering lie on its lines.
pub open spec fn render_targets_ok(st: RenderState) -> bool {
    targets_on_lines(st.targets, st.lines)
}

proof fn lemma_targets_more_lines(targets: Seq<LinkTargetView>, lines: Seq<Seq<RunView>>, more: Seq<Seq<RunView>>)
    requires
        targets_on_lines(targets, lines),
    ensures
        targets_on_lines(targets, lines + more),
{
    assert forall|k: int| 0 <= k < targets.len() implies #[trigger] targets[k].line < (lines + more).len()
        && (lines + more)[targets[k].line as int].len() > 0 by {
        assert((lines + more)[targets[k].line as int] == lines[targets[k].line as int]);
    }
}

proof fn lemma_targets_push_line(targets: Seq<LinkTargetView>, lines: Seq<Seq<RunView>>, l: Seq<RunView>)
    requires
        targets_on_lines(targets, lines),
    ensures
        targets_on_lines(targets, lines.push(l)),
{
    lemma_targets_more_lines(targets, lines, seq![l]);
    assert(lines + seq![l] =~= lines.push(l));
}

proof fn lemma_link_targets_from(targets: Seq<LinkTargetView>, lines: Seq<Seq<RunView>>, line: nat, runs: Seq<RunView>, i: nat, column: nat)
    requires
        targets_on_lines(targets, lines),
        line < lines.len(),
        lines[line as int].len() > 0,
    ensures
        targets_on_lines(link_targets_from(targets, line, runs, i, column), lines),
    decreases runs.len() - i,
{
    if i < runs.len() {
        let width = str_display_width(runs[i as int].text) as nat;
        let next = match runs[i as int].link {
            Some(t) => crate::inline::add_target(targets, line, column, width, t),
            None => targets,
        };
        assert(targets_on_lines(next, lines)) by {
            match runs[i as int].link {
                Some(t) => {
                    assert forall|k: int| 0 <= k < next.len() implies #[trigger] next[k].line < lines.len()
                        && lines[next[k].line as int].len() > 0 by {
                        if k < targets.len() - 1 || (k == targets.len() - 1 && next.len() > targets.len()) {
                            assert(next[k].line == targets[k].line);
                        } else if k == targets.len() - 1 {
                            assert(next[k].line == targets.last().line);
                        } else {
                            assert(next[k].line == line);
                        }
                    }
                },
                None => {},
            }
        }
        lemma_link_targets_from(next, lines, line, runs, i + 1, sat_add(column, width));
    }
}

proof fn lemma_with_line(st: RenderState, l: Seq<RunView>)
    requires
        render_targets_ok(st),
    ensures
        render_targets_ok(with_line(st, l)),
{
    lemma_targets_push_line(st.targets, st.lines, l);
}

proof fn lemma_link_targets_no_links(targets: Seq<LinkTargetView>, line: nat, runs: Seq<RunView>, i: nat, column: nat)
    requires
        i >= runs.len(),
    ensures
        link_targets_from(targets, line, runs, i, column) == targets,
{
}

proof fn lemma_with_linked_line(st: RenderState, l: Seq<RunView>)
    requires
        render_targets_ok(st),
    ensures
        render_targets_ok(with_linked_line(st, l)),
{
    lemma_targets_push_line(st.targets, st.lines, l);
    let lines = st.lines.push(l);
    if l.len() > 0 {
        lemma_link_targets_from(st.targets, lines, st.lines.len(), l, 0, 0);
    } else {
        lemma_link_targets_no_links(st.targets, st.lines.len(), l, 0, 0);
    }
}

proof fn lemma_with_lines(st: RenderState, ls: Seq<Seq<RunView>>, k: nat)
    requires
        render_targets_ok(st),
    ensures
        render_targets_ok(with_lines(st, ls, k)),
    decreases ls.len() - k,
{
    if k < ls.len() {
        lemma_with_linked_line(st, ls[k as int]);
        lemma_with_lines(with_linked_line(st, ls[k as int]), ls, k + 1);
    }
}

proof fn lemma_list_from(st: RenderState, ordered: bool, items: Seq<Seq<char>>, i: nat, width: nat, theme: RenderTheme)
    requires
        render_targets_ok(st),
    ensures
        render_targets_ok(list_from(st, ordered, items, i, width, theme)),
    decreases items.len() - i,
{
    if i < items.len() {
        let ls = list_item_lines(items[i as int], i, ordered, width, theme);
        lemma_with_lines(st, ls, 0);
        lemma_list_from(with_lines(st, ls, 0), ordered, items, i + 1, width, theme);
    }
}

proof fn lemma_quote_from(st: RenderState, items: Seq<Seq<char>>, i: nat, width: nat, theme: RenderTheme)
    requires
        render_targets_ok(st),
    ensures
        render_targets_ok(quote_from(st, items, i, width, theme)),
    decreases items.len() - i,
{
    if i < items.len() {
        let ls = quote_item_lines(items[i as int], width, theme);
        lemma_with_lines(st, ls, 0);
        lemma_quote_from(with_lines(st, ls, 0), items, i + 1, width, theme);
    }
}

proof fn lemma_code_lines_from(st: RenderState, ls: Seq<Seq<char>>, k: nat, width: nat, theme: RenderTheme)
    requires
        render_targets_ok(st),
    ensures
        render_targets_ok(code_lines_from(st, ls, k, width, theme)),
    decreases ls.len() - k,
{
    if k < ls.len() {
        let line = seq![plain_run(code_text(ls[k as int], width), style_of(Some(theme.code_fg), Some(theme.code_bg), false, false))];
        lemma_with_line(st, line);
        lemma_code_lines_from(with_line(st, line), ls, k + 1, width, theme);
    }
}

proof fn lemma_table_from(st: RenderState, rows: Seq<Seq<Seq<char>>>, i: nat, col_width: nat)
    requires
        render_targets_ok(st),
    ensures
        render_targets_ok(table_from(st, rows, i, col_width)),
    decreases rows.len() - i,
{
    if i < rows.len() {
        let row_line = seq![plain_run(row_text_from(seq!['|'], rows[i as int], 0, col_width), plain_style())];
        let st1 = with_line(st, row_line);
        lemma_with_line(st, row_line);
        let rule = seq![plain_run(header_rule(rows[0].len(), col_width), plain_style())];
        lemma_with_line(st1, rule);
        let st2 = if i == 0 { with_line(st1, rule) } else { st1 };
        lemma_table_from(st2, rows, i + 1, col_width);
    }
}

proof fn lemma_block(st: RenderState, b: BlockView, opts: RenderOptions, theme: RenderTheme)
    requires
        render_targets_ok(st),
    ensures
        render_targets_ok(block_spec(st, b, opts, theme)),
{
    let width = opts.width as nat;
    match b {
        BlockView::Heading { level, text } => {
            let t = trim(text);
            let style = heading_style_spec(theme, level);
            let st1 = with_line(st, seq![plain_run(t, style)]);
            lemma_with_line(st, seq![plain_run(t, style)]);
            lemma_with_line(st1, Seq::empty());
        },
        BlockView::Paragraph(text) => lemma_with_lines(st, inline_lines(text, plain_style(), width, theme), 0),
        BlockView::List { ordered, items } => lemma_list_from(st, ordered, items, 0, width, theme),
        BlockView::Quote(items) => lemma_quote_from(st, items, 0, width, theme),
        BlockView::Code { language, content } => {
            let st1 = match language {
                Some(l) => if l.len() > 0 {
                    with_line(st, seq![plain_run(" "@ + l + " "@, style_of(Some(theme.selection_fg), Some(theme.selection_bg), true, false))])
                } else {
                    st
                },
                None => st,
            };
            match language {
                Some(l) => lemma_with_line(st, seq![plain_run(" "@ + l + " "@, style_of(Some(theme.selection_fg), Some(theme.selection_bg), true, false))]),
                None => {},
            }
            lemma_code_lines_from(st1, lines_of(content), 0, width, theme);
        },
        BlockView::Table(rows) => {
            if rows.len() > 0 {
                lemma_table_from(st, rows, 0, table_col_width(width, max_cells(rows, 0, 0)));
            }
        },
        BlockView::Rule => lemma_with_line(st, rule_line(width)),
        BlockView::MediaImage { alt, source } => {
            let caption = seq![
                plain_run("[image] "@, style_of(Some(theme.info), None, true, false)),
                plain_run(if alt.len() == 0 { source } else { alt }, style_of(Some(theme.foreground), None, false, false)),
            ];
            let st1 = with_line(st, caption);
            lemma_with_line(st, caption);
            let h = image_height(opts.width as nat);
            let st2 = if opts.mode == MarkdownMode::Full && opts.image_protocol_enabled {
                RenderState {
                    lines: st1.lines + Seq::new(h, |_i: int| Seq::<RunView>::empty()),
                    targets: st1.targets,
                    images: st1.images.push(ImageView { start_line: st.lines.len() + 1, height: h, source }),
                    headings: st1.headings,
                }
            } else {
                st1
            };
            lemma_targets_more_lines(st1.targets, st1.lines, Seq::new(h, |_i: int| Seq::<RunView>::empty()));
            let link_style = style_of(Some(theme.accent), None, false, true);
            let open = seq![plain_run("open "@, link_style), plain_run(source, link_style)];
            let st3 = with_line(st2, open);
            lemma_with_line(st2, open);
            let fin = image_spec(st, alt, source, opts, theme);
            assert(fin.lines == st3.lines);
            assert(st3.lines.last() == open);
            assert forall|k: int| 0 <= k < fin.targets.len() implies #[trigger] fin.targets[k].line < fin.lines.len()
                && fin.lines[fin.targets[k].line as int].len() > 0 by {
                if k < st3.targets.len() {
                    assert(fin.targets[k] == st3.targets[k]);
                } else {
                    assert(fin.targets[k].line == st3.lines.len() - 1);
                }
            }
        },
    }
}

proof fn lemma_close_block(st: RenderState)
    requires
        render_targets_ok(st),
    ensures
        render_targets_ok(close_block(st)),
{
    lemma_with_line(st, Seq::empty());
}

proof fn lemma_blocks_render_from(st: RenderState, bs: Seq<BlockView>, i: nat, opts: RenderOptions, theme: RenderTheme)
    requires
        render_targets_ok(st),
    ensures
        render_targets_ok(blocks_render_from(st, bs, i, opts, theme)),
    decreases bs.len() - i,
{
    if i < bs.len() {
        lemma_block(st, bs[i as int], opts, theme);
        lemma_close_block(block_spec(st, bs[i as int], opts, theme));
        lemma_blocks_render_from(close_block(block_spec(st, bs[i as int], opts, theme)), bs, i + 1, opts, theme);
    }
}

proof fn lemma_plain_lines_from(st: RenderState, ls: Seq<Seq<char>>, k: nat, accent: TermColor)
    requires
        render_targets_ok(st),
    ensures
        render_targets_ok(plain_lines_from(st, ls, k, accent)),
    decreases ls.len() - k,
{
    if k < ls.len() {
        let line = segment_runs(skill_segments_spec(ls[k as int]), plain_style(), accent);
        lemma_with_linked_line(st, line);
        lemma_plain_lines_from(with_linked_line(st, line), ls, k + 1, accent);
    }
}

/// Every clickable link area of rendered markdown lies on one of its lines, and that line
/// is not empty.
pub proof fn law_link_targets_on_rendered_lines(content: Seq<char>, opts: RenderOptions, theme: RenderTheme)
    ensures
        render_targets_ok(render_spec(content, opts, theme)),
{
    if opts.mode == MarkdownMode::Off {
        lemma_plain_lines_from(empty_render(), lines_of(content), 0, theme.accent);
    } else {
        let st = blocks_render_from(empty_render(), blocks_from(lines_of(content), 0), 0, opts, theme);
        lemma_blocks_render_from(empty_render(), blocks_from(lines_of(content), 0), 0, opts, theme);
        if ends_blank(st) {
            let fin = render_spec(content, opts, theme);
            assert forall|k: int| 0 <= k < fin.targets.len() implies #[trigger] fin.targets[k].line < fin.lines.len()
                && fin.lines[fin.targets[k].line as int].len() > 0 by {
                assert(st.targets[k].line < st.lines.len());
                assert(st.lines[st.targets[k].line as int].len() > 0);
                assert(st.targets[k].line != st.lines.len() - 1);
                assert(fin.lines[fin.targets[k].line as int] == st.lines[st.targets[k].line as int]);
            }
        }
    }
}

} // verus!
