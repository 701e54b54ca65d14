//! The chat transcript as lines: each message rendered from markdown, user messages in a
//! bubble, assistant reasoning in a foldable box, with the link areas, image slots, sized
//! headings and fold toggles placed on the transcript's lines, and for each message the line
//! to scroll to when jumping to its answer.
use vstd::prelude::*;
use crate::boxes::{
    Alignment, BoxLine, BoxLineView, alignment_padding_for, alignment_padding_spec, box_bottom_line,
    box_bottom_spec, box_content_line, box_top_line, box_top_spec,
    boxed_runs_spec, runs_cells, runs_width_capped,
};
use crate::inline::{LinkTarget, LinkTargetView, RunView, StyledRun, lines_view, runs_view, sat_add, targets_view};
use crate::input_box::{animated_dots, animated_dots_spec};
use crate::name_set::same_text;
use crate::render::{
    HeadingDownscale, HeadingView, ImageView, images_view, headings_view, clone_runs, MarkdownMode, RenderOptions, RenderState, RenderTheme,
    RenderedHeading, RenderedImage, render_markdown, render_spec, sat_sub, law_link_targets_on_rendered_lines,
    render_targets_ok,
};
use crate::settings_popup::TextAlignment;
use crate::terminal::{KittyHeadingTier, TermColor, TermStyle, TerminalCapabilities, plain_style, rendered_width_spec};
use crate::unicode::str_display_width;
use crate::text::concat_str;
use crate::geometry::{Rect, rect_new, rect_right, sat_add16, sat_sub16};

verus! {

/// A message of the conversation: who sent it, what it says, and the reasoning that came
/// with it, if any.
#[derive(Debug, Clone)]
pub struct ChatMessage {
    pub role: String,
    pub content: String,
    pub thinking_content: Option<String>,
}

/// The abstract form of a message.
pub struct MessageView {
    pub role: Seq<char>,
    pub content: Seq<char>,
    pub thinking: Option<Seq<char>>,
}

/// The abstract form of a message.
pub open spec fn message_view(m: ChatMessage) -> MessageView {
    MessageView {
        role: m.role@,
        content: m.content@,
        thinking: match m.thinking_content {
            Some(t) => Some(t@),
            None => None,
        },
    }
}

/// The abstract form of the messages.
pub open spec fn messages_view(v: Seq<ChatMessage>) -> Seq<MessageView> {
    v.map_values(|m: ChatMessage| message_view(m))
}

/// What the transcript is drawn with: the width of the message area, whether the last
/// message is still streaming, whether reasoning starts folded, the animation frame, the
/// alignments of user and assistant text, the markdown settings and the user bubble's
/// colour.
#[derive(Debug, Clone, Copy, PartialEq, Eq, Structural)]
pub struct TranscriptSettings {
    pub width: u16,
    pub streaming: bool,
    pub collapse_thinking: bool,
    pub frame_tick: u64,
    pub user_alignment: TextAlignment,
    pub ai_alignment: TextAlignment,
    pub markdown_mode: MarkdownMode,
    pub kitty_enhanced_text: bool,
    pub kitty_heading_downscale: HeadingDownscale,
    pub image_protocol_enabled: bool,
    pub terminal_capabilities: TerminalCapabilities,
    pub user_bubble: TermColor,
}

/// The line of a reasoning box's fold toggle: the message it belongs to, the transcript line,
/// and the columns it spans.
#[derive(Debug, Clone, Copy, PartialEq, Eq, Structural)]
pub struct ThinkingToggleLine {
    pub message_idx: usize,
    pub line: usize,
    pub x_offset: u16,
    pub width: u16,
}

/// A heading to be drawn with the terminal's text sizing from transcript line `line`.
#[derive(Debug, Clone)]
pub struct TranscriptHeading {
    pub line: usize,
    pub text: String,
    pub tier: KittyHeadingTier,
    pub style: TermStyle,
    pub alignment: Alignment,
}

/// The transcript: its lines, the fold toggles, the link areas, the image slots, the sized
/// headings, and for each message the line its answer is scrolled to.
#[derive(Debug, Clone)]
pub struct RenderedMessages {
    pub lines: Vec<BoxLine>,
    pub thinking_toggle_lines: Vec<ThinkingToggleLine>,
    pub link_targets: Vec<LinkTarget>,
    pub images: Vec<RenderedImage>,
    pub kitty_headings: Vec<TranscriptHeading>,
    pub answer_anchor_lines: Vec<(usize, usize)>,
}

/// The abstract form of a transcript line.
pub struct LineView {
    pub runs: Seq<RunView>,
    pub alignment: Option<Alignment>,
    pub style: TermStyle,
}

/// The abstract form of a sized heading of the transcript.
pub struct TranscriptHeadingView {
    pub line: nat,
    pub text: Seq<char>,
    pub tier: KittyHeadingTier,
    pub style: TermStyle,
    pub alignment: Alignment,
}

/// The abstract form of a transcript.
pub struct TranscriptState {
    pub lines: Seq<LineView>,
    pub toggles: Seq<ThinkingToggleLine>,
    pub targets: Seq<LinkTargetView>,
    pub images: Seq<ImageView>,
    pub headings: Seq<TranscriptHeadingView>,
    pub anchors: Seq<(usize, usize)>,
}

/// The abstract form of a transcript line.
pub open spec fn line_view(l: BoxLine) -> LineView {
    LineView { runs: runs_view(l.runs@), alignment: l.alignment, style: l.style }
}

/// A boxed row as a transcript line, with no alignment of its own.
pub open spec fn boxed(v: BoxLineView) -> LineView {
    LineView { runs: v.runs, alignment: None, style: v.style }
}

/// The abstract form of the transcript's lines.
pub open spec fn transcript_lines_view(v: Seq<BoxLine>) -> Seq<LineView> {
    v.map_values(|l: BoxLine| line_view(l))
}

/// The abstract form of the sized headings.
pub open spec fn transcript_headings_view(v: Seq<TranscriptHeading>) -> Seq<TranscriptHeadingView> {
    v.map_values(|h: TranscriptHeading| TranscriptHeadingView {
        line: h.line as nat,
        text: h.text@,
        tier: h.tier,
        style: h.style,
        alignment: h.alignment,
    })
}

/// A transcript with nothing in it.
pub open spec fn empty_transcript() -> TranscriptState {
    TranscriptState {
        lines: Seq::empty(),
        toggles: Seq::empty(),
        targets: Seq::empty(),
        images: Seq::empty(),
        headings: Seq::empty(),
        anchors: Seq::empty(),
    }
}

impl RenderedMessages {
    /// The abstract form of the transcript.
    pub open spec fn state(&self) -> TranscriptState {
        TranscriptState {
            lines: transcript_lines_view(self.lines@),
            toggles: self.thinking_toggle_lines@,
            targets: targets_view(self.link_targets@),
            images: images_view(self.images@),
            headings: transcript_headings_view(self.kitty_headings@),
            anchors: self.answer_anchor_lines@,
        }
    }
}

/// The line alignment of a text alignment setting.
pub open spec fn line_alignment(a: TextAlignment) -> Alignment {
    match a {
        TextAlignment::Left => Alignment::Left,
        TextAlignment::Middle => Alignment::Center,
        TextAlignment::Right => Alignment::Right,
    }
}

/// The line alignment of a text alignment setting.
pub fn as_line_alignment(a: TextAlignment) -> (r: Alignment)
    ensures
        r == line_alignment(a),
{
    match a {
        TextAlignment::Left => Alignment::Left,
        TextAlignment::Middle => Alignment::Center,
        TextAlignment::Right => Alignment::Right,
    }
}

/// The style of a box's background.
pub open spec fn fill_of(bg: TermColor) -> TermStyle {
    TermStyle { fg: None, bg: Some(bg), bold: false, italic: false, underlined: false, crossed_out: false }
}

/// The style of a box's title: bold `fg` on `bg`.
pub open spec fn title_of(fg: TermColor, bg: TermColor) -> TermStyle {
    TermStyle { fg: Some(fg), bg: Some(bg), bold: true, italic: false, underlined: false, crossed_out: false }
}

/// The width markdown of a system message is rendered at: two cells less than the area.
pub open spec fn content_width(w: u16) -> nat {
    sat_sub(w as nat, 2)
}

/// The width of a user bubble: the area's, but at least two cells.
pub open spec fn bubble_width(w: u16) -> nat {
    if w >= 2 { w as nat } else { 2 }
}

/// The width assistant markdown is rendered at: two cells less than the bubble width.
pub open spec fn assistant_width(w: u16) -> nat {
    (bubble_width(w) - 2) as nat
}

/// The width user markdown is rendered at: four cells less than the bubble width.
pub open spec fn user_width(w: u16) -> nat {
    sat_sub(bubble_width(w), 4)
}

/// The column a reasoning box starts at: a tenth of the area.
pub open spec fn thinking_x(w: u16) -> nat {
    w as nat / 10
}

/// The width of a reasoning box: eight tenths of the area (the product capped at 16 bits),
/// but at least one cell.
pub open spec fn thinking_box_width(w: u16) -> nat {
    let p: nat = if w as nat * 8 > u16::MAX { u16::MAX as nat } else { w as nat * 8 };
    (if p >= 10 { p } else { 10 }) / 10
}

/// The width reasoning is rendered at: four cells less than its box.
pub open spec fn thinking_width(w: u16) -> nat {
    sat_sub(thinking_box_width(w), 4)
}

/// Whether the reasoning of message `idx` is folded: the default, turned over for the
/// messages in `overrides`.
pub open spec fn thinking_collapsed_spec(overrides: Seq<usize>, idx: nat, collapse: bool) -> bool {
    if overrides.contains(idx as usize) { !collapse } else { collapse }
}

/// The fold toggle's title: while the last message streams with its reasoning folded,
/// "▸ thinking" and the animation's dots; else "▸ show thinking" when folded and
/// "▾ hide thinking" when open.
pub open spec fn thinking_label(collapsed: bool, last_streaming: bool, frame_tick: u64) -> Seq<char> {
    if collapsed && last_streaming {
        "▸ thinking"@ + animated_dots_spec(frame_tick)
    } else if collapsed {
        "▸ show thinking"@
    } else {
        "▾ hide thinking"@
    }
}

/// The padding before line `k` of `lines` aligned by `a` in `width` cells; 0 past the
/// lines.
pub open spec fn pad_at(lines: Seq<Seq<RunView>>, k: nat, width: nat, a: Alignment) -> nat {
    if k < lines.len() { alignment_padding_spec(width, runs_cells(lines[k as int], 0), a) } else { 0 }
}

/// A link area moved down by `line_shift` lines and, when `padded`, right by `col_base`
/// cells and its line's alignment padding in `width` cells.
pub open spec fn shifted_target(
    t: LinkTargetView,
    lines: Seq<Seq<RunView>>,
    line_shift: nat,
    padded: bool,
    col_base: nat,
    width: nat,
    a: Alignment,
) -> LinkTargetView {
    LinkTargetView {
        line: sat_add(t.line, line_shift),
        column: if padded { sat_add(t.column, col_base + pad_at(lines, t.line, width, a)) } else { t.column },
        width: t.width,
        target: t.target,
    }
}

/// The link areas of rendered `lines`, each moved as `shifted_target` says.
pub open spec fn shifted_targets(
    ts: Seq<LinkTargetView>,
    lines: Seq<Seq<RunView>>,
    line_shift: nat,
    padded: bool,
    col_base: nat,
    width: nat,
    a: Alignment,
) -> Seq<LinkTargetView> {
    Seq::new(ts.len(), |k: int| shifted_target(ts[k], lines, line_shift, padded, col_base, width, a))
}

/// Rendered lines, each as a content row of a box `width` cells wide after `inset` cells.
pub open spec fn boxed_lines(ls: Seq<Seq<RunView>>, inset: nat, width: nat, a: Alignment, fill: TermStyle) -> Seq<LineView> {
    Seq::new(ls.len(), |k: int| boxed(boxed_runs_spec(inset, width, ls[k], Some(a), fill)))
}

/// Rendered lines as they are, aligned by `a`.
pub open spec fn aligned_lines(ls: Seq<Seq<RunView>>, a: Alignment) -> Seq<LineView> {
    Seq::new(ls.len(), |k: int| LineView { runs: ls[k], alignment: Some(a), style: plain_style() })
}

/// Image slots moved down by `shift` lines.
pub open spec fn shifted_images(is: Seq<ImageView>, shift: nat) -> Seq<ImageView> {
    Seq::new(is.len(), |k: int| ImageView { start_line: sat_add(is[k].start_line, shift), height: is[k].height, source: is[k].source })
}

/// Sized headings moved down by `shift` lines and aligned by `a`.
pub open spec fn placed_headings(hs: Seq<HeadingView>, shift: nat, a: Alignment) -> Seq<TranscriptHeadingView> {
    Seq::new(hs.len(), |k: int| TranscriptHeadingView {
        line: sat_add(hs[k].start_line, shift),
        text: hs[k].text,
        tier: hs[k].tier,
        style: hs[k].style,
        alignment: a,
    })
}

/// The transcript with one more line.
pub open spec fn with_line(st: TranscriptState, l: LineView) -> TranscriptState {
    TranscriptState { lines: st.lines.push(l), ..st }
}

/// The line that heads a system message: " System " in the theme's warning colour.
pub open spec fn system_line(theme: RenderTheme) -> LineView {
    LineView {
        runs: seq![RunView {
            text: " System "@,
            style: TermStyle { fg: Some(theme.warning), bg: None, bold: false, italic: false, underlined: false, crossed_out: false },
            link: None,
        }],
        alignment: None,
        style: plain_style(),
    }
}

/// An empty line.
pub open spec fn empty_line() -> LineView {
    LineView { runs: Seq::empty(), alignment: None, style: plain_style() }
}

/// The markdown settings reasoning is rendered with: at the reasoning width, with no sized
/// headings and no images.
pub open spec fn thinking_options(s: TranscriptSettings) -> RenderOptions {
    RenderOptions {
        mode: s.markdown_mode,
        width: thinking_width(s.width) as usize,
        kitty_enhanced_text: false,
        kitty_heading_downscale: s.kitty_heading_downscale,
        image_protocol_enabled: false,
        terminal_capabilities: s.terminal_capabilities,
    }
}

/// The width a message's markdown is rendered at, by its role.
pub open spec fn message_width(role: Seq<char>, w: u16) -> nat {
    if role == "user"@ {
        user_width(w)
    } else if role == "assistant"@ {
        assistant_width(w)
    } else {
        content_width(w)
    }
}

/// The markdown settings a message is rendered with.
pub open spec fn body_options(s: TranscriptSettings, role: Seq<char>) -> RenderOptions {
    RenderOptions {
        mode: s.markdown_mode,
        width: message_width(role, s.width) as usize,
        kitty_enhanced_text: s.kitty_enhanced_text,
        kitty_heading_downscale: s.kitty_heading_downscale,
        image_protocol_enabled: s.image_protocol_enabled,
        terminal_capabilities: s.terminal_capabilities,
    }
}

/// The alignment of a message's lines: the user's or the assistant's setting, left for
/// other roles.
pub open spec fn message_alignment(role: Seq<char>, s: TranscriptSettings) -> Alignment {
    if role == "user"@ {
        line_alignment(s.user_alignment)
    } else if role == "assistant"@ {
        line_alignment(s.ai_alignment)
    } else {
        Alignment::Left
    }
}

/// The transcript after the reasoning box of message `idx`, and the line its answer is
/// scrolled to. The box's title row is the fold toggle. Folded, that row is all, and the
/// answer line is the toggle. Open, the reasoning follows as the box's content rows, its
/// links placed in the box, then the closing row; the answer line is six lines above the
/// end, but not above the toggle.
pub open spec fn reasoning_spec(
    st: TranscriptState,
    idx: nat,
    thinking: Seq<char>,
    collapsed: bool,
    last_streaming: bool,
    a: Alignment,
    s: TranscriptSettings,
    theme: RenderTheme,
) -> (TranscriptState, nat) {
    let tx = thinking_x(s.width);
    let tb = thinking_box_width(s.width);
    let ti = thinking_width(s.width);
    let fill = fill_of(theme.code_bg);
    let toggle_line = st.lines.len();
    let st1 = TranscriptState {
        lines: st.lines.push(boxed(box_top_spec(tx, tb, thinking_label(collapsed, last_streaming, s.frame_tick), title_of(TermColor::Yellow, theme.code_bg), fill))),
        toggles: st.toggles.push(ThinkingToggleLine { message_idx: idx as usize, line: toggle_line as usize, x_offset: tx as u16, width: tb as u16 }),
        ..st
    };
    if collapsed {
        (st1, toggle_line)
    } else {
        let r = render_spec(thinking, thinking_options(s), theme);
        let st2 = TranscriptState {
            lines: (st1.lines + boxed_lines(r.lines, tx, ti, a, fill)).push(boxed(box_bottom_spec(tx, tb, fill))),
            targets: st1.targets + shifted_targets(r.targets, r.lines, toggle_line + 1, true, tx + 2, ti, a),
            ..st1
        };
        let back = sat_sub(st2.lines.len(), 6);
        (st2, if back >= toggle_line { back } else { toggle_line })
    }
}

/// The reasoning step of message `idx` of `n`: a reasoning box for an assistant message with
/// reasoning that is not empty; otherwise nothing, with the answer line at the end.
pub open spec fn thinking_step(
    st: TranscriptState,
    idx: nat,
    m: MessageView,
    n: nat,
    s: TranscriptSettings,
    theme: RenderTheme,
    overrides: Seq<usize>,
) -> (TranscriptState, nat) {
    if m.role == "assistant"@ && m.thinking is Some && m.thinking.unwrap().len() > 0 {
        reasoning_spec(
            st,
            idx,
            m.thinking.unwrap(),
            thinking_collapsed_spec(overrides, idx, s.collapse_thinking),
            idx + 1 == n && s.streaming,
            message_alignment(m.role, s),
            s,
            theme,
        )
    } else {
        (st, st.lines.len())
    }
}

/// What a message's content renders to.
pub open spec fn message_render(m: MessageView, s: TranscriptSettings, theme: RenderTheme) -> RenderState {
    render_spec(m.content, body_options(s, m.role), theme)
}

/// The transcript after a message's content, and the line the content starts at. A user
/// message is a bubble: a title row with `user_name`, the content as the bubble's rows with
/// its links placed in the bubble, and a closing row. Other messages add their lines as they
/// are, aligned. Image slots and sized headings are moved to where the content starts.
pub open spec fn body_spec(
    st: TranscriptState,
    m: MessageView,
    s: TranscriptSettings,
    theme: RenderTheme,
    user_name: Seq<char>,
) -> (TranscriptState, nat) {
    let is_user = m.role == "user"@;
    let a = message_alignment(m.role, s);
    let r = message_render(m, s, theme);
    let fill = fill_of(s.user_bubble);
    let st1 = if is_user {
        with_line(st, boxed(box_top_spec(0, bubble_width(s.width), user_name, title_of(TermColor::Cyan, s.user_bubble), fill)))
    } else {
        st
    };
    let cs = st1.lines.len();
    let lines = st1.lines + (if is_user { boxed_lines(r.lines, 0, user_width(s.width), a, fill) } else { aligned_lines(r.lines, a) });
    (
        TranscriptState {
            lines: if is_user { lines.push(boxed(box_bottom_spec(0, bubble_width(s.width), fill))) } else { lines },
            targets: st1.targets + shifted_targets(r.targets, r.lines, cs, is_user, 2, user_width(s.width), a),
            images: st1.images + shifted_images(r.images, cs),
            headings: st1.headings + placed_headings(r.headings, cs, a),
            ..st1
        },
        cs,
    )
}

/// The transcript after message `idx` of `n`: a system message is headed by the system
/// line; then the reasoning box and the content; the message's answer line is recorded (the
/// start of its content when that comes first and is not empty); and an empty line follows
/// unless this is the last message and it is still streaming.
pub open spec fn message_spec(
    st: TranscriptState,
    idx: nat,
    m: MessageView,
    n: nat,
    s: TranscriptSettings,
    theme: RenderTheme,
    overrides: Seq<usize>,
    user_name: Seq<char>,
) -> TranscriptState {
    let st1 = if m.role == "system"@ { with_line(st, system_line(theme)) } else { st };
    let t = thinking_step(st1, idx, m, n, s, theme, overrides);
    let b = body_spec(t.0, m, s, theme, user_name);
    let anchor = if message_render(m, s, theme).lines.len() > 0 && b.1 < t.1 { b.1 } else { t.1 };
    let st4 = TranscriptState { anchors: b.0.anchors.push((idx as usize, anchor as usize)), ..b.0 };
    if idx + 1 == n && s.streaming { st4 } else { with_line(st4, empty_line()) }
}

/// The transcript after messages `msgs[i..]`.
pub open spec fn transcript_from(
    st: TranscriptState,
    msgs: Seq<MessageView>,
    i: nat,
    s: TranscriptSettings,
    theme: RenderTheme,
    overrides: Seq<usize>,
    user_name: Seq<char>,
) -> TranscriptState
    decreases msgs.len() - i,
{
    if i >= msgs.len() {
        st
    } else {
        transcript_from(message_spec(st, i, msgs[i as int], msgs.len(), s, theme, overrides, user_name), msgs, i + 1, s, theme, overrides, user_name)
    }
}

/// The transcript of `msgs`.
pub open spec fn transcript_spec(
    msgs: Seq<MessageView>,
    s: TranscriptSettings,
    theme: RenderTheme,
    overrides: Seq<usize>,
    user_name: Seq<char>,
) -> TranscriptState {
    transcript_from(empty_transcript(), msgs, 0, s, theme, overrides, user_name)
}

/// Whether the reasoning of message `idx` is folded (see `thinking_collapsed_spec`).
pub fn thinking_collapsed(overrides: &Vec<usize>, idx: usize, collapse: bool) -> (r: bool)
    ensures
        r == thinking_collapsed_spec(overrides@, idx as nat, collapse),
{
    let mut i: usize = 0;
    while i < overrides.len()
        invariant
            i <= overrides.len(),
            forall|j: int| 0 <= j < i ==> overrides@[j] != idx,
        decreases overrides.len() - i,
    {
        if overrides[i] == idx {
            proof {
                assert(overrides@.contains(idx));
            }
            return !collapse;
        }
        i = i + 1;
    }
    collapse
}

impl RenderedMessages {
    /// A transcript with nothing in it.
    pub fn new() -> (r: RenderedMessages)
        ensures
            r.state() == empty_transcript(),
    {
        let r = RenderedMessages {
            lines: Vec::new(),
            thinking_toggle_lines: Vec::new(),
            link_targets: Vec::new(),
            images: Vec::new(),
            kitty_headings: Vec::new(),
            answer_anchor_lines: Vec::new(),
        };
        proof {
            assert(r.state().lines =~= Seq::<LineView>::empty());
            assert(r.state().targets =~= Seq::<LinkTargetView>::empty());
            assert(r.state().images =~= Seq::<ImageView>::empty());
            assert(r.state().headings =~= Seq::<TranscriptHeadingView>::empty());
        }
        r
    }

    /// Adds a line.
    fn push_line(&mut self, l: BoxLine)
        ensures
            final(self).state() == with_line(old(self).state(), line_view(l)),
    {
        let ghost before = self.state();
        let ghost lv = line_view(l);
        self.lines.push(l);
        proof {
            assert(self.state().lines =~= before.lines.push(lv));
        }
    }

    /// Adds rendered lines as the content rows of a box `width` cells wide after `inset`
    /// cells, aligned by `a`.
    fn push_boxed_lines(&mut self, lines: &Vec<Vec<StyledRun>>, inset: usize, width: usize, a: Alignment, fill: TermStyle)
        ensures
            final(self).state() == (TranscriptState {
                lines: old(self).state().lines + boxed_lines(lines_view(lines@), inset as nat, width as nat, a, fill),
                ..old(self).state()
            }),
    {
        let ghost ls = lines_view(lines@);
        let ghost before = self.state();
        let ghost all = boxed_lines(ls, inset as nat, width as nat, a, fill);
        let mut k: usize = 0;
        while k < lines.len()
            invariant
                k <= lines.len(),
                ls == lines_view(lines@),
                all == boxed_lines(ls, inset as nat, width as nat, a, fill),
                self.state() == (TranscriptState { lines: before.lines + all.take(k as int), ..before }),
            decreases lines.len() - k,
        {
            let runs = clone_runs(&lines[k]);
            let row = box_content_line(inset, width, BoxLine { runs, alignment: Some(a), style: TermStyle::plain() }, fill);
            proof {
                assert(ls[k as int] == runs_view(lines@[k as int]@));
                assert(line_view(row) == all[k as int]);
            }
            self.push_line(row);
            proof {
                assert(before.lines + all.take(k + 1) =~= (before.lines + all.take(k as int)).push(all[k as int]));
            }
            k = k + 1;
        }
        proof {
            assert(all.take(k as int) =~= all);
        }
    }

    /// Adds rendered lines as they are, aligned by `a`.
    fn push_aligned_lines(&mut self, lines: &Vec<Vec<StyledRun>>, a: Alignment)
        ensures
            final(self).state() == (TranscriptState {
                lines: old(self).state().lines + aligned_lines(lines_view(lines@), a),
                ..old(self).state()
            }),
    {
        let ghost ls = lines_view(lines@);
        let ghost before = self.state();
        let ghost all = aligned_lines(ls, a);
        let mut k: usize = 0;
        while k < lines.len()
            invariant
                k <= lines.len(),
                ls == lines_view(lines@),
                all == aligned_lines(ls, a),
                self.state() == (TranscriptState { lines: before.lines + all.take(k as int), ..before }),
            decreases lines.len() - k,
        {
            let runs = clone_runs(&lines[k]);
            let row = BoxLine { runs, alignment: Some(a), style: TermStyle::plain() };
            proof {
                assert(ls[k as int] == runs_view(lines@[k as int]@));
                assert(line_view(row) == all[k as int]);
            }
            self.push_line(row);
            proof {
                assert(before.lines + all.take(k + 1) =~= (before.lines + all.take(k as int)).push(all[k as int]));
            }
            k = k + 1;
        }
        proof {
            assert(all.take(k as int) =~= all);
        }
    }

    /// Adds the link areas of rendered `lines`, moved as `shifted_target` says.
    fn push_targets(
        &mut self,
        ts: &Vec<LinkTarget>,
        lines: &Vec<Vec<StyledRun>>,
        line_shift: usize,
        padded: bool,
        col_base: usize,
        width: usize,
        a: Alignment,
    )
        requires
            col_base + width <= usize::MAX,
        ensures
            final(self).state() == (TranscriptState {
                targets: old(self).state().targets + shifted_targets(
                    targets_view(ts@),
                    lines_view(lines@),
                    line_shift as nat,
                    padded,
                    col_base as nat,
                    width as nat,
                    a,
                ),
                ..old(self).state()
            }),
    {
        let ghost ls = lines_view(lines@);
        let ghost tv = targets_view(ts@);
        let ghost before = self.state();
        let ghost all = shifted_targets(tv, ls, line_shift as nat, padded, col_base as nat, width as nat, a);
        let mut k: usize = 0;
        while k < ts.len()
            invariant
                k <= ts.len(),
                ls == lines_view(lines@),
                tv == targets_view(ts@),
                all == shifted_targets(tv, ls, line_shift as nat, padded, col_base as nat, width as nat, a),
                col_base + width <= usize::MAX,
                self.state() == (TranscriptState { targets: before.targets + all.take(k as int), ..before }),
            decreases ts.len() - k,
        {
            let t = &ts[k];
            let pad: usize = if padded && t.line < lines.len() {
                let cells = runs_width_capped(&lines[t.line], width);
                proof {
                    assert(ls[t.line as int] == runs_view(lines@[t.line as int]@));
                }
                alignment_padding_for(width, cells, a)
            } else {
                0
            };
            let column = if padded { t.column.saturating_add(col_base + pad) } else { t.column };
            let moved = LinkTarget { line: t.line.saturating_add(line_shift), column, width: t.width, target: t.target.clone() };
            let ghost old_targets = self.state().targets;
            self.link_targets.push(moved);
            proof {
                assert(tv[k as int] == targets_view(ts@)[k as int]);
                assert(targets_view(self.link_targets@) =~= old_targets.push(all[k as int]));
                assert(before.targets + all.take(k + 1) =~= (before.targets + all.take(k as int)).push(all[k as int]));
            }
            k = k + 1;
        }
        proof {
            assert(all.take(k as int) =~= all);
        }
    }

    /// Adds image slots moved down by `shift` lines.
    fn push_images(&mut self, is: &Vec<RenderedImage>, shift: usize)
        ensures
            final(self).state() == (TranscriptState {
                images: old(self).state().images + shifted_images(images_view(is@), shift as nat),
                ..old(self).state()
            }),
    {
        let ghost iv = images_view(is@);
        let ghost before = self.state();
        let ghost all = shifted_images(iv, shift as nat);
        let mut k: usize = 0;
        while k < is.len()
            invariant
                k <= is.len(),
                iv == images_view(is@),
                all == shifted_images(iv, shift as nat),
                self.state() == (TranscriptState { images: before.images + all.take(k as int), ..before }),
            decreases is.len() - k,
        {
            let img = &is[k];
            let moved = RenderedImage { start_line: img.start_line.saturating_add(shift), height: img.height, source: img.source.clone() };
            let ghost old_images = self.state().images;
            self.images.push(moved);
            proof {
                assert(iv[k as int] == images_view(is@)[k as int]);
                assert(images_view(self.images@) =~= old_images.push(all[k as int]));
                assert(before.images + all.take(k + 1) =~= (before.images + all.take(k as int)).push(all[k as int]));
            }
            k = k + 1;
        }
        proof {
            assert(all.take(k as int) =~= all);
        }
    }

    /// Adds sized headings moved down by `shift` lines and aligned by `a`.
    fn push_headings(&mut self, hs: &Vec<RenderedHeading>, shift: usize, a: Alignment)
        ensures
            final(self).state() == (TranscriptState {
                headings: old(self).state().headings + placed_headings(headings_view(hs@), shift as nat, a),
                ..old(self).state()
            }),
    {
        let ghost hv = headings_view(hs@);
        let ghost before = self.state();
        let ghost all = placed_headings(hv, shift as nat, a);
        let mut k: usize = 0;
        while k < hs.len()
            invariant
                k <= hs.len(),
                hv == headings_view(hs@),
                all == placed_headings(hv, shift as nat, a),
                self.state() == (TranscriptState { headings: before.headings + all.take(k as int), ..before }),
            decreases hs.len() - k,
        {
            let h = &hs[k];
            let placed = TranscriptHeading {
                line: h.start_line.saturating_add(shift),
                text: h.text.clone(),
                tier: h.tier,
                style: h.style,
                alignment: a,
            };
            let ghost old_headings = self.state().headings;
            self.kitty_headings.push(placed);
            proof {
                assert(hv[k as int] == headings_view(hs@)[k as int]);
                assert(transcript_headings_view(self.kitty_headings@) =~= old_headings.push(all[k as int]));
                assert(before.headings + all.take(k + 1) =~= (before.headings + all.take(k as int)).push(all[k as int]));
            }
            k = k + 1;
        }
        proof {
            assert(all.take(k as int) =~= all);
        }
    }
}

impl RenderedMessages {
    /// Adds the reasoning box of message `idx` and returns the line its answer is scrolled
    /// to (see `reasoning_spec`).
    fn push_reasoning(
        &mut self,
        idx: usize,
        thinking: &str,
        collapsed: bool,
        last_streaming: bool,
        a: Alignment,
        s: TranscriptSettings,
        theme: &RenderTheme,
    ) -> (anchor: usize)
        ensures
            (final(self).state(), anchor as nat) == reasoning_spec(old(self).state(), idx as nat, thinking@, collapsed, last_streaming, a, s, *theme),
    {
        let ghost st = self.state();
        let tx: u16 = s.width / 10;
        let product: u32 = (s.width as u32) * 8;
        let capped: u32 = if product > 65535 { 65535 } else { product };
        let at_least: u32 = if capped >= 10 { capped } else { 10 };
        let tb: u16 = (at_least / 10) as u16;
        let ti: usize = if tb >= 4 { (tb - 4) as usize } else { 0 };
        let fill = TermStyle { fg: None, bg: Some(theme.code_bg), bold: false, italic: false, underlined: false, crossed_out: false };
        let label = if collapsed && last_streaming {
            concat_str(String::from_str("▸ thinking"), animated_dots(s.frame_tick))
        } else if collapsed {
            String::from_str("▸ show thinking")
        } else {
            String::from_str("▾ hide thinking")
        };
        let toggle_line = self.lines.len();
        let top = box_top_line(
            tx as usize,
            tb as usize,
            label.as_str(),
            TermStyle { fg: Some(TermColor::Yellow), bg: Some(theme.code_bg), bold: true, italic: false, underlined: false, crossed_out: false },
            fill,
        );
        self.push_line(top);
        let content_start = self.lines.len();
        self.thinking_toggle_lines.push(ThinkingToggleLine { message_idx: idx, line: toggle_line, x_offset: tx, width: tb });
        let ghost st1 = self.state();
        proof {
            assert(tx as nat == thinking_x(s.width));
            assert(tb as nat == thinking_box_width(s.width));
            assert(ti as nat == thinking_width(s.width));
            assert(fill == fill_of(theme.code_bg));
            assert(label@ == thinking_label(collapsed, last_streaming, s.frame_tick));
        }
        let mut anchor = toggle_line;
        if !collapsed {
            let opts = RenderOptions {
                mode: s.markdown_mode,
                width: ti,
                kitty_enhanced_text: false,
                kitty_heading_downscale: s.kitty_heading_downscale,
                image_protocol_enabled: false,
                terminal_capabilities: s.terminal_capabilities,
            };
            let r = render_markdown(thinking, opts, theme);
            proof {
                assert(opts == thinking_options(s));
            }
            self.push_targets(&r.link_targets, &r.lines, content_start, true, tx as usize + 2, ti, a);
            self.push_boxed_lines(&r.lines, tx as usize, ti, a, fill);
            let bottom = box_bottom_line(tx as usize, tb as usize, fill);
            self.push_line(bottom);
            let back = self.lines.len().saturating_sub(6);
            anchor = if back >= toggle_line { back } else { toggle_line };
        }
        if self.lines.len() > content_start {
            anchor
        } else {
            toggle_line
        }
    }
}

impl RenderedMessages {
    /// Adds a message's content and returns the line it starts at and whether it rendered
    /// to any line (see `body_spec`).
    fn push_body(
        &mut self,
        m: &ChatMessage,
        is_user: bool,
        is_assistant: bool,
        a: Alignment,
        s: TranscriptSettings,
        theme: &RenderTheme,
        user_name: &str,
    ) -> (r: (usize, bool))
        requires
            is_user == (m.role@ == "user"@),
            is_assistant == (m.role@ == "assistant"@),
            a == message_alignment(m.role@, s),
        ensures
            (final(self).state(), r.0 as nat) == body_spec(old(self).state(), message_view(*m), s, *theme, user_name@),
            r.1 == (message_render(message_view(*m), s, *theme).lines.len() > 0),
    {
        let bw: u16 = if s.width >= 2 { s.width } else { 2 };
        let uw: usize = if bw >= 4 { (bw - 4) as usize } else { 0 };
        let width: usize = if is_user {
            uw
        } else if is_assistant {
            (bw - 2) as usize
        } else if s.width >= 2 {
            (s.width - 2) as usize
        } else {
            0
        };
        let opts = RenderOptions {
            mode: s.markdown_mode,
            width,
            kitty_enhanced_text: s.kitty_enhanced_text,
            kitty_heading_downscale: s.kitty_heading_downscale,
            image_protocol_enabled: s.image_protocol_enabled,
            terminal_capabilities: s.terminal_capabilities,
        };
        let rendered = render_markdown(m.content.as_str(), opts, theme);
        proof {
            assert(opts == body_options(s, m.role@));
        }
        let fill = TermStyle { fg: None, bg: Some(s.user_bubble), bold: false, italic: false, underlined: false, crossed_out: false };
        if is_user {
            let top = box_top_line(
                0,
                bw as usize,
                user_name,
                TermStyle { fg: Some(TermColor::Cyan), bg: Some(s.user_bubble), bold: true, italic: false, underlined: false, crossed_out: false },
                fill,
            );
            self.push_line(top);
        }
        let cs = self.lines.len();
        self.push_headings(&rendered.kitty_headings, cs, a);
        self.push_images(&rendered.images, cs);
        self.push_targets(&rendered.link_targets, &rendered.lines, cs, is_user, 2, uw, a);
        if is_user {
            self.push_boxed_lines(&rendered.lines, 0, uw, a, fill);
            let bottom = box_bottom_line(0, bw as usize, fill);
            self.push_line(bottom);
        } else {
            self.push_aligned_lines(&rendered.lines, a);
        }
        (cs, rendered.lines.len() > 0)
    }

    /// Adds message `idx` of `n` (see `message_spec`).
    fn push_message(
        &mut self,
        idx: usize,
        m: &ChatMessage,
        n: usize,
        s: TranscriptSettings,
        theme: &RenderTheme,
        overrides: &Vec<usize>,
        user_name: &str,
    )
        requires
            idx < n,
        ensures
            final(self).state() == message_spec(old(self).state(), idx as nat, message_view(*m), n as nat, s, *theme, overrides@, user_name@),
    {
        let is_user = same_text(m.role.as_str(), "user");
        let is_assistant = same_text(m.role.as_str(), "assistant");
        let is_system = same_text(m.role.as_str(), "system");
        let last_streaming = idx == n - 1 && s.streaming;
        let a = if is_user {
            as_line_alignment(s.user_alignment)
        } else if is_assistant {
            as_line_alignment(s.ai_alignment)
        } else {
            Alignment::Left
        };
        if is_system {
            let label = StyledRun {
                text: String::from_str(" System "),
                style: TermStyle { fg: Some(theme.warning), bg: None, bold: false, italic: false, underlined: false, crossed_out: false },
                link: None,
            };
            let line = BoxLine { runs: vec![label], alignment: None, style: TermStyle::plain() };
            proof {
                assert(line_view(line).runs =~= system_line(*theme).runs);
            }
            self.push_line(line);
        }
        let mut anchor = self.lines.len();
        if is_assistant {
            match &m.thinking_content {
                Some(t) => {
                    if !t.as_str().is_empty() {
                        let collapsed = thinking_collapsed(overrides, idx, s.collapse_thinking);
                        anchor = self.push_reasoning(idx, t.as_str(), collapsed, last_streaming, a, s, theme);
                    }
                },
                None => {},
            }
        }
        let (cs, nonempty) = self.push_body(m, is_user, is_assistant, a, s, theme, user_name);
        if nonempty && cs < anchor {
            anchor = cs;
        }
        self.answer_anchor_lines.push((idx, anchor));
        if idx < n - 1 || !last_streaming {
            let line = BoxLine { runs: Vec::new(), alignment: None, style: TermStyle::plain() };
            proof {
                assert(line_view(line).runs =~= Seq::<RunView>::empty());
            }
            self.push_line(line);
        }
    }
}

/// The transcript of `messages` (see `transcript_spec`): `fold_overrides` lists the messages
/// whose reasoning is folded the other way from the default, `user_name` titles the user
/// bubbles.
pub fn build_messages(
    messages: &Vec<ChatMessage>,
    fold_overrides: &Vec<usize>,
    user_name: &str,
    settings: TranscriptSettings,
    theme: &RenderTheme,
) -> (r: RenderedMessages)
    ensures
        r.state() == transcript_spec(messages_view(messages@), settings, *theme, fold_overrides@, user_name@),
{
    let ghost mv = messages_view(messages@);
    let mut out = RenderedMessages::new();
    let mut i: usize = 0;
    while i < messages.len()
        invariant
            i <= messages.len(),
            mv == messages_view(messages@),
            transcript_from(out.state(), mv, i as nat, settings, *theme, fold_overrides@, user_name@)
                == transcript_spec(mv, settings, *theme, fold_overrides@, user_name@),
        decreases messages.len() - i,
    {
        proof {
            assert(mv[i as int] == message_view(messages@[i as int]));
        }
        out.push_message(i, &messages[i], messages.len(), settings, theme, fold_overrides, user_name);
        i = i + 1;
    }
    out
}

proof fn lemma_message_anchor(
    st: TranscriptState,
    idx: nat,
    m: MessageView,
    n: nat,
    s: TranscriptSettings,
    theme: RenderTheme,
    overrides: Seq<usize>,
    user_name: Seq<char>,
)
    ensures
        message_spec(st, idx, m, n, s, theme, overrides, user_name).anchors.len() == st.anchors.len() + 1,
        message_spec(st, idx, m, n, s, theme, overrides, user_name).anchors.drop_last() == st.anchors,
        message_spec(st, idx, m, n, s, theme, overrides, user_name).anchors.last().0 == idx as usize,
{
    let st1 = if m.role == "system"@ { with_line(st, system_line(theme)) } else { st };
    let t = thinking_step(st1, idx, m, n, s, theme, overrides);
    let b = body_spec(t.0, m, s, theme, user_name);
    assert(st1.anchors == st.anchors);
    assert(t.0.anchors == st1.anchors);
    assert(b.0.anchors == t.0.anchors);
    let r = message_spec(st, idx, m, n, s, theme, overrides, user_name);
    assert(r.anchors.drop_last() =~= st.anchors);
}

proof fn lemma_transcript_anchors(
    st: TranscriptState,
    msgs: Seq<MessageView>,
    i: nat,
    s: TranscriptSettings,
    theme: RenderTheme,
    overrides: Seq<usize>,
    user_name: Seq<char>,
)
    requires
        i <= msgs.len() <= usize::MAX,
        st.anchors.len() == i,
        forall|k: int| 0 <= k < i ==> #[trigger] st.anchors[k].0 == k,
    ensures
        transcript_from(st, msgs, i, s, theme, overrides, user_name).anchors.len() == msgs.len(),
        forall|k: int| 0 <= k < msgs.len() ==> #[trigger] transcript_from(st, msgs, i, s, theme, overrides, user_name).anchors[k].0 == k,
    decreases msgs.len() - i,
{
    if i < msgs.len() {
        let next = message_spec(st, i, msgs[i as int], msgs.len(), s, theme, overrides, user_name);
        lemma_message_anchor(st, i, msgs[i as int], msgs.len(), s, theme, overrides, user_name);
        assert forall|k: int| 0 <= k < i + 1 implies #[trigger] next.anchors[k].0 == k by {
            if k < i {
                assert(next.anchors[k] == next.anchors.drop_last()[k]);
            }
        }
        lemma_transcript_anchors(next, msgs, i + 1, s, theme, overrides, user_name);
    }
}

/// Every message of the transcript gets exactly one answer line, in message order: the
/// `k`-th recorded answer line belongs to message `k`.
pub proof fn law_one_answer_line_per_message(
    msgs: Seq<MessageView>,
    s: TranscriptSettings,
    theme: RenderTheme,
    overrides: Seq<usize>,
    user_name: Seq<char>,
)
    requires
        msgs.len() <= usize::MAX,
    ensures
        transcript_spec(msgs, s, theme, overrides, user_name).anchors.len() == msgs.len(),
        forall|k: int| 0 <= k < msgs.len() ==> #[trigger] transcript_spec(msgs, s, theme, overrides, user_name).anchors[k].0 == k,
{
    lemma_transcript_anchors(empty_transcript(), msgs, 0, s, theme, overrides, user_name);
}

/// Where the transcript is drawn: the viewport (the area less a column for the scrollbar
/// when one is shown), the scrollbar's track, the first line shown, what is left of a
/// pending jump to a message's answer, and the clickable areas of the fold toggles and links
/// in view.
#[derive(Debug, Clone)]
pub struct MessagePlacement {
    pub viewport: Rect,
    pub scrollbar_track: Option<Rect>,
    pub scroll_offset: usize,
    pub scroll_to_message: Option<usize>,
    pub thinking_hit_areas: Vec<(usize, Rect)>,
    pub link_hit_areas: Vec<(Rect, String)>,
}

/// The abstract form of the link areas in view.
pub open spec fn link_areas_view(v: Seq<(Rect, String)>) -> Seq<(Rect, Seq<char>)> {
    v.map_values(|p: (Rect, String)| (p.0, p.1@))
}

/// Whether a scrollbar is drawn: when enabled, the lines do not fit and the area is wider
/// than one column.
pub open spec fn shows_scrollbar(total: nat, area: Rect, enabled: bool) -> bool {
    enabled && total > area.height && area.width > 1
}

/// The area the lines are drawn in: one column narrower when a scrollbar is drawn.
pub open spec fn viewport_of(area: Rect, scrollbar: bool) -> Rect {
    if scrollbar {
        Rect { x: area.x, y: area.y, width: sat_sub16(area.width, 1), height: area.height }
    } else {
        area
    }
}

/// The answer line recorded for message `idx`, the first from `anchors[i..]`; `fallback` when
/// none is.
pub open spec fn first_anchor(anchors: Seq<(usize, usize)>, idx: usize, i: nat, fallback: nat) -> nat
    decreases anchors.len() - i,
{
    if i >= anchors.len() {
        fallback
    } else if anchors[i as int].0 == idx {
        anchors[i as int].1 as nat
    } else {
        first_anchor(anchors, idx, i + 1, fallback)
    }
}

/// The first line shown of `total` lines in `height` rows: the last page while streaming;
/// else the answer line of the message jumped to (the last page when it has none); else the
/// current offset; never past the last page.
pub open spec fn placed_scroll(
    total: nat,
    height: nat,
    current: nat,
    streaming: bool,
    jump: Option<usize>,
    anchors: Seq<(usize, usize)>,
) -> nat {
    let max = sat_sub(total, height);
    if streaming {
        max
    } else {
        match jump {
            Some(idx) => {
                let a = first_anchor(anchors, idx, 0, max);
                if a <= max { a } else { max }
            },
            None => if current <= max { current } else { max },
        }
    }
}

/// Whether line `line` is in view from `scroll` in `height` rows.
pub open spec fn line_in_view(line: nat, scroll: nat, height: nat) -> bool {
    scroll <= line && line < scroll + height
}

/// The clickable area of a fold toggle in view: its columns from the viewport's left edge
/// (cut to the viewport), on its row.
pub open spec fn toggle_area(t: ThinkingToggleLine, vp: Rect, scroll: nat) -> Rect {
    let room = sat_sub16(vp.width, t.x_offset);
    rect_new(sat_add16(vp.x, t.x_offset), (vp.y + (t.line - scroll)) as u16, if t.width <= room { t.width } else { room }, 1)
}

/// The areas of the toggles of `toggles[i..]` in view, after `acc`.
pub open spec fn toggle_areas_from(
    acc: Seq<(usize, Rect)>,
    toggles: Seq<ThinkingToggleLine>,
    i: nat,
    vp: Rect,
    scroll: nat,
) -> Seq<(usize, Rect)>
    decreases toggles.len() - i,
{
    if i >= toggles.len() {
        acc
    } else {
        let t = toggles[i as int];
        let next = if line_in_view(t.line as nat, scroll, vp.height as nat) { acc.push((t.message_idx, toggle_area(t, vp, scroll))) } else { acc };
        toggle_areas_from(next, toggles, i + 1, vp, scroll)
    }
}

/// The column a line starts at in `area` after its alignment padding, its width (capped at
/// the largest `usize`) truncated to 16 bits.
pub open spec fn placed_line_x(area: Rect, l: LineView) -> int {
    let cells = runs_cells(l.runs, 0);
    let w = ((if cells <= usize::MAX { cells } else { usize::MAX as nat }) as u16) as int;
    let spare: int = if area.width >= w { area.width - w } else { 0 };
    area.x + match l.alignment {
        Some(Alignment::Center) => spare / 2,
        Some(Alignment::Right) => spare,
        _ => 0,
    }
}

/// The clickable area of a link in view: from its line's start column and its own column
/// (truncated to 16 bits), on its row, its width capped at 16 bits.
pub open spec fn link_area(t: LinkTargetView, lines: Seq<LineView>, vp: Rect, scroll: nat) -> Rect {
    let lx: u16 = if t.line < lines.len() { placed_line_x(vp, lines[t.line as int]) as u16 } else { vp.x };
    rect_new(
        sat_add16(lx, t.column as u16),
        (vp.y + (t.line - scroll)) as u16,
        if t.width > u16::MAX { u16::MAX } else { t.width as u16 },
        1,
    )
}

/// The areas of the links of `targets[i..]` in view, after `acc`.
pub open spec fn link_areas_from(
    acc: Seq<(Rect, Seq<char>)>,
    targets: Seq<LinkTargetView>,
    i: nat,
    lines: Seq<LineView>,
    vp: Rect,
    scroll: nat,
) -> Seq<(Rect, Seq<char>)>
    decreases targets.len() - i,
{
    if i >= targets.len() {
        acc
    } else {
        let t = targets[i as int];
        let next = if line_in_view(t.line, scroll, vp.height as nat) { acc.push((link_area(t, lines, vp, scroll), t.target)) } else { acc };
        link_areas_from(next, targets, i + 1, lines, vp, scroll)
    }
}

/// The column a line starts at in `area` (see `placed_line_x`).
fn line_start_x(area: Rect, line: &BoxLine) -> (r: u16)
    requires
        area.x + area.width <= u16::MAX,
    ensures
        r == placed_line_x(area, line_view(*line)),
{
    let w = runs_width_capped(&line.runs, usize::MAX) as u16;
    let spare = area.width.saturating_sub(w);
    area.x + match line.alignment {
        Some(Alignment::Center) => spare / 2,
        Some(Alignment::Right) => spare,
        _ => 0,
    }
}

/// The answer line recorded for message `idx` (see `first_anchor`).
fn find_anchor(anchors: &Vec<(usize, usize)>, idx: usize, fallback: usize) -> (r: usize)
    ensures
        r == first_anchor(anchors@, idx, 0, fallback as nat),
{
    let mut i: usize = 0;
    while i < anchors.len()
        invariant
            i <= anchors.len(),
            first_anchor(anchors@, idx, i as nat, fallback as nat) == first_anchor(anchors@, idx, 0, fallback as nat),
        decreases anchors.len() - i,
    {
        if anchors[i].0 == idx {
            return anchors[i].1;
        }
        i = i + 1;
    }
    fallback
}

/// Places the transcript in `area`: `None` when the area has no rows; otherwise the viewport,
/// the scrollbar's track when one is drawn, the first line shown (see `placed_scroll`), the
/// pending jump (taken unless streaming), and the areas of the toggles and links in view.
pub fn place_messages(
    rendered: &RenderedMessages,
    area: Rect,
    show_chat_scrollbar: bool,
    scroll_offset: usize,
    streaming: bool,
    scroll_to_message: Option<usize>,
) -> (p: Option<MessagePlacement>)
    requires
        area.x + area.width <= u16::MAX,
        area.y + area.height <= u16::MAX,
    ensures
        area.height == 0 ==> p is None,
        area.height > 0 ==> p is Some && ({
            let pl = p.unwrap();
            let st = rendered.state();
            let total = rendered.lines@.len();
            let bar = shows_scrollbar(total, area, show_chat_scrollbar);
            let vp = viewport_of(area, bar);
            let scroll = placed_scroll(total, vp.height as nat, scroll_offset as nat, streaming, scroll_to_message, st.anchors);
            &&& pl.viewport == vp
            &&& pl.scrollbar_track == (if bar { Some(rect_new(rect_right(vp), vp.y, 1, vp.height)) } else { None::<Rect> })
            &&& pl.scroll_offset == scroll
            &&& pl.scroll_to_message == (if streaming { scroll_to_message } else { None::<usize> })
            &&& pl.thinking_hit_areas@ == toggle_areas_from(Seq::empty(), st.toggles, 0, vp, scroll)
            &&& link_areas_view(pl.link_hit_areas@) == link_areas_from(Seq::empty(), st.targets, 0, st.lines, vp, scroll)
        }),
{
    if area.height == 0 {
        return None;
    }
    let total = rendered.lines.len();
    let bar = show_chat_scrollbar && total > area.height as usize && area.width > 1;
    let vp = if bar { Rect { x: area.x, y: area.y, width: area.width - 1, height: area.height } } else { area };
    let vh = vp.height as usize;
    let max_scroll = if total >= vh { total - vh } else { 0 };
    let mut scroll = if scroll_offset <= max_scroll { scroll_offset } else { max_scroll };
    let mut jump = scroll_to_message;
    if streaming {
        scroll = max_scroll;
    } else {
        match scroll_to_message {
            Some(idx) => {
                let a = find_anchor(&rendered.answer_anchor_lines, idx, max_scroll);
                scroll = if a <= max_scroll { a } else { max_scroll };
            },
            None => {},
        }
        jump = None;
    }
    let ghost st = rendered.state();
    let mut toggles: Vec<(usize, Rect)> = Vec::new();
    let mut i: usize = 0;
    while i < rendered.thinking_toggle_lines.len()
        invariant
            i <= rendered.thinking_toggle_lines.len(),
            st == rendered.state(),
            scroll <= max_scroll,
            max_scroll <= total,
            vp.y + vp.height <= u16::MAX,
            vp.x + vp.width <= u16::MAX,
            vh == vp.height,
            toggle_areas_from(toggles@, st.toggles, i as nat, vp, scroll as nat)
                == toggle_areas_from(Seq::empty(), st.toggles, 0, vp, scroll as nat),
        decreases rendered.thinking_toggle_lines.len() - i,
    {
        let t = rendered.thinking_toggle_lines[i];
        if t.line >= scroll && t.line - scroll < vh {
            let room = vp.width.saturating_sub(t.x_offset);
            let area_t = Rect::new(vp.x.saturating_add(t.x_offset), vp.y + (t.line - scroll) as u16, if t.width <= room { t.width } else { room }, 1);
            toggles.push((t.message_idx, area_t));
        }
        i = i + 1;
    }
    let mut links: Vec<(Rect, String)> = Vec::new();
    proof {
        assert(link_areas_view(links@) =~= Seq::<(Rect, Seq<char>)>::empty());
    }
    let mut k: usize = 0;
    while k < rendered.link_targets.len()
        invariant
            k <= rendered.link_targets.len(),
            st == rendered.state(),
            vp.y + vp.height <= u16::MAX,
            vp.x + vp.width <= u16::MAX,
            vh == vp.height,
            link_areas_from(link_areas_view(links@), st.targets, k as nat, st.lines, vp, scroll as nat)
                == link_areas_from(Seq::empty(), st.targets, 0, st.lines, vp, scroll as nat),
        decreases rendered.link_targets.len() - k,
    {
        let t = &rendered.link_targets[k];
        proof {
            assert(st.targets[k as int] == targets_view(rendered.link_targets@)[k as int]);
        }
        if t.line >= scroll && t.line - scroll < vh {
            let lx = if t.line < rendered.lines.len() {
                proof {
                    assert(st.lines[t.line as int] == line_view(rendered.lines@[t.line as int]));
                }
                line_start_x(vp, &rendered.lines[t.line])
            } else {
                vp.x
            };
            let width: u16 = if t.width > 65535 { 65535 } else { t.width as u16 };
            let area_l = Rect::new(lx.saturating_add(#[verifier::truncate] (t.column as u16)), vp.y + (t.line - scroll) as u16, width, 1);
            let ghost before = link_areas_view(links@);
            links.push((area_l, t.target.clone()));
            proof {
                assert(link_areas_view(links@) =~= before.push((area_l, t.target@)));
            }
        }
        k = k + 1;
    }
    let track = if bar { Some(Rect::new(vp.right(), vp.y, 1, vp.height)) } else { None };
    Some(MessagePlacement {
        viewport: vp,
        scrollbar_track: track,
        scroll_offset: scroll,
        scroll_to_message: jump,
        thinking_hit_areas: toggles,
        link_hit_areas: links,
    })
}

/// The first line shown is never past the last page, and while streaming it is the last
/// page.
pub proof fn law_scroll_stays_on_last_page(
    total: nat,
    height: nat,
    current: nat,
    streaming: bool,
    jump: Option<usize>,
    anchors: Seq<(usize, usize)>,
)
    ensures
        placed_scroll(total, height, current, streaming, jump, anchors) <= sat_sub(total, height),
        streaming ==> placed_scroll(total, height, current, streaming, jump, anchors) == sat_sub(total, height),
{
}

proof fn lemma_toggle_areas_in_view(acc: Seq<(usize, Rect)>, toggles: Seq<ThinkingToggleLine>, i: nat, vp: Rect, scroll: nat)
    requires
        vp.y + vp.height <= u16::MAX,
        forall|k: int| 0 <= k < acc.len() ==> vp.y <= (#[trigger] acc[k]).1.y < vp.y + vp.height,
    ensures
        forall|k: int| 0 <= k < toggle_areas_from(acc, toggles, i, vp, scroll).len()
            ==> vp.y <= (#[trigger] toggle_areas_from(acc, toggles, i, vp, scroll)[k]).1.y < vp.y + vp.height,
    decreases toggles.len() - i,
{
    if i < toggles.len() {
        let t = toggles[i as int];
        let next = if line_in_view(t.line as nat, scroll, vp.height as nat) { acc.push((t.message_idx, toggle_area(t, vp, scroll))) } else { acc };
        assert forall|k: int| 0 <= k < next.len() implies vp.y <= (#[trigger] next[k]).1.y < vp.y + vp.height by {
            if k < acc.len() {
                assert(next[k] == acc[k]);
            }
        }
        lemma_toggle_areas_in_view(next, toggles, i + 1, vp, scroll);
        assert(toggle_areas_from(acc, toggles, i, vp, scroll) == toggle_areas_from(next, toggles, i + 1, vp, scroll));
    } else {
        assert(toggle_areas_from(acc, toggles, i, vp, scroll) == acc);
    }
}

/// Every fold toggle's clickable area lies on a row of the viewport.
pub proof fn law_toggle_areas_on_viewport_rows(toggles: Seq<ThinkingToggleLine>, vp: Rect, scroll: nat)
    requires
        vp.y + vp.height <= u16::MAX,
    ensures
        forall|k: int| 0 <= k < toggle_areas_from(Seq::empty(), toggles, 0, vp, scroll).len()
            ==> vp.y <= (#[trigger] toggle_areas_from(Seq::empty(), toggles, 0, vp, scroll)[k]).1.y < vp.y + vp.height,
{
    lemma_toggle_areas_in_view(Seq::empty(), toggles, 0, vp, scroll);
}

/// Where a sized heading is drawn in viewport `vp` scrolled to `scroll`: nowhere when its
/// line is above the view or its second row would not be in view, or when it is wider than
/// the viewport; otherwise two rows on its line, as wide as it renders, placed by its
/// alignment.
pub open spec fn heading_area(h: TranscriptHeadingView, vp: Rect, scroll: nat) -> Option<Rect> {
    if h.line < scroll {
        None
    } else {
        let row = (h.line - scroll) as nat;
        let w = rendered_width_spec(h.tier, str_display_width(h.text) as nat);
        if row + 1 >= vp.height || w > vp.width {
            None
        } else {
            let spare = (vp.width - w) as nat;
            let pad: nat = match h.alignment {
                Alignment::Left => 0,
                Alignment::Center => spare / 2,
                Alignment::Right => spare,
            };
            Some(rect_new((vp.x + pad) as u16, (vp.y + row) as u16, w as u16, 2))
        }
    }
}

/// The areas of the headings of `hs[i..]` that are drawn, each with its index, after `acc`.
pub open spec fn heading_areas_from(
    acc: Seq<(usize, Rect)>,
    hs: Seq<TranscriptHeadingView>,
    i: nat,
    vp: Rect,
    scroll: nat,
) -> Seq<(usize, Rect)>
    decreases hs.len() - i,
{
    if i >= hs.len() {
        acc
    } else {
        let next = match heading_area(hs[i as int], vp, scroll) {
            Some(r) => acc.push((i as usize, r)),
            None => acc,
        };
        heading_areas_from(next, hs, i + 1, vp, scroll)
    }
}

/// The areas the sized headings are drawn in (see `heading_area`), each with the heading's
/// index.
pub fn place_kitty_headings(headings: &Vec<TranscriptHeading>, vp: Rect, scroll: usize) -> (r: Vec<(usize, Rect)>)
    requires
        vp.x + vp.width <= u16::MAX,
        vp.y + vp.height <= u16::MAX,
    ensures
        r@ == heading_areas_from(Seq::empty(), transcript_headings_view(headings@), 0, vp, scroll as nat),
{
    let ghost hv = transcript_headings_view(headings@);
    let mut out: Vec<(usize, Rect)> = Vec::new();
    let mut i: usize = 0;
    while i < headings.len()
        invariant
            i <= headings.len(),
            hv == transcript_headings_view(headings@),
            vp.x + vp.width <= u16::MAX,
            vp.y + vp.height <= u16::MAX,
            heading_areas_from(out@, hv, i as nat, vp, scroll as nat) == heading_areas_from(Seq::empty(), hv, 0, vp, scroll as nat),
        decreases headings.len() - i,
    {
        let h = &headings[i];
        proof {
            assert(hv[i as int] == transcript_headings_view(headings@)[i as int]);
        }
        if h.line >= scroll {
            let row = h.line - scroll;
            let vh = vp.height as usize;
            if row < vh && vh - row > 1 {
                let w = h.tier.rendered_width(h.text.as_str());
                if w <= vp.width as usize {
                    let w16 = w as u16;
                    let spare = vp.width - w16;
                    let pad = match h.alignment {
                        Alignment::Left => 0,
                        Alignment::Center => spare / 2,
                        Alignment::Right => spare,
                    };
                    out.push((i, Rect::new(vp.x + pad, vp.y + row as u16, w16, 2)));
                }
            }
        }
        i = i + 1;
    }
    out
}

/// Whether every link area of `st` lies on one of its lines.
pub open spec fn targets_in_transcript(st: TranscriptState) -> bool {
    forall|k: int| 0 <= k < st.targets.len() ==> (#[trigger] st.targets[k]).line < st.lines.len()
}

proof fn lemma_shifted_targets_in(ts: Seq<LinkTargetView>, lines: Seq<Seq<RunView>>, shift: nat, padded: bool, col_base: nat, width: nat, a: Alignment, bound: nat)
    requires
        render_targets_ok(RenderState { lines, targets: ts, images: Seq::empty(), headings: Seq::empty() }),
        shift + lines.len() <= bound,
        bound <= usize::MAX,
    ensures
        forall|k: int| 0 <= k < ts.len() ==> (#[trigger] shifted_targets(ts, lines, shift, padded, col_base, width, a)[k]).line < bound,
{
    assert forall|k: int| 0 <= k < ts.len() implies (#[trigger] shifted_targets(ts, lines, shift, padded, col_base, width, a)[k]).line < bound by {
        assert(ts[k].line < lines.len());
    }
}

proof fn lemma_append_targets(old_t: Seq<LinkTargetView>, added: Seq<LinkTargetView>, old_len: nat, new_len: nat)
    requires
        forall|k: int| 0 <= k < old_t.len() ==> (#[trigger] old_t[k]).line < old_len,
        forall|k: int| 0 <= k < added.len() ==> (#[trigger] added[k]).line < new_len,
        old_len <= new_len,
    ensures
        forall|k: int| 0 <= k < (old_t + added).len() ==> (#[trigger] (old_t + added)[k]).line < new_len,
{
    assert forall|k: int| 0 <= k < (old_t + added).len() implies (#[trigger] (old_t + added)[k]).line < new_len by {
        if k < old_t.len() {
            assert((old_t + added)[k] == old_t[k]);
        } else {
            assert((old_t + added)[k] == added[k - old_t.len()]);
        }
    }
}

proof fn lemma_message_targets(
    st: TranscriptState,
    idx: nat,
    m: MessageView,
    n: nat,
    s: TranscriptSettings,
    theme: RenderTheme,
    overrides: Seq<usize>,
    user_name: Seq<char>,
)
    requires
        targets_in_transcript(st),
        message_spec(st, idx, m, n, s, theme, overrides, user_name).lines.len() <= usize::MAX,
    ensures
        targets_in_transcript(message_spec(st, idx, m, n, s, theme, overrides, user_name)),
        message_spec(st, idx, m, n, s, theme, overrides, user_name).lines.len() >= st.lines.len(),
{
    let st1 = if m.role == "system"@ { with_line(st, system_line(theme)) } else { st };
    let t = thinking_step(st1, idx, m, n, s, theme, overrides);
    let b = body_spec(t.0, m, s, theme, user_name);
    let fin = message_spec(st, idx, m, n, s, theme, overrides, user_name);
    assert(fin.lines.len() >= b.0.lines.len());
    assert(b.0.lines.len() >= t.0.lines.len());
    assert(targets_in_transcript(st1));
    if m.role == "assistant"@ && m.thinking is Some && m.thinking.unwrap().len() > 0 {
        let collapsed = thinking_collapsed_spec(overrides, idx, s.collapse_thinking);
        if !collapsed {
            let r = render_spec(m.thinking.unwrap(), thinking_options(s), theme);
            law_link_targets_on_rendered_lines(m.thinking.unwrap(), thinking_options(s), theme);
            let a = message_alignment(m.role, s);
            let toggle_line = st1.lines.len();
            lemma_shifted_targets_in(r.targets, r.lines, toggle_line + 1, true, thinking_x(s.width) + 2, thinking_width(s.width), a, t.0.lines.len());
            lemma_append_targets(st1.targets, shifted_targets(r.targets, r.lines, toggle_line + 1, true, thinking_x(s.width) + 2, thinking_width(s.width), a), st1.lines.len(), t.0.lines.len());
        }
    }
    assert(targets_in_transcript(t.0));
    let r = message_render(m, s, theme);
    law_link_targets_on_rendered_lines(m.content, body_options(s, m.role), theme);
    let is_user = m.role == "user"@;
    let st2 = if is_user {
        with_line(t.0, boxed(box_top_spec(0, bubble_width(s.width), user_name, title_of(TermColor::Cyan, s.user_bubble), fill_of(s.user_bubble))))
    } else {
        t.0
    };
    assert(targets_in_transcript(st2));
    lemma_shifted_targets_in(r.targets, r.lines, st2.lines.len(), is_user, 2, user_width(s.width), message_alignment(m.role, s), b.0.lines.len());
    lemma_append_targets(st2.targets, shifted_targets(r.targets, r.lines, st2.lines.len(), is_user, 2, user_width(s.width), message_alignment(m.role, s)), st2.lines.len(), b.0.lines.len());
    assert(targets_in_transcript(b.0));
}

proof fn lemma_transcript_grows(
    st: TranscriptState,
    msgs: Seq<MessageView>,
    i: nat,
    s: TranscriptSettings,
    theme: RenderTheme,
    overrides: Seq<usize>,
    user_name: Seq<char>,
)
    ensures
        transcript_from(st, msgs, i, s, theme, overrides, user_name).lines.len() >= st.lines.len(),
    decreases msgs.len() - i,
{
    if i < msgs.len() {
        let next = message_spec(st, i, msgs[i as int], msgs.len(), s, theme, overrides, user_name);
        let st1 = if msgs[i as int].role == "system"@ { with_line(st, system_line(theme)) } else { st };
        let t = thinking_step(st1, i, msgs[i as int], msgs.len(), s, theme, overrides);
        let b = body_spec(t.0, msgs[i as int], s, theme, user_name);
        assert(next.lines.len() >= b.0.lines.len());
        assert(b.0.lines.len() >= t.0.lines.len());
        lemma_transcript_grows(next, msgs, i + 1, s, theme, overrides, user_name);
    }
}

proof fn lemma_transcript_targets(
    st: TranscriptState,
    msgs: Seq<MessageView>,
    i: nat,
    s: TranscriptSettings,
    theme: RenderTheme,
    overrides: Seq<usize>,
    user_name: Seq<char>,
)
    requires
        targets_in_transcript(st),
        transcript_from(st, msgs, i, s, theme, overrides, user_name).lines.len() <= usize::MAX,
    ensures
        targets_in_transcript(transcript_from(st, msgs, i, s, theme, overrides, user_name)),
    decreases msgs.len() - i,
{
    if i < msgs.len() {
        let next = message_spec(st, i, msgs[i as int], msgs.len(), s, theme, overrides, user_name);
        lemma_transcript_grows(next, msgs, i + 1, s, theme, overrides, user_name);
        lemma_message_targets(st, i, msgs[i as int], msgs.len(), s, theme, overrides, user_name);
        lemma_transcript_targets(next, msgs, i + 1, s, theme, overrides, user_name);
    }
}

/// Every link area of the transcript lies on one of its lines (for a transcript whose line
/// count fits in a `usize`, as that of any built transcript does).
pub proof fn law_transcript_links_on_its_lines(
    msgs: Seq<MessageView>,
    s: TranscriptSettings,
    theme: RenderTheme,
    overrides: Seq<usize>,
    user_name: Seq<char>,
)
    requires
        transcript_spec(msgs, s, theme, overrides, user_name).lines.len() <= usize::MAX,
    ensures
        targets_in_transcript(transcript_spec(msgs, s, theme, overrides, user_name)),
{
    lemma_transcript_targets(empty_transcript(), msgs, 0, s, theme, overrides, user_name);
}

} // verus!
