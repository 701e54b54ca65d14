//! Styled runs of one block of markdown text: emphasis, strikethrough, inline code, links
//! and `@skill` mentions, read from the markdown parser's inline events.
use vstd::prelude::*;
use pulldown_cmark::{Event, Options, Parser, Tag, TagEnd};
use crate::inline::{StyledRun, Segment, skill_segments, skill_segments_spec, segments_view};
use crate::terminal::{TermColor, TermStyle, plain_style};
use crate::inline::{RunView, runs_view};

verus! {

/// The theme colours inline text is drawn with.
#[derive(Debug, Clone, Copy, PartialEq, Eq, Structural)]
pub struct InlineColors {
    /// Links and skill mentions.
    pub accent: TermColor,
    /// Inline code.
    pub warning: TermColor,
    /// The background of inline code.
    pub code_bg: TermColor,
}

/// What the inline renderer reads of a markdown event: the tags it styles, text, code and
/// the two kinds of line break; every other event (other tags, HTML, math, footnote
/// references, rules, task markers) is `Other`.
#[derive(Debug, Clone, PartialEq, Eq)]
pub enum InlineEvent {
    StrongStart,
    StrongEnd,
    EmphasisStart,
    EmphasisEnd,
    StrikeStart,
    StrikeEnd,
    LinkStart(String),
    LinkEnd,
    Code(String),
    Text(String),
    SoftBreak,
    HardBreak,
    Other,
}

/// The abstract form of an inline event.
pub enum InlineEventView {
    StrongStart,
    StrongEnd,
    EmphasisStart,
    EmphasisEnd,
    StrikeStart,
    StrikeEnd,
    LinkStart(Seq<char>),
    LinkEnd,
    Code(Seq<char>),
    Text(Seq<char>),
    SoftBreak,
    HardBreak,
    Other,
}

/// The abstract form of an event.
pub open spec fn event_view(e: InlineEvent) -> InlineEventView {
    match e {
        InlineEvent::StrongStart => InlineEventView::StrongStart,
        InlineEvent::StrongEnd => InlineEventView::StrongEnd,
        InlineEvent::EmphasisStart => InlineEventView::EmphasisStart,
        InlineEvent::EmphasisEnd => InlineEventView::EmphasisEnd,
        InlineEvent::StrikeStart => InlineEventView::StrikeStart,
        InlineEvent::StrikeEnd => InlineEventView::StrikeEnd,
        InlineEvent::LinkStart(u) => InlineEventView::LinkStart(u@),
        InlineEvent::LinkEnd => InlineEventView::LinkEnd,
        InlineEvent::Code(c) => InlineEventView::Code(c@),
        InlineEvent::Text(t) => InlineEventView::Text(t@),
        InlineEvent::SoftBreak => InlineEventView::SoftBreak,
        InlineEvent::HardBreak => InlineEventView::HardBreak,
        InlineEvent::Other => InlineEventView::Other,
    }
}

/// The abstract form of a sequence of events.
pub open spec fn events_view(v: Seq<InlineEvent>) -> Seq<InlineEventView> {
    v.map_values(|e: InlineEvent| event_view(e))
}

/// The inline events that pulldown-cmark reads from a text with strikethrough enabled.
pub uninterp spec fn markdown_inline_events(text: Seq<char>) -> Seq<InlineEventView>;

/// Parses `text` with `pulldown_cmark::Parser::new_ext` (strikethrough enabled) and keeps of
/// each event what the inline renderer reads. Trusted: the result is the parser's events for
/// the text, which depend on the text alone; what they are is left to the parser.
#[verifier::external_body]
fn parse_inline_events(text: &str) -> (r: Vec<InlineEvent>)
    ensures
        events_view(r@) == markdown_inline_events(text@),
{
    Parser::new_ext(text, Options::ENABLE_STRIKETHROUGH).map(|event| match event {
        Event::Start(Tag::Strong) => InlineEvent::StrongStart,
        Event::End(TagEnd::Strong) => InlineEvent::StrongEnd,
        Event::Start(Tag::Emphasis) => InlineEvent::EmphasisStart,
        Event::End(TagEnd::Emphasis) => InlineEvent::EmphasisEnd,
        Event::Start(Tag::Strikethrough) => InlineEvent::StrikeStart,
        Event::End(TagEnd::Strikethrough) => InlineEvent::StrikeEnd,
        Event::Start(Tag::Link { dest_url, .. }) => InlineEvent::LinkStart(dest_url.to_string()),
        Event::End(TagEnd::Link) => InlineEvent::LinkEnd,
        Event::Code(code) => InlineEvent::Code(code.to_string()),
        Event::Text(text) => InlineEvent::Text(text.to_string()),
        Event::SoftBreak => InlineEvent::SoftBreak,
        Event::HardBreak => InlineEvent::HardBreak,
        _ => InlineEvent::Other,
    }).collect()
}

/// The style on top of the stack, or the plain style when the stack is empty.
pub open spec fn top_style(styles: Seq<TermStyle>) -> TermStyle {
    if styles.len() > 0 { styles.last() } else { plain_style() }
}

/// `s` with bold added.
pub open spec fn bolder(s: TermStyle) -> TermStyle {
    TermStyle { fg: s.fg, bg: s.bg, bold: true, italic: s.italic, underlined: s.underlined, crossed_out: s.crossed_out }
}

/// `s` with italic added.
pub open spec fn italicized(s: TermStyle) -> TermStyle {
    TermStyle { fg: s.fg, bg: s.bg, bold: s.bold, italic: true, underlined: s.underlined, crossed_out: s.crossed_out }
}

/// `s` with strikethrough added.
pub open spec fn struck(s: TermStyle) -> TermStyle {
    TermStyle { fg: s.fg, bg: s.bg, bold: s.bold, italic: s.italic, underlined: s.underlined, crossed_out: true }
}

/// `s` drawn as a link: in the accent colour, underlined.
pub open spec fn linked(s: TermStyle, accent: TermColor) -> TermStyle {
    TermStyle { fg: Some(accent), bg: s.bg, bold: s.bold, italic: s.italic, underlined: true, crossed_out: s.crossed_out }
}

/// `s` drawn as inline code.
pub open spec fn coded(s: TermStyle, colors: InlineColors) -> TermStyle {
    TermStyle { fg: Some(colors.warning), bg: Some(colors.code_bg), bold: s.bold, italic: s.italic, underlined: s.underlined, crossed_out: s.crossed_out }
}

/// A stack without its top; an empty stack stays empty.
pub open spec fn popped<T>(s: Seq<T>) -> Seq<T> {
    if s.len() > 0 { s.drop_last() } else { s }
}

/// The run of one segment: a mention is drawn as a link to `skill:<name>`.
pub open spec fn segment_run(seg: Segment, style: TermStyle, accent: TermColor) -> RunView {
    match seg.1 {
        Some(name) => RunView { text: seg.0, style: linked(style, accent), link: Some("skill:"@ + name) },
        None => RunView { text: seg.0, style, link: None },
    }
}

/// The runs of the segments of a text.
pub open spec fn segment_runs(segs: Seq<Segment>, style: TermStyle, accent: TermColor) -> Seq<RunView> {
    segs.map_values(|seg: Segment| segment_run(seg, style, accent))
}

/// The renderer's state while reading events: the runs so far, the style stack and the
/// stack of open link targets.
pub struct InlineState {
    pub runs: Seq<RunView>,
    pub styles: Seq<TermStyle>,
    pub links: Seq<Seq<char>>,
}

/// The state after one event.
pub open spec fn inline_step(st: InlineState, ev: InlineEventView, colors: InlineColors) -> InlineState {
    let top = top_style(st.styles);
    match ev {
        InlineEventView::StrongStart => InlineState { runs: st.runs, styles: st.styles.push(bolder(top)), links: st.links },
        InlineEventView::EmphasisStart => InlineState { runs: st.runs, styles: st.styles.push(italicized(top)), links: st.links },
        InlineEventView::StrikeStart => InlineState { runs: st.runs, styles: st.styles.push(struck(top)), links: st.links },
        InlineEventView::StrongEnd | InlineEventView::EmphasisEnd | InlineEventView::StrikeEnd =>
            InlineState { runs: st.runs, styles: popped(st.styles), links: st.links },
        InlineEventView::LinkStart(url) => InlineState { runs: st.runs, styles: st.styles, links: st.links.push(url) },
        InlineEventView::LinkEnd => InlineState { runs: st.runs, styles: st.styles, links: popped(st.links) },
        InlineEventView::Code(code) => InlineState {
            runs: st.runs.push(RunView {
                text: code,
                style: coded(top, colors),
                link: if st.links.len() > 0 { Some(st.links.last()) } else { None },
            }),
            styles: st.styles,
            links: st.links,
        },
        InlineEventView::Text(text) => InlineState {
            runs: if st.links.len() > 0 {
                st.runs.push(RunView { text, style: linked(top, colors.accent), link: Some(st.links.last()) })
            } else {
                st.runs + segment_runs(skill_segments_spec(text), top, colors.accent)
            },
            styles: st.styles,
            links: st.links,
        },
        InlineEventView::SoftBreak | InlineEventView::HardBreak => InlineState {
            runs: st.runs.push(RunView { text: seq!['\n'], style: top, link: None }),
            styles: st.styles,
            links: st.links,
        },
        InlineEventView::Other => st,
    }
}

/// The state after the events `evs[i..]`.
pub open spec fn inline_from(st: InlineState, evs: Seq<InlineEventView>, i: nat, colors: InlineColors) -> InlineState
    decreases evs.len() - i,
{
    if i >= evs.len() { st } else { inline_from(inline_step(st, evs[i as int], colors), evs, i + 1, colors) }
}

/// The runs that a sequence of inline events renders to, starting from `base`.
pub open spec fn inline_runs_spec(evs: Seq<InlineEventView>, base: TermStyle, colors: InlineColors) -> Seq<RunView> {
    inline_from(InlineState { runs: Seq::empty(), styles: seq![base], links: Seq::empty() }, evs, 0, colors).runs
}

/// The style on top of the stack.
fn current_style(styles: &Vec<TermStyle>) -> (r: TermStyle)
    ensures
        r == top_style(styles@),
{
    if styles.len() > 0 { styles[styles.len() - 1] } else { TermStyle::plain() }
}

/// Appends the runs of the segments of `text` in `style`.
fn push_segment_runs(runs: &mut Vec<StyledRun>, text: &str, style: TermStyle, accent: TermColor)
    ensures
        runs_view(final(runs)@) == runs_view(old(runs)@) + segment_runs(skill_segments_spec(text@), style, accent),
{
    let segs = skill_segments(text);
    let ghost sv = segments_view(segs@);
    let mut k: usize = 0;
    while k < segs.len()
        invariant
            k <= segs.len(),
            sv == segments_view(segs@),
            sv == skill_segments_spec(text@),
            runs_view(runs@) == runs_view(old(runs)@) + segment_runs(sv.take(k as int), style, accent),
        decreases segs.len() - k,
    {
        let ghost before = runs_view(runs@);
        let seg = &segs[k];
        let run = match &seg.1 {
            Some(name) => {
                let link = crate::text::concat_str("skill:".to_owned(), name.as_str());
                StyledRun {
                    text: seg.0.clone(),
                    style: TermStyle { fg: Some(accent), underlined: true, ..style },
                    link: Some(link),
                }
            },
            None => StyledRun { text: seg.0.clone(), style, link: None },
        };
        runs.push(run);
        proof {
            assert(sv.take(k as int + 1) =~= sv.take(k as int).push(sv[k as int]));
            assert(runs_view(runs@) =~= before.push(segment_run(sv[k as int], style, accent)));
            assert(segment_runs(sv.take(k as int + 1), style, accent)
                =~= segment_runs(sv.take(k as int), style, accent).push(segment_run(sv[k as int], style, accent)));
        }
        k = k + 1;
    }
    proof {
        assert(sv.take(segs.len() as int) =~= sv);
    }
}

/// The plain runs and `@skill` mentions of a line of text, unstyled but for mentions, which
/// are drawn as links in the accent colour.
pub fn plain_runs_with_skills(text: &str, accent: TermColor) -> (r: Vec<StyledRun>)
    ensures
        runs_view(r@) == segment_runs(skill_segments_spec(text@), plain_style(), accent),
{
    let mut runs: Vec<StyledRun> = Vec::new();
    push_segment_runs(&mut runs, text, TermStyle::plain(), accent);
    proof {
        assert(runs_view(Seq::<StyledRun>::empty()) =~= Seq::<RunView>::empty());
    }
    runs
}

/// The runs a sequence of inline events renders to, starting from `base_style`: strong,
/// emphasis and strikethrough add bold, italic and strikethrough until they end; inline code
/// is drawn in the code colours; text inside a link is drawn as a link to its target; other
/// text is split into plain runs and `@skill` mentions; line breaks become newline runs.
pub fn runs_from_events(events: &Vec<InlineEvent>, base_style: TermStyle, colors: InlineColors) -> (r: Vec<StyledRun>)
    ensures
        runs_view(r@) == inline_runs_spec(events_view(events@), base_style, colors),
{
    let ghost evs = events_view(events@);
    let mut runs: Vec<StyledRun> = Vec::new();
    let mut styles: Vec<TermStyle> = Vec::new();
    styles.push(base_style);
    let mut links: Vec<String> = Vec::new();
    proof {
        assert(runs_view(runs@) =~= Seq::<RunView>::empty());
        assert(styles@ =~= seq![base_style]);
        assert(links@.map_values(|l: String| l@) =~= Seq::<Seq<char>>::empty());
    }
    let mut i: usize = 0;
    while i < events.len()
        invariant
            i <= events.len(),
            evs == events_view(events@),
            inline_from(InlineState { runs: runs_view(runs@), styles: styles@, links: links@.map_values(|l: String| l@) }, evs, i as nat, colors)
                == inline_runs_spec_state(evs, base_style, colors),
        decreases events.len() - i,
    {
        let ghost st = InlineState { runs: runs_view(runs@), styles: styles@, links: links@.map_values(|l: String| l@) };
        let top = current_style(&styles);
        match &events[i] {
            InlineEvent::StrongStart => {
                styles.push(TermStyle { bold: true, ..top });
            },
            InlineEvent::EmphasisStart => {
                styles.push(TermStyle { italic: true, ..top });
            },
            InlineEvent::StrikeStart => {
                styles.push(TermStyle { crossed_out: true, ..top });
            },
            InlineEvent::StrongEnd | InlineEvent::EmphasisEnd | InlineEvent::StrikeEnd => {
                styles.pop();
            },
            InlineEvent::LinkStart(url) => {
                links.push(url.clone());
            },
            InlineEvent::LinkEnd => {
                links.pop();
            },
            InlineEvent::Code(code) => {
                let link = if links.len() > 0 { Some(links[links.len() - 1].clone()) } else { None };
                runs.push(StyledRun {
                    text: code.clone(),
                    style: TermStyle { fg: Some(colors.warning), bg: Some(colors.code_bg), ..top },
                    link,
                });
            },
            InlineEvent::Text(text) => {
                if links.len() > 0 {
                    let link = links[links.len() - 1].clone();
                    runs.push(StyledRun {
                        text: text.clone(),
                        style: TermStyle { fg: Some(colors.accent), underlined: true, ..top },
                        link: Some(link),
                    });
                } else {
                    push_segment_runs(&mut runs, text.as_str(), top, colors.accent);
                }
            },
            InlineEvent::SoftBreak | InlineEvent::HardBreak => {
                let nl: [char; 1] = ['\n'];
                runs.push(StyledRun { text: crate::text::string_from_chars(nl.as_slice()), style: top, link: None });
                proof {
                    assert(nl@ =~= seq!['\n']);
                }
            },
            InlineEvent::Other => {},
        }
        proof {
            assert(evs[i as int] == event_view(events@[i as int]));
            let nst = InlineState { runs: runs_view(runs@), styles: styles@, links: links@.map_values(|l: String| l@) };
            assert(nst == inline_step(st, evs[i as int], colors)) by {
                assert(nst.runs =~= inline_step(st, evs[i as int], colors).runs);
                assert(nst.styles =~= inline_step(st, evs[i as int], colors).styles);
                assert(nst.links =~= inline_step(st, evs[i as int], colors).links);
            }
        }
        i = i + 1;
    }
    runs
}

/// The final state of rendering a sequence of inline events.
pub open spec fn inline_runs_spec_state(evs: Seq<InlineEventView>, base: TermStyle, colors: InlineColors) -> InlineState {
    inline_from(InlineState { runs: Seq::empty(), styles: seq![base], links: Seq::empty() }, evs, 0, colors)
}

/// The styled runs of a block of markdown text (see `runs_from_events`).
pub fn parse_inline_runs(text: &str, base_style: TermStyle, colors: InlineColors) -> (r: Vec<StyledRun>)
    ensures
        runs_view(r@) == inline_runs_spec(markdown_inline_events(text@), base_style, colors),
{
    let events = parse_inline_events(text);
    runs_from_events(&events, base_style, colors)
}

} // verus!
