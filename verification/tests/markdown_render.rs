use tcui::inline::{skill_segments, tokenize, truncate_to_display_width, StyledRun};
use tcui::inline_runs::{parse_inline_runs, plain_runs_with_skills, InlineColors};
use tcui::markdown::{parse_blocks, Block};
use tcui::render::{
    enhanced_heading_tier, render_markdown, HeadingDownscale, MarkdownMode, MarkdownRenderer, RenderOptions,
    RenderTheme, RenderedMarkdown,
};
use tcui::terminal::{KittyHeadingTier, TermColor, TermStyle, TerminalCapabilities, TerminalKind};
use tcui::wrap::wrap_runs;

fn style(fg: TermColor) -> TermStyle {
    TermStyle { fg: Some(fg), bg: None, bold: true, italic: false, underlined: false, crossed_out: false }
}

fn theme() -> RenderTheme {
    RenderTheme {
        info: TermColor::Cyan,
        foreground: TermColor::White,
        accent: TermColor::Blue,
        warning: TermColor::Yellow,
        code_fg: TermColor::Green,
        code_bg: TermColor::Black,
        selection_fg: TermColor::Black,
        selection_bg: TermColor::White,
        muted: TermColor::DarkGray,
        border: TermColor::Gray,
        headings: [
            style(TermColor::Blue),
            style(TermColor::Green),
            style(TermColor::Magenta),
            style(TermColor::Magenta),
            style(TermColor::Cyan),
            style(TermColor::Gray),
        ],
    }
}

fn plain_caps() -> TerminalCapabilities {
    TerminalCapabilities {
        terminal: TerminalKind::Unknown,
        multiplexer: None,
        kitty_graphics: false,
        kitty_text_sizing: false,
        tmux_passthrough: false,
    }
}

fn test_renderer() -> MarkdownRenderer {
    MarkdownRenderer::new(plain_caps())
}

fn opts(width: usize) -> RenderOptions {
    RenderOptions {
        mode: MarkdownMode::Full,
        width,
        kitty_enhanced_text: false,
        kitty_heading_downscale: HeadingDownscale::Zero,
        image_protocol_enabled: false,
        terminal_capabilities: plain_caps(),
    }
}

fn line_text(line: &[StyledRun]) -> String {
    line.iter().map(|run| run.text.as_str()).collect()
}

fn joined(rendered: &RenderedMarkdown) -> String {
    rendered.lines.iter().map(|line| line_text(line)).collect::<Vec<_>>().join("\n")
}

#[test]
fn markdown_renderer_handles_large_heading_markers() {
    let output = test_renderer().render(
        "####### heading\nbody",
        MarkdownMode::Full,
        80,
        false,
        HeadingDownscale::Zero,
        false,
        &theme(),
    );

    assert!(!output.lines.is_empty());
}

#[test]
fn markdown_renderer_tracks_links_and_images() {
    let output = test_renderer().render(
        "# Demo\n\n[Link](https://example.com)\n\n![alt](image.png)",
        MarkdownMode::Full,
        80,
        false,
        HeadingDownscale::Zero,
        true,
        &theme(),
    );

    assert_eq!(output.link_targets[0].target, "https://example.com");
    assert_eq!(output.images.len(), 1);
}

#[test]
fn markdown_renderer_tracks_skill_mentions_when_markdown_is_off() {
    let output = test_renderer().render(
        "Use @caveman here.",
        MarkdownMode::Off,
        80,
        false,
        HeadingDownscale::Zero,
        false,
        &theme(),
    );

    assert_eq!(output.link_targets.len(), 1);
    assert_eq!(output.link_targets[0].target, "skill:caveman");
    assert_eq!(output.link_targets[0].column, 4);
    assert_eq!(output.link_targets[0].width, 8);
}

#[test]
fn markdown_renderer_tracks_multiple_targets_on_one_line() {
    let output = test_renderer().render(
        "Use @caveman, [docs](https://example.com), then @save.",
        MarkdownMode::Full,
        80,
        false,
        HeadingDownscale::Zero,
        false,
        &theme(),
    );

    assert_eq!(
        output
            .link_targets
            .iter()
            .map(|target| (target.column, target.width, target.target.as_str()))
            .collect::<Vec<_>>(),
        vec![(4, 8, "skill:caveman"), (14, 4, "https://example.com"), (25, 5, "skill:save"),]
    );
}

#[test]
fn kitty_heading_reports_multicell_render_metadata() {
    let renderer = MarkdownRenderer::new(TerminalCapabilities {
        terminal: TerminalKind::Kitty,
        multiplexer: None,
        kitty_graphics: true,
        kitty_text_sizing: true,
        tmux_passthrough: false,
    });
    let rendered = renderer.render("# Heading", MarkdownMode::Full, 40, true, HeadingDownscale::Zero, false, &theme());

    assert_eq!(rendered.kitty_headings.len(), 1);
    assert_eq!(rendered.kitty_headings[0].text, "Heading");
    assert_eq!(rendered.kitty_headings[0].tier, KittyHeadingTier::H1);
}

#[test]
fn render_markdown_table_truncates_multibyte_cells_without_panicking() {
    let rendered = render_markdown("| col |\n| --- |\n| 🙂🙂 |", opts(5), &theme());
    assert!(joined(&rendered).contains('…'));
}

#[test]
fn render_markdown_code_truncates_multibyte_lines_without_panicking() {
    let rendered = render_markdown("```\n🙂🙂🙂\n```", opts(3), &theme());
    assert!(joined(&rendered).contains('🙂'));
}

#[test]
fn blocks_are_separated_by_one_empty_line_and_none_trails() {
    let rendered = render_markdown("# Title\n\npara one\n\n---", opts(20), &theme());
    let texts: Vec<String> = rendered.lines.iter().map(|l| line_text(l)).collect();
    assert_eq!(texts, vec!["Title", "", "para one", "", "────────────────────"]);
    assert!(rendered.lines[1].is_empty());
}

#[test]
fn list_items_get_markers_and_indented_continuations() {
    let rendered = render_markdown("1. alpha beta gamma", opts(12), &theme());
    let texts: Vec<String> = rendered.lines.iter().map(|l| line_text(l)).collect();
    assert_eq!(texts, vec!["1. alpha ", "  beta ", "  gamma"]);
    let rendered = render_markdown("- one\n- two", opts(20), &theme());
    let texts: Vec<String> = rendered.lines.iter().map(|l| line_text(l)).collect();
    assert_eq!(texts, vec!["- one", "- two"]);
}

#[test]
fn quotes_get_a_bar() {
    let rendered = render_markdown("> quoted", opts(20), &theme());
    assert_eq!(line_text(&rendered.lines[0]), "| quoted");
    assert_eq!(rendered.lines[0][0].style.fg, Some(TermColor::Gray));
}

#[test]
fn code_blocks_show_their_language() {
    let rendered = render_markdown("```rust\nfn main() {}\n```", opts(40), &theme());
    assert_eq!(line_text(&rendered.lines[0]), " rust ");
    assert_eq!(line_text(&rendered.lines[1]), "fn main() {}");
    assert_eq!(rendered.lines[1][0].style.bg, Some(TermColor::Black));
}

#[test]
fn tables_pad_cells_and_underline_the_header() {
    let rendered = render_markdown("| a | b |\n| --- | --- |\n| 1 | 2 |", opts(20), &theme());
    let texts: Vec<String> = rendered.lines.iter().map(|l| line_text(l)).collect();
    assert_eq!(texts[0], format!("| a{}| b{}|", " ".repeat(7), " ".repeat(7)));
    assert_eq!(texts[1], format!("|{}|", "─".repeat(21)));
    assert_eq!(texts[2], format!("| 1{}| 2{}|", " ".repeat(7), " ".repeat(7)));
}

#[test]
fn images_leave_a_slot_and_an_open_link() {
    let mut o = opts(10);
    o.image_protocol_enabled = true;
    let rendered = render_markdown("![cat](cat.png)", o, &theme());
    assert_eq!(line_text(&rendered.lines[0]), "[image] cat");
    assert_eq!(rendered.images.len(), 1);
    assert_eq!(rendered.images[0].start_line, 1);
    assert_eq!(rendered.images[0].height, 10);
    assert_eq!(rendered.images[0].source, "cat.png");
    assert_eq!(line_text(&rendered.lines[11]), "open cat.png");
    assert_eq!(rendered.link_targets.len(), 1);
    assert_eq!(rendered.link_targets[0].line, 11);
    assert_eq!(rendered.link_targets[0].width, 12);
    let rendered = render_markdown("![](cat.png)", opts(10), &theme());
    assert_eq!(line_text(&rendered.lines[0]), "[image] cat.png");
    assert!(rendered.images.is_empty());
}

#[test]
fn heading_tiers_follow_the_downscale() {
    assert_eq!(enhanced_heading_tier(1, HeadingDownscale::Zero), Some(KittyHeadingTier::H1));
    assert_eq!(enhanced_heading_tier(1, HeadingDownscale::One), Some(KittyHeadingTier::H2));
    assert_eq!(enhanced_heading_tier(1, HeadingDownscale::Two), Some(KittyHeadingTier::H3));
    assert_eq!(enhanced_heading_tier(2, HeadingDownscale::Zero), Some(KittyHeadingTier::H2));
    assert_eq!(enhanced_heading_tier(2, HeadingDownscale::Two), Some(KittyHeadingTier::H3));
    assert_eq!(enhanced_heading_tier(3, HeadingDownscale::Zero), Some(KittyHeadingTier::H3));
    assert_eq!(enhanced_heading_tier(4, HeadingDownscale::Zero), None);
}

#[test]
fn inline_emphasis_and_code_are_styled() {
    let colors = InlineColors { accent: TermColor::Blue, warning: TermColor::Yellow, code_bg: TermColor::Black };
    let runs = parse_inline_runs("a **b** *c* ~~d~~ `e`", TermStyle::plain(), colors);
    let texts: Vec<&str> = runs.iter().map(|r| r.text.as_str()).collect();
    assert_eq!(texts, vec!["a ", "b", " ", "c", " ", "d", " ", "e"]);
    assert!(runs[1].style.bold);
    assert!(runs[3].style.italic);
    assert!(runs[5].style.crossed_out);
    assert_eq!(runs[7].style.fg, Some(TermColor::Yellow));
    assert_eq!(runs[7].style.bg, Some(TermColor::Black));
    assert!(!runs[0].style.bold);
}

#[test]
fn inline_links_carry_their_target() {
    let colors = InlineColors { accent: TermColor::Blue, warning: TermColor::Yellow, code_bg: TermColor::Black };
    let runs = parse_inline_runs("see [docs](https://d.invalid) and @skill", TermStyle::plain(), colors);
    let linked: Vec<(&str, Option<&str>)> = runs.iter().map(|r| (r.text.as_str(), r.link.as_deref())).collect();
    assert_eq!(
        linked,
        vec![("see ", None), ("docs", Some("https://d.invalid")), (" and ", None), ("@skill", Some("skill:skill"))]
    );
    assert!(runs[1].style.underlined);
}

#[test]
fn plain_runs_mark_mentions() {
    let runs = plain_runs_with_skills("hi @bob", TermColor::Red);
    assert_eq!(runs.len(), 2);
    assert_eq!(runs[1].link.as_deref(), Some("skill:bob"));
    assert_eq!(runs[1].style.fg, Some(TermColor::Red));
    assert_eq!(runs[0].style, TermStyle::plain());
}

#[test]
fn skill_segments_split_mentions_outside_code() {
    let segs = skill_segments("a @x `@y` b@z (@w)");
    let view: Vec<(&str, Option<&str>)> = segs.iter().map(|(t, s)| (t.as_str(), s.as_deref())).collect();
    assert_eq!(view, vec![("a ", None), ("@x", Some("x")), (" `@y` b@z (", None), ("@w", Some("w")), (")", None)]);
}

#[test]
fn tokenize_splits_runs_and_newlines() {
    assert_eq!(tokenize("ab  c\n\nd"), vec!["ab", "  ", "c", "\n", "\n", "d"]);
    assert_eq!(tokenize(""), Vec::<String>::new());
    assert_eq!(tokenize("x").concat(), "x");
}

#[test]
fn truncate_keeps_what_fits() {
    assert_eq!(truncate_to_display_width("🙂🙂🙂", 3), "🙂");
    assert_eq!(truncate_to_display_width("hello", 0), "");
    assert_eq!(truncate_to_display_width("hello", 10), "hello");
    assert_eq!(truncate_to_display_width("hello", 2), "he");
}

fn run(text: &str) -> StyledRun {
    StyledRun { text: text.to_string(), style: TermStyle::plain(), link: None }
}

#[test]
fn wrap_breaks_at_spaces_and_splits_long_words() {
    let lines = wrap_runs(vec![run("aaa bbb ccc")], 7);
    let texts: Vec<String> = lines.iter().map(|l| line_text(l)).collect();
    assert_eq!(texts, vec!["aaa bbb ", "ccc"]);
    let lines = wrap_runs(vec![run("abcdefgh")], 3);
    let texts: Vec<String> = lines.iter().map(|l| line_text(l)).collect();
    assert_eq!(texts, vec!["abc", "def", "gh"]);
    let lines = wrap_runs(vec![run("a\nb")], 10);
    let texts: Vec<String> = lines.iter().map(|l| line_text(l)).collect();
    assert_eq!(texts, vec!["a", "b"]);
    assert_eq!(wrap_runs(Vec::new(), 5).len(), 1);
}

#[test]
fn blocks_are_parsed_by_kind() {
    let blocks = parse_blocks("# H\ntext\n- a\n- b\n> q\n---");
    assert_eq!(blocks.len(), 5);
    assert!(matches!(&blocks[0], Block::Heading { level: 1, .. }));
    assert!(matches!(&blocks[1], Block::Paragraph(_)));
    assert!(matches!(&blocks[2], Block::List { ordered: false, items } if items.len() == 2));
    assert!(matches!(&blocks[3], Block::Quote(_)));
    assert!(matches!(&blocks[4], Block::Rule));
}

#[test]
fn link_targets_lie_on_non_empty_lines() {
    let doc = "# Title\n\nSee [a](https://a.invalid) and @b.\n\n- item [c](https://c.invalid)\n> @quoted\n\n![img](x.png)\n\ntrailing line\n";
    for mode in [MarkdownMode::Full, MarkdownMode::Off] {
        let mut o = opts(12);
        o.mode = mode;
        o.image_protocol_enabled = true;
        let rendered = render_markdown(doc, o, &theme());
        assert!(!rendered.link_targets.is_empty());
        for target in &rendered.link_targets {
            assert!(target.line < rendered.lines.len());
            assert!(!rendered.lines[target.line].is_empty());
        }
    }
}

#[test]
fn wrapped_lines_never_start_with_whitespace() {
    let lines = wrap_runs(vec![run("  lead  words   here  and  there ")], 6);
    for line in &lines {
        if let Some(first) = line.first() {
            assert!(!first.text.trim().is_empty());
        }
    }
    let texts: Vec<String> = lines.iter().map(|l| line_text(l)).collect();
    assert_eq!(texts, vec!["lead  ", "words   ", "here  ", "and  ", "there "]);
}
