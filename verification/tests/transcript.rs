use tcui::boxes::{Alignment, BoxLine};
use tcui::geometry::Rect;
use tcui::render::{HeadingDownscale, MarkdownMode, RenderTheme};
use tcui::settings_popup::TextAlignment;
use tcui::terminal::{TermColor, TermStyle, TerminalCapabilities, TerminalKind};

fn kitty_settings(width: u16) -> TranscriptSettings {
    let mut s = settings(width, MarkdownMode::Full);
    s.kitty_enhanced_text = true;
    s.terminal_capabilities = TerminalCapabilities {
        terminal: TerminalKind::Kitty,
        multiplexer: None,
        kitty_graphics: true,
        kitty_text_sizing: true,
        tmux_passthrough: false,
    };
    s
}
use tcui::transcript::{
    build_messages, place_kitty_headings, place_messages, thinking_collapsed, ChatMessage, RenderedMessages, TranscriptSettings,
};

fn style(fg: TermColor) -> TermStyle {
    TermStyle { fg: Some(fg), bg: None, bold: true, italic: false, underlined: false, crossed_out: false }
}

fn theme() -> RenderTheme {
    RenderTheme {
        info: TermColor::Cyan,
        foreground: TermColor::White,
        accent: TermColor::Blue,
        warning: TermColor::Yellow,
        code_fg: TermColor::Green,
        code_bg: TermColor::Rgb(30, 30, 30),
        selection_fg: TermColor::Black,
        selection_bg: TermColor::White,
        muted: TermColor::DarkGray,
        border: TermColor::Gray,
        headings: [
            style(TermColor::Blue),
            style(TermColor::Green),
            style(TermColor::Magenta),
            style(TermColor::Magenta),
            style(TermColor::Cyan),
            style(TermColor::Gray),
        ],
    }
}

fn settings(width: u16, mode: MarkdownMode) -> TranscriptSettings {
    TranscriptSettings {
        width,
        streaming: false,
        collapse_thinking: true,
        frame_tick: 0,
        user_alignment: TextAlignment::Left,
        ai_alignment: TextAlignment::Left,
        markdown_mode: mode,
        kitty_enhanced_text: false,
        kitty_heading_downscale: HeadingDownscale::Zero,
        image_protocol_enabled: false,
        terminal_capabilities: TerminalCapabilities {
            terminal: TerminalKind::Unknown,
            multiplexer: None,
            kitty_graphics: false,
            kitty_text_sizing: false,
            tmux_passthrough: false,
        },
        user_bubble: TermColor::Rgb(40, 44, 52),
    }
}

fn message(role: &str, content: &str) -> ChatMessage {
    ChatMessage { role: role.to_string(), content: content.to_string(), thinking_content: None }
}

fn text_of(line: &BoxLine) -> String {
    line.runs.iter().map(|r| r.text.as_str()).collect::<Vec<_>>().concat()
}

fn screen(rendered: &RenderedMessages) -> Vec<String> {
    rendered.lines.iter().map(text_of).collect()
}

#[test]
fn unfolded_thinking_anchor_keeps_context_above_answer() {
    let mut m = message("assistant", "Answer");
    m.thinking_content = Some(["one", "two", "three", "four", "five", "six", "seven", "eight"].join("\n"));
    let rendered = build_messages(&vec![m], &vec![0], "User", settings(40, MarkdownMode::Off), &theme());
    let anchor = rendered.answer_anchor_lines[0].1;

    assert!(text_of(&rendered.lines[anchor]).contains("four"));
}

#[test]
fn transcript_styles_assistant_box_and_user_clean_text() {
    let s = settings(60, MarkdownMode::Off);
    let msgs = vec![message("user", "Question"), message("assistant", "Answer")];
    let rendered = build_messages(&msgs, &vec![], "User", s, &theme());

    assert!(screen(&rendered).join("\n").contains("Answer"));
    let user_line = rendered.lines.iter().find(|l| text_of(l).contains("Question")).expect("user answer line");
    assert_eq!(user_line.style.bg, Some(s.user_bubble));
    let assistant_line = rendered.lines.iter().find(|l| text_of(l).contains("Answer")).expect("assistant answer line");
    assert_eq!(assistant_line.style.bg, None);
}

#[test]
fn thinking_fold_uses_darker_box_style() {
    let mut m = message("assistant", "Answer");
    m.thinking_content = Some("Reason".to_string());
    let rendered = build_messages(&vec![m], &vec![], "User", settings(60, MarkdownMode::Off), &theme());
    let thinking = rendered.lines.iter().find(|l| text_of(l).contains("thinking")).expect("thinking fold line");

    assert_eq!(thinking.runs[0].style.bg, Some(theme().code_bg));
}

#[test]
fn folded_thinking_shows_toggle_label_and_records_its_columns() {
    let mut m = message("assistant", "Answer");
    m.thinking_content = Some("Reason".to_string());
    let rendered = build_messages(&vec![m], &vec![], "User", settings(60, MarkdownMode::Off), &theme());
    let lines = screen(&rendered);

    assert!(lines[0].contains("▸ show thinking"));
    assert!(!lines.join("\n").contains("Reason"));
    let toggle = rendered.thinking_toggle_lines[0];
    assert_eq!((toggle.message_idx, toggle.line, toggle.x_offset, toggle.width), (0, 0, 6, 48));
    assert_eq!(rendered.answer_anchor_lines, vec![(0, 0)]);
    assert_eq!(lines[1], "Answer");
    assert_eq!(lines[2], "");
    assert_eq!(lines.len(), 3);
}

#[test]
fn override_opens_reasoning_in_a_box_below_its_toggle() {
    let mut m = message("assistant", "Answer");
    m.thinking_content = Some("Reason".to_string());
    let rendered = build_messages(&vec![m], &vec![0], "User", settings(60, MarkdownMode::Off), &theme());
    let lines = screen(&rendered);

    assert!(lines[0].contains("▾ hide thinking"));
    assert!(lines[1].contains("Reason"));
    assert!(lines[1].starts_with("        Reason"));
    assert_eq!(lines[2].trim(), "");
    assert_eq!(lines[3], "Answer");
    assert_eq!(rendered.answer_anchor_lines, vec![(0, 0)]);
}

#[test]
fn streaming_reasoning_animates_its_label_and_drops_trailing_line() {
    let mut m = message("assistant", "Hi");
    m.thinking_content = Some("Reason".to_string());
    let mut s = settings(60, MarkdownMode::Off);
    s.streaming = true;
    s.frame_tick = 25;
    let rendered = build_messages(&vec![m], &vec![], "User", s, &theme());
    let lines = screen(&rendered);

    assert!(lines[0].contains("▸ thinking..."));
    assert_eq!(lines[1], "Hi");
    assert_eq!(lines.len(), 2);
}

#[test]
fn thinking_collapsed_turns_default_over_for_listed_messages() {
    assert!(thinking_collapsed(&vec![], 3, true));
    assert!(!thinking_collapsed(&vec![1, 3], 3, true));
    assert!(thinking_collapsed(&vec![1, 3], 3, false));
    assert!(!thinking_collapsed(&vec![1], 3, false));
}

#[test]
fn system_message_is_headed_by_system_line() {
    let t = theme();
    let rendered = build_messages(&vec![message("system", "Be brief")], &vec![], "User", settings(30, MarkdownMode::Off), &t);
    let lines = screen(&rendered);

    assert_eq!(lines, vec![" System ".to_string(), "Be brief".to_string(), "".to_string()]);
    assert_eq!(rendered.lines[0].runs[0].style.fg, Some(t.warning));
    assert_eq!(rendered.answer_anchor_lines, vec![(0, 1)]);
}

#[test]
fn user_message_is_a_titled_bubble_with_links_inside() {
    let s = settings(40, MarkdownMode::Off);
    let rendered = build_messages(&vec![message("user", "@caveman")], &vec![], "alice", s, &theme());
    let lines = screen(&rendered);

    assert!(lines[0].starts_with("  alice "));
    assert_eq!(lines[0].chars().count(), 40);
    assert!(lines[1].starts_with("  @caveman"));
    assert_eq!(lines[2].trim(), "");
    assert_eq!(lines[3], "");
    let target = &rendered.link_targets[0];
    assert_eq!((target.line, target.column, target.width), (1, 2, 8));
    assert_eq!(target.target, "skill:caveman");
    assert_eq!(rendered.answer_anchor_lines, vec![(0, 0)]);
}

#[test]
fn right_aligned_user_link_moves_with_its_padding() {
    let mut s = settings(40, MarkdownMode::Off);
    s.user_alignment = TextAlignment::Right;
    let rendered = build_messages(&vec![message("user", "@caveman")], &vec![], "alice", s, &theme());
    let target = &rendered.link_targets[0];

    assert_eq!(rendered.lines[1].alignment, None);
    assert_eq!((target.line, target.column), (1, 2 + 36 - 8));
    assert!(text_of(&rendered.lines[1]).ends_with("@caveman  "));
}

#[test]
fn assistant_lines_keep_their_alignment() {
    let mut s = settings(40, MarkdownMode::Off);
    s.ai_alignment = TextAlignment::Middle;
    let rendered = build_messages(&vec![message("assistant", "Hi")], &vec![], "User", s, &theme());

    assert_eq!(rendered.lines[0].alignment, Some(Alignment::Center));
    assert_eq!(text_of(&rendered.lines[0]), "Hi");
}

#[test]
fn every_message_gets_one_answer_line_in_order() {
    let msgs = vec![message("user", "a"), message("assistant", "b"), message("system", "c")];
    let rendered = build_messages(&msgs, &vec![], "User", settings(40, MarkdownMode::Off), &theme());
    let indices: Vec<usize> = rendered.answer_anchor_lines.iter().map(|(i, _)| *i).collect();

    assert_eq!(indices, vec![0, 1, 2]);
}

#[test]
fn placement_needs_rows() {
    let rendered = build_messages(&vec![message("assistant", "x")], &vec![], "User", settings(40, MarkdownMode::Off), &theme());

    assert!(place_messages(&rendered, Rect { x: 0, y: 0, width: 40, height: 0 }, true, 0, false, None).is_none());
}

#[test]
fn bottom_scroll_keeps_long_markdown_tail_and_thinking_hit_area_aligned() {
    let mut assistant = message("assistant", "final tail");
    assistant.thinking_content = Some("reason".to_string());
    let msgs = vec![message("user", "ABCDEFGHIJKLMNOPQRSTUVWXYZ"), assistant];
    let rendered = build_messages(&msgs, &vec![], "User", settings(20, MarkdownMode::Full), &theme());
    let area = Rect { x: 0, y: 0, width: 20, height: 8 };
    let placed = place_messages(&rendered, area, false, usize::MAX, false, None).expect("placement");
    let shown: Vec<String> = screen(&rendered).into_iter().skip(placed.scroll_offset).take(8).collect();

    assert!(shown.join("\n").contains("final tail"));
    let toggle_row = shown.iter().position(|l| l.contains("show think")).expect("visible thinking toggle") as u16;
    assert_eq!(placed.thinking_hit_areas[0].1.y, toggle_row);
    assert_eq!(placed.scroll_offset, rendered.lines.len().saturating_sub(8));
}

#[test]
fn placement_adds_scrollbar_when_lines_overflow() {
    let msgs: Vec<ChatMessage> = (0..6).map(|i| message("assistant", &format!("line {i}"))).collect();
    let rendered = build_messages(&msgs, &vec![], "User", settings(30, MarkdownMode::Off), &theme());
    let area = Rect { x: 2, y: 3, width: 30, height: 5 };
    let placed = place_messages(&rendered, area, true, 1, false, None).expect("placement");

    assert_eq!(placed.viewport, Rect { x: 2, y: 3, width: 29, height: 5 });
    assert_eq!(placed.scrollbar_track, Some(Rect { x: 31, y: 3, width: 1, height: 5 }));
    assert_eq!(placed.scroll_offset, 1);

    let no_bar = place_messages(&rendered, area, false, 100, false, None).expect("placement");
    assert_eq!(no_bar.viewport, area);
    assert_eq!(no_bar.scrollbar_track, None);
    assert_eq!(no_bar.scroll_offset, rendered.lines.len() - 5);
}

#[test]
fn jump_to_message_scrolls_to_its_answer_line() {
    let msgs: Vec<ChatMessage> = (0..6).map(|i| message("assistant", &format!("line {i}"))).collect();
    let rendered = build_messages(&msgs, &vec![], "User", settings(30, MarkdownMode::Off), &theme());
    let area = Rect { x: 0, y: 0, width: 30, height: 4 };

    let placed = place_messages(&rendered, area, false, 0, false, Some(2)).expect("placement");
    assert_eq!(placed.scroll_offset, 4);
    assert_eq!(placed.scroll_to_message, None);

    let streaming = place_messages(&rendered, area, false, 0, true, Some(2)).expect("placement");
    assert_eq!(streaming.scroll_offset, rendered.lines.len() - 4);
    assert_eq!(streaming.scroll_to_message, Some(2));

    let unknown = place_messages(&rendered, area, false, 0, false, Some(99)).expect("placement");
    assert_eq!(unknown.scroll_offset, rendered.lines.len() - 4);
}

#[test]
fn link_areas_follow_scroll_and_line_start() {
    let msgs = vec![message("assistant", "x"), message("assistant", "see @save")];
    let rendered = build_messages(&msgs, &vec![], "User", settings(30, MarkdownMode::Off), &theme());
    let area = Rect { x: 5, y: 10, width: 30, height: 3 };
    let placed = place_messages(&rendered, area, false, 1, false, None).expect("placement");

    assert_eq!(placed.link_hit_areas.len(), 1);
    let (rect, target) = &placed.link_hit_areas[0];
    assert_eq!(*rect, Rect { x: 9, y: 11, width: 5, height: 1 });
    assert_eq!(target, "skill:save");

    let one_row = Rect { x: 5, y: 10, width: 30, height: 1 };
    let scrolled_past = place_messages(&rendered, one_row, false, 3, false, None).expect("placement");
    assert!(scrolled_past.link_hit_areas.is_empty());
}

#[test]
fn skill_mentions_on_one_line_have_independent_hit_areas() {
    let mut s = settings(80, MarkdownMode::Full);
    s.ai_alignment = TextAlignment::Right;
    let rendered = build_messages(&vec![message("assistant", "Use @caveman then @save.")], &vec![], "User", s, &theme());
    let placed = place_messages(&rendered, Rect { x: 0, y: 0, width: 80, height: 10 }, true, 0, false, None)
        .expect("render messages");
    let areas = &placed.link_hit_areas;

    assert_eq!(areas.len(), 2);
    assert_eq!(areas[0].1, "skill:caveman");
    assert_eq!(areas[1].1, "skill:save");
    assert_eq!(areas[0].0.width, 8);
    assert_eq!(areas[1].0.width, 5);
    assert_eq!(areas[0].0.x, 60);
    assert_eq!(areas[1].0.x, 74);
    assert!(areas[0].0.x + areas[0].0.width <= areas[1].0.x);
}

#[test]
fn kitty_heading_falls_back_when_second_row_is_clipped() {
    let rendered = build_messages(&vec![message("assistant", "# Heading")], &vec![], "User", kitty_settings(40), &theme());
    assert_eq!(rendered.kitty_headings.len(), 1);
    let area = Rect { x: 0, y: 0, width: 40, height: 1 };
    let placed = place_messages(&rendered, area, false, 0, false, None).expect("render clipped heading");

    assert!(place_kitty_headings(&rendered.kitty_headings, placed.viewport, placed.scroll_offset).is_empty());
}

#[test]
fn kitty_heading_is_placed_on_its_line_when_both_rows_show() {
    let rendered = build_messages(&vec![message("assistant", "# Heading")], &vec![], "User", kitty_settings(40), &theme());
    let area = Rect { x: 3, y: 2, width: 40, height: 10 };
    let placed = place_messages(&rendered, area, false, 0, false, None).expect("placement");
    let areas = place_kitty_headings(&rendered.kitty_headings, placed.viewport, placed.scroll_offset);

    assert_eq!(areas.len(), 1);
    assert_eq!(areas[0].0, 0);
    assert_eq!(areas[0].1, Rect { x: 3, y: 2, width: 14, height: 2 });
}
