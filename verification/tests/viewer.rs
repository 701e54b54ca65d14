use tcui::artifacts::{ArtifactEntry, ArtifactHandle, ArtifactKind};
use tcui::geometry::Rect;
use tcui::render::{HeadingDownscale, MarkdownMode, RenderTheme};
use tcui::terminal::{TermColor, TermStyle, TerminalCapabilities, TerminalKind};
use tcui::viewer::{artifact_viewer_layout, kind_label, popup_area, ArtifactViewerState};

fn caps() -> TerminalCapabilities {
    TerminalCapabilities { terminal: TerminalKind::Unknown, multiplexer: None, kitty_graphics: false, kitty_text_sizing: false, tmux_passthrough: false }
}

fn theme() -> RenderTheme {
    let h = TermStyle { fg: Some(TermColor::Blue), bg: None, bold: true, italic: false, underlined: false, crossed_out: false };
    RenderTheme {
        info: TermColor::Cyan,
        foreground: TermColor::White,
        accent: TermColor::Blue,
        warning: TermColor::Yellow,
        code_fg: TermColor::Green,
        code_bg: TermColor::Black,
        selection_fg: TermColor::Black,
        selection_bg: TermColor::White,
        muted: TermColor::DarkGray,
        border: TermColor::Gray,
        headings: [h; 6],
    }
}

#[test]
fn preview_scroll_stays_within_the_content() {
    let artifact = ArtifactEntry::temp_markdown(1, "short.md".to_string(), "one line".to_string());
    let mut viewer = ArtifactViewerState::new(artifact);
    assert_eq!(viewer.scroll, 0);
    assert_eq!(viewer.handle(), &ArtifactHandle::Temporary(1));
    viewer.scroll = 100;
    viewer.clamp_scroll(1, 20);
    assert_eq!(viewer.scroll, 0);
    viewer.scroll = 100;
    viewer.clamp_scroll(50, 20);
    assert_eq!(viewer.scroll, 30);
    viewer.scroll = 3;
    viewer.clamp_scroll(50, 0);
    assert_eq!(viewer.scroll, 3);
}

#[test]
fn viewer_kind_labels_are_spelled_out() {
    assert_eq!(kind_label(ArtifactKind::Image), "image");
    assert_eq!(kind_label(ArtifactKind::Markdown), "md");
    assert_eq!(kind_label(ArtifactKind::Binary), "binary");
}

#[test]
fn viewer_popup_leaves_a_margin() {
    let area = popup_area(tcui::geometry::Rect::new(0, 0, 100, 50));
    assert!(area.width >= 87 && area.width <= 89);
    assert!(area.height >= 41 && area.height <= 43);
    assert!(area.x >= 5 && area.y >= 3);
}

#[test]
fn editor_popup_sits_right_of_the_sidebar() {
    let area = tcui::layout::popup_area_pub(tcui::geometry::Rect::new(0, 0, 100, 50));
    assert!(area.x >= 24 && area.x <= 26);
    assert!(area.width >= 74 && area.width <= 76);
    assert!(area.y >= 2 && area.y <= 4);
}

#[test]
fn preview_scroll_is_clamped_to_rendered_content() {
    let artifact = ArtifactEntry::temp_markdown(1, "short.md".to_string(), "one line".to_string());
    let mut viewer = ArtifactViewerState::new(artifact);
    viewer.scroll = 100;
    let (scroll, _) = artifact_viewer_layout(
        Rect { x: 0, y: 0, width: 80, height: 24 },
        &viewer.artifact,
        viewer.scroll,
        "one line",
        MarkdownMode::Full,
        HeadingDownscale::Zero,
        false,
        caps(),
        &theme(),
    );
    viewer.scroll = scroll;

    assert_eq!(viewer.scroll, 0);
}

#[test]
fn viewer_buttons_sit_on_the_top_row() {
    let artifact = ArtifactEntry::temp_markdown(1, "a.md".to_string(), "x".to_string());
    let area = Rect { x: 0, y: 0, width: 80, height: 24 };
    let popup = popup_area(area);
    let (_, hits) = artifact_viewer_layout(area, &artifact, 0, "x", MarkdownMode::Full, HeadingDownscale::Zero, false, caps(), &theme());
    let top_y = popup.y + 2;
    let left = popup.x + 2;
    let right = popup.x + popup.width - 2;

    assert_eq!(hits.save, Some(Rect { x: left, y: top_y, width: 6, height: 1 }));
    assert_eq!(hits.delete, Some(Rect { x: left + 7, y: top_y, width: 5, height: 1 }));
    assert_eq!(hits.close, Some(Rect { x: right - 3, y: top_y, width: 3, height: 1 }));
}

#[test]
fn viewer_layout_from_given_rows_clamps_the_scroll_and_places_buttons() {
    let text = (0..30).map(|i| format!("line {i}")).collect::<Vec<_>>().join("\n\n");
    let artifact = ArtifactEntry::temp_markdown(1, "a.md".to_string(), text.clone());
    let top = Rect { x: 4, y: 3, width: 40, height: 1 };
    let body = Rect { x: 4, y: 4, width: 40, height: 10 };
    let (scroll, hits) = tcui::viewer::viewer_layout_from_rows(top, body, &artifact, 1000, &text, MarkdownMode::Full, HeadingDownscale::Zero, false, caps(), &theme());
    assert!(scroll < 1000);
    assert!(scroll > 0);
    assert_eq!(hits.save, Some(Rect { x: 4, y: 3, width: 6, height: 1 }));
    assert_eq!(hits.close, Some(Rect { x: 41, y: 3, width: 3, height: 1 }));
    let (none, _) = tcui::viewer::viewer_layout_from_rows(top, body, &artifact, 0, &text, MarkdownMode::Full, HeadingDownscale::Zero, false, caps(), &theme());
    assert_eq!(none, 0);
}
