use tcui::boxes::{
    aligned_line_x, alignment_padding_for, box_bottom_line, box_content_line, box_top_line, content_padding, line_width,
    Alignment, BoxLine,
};
use tcui::geometry::Rect;
use tcui::inline::StyledRun;
use tcui::terminal::{TermColor, TermStyle};

fn fg(c: TermColor) -> TermStyle {
    TermStyle { fg: Some(c), ..TermStyle::plain() }
}

fn bg(c: TermColor) -> TermStyle {
    TermStyle { bg: Some(c), ..TermStyle::plain() }
}

fn run(text: &str, style: TermStyle) -> StyledRun {
    StyledRun { text: text.to_string(), style, link: None }
}

fn text_of(line: &BoxLine) -> String {
    line.runs.iter().map(|r| r.text.as_str()).collect()
}

#[test]
fn boxed_content_clips_styled_spans_to_inner_width() {
    let line = BoxLine {
        runs: vec![run("1234", fg(TermColor::Red)), run("5678", fg(TermColor::Green))],
        alignment: None,
        style: TermStyle::plain(),
    };

    let boxed = box_content_line(1, 5, line, bg(TermColor::Blue));

    assert_eq!(line_width(&boxed), 10);
    assert_eq!(text_of(&boxed), "   12345  ");
}

#[test]
fn clipped_runs_take_the_box_background() {
    let line = BoxLine { runs: vec![run("ab", fg(TermColor::Red))], alignment: None, style: TermStyle::plain() };
    let boxed = box_content_line(0, 6, line, bg(TermColor::Blue));
    let kept = boxed.runs.iter().find(|r| r.text == "ab").expect("content run");
    assert_eq!(kept.style.fg, Some(TermColor::Red));
    assert_eq!(kept.style.bg, Some(TermColor::Blue));
    assert_eq!(text_of(&boxed), "  ab      ");
}

#[test]
fn alignment_pads_centred_and_right_lines() {
    assert_eq!(alignment_padding_for(10, 4, Alignment::Left), 0);
    assert_eq!(alignment_padding_for(10, 4, Alignment::Center), 3);
    assert_eq!(alignment_padding_for(10, 4, Alignment::Right), 6);
    assert_eq!(alignment_padding_for(3, 4, Alignment::Right), 0);
    let line = BoxLine { runs: vec![run("abcd", TermStyle::plain())], alignment: Some(Alignment::Center), style: TermStyle::plain() };
    assert_eq!(content_padding(10, &line), (3, 3));
    let right = BoxLine { runs: vec![run("abcd", TermStyle::plain())], alignment: Some(Alignment::Right), style: TermStyle::plain() };
    assert_eq!(aligned_line_x(Rect { x: 2, y: 0, width: 10, height: 1 }, &right), 8);
    let boxed = box_content_line(0, 10, right, TermStyle::plain());
    assert_eq!(text_of(&boxed), "        abcd  ");
}

#[test]
fn box_title_is_cut_to_the_inner_width() {
    let top = box_top_line(1, 8, "Thinking", fg(TermColor::Yellow), bg(TermColor::Black));
    assert_eq!(text_of(&top), "   Think ");
    assert_eq!(top.runs[2].style.fg, Some(TermColor::Yellow));
    let wide = box_top_line(0, 12, "Hi", TermStyle::plain(), TermStyle::plain());
    assert_eq!(text_of(&wide), "  Hi        ");
    let narrow = box_top_line(2, 1, "Hi", TermStyle::plain(), TermStyle::plain());
    assert_eq!(text_of(&narrow), "  ");
}

#[test]
fn box_bottom_spans_the_width() {
    assert_eq!(text_of(&box_bottom_line(1, 5, TermStyle::plain())), "      ");
    assert_eq!(text_of(&box_bottom_line(3, 0, TermStyle::plain())), "   ");
}

#[test]
fn boxed_content_background_stops_at_box_boundary() {
    let boxed = box_content_line(
        1,
        5,
        BoxLine { runs: vec![run("12345", TermStyle::plain())], alignment: None, style: TermStyle::plain() },
        bg(TermColor::Blue),
    );
    let mut cell_bg: Vec<Option<TermColor>> = Vec::new();
    for r in &boxed.runs {
        for _ in r.text.chars() {
            cell_bg.push(r.style.bg);
        }
    }

    assert_eq!(cell_bg[9], Some(TermColor::Blue));
    assert_eq!(cell_bg.get(10), None);
    assert_eq!(boxed.style.bg, Some(TermColor::Blue));
}
