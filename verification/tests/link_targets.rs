use tcui::inline::{append_link_targets, LinkTarget, StyledRun};
use tcui::terminal::TermStyle;

fn run(text: &str, link: Option<&str>) -> StyledRun {
    StyledRun { text: text.to_string(), style: TermStyle::plain(), link: link.map(|l| l.to_string()) }
}

#[test]
fn link_areas_on_a_line_are_ordered_disjoint_and_within_the_line() {
    let mut targets = vec![LinkTarget { line: 0, column: 3, width: 4, target: "a".to_string() }];
    let runs = vec![
        run("see ", None),
        run("docs", Some("https://a.test")),
        run(" and ", None),
        run("more", Some("https://b.test")),
        run("!", Some("https://b.test")),
    ];
    append_link_targets(&mut targets, 1, &runs);
    assert_eq!(targets.len(), 3);
    assert_eq!((targets[1].line, targets[1].column, targets[1].width), (1, 4, 4));
    assert_eq!((targets[2].line, targets[2].column, targets[2].width), (1, 13, 5));
    assert!(targets[1].column + targets[1].width <= targets[2].column);
    let line_width: usize = runs.iter().map(|r| r.text.len()).sum();
    assert!(targets[2].column + targets[2].width <= line_width);
}
