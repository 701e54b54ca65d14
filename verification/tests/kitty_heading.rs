use tcui::kitty_heading::build_kitty_heading_sequence;
use tcui::terminal::{KittyHeadingTier, MultiplexerKind, TermColor, TermStyle, TerminalCapabilities, TerminalKind};

fn kitty() -> TerminalCapabilities {
    TerminalCapabilities {
        terminal: TerminalKind::Kitty,
        multiplexer: None,
        kitty_graphics: true,
        kitty_text_sizing: true,
        tmux_passthrough: false,
    }
}

fn colors() -> TermStyle {
    TermStyle { fg: Some(TermColor::Green), bg: Some(TermColor::Black), bold: false, italic: false, underlined: false, crossed_out: false }
}

#[test]
fn kitty_heading_sequence_uses_standard_osc_terminator() {
    let sequence = build_kitty_heading_sequence(12, "Heading", KittyHeadingTier::H3, colors(), kitty(), 32);

    assert!(sequence.contains("\x1b]66;s=2:n=3:d=4"));
    assert!(sequence.contains("\x1b\\"));
    assert!(!sequence.contains('\u{7}'));
}

#[test]
fn blank_or_control_only_heading_gives_nothing() {
    assert_eq!(build_kitty_heading_sequence(12, "  \u{1}\u{7}  ", KittyHeadingTier::H1, colors(), kitty(), 32), "");
}

#[test]
fn heading_is_framed_and_cut_into_chunks_by_columns() {
    let sequence = build_kitty_heading_sequence(10, " ab\u{1}cd ", KittyHeadingTier::H1, TermStyle::plain(), kitty(), 2);

    assert!(sequence.starts_with("\x1b[s\x1b[?7l\x1b[39m\x1b[49m\x1b[10X\x1b[1B\x1b[10X\x1b[1A"));
    assert!(sequence.contains("\x1b]66;s=2:w=2;ab\x1b\\\x1b]66;s=2:w=2;cd\x1b\\"));
    assert!(sequence.ends_with("\x1b[0m\x1b[?7h\x1b[u\x1b[1C"));
}

#[test]
fn combining_marks_stay_with_their_letter() {
    let sequence = build_kitty_heading_sequence(10, "e\u{301}x", KittyHeadingTier::H1, TermStyle::plain(), kitty(), 1);

    assert!(sequence.contains(";e\u{301}\x1b\\"));
    assert!(sequence.contains(";x\x1b\\"));
}

#[test]
fn tmux_passthrough_wraps_each_chunk() {
    let mut caps = kitty();
    caps.multiplexer = Some(MultiplexerKind::Tmux);
    caps.tmux_passthrough = true;
    let sequence = build_kitty_heading_sequence(10, "ab", KittyHeadingTier::H1, TermStyle::plain(), caps, 8);

    assert!(sequence.contains("\x1bPtmux;\x1b\x1b]66;"));
}
