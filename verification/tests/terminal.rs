use tcui::editor_keys::{ansi_seq, char_to_bytes, f_key_bytes, key_to_bytes, scroll_bytes, EditorKey, EditorKeyCode};
use tcui::terminal::{
    append_text_sizing_chunk, capabilities_from, classify_multiplexer, classify_terminal, multiplexer_supports_graphics,
    passthrough_option_allows, push_ansi_color, push_ansi_style, wrap_for_terminal_passthrough, KittyHeadingTier,
    MultiplexerKind, PickerReport, TermColor, TermStyle, TerminalCapabilities, TerminalKind,
};

fn caps(multiplexer: Option<MultiplexerKind>, passthrough: bool) -> TerminalCapabilities {
    TerminalCapabilities {
        terminal: TerminalKind::Kitty,
        multiplexer,
        kitty_graphics: true,
        kitty_text_sizing: true,
        tmux_passthrough: passthrough,
    }
}

#[test]
fn terminals_are_recognized_from_their_environment() {
    assert_eq!(classify_terminal("xterm-kitty", "", false, false), TerminalKind::Kitty);
    assert_eq!(classify_terminal("xterm", "", true, false), TerminalKind::Kitty);
    assert_eq!(classify_terminal("xterm", "GhosTTY", false, false), TerminalKind::Ghostty);
    assert_eq!(classify_terminal("xterm", "", false, true), TerminalKind::Ghostty);
    assert_eq!(classify_terminal("xterm", "WezTerm", false, false), TerminalKind::WezTerm);
    assert_eq!(classify_terminal("xterm", "iTerm", false, false), TerminalKind::Unknown);
}

#[test]
fn multiplexers_are_recognized_in_order() {
    assert_eq!(classify_multiplexer(true, true, false), Some(MultiplexerKind::Tmux));
    assert_eq!(classify_multiplexer(false, true, true), Some(MultiplexerKind::Zellij));
    assert_eq!(classify_multiplexer(false, false, true), Some(MultiplexerKind::Herdr));
    assert_eq!(classify_multiplexer(false, false, false), None);
}

#[test]
fn tmux_passthrough_option_values() {
    assert!(passthrough_option_allows(" on\n"));
    assert!(passthrough_option_allows("all"));
    assert!(!passthrough_option_allows("off"));
    assert!(!passthrough_option_allows(""));
}

#[test]
fn graphics_pass_only_where_the_multiplexer_lets_them() {
    assert!(multiplexer_supports_graphics(None, false));
    assert!(multiplexer_supports_graphics(Some(MultiplexerKind::Tmux), true));
    assert!(!multiplexer_supports_graphics(Some(MultiplexerKind::Tmux), false));
    assert!(!multiplexer_supports_graphics(Some(MultiplexerKind::Zellij), true));
}

#[test]
fn capabilities_combine_detection_and_probe() {
    let c = capabilities_from(TerminalKind::Ghostty, Some(MultiplexerKind::Tmux), true, None);
    assert!(c.tmux_passthrough);
    assert!(c.kitty_graphics);
    assert!(!c.kitty_text_sizing);
    let c = capabilities_from(TerminalKind::Kitty, Some(MultiplexerKind::Zellij), true, None);
    assert!(!c.tmux_passthrough);
    assert!(!c.kitty_graphics);
    let c = capabilities_from(
        TerminalKind::Unknown,
        None,
        false,
        Some(PickerReport { kitty_protocol: true, text_sizing: true }),
    );
    assert!(c.kitty_graphics && c.kitty_text_sizing);
}

#[test]
fn sequences_are_wrapped_for_tmux() {
    assert_eq!(
        wrap_for_terminal_passthrough(caps(Some(MultiplexerKind::Tmux), true), "\x1b]66;x\x1b\\"),
        "\x1bPtmux;\x1b\x1b]66;x\x1b\x1b\\\x1b\\"
    );
    assert_eq!(wrap_for_terminal_passthrough(caps(None, true), "\x1babc"), "\x1babc");
    assert_eq!(wrap_for_terminal_passthrough(caps(Some(MultiplexerKind::Tmux), false), "\x1babc"), "\x1babc");
}

#[test]
fn heading_tiers_scale_width_and_sequence() {
    assert_eq!(KittyHeadingTier::H1.rendered_width("Heading"), 14);
    assert_eq!(KittyHeadingTier::H2.rendered_width("Heading"), 12);
    assert_eq!(KittyHeadingTier::H3.rendered_width("Heading"), 11);
    assert_eq!(KittyHeadingTier::H1.rendered_width(""), 2);
    assert_eq!(KittyHeadingTier::H1.osc_sequence("Hi", 4), "\x1b]66;s=2:w=4;Hi\x1b\\");
    assert_eq!(KittyHeadingTier::H2.osc_sequence("Hi", 12), "\x1b]66;s=2:n=5:d=6:w=10;Hi\x1b\\");
    assert_eq!(KittyHeadingTier::H3.osc_sequence("Heading", 12), "\x1b]66;s=2:n=3:d=4:w=9;Heading\x1b\\");
}

#[test]
fn text_sizing_chunks_append_their_sequence() {
    let mut s = String::from("x");
    append_text_sizing_chunk(&mut s, "", 3, KittyHeadingTier::H1, caps(None, false));
    assert_eq!(s, "x");
    append_text_sizing_chunk(&mut s, "ab", 3, KittyHeadingTier::H1, caps(None, false));
    assert_eq!(s, "x\x1b]66;s=2:w=3;ab\x1b\\");
}

#[test]
fn ansi_colours_and_styles() {
    let mut s = String::new();
    push_ansi_color(&mut s, TermColor::Red, true);
    push_ansi_color(&mut s, TermColor::LightBlue, false);
    push_ansi_color(&mut s, TermColor::Reset, false);
    push_ansi_color(&mut s, TermColor::Indexed(42), true);
    push_ansi_color(&mut s, TermColor::Rgb(1, 2, 3), false);
    assert_eq!(s, "\x1b[31m\x1b[104m\x1b[49m\x1b[38;5;42m\x1b[48;2;1;2;3m");
    let mut s = String::new();
    let style = TermStyle { fg: Some(TermColor::Green), bg: None, bold: true, italic: false, underlined: true, crossed_out: false };
    push_ansi_style(&mut s, style);
    assert_eq!(s, "\x1b[1m\x1b[4m\x1b[32m\x1b[49m");
}

fn key(code: EditorKeyCode, ctrl: bool, alt: bool) -> EditorKey {
    EditorKey { code, ctrl, alt, shift: false }
}

#[test]
fn editor_keys_become_terminal_bytes() {
    assert_eq!(key_to_bytes(key(EditorKeyCode::Char('a'), false, false)), b"a".to_vec());
    assert_eq!(key_to_bytes(key(EditorKeyCode::Char('c'), true, false)), vec![3]);
    assert_eq!(key_to_bytes(key(EditorKeyCode::Char(' '), true, true)), vec![0x1b, 0]);
    assert_eq!(key_to_bytes(key(EditorKeyCode::Char('é'), false, false)), "é".as_bytes().to_vec());
    assert_eq!(key_to_bytes(key(EditorKeyCode::Enter, false, false)), vec![0x0d]);
    assert_eq!(key_to_bytes(key(EditorKeyCode::Left, false, true)), b"\x1b\x1b[D".to_vec());
    assert_eq!(key_to_bytes(key(EditorKeyCode::PageDown, false, false)), b"\x1b[6~".to_vec());
    assert_eq!(key_to_bytes(key(EditorKeyCode::F(5), false, false)), b"\x1b[15~".to_vec());
    assert_eq!(key_to_bytes(key(EditorKeyCode::F(13), false, false)), Vec::<u8>::new());
    assert_eq!(key_to_bytes(key(EditorKeyCode::Other, false, false)), Vec::<u8>::new());
    assert_eq!(f_key_bytes(1), b"\x1bOP".to_vec());
    assert_eq!(char_to_bytes('Z', true, false, true), vec![26]);
    assert_eq!(ansi_seq("A", false), b"\x1b[A".to_vec());
}

#[test]
fn wheel_scrolls_send_arrow_keys() {
    assert_eq!(scroll_bytes(true), b"\x1b[B".to_vec());
    assert_eq!(scroll_bytes(false), b"\x1b[A".to_vec());
}
