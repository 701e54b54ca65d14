//! What the terminal can display, and the escape sequences the client writes to it:
//! multiplexer passthrough, Kitty text sizing and ANSI colours.
use vstd::prelude::*;
use crate::text::{decimal_digits, push_decimal, chars_of, trim, trim_chars, concat_str};

verus! {

/// Terminal emulators the client recognizes.
#[derive(Debug, Clone, Copy, PartialEq, Eq, Structural)]
pub enum TerminalKind {
    Kitty,
    Ghostty,
    WezTerm,
    Unknown,
}

/// Terminal multiplexers the client recognizes.
#[derive(Debug, Clone, Copy, PartialEq, Eq, Structural)]
pub enum MultiplexerKind {
    Tmux,
    Zellij,
    Herdr,
}

/// What the client knows about the terminal it draws into.
#[derive(Debug, Clone, Copy, PartialEq, Eq, Structural)]
pub struct TerminalCapabilities {
    pub terminal: TerminalKind,
    pub multiplexer: Option<MultiplexerKind>,
    pub kitty_graphics: bool,
    pub kitty_text_sizing: bool,
    pub tmux_passthrough: bool,
}

/// What the image-protocol probe of the terminal reported.
#[derive(Debug, Clone, Copy, PartialEq, Eq, Structural)]
pub struct PickerReport {
    /// The probe chose the Kitty graphics protocol.
    pub kitty_protocol: bool,
    /// The probe found the Kitty text sizing protocol.
    pub text_sizing: bool,
}

/// Whether graphics escape sequences get through the multiplexer: always without one,
/// through tmux only with passthrough allowed, never through zellij or herdr.
pub open spec fn multiplexer_supports_graphics_spec(multiplexer: Option<MultiplexerKind>, tmux_passthrough: bool) -> bool {
    match multiplexer {
        None => true,
        Some(MultiplexerKind::Tmux) => tmux_passthrough,
        Some(_) => false,
    }
}

/// Whether graphics escape sequences get through the multiplexer.
pub fn multiplexer_supports_graphics(multiplexer: Option<MultiplexerKind>, tmux_passthrough: bool) -> (r: bool)
    ensures
        r == multiplexer_supports_graphics_spec(multiplexer, tmux_passthrough),
{
    match multiplexer {
        None => true,
        Some(MultiplexerKind::Tmux) => tmux_passthrough,
        Some(MultiplexerKind::Zellij) => false,
        Some(MultiplexerKind::Herdr) => false,
    }
}

/// The capabilities derived from the detected terminal and multiplexer, whether tmux allows
/// passthrough, and the image probe's report if one ran. Passthrough counts only under tmux.
/// Without a probe report, Kitty graphics are assumed for Kitty and Ghostty when the
/// multiplexer lets graphics through; text sizing needs a probe that found it.
pub open spec fn capabilities_from_spec(
    terminal: TerminalKind,
    multiplexer: Option<MultiplexerKind>,
    tmux_allows_passthrough: bool,
    picker: Option<PickerReport>,
) -> TerminalCapabilities {
    let tmux_passthrough = multiplexer == Some(MultiplexerKind::Tmux) && tmux_allows_passthrough;
    let kitty_graphics = match picker {
        Some(p) => p.kitty_protocol,
        None => (terminal == TerminalKind::Kitty || terminal == TerminalKind::Ghostty)
            && multiplexer_supports_graphics_spec(multiplexer, tmux_passthrough),
    };
    let kitty_text_sizing = match picker {
        Some(p) => p.text_sizing,
        None => false,
    };
    TerminalCapabilities { terminal, multiplexer, kitty_graphics, kitty_text_sizing, tmux_passthrough }
}

/// Combines the detection results into the capabilities the renderer uses.
pub fn capabilities_from(
    terminal: TerminalKind,
    multiplexer: Option<MultiplexerKind>,
    tmux_allows_passthrough: bool,
    picker: Option<PickerReport>,
) -> (r: TerminalCapabilities)
    ensures
        r == capabilities_from_spec(terminal, multiplexer, tmux_allows_passthrough, picker),
{
    let under_tmux = match multiplexer {
        Some(MultiplexerKind::Tmux) => true,
        _ => false,
    };
    let tmux_passthrough = under_tmux && tmux_allows_passthrough;
    let kitty_graphics = match picker {
        Some(p) => p.kitty_protocol,
        None => {
            let kitty_like = match terminal {
                TerminalKind::Kitty => true,
                TerminalKind::Ghostty => true,
                _ => false,
            };
            kitty_like && multiplexer_supports_graphics(multiplexer, tmux_passthrough)
        },
    };
    let kitty_text_sizing = match picker {
        Some(p) => p.text_sizing,
        None => false,
    };
    TerminalCapabilities { terminal, multiplexer, kitty_graphics, kitty_text_sizing, tmux_passthrough }
}

/// Whether `needle` occurs in `hay` as a contiguous run.
pub open spec fn contains_run(hay: Seq<char>, needle: Seq<char>) -> bool {
    exists|i: int| 0 <= i <= hay.len() - needle.len() && #[trigger] hay.subrange(i, i + needle.len()) == needle
}

/// Whether `needle` occurs in `hay` (std `str::contains` with a string pattern).
pub fn chars_contain(hay: &[char], needle: &[char]) -> (r: bool)
    ensures
        r == contains_run(hay@, needle@),
{
    if needle.len() > hay.len() {
        return false;
    }
    let mut i: usize = 0;
    while i <= hay.len() - needle.len()
        invariant
            needle.len() <= hay.len(),
            i <= hay.len() - needle.len() + 1,
            forall|k: int| 0 <= k < i ==> #[trigger] hay@.subrange(k, k + needle.len()) != needle@,
        decreases hay.len() - needle.len() + 1 - i,
    {
        let mut j: usize = 0;
        let mut same = true;
        while j < needle.len()
            invariant
                i + needle.len() <= hay.len(),
                j <= needle.len(),
                same == (forall|m: int| 0 <= m < j ==> hay@[i + m] == needle@[m]),
            decreases needle.len() - j,
        {
            if hay[i + j] != needle[j] {
                same = false;
            }
            j = j + 1;
        }
        if same {
            assert(hay@.subrange(i as int, i + needle.len()) =~= needle@);
            return true;
        }
        assert(hay@.subrange(i as int, i + needle.len()) != needle@) by {
            let m = choose|m: int| 0 <= m < needle.len() && hay@[i + m] != needle@[m];
            assert(hay@.subrange(i as int, i + needle.len())[m] == hay@[i + m]);
        }
        i = i + 1;
    }
    false
}

/// The ASCII lower-case form of a character; other characters are unchanged.
pub open spec fn ascii_lower(c: char) -> char {
    if 'A' <= c && c <= 'Z' { ((c as u32) + 32) as char } else { c }
}

/// Whether two strings are equal ignoring ASCII case (std `str::eq_ignore_ascii_case`).
pub open spec fn eq_ignore_ascii_case_spec(a: Seq<char>, b: Seq<char>) -> bool {
    a.len() == b.len() && forall|i: int| 0 <= i < a.len() ==> ascii_lower(#[trigger] a[i]) == ascii_lower(b[i])
}

fn ascii_lower_exec(c: char) -> (r: char)
    ensures
        r == ascii_lower(c),
{
    if 'A' <= c && c <= 'Z' {
        let code: u32 = (c as u32) + 32;
        let r = code as u8 as char;
        assert(r == ((c as u32) + 32) as char);
        r
    } else {
        c
    }
}

/// Whether two character sequences are equal ignoring ASCII case.
pub fn chars_eq_ignore_ascii_case(a: &[char], b: &[char]) -> (r: bool)
    ensures
        r == eq_ignore_ascii_case_spec(a@, b@),
{
    if a.len() != b.len() {
        return false;
    }
    let mut i: usize = 0;
    while i < a.len()
        invariant
            a.len() == b.len(),
            i <= a.len(),
            forall|k: int| 0 <= k < i ==> ascii_lower(#[trigger] a@[k]) == ascii_lower(b@[k]),
        decreases a.len() - i,
    {
        if ascii_lower_exec(a[i]) != ascii_lower_exec(b[i]) {
            return false;
        }
        i = i + 1;
    }
    true
}

/// The terminal named by the `TERM` and `TERM_PROGRAM` values and by whether Kitty's window
/// variable and Ghostty's resource or binary directory variables are set: Kitty first, then
/// Ghostty, then WezTerm.
pub open spec fn classify_terminal_spec(term: Seq<char>, term_program: Seq<char>, kitty_window: bool, ghostty_dirs: bool) -> TerminalKind {
    if contains_run(term, "kitty"@) || kitty_window {
        TerminalKind::Kitty
    } else if eq_ignore_ascii_case_spec(term_program, "ghostty"@) || ghostty_dirs {
        TerminalKind::Ghostty
    } else if eq_ignore_ascii_case_spec(term_program, "wezterm"@) {
        TerminalKind::WezTerm
    } else {
        TerminalKind::Unknown
    }
}

/// Recognizes the terminal from its environment values.
pub fn classify_terminal(term: &str, term_program: &str, kitty_window: bool, ghostty_dirs: bool) -> (r: TerminalKind)
    ensures
        r == classify_terminal_spec(term@, term_program@, kitty_window, ghostty_dirs),
{
    let term_chars = chars_of(term);
    let program = chars_of(term_program);
    let kitty = chars_of("kitty");
    if chars_contain(term_chars.as_slice(), kitty.as_slice()) || kitty_window {
        return TerminalKind::Kitty;
    }
    let ghostty = chars_of("ghostty");
    if chars_eq_ignore_ascii_case(program.as_slice(), ghostty.as_slice()) || ghostty_dirs {
        return TerminalKind::Ghostty;
    }
    let wezterm = chars_of("wezterm");
    if chars_eq_ignore_ascii_case(program.as_slice(), wezterm.as_slice()) {
        return TerminalKind::WezTerm;
    }
    TerminalKind::Unknown
}

/// The multiplexer named by which of its environment variables are set: tmux first, then
/// zellij, then herdr.
pub fn classify_multiplexer(tmux: bool, zellij: bool, herdr: bool) -> (r: Option<MultiplexerKind>)
    ensures
        r == (if tmux { Some(MultiplexerKind::Tmux) } else if zellij { Some(MultiplexerKind::Zellij) } else if herdr { Some(MultiplexerKind::Herdr) } else { None }),
{
    if tmux {
        Some(MultiplexerKind::Tmux)
    } else if zellij {
        Some(MultiplexerKind::Zellij)
    } else if herdr {
        Some(MultiplexerKind::Herdr)
    } else {
        None
    }
}

/// Whether tmux's `allow-passthrough` option value lets sequences through: `on` or `all`
/// once surrounding whitespace is removed.
pub fn passthrough_option_allows(value: &str) -> (r: bool)
    ensures
        r == (trim(value@) == "on"@ || trim(value@) == "all"@),
{
    let v = chars_of(value);
    let t = trim_chars(v.as_slice());
    let on = chars_of("on");
    let all = chars_of("all");
    let is_on = chars_equal(t.as_slice(), on.as_slice());
    let is_all = chars_equal(t.as_slice(), all.as_slice());
    is_on || is_all
}

/// Whether two character sequences are equal.
pub fn chars_equal(a: &[char], b: &[char]) -> (r: bool)
    ensures
        r == (a@ == b@),
{
    if a.len() != b.len() {
        return false;
    }
    let mut i: usize = 0;
    while i < a.len()
        invariant
            a.len() == b.len(),
            i <= a.len(),
            forall|k: int| 0 <= k < i ==> a@[k] == b@[k],
        decreases a.len() - i,
    {
        if a[i] != b[i] {
            return false;
        }
        i = i + 1;
    }
    assert(a@ =~= b@);
    true
}

/// `s` with every escape character doubled.
pub open spec fn double_escapes(s: Seq<char>) -> Seq<char>
    decreases s.len(),
{
    if s.len() == 0 {
        Seq::empty()
    } else {
        let head: Seq<char> = if s[0] == '\u{1b}' { seq!['\u{1b}', '\u{1b}'] } else { seq![s[0]] };
        head + double_escapes(s.drop_first())
    }
}

proof fn lemma_double_escapes_push(s: Seq<char>, c: char)
    ensures
        double_escapes(s.push(c)) == double_escapes(s) + (if c == '\u{1b}' { seq!['\u{1b}', '\u{1b}'] } else { seq![c] }),
    decreases s.len(),
{
    if s.len() == 0 {
        assert(s.push(c).drop_first() =~= Seq::<char>::empty());
        assert(double_escapes(Seq::<char>::empty()) =~= Seq::<char>::empty());
        assert(double_escapes(s.push(c)) =~= (if c == '\u{1b}' { seq!['\u{1b}', '\u{1b}'] } else { seq![c] }));
    } else {
        assert(s.push(c).drop_first() =~= s.drop_first().push(c));
        lemma_double_escapes_push(s.drop_first(), c);
        let head: Seq<char> = if s[0] == '\u{1b}' { seq!['\u{1b}', '\u{1b}'] } else { seq![s[0]] };
        assert(double_escapes(s.push(c)) =~= head + double_escapes(s.drop_first().push(c)));
    }
}

/// A sequence as written to the terminal: under tmux with passthrough allowed it is wrapped
/// in tmux's passthrough envelope with its escapes doubled; otherwise it is unchanged.
pub open spec fn passthrough_spec(caps: TerminalCapabilities, sequence: Seq<char>) -> Seq<char> {
    if caps.multiplexer == Some(MultiplexerKind::Tmux) && caps.tmux_passthrough {
        "\u{1b}Ptmux;"@ + double_escapes(sequence) + "\u{1b}\\"@
    } else {
        sequence
    }
}

/// Wraps an escape sequence so that it reaches the terminal through tmux.
pub fn wrap_for_terminal_passthrough(caps: TerminalCapabilities, sequence: &str) -> (r: String)
    ensures
        r@ == passthrough_spec(caps, sequence@),
{
    let under_tmux = match caps.multiplexer {
        Some(MultiplexerKind::Tmux) => true,
        _ => false,
    };
    if under_tmux && caps.tmux_passthrough {
        let chars = chars_of(sequence);
        let mut out = String::from_str("\u{1b}Ptmux;");
        let ghost prefix = out@;
        let mut i: usize = 0;
        while i < chars.len()
            invariant
                i <= chars.len(),
                chars@ == sequence@,
                out@ == prefix + double_escapes(chars@.take(i as int)),
            decreases chars.len() - i,
        {
            let c = chars[i];
            proof {
                assert(chars@.take(i + 1) =~= chars@.take(i as int).push(c));
                lemma_double_escapes_push(chars@.take(i as int), c);
            }
            if c == '\u{1b}' {
                crate::text::push_char(&mut out, '\u{1b}');
                crate::text::push_char(&mut out, '\u{1b}');
                assert(out@ =~= prefix + double_escapes(chars@.take(i + 1)));
            } else {
                crate::text::push_char(&mut out, c);
                assert(out@ =~= prefix + double_escapes(chars@.take(i + 1)));
            }
            i = i + 1;
        }
        assert(chars@.take(chars.len() as int) =~= chars@);
        concat_str(out, "\u{1b}\\")
    } else {
        String::from_str(sequence)
    }
}

/// Heading sizes drawn with Kitty's text sizing protocol.
#[derive(Debug, Clone, Copy, PartialEq, Eq, Structural)]
pub enum KittyHeadingTier {
    H1,
    H2,
    H3,
}

/// `n * k / d` rounded up, saturating like the `usize` arithmetic it describes.
pub open spec fn scaled_ceil(n: nat, k: nat, d: nat) -> nat {
    let product = if n * k > usize::MAX { usize::MAX as nat } else { n * k };
    ((product + d - 1) / d as int) as nat
}

proof fn lemma_ceil_div(p: int, d: int)
    requires
        p >= 0,
        d >= 1,
    ensures
        (p + d - 1) / d == if p % d == 0 { p / d } else { p / d + 1 },
{
    vstd::arithmetic::div_mod::lemma_fundamental_div_mod(p, d);
    vstd::arithmetic::div_mod::lemma_fundamental_div_mod(p + d - 1, d);
    let q = p / d;
    let r = p % d;
    assert(0 <= r < d) by {
        vstd::arithmetic::div_mod::lemma_mod_pos_bound(p, d);
    }
    assert(p == q * d + r) by {
        vstd::arithmetic::mul::lemma_mul_is_commutative(q, d);
    }
    if r == 0 {
        assert((p + d - 1) / d == q) by {
            vstd::arithmetic::div_mod::lemma_fundamental_div_mod_converse(p + d - 1, d, q, d - 1);
        }
    } else {
        assert(p + d - 1 == (q + 1) * d + (r - 1)) by {
            vstd::arithmetic::mul::lemma_mul_is_distributive_add_other_way(d, q, 1);
        }
        assert((p + d - 1) / d == q + 1) by {
            vstd::arithmetic::div_mod::lemma_fundamental_div_mod_converse(p + d - 1, d, q + 1, r - 1);
        }
    }
}

fn scaled_ceil_exec(n: usize, k: usize, d: usize) -> (r: usize)
    requires
        1 <= d <= 6,
        k <= 10,
    ensures
        r == scaled_ceil(n as nat, k as nat, d as nat),
{
    let product = match n.checked_mul(k) {
        Some(p) => p,
        None => usize::MAX,
    };
    let q = product / d;
    let r = if product % d == 0 {
        q
    } else {
        assert(q < usize::MAX) by {
            assert(d != 1);
            assert(q <= product / 2) by {
                vstd::arithmetic::div_mod::lemma_div_is_ordered_by_denominator(product as int, 2, d as int);
            }
        }
        q + 1
    };
    proof {
        let p: int = product as int;
        let di: int = d as int;
        lemma_ceil_div(p, di);
    }
    r
}

/// The Kitty text-sizing escape for a heading chunk of `columns` cells: scale 2, with the
/// fractional size and the width in cells for the smaller tiers.
pub open spec fn osc_sequence_spec(tier: KittyHeadingTier, text: Seq<char>, columns: nat) -> Seq<char> {
    match tier {
        KittyHeadingTier::H1 =>
            "\u{1b}]66;s=2:w="@ + decimal_digits(columns) + ";"@ + text + "\u{1b}\\"@,
        KittyHeadingTier::H2 =>
            "\u{1b}]66;s=2:n=5:d=6:w="@ + decimal_digits(scaled_ceil(columns, 5, 6)) + ";"@ + text + "\u{1b}\\"@,
        KittyHeadingTier::H3 =>
            "\u{1b}]66;s=2:n=3:d=4:w="@ + decimal_digits(scaled_ceil(columns, 3, 4)) + ";"@ + text + "\u{1b}\\"@,
    }
}

/// The number of cells a heading of `text_width` cells occupies at this tier: twice the
/// width for H1, 10/6 of it for H2, 3/2 for H3, rounded up, an empty text counting as one cell.
pub open spec fn rendered_width_spec(tier: KittyHeadingTier, text_width: nat) -> nat {
    let w: nat = if text_width >= 1 { text_width } else { 1 };
    match tier {
        KittyHeadingTier::H1 => if w * 2 > usize::MAX { usize::MAX as nat } else { w * 2 },
        KittyHeadingTier::H2 => scaled_ceil(w, 10, 6),
        KittyHeadingTier::H3 => scaled_ceil(w, 3, 2),
    }
}

impl KittyHeadingTier {
    /// The number of cells `text` occupies when drawn at this tier.
    pub fn rendered_width(self, text: &str) -> (r: usize)
        ensures
            r == rendered_width_spec(self, crate::unicode::str_display_width(text@) as nat),
    {
        let width = crate::unicode::str_width(text);
        let w = if width >= 1 { width } else { 1 };
        match self {
            KittyHeadingTier::H1 => match w.checked_mul(2) {
                Some(p) => p,
                None => usize::MAX,
            },
            KittyHeadingTier::H2 => scaled_ceil_exec(w, 10, 6),
            KittyHeadingTier::H3 => scaled_ceil_exec(w, 3, 2),
        }
    }

    /// The text-sizing escape that draws `text` across `columns` cells.
    pub fn osc_sequence(self, text: &str, columns: usize) -> (r: String)
        ensures
            r@ == osc_sequence_spec(self, text@, columns as nat),
    {
        let (mut out, width) = match self {
            KittyHeadingTier::H1 => (String::from_str("\u{1b}]66;s=2:w="), columns),
            KittyHeadingTier::H2 => (String::from_str("\u{1b}]66;s=2:n=5:d=6:w="), scaled_ceil_exec(columns, 5, 6)),
            KittyHeadingTier::H3 => (String::from_str("\u{1b}]66;s=2:n=3:d=4:w="), scaled_ceil_exec(columns, 3, 4)),
        };
        push_decimal(&mut out, width as u64);
        let out = concat_str(out, ";");
        let out = concat_str(out, text);
        concat_str(out, "\u{1b}\\")
    }
}

/// The text-sizing escape for one chunk of heading text, wrapped for the multiplexer;
/// an empty chunk adds nothing.
pub fn append_text_sizing_chunk(sequence: &mut String, chunk: &str, chunk_columns: usize, tier: KittyHeadingTier, caps: TerminalCapabilities)
    ensures
        chunk@.len() == 0 ==> final(sequence)@ == old(sequence)@,
        chunk@.len() > 0 ==> final(sequence)@ == old(sequence)@ + passthrough_spec(caps, osc_sequence_spec(tier, chunk@, chunk_columns as nat)),
{
    if chunk.is_empty() {
        return;
    }
    let osc = tier.osc_sequence(chunk, chunk_columns);
    let wrapped = wrap_for_terminal_passthrough(caps, osc.as_str());
    sequence.append(wrapped.as_str());
}

/// Colours of the terminal palette, as the renderer's styles name them.
#[derive(Debug, Clone, Copy, PartialEq, Eq, Structural)]
pub enum TermColor {
    Reset,
    Black,
    Red,
    Green,
    Yellow,
    Blue,
    Magenta,
    Cyan,
    Gray,
    DarkGray,
    LightRed,
    LightGreen,
    LightYellow,
    LightBlue,
    LightMagenta,
    LightCyan,
    White,
    Indexed(u8),
    Rgb(u8, u8, u8),
}

/// The SGR parameter of a named colour: `base + offset` for the normal colours and
/// `bright + offset` for the light ones, where base and bright are 30/90 for the foreground
/// and 40/100 for the background.
pub open spec fn named_color_code(color: TermColor, foreground: bool) -> Option<nat> {
    let base: nat = if foreground { 30 } else { 40 };
    let bright: nat = if foreground { 90 } else { 100 };
    match color {
        TermColor::Black => Some(base),
        TermColor::Red => Some(base + 1),
        TermColor::Green => Some(base + 2),
        TermColor::Yellow => Some(base + 3),
        TermColor::Blue => Some(base + 4),
        TermColor::Magenta => Some(base + 5),
        TermColor::Cyan => Some(base + 6),
        TermColor::Gray => Some(base + 7),
        TermColor::DarkGray => Some(bright),
        TermColor::LightRed => Some(bright + 1),
        TermColor::LightGreen => Some(bright + 2),
        TermColor::LightYellow => Some(bright + 3),
        TermColor::LightBlue => Some(bright + 4),
        TermColor::LightMagenta => Some(bright + 5),
        TermColor::LightCyan => Some(bright + 6),
        TermColor::White => Some(bright + 7),
        _ => None,
    }
}

/// The SGR escape that selects `color` for the foreground or the background.
pub open spec fn ansi_color_spec(color: TermColor, foreground: bool) -> Seq<char> {
    let ext: nat = if foreground { 38 } else { 48 };
    match color {
        TermColor::Reset => if foreground { "\u{1b}[39m"@ } else { "\u{1b}[49m"@ },
        TermColor::Indexed(i) => "\u{1b}["@ + decimal_digits(ext) + ";5;"@ + decimal_digits(i as nat) + "m"@,
        TermColor::Rgb(r, g, b) => "\u{1b}["@ + decimal_digits(ext) + ";2;"@ + decimal_digits(r as nat) + ";"@
            + decimal_digits(g as nat) + ";"@ + decimal_digits(b as nat) + "m"@,
        _ => "\u{1b}["@ + decimal_digits(named_color_code(color, foreground)->0) + "m"@,
    }
}

fn named_color_code_exec(color: TermColor, foreground: bool) -> (r: Option<u64>)
    ensures
        named_color_code(color, foreground) matches Some(n) ==> r == Some(n as u64),
        named_color_code(color, foreground) is None ==> r is None,
{
    let base: u64 = if foreground { 30 } else { 40 };
    let bright: u64 = if foreground { 90 } else { 100 };
    match color {
        TermColor::Black => Some(base),
        TermColor::Red => Some(base + 1),
        TermColor::Green => Some(base + 2),
        TermColor::Yellow => Some(base + 3),
        TermColor::Blue => Some(base + 4),
        TermColor::Magenta => Some(base + 5),
        TermColor::Cyan => Some(base + 6),
        TermColor::Gray => Some(base + 7),
        TermColor::DarkGray => Some(bright),
        TermColor::LightRed => Some(bright + 1),
        TermColor::LightGreen => Some(bright + 2),
        TermColor::LightYellow => Some(bright + 3),
        TermColor::LightBlue => Some(bright + 4),
        TermColor::LightMagenta => Some(bright + 5),
        TermColor::LightCyan => Some(bright + 6),
        TermColor::White => Some(bright + 7),
        _ => None,
    }
}

/// Appends the SGR escape that selects `color`.
pub fn push_ansi_color(sequence: &mut String, color: TermColor, foreground: bool)
    ensures
        final(sequence)@ == old(sequence)@ + ansi_color_spec(color, foreground),
{
    let ext: u64 = if foreground { 38 } else { 48 };
    match color {
        TermColor::Reset => {
            if foreground { sequence.append("\u{1b}[39m"); } else { sequence.append("\u{1b}[49m"); }
        },
        TermColor::Indexed(i) => {
            sequence.append("\u{1b}[");
            push_decimal(sequence, ext);
            sequence.append(";5;");
            push_decimal(sequence, i as u64);
            sequence.append("m");
        },
        TermColor::Rgb(r, g, b) => {
            sequence.append("\u{1b}[");
            push_decimal(sequence, ext);
            sequence.append(";2;");
            push_decimal(sequence, r as u64);
            sequence.append(";");
            push_decimal(sequence, g as u64);
            sequence.append(";");
            push_decimal(sequence, b as u64);
            sequence.append("m");
        },
        _ => {
            let code = named_color_code_exec(color, foreground);
            match code {
                Some(n) => {
                    sequence.append("\u{1b}[");
                    push_decimal(sequence, n);
                    sequence.append("m");
                },
                None => {},
            }
        },
    }
    proof {
        assert(final(sequence)@ =~= old(sequence)@ + ansi_color_spec(color, foreground));
    }
}

/// The colours and text attributes rendered text is drawn with; an unset colour is the
/// terminal's default.
#[derive(Debug, Clone, Copy, PartialEq, Eq, Structural)]
pub struct TermStyle {
    pub fg: Option<TermColor>,
    pub bg: Option<TermColor>,
    pub bold: bool,
    pub italic: bool,
    pub underlined: bool,
    pub crossed_out: bool,
}

/// The style with no colour and no attribute.
pub open spec fn plain_style() -> TermStyle {
    TermStyle { fg: None, bg: None, bold: false, italic: false, underlined: false, crossed_out: false }
}

impl TermStyle {
    /// The style with no colour and no attribute.
    pub fn plain() -> (r: TermStyle)
        ensures
            r == plain_style(),
    {
        TermStyle { fg: None, bg: None, bold: false, italic: false, underlined: false, crossed_out: false }
    }
}

/// The SGR escapes of a style: bold, italic and underline when set, then the foreground and
/// background colours, an unset colour being the terminal default.
pub open spec fn ansi_style_spec(style: TermStyle) -> Seq<char> {
    (if style.bold { "\u{1b}[1m"@ } else { Seq::empty() })
        + (if style.italic { "\u{1b}[3m"@ } else { Seq::empty() })
        + (if style.underlined { "\u{1b}[4m"@ } else { Seq::empty() })
        + ansi_color_spec(match style.fg { Some(c) => c, None => TermColor::Reset }, true)
        + ansi_color_spec(match style.bg { Some(c) => c, None => TermColor::Reset }, false)
}

/// Appends the SGR escapes that select `style`.
pub fn push_ansi_style(sequence: &mut String, style: TermStyle)
    ensures
        final(sequence)@ == old(sequence)@ + ansi_style_spec(style),
{
    let ghost start = sequence@;
    if style.bold {
        sequence.append("\u{1b}[1m");
    }
    if style.italic {
        sequence.append("\u{1b}[3m");
    }
    if style.underlined {
        sequence.append("\u{1b}[4m");
    }
    let fg = match style.fg { Some(c) => c, None => TermColor::Reset };
    let bg = match style.bg { Some(c) => c, None => TermColor::Reset };
    push_ansi_color(sequence, fg, true);
    push_ansi_color(sequence, bg, false);
    proof {
        assert(final(sequence)@ =~= start + ansi_style_spec(style));
    }
}

} // verus!
