//! The bytes the embedded editor's terminal receives for each key press.
use vstd::prelude::*;
use vstd::utf8::encode_utf8;
use vstd::string::StringSliceAdditionalSpecFns;

verus! {

/// The keys the editor popup forwards.
#[derive(Debug, Clone, Copy, PartialEq, Eq, Structural)]
pub enum EditorKeyCode {
    Char(char),
    Enter,
    Backspace,
    Tab,
    Esc,
    Left,
    Right,
    Up,
    Down,
    Home,
    End,
    PageUp,
    PageDown,
    Delete,
    Insert,
    F(u8),
    /// Any key the editor does not receive.
    Other,
}

/// A key press with its modifier state.
#[derive(Debug, Clone, Copy, PartialEq, Eq, Structural)]
pub struct EditorKey {
    pub code: EditorKeyCode,
    pub ctrl: bool,
    pub alt: bool,
    pub shift: bool,
}

/// The escape byte.
pub open spec fn esc() -> u8 {
    0x1b
}

/// A CSI sequence `ESC [ code`, prefixed by one more `ESC` when alt is held.
pub open spec fn ansi_seq_spec(code: Seq<u8>, alt: bool) -> Seq<u8> {
    if alt {
        seq![esc(), esc(), 0x5bu8] + code
    } else {
        seq![esc(), 0x5bu8] + code
    }
}

/// The bytes of `ESC [` followed by `code`, with an extra leading `ESC` for alt.
fn csi_bytes(code: &[u8], alt: bool) -> (r: Vec<u8>)
    ensures
        r@ == ansi_seq_spec(code@, alt),
{
    let mut r: Vec<u8> = Vec::new();
    if alt {
        r.push(0x1b);
    }
    r.push(0x1b);
    r.push(0x5b);
    let mut i: usize = 0;
    while i < code.len()
        invariant
            i <= code.len(),
            r@ == (if alt { seq![esc(), esc(), 0x5bu8] } else { seq![esc(), 0x5bu8] }) + code@.take(i as int),
        decreases code.len() - i,
    {
        r.push(code[i]);
        i = i + 1;
        assert(code@.take(i as int) =~= code@.take((i - 1) as int).push(code@[i - 1]));
    }
    assert(code@.take(code.len() as int) =~= code@);
    r
}

/// The bytes of `ESC [ code`, with an extra leading `ESC` for alt.
pub fn ansi_seq(code: &str, alt: bool) -> (r: Vec<u8>)
    ensures
        r@ == ansi_seq_spec(code.spec_bytes(), alt),
{
    csi_bytes(code.as_bytes(), alt)
}

/// The bytes a function key sends: `ESC O P`..`ESC O S` for F1-F4 and the `ESC [ n ~`
/// forms for F5-F12; other numbers send nothing.
pub open spec fn f_key_spec(n: u8) -> Seq<u8> {
    if n == 1 { seq![esc(), 0x4fu8, 0x50u8] }
    else if n == 2 { seq![esc(), 0x4fu8, 0x51u8] }
    else if n == 3 { seq![esc(), 0x4fu8, 0x52u8] }
    else if n == 4 { seq![esc(), 0x4fu8, 0x53u8] }
    else if n == 5 { seq![esc(), 0x5bu8, 0x31u8, 0x35u8, 0x7eu8] }
    else if n == 6 { seq![esc(), 0x5bu8, 0x31u8, 0x37u8, 0x7eu8] }
    else if n == 7 { seq![esc(), 0x5bu8, 0x31u8, 0x38u8, 0x7eu8] }
    else if n == 8 { seq![esc(), 0x5bu8, 0x31u8, 0x39u8, 0x7eu8] }
    else if n == 9 { seq![esc(), 0x5bu8, 0x32u8, 0x30u8, 0x7eu8] }
    else if n == 10 { seq![esc(), 0x5bu8, 0x32u8, 0x31u8, 0x7eu8] }
    else if n == 11 { seq![esc(), 0x5bu8, 0x32u8, 0x33u8, 0x7eu8] }
    else if n == 12 { seq![esc(), 0x5bu8, 0x32u8, 0x34u8, 0x7eu8] }
    else { Seq::empty() }
}

/// The bytes function key `n` sends.
pub fn f_key_bytes(n: u8) -> (r: Vec<u8>)
    ensures
        r@ == f_key_spec(n),
{
    let r: Vec<u8> = if n == 1 { vec![0x1b, 0x4f, 0x50] }
    else if n == 2 { vec![0x1b, 0x4f, 0x51] }
    else if n == 3 { vec![0x1b, 0x4f, 0x52] }
    else if n == 4 { vec![0x1b, 0x4f, 0x53] }
    else if n == 5 { vec![0x1b, 0x5b, 0x31, 0x35, 0x7e] }
    else if n == 6 { vec![0x1b, 0x5b, 0x31, 0x37, 0x7e] }
    else if n == 7 { vec![0x1b, 0x5b, 0x31, 0x38, 0x7e] }
    else if n == 8 { vec![0x1b, 0x5b, 0x31, 0x39, 0x7e] }
    else if n == 9 { vec![0x1b, 0x5b, 0x32, 0x30, 0x7e] }
    else if n == 10 { vec![0x1b, 0x5b, 0x32, 0x31, 0x7e] }
    else if n == 11 { vec![0x1b, 0x5b, 0x32, 0x33, 0x7e] }
    else if n == 12 { vec![0x1b, 0x5b, 0x32, 0x34, 0x7e] }
    else { Vec::new() };
    assert(r@ =~= f_key_spec(n));
    r
}

/// Whether `c` is an ASCII letter.
pub open spec fn is_ascii_letter(c: char) -> bool {
    ('a' <= c && c <= 'z') || ('A' <= c && c <= 'Z')
}

/// The bytes a character key sends: an `ESC` first when alt is held; with ctrl, a letter
/// becomes its control code (low five bits) and space becomes NUL; otherwise the UTF-8
/// encoding of the character.
pub open spec fn char_bytes_spec(c: char, ctrl: bool, alt: bool) -> Seq<u8> {
    let prefix: Seq<u8> = if alt { seq![esc()] } else { Seq::empty() };
    if ctrl && is_ascii_letter(c) {
        prefix.push(((c as u32) % 32) as u8)
    } else if ctrl && c == ' ' {
        prefix.push(0u8)
    } else {
        prefix + encode_utf8(seq![c])
    }
}

/// The UTF-8 bytes of one character.
fn char_utf8(c: char) -> (r: Vec<u8>)
    ensures
        r@ == encode_utf8(seq![c]),
{
    let mut s = String::new();
    crate::text::push_char(&mut s, c);
    assert(s@ =~= seq![c]);
    s.as_str().as_bytes_vec()
}

/// The bytes a character key sends.
pub fn char_to_bytes(c: char, ctrl: bool, alt: bool, _shift: bool) -> (r: Vec<u8>)
    ensures
        r@ == char_bytes_spec(c, ctrl, alt),
{
    let mut bytes: Vec<u8> = Vec::new();
    if alt {
        bytes.push(0x1b);
    }
    let letter = ('a' <= c && c <= 'z') || ('A' <= c && c <= 'Z');
    if ctrl && letter {
        let code = c as u32;
        bytes.push((code % 32) as u8);
    } else if ctrl && c == ' ' {
        bytes.push(0x00);
    } else {
        let enc = char_utf8(c);
        let mut i: usize = 0;
        let ghost start = bytes@;
        while i < enc.len()
            invariant
                i <= enc.len(),
                bytes@ == start + enc@.take(i as int),
            decreases enc.len() - i,
        {
            bytes.push(enc[i]);
            i = i + 1;
            assert(enc@.take(i as int) =~= enc@.take((i - 1) as int).push(enc@[i - 1]));
        }
        assert(enc@.take(enc.len() as int) =~= enc@);
    }
    proof {
        if alt {
            assert(bytes@ =~= char_bytes_spec(c, ctrl, alt));
        } else {
            assert(bytes@ =~= char_bytes_spec(c, ctrl, alt));
        }
    }
    bytes
}

/// The bytes a key press sends to the editor.
pub open spec fn key_bytes_spec(key: EditorKey) -> Seq<u8> {
    match key.code {
        EditorKeyCode::Char(c) => char_bytes_spec(c, key.ctrl, key.alt),
        EditorKeyCode::Enter => seq![0x0du8],
        EditorKeyCode::Backspace => seq![0x7fu8],
        EditorKeyCode::Tab => seq![0x09u8],
        EditorKeyCode::Esc => seq![esc()],
        EditorKeyCode::Left => ansi_seq_spec(seq![0x44u8], key.alt),
        EditorKeyCode::Right => ansi_seq_spec(seq![0x43u8], key.alt),
        EditorKeyCode::Up => ansi_seq_spec(seq![0x41u8], key.alt),
        EditorKeyCode::Down => ansi_seq_spec(seq![0x42u8], key.alt),
        EditorKeyCode::Home => ansi_seq_spec(seq![0x48u8], key.alt),
        EditorKeyCode::End => ansi_seq_spec(seq![0x46u8], key.alt),
        EditorKeyCode::PageUp => ansi_seq_spec(seq![0x35u8, 0x7eu8], key.alt),
        EditorKeyCode::PageDown => ansi_seq_spec(seq![0x36u8, 0x7eu8], key.alt),
        EditorKeyCode::Delete => ansi_seq_spec(seq![0x33u8, 0x7eu8], key.alt),
        EditorKeyCode::Insert => ansi_seq_spec(seq![0x32u8, 0x7eu8], key.alt),
        EditorKeyCode::F(n) => f_key_spec(n),
        EditorKeyCode::Other => Seq::empty(),
    }
}

/// The bytes a key press sends to the editor's terminal.
pub fn key_to_bytes(key: EditorKey) -> (r: Vec<u8>)
    ensures
        r@ == key_bytes_spec(key),
{
    match key.code {
        EditorKeyCode::Char(c) => char_to_bytes(c, key.ctrl, key.alt, key.shift),
        EditorKeyCode::Enter => vec![0x0d],
        EditorKeyCode::Backspace => vec![0x7f],
        EditorKeyCode::Tab => vec![0x09],
        EditorKeyCode::Esc => vec![0x1b],
        EditorKeyCode::Left => {
            csi_bytes(&[0x44u8], key.alt)
        },
        EditorKeyCode::Right => {
            csi_bytes(&[0x43u8], key.alt)
        },
        EditorKeyCode::Up => {
            csi_bytes(&[0x41u8], key.alt)
        },
        EditorKeyCode::Down => {
            csi_bytes(&[0x42u8], key.alt)
        },
        EditorKeyCode::Home => {
            csi_bytes(&[0x48u8], key.alt)
        },
        EditorKeyCode::End => {
            csi_bytes(&[0x46u8], key.alt)
        },
        EditorKeyCode::PageUp => {
            csi_bytes(&[0x35u8, 0x7eu8], key.alt)
        },
        EditorKeyCode::PageDown => {
            csi_bytes(&[0x36u8, 0x7eu8], key.alt)
        },
        EditorKeyCode::Delete => {
            csi_bytes(&[0x33u8, 0x7eu8], key.alt)
        },
        EditorKeyCode::Insert => {
            csi_bytes(&[0x32u8, 0x7eu8], key.alt)
        },
        EditorKeyCode::F(n) => f_key_bytes(n),
        EditorKeyCode::Other => Vec::new(),
    }
}

/// The bytes a scroll step sends: the down or up arrow sequence.
pub fn scroll_bytes(down: bool) -> (r: Vec<u8>)
    ensures
        down ==> r@ == seq![esc(), 0x5bu8, 0x42u8],
        !down ==> r@ == seq![esc(), 0x5bu8, 0x41u8],
{
    let r: Vec<u8> = if down { vec![0x1b, 0x5b, 0x42] } else { vec![0x1b, 0x5b, 0x41] };
    assert(down ==> r@ =~= seq![esc(), 0x5bu8, 0x42u8]);
    assert(!down ==> r@ =~= seq![esc(), 0x5bu8, 0x41u8]);
    r
}

/// The bytes of a cursor or editing key: `ESC [` and the key's final bytes, behind one more
/// `ESC` when alt is held.
pub open spec fn csi_key(alt: bool, tail: Seq<u8>) -> Seq<u8> {
    (if alt { seq![0x1bu8] } else { Seq::empty() }) + seq![0x1bu8, 0x5bu8] + tail
}

/// Each key other than a character or a function key sends its own fixed bytes, whatever
/// ctrl and shift say: Up `ESC [ A`, Down `ESC [ B`, Right `ESC [ C`, Left `ESC [ D`, Home
/// `ESC [ H`, End `ESC [ F`, Insert, Delete, Page Up and Page Down `ESC [ 2 ~`, `ESC [ 3 ~`,
/// `ESC [ 5 ~`, `ESC [ 6 ~` (each behind one more `ESC` when alt is held), Enter a carriage
/// return, Backspace DEL, Tab a tab, Esc an escape; any other key sends nothing.
pub proof fn law_special_keys_send_their_sequences(key: EditorKey)
    ensures
        key.code == EditorKeyCode::Up ==> key_bytes_spec(key) == csi_key(key.alt, seq![0x41u8]),
        key.code == EditorKeyCode::Down ==> key_bytes_spec(key) == csi_key(key.alt, seq![0x42u8]),
        key.code == EditorKeyCode::Right ==> key_bytes_spec(key) == csi_key(key.alt, seq![0x43u8]),
        key.code == EditorKeyCode::Left ==> key_bytes_spec(key) == csi_key(key.alt, seq![0x44u8]),
        key.code == EditorKeyCode::Home ==> key_bytes_spec(key) == csi_key(key.alt, seq![0x48u8]),
        key.code == EditorKeyCode::End ==> key_bytes_spec(key) == csi_key(key.alt, seq![0x46u8]),
        key.code == EditorKeyCode::Insert ==> key_bytes_spec(key) == csi_key(key.alt, seq![0x32u8, 0x7eu8]),
        key.code == EditorKeyCode::Delete ==> key_bytes_spec(key) == csi_key(key.alt, seq![0x33u8, 0x7eu8]),
        key.code == EditorKeyCode::PageUp ==> key_bytes_spec(key) == csi_key(key.alt, seq![0x35u8, 0x7eu8]),
        key.code == EditorKeyCode::PageDown ==> key_bytes_spec(key) == csi_key(key.alt, seq![0x36u8, 0x7eu8]),
        key.code == EditorKeyCode::Enter ==> key_bytes_spec(key) == seq![0x0du8],
        key.code == EditorKeyCode::Backspace ==> key_bytes_spec(key) == seq![0x7fu8],
        key.code == EditorKeyCode::Tab ==> key_bytes_spec(key) == seq![0x09u8],
        key.code == EditorKeyCode::Esc ==> key_bytes_spec(key) == seq![0x1bu8],
        key.code == EditorKeyCode::Other ==> key_bytes_spec(key).len() == 0,
{
    assert forall|t: Seq<u8>| #[trigger] ansi_seq_spec(t, key.alt) == csi_key(key.alt, t) by {
        assert(ansi_seq_spec(t, key.alt) =~= csi_key(key.alt, t));
    }
}

/// Function keys F1 to F4 send `ESC O P` to `ESC O S`, F5 to F12 send `ESC [ n ~` with n 15,
/// 17, 18, 19, 20, 21, 23, 24, whatever modifiers are held; other numbers send nothing.
pub proof fn law_function_keys_send_their_sequences(key: EditorKey, n: u8)
    requires
        key.code == EditorKeyCode::F(n),
    ensures
        1 <= n <= 4 ==> key_bytes_spec(key) == seq![0x1bu8, 0x4fu8, (0x4f + n) as u8],
        n == 5 ==> key_bytes_spec(key) == seq![0x1bu8, 0x5bu8, 0x31u8, 0x35u8, 0x7eu8],
        n == 6 ==> key_bytes_spec(key) == seq![0x1bu8, 0x5bu8, 0x31u8, 0x37u8, 0x7eu8],
        n == 7 ==> key_bytes_spec(key) == seq![0x1bu8, 0x5bu8, 0x31u8, 0x38u8, 0x7eu8],
        n == 8 ==> key_bytes_spec(key) == seq![0x1bu8, 0x5bu8, 0x31u8, 0x39u8, 0x7eu8],
        n == 9 ==> key_bytes_spec(key) == seq![0x1bu8, 0x5bu8, 0x32u8, 0x30u8, 0x7eu8],
        n == 10 ==> key_bytes_spec(key) == seq![0x1bu8, 0x5bu8, 0x32u8, 0x31u8, 0x7eu8],
        n == 11 ==> key_bytes_spec(key) == seq![0x1bu8, 0x5bu8, 0x32u8, 0x33u8, 0x7eu8],
        n == 12 ==> key_bytes_spec(key) == seq![0x1bu8, 0x5bu8, 0x32u8, 0x34u8, 0x7eu8],
        (n == 0 || n > 12) ==> key_bytes_spec(key).len() == 0,
{
}

/// A character key sends the character's UTF-8 bytes; with ctrl an ASCII letter sends its
/// control code (its code modulo 32: ctrl+a and ctrl+A send 1) and the space sends NUL; alt
/// puts an `ESC` in front.
pub proof fn law_character_keys_send_their_bytes(key: EditorKey, c: char)
    requires
        key.code == EditorKeyCode::Char(c),
    ensures
        ({
            let pre: Seq<u8> = if key.alt { seq![0x1bu8] } else { Seq::empty() };
            &&& (!key.ctrl ==> key_bytes_spec(key) == pre + encode_utf8(seq![c]))
            &&& (key.ctrl && 'a' <= c <= 'z' ==> key_bytes_spec(key) == pre.push(((c as u32) - 96) as u8))
            &&& (key.ctrl && 'A' <= c <= 'Z' ==> key_bytes_spec(key) == pre.push(((c as u32) - 64) as u8))
            &&& (key.ctrl && c == ' ' ==> key_bytes_spec(key) == pre.push(0u8))
        }),
{
    let pre: Seq<u8> = if key.alt { seq![0x1bu8] } else { Seq::empty() };
    assert(pre =~= (if key.alt { seq![esc()] } else { Seq::empty() }));
}

} // verus!
