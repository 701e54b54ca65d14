//! The escape sequence that draws a heading with the terminal's text sizing: the heading's
//! text cleaned, cut into grapheme clusters by `unicode-segmentation`, packed into chunks
//! by a column limit and a byte limit, each chunk sent as a sizing command, the whole framed
//! by cursor saving, erasing of the two rows, and restoring.
use vstd::prelude::*;
use unicode_segmentation::UnicodeSegmentation;
use crate::terminal::{
    KittyHeadingTier, TermStyle, TerminalCapabilities, ansi_style_spec, append_text_sizing_chunk, osc_sequence_spec,
    passthrough_spec, push_ansi_style,
};
use crate::text::{chars_of, concat_str, decimal_digits, push_decimal, string_from_chars, trim, trimmed_string};
use crate::unicode::{str_display_width, str_width};

verus! {

/// The extended grapheme clusters of `s`, in order, as `unicode-segmentation` splits it.
pub uninterp spec fn grapheme_clusters(s: Seq<char>) -> Seq<Seq<char>>;

/// Splits `s` into its extended grapheme clusters with `unicode-segmentation`'s
/// `UnicodeSegmentation::graphemes` (extended clusters). Trusted: the result is named
/// `grapheme_clusters`, a function of the text alone, and the clusters are consecutive
/// slices of the text that together make it up; the segmentation rules are not stated.
#[verifier::external_body]
fn graphemes_of(s: &str) -> (r: Vec<String>)
    ensures
        r@.map_values(|g: String| g@) == grapheme_clusters(s@),
        r@.map_values(|g: String| g@).flatten() == s@,
{
    s.graphemes(true).map(|g| g.to_string()).collect()
}

/// Whether `c` is a control character: general category Cc, the C0 controls U+0000 to
/// U+001F and U+007F to U+009F.
pub open spec fn is_control_spec(c: char) -> bool {
    (c as u32) <= 0x1f || (0x7f <= (c as u32) && (c as u32) <= 0x9f)
}

/// `s` with its control characters left out.
pub open spec fn without_controls(s: Seq<char>) -> Seq<char>
    decreases s.len(),
{
    if s.len() == 0 {
        s
    } else if is_control_spec(s.last()) {
        without_controls(s.drop_last())
    } else {
        without_controls(s.drop_last()).push(s.last())
    }
}

/// The number of bytes of `c` in UTF-8.
pub open spec fn utf8_len(c: char) -> nat {
    if (c as u32) < 0x80 {
        1
    } else if (c as u32) < 0x800 {
        2
    } else if (c as u32) < 0x10000 {
        3
    } else {
        4
    }
}

/// The number of bytes of `s` in UTF-8.
pub open spec fn utf8_bytes(s: Seq<char>) -> nat
    decreases s.len(),
{
    if s.len() == 0 { 0 } else { utf8_bytes(s.drop_last()) + utf8_len(s.last()) }
}

/// The columns a grapheme cluster takes: its display width, at least one.
pub open spec fn cluster_columns(g: Seq<char>) -> nat {
    let w = str_display_width(g) as nat;
    if w >= 1 { w } else { 1 }
}

/// The sizing command of a chunk of `columns` columns, nothing for an empty chunk.
pub open spec fn chunk_command(chunk: Seq<char>, columns: nat, tier: KittyHeadingTier, caps: TerminalCapabilities) -> Seq<char> {
    if chunk.len() == 0 { Seq::empty() } else { passthrough_spec(caps, osc_sequence_spec(tier, chunk, columns)) }
}

/// The commands for clusters `gs[i..]`, after `out`, with `chunk` of `cols` columns being
/// filled: a cluster that would take a non-empty chunk past `limit` columns, or the chunk
/// past 4000 bytes, first sends the chunk and starts a new one; at the end the last chunk is
/// sent.
pub open spec fn chunks_from(
    out: Seq<char>,
    chunk: Seq<char>,
    cols: nat,
    gs: Seq<Seq<char>>,
    i: nat,
    limit: nat,
    tier: KittyHeadingTier,
    caps: TerminalCapabilities,
) -> Seq<char>
    decreases gs.len() - i,
{
    if i >= gs.len() {
        out + chunk_command(chunk, cols, tier, caps)
    } else {
        let g = gs[i as int];
        let gc = cluster_columns(g);
        let full = (cols > 0 && cols + gc > limit) || utf8_bytes(chunk) + utf8_bytes(g) > 4000;
        if full {
            chunks_from(out + chunk_command(chunk, cols, tier, caps), g, gc, gs, i + 1, limit, tier, caps)
        } else {
            chunks_from(out, chunk + g, cols + gc, gs, i + 1, limit, tier, caps)
        }
    }
}

/// The sequence drawing heading `text` over `width` columns at `tier` in `style`, chunks
/// holding at most `column_limit` columns: nothing when the trimmed text without control
/// characters is empty; otherwise save the cursor and stop wrapping, set the style, erase
/// `width` cells on the row and the one below, send the chunks of the text's grapheme
/// clusters, then reset the style, wrap again, restore the cursor and step one column right.
pub open spec fn kitty_heading_sequence_spec(
    width: u16,
    text: Seq<char>,
    tier: KittyHeadingTier,
    style: TermStyle,
    caps: TerminalCapabilities,
    column_limit: nat,
) -> Seq<char> {
    let clean = without_controls(trim(text));
    if clean.len() == 0 {
        Seq::empty()
    } else {
        let head = "\u{1b}[s\u{1b}[?7l"@ + ansi_style_spec(style) + "\u{1b}["@ + decimal_digits(width as nat) + "X\u{1b}[1B\u{1b}["@
            + decimal_digits(width as nat) + "X\u{1b}[1A"@;
        chunks_from(head, Seq::empty(), 0, grapheme_clusters(clean), 0, column_limit, tier, caps) + "\u{1b}[0m\u{1b}[?7h\u{1b}[u\u{1b}[1C"@
    }
}

/// `s` without its control characters.
fn strip_controls(s: &str) -> (r: String)
    ensures
        r@ == without_controls(s@),
{
    let cs = chars_of(s);
    let mut kept: Vec<char> = Vec::new();
    let mut i: usize = 0;
    while i < cs.len()
        invariant
            i <= cs.len(),
            cs@ == s@,
            kept@ == without_controls(cs@.take(i as int)),
        decreases cs.len() - i,
    {
        let c = cs[i];
        let code = c as u32;
        proof {
            assert(cs@.take(i + 1).drop_last() =~= cs@.take(i as int));
            assert(cs@.take(i + 1).last() == c);
        }
        if !(code <= 0x1f || (0x7f <= code && code <= 0x9f)) {
            kept.push(c);
        }
        i = i + 1;
    }
    proof {
        assert(cs@.take(cs.len() as int) =~= cs@);
    }
    string_from_chars(kept.as_slice())
}

/// The number of bytes of `s` in UTF-8, but at most 4001.
fn bytes_capped(s: &str) -> (r: usize)
    ensures
        r == (if utf8_bytes(s@) <= 4001 { utf8_bytes(s@) } else { 4001 }),
{
    let cs = chars_of(s);
    let mut n: usize = 0;
    let mut i: usize = 0;
    while i < cs.len()
        invariant
            i <= cs.len(),
            cs@ == s@,
            n == (if utf8_bytes(cs@.take(i as int)) <= 4001 { utf8_bytes(cs@.take(i as int)) } else { 4001 }),
        decreases cs.len() - i,
    {
        let code = cs[i] as u32;
        proof {
            assert(cs@.take(i + 1).drop_last() =~= cs@.take(i as int));
        }
        let add: usize = if code < 0x80 { 1 } else if code < 0x800 { 2 } else if code < 0x10000 { 3 } else { 4 };
        n = if n + add <= 4001 { n + add } else { 4001 };
        i = i + 1;
    }
    proof {
        assert(cs@.take(cs.len() as int) =~= cs@);
    }
    n
}

proof fn lemma_bytes_concat(a: Seq<char>, b: Seq<char>)
    ensures
        utf8_bytes(a + b) == utf8_bytes(a) + utf8_bytes(b),
    decreases b.len(),
{
    if b.len() > 0 {
        assert((a + b).drop_last() =~= a + b.drop_last());
        lemma_bytes_concat(a, b.drop_last());
    } else {
        assert(a + b =~= a);
    }
}

/// The sequence drawing a heading with the terminal's text sizing (see
/// `kitty_heading_sequence_spec`).
pub fn build_kitty_heading_sequence(
    width: u16,
    text: &str,
    tier: KittyHeadingTier,
    style: TermStyle,
    caps: TerminalCapabilities,
    column_limit: usize,
) -> (r: String)
    ensures
        r@ == kitty_heading_sequence_spec(width, text@, tier, style, caps, column_limit as nat),
{
    let trimmed = trimmed_string(text);
    let clean = strip_controls(trimmed.as_str());
    if chars_of(clean.as_str()).len() == 0 {
        return String::new();
    }
    let mut sequence = String::from_str("\u{1b}[s\u{1b}[?7l");
    push_ansi_style(&mut sequence, style);
    sequence = concat_str(sequence, "\u{1b}[");
    push_decimal(&mut sequence, width as u64);
    sequence = concat_str(sequence, "X\u{1b}[1B\u{1b}[");
    push_decimal(&mut sequence, width as u64);
    sequence = concat_str(sequence, "X\u{1b}[1A");
    let gs = graphemes_of(clean.as_str());
    let ghost gv = gs@.map_values(|g: String| g@);
    let ghost target = chunks_from(sequence@, Seq::empty(), 0, gv, 0, column_limit as nat, tier, caps);
    let mut chunk = String::new();
    let mut chunk_columns: usize = 0;
    let mut chunk_bytes: usize = 0;
    let mut i: usize = 0;
    while i < gs.len()
        invariant
            i <= gs.len(),
            gv == gs@.map_values(|g: String| g@),
            chunk_bytes == (if utf8_bytes(chunk@) <= 4001 { utf8_bytes(chunk@) } else { 4001 }),
            chunks_from(sequence@, chunk@, chunk_columns as nat, gv, i as nat, column_limit as nat, tier, caps) == target,
        decreases gs.len() - i,
    {
        let g = &gs[i];
        proof {
            assert(gv[i as int] == g@);
        }
        let w = str_width(g.as_str());
        let gc: usize = if w >= 1 { w } else { 1 };
        let gb = bytes_capped(g.as_str());
        let over_columns = chunk_columns > 0 && (gc > column_limit || chunk_columns > column_limit - gc);
        let over_bytes = gb > 4000 || chunk_bytes > 4000 - gb;
        if over_columns || over_bytes {
            append_text_sizing_chunk(&mut sequence, chunk.as_str(), chunk_columns, tier, caps);
            chunk = g.clone();
            chunk_columns = gc;
            chunk_bytes = gb;
        } else {
            let ghost before = chunk@;
            chunk = concat_str(chunk, g.as_str());
            chunk_columns = chunk_columns + gc;
            chunk_bytes = chunk_bytes + gb;
            proof {
                lemma_bytes_concat(before, g@);
            }
        }
        i = i + 1;
    }
    append_text_sizing_chunk(&mut sequence, chunk.as_str(), chunk_columns, tier, caps);
    concat_str(sequence, "\u{1b}[0m\u{1b}[?7h\u{1b}[u\u{1b}[1C")
}

} // verus!
