//! Inline text handling for rendered markdown: `@skill` mentions, whitespace tokens,
//! display-width truncation and clickable link targets.
use vstd::prelude::*;
use crate::text::{unicode_white_space, is_whitespace, string_from_chars, chars_of, all_white};
use crate::unicode::{char_display_width, char_width, str_display_width, str_width};
use crate::terminal::TermStyle;

verus! {

/// Characters allowed in a skill name: ASCII letters and digits, `-` and `_`.
pub open spec fn is_name_char(c: char) -> bool {
    ('a' <= c && c <= 'z') || ('A' <= c && c <= 'Z') || ('0' <= c && c <= '9') || c == '-' || c == '_'
}

fn is_name_char_exec(c: char) -> (r: bool)
    ensures
        r == is_name_char(c),
{
    ('a' <= c && c <= 'z') || ('A' <= c && c <= 'Z') || ('0' <= c && c <= '9') || c == '-' || c == '_'
}

/// Whether a mention may start at `idx`: at the start, or after whitespace or an opening
/// bracket or quote.
pub open spec fn mention_boundary(cs: Seq<char>, idx: int) -> bool {
    idx == 0 || unicode_white_space(cs[idx - 1]) || cs[idx - 1] == '(' || cs[idx - 1] == '['
        || cs[idx - 1] == '{' || cs[idx - 1] == '"' || cs[idx - 1] == '\''
}

/// The end of the run of name characters starting at `i`.
pub open spec fn name_end(cs: Seq<char>, i: nat) -> nat
    decreases cs.len() - i,
{
    if i < cs.len() && is_name_char(cs[i as int]) { name_end(cs, i + 1) } else { i }
}

pub proof fn lemma_name_end(cs: Seq<char>, i: nat)
    requires
        i <= cs.len(),
    ensures
        i <= name_end(cs, i) <= cs.len(),
        forall|k: int| i <= k < name_end(cs, i) ==> is_name_char(#[trigger] cs[k]),
    decreases cs.len() - i,
{
    if i < cs.len() && is_name_char(cs[i as int]) {
        lemma_name_end(cs, i + 1);
    }
}

/// A piece of text with the skill it mentions, if any.
pub type Segment = (Seq<char>, Option<Seq<char>>);

/// The segments of `cs` from `idx` on, given the pending plain text and whether a code
/// span is open: backticks toggle code spans; outside code, an `@` at a boundary followed by
/// name characters is a mention of that skill; everything else is plain text.
pub open spec fn skill_segs(cs: Seq<char>, idx: nat, in_code: bool, plain: Seq<char>) -> Seq<Segment>
    decreases cs.len() - idx,
{
    if idx >= cs.len() {
        if plain.len() > 0 { seq![(plain, None)] } else { Seq::empty() }
    } else if cs[idx as int] == '`' {
        skill_segs(cs, idx + 1, !in_code, plain.push('`'))
    } else if cs[idx as int] != '@' || in_code || !mention_boundary(cs, idx as int) {
        skill_segs(cs, idx + 1, in_code, plain.push(cs[idx as int]))
    } else {
        let end = name_end(cs, idx + 1);
        proof { lemma_name_end(cs, idx + 1); }
        if end == idx + 1 {
            skill_segs(cs, idx + 1, in_code, plain.push('@'))
        } else {
            let pending: Seq<Segment> = if plain.len() > 0 { seq![(plain, None)] } else { Seq::empty() };
            pending + seq![(cs.subrange(idx as int, end as int), Some(cs.subrange(idx as int + 1, end as int)))]
                + skill_segs(cs, end, in_code, Seq::empty())
        }
    }
}

/// The segments of a text: plain runs and `@skill` mentions.
pub open spec fn skill_segments_spec(text: Seq<char>) -> Seq<Segment> {
    skill_segs(text, 0, false, Seq::empty())
}

/// The texts of the segments, concatenated.
pub open spec fn segments_text(segs: Seq<Segment>) -> Seq<char>
    decreases segs.len(),
{
    if segs.len() == 0 { Seq::empty() } else { segs[0].0 + segments_text(segs.drop_first()) }
}

proof fn lemma_segments_text_single(x: Segment)
    ensures
        segments_text(seq![x]) == x.0,
{
    assert(seq![x].drop_first() =~= Seq::<Segment>::empty());
    assert(segments_text(seq![x]) =~= x.0 + segments_text(Seq::<Segment>::empty()));
}

proof fn lemma_segments_text_append(a: Seq<Segment>, b: Seq<Segment>)
    ensures
        segments_text(a + b) == segments_text(a) + segments_text(b),
    decreases a.len(),
{
    if a.len() == 0 {
        assert(a + b =~= b);
    } else {
        assert((a + b).drop_first() =~= a.drop_first() + b);
        lemma_segments_text_append(a.drop_first(), b);
        assert(segments_text(a + b) =~= a[0].0 + segments_text(a.drop_first() + b));
    }
}

proof fn lemma_skill_segs_text(cs: Seq<char>, idx: nat, in_code: bool, plain: Seq<char>)
    requires
        idx <= cs.len(),
    ensures
        segments_text(skill_segs(cs, idx, in_code, plain)) == plain + cs.skip(idx as int),
    decreases cs.len() - idx,
{
    if idx >= cs.len() {
        assert(cs.skip(idx as int) =~= Seq::<char>::empty());
        if plain.len() > 0 {
            lemma_segments_text_single((plain, None::<Seq<char>>));
        }
        assert(plain + cs.skip(idx as int) =~= plain);
    } else if cs[idx as int] == '`' {
        lemma_skill_segs_text(cs, idx + 1, !in_code, plain.push('`'));
        assert(plain.push('`') + cs.skip(idx as int + 1) =~= plain + cs.skip(idx as int));
    } else if cs[idx as int] != '@' || in_code || !mention_boundary(cs, idx as int) {
        lemma_skill_segs_text(cs, idx + 1, in_code, plain.push(cs[idx as int]));
        assert(plain.push(cs[idx as int]) + cs.skip(idx as int + 1) =~= plain + cs.skip(idx as int));
    } else {
        lemma_name_end(cs, idx + 1);
        let end = name_end(cs, idx + 1);
        if end == idx + 1 {
            lemma_skill_segs_text(cs, idx + 1, in_code, plain.push('@'));
            assert(plain.push('@') + cs.skip(idx as int + 1) =~= plain + cs.skip(idx as int));
        } else {
            let pending: Seq<Segment> = if plain.len() > 0 { seq![(plain, None)] } else { Seq::empty() };
            let mention: Seq<Segment> = seq![(cs.subrange(idx as int, end as int), Some(cs.subrange(idx as int + 1, end as int)))];
            let tail = skill_segs(cs, end, in_code, Seq::empty());
            lemma_skill_segs_text(cs, end, in_code, Seq::empty());
            lemma_segments_text_append(pending + mention, tail);
            lemma_segments_text_append(pending, mention);
            lemma_segments_text_single(mention[0]);
            assert(mention =~= seq![mention[0]]);
            if plain.len() > 0 {
                lemma_segments_text_single((plain, None::<Seq<char>>));
            } else {
                assert(segments_text(pending) =~= plain);
            }
            assert(Seq::<char>::empty() + cs.skip(end as int) =~= cs.skip(end as int));
            assert(plain + cs.subrange(idx as int, end as int) + cs.skip(end as int) =~= plain + cs.skip(idx as int));
        }
    }
}

/// Splitting a text into segments loses nothing: the segment texts put back together give
/// the text.
pub proof fn law_skill_segments_cover_text(text: Seq<char>)
    ensures
        segments_text(skill_segments_spec(text)) == text,
{
    lemma_skill_segs_text(text, 0, false, Seq::empty());
    assert(Seq::<char>::empty() + text.skip(0) =~= text);
}

/// A mention segment is `@` followed by its non-empty skill name of name characters.
pub open spec fn mention_well_formed(seg: Segment) -> bool {
    match seg.1 {
        Some(name) => name.len() > 0 && seg.0 == seq!['@'] + name
            && forall|k: int| 0 <= k < name.len() ==> is_name_char(#[trigger] name[k]),
        None => true,
    }
}

proof fn lemma_skill_segs_mentions(cs: Seq<char>, idx: nat, in_code: bool, plain: Seq<char>)
    requires
        idx <= cs.len(),
    ensures
        forall|i: int| 0 <= i < skill_segs(cs, idx, in_code, plain).len() ==>
            mention_well_formed(#[trigger] skill_segs(cs, idx, in_code, plain)[i]),
    decreases cs.len() - idx,
{
    let all = skill_segs(cs, idx, in_code, plain);
    if idx >= cs.len() {
        assert forall|i: int| 0 <= i < all.len() implies mention_well_formed(#[trigger] all[i]) by {
            assert(all[i].1 is None);
        }
    } else if cs[idx as int] == '`' {
        lemma_skill_segs_mentions(cs, idx + 1, !in_code, plain.push('`'));
        assert(all == skill_segs(cs, idx + 1, !in_code, plain.push('`')));
    } else if cs[idx as int] != '@' || in_code || !mention_boundary(cs, idx as int) {
        lemma_skill_segs_mentions(cs, idx + 1, in_code, plain.push(cs[idx as int]));
        assert(all == skill_segs(cs, idx + 1, in_code, plain.push(cs[idx as int])));
    } else {
        lemma_name_end(cs, idx + 1);
        let end = name_end(cs, idx + 1);
        if end == idx + 1 {
            lemma_skill_segs_mentions(cs, idx + 1, in_code, plain.push('@'));
            assert(all == skill_segs(cs, idx + 1, in_code, plain.push('@')));
        } else {
            lemma_skill_segs_mentions(cs, end, in_code, Seq::empty());
            let pending: Seq<Segment> = if plain.len() > 0 { seq![(plain, None)] } else { Seq::empty() };
            let name = cs.subrange(idx as int + 1, end as int);
            let m: Segment = (cs.subrange(idx as int, end as int), Some(name));
            let tail = skill_segs(cs, end, in_code, Seq::empty());
            assert(all == pending + seq![m] + tail);
            assert(cs.subrange(idx as int, end as int) =~= seq!['@'] + name);
            assert forall|k: int| 0 <= k < name.len() implies is_name_char(#[trigger] name[k]) by {
                assert(name[k] == cs[idx + 1 + k]);
            }
            assert(mention_well_formed(m));
            assert forall|i: int| 0 <= i < all.len() implies mention_well_formed(#[trigger] all[i]) by {
                if i < pending.len() {
                    assert(all[i] == pending[i]);
                    assert(pending[i].1 is None);
                } else if i == pending.len() {
                    assert(all[i] == m);
                } else {
                    assert(all[i] == tail[i - pending.len() - 1]);
                }
            }
        }
    }
}

/// Every mention segment is `@` followed by a non-empty skill name made of name characters.
pub proof fn law_mentions_are_at_names(text: Seq<char>)
    ensures
        forall|i: int| 0 <= i < skill_segments_spec(text).len() ==>
            mention_well_formed(#[trigger] skill_segments_spec(text)[i]),
{
    lemma_skill_segs_mentions(text, 0, false, Seq::empty());
}

/// The views of produced segments.
pub open spec fn segments_view(v: Seq<(String, Option<String>)>) -> Seq<Segment> {
    v.map_values(|s: (String, Option<String>)| (s.0@, match s.1 { Some(n) => Some(n@), None => None }))
}

/// The plain runs and `@skill` mentions of `text`, in order.
pub fn skill_segments(text: &str) -> (r: Vec<(String, Option<String>)>)
    ensures
        segments_view(r@) == skill_segments_spec(text@),
{
    let chars = chars_of(text);
    let mut segments: Vec<(String, Option<String>)> = Vec::new();
    let mut plain: Vec<char> = Vec::new();
    let mut idx: usize = 0;
    let mut in_code = false;
    while idx < chars.len()
        invariant
            idx <= chars.len(),
            chars@ == text@,
            segments_view(segments@) + skill_segs(chars@, idx as nat, in_code, plain@) == skill_segments_spec(text@),
        decreases chars.len() - idx,
    {
        let ghost before = segments_view(segments@);
        let ghost g_idx = idx as nat;
        let ghost g_ic = in_code;
        let ghost g_plain = plain@;
        let c = chars[idx];
        if c == '`' {
            in_code = !in_code;
            plain.push(c);
            idx = idx + 1;
            assert(skill_segs(chars@, g_idx, g_ic, g_plain) == skill_segs(chars@, g_idx + 1, !g_ic, g_plain.push('`')));
            continue;
        }
        let boundary = idx == 0 || is_whitespace(chars[idx - 1]) || chars[idx - 1] == '('
            || chars[idx - 1] == '[' || chars[idx - 1] == '{' || chars[idx - 1] == '"' || chars[idx - 1] == '\'';
        assert(boundary == mention_boundary(chars@, g_idx as int));
        if c != '@' || in_code || !boundary {
            plain.push(c);
            idx = idx + 1;
            assert(skill_segs(chars@, g_idx, g_ic, g_plain) == skill_segs(chars@, g_idx + 1, g_ic, g_plain.push(c)));
            continue;
        }
        let start = idx;
        idx = idx + 1;
        while idx < chars.len() && is_name_char_exec(chars[idx])
            invariant
                start + 1 <= idx <= chars.len(),
                name_end(chars@, start as nat + 1) == name_end(chars@, idx as nat),
            decreases chars.len() - idx,
        {
            idx = idx + 1;
        }
        assert(name_end(chars@, start as nat + 1) == idx);
        if idx == start + 1 {
            plain.push('@');
            assert(skill_segs(chars@, g_idx, g_ic, g_plain) == skill_segs(chars@, g_idx + 1, g_ic, g_plain.push('@')));
            continue;
        }
        proof {
            assert(name_end(chars@, start as nat + 1) == idx);
            lemma_name_end(chars@, start as nat + 1);
        }
        let ghost pending: Seq<Segment> = if plain@.len() > 0 { seq![(plain@, None)] } else { Seq::empty() };
        if plain.len() > 0 {
            let p = string_from_chars(plain.as_slice());
            segments.push((p, None));
            plain = Vec::new();
        }
        assert(segments_view(segments@) =~= before + pending);
        let mention_chars = crate::text::sub_chars(chars.as_slice(), start, idx);
        let name_chars = crate::text::sub_chars(chars.as_slice(), start + 1, idx);
        let mention = string_from_chars(mention_chars.as_slice());
        let name = string_from_chars(name_chars.as_slice());
        segments.push((mention, Some(name)));
        proof {
            assert(plain@ =~= Seq::<char>::empty());
            assert(segments_view(segments@) =~= before + pending
                + seq![(chars@.subrange(start as int, idx as int), Some(chars@.subrange(start as int + 1, idx as int)))]);
            assert(segments_view(segments@) + skill_segs(chars@, idx as nat, in_code, Seq::empty())
                =~= skill_segments_spec(text@));
        }
    }
    if plain.len() > 0 {
        let p = string_from_chars(plain.as_slice());
        segments.push((p, None));
    }
    proof {
        assert(segments_view(segments@) =~= skill_segments_spec(text@));
    }
    segments
}

/// The tokens of `cs` from `idx` on, given the pending token and whether it is whitespace:
/// maximal runs of whitespace or of other characters, with each newline a token of its own.
pub open spec fn tokens_from(cs: Seq<char>, idx: nat, current: Seq<char>, spacing: Option<bool>) -> Seq<Seq<char>>
    decreases cs.len() - idx,
{
    if idx >= cs.len() {
        if current.len() > 0 { seq![current] } else { Seq::empty() }
    } else if cs[idx as int] == '\n' {
        let pending: Seq<Seq<char>> = if current.len() > 0 { seq![current] } else { Seq::empty() };
        pending + seq![seq!['\n']] + tokens_from(cs, idx + 1, Seq::empty(), None)
    } else {
        let sp = unicode_white_space(cs[idx as int]);
        if spacing == Some(sp) || spacing is None {
            tokens_from(cs, idx + 1, current.push(cs[idx as int]), Some(sp))
        } else {
            seq![current] + tokens_from(cs, idx + 1, seq![cs[idx as int]], Some(sp))
        }
    }
}

/// The tokens of a text.
pub open spec fn tokenize_spec(text: Seq<char>) -> Seq<Seq<char>> {
    tokens_from(text, 0, Seq::empty(), None)
}

/// The tokens put back together.
pub open spec fn concat_all(parts: Seq<Seq<char>>) -> Seq<char>
    decreases parts.len(),
{
    if parts.len() == 0 { Seq::empty() } else { parts[0] + concat_all(parts.drop_first()) }
}

proof fn lemma_concat_all_append(a: Seq<Seq<char>>, b: Seq<Seq<char>>)
    ensures
        concat_all(a + b) == concat_all(a) + concat_all(b),
    decreases a.len(),
{
    if a.len() == 0 {
        assert(a + b =~= b);
    } else {
        assert((a + b).drop_first() =~= a.drop_first() + b);
        lemma_concat_all_append(a.drop_first(), b);
        assert(concat_all(a + b) =~= a[0] + concat_all(a.drop_first() + b));
    }
}

proof fn lemma_concat_all_single(x: Seq<char>)
    ensures
        concat_all(seq![x]) == x,
{
    assert(seq![x].drop_first() =~= Seq::<Seq<char>>::empty());
    assert(concat_all(seq![x]) =~= x + concat_all(Seq::<Seq<char>>::empty()));
}

proof fn lemma_tokens_concat(cs: Seq<char>, idx: nat, current: Seq<char>, spacing: Option<bool>)
    requires
        idx <= cs.len(),
    ensures
        concat_all(tokens_from(cs, idx, current, spacing)) == current + cs.skip(idx as int),
    decreases cs.len() - idx,
{
    if idx >= cs.len() {
        assert(cs.skip(idx as int) =~= Seq::<char>::empty());
        if current.len() > 0 {
            lemma_concat_all_single(current);
        }
        assert(current + cs.skip(idx as int) =~= current);
    } else if cs[idx as int] == '\n' {
        let pending: Seq<Seq<char>> = if current.len() > 0 { seq![current] } else { Seq::empty() };
        let nl: Seq<Seq<char>> = seq![seq!['\n']];
        lemma_tokens_concat(cs, idx + 1, Seq::empty(), None);
        lemma_concat_all_append(pending + nl, tokens_from(cs, idx + 1, Seq::empty(), None));
        lemma_concat_all_append(pending, nl);
        lemma_concat_all_single(seq!['\n']);
        if current.len() > 0 { lemma_concat_all_single(current); } else { assert(concat_all(pending) =~= current); }
        assert(current + seq!['\n'] + (Seq::<char>::empty() + cs.skip(idx as int + 1)) =~= current + cs.skip(idx as int));
    } else {
        let sp = unicode_white_space(cs[idx as int]);
        if spacing == Some(sp) || spacing is None {
            lemma_tokens_concat(cs, idx + 1, current.push(cs[idx as int]), Some(sp));
            assert(current.push(cs[idx as int]) + cs.skip(idx as int + 1) =~= current + cs.skip(idx as int));
        } else {
            lemma_tokens_concat(cs, idx + 1, seq![cs[idx as int]], Some(sp));
            lemma_concat_all_append(seq![current], tokens_from(cs, idx + 1, seq![cs[idx as int]], Some(sp)));
            lemma_concat_all_single(current);
            assert(current + (seq![cs[idx as int]] + cs.skip(idx as int + 1)) =~= current + cs.skip(idx as int));
        }
    }
}

/// Tokenizing loses nothing: the tokens put back together give the text.
pub proof fn law_tokens_cover_text(text: Seq<char>)
    ensures
        concat_all(tokenize_spec(text)) == text,
{
    lemma_tokens_concat(text, 0, Seq::empty(), None);
    assert(Seq::<char>::empty() + text.skip(0) =~= text);
}

/// Whether no character of `s` is whitespace.
pub open spec fn no_white(s: Seq<char>) -> bool {
    forall|i: int| 0 <= i < s.len() ==> !unicode_white_space(#[trigger] s[i])
}

/// Whether a token is a newline or a non-empty run of only whitespace or only other
/// characters.
pub open spec fn uniform_token(tok: Seq<char>) -> bool {
    tok == seq!['\n'] || (tok.len() > 0 && (all_white(tok) || no_white(tok)))
}

proof fn lemma_tokens_uniform(cs: Seq<char>, idx: nat, current: Seq<char>, spacing: Option<bool>)
    requires
        idx <= cs.len(),
        spacing is None ==> current.len() == 0,
        spacing == Some(true) ==> current.len() > 0 && all_white(current),
        spacing == Some(false) ==> current.len() > 0 && no_white(current),
    ensures
        forall|k: int| 0 <= k < tokens_from(cs, idx, current, spacing).len()
            ==> uniform_token(#[trigger] tokens_from(cs, idx, current, spacing)[k]),
    decreases cs.len() - idx,
{
    let toks = tokens_from(cs, idx, current, spacing);
    assert(current.len() > 0 ==> uniform_token(current)) by {
        if current.len() > 0 {
            match spacing {
                Some(b) => { if b { assert(all_white(current)); } else { assert(no_white(current)); } },
                None => {},
            }
        }
    }
    if idx >= cs.len() {
        if current.len() > 0 {
            assert(toks == seq![current]);
        } else {
            assert(toks.len() == 0);
        }
    } else if cs[idx as int] == '\n' {
        lemma_tokens_uniform(cs, idx + 1, Seq::empty(), None);
        let pending: Seq<Seq<char>> = if current.len() > 0 { seq![current] } else { Seq::empty() };
        let rest = tokens_from(cs, idx + 1, Seq::empty(), None);
        assert(toks == pending + seq![seq!['\n']] + rest);
        assert forall|k: int| 0 <= k < toks.len() implies uniform_token(#[trigger] toks[k]) by {
            if k < pending.len() {
                assert(toks[k] == current);
            } else if k == pending.len() {
                assert(toks[k] == seq!['\n']);
            } else {
                let j = k - pending.len() - 1;
                assert(toks[k] == rest[j]);
                assert(uniform_token(rest[j]));
            }
        }
    } else {
        let c = cs[idx as int];
        let sp = unicode_white_space(c);
        if spacing == Some(sp) || spacing is None {
            let next = current.push(c);
            assert(sp ==> all_white(next));
            assert(!sp ==> no_white(next));
            lemma_tokens_uniform(cs, idx + 1, next, Some(sp));
            assert(toks == tokens_from(cs, idx + 1, next, Some(sp)));
        } else {
            let rest = tokens_from(cs, idx + 1, seq![c], Some(sp));
            assert(current.len() > 0) by {
                match spacing {
                    Some(b) => { if b { assert(spacing == Some(true)); } else { assert(spacing == Some(false)); } },
                    None => {},
                }
            }
            assert(sp ==> all_white(seq![c]));
            assert(!sp ==> no_white(seq![c]));
            lemma_tokens_uniform(cs, idx + 1, seq![c], Some(sp));
            assert(toks == seq![current] + rest);
            assert forall|k: int| 0 <= k < toks.len() implies uniform_token(#[trigger] toks[k]) by {
                if k == 0 {
                    assert(toks[k] == current);
                } else {
                    assert(toks[k] == rest[k - 1]);
                    assert(uniform_token(rest[k - 1]));
                }
            }
        }
    }
}

/// Every token of a text is a newline, a run of whitespace or a run of other characters.
pub proof fn lemma_tokenize_uniform(text: Seq<char>)
    ensures
        forall|k: int| 0 <= k < tokenize_spec(text).len() ==> uniform_token(#[trigger] tokenize_spec(text)[k]),
{
    lemma_tokens_uniform(text, 0, Seq::empty(), None);
}

/// The views of a sequence of strings.
pub open spec fn strings_view(v: Seq<String>) -> Seq<Seq<char>> {
    v.map_values(|s: String| s@)
}

/// The whitespace runs, other runs and newlines of `text`, in order.
pub fn tokenize(text: &str) -> (r: Vec<String>)
    ensures
        strings_view(r@) == tokenize_spec(text@),
{
    let chars = chars_of(text);
    let mut tokens: Vec<String> = Vec::new();
    let mut current: Vec<char> = Vec::new();
    let mut spacing: Option<bool> = None;
    let mut idx: usize = 0;
    while idx < chars.len()
        invariant
            idx <= chars.len(),
            chars@ == text@,
            strings_view(tokens@) + tokens_from(chars@, idx as nat, current@, spacing) == tokenize_spec(text@),
        decreases chars.len() - idx,
    {
        let ghost before = strings_view(tokens@);
        let ghost g_idx = idx as nat;
        let ghost g_cur = current@;
        let ghost g_sp = spacing;
        let ch = chars[idx];
        if ch == '\n' {
            let ghost pending: Seq<Seq<char>> = if g_cur.len() > 0 { seq![g_cur] } else { Seq::empty() };
            if current.len() > 0 {
                tokens.push(string_from_chars(current.as_slice()));
                current = Vec::new();
            }
            let nl: [char; 1] = ['\n'];
            tokens.push(string_from_chars(nl.as_slice()));
            spacing = None;
            idx = idx + 1;
            proof {
                assert(nl@ =~= seq!['\n']);
                assert(strings_view(tokens@) =~= before + pending + seq![seq!['\n']]);
                assert(current@ =~= Seq::<char>::empty());
            }
            continue;
        }
        let is_space = is_whitespace(ch);
        let same = match spacing {
            Some(s) => s == is_space,
            None => true,
        };
        if same {
            current.push(ch);
        } else {
            tokens.push(string_from_chars(current.as_slice()));
            current = Vec::new();
            current.push(ch);
            proof {
                assert(strings_view(tokens@) =~= before + seq![g_cur]);
                assert(current@ =~= seq![ch]);
            }
        }
        spacing = Some(is_space);
        idx = idx + 1;
    }
    if current.len() > 0 {
        let ghost before = strings_view(tokens@);
        tokens.push(string_from_chars(current.as_slice()));
        assert(strings_view(tokens@) =~= before + seq![current@]);
    }
    proof {
        assert(strings_view(tokens@) =~= tokenize_spec(text@));
    }
    tokens
}

/// The cells a character takes when laid out, a control character taking none.
pub open spec fn cell_width(c: char) -> nat {
    match char_display_width(c) {
        Some(w) => w as nat,
        None => 0,
    }
}

/// The number of leading characters of `cs[idx..]` that fit in `max` cells when `width`
/// cells are already used.
pub open spec fn fit_len(cs: Seq<char>, idx: nat, width: nat, max: nat) -> nat
    decreases cs.len() - idx,
{
    if idx >= cs.len() {
        idx
    } else if width + cell_width(cs[idx as int]) > max {
        idx
    } else {
        fit_len(cs, idx + 1, width + cell_width(cs[idx as int]), max)
    }
}

/// The longest prefix of `text` that fits in `max_width` cells; nothing for zero cells.
pub open spec fn truncate_spec(text: Seq<char>, max_width: nat) -> Seq<char> {
    if max_width == 0 {
        Seq::empty()
    } else {
        text.take(fit_len(text, 0, 0, max_width) as int)
    }
}

/// The total cells of a sequence of characters.
pub open spec fn cells(cs: Seq<char>) -> nat
    decreases cs.len(),
{
    if cs.len() == 0 { 0 } else { cells(cs.drop_last()) + cell_width(cs.last()) }
}

proof fn lemma_fit_len(cs: Seq<char>, idx: nat, width: nat, max: nat)
    requires
        idx <= cs.len(),
        width == cells(cs.take(idx as int)),
        width <= max,
    ensures
        idx <= fit_len(cs, idx, width, max) <= cs.len(),
        cells(cs.take(fit_len(cs, idx, width, max) as int)) <= max,
    decreases cs.len() - idx,
{
    if idx < cs.len() && width + cell_width(cs[idx as int]) <= max {
        assert(cs.take(idx as int + 1).drop_last() =~= cs.take(idx as int));
        lemma_fit_len(cs, idx + 1, width + cell_width(cs[idx as int]), max);
    }
}

/// A truncated text fits: its cells do not exceed the limit.
pub proof fn law_truncate_fits(text: Seq<char>, max_width: nat)
    ensures
        cells(truncate_spec(text, max_width)) <= max_width,
        truncate_spec(text, max_width).len() <= text.len(),
        text.take(truncate_spec(text, max_width).len() as int) == truncate_spec(text, max_width),
{
    if max_width > 0 {
        assert(text.take(0) =~= Seq::<char>::empty());
        lemma_fit_len(text, 0, 0, max_width);
    }
}

/// The longest prefix of `text` that fits in `max_width` cells.
pub fn truncate_to_display_width(text: &str, max_width: usize) -> (r: String)
    ensures
        r@ == truncate_spec(text@, max_width as nat),
{
    if max_width == 0 {
        return String::new();
    }
    let chars = chars_of(text);
    let mut width: usize = 0;
    let mut end: usize = 0;
    loop
        invariant
            end <= chars.len(),
            width <= max_width,
            fit_len(chars@, end as nat, width as nat, max_width as nat) == fit_len(chars@, 0, 0, max_width as nat),
        ensures
            end <= chars.len(),
            fit_len(chars@, end as nat, width as nat, max_width as nat) == end,
            fit_len(chars@, end as nat, width as nat, max_width as nat) == fit_len(chars@, 0, 0, max_width as nat),
        decreases chars.len() - end,
    {
        if end >= chars.len() {
            break;
        }
        let w = match char_width(chars[end]) {
            Some(w) => w,
            None => 0,
        };
        if w > max_width - width {
            break;
        }
        width = width + w;
        end = end + 1;
    }
    let prefix = crate::text::sub_chars(chars.as_slice(), 0, end);
    proof {
        assert(prefix@ =~= chars@.take(end as int));
    }
    string_from_chars(prefix.as_slice())
}

/// A piece of rendered text with its style and the link it leads to, if any.
#[derive(Debug, Clone)]
pub struct StyledRun {
    pub text: String,
    pub style: TermStyle,
    pub link: Option<String>,
}

/// The abstract form of a styled run.
pub struct RunView {
    pub text: Seq<char>,
    pub style: TermStyle,
    pub link: Option<Seq<char>>,
}

/// The abstract form of an optional link.
pub open spec fn link_view(link: Option<String>) -> Option<Seq<char>> {
    match link {
        Some(s) => Some(s@),
        None => None,
    }
}

/// The abstract form of a run.
pub open spec fn run_view(r: StyledRun) -> RunView {
    RunView { text: r.text@, style: r.style, link: link_view(r.link) }
}

/// The abstract form of a sequence of runs.
pub open spec fn runs_view(v: Seq<StyledRun>) -> Seq<RunView> {
    v.map_values(|r: StyledRun| run_view(r))
}

/// The abstract form of a sequence of lines of runs.
pub open spec fn lines_view(v: Seq<Vec<StyledRun>>) -> Seq<Seq<RunView>> {
    v.map_values(|l: Vec<StyledRun>| runs_view(l@))
}

/// A copy of an optional link.
pub fn clone_link(link: &Option<String>) -> (r: Option<String>)
    ensures
        link_view(r) == link_view(*link),
{
    match link {
        Some(s) => Some(s.clone()),
        None => None,
    }
}

/// A clickable area of rendered text: a run of cells on one line and what it opens.
#[derive(Debug, Clone, PartialEq, Eq)]
pub struct LinkTarget {
    pub line: usize,
    pub column: usize,
    pub width: usize,
    pub target: String,
}

/// The abstract form of a link target.
pub struct LinkTargetView {
    pub line: nat,
    pub column: nat,
    pub width: nat,
    pub target: Seq<char>,
}

/// The abstract link targets of a sequence of link targets.
pub open spec fn targets_view(v: Seq<LinkTarget>) -> Seq<LinkTargetView> {
    v.map_values(|t: LinkTarget| LinkTargetView { line: t.line as nat, column: t.column as nat, width: t.width as nat, target: t.target@ })
}

/// The link targets after recording a linked run of `width` cells at `column` of `line`:
/// it extends the last target when that target is on the same line, leads to the same
/// place and ends where the run starts; otherwise it becomes a new target. Cell counts
/// saturate at the largest `usize`.
pub open spec fn add_target(targets: Seq<LinkTargetView>, line: nat, column: nat, width: nat, target: Seq<char>) -> Seq<LinkTargetView> {
    if targets.len() > 0 && targets.last().line == line && targets.last().target == target
        && sat_add(targets.last().column, targets.last().width) == column {
        targets.drop_last().push(LinkTargetView {
            line: targets.last().line,
            column: targets.last().column,
            width: sat_add(targets.last().width, width),
            target: targets.last().target,
        })
    } else {
        targets.push(LinkTargetView { line, column, width, target })
    }
}

/// `a + b`, capped at the largest `usize`.
pub open spec fn sat_add(a: nat, b: nat) -> nat {
    if a + b > usize::MAX { usize::MAX as nat } else { a + b }
}

/// The link targets after recording the linked runs of `runs[i..]`, starting at `column`.
pub open spec fn link_targets_from(targets: Seq<LinkTargetView>, line: nat, runs: Seq<RunView>, i: nat, column: nat) -> Seq<LinkTargetView>
    decreases runs.len() - i,
{
    if i >= runs.len() {
        targets
    } else {
        let width = str_display_width(runs[i as int].text) as nat;
        let next = match runs[i as int].link {
            Some(t) => add_target(targets, line, column, width, t),
            None => targets,
        };
        link_targets_from(next, line, runs, i + 1, sat_add(column, width))
    }
}

/// Records the clickable areas of the linked runs of one rendered line.
pub fn append_link_targets(targets: &mut Vec<LinkTarget>, line: usize, runs: &[StyledRun])
    ensures
        targets_view(final(targets)@) == link_targets_from(targets_view(old(targets)@), line as nat, runs_view(runs@), 0, 0),
{
    let ghost rv = runs_view(runs@);
    let mut column: usize = 0;
    let mut i: usize = 0;
    while i < runs.len()
        invariant
            i <= runs.len(),
            rv == runs_view(runs@),
            link_targets_from(targets_view(targets@), line as nat, rv, i as nat, column as nat)
                == link_targets_from(targets_view(old(targets)@), line as nat, rv, 0, 0),
        decreases runs.len() - i,
    {
        let ghost before = targets_view(targets@);
        let run = &runs[i];
        let width = str_width(run.text.as_str());
        match &run.link {
            Some(target) => {
                let n = targets.len();
                let extend = n > 0 && targets[n - 1].line == line && targets[n - 1].target == *target
                    && targets[n - 1].column.saturating_add(targets[n - 1].width) == column;
                if extend {
                    let last = targets.pop().unwrap();
                    let merged = LinkTarget {
                        line: last.line,
                        column: last.column,
                        width: last.width.saturating_add(width),
                        target: last.target,
                    };
                    targets.push(merged);
                    proof {
                        assert(targets_view(targets@) =~= add_target(before, line as nat, column as nat, width as nat, target@));
                    }
                } else {
                    let t = LinkTarget { line, column, width, target: target.clone() };
                    targets.push(t);
                    proof {
                        assert(targets_view(targets@) =~= add_target(before, line as nat, column as nat, width as nat, target@));
                    }
                }
            },
            None => {},
        }
        proof {
            assert(rv[i as int] == run_view(*run));
        }
        column = column.saturating_add(width);
        i = i + 1;
    }
}


/// Where a line's runs from the `i`-th on end when the first of them starts at `column`:
/// the line's width in cells when `i` and `column` are 0 (saturating).
pub open spec fn runs_end(runs: Seq<RunView>, i: nat, column: nat) -> nat
    decreases runs.len() - i,
{
    if i >= runs.len() {
        column
    } else {
        runs_end(runs, i + 1, sat_add(column, str_display_width(runs[i as int].text) as nat))
    }
}

/// The link areas on `line` come in order without overlapping, and each ends by `limit`.
pub open spec fn ordered_on_line(ts: Seq<LinkTargetView>, line: nat, limit: nat) -> bool {
    &&& forall|j: int, k: int| #![trigger ts[j], ts[k]]
        0 <= j < k < ts.len() && ts[j].line == line && ts[k].line == line
            ==> sat_add(ts[j].column, ts[j].width) <= ts[k].column
    &&& forall|j: int| 0 <= j < ts.len() && #[trigger] ts[j].line == line
        ==> sat_add(ts[j].column, ts[j].width) <= limit
}

proof fn lemma_add_target_ordered(ts: Seq<LinkTargetView>, line: nat, column: nat, width: nat, t: Seq<char>)
    requires
        ordered_on_line(ts, line, column),
        column <= usize::MAX,
    ensures
        ordered_on_line(add_target(ts, line, column, width, t), line, sat_add(column, width)),
{
    let r = add_target(ts, line, column, width, t);
    if ts.len() > 0 && ts.last().line == line && ts.last().target == t
        && sat_add(ts.last().column, ts.last().width) == column {
        let n = ts.len() - 1;
        assert forall|j: int, k: int| #![trigger r[j], r[k]]
            0 <= j < k < r.len() && r[j].line == line && r[k].line == line
                implies sat_add(r[j].column, r[j].width) <= r[k].column by {
            assert(r[j] == ts[j]);
            if k < n {
                assert(r[k] == ts[k]);
            } else {
                assert(r[k].column == ts[n].column);
                assert(ts[n].line == line);
                assert(sat_add(ts[j].column, ts[j].width) <= ts[n].column);
            }
        }
        assert forall|j: int| 0 <= j < r.len() && #[trigger] r[j].line == line
            implies sat_add(r[j].column, r[j].width) <= sat_add(column, width) by {
            if j < n {
                assert(r[j] == ts[j]);
            }
        }
    } else {
        let n = ts.len();
        assert forall|j: int, k: int| #![trigger r[j], r[k]]
            0 <= j < k < r.len() && r[j].line == line && r[k].line == line
                implies sat_add(r[j].column, r[j].width) <= r[k].column by {
            assert(r[j] == ts[j]);
            if k < n {
                assert(r[k] == ts[k]);
            }
        }
        assert forall|j: int| 0 <= j < r.len() && #[trigger] r[j].line == line
            implies sat_add(r[j].column, r[j].width) <= sat_add(column, width) by {
            if j < n {
                assert(r[j] == ts[j]);
            }
        }
    }
}

proof fn lemma_link_targets_ordered(ts: Seq<LinkTargetView>, line: nat, runs: Seq<RunView>, i: nat, column: nat)
    requires
        ordered_on_line(ts, line, column),
        column <= usize::MAX,
    ensures
        ordered_on_line(link_targets_from(ts, line, runs, i, column), line, runs_end(runs, i, column)),
    decreases runs.len() - i,
{
    if i < runs.len() {
        let width = str_display_width(runs[i as int].text) as nat;
        let next = match runs[i as int].link {
            Some(t) => add_target(ts, line, column, width, t),
            None => ts,
        };
        match runs[i as int].link {
            Some(t) => lemma_add_target_ordered(ts, line, column, width, t),
            None => {},
        }
        lemma_link_targets_ordered(next, line, runs, i + 1, sat_add(column, width));
    }
}

/// The clickable link areas recorded for one rendered line, after those of other lines,
/// come in order along the line without overlapping, and each ends within the line's
/// width (the sum of its runs' widths, saturating).
pub proof fn law_line_links_ordered_within_line(targets: Seq<LinkTargetView>, line: nat, runs: Seq<RunView>)
    requires
        forall|j: int| 0 <= j < targets.len() ==> #[trigger] targets[j].line != line,
    ensures
        ordered_on_line(link_targets_from(targets, line, runs, 0, 0), line, runs_end(runs, 0, 0)),
{
    lemma_link_targets_ordered(targets, line, runs, 0, 0);
}

} // verus!
