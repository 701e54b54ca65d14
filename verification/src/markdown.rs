//! Markdown block structure: splitting text into lines and recognizing headings, code
//! fences, rules, images, tables, quotes, lists and paragraphs.
use vstd::prelude::*;
use crate::text::{
    trim, trim_start, trim_end, leading_white, trailing_white, leading_white_len, trailing_white_len,
    lemma_leading_white, lemma_trailing_white, sub_chars, is_blank, chars_of,
};

verus! {

/// The position of the first `c` in `s`, or the length of `s` when there is none.
pub open spec fn index_of_or_len(s: Seq<char>, c: char) -> nat
    decreases s.len(),
{
    if s.len() == 0 {
        0
    } else if s[0] == c {
        0
    } else {
        1 + index_of_or_len(s.drop_first(), c)
    }
}

/// `index_of_or_len` is the first occurrence.
pub proof fn lemma_index_of_or_len(s: Seq<char>, c: char)
    ensures
        index_of_or_len(s, c) <= s.len(),
        forall|i: int| 0 <= i < index_of_or_len(s, c) ==> #[trigger] s[i] != c,
        index_of_or_len(s, c) < s.len() ==> s[index_of_or_len(s, c) as int] == c,
    decreases s.len(),
{
    if s.len() > 0 && s[0] != c {
        lemma_index_of_or_len(s.drop_first(), c);
        assert forall|i: int| 0 <= i < index_of_or_len(s, c) implies #[trigger] s[i] != c by {
            if i > 0 {
                assert(s[i] == s.drop_first()[i - 1]);
            }
        }
    }
}

/// A position before which `c` does not occur and at which `c` occurs (or the end) is
/// `index_of_or_len`.
pub proof fn lemma_index_of_or_len_unique(s: Seq<char>, c: char, k: nat)
    requires
        k <= s.len(),
        forall|i: int| 0 <= i < k ==> #[trigger] s[i] != c,
        k < s.len() ==> s[k as int] == c,
    ensures
        index_of_or_len(s, c) == k,
    decreases s.len(),
{
    if k > 0 {
        assert(s[0] != c);
        assert forall|i: int| 0 <= i < k - 1 implies #[trigger] s.drop_first()[i] != c by {
            assert(s.drop_first()[i] == s[i + 1]);
        }
        if k < s.len() {
            assert(s.drop_first()[k - 1] == s[k as int]);
        }
        lemma_index_of_or_len_unique(s.drop_first(), c, (k - 1) as nat);
    }
}

/// The first position at or after `from` where `c` occurs in `v`, or `v.len()`.
pub fn find_char_from(v: &[char], from: usize, c: char) -> (r: usize)
    requires
        from <= v.len(),
    ensures
        r == from + index_of_or_len(v@.skip(from as int), c),
        r <= v.len(),
{
    let mut i = from;
    while i < v.len() && v[i] != c
        invariant
            from <= i <= v.len(),
            forall|k: int| from <= k < i ==> v@[k] != c,
        decreases v.len() - i,
    {
        i = i + 1;
    }
    proof {
        let s = v@.skip(from as int);
        assert forall|k: int| 0 <= k < i - from implies #[trigger] s[k] != c by {
            assert(s[k] == v@[from + k]);
        }
        if i < v.len() {
            assert(s[i - from] == v@[i as int]);
        }
        lemma_index_of_or_len_unique(s, c, (i - from) as nat);
    }
    i
}

/// `s` without one trailing carriage return.
pub open spec fn strip_cr(s: Seq<char>) -> Seq<char> {
    if s.len() > 0 && s.last() == '\r' { s.drop_last() } else { s }
}

/// The lines of `s` as std's `str::lines` gives them: split at `\n`, a `\r` right before
/// a `\n` dropped, and no empty line after a final line ending.
pub open spec fn lines_of(s: Seq<char>) -> Seq<Seq<char>>
    decreases s.len(),
{
    if s.len() == 0 {
        Seq::empty()
    } else {
        let e = index_of_or_len(s, '\n');
        if e >= s.len() {
            seq![s]
        } else {
            proof { lemma_index_of_or_len(s, '\n'); }
            seq![strip_cr(s.take(e as int))] + lines_of(s.skip(e as int + 1))
        }
    }
}

/// The character sequences held by a vector of character vectors.
pub open spec fn char_rows(v: Seq<Vec<char>>) -> Seq<Seq<char>> {
    v.map_values(|x: Vec<char>| x@)
}

/// The lines of `content`, as `str::lines` splits them.
pub fn split_lines(content: &str) -> (r: Vec<Vec<char>>)
    ensures
        char_rows(r@) == lines_of(content@),
{
    let v = chars_of(content);
    let mut out: Vec<Vec<char>> = Vec::new();
    let mut pos: usize = 0;
    proof {
        assert(v@.skip(0) =~= v@);
        assert(char_rows(out@) =~= Seq::<Seq<char>>::empty());
        assert(char_rows(out@) + lines_of(v@.skip(0)) =~= lines_of(v@));
    }
    while pos < v.len()
        invariant
            pos <= v.len(),
            v@ == content@,
            char_rows(out@) + lines_of(v@.skip(pos as int)) == lines_of(v@),
        decreases v.len() - pos,
    {
        let ghost rest = v@.skip(pos as int);
        let e = find_char_from(v.as_slice(), pos, '\n');
        proof { lemma_index_of_or_len(rest, '\n'); }
        if e == v.len() {
            let line = sub_chars(v.as_slice(), pos, e);
            let ghost before = char_rows(out@);
            out.push(line);
            proof {
                assert(line@ =~= rest);
                assert(char_rows(out@) =~= before.push(rest));
                assert(v@.skip(v.len() as int) =~= Seq::<char>::empty());
                assert(lines_of(rest) == seq![rest]);
                assert(char_rows(out@) + lines_of(v@.skip(v.len() as int)) =~= before + lines_of(rest));
            }
            pos = e;
        } else {
            let mut end = e;
            if end > pos && v[end - 1] == '\r' {
                end = end - 1;
            }
            let line = sub_chars(v.as_slice(), pos, end);
            let ghost before = char_rows(out@);
            out.push(line);
            proof {
                let k = (e - pos) as nat;
                assert(rest.take(k as int) =~= v@.subrange(pos as int, e as int));
                assert(line@ =~= strip_cr(rest.take(k as int)));
                assert(rest.skip(k as int + 1) =~= v@.skip(e + 1));
                assert(lines_of(rest) == seq![strip_cr(rest.take(k as int))] + lines_of(rest.skip(k as int + 1)));
                assert(char_rows(out@) =~= before.push(line@));
                assert(char_rows(out@) + lines_of(v@.skip(e + 1)) =~= before + lines_of(rest));
            }
            pos = e + 1;
        }
    }
    proof {
        assert(v@.skip(pos as int) =~= Seq::<char>::empty());
        assert(char_rows(out@) =~= lines_of(v@));
    }
    out
}

/// The number of leading `c` characters of `s`.
pub open spec fn leading_run(s: Seq<char>, c: char) -> nat
    decreases s.len(),
{
    if s.len() > 0 && s[0] == c { 1 + leading_run(s.drop_first(), c) } else { 0 }
}

/// The number of trailing `c` characters of `s`.
pub open spec fn trailing_run(s: Seq<char>, c: char) -> nat
    decreases s.len(),
{
    if s.len() > 0 && s.last() == c { 1 + trailing_run(s.drop_last(), c) } else { 0 }
}

proof fn lemma_leading_run_unique(s: Seq<char>, c: char, k: nat)
    requires
        k <= s.len(),
        forall|i: int| 0 <= i < k ==> #[trigger] s[i] == c,
        k < s.len() ==> s[k as int] != c,
    ensures
        leading_run(s, c) == k,
    decreases s.len(),
{
    if k > 0 {
        assert(s[0] == c);
        assert forall|i: int| 0 <= i < k - 1 implies #[trigger] s.drop_first()[i] == c by {
            assert(s.drop_first()[i] == s[i + 1]);
        }
        if k < s.len() {
            assert(s.drop_first()[k - 1] == s[k as int]);
        }
        lemma_leading_run_unique(s.drop_first(), c, (k - 1) as nat);
    } else if s.len() > 0 {
        assert(s[0] != c);
    }
}

proof fn lemma_trailing_run_unique(s: Seq<char>, c: char, k: nat)
    requires
        k <= s.len(),
        forall|i: int| s.len() - k <= i < s.len() ==> #[trigger] s[i] == c,
        k < s.len() ==> s[s.len() - k - 1] != c,
    ensures
        trailing_run(s, c) == k,
    decreases s.len(),
{
    if k > 0 {
        assert(s.last() == c);
        let t = s.drop_last();
        assert forall|i: int| t.len() - (k - 1) <= i < t.len() implies #[trigger] t[i] == c by {
            assert(t[i] == s[i]);
        }
        if k < s.len() {
            assert(t[t.len() - (k - 1) - 1] == s[s.len() - k - 1]);
        }
        lemma_trailing_run_unique(t, c, (k - 1) as nat);
    } else if s.len() > 0 {
        assert(s.last() == s[s.len() - 1]);
    }
}

/// The number of leading `c` characters of `v`.
pub fn leading_run_len(v: &[char], c: char) -> (n: usize)
    ensures
        n == leading_run(v@, c),
        n <= v.len(),
{
    let mut i: usize = 0;
    while i < v.len() && v[i] == c
        invariant
            i <= v.len(),
            forall|k: int| 0 <= k < i ==> #[trigger] v@[k] == c,
        decreases v.len() - i,
    {
        i = i + 1;
    }
    proof { lemma_leading_run_unique(v@, c, i as nat); }
    i
}

/// The number of trailing `c` characters of `v`.
pub fn trailing_run_len(v: &[char], c: char) -> (n: usize)
    ensures
        n == trailing_run(v@, c),
        n <= v.len(),
{
    let mut k: usize = 0;
    while k < v.len() && v[v.len() - 1 - k] == c
        invariant
            k <= v.len(),
            forall|i: int| v.len() - k <= i < v.len() ==> #[trigger] v@[i] == c,
        decreases v.len() - k,
    {
        k = k + 1;
    }
    proof { lemma_trailing_run_unique(v@, c, k as nat); }
    k
}

/// `v` without leading whitespace.
pub fn trim_start_chars(v: &[char]) -> (r: Vec<char>)
    ensures
        r@ == trim_start(v@),
{
    let n = leading_white_len(v);
    proof { lemma_leading_white(v@); }
    let r = sub_chars(v, n, v.len());
    assert(r@ =~= trim_start(v@));
    r
}

/// `v` without trailing whitespace.
pub fn trim_end_chars(v: &[char]) -> (r: Vec<char>)
    ensures
        r@ == trim_end(v@),
{
    let n = trailing_white_len(v);
    proof { lemma_trailing_white(v@); }
    let r = sub_chars(v, 0, v.len() - n);
    assert(r@ =~= trim_end(v@));
    r
}

/// Whether `s` begins with `p`.
pub open spec fn starts_with(s: Seq<char>, p: Seq<char>) -> bool {
    s.len() >= p.len() && s.take(p.len() as int) == p
}

/// Whether `v` begins with `p`.
pub fn chars_start_with(v: &[char], p: &[char]) -> (r: bool)
    ensures
        r == starts_with(v@, p@),
{
    if v.len() < p.len() {
        return false;
    }
    let mut i: usize = 0;
    while i < p.len()
        invariant
            p.len() <= v.len(),
            i <= p.len(),
            forall|k: int| 0 <= k < i ==> v@[k] == p@[k],
        decreases p.len() - i,
    {
        if v[i] != p[i] {
            assert(v@.take(p.len() as int)[i as int] != p@[i as int]);
            return false;
        }
        i = i + 1;
    }
    assert(v@.take(p.len() as int) =~= p@);
    true
}

/// The position of the first occurrence of the pair `a b` in `s`, or the length of `s`.
pub open spec fn pair_index(s: Seq<char>, a: char, b: char) -> nat
    decreases s.len(),
{
    if s.len() < 2 {
        s.len()
    } else if s[0] == a && s[1] == b {
        0
    } else {
        1 + pair_index(s.drop_first(), a, b)
    }
}

proof fn lemma_pair_index_unique(s: Seq<char>, a: char, b: char, k: nat)
    requires
        forall|i: int| #![trigger s[i]] 0 <= i < k && i + 1 < s.len() ==> !(s[i] == a && s[i + 1] == b),
        k + 1 < s.len() ==> s[k as int] == a && s[k as int + 1] == b,
        k + 1 >= s.len() ==> k == s.len(),
    ensures
        pair_index(s, a, b) == k,
    decreases s.len(),
{
    if s.len() >= 2 && k > 0 {
        assert(!(s[0] == a && s[1] == b));
        let t = s.drop_first();
        assert forall|i: int| #![trigger t[i]] 0 <= i < k - 1 && i + 1 < t.len() implies !(t[i] == a && t[i + 1] == b) by {
            assert(t[i] == s[i + 1]);
            assert(t[i + 1] == s[i + 2]);
        }
        if k < s.len() - 1 {
            assert(t[k - 1] == s[k as int]);
            assert(t[k as int] == s[k as int + 1]);
        }
        lemma_pair_index_unique(t, a, b, (k - 1) as nat);
    }
}

/// The position of the first occurrence of `a b` in `v`, or `v.len()`.
pub fn find_pair(v: &[char], a: char, b: char) -> (r: usize)
    ensures
        r == pair_index(v@, a, b),
        r <= v.len(),
{
    if v.len() < 2 {
        return v.len();
    }
    let mut i: usize = 0;
    while i + 1 < v.len()
        invariant
            v.len() >= 2,
            i + 1 <= v.len(),
            forall|k: int| #![trigger v@[k]] 0 <= k < i && k + 1 < v.len() ==> !(v@[k] == a && v@[k + 1] == b),
        decreases v.len() - i,
    {
        if v[i] == a && v[i + 1] == b {
            proof { lemma_pair_index_unique(v@, a, b, i as nat); }
            return i;
        }
        i = i + 1;
    }
    proof { lemma_pair_index_unique(v@, a, b, v.len() as nat); }
    v.len()
}

/// Whether `c` is an ASCII digit.
pub open spec fn is_digit(c: char) -> bool {
    '0' <= c && c <= '9'
}

/// Whether `s` holds only ASCII digits (true for the empty sequence).
pub open spec fn all_digits(s: Seq<char>) -> bool {
    forall|i: int| 0 <= i < s.len() ==> is_digit(#[trigger] s[i])
}

fn chars_all_digits(v: &[char], n: usize) -> (r: bool)
    requires
        n <= v.len(),
    ensures
        r == all_digits(v@.take(n as int)),
{
    let mut i: usize = 0;
    while i < n
        invariant
            n <= v.len(),
            i <= n,
            forall|k: int| 0 <= k < i ==> is_digit(#[trigger] v@[k]),
        decreases n - i,
    {
        if !('0' <= v[i] && v[i] <= '9') {
            assert(!is_digit(v@.take(n as int)[i as int]));
            return false;
        }
        i = i + 1;
    }
    assert forall|k: int| 0 <= k < n implies is_digit(#[trigger] v@.take(n as int)[k]) by {
        assert(v@.take(n as int)[k] == v@[k]);
    }
    true
}

/// A heading line: up to six `#` after leading whitespace, then non-blank text. The level
/// is the number of `#`; the text loses surrounding whitespace and any closing `#` run.
pub open spec fn heading_spec(line: Seq<char>) -> Option<(nat, Seq<char>)> {
    let t = trim_start(line);
    let hashes = leading_run(t, '#');
    let rest = trim_start(t.skip(hashes as int));
    if 1 <= hashes <= 6 && rest.len() > 0 {
        let inner = trim(rest);
        Some((hashes, trim(inner.take(inner.len() - trailing_run(inner, '#')))))
    } else {
        None
    }
}

proof fn lemma_leading_run_bound(s: Seq<char>, c: char)
    ensures
        leading_run(s, c) <= s.len(),
    decreases s.len(),
{
    if s.len() > 0 && s[0] == c {
        lemma_leading_run_bound(s.drop_first(), c);
    }
}

proof fn lemma_trailing_run_bound(s: Seq<char>, c: char)
    ensures
        trailing_run(s, c) <= s.len(),
    decreases s.len(),
{
    if s.len() > 0 && s.last() == c {
        lemma_trailing_run_bound(s.drop_last(), c);
    }
}

/// The level and text of a heading line, if it is one.
pub fn parse_heading(line: &[char]) -> (r: Option<(usize, Vec<char>)>)
    ensures
        match (r, heading_spec(line@)) {
            (Some((level, text)), Some((l, t))) => level == l && text@ == t,
            (None, None) => true,
            _ => false,
        },
{
    let t = trim_start_chars(line);
    let hashes = leading_run_len(t.as_slice(), '#');
    let after = sub_chars(t.as_slice(), hashes, t.len());
    let rest = trim_start_chars(after.as_slice());
    proof { assert(after@ =~= t@.skip(hashes as int)); }
    if 1 <= hashes && hashes <= 6 && rest.len() > 0 {
        let inner = crate::text::trim_chars(rest.as_slice());
        let closing = trailing_run_len(inner.as_slice(), '#');
        let body = sub_chars(inner.as_slice(), 0, inner.len() - closing);
        let text = crate::text::trim_chars(body.as_slice());
        proof { assert(body@ =~= inner@.take(inner@.len() - trailing_run(inner@, '#'))); }
        Some((hashes, text))
    } else {
        None
    }
}

/// The three backticks that open and close a code block.
pub open spec fn fence() -> Seq<char> {
    seq!['`', '`', '`']
}

/// A code fence line: three backticks after leading whitespace; the language is the
/// non-blank remainder, trimmed.
pub open spec fn fence_spec(line: Seq<char>) -> Option<Option<Seq<char>>> {
    let t = trim_start(line);
    if starts_with(t, fence()) {
        let lang = trim(t.skip(3));
        Some(if lang.len() > 0 { Some(lang) } else { None })
    } else {
        None
    }
}

/// Whether the line opens a code fence (after leading whitespace).
pub open spec fn is_fence_line(line: Seq<char>) -> bool {
    starts_with(trim_start(line), fence())
}

/// The language of a code fence line, if it is one.
pub fn parse_fence_start(line: &[char]) -> (r: Option<Option<Vec<char>>>)
    ensures
        match (r, fence_spec(line@)) {
            (Some(Some(lang)), Some(Some(l))) => lang@ == l,
            (Some(None), Some(None)) => true,
            (None, None) => true,
            _ => false,
        },
{
    let t = trim_start_chars(line);
    let f: [char; 3] = ['`', '`', '`'];
    let fs = f.as_slice();
    proof { assert(fs@ =~= fence()); }
    if chars_start_with(t.as_slice(), fs) {
        let rest = sub_chars(t.as_slice(), 3, t.len());
        let lang = crate::text::trim_chars(rest.as_slice());
        proof { assert(rest@ =~= t@.skip(3)); }
        if lang.len() > 0 { Some(Some(lang)) } else { Some(None) }
    } else {
        None
    }
}

/// Whether the line opens or closes a code fence.
pub fn is_fence_line_exec(line: &[char]) -> (r: bool)
    ensures
        r == is_fence_line(line@),
{
    let t = trim_start_chars(line);
    let f: [char; 3] = ['`', '`', '`'];
    let fs = f.as_slice();
    proof { assert(fs@ =~= fence()); }
    chars_start_with(t.as_slice(), fs)
}

/// Whether all characters of `s` equal `c`.
pub open spec fn all_eq(s: Seq<char>, c: char) -> bool {
    forall|i: int| 0 <= i < s.len() ==> #[trigger] s[i] == c
}

fn chars_all_eq(v: &[char], c: char) -> (r: bool)
    ensures
        r == all_eq(v@, c),
{
    let mut i: usize = 0;
    while i < v.len()
        invariant
            i <= v.len(),
            forall|k: int| 0 <= k < i ==> #[trigger] v@[k] == c,
        decreases v.len() - i,
    {
        if v[i] != c {
            return false;
        }
        i = i + 1;
    }
    true
}

/// A thematic break: at least three characters, all `-`, all `*` or all `_`, once trimmed.
pub open spec fn rule_spec(line: Seq<char>) -> bool {
    let t = trim(line);
    t.len() >= 3 && (all_eq(t, '-') || all_eq(t, '*') || all_eq(t, '_'))
}

/// Whether the line is a thematic break.
pub fn is_rule(line: &[char]) -> (r: bool)
    ensures
        r == rule_spec(line@),
{
    let t = crate::text::trim_chars(line);
    t.len() >= 3 && (chars_all_eq(t.as_slice(), '-') || chars_all_eq(t.as_slice(), '*') || chars_all_eq(t.as_slice(), '_'))
}

/// A standalone image line `![alt](source)`, once trimmed: the alt text runs to the first
/// `](` and the source to the closing parenthesis at the end of the line.
pub open spec fn image_spec(line: Seq<char>) -> Option<(Seq<char>, Seq<char>)> {
    let t = trim(line);
    if starts_with(t, seq!['!', '[']) {
        let r = t.skip(2);
        let k = pair_index(r, ']', '(');
        if k < r.len() {
            let rest = r.skip(k as int + 2);
            if rest.len() > 0 && rest.last() == ')' {
                Some((r.take(k as int), rest.drop_last()))
            } else {
                None
            }
        } else {
            None
        }
    } else {
        None
    }
}

proof fn lemma_pair_index_bound(s: Seq<char>, a: char, b: char)
    ensures
        pair_index(s, a, b) <= s.len(),
        pair_index(s, a, b) < s.len() ==> pair_index(s, a, b) + 1 < s.len(),
    decreases s.len(),
{
    if s.len() >= 2 && !(s[0] == a && s[1] == b) {
        lemma_pair_index_bound(s.drop_first(), a, b);
    }
}

/// The alt text and source of an image line, if it is one.
pub fn parse_image_line(line: &[char]) -> (r: Option<(Vec<char>, Vec<char>)>)
    ensures
        match (r, image_spec(line@)) {
            (Some((alt, source)), Some((a, s))) => alt@ == a && source@ == s,
            (None, None) => true,
            _ => false,
        },
{
    let t = crate::text::trim_chars(line);
    let p: [char; 2] = ['!', '['];
    let ps = p.as_slice();
    proof { assert(ps@ =~= seq!['!', '[']); }
    if !chars_start_with(t.as_slice(), ps) {
        return None;
    }
    let r = sub_chars(t.as_slice(), 2, t.len());
    proof { assert(r@ =~= t@.skip(2)); lemma_pair_index_bound(r@, ']', '('); }
    let k = find_pair(r.as_slice(), ']', '(');
    if k >= r.len() {
        return None;
    }
    let rest = sub_chars(r.as_slice(), k + 2, r.len());
    proof { assert(rest@ =~= r@.skip(k + 2)); }
    if rest.len() > 0 && rest[rest.len() - 1] == ')' {
        let alt = sub_chars(r.as_slice(), 0, k);
        let source = sub_chars(rest.as_slice(), 0, rest.len() - 1);
        proof {
            assert(alt@ =~= r@.take(k as int));
            assert(source@ =~= rest@.drop_last());
        }
        Some((alt, source))
    } else {
        None
    }
}

/// A list item line: after leading whitespace, a `- `, `* ` or `+ ` bullet, or a run of
/// digits (possibly empty) before the first `. `; the item is the text after the marker.
pub open spec fn list_item_spec(line: Seq<char>) -> Option<Seq<char>> {
    let t = trim_start(line);
    if starts_with(t, seq!['-', ' ']) || starts_with(t, seq!['*', ' ']) || starts_with(t, seq!['+', ' ']) {
        Some(t.skip(2))
    } else {
        let dot = pair_index(t, '.', ' ');
        if dot < t.len() && all_digits(t.take(dot as int)) {
            Some(t.skip(dot as int + 2))
        } else {
            None
        }
    }
}

/// The text of a list item line, if it is one.
pub fn parse_list_item(line: &[char]) -> (r: Option<Vec<char>>)
    ensures
        match (r, list_item_spec(line@)) {
            (Some(item), Some(i)) => item@ == i,
            (None, None) => true,
            _ => false,
        },
{
    let t = trim_start_chars(line);
    let dash: [char; 2] = ['-', ' '];
    let star: [char; 2] = ['*', ' '];
    let plus: [char; 2] = ['+', ' '];
    proof {
        assert(dash@ =~= seq!['-', ' ']);
        assert(star@ =~= seq!['*', ' ']);
        assert(plus@ =~= seq!['+', ' ']);
    }
    if chars_start_with(t.as_slice(), dash.as_slice()) || chars_start_with(t.as_slice(), star.as_slice())
        || chars_start_with(t.as_slice(), plus.as_slice()) {
        let item = sub_chars(t.as_slice(), 2, t.len());
        proof { assert(item@ =~= t@.skip(2)); }
        return Some(item);
    }
    proof { lemma_pair_index_bound(t@, '.', ' '); }
    let dot = find_pair(t.as_slice(), '.', ' ');
    if dot < t.len() && chars_all_digits(t.as_slice(), dot) {
        let item = sub_chars(t.as_slice(), dot + 2, t.len());
        proof { assert(item@ =~= t@.skip(dot + 2)); }
        Some(item)
    } else {
        None
    }
}

/// Whether `c` occurs in `s`.
pub open spec fn has_char(s: Seq<char>, c: char) -> bool {
    exists|i: int| 0 <= i < s.len() && s[i] == c
}

/// Whether `c` occurs in `v`.
pub fn chars_have(v: &[char], c: char) -> (r: bool)
    ensures
        r == has_char(v@, c),
{
    let i = find_char_from(v, 0, c);
    proof {
        lemma_index_of_or_len(v@.skip(0), c);
        assert(v@.skip(0) =~= v@);
        if i < v.len() {
            assert(v@[i as int] == c);
        }
    }
    i < v.len()
}

/// `s` without leading and trailing `|` characters.
pub open spec fn trim_pipes(s: Seq<char>) -> Seq<char> {
    let a = s.skip(leading_run(s, '|') as int);
    a.take(a.len() - trailing_run(a, '|'))
}

fn trim_pipes_exec(v: &[char]) -> (r: Vec<char>)
    ensures
        r@ == trim_pipes(v@),
{
    let n = leading_run_len(v, '|');
    let a = sub_chars(v, n, v.len());
    let m = trailing_run_len(a.as_slice(), '|');
    let r = sub_chars(a.as_slice(), 0, a.len() - m);
    proof {
        assert(a@ =~= v@.skip(n as int));
        assert(r@ =~= a@.take(a@.len() - m));
    }
    r
}

/// Whether `c` may appear in a table's delimiter row.
pub open spec fn delimiter_char(c: char) -> bool {
    c == '-' || c == ':' || c == '|' || c == ' '
}

/// A table header: the line has a `|` and the next line, trimmed and stripped of outer `|`,
/// has something besides spaces and only `-`, `:`, `|` and spaces.
pub open spec fn table_header_spec(line: Seq<char>, next: Option<Seq<char>>) -> bool {
    &&& has_char(line, '|')
    &&& next is Some
    &&& delimiter_row(trim_pipes(trim(next->0)))
}

/// A delimiter row once stripped: something besides spaces, and only `-`, `:`, `|` and spaces.
pub open spec fn delimiter_row(u: Seq<char>) -> bool {
    &&& exists|i: int| 0 <= i < u.len() && u[i] != ' '
    &&& forall|i: int| 0 <= i < u.len() ==> delimiter_char(#[trigger] u[i])
}

/// The characters of an optional slice.
pub open spec fn opt_chars(o: Option<&[char]>) -> Option<Seq<char>> {
    match o {
        Some(n) => Some(n@),
        None => None,
    }
}

/// Whether `line`, followed by `next`, starts a table.
pub fn is_table_header(line: &[char], next: Option<&[char]>) -> (r: bool)
    ensures
        r == table_header_spec(line@, opt_chars(next)),
{
    if !chars_have(line, '|') {
        return false;
    }
    match next {
        None => {
            assert(opt_chars(next) is None);
            false
        },
        Some(n) => {
            assert(opt_chars(next) == Some(n@));
            let t = crate::text::trim_chars(n);
            let u = trim_pipes_exec(t.as_slice());
            let mut i: usize = 0;
            let mut non_space = false;
            while i < u.len()
                invariant
                    i <= u.len(),
                    forall|k: int| 0 <= k < i ==> delimiter_char(#[trigger] u@[k]),
                    non_space == (exists|k: int| 0 <= k < i && u@[k] != ' '),
                    u@ == trim_pipes(trim(n@)),
                    opt_chars(next) == Some(n@),
                decreases u.len() - i,
            {
                let c = u[i];
                if !(c == '-' || c == ':' || c == '|' || c == ' ') {
                    assert(!delimiter_char(u@[i as int]));
                    return false;
                }
                if c != ' ' {
                    non_space = true;
                }
                i = i + 1;
            }
            non_space
        },
    }
}

/// `s` split at every `c`, keeping empty pieces (std `str::split` with a char).
pub open spec fn split_on(s: Seq<char>, c: char) -> Seq<Seq<char>>
    decreases s.len(),
{
    let e = index_of_or_len(s, c);
    if e >= s.len() {
        seq![s]
    } else {
        proof { lemma_index_of_or_len(s, c); }
        seq![s.take(e as int)] + split_on(s.skip(e as int + 1), c)
    }
}

/// Each sequence trimmed.
pub open spec fn trim_all(s: Seq<Seq<char>>) -> Seq<Seq<char>> {
    s.map_values(|cell: Seq<char>| trim(cell))
}

/// The cells of a table row: the trimmed line without outer `|`, split at `|`, each cell trimmed.
pub open spec fn table_row_spec(line: Seq<char>) -> Seq<Seq<char>> {
    trim_all(split_on(trim_pipes(trim(line)), '|'))
}

/// The cells of a table row.
pub fn split_table_row(line: &[char]) -> (r: Vec<Vec<char>>)
    ensures
        char_rows(r@) == table_row_spec(line@),
{
    let t = crate::text::trim_chars(line);
    let u = trim_pipes_exec(t.as_slice());
    let ghost pieces = split_on(u@, '|');
    let mut out: Vec<Vec<char>> = Vec::new();
    let mut pos: usize = 0;
    proof { assert(u@.skip(0) =~= u@); }
    loop
        invariant
            pos <= u.len(),
            char_rows(out@) + trim_all(split_on(u@.skip(pos as int), '|'))
                == trim_all(pieces),
            u@ == trim_pipes(trim(line@)),
            pieces == split_on(u@, '|'),
        decreases u.len() - pos,
    {
        let ghost rest = u@.skip(pos as int);
        let e = find_char_from(u.as_slice(), pos, '|');
        proof { lemma_index_of_or_len(rest, '|'); }
        let piece = sub_chars(u.as_slice(), pos, e);
        let cell = crate::text::trim_chars(piece.as_slice());
        let ghost before = char_rows(out@);
        out.push(cell);
        proof {
            assert(piece@ =~= rest.take((e - pos) as int));
            assert(char_rows(out@) =~= before.push(trim(piece@)));
        }
        if e == u.len() {
            proof {
                assert(split_on(rest, '|') == seq![rest]);
                assert(piece@ =~= rest);
                assert(trim_all(split_on(rest, '|')) =~= seq![trim(rest)]);
                assert(char_rows(out@) =~= trim_all(pieces));
                assert(u@ == trim_pipes(trim(line@)));
                assert(pieces == split_on(trim_pipes(trim(line@)), '|'));
                assert(char_rows(out@) == table_row_spec(line@));
            }
            return out;
        }
        proof {
            let k = (e - pos) as int;
            assert(rest.skip(k + 1) =~= u@.skip(e + 1));
            let tail = split_on(u@.skip(e + 1), '|');
            assert(split_on(rest, '|') == seq![rest.take(k)] + tail);
            assert(trim_all(split_on(rest, '|'))
                =~= seq![trim(rest.take(k))] + trim_all(tail));
            assert(char_rows(out@) + trim_all(tail)
                =~= before + trim_all(split_on(rest, '|')));
        }
        pos = e + 1;
    }
}

/// Whether the line is a quote line: `>` after leading whitespace.
pub open spec fn quote_spec(line: Seq<char>) -> bool {
    starts_with(trim_start(line), seq!['>'])
}

/// The text of a quote line: after leading whitespace and every leading `>`, trimmed at the start.
pub open spec fn quote_text_spec(line: Seq<char>) -> Seq<char> {
    let t = trim_start(line);
    trim_start(t.skip(leading_run(t, '>') as int))
}

/// Whether the line is a quote line.
pub fn is_quote_line(line: &[char]) -> (r: bool)
    ensures
        r == quote_spec(line@),
{
    let t = trim_start_chars(line);
    let g: [char; 1] = ['>'];
    proof { assert(g@ =~= seq!['>']); }
    chars_start_with(t.as_slice(), g.as_slice())
}

/// The text of a quote line.
pub fn quote_text(line: &[char]) -> (r: Vec<char>)
    ensures
        r@ == quote_text_spec(line@),
{
    let t = trim_start_chars(line);
    let n = leading_run_len(t.as_slice(), '>');
    let rest = sub_chars(t.as_slice(), n, t.len());
    proof { assert(rest@ =~= t@.skip(n as int)); }
    trim_start_chars(rest.as_slice())
}

/// The first position at or after `i` whose line fails `p`, or the end of `lines`.
pub open spec fn scan_while(lines: Seq<Seq<char>>, i: nat, p: spec_fn(Seq<char>) -> bool) -> nat
    decreases lines.len() - i,
{
    if i >= lines.len() {
        i
    } else if p(lines[i as int]) {
        scan_while(lines, i + 1, p)
    } else {
        i
    }
}

/// A position from which every line satisfies `p` up to a failing line or the end is `scan_while`.
pub proof fn lemma_scan_while_unique(lines: Seq<Seq<char>>, i: nat, p: spec_fn(Seq<char>) -> bool, j: nat)
    requires
        i <= j <= lines.len(),
        forall|k: int| i <= k < j ==> p(#[trigger] lines[k]),
        j < lines.len() ==> !p(lines[j as int]),
    ensures
        scan_while(lines, i, p) == j,
    decreases j - i,
{
    if i < j {
        lemma_scan_while_unique(lines, i + 1, p, j);
    }
}

/// Lines that do not open or close a code fence.
pub open spec fn not_fence() -> spec_fn(Seq<char>) -> bool {
    |l: Seq<char>| !is_fence_line(l)
}

/// Lines that continue a table: with a `|` and not blank.
pub open spec fn table_row_line() -> spec_fn(Seq<char>) -> bool {
    |l: Seq<char>| has_char(l, '|') && trim(l).len() > 0
}

/// Lines of a block quote.
pub open spec fn quote_line() -> spec_fn(Seq<char>) -> bool {
    |l: Seq<char>| quote_spec(l)
}

/// Lines that are list items.
pub open spec fn list_line() -> spec_fn(Seq<char>) -> bool {
    |l: Seq<char>| list_item_spec(l) is Some
}

/// Lines that continue a paragraph: not blank, and not a heading, list item, fence, quote
/// or rule.
pub open spec fn paragraph_line() -> spec_fn(Seq<char>) -> bool {
    |l: Seq<char>| trim(l).len() > 0 && heading_spec(l) is None && list_item_spec(l) is None
        && fence_spec(l) is None && !quote_spec(l) && !rule_spec(l)
}

/// The pieces joined with `sep` between consecutive ones (std `join`).
pub open spec fn join_with(parts: Seq<Seq<char>>, sep: char) -> Seq<char>
    decreases parts.len(),
{
    if parts.len() == 0 {
        Seq::empty()
    } else if parts.len() == 1 {
        parts[0]
    } else {
        join_with(parts.drop_last(), sep).push(sep) + parts.last()
    }
}

/// A block of a markdown document.
pub enum BlockView {
    Heading { level: nat, text: Seq<char> },
    Paragraph(Seq<char>),
    List { ordered: bool, items: Seq<Seq<char>> },
    Quote(Seq<Seq<char>>),
    Code { language: Option<Seq<char>>, content: Seq<char> },
    Table(Seq<Seq<Seq<char>>>),
    Rule,
    MediaImage { alt: Seq<char>, source: Seq<char> },
}

/// The table rows of each line.
pub open spec fn table_rows(lines: Seq<Seq<char>>) -> Seq<Seq<Seq<char>>> {
    lines.map_values(|l: Seq<char>| table_row_spec(l))
}

/// The quote texts of each line.
pub open spec fn quote_texts(lines: Seq<Seq<char>>) -> Seq<Seq<char>> {
    lines.map_values(|l: Seq<char>| quote_text_spec(l))
}

/// The list item texts of each line.
pub open spec fn list_items(lines: Seq<Seq<char>>) -> Seq<Seq<char>> {
    lines.map_values(|l: Seq<char>| list_item_spec(l)->0)
}

/// Whether the first character of `s` is an ASCII digit.
pub open spec fn starts_with_digit(s: Seq<char>) -> bool {
    s.len() > 0 && is_digit(s[0])
}

/// A line that is not blank keeps its start when its end is trimmed: the trimmed-at-both-ends
/// form is a non-empty prefix of the trimmed-at-the-start form.
pub proof fn lemma_trim_end_keeps_start(s: Seq<char>)
    requires
        trim(s).len() > 0,
    ensures
        trim_start(trim_end(s)).len() > 0,
        trim_start(trim_end(s)).len() <= trim_start(s).len(),
        trim_start(s).take(trim_start(trim_end(s)).len() as int) == trim_start(trim_end(s)),
{
    lemma_leading_white(s);
    lemma_trailing_white(s);
    let k = leading_white(s);
    let t = trim_start(s);
    lemma_trailing_white(t);
    assert(k < s.len()) by {
        if k == s.len() {
            assert(t.len() == 0);
        }
    }
    assert(!crate::text::unicode_white_space(s[k as int]));
    let n = (s.len() - trailing_white(s)) as nat;
    assert(n > k) by {
        if n <= k {
            assert(s.len() - trailing_white(s) <= k);
            assert(crate::text::unicode_white_space(s[k as int]));
        }
    }
    let e = trim_end(s);
    assert(e == s.take(n as int));
    assert forall|i: int| 0 <= i < k implies crate::text::unicode_white_space(#[trigger] e[i]) by {
        assert(e[i] == s[i]);
    }
    assert(e[k as int] == s[k as int]);
    crate::text::lemma_leading_white_unique(e, k);
    assert(trim_start(e) =~= s.subrange(k as int, n as int));
    assert(t.take((n - k) as int) =~= s.subrange(k as int, n as int));
}

proof fn lemma_pair_index_chars(s: Seq<char>, a: char, b: char)
    ensures
        forall|i: int| #![trigger s[i]] 0 <= i < pair_index(s, a, b) && i + 1 < s.len() ==> !(s[i] == a && s[i + 1] == b),
        pair_index(s, a, b) + 1 < s.len() ==> s[pair_index(s, a, b) as int] == a && s[pair_index(s, a, b) as int + 1] == b,
        pair_index(s, a, b) <= s.len(),
    decreases s.len(),
{
    if s.len() >= 2 && !(s[0] == a && s[1] == b) {
        let t = s.drop_first();
        lemma_pair_index_chars(t, a, b);
        assert forall|i: int| #![trigger s[i]] 0 <= i < pair_index(s, a, b) && i + 1 < s.len() implies !(s[i] == a && s[i + 1] == b) by {
            if i > 0 {
                assert(s[i] == t[i - 1]);
                assert(s[i + 1] == t[i]);
            }
        }
        if pair_index(s, a, b) + 1 < s.len() {
            assert(s[pair_index(s, a, b) as int] == t[pair_index(t, a, b) as int]);
        }
    }
}

/// A pair found inside a prefix is found at the same place in the whole sequence.
proof fn lemma_pair_index_prefix(p: Seq<char>, q: Seq<char>, a: char, b: char)
    requires
        p.len() <= q.len(),
        q.take(p.len() as int) == p,
        pair_index(p, a, b) + 1 < p.len(),
    ensures
        pair_index(q, a, b) == pair_index(p, a, b),
{
    lemma_pair_index_chars(p, a, b);
    let d = pair_index(p, a, b);
    assert forall|i: int| #![trigger q[i]] 0 <= i < d && i + 1 < q.len() implies !(q[i] == a && q[i + 1] == b) by {
        assert(q[i] == p[i]);
        assert(q[i + 1] == q.take(p.len() as int)[i + 1]);
    }
    assert(q[d as int] == p[d as int]);
    assert(q[d as int + 1] == q.take(p.len() as int)[d as int + 1]);
    lemma_pair_index_unique(q, a, b, d);
}

/// A non-blank line recognized as a quote or list item after trimming its end is also one
/// as it stands.
pub proof fn lemma_trimmed_line_kinds(s: Seq<char>)
    requires
        trim(trim_end(s)).len() > 0,
    ensures
        quote_spec(trim_end(s)) ==> quote_spec(s),
        list_item_spec(trim_end(s)) is Some ==> list_item_spec(s) is Some,
{
    crate::text::lemma_blank_iff_all_white(s);
    crate::text::lemma_blank_iff_all_white(trim_end(s));
    lemma_trailing_white(s);
    if crate::text::all_white(s) {
        assert forall|i: int| 0 <= i < trim_end(s).len() implies crate::text::unicode_white_space(#[trigger] trim_end(s)[i]) by {
            assert(trim_end(s)[i] == s[i]);
        }
    }
    lemma_trim_end_keeps_start(s);
    let p = trim_start(trim_end(s));
    let q = trim_start(s);
    if starts_with(p, seq!['>']) {
        assert(q.take(1) =~= p.take(1));
    }
    if starts_with(p, seq!['-', ' ']) || starts_with(p, seq!['*', ' ']) || starts_with(p, seq!['+', ' ']) {
        assert(q.take(2) =~= p.take(2));
    } else if list_item_spec(trim_end(s)) is Some {
        lemma_pair_index_bound(p, '.', ' ');
        lemma_pair_index_prefix(p, q, '.', ' ');
        let d = pair_index(p, '.', ' ');
        assert(q.take(d as int) =~= p.take(d as int));
        if starts_with(q, seq!['-', ' ']) || starts_with(q, seq!['*', ' ']) || starts_with(q, seq!['+', ' ']) {
        } else {
            assert(list_item_spec(s) is Some);
        }
    }
}

/// The blocks of a document given as lines, read from line `idx` on: blank lines separate
/// blocks; a fence opens a code block up to the closing fence; headings, rules and image
/// lines stand alone; a header line followed by a delimiter row starts a table that runs
/// while lines hold a `|`; quote and list blocks run while lines are quote or list lines;
/// anything else starts a paragraph that runs until a blank line or another kind of block.
pub open spec fn blocks_from(lines: Seq<Seq<char>>, idx: nat) -> Seq<BlockView>
    decreases lines.len() - idx,
{
    if idx >= lines.len() {
        Seq::empty()
    } else {
        let line = trim_end(lines[idx as int]);
        if trim(line).len() == 0 {
            blocks_from(lines, idx + 1)
        } else if fence_spec(line) is Some {
            let end = scan_while(lines, idx + 1, not_fence());
            proof { lemma_scan_while_bound(lines, idx + 1, not_fence()); }
            let next: nat = if end < lines.len() { end + 1 } else { end };
            seq![BlockView::Code {
                language: fence_spec(line)->0,
                content: join_with(lines.subrange(idx as int + 1, end as int), '\n'),
            }] + blocks_from(lines, next)
        } else if heading_spec(line) is Some {
            seq![BlockView::Heading { level: (heading_spec(line)->0).0, text: (heading_spec(line)->0).1 }]
                + blocks_from(lines, idx + 1)
        } else if rule_spec(line) {
            seq![BlockView::Rule] + blocks_from(lines, idx + 1)
        } else if image_spec(line) is Some {
            seq![BlockView::MediaImage { alt: (image_spec(line)->0).0, source: (image_spec(line)->0).1 }]
                + blocks_from(lines, idx + 1)
        } else if table_header_spec(line, if idx + 1 < lines.len() { Some(lines[idx as int + 1]) } else { None }) {
            let end = scan_while(lines, idx + 2, table_row_line());
            proof { lemma_scan_while_bound(lines, idx + 2, table_row_line()); }
            seq![BlockView::Table(seq![table_row_spec(line)] + table_rows(lines.subrange(idx as int + 2, end as int)))]
                + blocks_from(lines, end)
        } else if quote_spec(line) {
            let end = scan_while(lines, idx, quote_line());
            proof {
                lemma_trimmed_line_kinds(lines[idx as int]);
                lemma_scan_while_bound(lines, idx + 1, quote_line());
            }
            seq![BlockView::Quote(quote_texts(lines.subrange(idx as int, end as int)))] + blocks_from(lines, end)
        } else if list_item_spec(line) is Some {
            let end = scan_while(lines, idx, list_line());
            proof {
                lemma_trimmed_line_kinds(lines[idx as int]);
                lemma_scan_while_bound(lines, idx + 1, list_line());
            }
            seq![BlockView::List {
                ordered: starts_with_digit(trim_start(line)),
                items: list_items(lines.subrange(idx as int, end as int)),
            }] + blocks_from(lines, end)
        } else {
            let end = scan_while(lines, idx + 1, paragraph_line());
            proof { lemma_scan_while_bound(lines, idx + 1, paragraph_line()); }
            seq![BlockView::Paragraph(join_with(
                seq![trim(line)] + trim_all(lines.subrange(idx as int + 1, end as int)),
                ' ',
            ))] + blocks_from(lines, end)
        }
    }
}

/// Joining with `c` puts the first piece, then `c`, then the rest joined.
proof fn lemma_join_front(parts: Seq<Seq<char>>, c: char)
    requires
        parts.len() >= 2,
    ensures
        join_with(parts, c) == parts[0] + seq![c] + join_with(parts.drop_first(), c),
    decreases parts.len(),
{
    if parts.len() == 2 {
        assert(parts.drop_last() =~= seq![parts[0]]);
        assert(parts.drop_first() =~= seq![parts[1]]);
        assert(join_with(parts.drop_last(), c) == parts.drop_last()[0]);
        assert(join_with(parts.drop_first(), c) == parts.drop_first()[0]);
        assert(join_with(parts, c) =~= parts[0] + seq![c] + parts[1]);
    } else {
        lemma_join_front(parts.drop_last(), c);
        assert(parts.drop_last().drop_first() =~= parts.drop_first().drop_last());
        assert(parts.drop_first().last() == parts.last());
        assert(join_with(parts, c) =~= parts[0] + seq![c] + join_with(parts.drop_first(), c));
    }
}

/// Splitting pieces joined with `c` at `c` gives the pieces back, when none holds a `c`.
pub proof fn lemma_split_join(parts: Seq<Seq<char>>, c: char)
    requires
        parts.len() >= 1,
        forall|k: int, i: int| 0 <= k < parts.len() && 0 <= i < parts[k].len() ==> #[trigger] parts[k][i] != c,
    ensures
        split_on(join_with(parts, c), c) == parts,
    decreases parts.len(),
{
    let p0 = parts[0];
    if parts.len() == 1 {
        lemma_index_of_or_len_unique(p0, c, p0.len());
        assert(split_on(p0, c) =~= seq![p0]);
    } else {
        lemma_join_front(parts, c);
        let rest = parts.drop_first();
        let s = join_with(parts, c);
        assert forall|i: int| 0 <= i < p0.len() implies #[trigger] s[i] != c by {
            assert(s[i] == p0[i]);
            assert(parts[0][i] != c);
        }
        assert(s[p0.len() as int] == c);
        lemma_index_of_or_len_unique(s, c, p0.len());
        assert(s.take(p0.len() as int) =~= p0);
        assert(s.skip(p0.len() as int + 1) =~= join_with(rest, c));
        assert forall|k: int, i: int| 0 <= k < rest.len() && 0 <= i < rest[k].len() implies #[trigger] rest[k][i] != c by {
            assert(rest[k] == parts[k + 1]);
        }
        lemma_split_join(rest, c);
        assert(split_on(s, c) =~= parts);
    }
}

/// A fenced code block keeps its lines as they are: when line `idx` (not blank) opens a fence and line
/// `end` is the next fence line (or the end of the document), the first block read from
/// `idx` is a code block whose content, split at newlines, gives back exactly the lines
/// between the fences, leading whitespace and all; with no line between, it is empty.
pub proof fn law_code_block_keeps_its_lines(lines: Seq<Seq<char>>, idx: nat, end: nat)
    requires
        idx < end <= lines.len(),
        fence_spec(trim_end(lines[idx as int])) is Some,
        trim(trim_end(lines[idx as int])).len() > 0,
        forall|k: int| idx < k < end ==> !is_fence_line(#[trigger] lines[k]),
        end < lines.len() ==> is_fence_line(lines[end as int]),
        forall|k: int, i: int| 0 <= k < lines.len() && 0 <= i < lines[k].len() ==> #[trigger] lines[k][i] != '\n',
    ensures
        blocks_from(lines, idx).len() > 0,
        blocks_from(lines, idx)[0] is Code,
        blocks_from(lines, idx)[0]->language == fence_spec(trim_end(lines[idx as int]))->0,
        end == idx + 1 ==> blocks_from(lines, idx)[0]->content.len() == 0,
        end > idx + 1 ==> split_on(blocks_from(lines, idx)[0]->content, '\n') == lines.subrange(idx as int + 1, end as int),
{
    lemma_scan_while_unique(lines, idx + 1, not_fence(), end);
    let mid = lines.subrange(idx as int + 1, end as int);
    if end > idx + 1 {
        assert forall|k: int, i: int| 0 <= k < mid.len() && 0 <= i < mid[k].len() implies #[trigger] mid[k][i] != '\n' by {
            assert(mid[k] == lines[k + idx + 1]);
        }
        lemma_split_join(mid, '\n');
    } else {
        assert(mid =~= Seq::<Seq<char>>::empty());
    }
}

/// The lines of a text hold no newline.
pub proof fn lemma_lines_have_no_newline(s: Seq<char>)
    ensures
        forall|k: int, i: int| 0 <= k < lines_of(s).len() && 0 <= i < lines_of(s)[k].len() ==> #[trigger] lines_of(s)[k][i] != '\n',
    decreases s.len(),
{
    if s.len() > 0 {
        let e = index_of_or_len(s, '\n');
        lemma_index_of_or_len(s, '\n');
        if e < s.len() {
            lemma_lines_have_no_newline(s.skip(e as int + 1));
            let first = strip_cr(s.take(e as int));
            let ls = lines_of(s);
            assert(ls == seq![first] + lines_of(s.skip(e as int + 1)));
            assert forall|k: int, i: int| 0 <= k < ls.len() && 0 <= i < ls[k].len() implies #[trigger] ls[k][i] != '\n' by {
                if k == 0 {
                    assert(ls[0] == first);
                    assert(first[i] == s[i]);
                } else {
                    assert(ls[k] == lines_of(s.skip(e as int + 1))[k - 1]);
                }
            }
        }
    }
}

/// In a document, a fenced code block keeps its lines as they are (see
/// `law_code_block_keeps_its_lines`): the content of the code block that the fence at line
/// `idx` opens, split at newlines, is the document's lines between that fence and the next.
pub proof fn law_document_code_block_keeps_its_lines(content: Seq<char>, idx: nat, end: nat)
    requires
        idx < end <= lines_of(content).len(),
        fence_spec(trim_end(lines_of(content)[idx as int])) is Some,
        trim(trim_end(lines_of(content)[idx as int])).len() > 0,
        forall|k: int| idx < k < end ==> !is_fence_line(#[trigger] lines_of(content)[k]),
        end < lines_of(content).len() ==> is_fence_line(lines_of(content)[end as int]),
    ensures
        blocks_from(lines_of(content), idx)[0] is Code,
        end > idx + 1 ==> split_on(blocks_from(lines_of(content), idx)[0]->content, '\n')
            == lines_of(content).subrange(idx as int + 1, end as int),
{
    lemma_lines_have_no_newline(content);
    law_code_block_keeps_its_lines(lines_of(content), idx, end);
}

/// `scan_while` never moves backwards and stops within the lines.
pub proof fn lemma_scan_while_bound(lines: Seq<Seq<char>>, i: nat, p: spec_fn(Seq<char>) -> bool)
    requires
        i <= lines.len(),
    ensures
        i <= scan_while(lines, i, p) <= lines.len(),
        forall|k: int| i <= k < scan_while(lines, i, p) ==> p(#[trigger] lines[k]),
        scan_while(lines, i, p) < lines.len() ==> !p(lines[scan_while(lines, i, p) as int]),
    decreases lines.len() - i,
{
    if i < lines.len() && p(lines[i as int]) {
        lemma_scan_while_bound(lines, i + 1, p);
    }
}

/// A block of a markdown document, as parsed.
#[derive(Debug, Clone)]
pub enum Block {
    Heading { level: usize, text: Vec<char> },
    Paragraph(Vec<char>),
    List { ordered: bool, items: Vec<Vec<char>> },
    Quote(Vec<Vec<char>>),
    Code { language: Option<Vec<char>>, content: Vec<char> },
    Table(Vec<Vec<Vec<char>>>),
    Rule,
    MediaImage { alt: Vec<char>, source: Vec<char> },
}

/// The cells of each table row.
pub open spec fn row_cells(rows: Seq<Vec<Vec<char>>>) -> Seq<Seq<Seq<char>>> {
    rows.map_values(|r: Vec<Vec<char>>| char_rows(r@))
}

/// The abstract block a parsed block stands for.
pub open spec fn block_view(b: Block) -> BlockView {
    match b {
        Block::Heading { level, text } => BlockView::Heading { level: level as nat, text: text@ },
        Block::Paragraph(text) => BlockView::Paragraph(text@),
        Block::List { ordered, items } => BlockView::List { ordered, items: char_rows(items@) },
        Block::Quote(items) => BlockView::Quote(char_rows(items@)),
        Block::Code { language, content } => BlockView::Code {
            language: match language { Some(l) => Some(l@), None => None },
            content: content@,
        },
        Block::Table(rows) => BlockView::Table(row_cells(rows@)),
        Block::Rule => BlockView::Rule,
        Block::MediaImage { alt, source } => BlockView::MediaImage { alt: alt@, source: source@ },
    }
}

/// The abstract blocks of a sequence of parsed blocks.
pub open spec fn blocks_view(v: Seq<Block>) -> Seq<BlockView> {
    v.map_values(|b: Block| block_view(b))
}

/// A copy of a character vector.
fn copy_chars(v: &Vec<char>) -> (r: Vec<char>)
    ensures
        r@ == v@,
{
    let r = v.clone();
    assert(r@ =~= v@);
    r
}

/// Appends copies of `lines[from..to]` to `out`.
fn append_lines(out: &mut Vec<Vec<char>>, lines: &Vec<Vec<char>>, from: usize, to: usize)
    requires
        from <= to <= lines.len(),
    ensures
        char_rows(final(out)@) == char_rows(old(out)@) + char_rows(lines@).subrange(from as int, to as int),
{
    let ghost start = char_rows(out@);
    let mut j = from;
    while j < to
        invariant
            from <= j <= to <= lines.len(),
            char_rows(out@) == start + char_rows(lines@).subrange(from as int, j as int),
        decreases to - j,
    {
        let ghost before = char_rows(out@);
        let line = copy_chars(&lines[j]);
        out.push(line);
        proof {
            assert(char_rows(out@) =~= before.push(lines@[j as int]@));
            assert(char_rows(lines@).subrange(from as int, j + 1) =~= char_rows(lines@).subrange(from as int, j as int).push(lines@[j as int]@));
        }
        j = j + 1;
        assert(char_rows(out@) =~= start + char_rows(lines@).subrange(from as int, j as int));
    }
}

/// Appends `lines[from..to]`, each trimmed, to `out`.
fn append_trimmed(out: &mut Vec<Vec<char>>, lines: &Vec<Vec<char>>, from: usize, to: usize)
    requires
        from <= to <= lines.len(),
    ensures
        char_rows(final(out)@) == char_rows(old(out)@) + trim_all(char_rows(lines@).subrange(from as int, to as int)),
{
    let ghost start = char_rows(out@);
    let mut j = from;
    while j < to
        invariant
            from <= j <= to <= lines.len(),
            char_rows(out@) == start + trim_all(char_rows(lines@).subrange(from as int, j as int)),
        decreases to - j,
    {
        let ghost before = char_rows(out@);
        let t = crate::text::trim_chars(lines[j].as_slice());
        out.push(t);
        proof {
            assert(char_rows(out@) =~= before.push(trim(lines@[j as int]@)));
            assert(char_rows(lines@).subrange(from as int, j + 1) =~= char_rows(lines@).subrange(from as int, j as int).push(lines@[j as int]@));
            assert(trim_all(char_rows(lines@).subrange(from as int, j + 1)) =~= trim_all(char_rows(lines@).subrange(from as int, j as int)).push(trim(lines@[j as int]@)));
        }
        j = j + 1;
        assert(char_rows(out@) =~= start + trim_all(char_rows(lines@).subrange(from as int, j as int)));
    }
}

/// The quote texts of `lines[from..to]`.
fn collect_quote_texts(lines: &Vec<Vec<char>>, from: usize, to: usize) -> (r: Vec<Vec<char>>)
    requires
        from <= to <= lines.len(),
    ensures
        char_rows(r@) == quote_texts(char_rows(lines@).subrange(from as int, to as int)),
{
    let mut r: Vec<Vec<char>> = Vec::new();
    let mut j = from;
    while j < to
        invariant
            from <= j <= to <= lines.len(),
            char_rows(r@) == quote_texts(char_rows(lines@).subrange(from as int, j as int)),
        decreases to - j,
    {
        let ghost before = char_rows(r@);
        let t = quote_text(lines[j].as_slice());
        r.push(t);
        proof {
            assert(char_rows(r@) =~= before.push(quote_text_spec(lines@[j as int]@)));
            assert(char_rows(lines@).subrange(from as int, j + 1) =~= char_rows(lines@).subrange(from as int, j as int).push(lines@[j as int]@));
            assert(quote_texts(char_rows(lines@).subrange(from as int, j + 1)) =~= quote_texts(char_rows(lines@).subrange(from as int, j as int)).push(quote_text_spec(lines@[j as int]@)));
        }
        j = j + 1;
    }
    r
}

/// Appends the table rows of `lines[from..to]` to `rows`.
fn append_table_rows(rows: &mut Vec<Vec<Vec<char>>>, lines: &Vec<Vec<char>>, from: usize, to: usize)
    requires
        from <= to <= lines.len(),
    ensures
        row_cells(final(rows)@) == row_cells(old(rows)@) + table_rows(char_rows(lines@).subrange(from as int, to as int)),
{
    let ghost start = row_cells(rows@);
    let mut j = from;
    while j < to
        invariant
            from <= j <= to <= lines.len(),
            row_cells(rows@) == start + table_rows(char_rows(lines@).subrange(from as int, j as int)),
        decreases to - j,
    {
        let ghost before = row_cells(rows@);
        let t = split_table_row(lines[j].as_slice());
        rows.push(t);
        proof {
            assert(row_cells(rows@) =~= before.push(table_row_spec(lines@[j as int]@)));
            assert(char_rows(lines@).subrange(from as int, j + 1) =~= char_rows(lines@).subrange(from as int, j as int).push(lines@[j as int]@));
            assert(table_rows(char_rows(lines@).subrange(from as int, j + 1)) =~= table_rows(char_rows(lines@).subrange(from as int, j as int)).push(table_row_spec(lines@[j as int]@)));
        }
        j = j + 1;
        assert(row_cells(rows@) =~= start + table_rows(char_rows(lines@).subrange(from as int, j as int)));
    }
}

/// The pieces joined with `sep`.
fn join_chars(parts: &Vec<Vec<char>>, sep: char) -> (r: Vec<char>)
    ensures
        r@ == join_with(char_rows(parts@), sep),
{
    let mut r: Vec<char> = Vec::new();
    let mut k: usize = 0;
    while k < parts.len()
        invariant
            k <= parts.len(),
            r@ == join_with(char_rows(parts@).take(k as int), sep),
        decreases parts.len() - k,
    {
        let ghost prefix = char_rows(parts@).take(k as int);
        if k > 0 {
            r.push(sep);
        }
        let piece = &parts[k];
        let mut i: usize = 0;
        let ghost start = r@;
        while i < piece.len()
            invariant
                i <= piece.len(),
                r@ == start + piece@.take(i as int),
            decreases piece.len() - i,
        {
            r.push(piece[i]);
            i = i + 1;
            assert(piece@.take(i as int) =~= piece@.take((i - 1) as int).push(piece@[i - 1]));
        }
        assert(piece@.take(piece.len() as int) =~= piece@);
        k = k + 1;
        proof {
            let next = char_rows(parts@).take(k as int);
            assert(next.drop_last() =~= prefix);
            assert(next.last() == piece@);
            if k == 1 {
                assert(join_with(prefix, sep) =~= Seq::<char>::empty());
                assert(r@ =~= join_with(next, sep));
            } else {
                assert(r@ =~= join_with(next, sep));
            }
        }
    }
    assert(char_rows(parts@).take(parts.len() as int) =~= char_rows(parts@));
    r
}

/// Whether the first character of `v` is an ASCII digit.
fn starts_with_digit_exec(v: &[char]) -> (r: bool)
    ensures
        r == starts_with_digit(v@),
{
    v.len() > 0 && '0' <= v[0] && v[0] <= '9'
}

/// The first position at or after `from` where `p` fails for the lines, or the end.
fn scan_not_fence(lines: &Vec<Vec<char>>, from: usize) -> (r: usize)
    requires
        from <= lines.len(),
    ensures
        r == scan_while(char_rows(lines@), from as nat, not_fence()),
        from <= r <= lines.len(),
{
    let mut j = from;
    while j < lines.len() && !is_fence_line_exec(lines[j].as_slice())
        invariant
            from <= j <= lines.len(),
            forall|k: int| from <= k < j ==> #[trigger] (not_fence())(char_rows(lines@)[k]),
        decreases lines.len() - j,
    {
        assert((not_fence())(char_rows(lines@)[j as int]));
        j = j + 1;
    }
    proof { lemma_scan_while_unique(char_rows(lines@), from as nat, not_fence(), j as nat); }
    j
}

fn scan_table_rows(lines: &Vec<Vec<char>>, from: usize) -> (r: usize)
    requires
        from <= lines.len(),
    ensures
        r == scan_while(char_rows(lines@), from as nat, table_row_line()),
        from <= r <= lines.len(),
{
    let mut j = from;
    while j < lines.len() && chars_have(lines[j].as_slice(), '|') && !is_blank(lines[j].as_slice())
        invariant
            from <= j <= lines.len(),
            forall|k: int| from <= k < j ==> #[trigger] (table_row_line())(char_rows(lines@)[k]),
        decreases lines.len() - j,
    {
        assert((table_row_line())(char_rows(lines@)[j as int]));
        j = j + 1;
    }
    proof { lemma_scan_while_unique(char_rows(lines@), from as nat, table_row_line(), j as nat); }
    j
}

fn scan_quote(lines: &Vec<Vec<char>>, from: usize) -> (r: usize)
    requires
        from <= lines.len(),
    ensures
        r == scan_while(char_rows(lines@), from as nat, quote_line()),
        from <= r <= lines.len(),
{
    let mut j = from;
    while j < lines.len() && is_quote_line(lines[j].as_slice())
        invariant
            from <= j <= lines.len(),
            forall|k: int| from <= k < j ==> #[trigger] (quote_line())(char_rows(lines@)[k]),
        decreases lines.len() - j,
    {
        assert((quote_line())(char_rows(lines@)[j as int]));
        j = j + 1;
    }
    proof { lemma_scan_while_unique(char_rows(lines@), from as nat, quote_line(), j as nat); }
    j
}

/// The list items of `lines[from..]` while they are list items; returns the items and the
/// position of the first line that is not one.
fn scan_list(lines: &Vec<Vec<char>>, from: usize) -> (r: (Vec<Vec<char>>, usize))
    requires
        from <= lines.len(),
    ensures
        r.1 == scan_while(char_rows(lines@), from as nat, list_line()),
        from <= r.1 <= lines.len(),
        char_rows(r.0@) == list_items(char_rows(lines@).subrange(from as int, r.1 as int)),
{
    let mut items: Vec<Vec<char>> = Vec::new();
    let mut j = from;
    loop
        invariant
            from <= j <= lines.len(),
            forall|k: int| from <= k < j ==> #[trigger] (list_line())(char_rows(lines@)[k]),
            char_rows(items@) == list_items(char_rows(lines@).subrange(from as int, j as int)),
        ensures
            from <= j <= lines.len(),
            forall|k: int| from <= k < j ==> #[trigger] (list_line())(char_rows(lines@)[k]),
            char_rows(items@) == list_items(char_rows(lines@).subrange(from as int, j as int)),
            j < lines.len() ==> !(list_line())(char_rows(lines@)[j as int]),
        decreases lines.len() - j,
    {
        if j >= lines.len() {
            break;
        }
        match parse_list_item(lines[j].as_slice()) {
            Some(item) => {
                assert((list_line())(char_rows(lines@)[j as int]));
                let ghost before = char_rows(items@);
                items.push(item);
                proof {
                    assert(char_rows(items@) =~= before.push(list_item_spec(lines@[j as int]@)->0));
                    assert(char_rows(lines@).subrange(from as int, j + 1) =~= char_rows(lines@).subrange(from as int, j as int).push(lines@[j as int]@));
                    assert(list_items(char_rows(lines@).subrange(from as int, j + 1)) =~= list_items(char_rows(lines@).subrange(from as int, j as int)).push(list_item_spec(lines@[j as int]@)->0));
                }
                j = j + 1;
            },
            None => {
                assert(!(list_line())(char_rows(lines@)[j as int]));
                break;
            },
        }
    }
    proof { lemma_scan_while_unique(char_rows(lines@), from as nat, list_line(), j as nat); }
    (items, j)
}

fn scan_paragraph(lines: &Vec<Vec<char>>, from: usize) -> (r: usize)
    requires
        from <= lines.len(),
    ensures
        r == scan_while(char_rows(lines@), from as nat, paragraph_line()),
        from <= r <= lines.len(),
{
    let mut j = from;
    loop
        invariant
            from <= j <= lines.len(),
            forall|k: int| from <= k < j ==> #[trigger] (paragraph_line())(char_rows(lines@)[k]),
        ensures
            from <= j <= lines.len(),
            forall|k: int| from <= k < j ==> #[trigger] (paragraph_line())(char_rows(lines@)[k]),
            j < lines.len() ==> !(paragraph_line())(char_rows(lines@)[j as int]),
        decreases lines.len() - j,
    {
        if j >= lines.len() {
            break;
        }
        let l = lines[j].as_slice();
        let continues = !is_blank(l) && parse_heading(l).is_none() && parse_list_item(l).is_none()
            && parse_fence_start(l).is_none() && !is_quote_line(l) && !is_rule(l);
        if !continues {
            assert(!(paragraph_line())(char_rows(lines@)[j as int]));
            break;
        }
        assert((paragraph_line())(char_rows(lines@)[j as int]));
        j = j + 1;
    }
    proof { lemma_scan_while_unique(char_rows(lines@), from as nat, paragraph_line(), j as nat); }
    j
}

/// One step of block parsing at line `idx`: the block that starts there, if the line is
/// not blank, and the line after it.
#[verifier::rlimit(40)]
fn parse_step(lines: &Vec<Vec<char>>, idx: usize, out: &mut Vec<Block>) -> (next: usize)
    requires
        idx < lines.len(),
    ensures
        idx < next <= lines.len(),
        blocks_view(final(out)@) + blocks_from(char_rows(lines@), next as nat)
            == blocks_view(old(out)@) + blocks_from(char_rows(lines@), idx as nat),
{
    let ghost l = char_rows(lines@);
    let n = lines.len();
    {
        let ghost before = blocks_view(out@);
        assert(l[idx as int] == lines@[idx as int]@);
        let line = trim_end_chars(lines[idx].as_slice());
        if is_blank(line.as_slice()) {
            return idx + 1;
        }
        let fence_opt = parse_fence_start(line.as_slice());
        if let Some(language) = fence_opt {
            let end = scan_not_fence(lines, idx + 1);
            let mut body: Vec<Vec<char>> = Vec::new();
            append_lines(&mut body, lines, idx + 1, end);
            proof { assert(char_rows(body@) =~= l.subrange(idx as int + 1, end as int)); }
            let content = join_chars(&body, '\n');
            let next = if end < n { end + 1 } else { end };
            let block = Block::Code { language, content };
            out.push(block);
            proof {
                assert(blocks_view(out@) =~= before.push(block_view(block)));
                assert(blocks_view(out@) + blocks_from(l, next as nat) =~= before + blocks_from(l, idx as nat));
            }
            return next;
        }
        let heading_opt = parse_heading(line.as_slice());
        if let Some((level, text)) = heading_opt {
            let block = Block::Heading { level, text };
            out.push(block);
            proof {
                assert(blocks_view(out@) =~= before.push(block_view(block)));
                assert(blocks_view(out@) + blocks_from(l, idx as nat + 1) =~= before + blocks_from(l, idx as nat));
            }
            return idx + 1;
        }
        if is_rule(line.as_slice()) {
            out.push(Block::Rule);
            proof {
                assert(blocks_view(out@) =~= before.push(BlockView::Rule));
                assert(blocks_view(out@) + blocks_from(l, idx as nat + 1) =~= before + blocks_from(l, idx as nat));
            }
            return idx + 1;
        }
        let image_opt = parse_image_line(line.as_slice());
        if let Some((alt, source)) = image_opt {
            let block = Block::MediaImage { alt, source };
            out.push(block);
            proof {
                assert(blocks_view(out@) =~= before.push(block_view(block)));
                assert(blocks_view(out@) + blocks_from(l, idx as nat + 1) =~= before + blocks_from(l, idx as nat));
            }
            return idx + 1;
        }
        let next_line: Option<&[char]> = if idx + 1 < n { Some(lines[idx + 1].as_slice()) } else { None };
        proof {
            if idx + 1 < n {
                assert(l[idx as int + 1] == lines@[idx as int + 1]@);
            }
            assert(opt_chars(next_line) == (if idx + 1 < l.len() { Some(l[idx as int + 1]) } else { None }));
        }
        if is_table_header(line.as_slice(), next_line) {
            let end = scan_table_rows(lines, idx + 2);
            let mut rows: Vec<Vec<Vec<char>>> = Vec::new();
            rows.push(split_table_row(line.as_slice()));
            proof { assert(row_cells(rows@) =~= seq![table_row_spec(line@)]); }
            append_table_rows(&mut rows, lines, idx + 2, end);
            let block = Block::Table(rows);
            out.push(block);
            proof {
                assert(blocks_view(out@) =~= before.push(block_view(block)));
                assert(blocks_view(out@) + blocks_from(l, end as nat) =~= before + blocks_from(l, idx as nat));
            }
            return end;
        }
        if is_quote_line(line.as_slice()) {
            proof {
                lemma_trimmed_line_kinds(l[idx as int]);
            }
            let end = scan_quote(lines, idx);
            let items = collect_quote_texts(lines, idx, end);
            let block = Block::Quote(items);
            out.push(block);
            proof {
                assert(blocks_view(out@) =~= before.push(block_view(block)));
                assert(blocks_view(out@) + blocks_from(l, end as nat) =~= before + blocks_from(l, idx as nat));
            }
            return end;
        }
        let item_opt = parse_list_item(line.as_slice());
        if item_opt.is_some() {
            proof {
                lemma_trimmed_line_kinds(l[idx as int]);
            }
            let start = trim_start_chars(line.as_slice());
            let ordered = starts_with_digit_exec(start.as_slice());
            let (items, end) = scan_list(lines, idx);
            let block = Block::List { ordered, items };
            out.push(block);
            proof {
                assert(blocks_view(out@) =~= before.push(block_view(block)));
                assert(blocks_view(out@) + blocks_from(l, end as nat) =~= before + blocks_from(l, idx as nat));
            }
            return end;
        }
        let end = scan_paragraph(lines, idx + 1);
        let mut parts: Vec<Vec<char>> = Vec::new();
        parts.push(crate::text::trim_chars(line.as_slice()));
        proof { assert(char_rows(parts@) =~= seq![trim(line@)]); }
        append_trimmed(&mut parts, lines, idx + 1, end);
        let text = join_chars(&parts, ' ');
        let block = Block::Paragraph(text);
        out.push(block);
        proof {
            assert(blocks_view(out@) =~= before.push(block_view(block)));
            assert(blocks_view(out@) + blocks_from(l, end as nat) =~= before + blocks_from(l, idx as nat));
        }
        end
    }
}

/// The blocks of the lines.
fn parse_lines(lines: &Vec<Vec<char>>) -> (r: Vec<Block>)
    ensures
        blocks_view(r@) == blocks_from(char_rows(lines@), 0),
{
    let ghost l = char_rows(lines@);
    let n = lines.len();
    let mut out: Vec<Block> = Vec::new();
    let mut idx: usize = 0;
    proof { assert(blocks_view(out@) =~= Seq::<BlockView>::empty()); }
    while idx < n
        invariant
            n == lines.len(),
            l == char_rows(lines@),
            idx <= n,
            blocks_view(out@) + blocks_from(l, idx as nat) == blocks_from(l, 0),
        decreases n - idx,
    {
        idx = parse_step(lines, idx, &mut out);
    }
    proof {
        assert(blocks_from(l, idx as nat) =~= Seq::<BlockView>::empty());
        assert(blocks_view(out@) =~= blocks_from(l, 0));
    }
    out
}

/// The markdown blocks of `content`.
pub fn parse_blocks(content: &str) -> (r: Vec<Block>)
    ensures
        blocks_view(r@) == blocks_from(lines_of(content@), 0),
{
    let lines = split_lines(content);
    parse_lines(&lines)
}

} // verus!
