//! Character-level helpers shared by the parsers and formatters of this crate.
use vstd::prelude::*;

verus! {

/// Appends one character to a `String` (std `String::push`).
/// Trusted: the new contents are the old contents followed by `c`, as the std documentation says.
#[verifier::external_body]
pub fn push_char(s: &mut String, c: char)
    ensures
        final(s)@ == old(s)@.push(c),
{
    s.push(c);
}

/// The characters of `s`, in order.
pub fn chars_of(s: &str) -> (r: Vec<char>)
    ensures
        r@ == s@,
{
    broadcast use vstd::string::axiom_spec_iter;
    let mut r: Vec<char> = Vec::new();
    for c in it: s.chars()
        invariant
            it.seq() == s@,
            r@ == s@.take(it.index() as int),
    {
        proof {
            assert(s@.take(it.index() as int + 1) =~= s@.take(it.index() as int).push(c));
        }
        r.push(c);
    }
    assert(r@ =~= s@);
    r
}

/// The decimal representation of a natural number, most significant digit first.
pub open spec fn decimal_digits(n: nat) -> Seq<char>
    decreases n,
{
    if n < 10 {
        seq![digit_char(n)]
    } else {
        decimal_digits(n / 10).push(digit_char(n % 10))
    }
}

/// The ASCII digit for a value below ten.
pub open spec fn digit_char(d: nat) -> char {
    if d == 0 { '0' }
    else if d == 1 { '1' }
    else if d == 2 { '2' }
    else if d == 3 { '3' }
    else if d == 4 { '4' }
    else if d == 5 { '5' }
    else if d == 6 { '6' }
    else if d == 7 { '7' }
    else if d == 8 { '8' }
    else { '9' }
}

fn digit_char_exec(d: u64) -> (c: char)
    requires
        d < 10,
    ensures
        c == digit_char(d as nat),
{
    if d == 0 { '0' }
    else if d == 1 { '1' }
    else if d == 2 { '2' }
    else if d == 3 { '3' }
    else if d == 4 { '4' }
    else if d == 5 { '5' }
    else if d == 6 { '6' }
    else if d == 7 { '7' }
    else if d == 8 { '8' }
    else { '9' }
}

/// Appends the decimal representation of `n` to `out`.
pub fn push_decimal(out: &mut String, n: u64)
    ensures
        final(out)@ == old(out)@ + decimal_digits(n as nat),
    decreases n,
{
    if n < 10 {
        push_char(out, digit_char_exec(n));
    } else {
        push_decimal(out, n / 10);
        push_char(out, digit_char_exec(n % 10));
    }
}

/// `s` with `t` appended, as a `String`.
pub fn concat_str(s: String, t: &str) -> (r: String)
    ensures
        r@ == s@ + t@,
{
    let mut r = s;
    r.append(t);
    r
}

/// The Unicode `White_Space` property of a character, as std's `char::is_whitespace` reports it.
pub uninterp spec fn unicode_white_space(c: char) -> bool;

/// Whether `c` is whitespace (std `char::is_whitespace`).
/// Trusted: the result is the character's Unicode `White_Space` property; within ASCII
/// that property holds exactly for space and the controls tab through carriage return.
#[verifier::external_body]
pub fn is_whitespace(c: char) -> (r: bool)
    ensures
        r == unicode_white_space(c),
        (c as u32) < 128 ==> (r <==> (c == ' ' || ('\t' <= c && c <= '\r'))),
{
    c.is_whitespace()
}

/// Builds a `String` from characters, in order.
pub fn string_from_chars(v: &[char]) -> (r: String)
    ensures
        r@ == v@,
{
    let mut r = String::new();
    let mut i: usize = 0;
    while i < v.len()
        invariant
            i <= v@.len(),
            r@ == v@.take(i as int),
        decreases v@.len() - i,
    {
        proof {
            assert(v@.take(i as int + 1) =~= v@.take(i as int).push(v@[i as int]));
        }
        push_char(&mut r, v[i]);
        i = i + 1;
    }
    proof {
        assert(v@.take(v@.len() as int) =~= v@);
    }
    r
}

/// Whether every character of `s` is whitespace.
pub open spec fn all_white(s: Seq<char>) -> bool {
    forall|i: int| 0 <= i < s.len() ==> unicode_white_space(#[trigger] s[i])
}

/// The number of whitespace characters at the start of `s`.
pub open spec fn leading_white(s: Seq<char>) -> nat
    decreases s.len(),
{
    if s.len() == 0 {
        0
    } else if unicode_white_space(s[0]) {
        1 + leading_white(s.drop_first())
    } else {
        0
    }
}

/// The number of whitespace characters at the end of `s`.
pub open spec fn trailing_white(s: Seq<char>) -> nat
    decreases s.len(),
{
    if s.len() == 0 {
        0
    } else if unicode_white_space(s.last()) {
        1 + trailing_white(s.drop_last())
    } else {
        0
    }
}

/// `s` without its leading whitespace (std `str::trim_start`).
pub open spec fn trim_start(s: Seq<char>) -> Seq<char> {
    s.skip(leading_white(s) as int)
}

/// `s` without its trailing whitespace (std `str::trim_end`).
pub open spec fn trim_end(s: Seq<char>) -> Seq<char> {
    s.take(s.len() - trailing_white(s))
}

/// `s` without leading and trailing whitespace (std `str::trim`).
pub open spec fn trim(s: Seq<char>) -> Seq<char> {
    trim_end(trim_start(s))
}

/// Characterization of `leading_white`: it counts a whitespace prefix that is followed by
/// the end or by a non-whitespace character.
pub proof fn lemma_leading_white(s: Seq<char>)
    ensures
        leading_white(s) <= s.len(),
        forall|i: int| 0 <= i < leading_white(s) ==> unicode_white_space(#[trigger] s[i]),
        leading_white(s) < s.len() ==> !unicode_white_space(s[leading_white(s) as int]),
    decreases s.len(),
{
    if s.len() > 0 && unicode_white_space(s[0]) {
        lemma_leading_white(s.drop_first());
        assert forall|i: int| 0 <= i < leading_white(s) implies unicode_white_space(#[trigger] s[i]) by {
            if i > 0 {
                assert(s[i] == s.drop_first()[i - 1]);
            }
        }
    }
}

/// A whitespace prefix followed by the end or a non-whitespace character is `leading_white`.
pub proof fn lemma_leading_white_unique(s: Seq<char>, k: nat)
    requires
        k <= s.len(),
        forall|i: int| 0 <= i < k ==> unicode_white_space(#[trigger] s[i]),
        k < s.len() ==> !unicode_white_space(s[k as int]),
    ensures
        leading_white(s) == k,
    decreases s.len(),
{
    if k > 0 {
        assert(unicode_white_space(s[0]));
        assert forall|i: int| 0 <= i < k - 1 implies unicode_white_space(#[trigger] s.drop_first()[i]) by {
            assert(s.drop_first()[i] == s[i + 1]);
        }
        if k < s.len() {
            assert(s.drop_first()[k - 1] == s[k as int]);
        }
        lemma_leading_white_unique(s.drop_first(), (k - 1) as nat);
    }
}

/// Characterization of `trailing_white`, mirroring `lemma_leading_white`.
pub proof fn lemma_trailing_white(s: Seq<char>)
    ensures
        trailing_white(s) <= s.len(),
        forall|i: int| s.len() - trailing_white(s) <= i < s.len() ==> unicode_white_space(#[trigger] s[i]),
        trailing_white(s) < s.len() ==> !unicode_white_space(s[s.len() - trailing_white(s) - 1]),
    decreases s.len(),
{
    if s.len() > 0 && unicode_white_space(s.last()) {
        lemma_trailing_white(s.drop_last());
        assert forall|i: int| s.len() - trailing_white(s) <= i < s.len() implies unicode_white_space(#[trigger] s[i]) by {
            if i < s.len() - 1 {
                assert(s[i] == s.drop_last()[i]);
            }
        }
        if trailing_white(s) < s.len() {
            assert(s[s.len() - trailing_white(s) - 1] == s.drop_last()[s.drop_last().len() - trailing_white(s.drop_last()) - 1]);
        }
    }
}

/// A whitespace suffix preceded by the start or a non-whitespace character is `trailing_white`.
pub proof fn lemma_trailing_white_unique(s: Seq<char>, k: nat)
    requires
        k <= s.len(),
        forall|i: int| s.len() - k <= i < s.len() ==> unicode_white_space(#[trigger] s[i]),
        k < s.len() ==> !unicode_white_space(s[s.len() - k - 1]),
    ensures
        trailing_white(s) == k,
    decreases s.len(),
{
    if k > 0 {
        assert(unicode_white_space(s.last()));
        let t = s.drop_last();
        assert forall|i: int| t.len() - (k - 1) <= i < t.len() implies unicode_white_space(#[trigger] t[i]) by {
            assert(t[i] == s[i]);
        }
        if k < s.len() {
            assert(t[t.len() - (k - 1) - 1] == s[s.len() - k - 1]);
        }
        lemma_trailing_white_unique(t, (k - 1) as nat);
    }
}

/// A sequence trims to nothing exactly when it is all whitespace.
pub proof fn lemma_blank_iff_all_white(s: Seq<char>)
    ensures
        (trim(s).len() == 0) == all_white(s),
{
    lemma_leading_white(s);
    let n = leading_white(s);
    if n == s.len() {
        assert(trim_start(s).len() == 0);
    } else {
        let t = trim_start(s);
        assert(t[0] == s[n as int]);
        lemma_trailing_white(t);
        assert(trailing_white(t) < t.len()) by {
            if trailing_white(t) == t.len() {
                assert(unicode_white_space(t[0]));
            }
        }
    }
}

/// The number of leading whitespace characters of `v`.
pub fn leading_white_len(v: &[char]) -> (n: usize)
    ensures
        n == leading_white(v@),
{
    let mut i: usize = 0;
    while i < v.len() && is_whitespace(v[i])
        invariant
            i <= v.len(),
            forall|k: int| 0 <= k < i ==> unicode_white_space(#[trigger] v@[k]),
        decreases v.len() - i,
    {
        i = i + 1;
    }
    proof {
        lemma_leading_white_unique(v@, i as nat);
    }
    i
}

/// The number of trailing whitespace characters of `v`.
pub fn trailing_white_len(v: &[char]) -> (n: usize)
    ensures
        n == trailing_white(v@),
{
    let mut k: usize = 0;
    while k < v.len() && is_whitespace(v[v.len() - 1 - k])
        invariant
            k <= v.len(),
            forall|i: int| v.len() - k <= i < v.len() ==> unicode_white_space(#[trigger] v@[i]),
        decreases v.len() - k,
    {
        k = k + 1;
    }
    proof {
        lemma_trailing_white_unique(v@, k as nat);
    }
    k
}

/// The characters `v[from..to]`.
pub fn sub_chars(v: &[char], from: usize, to: usize) -> (r: Vec<char>)
    requires
        from <= to <= v.len(),
    ensures
        r@ == v@.subrange(from as int, to as int),
{
    let mut r: Vec<char> = Vec::new();
    let mut i = from;
    while i < to
        invariant
            from <= i <= to <= v.len(),
            r@ == v@.subrange(from as int, i as int),
        decreases to - i,
    {
        r.push(v[i]);
        i = i + 1;
        assert(r@ =~= v@.subrange(from as int, i as int));
    }
    r
}

/// `v` without leading and trailing whitespace.
pub fn trim_chars(v: &[char]) -> (r: Vec<char>)
    ensures
        r@ == trim(v@),
{
    let start = leading_white_len(v);
    proof {
        lemma_leading_white(v@);
    }
    let rest = sub_chars(v, start, v.len());
    let end = trailing_white_len(rest.as_slice());
    proof {
        lemma_trailing_white(rest@);
    }
    sub_chars(rest.as_slice(), 0, rest.len() - end)
}

/// Whether `v` holds only whitespace (so that trimming leaves nothing).
pub fn is_blank(v: &[char]) -> (r: bool)
    ensures
        r == all_white(v@),
        r == (trim(v@).len() == 0),
{
    let n = leading_white_len(v);
    proof {
        lemma_leading_white(v@);
        if n == v.len() {
            assert(trim_start(v@).len() == 0);
        } else {
            assert(!unicode_white_space(v@[n as int]));
            let t = trim_start(v@);
            assert(t[0] == v@[n as int]);
            lemma_trailing_white(t);
            assert(trailing_white(t) < t.len()) by {
                if trailing_white(t) == t.len() {
                    assert(unicode_white_space(t[0]));
                }
            }
        }
    }
    n == v.len()
}

/// Whether `s` holds only whitespace.
pub fn str_is_blank(s: &str) -> (r: bool)
    ensures
        r == all_white(s@),
        r == (trim(s@).len() == 0),
{
    let v = chars_of(s);
    is_blank(v.as_slice())
}

/// `s` without leading and trailing whitespace, as a new `String`.
pub fn trimmed_string(s: &str) -> (r: String)
    ensures
        r@ == trim(s@),
{
    let v = chars_of(s);
    let t = trim_chars(v.as_slice());
    string_from_chars(t.as_slice())
}

} // verus!
