//! Gathering API keys from outside the settings: the environment variables, the `.env`
//! files and the stored OAuth tokens, as the caller read them, merged into the saved keys.
use vstd::prelude::*;
use crate::settings_popup::{SettingsPopup, EntryView, entries_view, search_entries};
use crate::provider_lists::{keys_view, keys_without, sort_pairs, lemma_filter_map};
use crate::name_order::{sort_by_name, retain_other_names, named_other, lemma_sorted_map, Named};
use crate::name_set::{names_view, names_set, set_contains, same_text};
use crate::text::{chars_of, string_from_chars, sub_chars, trim, trim_chars};

verus! {

/// A pair of strings as text: a provider and a value.
pub type Pair = (Seq<char>, Seq<char>);

/// What the caller read for gathering keys.
pub struct KeySources {
    /// The environment variables that are set, with their values.
    pub env: Vec<(String, String)>,
    /// The texts of the `.env` files that could be read, in the order they are consulted.
    pub dotenv_texts: Vec<String>,
    /// The OAuth providers for which a stored token was found.
    pub oauth_tokens: Vec<String>,
}

/// The value of variable `var` in `env`: the first pair of that name.
pub open spec fn env_value(env: Seq<Pair>, var: Seq<char>) -> Option<Seq<char>>
    decreases env.len(),
{
    if env.len() == 0 {
        None
    } else if env[0].0 == var {
        Some(env[0].1)
    } else {
        env_value(env.drop_first(), var)
    }
}

/// The (provider, variable) pairs keys are looked for under: every stored provider that
/// does not sign in with OAuth, then the search services.
pub open spec fn key_variables(db: Seq<EntryView>) -> Seq<Pair> {
    db.filter(|e: EntryView| e.4 != "oauth"@).map_values(|e: EntryView| (e.0, e.2))
        + search_entries().map_values(|e: EntryView| (e.0, e.2))
}

/// The keys the environment holds for `vars`, in order: a set, non-empty variable gives
/// the pair (provider, value).
pub open spec fn env_keys(vars: Seq<Pair>, env: Seq<Pair>) -> Seq<Pair>
    decreases vars.len(),
{
    if vars.len() == 0 {
        Seq::empty()
    } else {
        let rest = env_keys(vars.drop_last(), env);
        match env_value(env, vars.last().1) {
            Some(v) => if v.len() > 0 { rest.push((vars.last().0, v)) } else { rest },
            None => rest,
        }
    }
}

/// The number of `c` at the start of `s`.
pub open spec fn leading_count(s: Seq<char>, c: char) -> nat
    decreases s.len(),
{
    if s.len() == 0 { 0 } else if s[0] == c { 1 + leading_count(s.drop_first(), c) } else { 0 }
}

/// The number of `c` at the end of `s`.
pub open spec fn trailing_count(s: Seq<char>, c: char) -> nat
    decreases s.len(),
{
    if s.len() == 0 { 0 } else if s.last() == c { 1 + trailing_count(s.drop_last(), c) } else { 0 }
}

/// `s` without every leading and trailing `c` (std `str::trim_matches` with a character).
pub open spec fn strip_all(s: Seq<char>, c: char) -> Seq<char> {
    let t = s.skip(leading_count(s, c) as int);
    t.take(t.len() - trailing_count(t, c))
}

/// A value read from a `.env` line: trimmed, then stripped of double quotes, then of
/// single quotes around it.
pub open spec fn dotenv_value(v: Seq<char>) -> Seq<char> {
    strip_all(strip_all(trim(v), '"'), '\'')
}

/// The keys one `.env` line gives for the variables `vars`: the trimmed line, unless it is
/// empty or a `#` comment, gives (provider, value) for each variable `var` it starts with
/// `var=` and whose value is not empty.
pub open spec fn line_keys(line: Seq<char>, vars: Seq<Pair>) -> Seq<Pair>
    decreases vars.len(),
{
    let t = trim(line);
    if t.len() == 0 || t[0] == '#' || vars.len() == 0 {
        Seq::empty()
    } else {
        let rest = line_keys(line, vars.drop_last());
        let prefix = vars.last().1.push('=');
        let value = dotenv_value(t.skip(prefix.len() as int));
        if prefix.is_prefix_of(t) && value.len() > 0 { rest.push((vars.last().0, value)) } else { rest }
    }
}

/// The pieces of `s` between newlines (std `str::split` on `'\n'`); the same lines as
/// `str::lines` gives once each is trimmed and the blank ones are dropped.
pub open spec fn split_lines(s: Seq<char>) -> Seq<Seq<char>>
    decreases s.len(),
{
    if s.len() == 0 {
        seq![Seq::empty()]
    } else {
        let pre = split_lines(s.drop_last());
        if s.last() == '\n' {
            pre.push(Seq::empty())
        } else {
            pre.update(pre.len() - 1, pre.last().push(s.last()))
        }
    }
}

/// The keys the lines of one `.env` text give, in order.
pub open spec fn text_keys(text: Seq<char>, vars: Seq<Pair>) -> Seq<Pair> {
    split_lines(text).map_values(|l: Seq<char>| line_keys(l, vars)).flatten()
}

/// The keys the `.env` texts give, in order.
pub open spec fn dotenv_keys(texts: Seq<Seq<char>>, vars: Seq<Pair>) -> Seq<Pair> {
    texts.map_values(|t: Seq<char>| text_keys(t, vars)).flatten()
}

/// The OAuth providers among `db` that have a stored token, each noted as found.
pub open spec fn oauth_keys(db: Seq<EntryView>, tokens: Set<Seq<char>>) -> Seq<Pair> {
    db.filter(|e: EntryView| e.4 == "oauth"@ && tokens.contains(e.0)).map_values(|e: EntryView| (e.0, "OAuth token found"@))
}

/// The keys after putting each found pair in turn: a pair replaces the keys saved for its
/// provider.
pub open spec fn keys_put(keys: Seq<Pair>, found: Seq<Pair>) -> Seq<Pair>
    decreases found.len(),
{
    if found.len() == 0 {
        keys
    } else {
        keys_without(keys_put(keys, found.drop_last()), found.last().0).push(found.last())
    }
}

/// The value of `var` in `env`, when set.
fn lookup_env(env: &Vec<(String, String)>, var: &str) -> (r: Option<String>)
    ensures
        match env_value(keys_view(env@), var@) {
            Some(v) => r matches Some(s) && s@ == v,
            None => r is None,
        },
{
    let ghost ev = keys_view(env@);
    let mut i: usize = 0;
    proof {
        assert(ev.skip(0) =~= ev);
    }
    while i < env.len()
        invariant
            i <= env@.len(),
            ev == keys_view(env@),
            env_value(ev, var@) == env_value(ev.skip(i as int), var@),
        decreases env@.len() - i,
    {
        proof {
            let t = ev.skip(i as int);
            assert(t.drop_first() =~= ev.skip(i as int + 1));
            assert(t[0] == env@[i as int]@);
        }
        if same_text(env[i].0.as_str(), var) {
            return Some(env[i].1.clone());
        }
        i = i + 1;
    }
    proof {
        assert(ev.skip(i as int).len() == 0);
    }
    None
}

impl SettingsPopup {
    /// The (provider, variable) pairs keys are looked for under.
    pub fn key_variable_pairs(&self) -> (r: Vec<(String, String)>)
        ensures
            keys_view(r@) == key_variables(entries_view(self.db_providers@)),
    {
        let ghost dbv = entries_view(self.db_providers@);
        let ghost pred = |e: EntryView| e.4 != "oauth"@;
        let ghost pick = |e: EntryView| (e.0, e.2);
        let mut out: Vec<(String, String)> = Vec::new();
        let mut i: usize = 0;
        proof {
            reveal(Seq::filter);
            assert(dbv.take(0) =~= Seq::<EntryView>::empty());
            assert(keys_view(out@) =~= dbv.take(0).filter(pred).map_values(pick));
        }
        while i < self.db_providers.len()
            invariant
                i <= dbv.len(),
                dbv == entries_view(self.db_providers@),
                pred == (|e: EntryView| e.4 != "oauth"@),
                pick == (|e: EntryView| (e.0, e.2)),
                keys_view(out@) == dbv.take(i as int).filter(pred).map_values(pick),
            decreases dbv.len() - i,
        {
            proof {
                crate::settings_popup::lemma_filter_take_step(dbv, pred, i as int);
            }
            let e = &self.db_providers[i];
            if !same_text(e.4.as_str(), "oauth") {
                let ghost before = keys_view(out@);
                out.push((e.0.clone(), e.2.clone()));
                proof {
                    assert(dbv[i as int] == e@);
                    assert(dbv.take(i as int).filter(pred).push(dbv[i as int]).map_values(pick)
                        =~= dbv.take(i as int).filter(pred).map_values(pick).push(pick(dbv[i as int])));
                    assert(keys_view(out@) =~= before.push((e.0@, e.2@)));
                }
            }
            i = i + 1;
        }
        proof {
            assert(dbv.take(dbv.len() as int) =~= dbv);
        }
        let ghost head = keys_view(out@);
        out.push((String::from_str("Exa Search"), String::from_str("EXA_API_KEY")));
        out.push((String::from_str("Tavily Search"), String::from_str("TAVILY_API_KEY")));
        out.push((String::from_str("Firecrawl Search"), String::from_str("FIRECRAWL_API_KEY")));
        proof {
            assert(keys_view(out@) =~= head + search_entries().map_values(pick));
        }
        out
    }
}

/// The keys the environment holds for `vars`.
fn env_keys_exec(vars: &Vec<(String, String)>, env: &Vec<(String, String)>) -> (r: Vec<(String, String)>)
    ensures
        keys_view(r@) == env_keys(keys_view(vars@), keys_view(env@)),
{
    let ghost vv = keys_view(vars@);
    let ghost ev = keys_view(env@);
    let mut out: Vec<(String, String)> = Vec::new();
    let mut i: usize = 0;
    proof {
        assert(vv.take(0) =~= Seq::<Pair>::empty());
    }
    while i < vars.len()
        invariant
            i <= vars@.len(),
            vv == keys_view(vars@),
            ev == keys_view(env@),
            keys_view(out@) == env_keys(vv.take(i as int), ev),
        decreases vars@.len() - i,
    {
        proof {
            assert(vv.take(i as int + 1).drop_last() =~= vv.take(i as int));
            assert(vv.take(i as int + 1).last() == vars@[i as int]@);
        }
        let value = lookup_env(env, vars[i].1.as_str());
        match value {
            Some(v) => {
                if chars_of(v.as_str()).len() > 0 {
                    let ghost before = keys_view(out@);
                    out.push((vars[i].0.clone(), v));
                    proof {
                        assert(keys_view(out@) =~= before.push((vars@[i as int].0@, v@)));
                    }
                }
            },
            None => {},
        }
        i = i + 1;
    }
    proof {
        assert(vv.take(vv.len() as int) =~= vv);
    }
    out
}

proof fn lemma_leading_count(s: Seq<char>, c: char, i: int)
    requires
        0 <= i <= s.len(),
        forall|k: int| 0 <= k < i ==> s[k] == c,
        i == s.len() || s[i] != c,
    ensures
        leading_count(s, c) == i,
    decreases i,
{
    if i > 0 {
        let t = s.drop_first();
        assert forall|k: int| 0 <= k < i - 1 implies t[k] == c by {
            assert(t[k] == s[k + 1]);
        }
        if i < s.len() {
            assert(t[i - 1] == s[i]);
        }
        lemma_leading_count(t, c, i - 1);
    }
}

proof fn lemma_trailing_count(s: Seq<char>, c: char, k: int)
    requires
        0 <= k <= s.len(),
        forall|j: int| s.len() - k <= j < s.len() ==> s[j] == c,
        k == s.len() || s[s.len() - 1 - k] != c,
    ensures
        trailing_count(s, c) == k,
    decreases k,
{
    if k > 0 {
        let t = s.drop_last();
        assert forall|j: int| t.len() - (k - 1) <= j < t.len() implies t[j] == c by {
            assert(t[j] == s[j]);
        }
        if k < s.len() {
            assert(t[t.len() - 1 - (k - 1)] == s[s.len() - 1 - k]);
        }
        lemma_trailing_count(t, c, k - 1);
    }
}

/// `v` without every leading and trailing `c`.
fn strip_all_exec(v: &Vec<char>, c: char) -> (r: Vec<char>)
    ensures
        r@ == strip_all(v@, c),
{
    let mut i: usize = 0;
    while i < v.len() && v[i] == c
        invariant
            i <= v@.len(),
            forall|k: int| 0 <= k < i ==> v@[k] == c,
        decreases v@.len() - i,
    {
        i = i + 1;
    }
    proof {
        lemma_leading_count(v@, c, i as int);
    }
    let t = sub_chars(v.as_slice(), i, v.len());
    proof {
        assert(t@ =~= v@.skip(i as int));
    }
    let mut k: usize = 0;
    while k < t.len() && t[t.len() - 1 - k] == c
        invariant
            k <= t@.len(),
            forall|j: int| t@.len() - k <= j < t@.len() ==> t@[j] == c,
        decreases t@.len() - k,
    {
        k = k + 1;
    }
    proof {
        lemma_trailing_count(t@, c, k as int);
    }
    let r = sub_chars(t.as_slice(), 0, t.len() - k);
    proof {
        assert(r@ =~= t@.take(t@.len() - k));
    }
    r
}

/// A value read from a `.env` line, cleaned.
fn dotenv_value_exec(v: &Vec<char>) -> (r: Vec<char>)
    ensures
        r@ == dotenv_value(v@),
{
    let t = trim_chars(v.as_slice());
    let a = strip_all_exec(&t, '"');
    strip_all_exec(&a, '\'')
}

/// Whether `prefix` starts `line`.
fn starts_with_chars(line: &Vec<char>, prefix: &Vec<char>) -> (r: bool)
    ensures
        r == prefix@.is_prefix_of(line@),
{
    if prefix.len() > line.len() {
        return false;
    }
    let mut i: usize = 0;
    while i < prefix.len()
        invariant
            i <= prefix@.len() <= line@.len(),
            forall|k: int| 0 <= k < i ==> prefix@[k] == line@[k],
        decreases prefix@.len() - i,
    {
        if prefix[i] != line[i] {
            proof {
                assert(prefix@ != line@.subrange(0, prefix@.len() as int)) by {
                    assert(line@.subrange(0, prefix@.len() as int)[i as int] == line@[i as int]);
                }
            }
            return false;
        }
        i = i + 1;
    }
    proof {
        assert(prefix@ =~= line@.subrange(0, prefix@.len() as int));
    }
    true
}

/// The keys one `.env` line gives for `vars`.
fn line_keys_exec(line: &Vec<char>, vars: &Vec<(String, String)>) -> (r: Vec<(String, String)>)
    ensures
        keys_view(r@) == line_keys(line@, keys_view(vars@)),
{
    let ghost vv = keys_view(vars@);
    let t = trim_chars(line.as_slice());
    let mut out: Vec<(String, String)> = Vec::new();
    if t.len() == 0 || t[0] == '#' {
        proof {
            assert(line_keys(line@, vv) == Seq::<Pair>::empty());
        }
        return out;
    }
    let mut i: usize = 0;
    proof {
        assert(vv.take(0) =~= Seq::<Pair>::empty());
    }
    while i < vars.len()
        invariant
            i <= vars@.len(),
            vv == keys_view(vars@),
            t@ == trim(line@),
            t@.len() > 0 && t@[0] != '#',
            keys_view(out@) == line_keys(line@, vv.take(i as int)),
        decreases vars@.len() - i,
    {
        proof {
            assert(vv.take(i as int + 1).drop_last() =~= vv.take(i as int));
            assert(vv.take(i as int + 1).last() == vars@[i as int]@);
        }
        let mut prefix = chars_of(vars[i].1.as_str());
        prefix.push('=');
        if starts_with_chars(&t, &prefix) {
            let rest = sub_chars(t.as_slice(), prefix.len(), t.len());
            proof {
                assert(rest@ =~= t@.skip(prefix@.len() as int));
            }
            let value = dotenv_value_exec(&rest);
            if value.len() > 0 {
                let ghost before = keys_view(out@);
                out.push((vars[i].0.clone(), string_from_chars(value.as_slice())));
                proof {
                    assert(keys_view(out@) =~= before.push((vars@[i as int].0@, value@)));
                }
            }
        }
        i = i + 1;
    }
    proof {
        assert(vv.take(vv.len() as int) =~= vv);
    }
    out
}

/// The pieces of `s` between newlines.
fn split_lines_exec(s: &str) -> (r: Vec<Vec<char>>)
    ensures
        r@.map_values(|l: Vec<char>| l@) == split_lines(s@),
{
    let cs = chars_of(s);
    let mut lines: Vec<Vec<char>> = Vec::new();
    let mut cur: Vec<char> = Vec::new();
    let mut i: usize = 0;
    proof {
        assert(cs@.take(0) =~= Seq::<char>::empty());
        assert(lines@.map_values(|l: Vec<char>| l@).push(cur@) =~= split_lines(cs@.take(0)));
    }
    while i < cs.len()
        invariant
            i <= cs@.len(),
            cs@ == s@,
            lines@.map_values(|l: Vec<char>| l@).push(cur@) == split_lines(cs@.take(i as int)),
        decreases cs@.len() - i,
    {
        let c = cs[i];
        let ghost done = lines@.map_values(|l: Vec<char>| l@);
        proof {
            assert(cs@.take(i as int + 1).drop_last() =~= cs@.take(i as int));
            assert(cs@.take(i as int + 1).last() == c);
        }
        if c == '\n' {
            let mut line: Vec<char> = Vec::new();
            std::mem::swap(&mut line, &mut cur);
            let ghost prev = line@;
            lines.push(line);
            proof {
                assert(lines@.map_values(|l: Vec<char>| l@) =~= done.push(prev));
                assert(lines@.map_values(|l: Vec<char>| l@).push(cur@) =~= done.push(prev).push(Seq::<char>::empty()));
            }
        } else {
            let ghost prev = cur@;
            cur.push(c);
            proof {
                assert(lines@.map_values(|l: Vec<char>| l@).push(cur@) =~= done.push(prev).update(done.len() as int, prev.push(c)));
            }
        }
        i = i + 1;
    }
    proof {
        assert(cs@.take(cs@.len() as int) =~= cs@);
    }
    let ghost done = lines@.map_values(|l: Vec<char>| l@);
    let ghost last = cur@;
    lines.push(cur);
    proof {
        assert(lines@.map_values(|l: Vec<char>| l@) =~= done.push(last));
    }
    lines
}

/// Appends `b` to `a`.
fn append_pairs(a: &mut Vec<(String, String)>, b: Vec<(String, String)>)
    ensures
        keys_view(final(a)@) == keys_view(old(a)@) + keys_view(b@),
{
    let mut b = b;
    let ghost a0 = keys_view(a@);
    let ghost b0 = keys_view(b@);
    a.append(&mut b);
    proof {
        assert(keys_view(a@) =~= a0 + b0);
    }
}

/// The keys the lines of one `.env` text give.
fn text_keys_exec(text: &str, vars: &Vec<(String, String)>) -> (r: Vec<(String, String)>)
    ensures
        keys_view(r@) == text_keys(text@, keys_view(vars@)),
{
    let ghost vv = keys_view(vars@);
    let lines = split_lines_exec(text);
    let ghost lv = lines@.map_values(|l: Vec<char>| l@);
    let ghost per = lv.map_values(|l: Seq<char>| line_keys(l, vv));
    let mut out: Vec<(String, String)> = Vec::new();
    let mut i: usize = 0;
    proof {
        assert(per.take(0) =~= Seq::<Seq<Pair>>::empty());
    }
    while i < lines.len()
        invariant
            i <= lines@.len(),
            vv == keys_view(vars@),
            lv == lines@.map_values(|l: Vec<char>| l@),
            per == lv.map_values(|l: Seq<char>| line_keys(l, vv)),
            keys_view(out@) == per.take(i as int).flatten(),
        decreases lines@.len() - i,
    {
        let found = line_keys_exec(&lines[i], vars);
        append_pairs(&mut out, found);
        proof {
            assert(per.take(i as int + 1) =~= per.take(i as int).push(per[i as int]));
            per.take(i as int).lemma_flatten_push(per[i as int]);
        }
        i = i + 1;
    }
    proof {
        assert(per.take(per.len() as int) =~= per);
    }
    out
}

/// The keys the `.env` texts give.
fn dotenv_keys_exec(texts: &Vec<String>, vars: &Vec<(String, String)>) -> (r: Vec<(String, String)>)
    ensures
        keys_view(r@) == dotenv_keys(names_view(texts@), keys_view(vars@)),
{
    let ghost vv = keys_view(vars@);
    let ghost tv = names_view(texts@);
    let ghost per = tv.map_values(|t: Seq<char>| text_keys(t, vv));
    let mut out: Vec<(String, String)> = Vec::new();
    let mut i: usize = 0;
    proof {
        assert(per.take(0) =~= Seq::<Seq<Pair>>::empty());
    }
    while i < texts.len()
        invariant
            i <= texts@.len(),
            vv == keys_view(vars@),
            tv == names_view(texts@),
            per == tv.map_values(|t: Seq<char>| text_keys(t, vv)),
            keys_view(out@) == per.take(i as int).flatten(),
        decreases texts@.len() - i,
    {
        let found = text_keys_exec(texts[i].as_str(), vars);
        append_pairs(&mut out, found);
        proof {
            assert(per.take(i as int + 1) =~= per.take(i as int).push(per[i as int]));
            per.take(i as int).lemma_flatten_push(per[i as int]);
        }
        i = i + 1;
    }
    proof {
        assert(per.take(per.len() as int) =~= per);
    }
    out
}

impl SettingsPopup {
    /// The OAuth providers that have a stored token, each noted as found.
    fn oauth_keys_exec(&self, tokens: &Vec<String>) -> (r: Vec<(String, String)>)
        ensures
            keys_view(r@) == oauth_keys(entries_view(self.db_providers@), names_set(tokens@)),
    {
        let ghost dbv = entries_view(self.db_providers@);
        let ghost ts = names_set(tokens@);
        let ghost pred = |e: EntryView| e.4 == "oauth"@ && ts.contains(e.0);
        let ghost note = |e: EntryView| (e.0, "OAuth token found"@);
        let mut out: Vec<(String, String)> = Vec::new();
        let mut i: usize = 0;
        proof {
            reveal(Seq::filter);
            assert(dbv.take(0) =~= Seq::<EntryView>::empty());
            assert(keys_view(out@) =~= dbv.take(0).filter(pred).map_values(note));
        }
        while i < self.db_providers.len()
            invariant
                i <= dbv.len(),
                dbv == entries_view(self.db_providers@),
                ts == names_set(tokens@),
                pred == (|e: EntryView| e.4 == "oauth"@ && ts.contains(e.0)),
                note == (|e: EntryView| (e.0, "OAuth token found"@)),
                keys_view(out@) == dbv.take(i as int).filter(pred).map_values(note),
            decreases dbv.len() - i,
        {
            proof {
                crate::settings_popup::lemma_filter_take_step(dbv, pred, i as int);
            }
            let e = &self.db_providers[i];
            if same_text(e.4.as_str(), "oauth") && set_contains(tokens, e.0.as_str()) {
                let ghost before = keys_view(out@);
                out.push((e.0.clone(), String::from_str("OAuth token found")));
                proof {
                    assert(dbv[i as int] == e@);
                    assert(dbv.take(i as int).filter(pred).push(dbv[i as int]).map_values(note)
                        =~= dbv.take(i as int).filter(pred).map_values(note).push(note(dbv[i as int])));
                    assert(keys_view(out@) =~= before.push((e.0@, "OAuth token found"@)));
                }
            }
            i = i + 1;
        }
        proof {
            assert(dbv.take(dbv.len() as int) =~= dbv);
        }
        out
    }
}

proof fn lemma_keys_view_without(s: Seq<(String, String)>, name: Seq<char>)
    ensures
        keys_view(s.filter(named_other::<(String, String)>(name))) == keys_without(keys_view(s), name),
{
    let f = |k: (String, String)| k@;
    let pa = named_other::<(String, String)>(name);
    let pb = crate::provider_lists::pair_not_named(name);
    assert forall|a: (String, String)| #[trigger] pb(f(a)) == pa(a) by {}
    lemma_filter_map(s, f, pa, pb);
    assert(s.map_values(f) =~= keys_view(s));
    assert(s.filter(pa).map_values(f) =~= keys_view(s.filter(pa)));
}

/// `keys` after putting each pair of `found` in turn.
fn keys_put_exec(keys: Vec<(String, String)>, found: &Vec<(String, String)>) -> (r: Vec<(String, String)>)
    ensures
        keys_view(r@) == keys_put(keys_view(keys@), keys_view(found@)),
{
    let ghost k0 = keys_view(keys@);
    let ghost fv = keys_view(found@);
    let mut keys = keys;
    let mut i: usize = 0;
    proof {
        assert(fv.take(0) =~= Seq::<Pair>::empty());
    }
    while i < found.len()
        invariant
            i <= found@.len(),
            fv == keys_view(found@),
            keys_view(keys@) == keys_put(k0, fv.take(i as int)),
        decreases found@.len() - i,
    {
        let pair = (found[i].0.clone(), found[i].1.clone());
        proof {
            assert(pair@ == fv[i as int]);
            assert(fv.take(i as int + 1).drop_last() =~= fv.take(i as int));
            assert(fv.take(i as int + 1).last() == fv[i as int]);
        }
        let ghost before = keys@;
        retain_other_names(&mut keys, pair.0.as_str());
        proof {
            lemma_keys_view_without(before, pair.0@);
        }
        let ghost kept = keys_view(keys@);
        keys.push(pair);
        proof {
            assert(keys_view(keys@) =~= kept.push(fv[i as int]));
        }
        i = i + 1;
    }
    proof {
        assert(fv.take(fv.len() as int) =~= fv);
    }
    keys
}

impl SettingsPopup {
    /// Notes the OAuth providers that have a stored token among the saved keys (replacing
    /// their other keys) and returns their names.
    pub fn check_oauth_tokens(&mut self, sources: &KeySources) -> (r: Vec<String>)
        ensures
            *final(self) == (SettingsPopup { saved_keys: final(self).saved_keys, ..*old(self) }),
            ({
                let found = oauth_keys(entries_view(old(self).db_providers@), names_set(sources.oauth_tokens@));
                &&& keys_view(final(self).saved_keys@) == keys_put(keys_view(old(self).saved_keys@), found)
                &&& names_view(r@) == found.map_values(|p: Pair| p.0)
            }),
    {
        let found = self.oauth_keys_exec(&sources.oauth_tokens);
        let mut names: Vec<String> = Vec::new();
        let mut i: usize = 0;
        while i < found.len()
            invariant
                i <= found@.len(),
                names_view(names@) == keys_view(found@).take(i as int).map_values(|p: Pair| p.0),
            decreases found@.len() - i,
        {
            let ghost before = names_view(names@);
            names.push(found[i].0.clone());
            proof {
                let fv = keys_view(found@);
                assert(fv.take(i as int + 1) =~= fv.take(i as int).push(fv[i as int]));
                assert(names_view(names@) =~= before.push(found@[i as int].0@));
                assert(fv.take(i as int + 1).map_values(|p: Pair| p.0) =~= fv.take(i as int).map_values(|p: Pair| p.0).push(fv[i as int].0));
            }
            i = i + 1;
        }
        proof {
            assert(keys_view(found@).take(found@.len() as int) =~= keys_view(found@));
        }
        let mut keys: Vec<(String, String)> = Vec::new();
        std::mem::swap(&mut keys, &mut self.saved_keys);
        let keys = keys_put_exec(keys, &found);
        self.saved_keys = keys;
        names
    }

    /// Gathers API keys from outside: each provider's key variable (not for OAuth
    /// providers) and each search service's, first from the environment, then from the
    /// `.env` texts line by line, then the OAuth tokens; every non-empty key found replaces
    /// the keys saved for its provider, and the keys end sorted by provider name.
    pub fn grab_keys_from_env(&mut self, sources: &KeySources)
        ensures
            *final(self) == (SettingsPopup { saved_keys: final(self).saved_keys, ..*old(self) }),
            ({
                let db = entries_view(old(self).db_providers@);
                let vars = key_variables(db);
                let found = env_keys(vars, keys_view(sources.env@))
                    + dotenv_keys(names_view(sources.dotenv_texts@), vars)
                    + oauth_keys(db, names_set(sources.oauth_tokens@));
                keys_view(final(self).saved_keys@) == sort_pairs(keys_put(keys_view(old(self).saved_keys@), found))
            }),
    {
        let vars = self.key_variable_pairs();
        let mut found = env_keys_exec(&vars, &sources.env);
        let from_files = dotenv_keys_exec(&sources.dotenv_texts, &vars);
        append_pairs(&mut found, from_files);
        let from_tokens = self.oauth_keys_exec(&sources.oauth_tokens);
        append_pairs(&mut found, from_tokens);
        let mut keys: Vec<(String, String)> = Vec::new();
        std::mem::swap(&mut keys, &mut self.saved_keys);
        let mut keys = keys_put_exec(keys, &found);
        let ghost unsorted = keys@;
        sort_by_name(&mut keys);
        proof {
            let f = |k: (String, String)| k@;
            let key = |p: (Seq<char>, Seq<char>)| p.0;
            assert forall|t: (String, String)| #[trigger] key(f(t)) == t.name_of() by {}
            lemma_sorted_map(unsorted, f, key);
            assert(unsorted.map_values(f) =~= keys_view(unsorted));
        }
        self.saved_keys = keys;
    }
}

} // verus!
