//! Word wrapping of styled runs into lines of a given number of cells.
use vstd::prelude::*;
use crate::inline::{StyledRun, RunView, run_view, runs_view, lines_view, link_view, clone_link, sat_add, tokenize, tokenize_spec, strings_view, cell_width, cells, no_white, uniform_token, lemma_tokenize_uniform};
use crate::terminal::TermStyle;
use crate::text::{all_white, chars_of, str_is_blank, string_from_chars, unicode_white_space};
use crate::unicode::{char_width, str_display_width, str_width};

verus! {

/// Where wrapping stands: the finished lines, the line being filled and the cells it uses.
pub struct WrapState {
    pub done: Seq<Seq<RunView>>,
    pub line: Seq<RunView>,
    pub width: nat,
}

/// The state after ending the current line.
pub open spec fn break_line(st: WrapState) -> WrapState {
    WrapState { done: st.done.push(st.line), line: Seq::empty(), width: 0 }
}

/// Splits `tok[i..]` into pieces of at most `max` cells (a piece holds at least one
/// character), `chunk` of `chunk_w` cells being the piece under way; every finished piece
/// ends its line, the last piece stays on the current line.
pub open spec fn chunk_from(
    done: Seq<Seq<RunView>>,
    line: Seq<RunView>,
    chunk: Seq<char>,
    chunk_w: nat,
    tok: Seq<char>,
    i: nat,
    style: TermStyle,
    link: Option<Seq<char>>,
    max: nat,
) -> WrapState
    decreases tok.len() - i,
{
    if i >= tok.len() {
        if chunk.len() > 0 {
            WrapState { done, line: line.push(RunView { text: chunk, style, link }), width: chunk_w }
        } else {
            WrapState { done, line, width: 0 }
        }
    } else {
        let w = cell_width(tok[i as int]);
        if chunk_w + w > max && chunk.len() > 0 {
            chunk_from(
                done.push(line.push(RunView { text: chunk, style, link })),
                Seq::empty(),
                seq![tok[i as int]],
                w,
                tok,
                i + 1,
                style,
                link,
                max,
            )
        } else {
            chunk_from(done, line, chunk.push(tok[i as int]), chunk_w + w, tok, i + 1, style, link, max)
        }
    }
}

/// The state after placing one token: a newline ends the line; a word wider than the line
/// starts a fresh line and is split; a word that does not fit moves to a new line; whitespace
/// at the start of a line is dropped.
pub open spec fn wrap_token(st: WrapState, tok: Seq<char>, style: TermStyle, link: Option<Seq<char>>, max: nat) -> WrapState {
    if tok == seq!['\n'] {
        break_line(st)
    } else {
        let tw = str_display_width(tok) as nat;
        let space = all_white(tok);
        if tw > max && !space {
            let st0 = if st.width > 0 { break_line(st) } else { st };
            chunk_from(st0.done, st0.line, Seq::empty(), 0, tok, 0, style, link, max)
        } else {
            let st1 = if st.width + tw > max && st.width > 0 && !space { break_line(st) } else { st };
            if st1.width == 0 && space {
                st1
            } else {
                WrapState {
                    done: st1.done,
                    line: st1.line.push(RunView { text: tok, style, link }),
                    width: sat_add(st1.width, tw),
                }
            }
        }
    }
}

/// The state after placing `toks[i..]`, all in one style and link.
pub open spec fn wrap_tokens(st: WrapState, toks: Seq<Seq<char>>, i: nat, style: TermStyle, link: Option<Seq<char>>, max: nat) -> WrapState
    decreases toks.len() - i,
{
    if i >= toks.len() {
        st
    } else {
        wrap_tokens(wrap_token(st, toks[i as int], style, link, max), toks, i + 1, style, link, max)
    }
}

/// The state after placing the tokens of `runs[i..]`.
pub open spec fn wrap_from(st: WrapState, runs: Seq<RunView>, i: nat, max: nat) -> WrapState
    decreases runs.len() - i,
{
    if i >= runs.len() {
        st
    } else {
        let r = runs[i as int];
        wrap_from(wrap_tokens(st, tokenize_spec(r.text), 0, r.style, r.link, max), runs, i + 1, max)
    }
}

/// The state wrapping starts from: one empty line.
pub open spec fn wrap_start() -> WrapState {
    WrapState { done: Seq::empty(), line: Seq::empty(), width: 0 }
}

/// The lines that `runs` wrap into at `max` cells.
pub open spec fn wrap_runs_spec(runs: Seq<RunView>, max: nat) -> Seq<Seq<RunView>> {
    let st = wrap_from(wrap_start(), runs, 0, max);
    st.done.push(st.line)
}

/// The abstract state of the executable wrapping state.
pub open spec fn state_of(out: Seq<Vec<StyledRun>>, line: Seq<StyledRun>, width: usize) -> WrapState {
    WrapState { done: lines_view(out), line: runs_view(line), width: width as nat }
}

/// Ends the current line.
fn end_line(out: &mut Vec<Vec<StyledRun>>, line: &mut Vec<StyledRun>, width: &mut usize)
    ensures
        state_of(final(out)@, final(line)@, *final(width)) == break_line(state_of(old(out)@, old(line)@, *old(width))),
{
    let mut finished: Vec<StyledRun> = Vec::new();
    std::mem::swap(&mut finished, line);
    out.push(finished);
    *width = 0;
    proof {
        assert(lines_view(out@) =~= lines_view(old(out)@).push(runs_view(old(line)@)));
        assert(runs_view(line@) =~= Seq::<RunView>::empty());
    }
}

/// Adds a run to the current line.
fn push_run(line: &mut Vec<StyledRun>, text: &[char], style: TermStyle, link: &Option<String>)
    ensures
        runs_view(final(line)@) == runs_view(old(line)@).push(RunView { text: text@, style, link: link_view(*link) }),
{
    let run = StyledRun { text: string_from_chars(text), style, link: clone_link(link) };
    line.push(run);
    proof {
        assert(runs_view(line@) =~= runs_view(old(line)@).push(RunView { text: text@, style, link: link_view(*link) }));
    }
}

/// Places a word wider than the line: ends a non-empty line, then splits the word into
/// pieces of at most `max` cells.
fn place_long_token(
    out: &mut Vec<Vec<StyledRun>>,
    line: &mut Vec<StyledRun>,
    width: &mut usize,
    tok: &[char],
    style: TermStyle,
    link: &Option<String>,
    max: usize,
)
    ensures
        ({
            let st = state_of(old(out)@, old(line)@, *old(width));
            let st0 = if st.width > 0 { break_line(st) } else { st };
            state_of(final(out)@, final(line)@, *final(width))
                == chunk_from(st0.done, st0.line, Seq::empty(), 0, tok@, 0, style, link_view(*link), max as nat)
        }),
{
    if *width > 0 {
        end_line(out, line, width);
    }
    let ghost lk = link_view(*link);
    let mut chunk: Vec<char> = Vec::new();
    let mut chunk_width: usize = 0;
    let mut i: usize = 0;
    while i < tok.len()
        invariant
            i <= tok.len(),
            chunk@.len() == 0 ==> chunk_width == 0,
            chunk_width <= max || chunk_width <= 3,
            lk == link_view(*link),
            chunk_from(lines_view(out@), runs_view(line@), chunk@, chunk_width as nat, tok@, i as nat, style, lk, max as nat)
                == ({
                    let st = state_of(old(out)@, old(line)@, *old(width));
                    let st0 = if st.width > 0 { break_line(st) } else { st };
                    chunk_from(st0.done, st0.line, Seq::empty(), 0, tok@, 0, style, lk, max as nat)
                }),
        decreases tok.len() - i,
    {
        let ch = tok[i];
        let w = match char_width(ch) {
            Some(w) => w,
            None => 0,
        };
        let over = chunk_width > max || w > max - chunk_width;
        if over && chunk.len() > 0 {
            push_run(line, chunk.as_slice(), style, link);
            let mut spare: usize = 0;
            end_line(out, line, &mut spare);
            chunk = Vec::new();
            chunk.push(ch);
            chunk_width = w;
            proof {
                assert(chunk@ =~= seq![ch]);
            }
        } else {
            chunk.push(ch);
            chunk_width = chunk_width + w;
        }
        i = i + 1;
    }
    if chunk.len() > 0 {
        push_run(line, chunk.as_slice(), style, link);
        *width = chunk_width;
    } else {
        *width = 0;
    }
}

/// Places one token on the lines (see `wrap_token`).
fn place_token(
    out: &mut Vec<Vec<StyledRun>>,
    line: &mut Vec<StyledRun>,
    width: &mut usize,
    token: &str,
    style: TermStyle,
    link: &Option<String>,
    max: usize,
)
    ensures
        state_of(final(out)@, final(line)@, *final(width))
            == wrap_token(state_of(old(out)@, old(line)@, *old(width)), token@, style, link_view(*link), max as nat),
{
    let tok = chars_of(token);
    if tok.len() == 1 && tok[0] == '\n' {
        assert(tok@ =~= seq!['\n']);
        end_line(out, line, width);
        return;
    }
    assert(token@ != seq!['\n']) by {
        if token@ == seq!['\n'] {
            assert(tok@.len() == 1 && tok@[0] == '\n');
        }
    }
    let token_width = str_width(token);
    let is_space = str_is_blank(token);
    if token_width > max && !is_space {
        place_long_token(out, line, width, tok.as_slice(), style, link, max);
        return;
    }
    if (*width > max || token_width > max - *width) && *width > 0 && !is_space {
        end_line(out, line, width);
    }
    if !(*width == 0 && is_space) {
        push_run(line, tok.as_slice(), style, link);
        *width = (*width).saturating_add(token_width);
    }
}

/// Wraps `runs` into lines of at most `width` cells: text is cut at whitespace, a newline
/// ends a line, a word wider than a line is split by characters, and whitespace at the start
/// of a line is dropped. There is always at least one line.
pub fn wrap_runs(runs: Vec<StyledRun>, width: usize) -> (r: Vec<Vec<StyledRun>>)
    ensures
        lines_view(r@) == wrap_runs_spec(runs_view(runs@), width as nat),
        width < usize::MAX ==> forall|k: int| 0 <= k < r@.len() ==> #[trigger] line_fits(lines_view(r@)[k], width as nat),
{
    let mut out: Vec<Vec<StyledRun>> = Vec::new();
    let mut line: Vec<StyledRun> = Vec::new();
    let mut used: usize = 0;
    let ghost rv = runs_view(runs@);
    proof {
        assert(state_of(out@, line@, used) =~= wrap_start()) by {
            assert(lines_view(out@) =~= Seq::<Seq<RunView>>::empty());
            assert(runs_view(line@) =~= Seq::<RunView>::empty());
        }
    }
    let mut i: usize = 0;
    while i < runs.len()
        invariant
            i <= runs.len(),
            rv == runs_view(runs@),
            wrap_from(state_of(out@, line@, used), rv, i as nat, width as nat) == wrap_from(wrap_start(), rv, 0, width as nat),
        decreases runs.len() - i,
    {
        let run = &runs[i];
        let tokens = tokenize(run.text.as_str());
        let ghost toks = strings_view(tokens@);
        let ghost before = state_of(out@, line@, used);
        let mut k: usize = 0;
        while k < tokens.len()
            invariant
                k <= tokens.len(),
                toks == strings_view(tokens@),
                wrap_tokens(state_of(out@, line@, used), toks, k as nat, run.style, link_view(run.link), width as nat)
                    == wrap_tokens(before, toks, 0, run.style, link_view(run.link), width as nat),
            decreases tokens.len() - k,
        {
            place_token(&mut out, &mut line, &mut used, tokens[k].as_str(), run.style, &run.link, width);
            k = k + 1;
        }
        proof {
            assert(rv[i as int] == run_view(*run));
        }
        i = i + 1;
    }
    let ghost last = state_of(out@, line@, used);
    out.push(line);
    proof {
        assert(lines_view(out@) =~= last.done.push(last.line));
        if width < usize::MAX {
            law_wrapped_lines_fit(rv, width as nat);
            let ls = wrap_runs_spec(rv, width as nat);
            assert(lines_view(out@) == ls);
            assert forall|k: int| 0 <= k < out@.len() implies #[trigger] line_fits(lines_view(out@)[k], width as nat) by {
                assert(line_fits(ls[k], width as nat));
            }
        }
    }
    out
}

/// Whether a line does not start with a run of only whitespace.
pub open spec fn starts_with_text(line: Seq<RunView>) -> bool {
    line.len() > 0 ==> !all_white(line[0].text)
}

/// Whether every finished line and the line under way start with text, and an empty line
/// under way uses no cells.
pub open spec fn wrap_wf(st: WrapState) -> bool {
    &&& (st.line.len() == 0 ==> st.width == 0)
    &&& starts_with_text(st.line)
    &&& forall|k: int| 0 <= k < st.done.len() ==> #[trigger] starts_with_text(st.done[k])
}

proof fn lemma_break_line(st: WrapState)
    requires
        wrap_wf(st),
    ensures
        wrap_wf(break_line(st)),
{
    let b = break_line(st);
    assert forall|k: int| 0 <= k < b.done.len() implies #[trigger] starts_with_text(b.done[k]) by {
        if k < st.done.len() {
            assert(b.done[k] == st.done[k]);
        }
    }
}

proof fn lemma_chunk_from(
    done: Seq<Seq<RunView>>,
    line: Seq<RunView>,
    chunk: Seq<char>,
    chunk_w: nat,
    tok: Seq<char>,
    i: nat,
    style: TermStyle,
    link: Option<Seq<char>>,
    max: nat,
)
    requires
        i <= tok.len(),
        no_white(tok),
        no_white(chunk),
        starts_with_text(line),
        forall|k: int| 0 <= k < done.len() ==> #[trigger] starts_with_text(done[k]),
    ensures
        wrap_wf(chunk_from(done, line, chunk, chunk_w, tok, i, style, link, max)),
    decreases tok.len() - i,
{
    let r = RunView { text: chunk, style, link };
    if chunk.len() > 0 {
        assert(!unicode_white_space(chunk[0]));
    }
    assert(chunk.len() > 0 ==> starts_with_text(line.push(r)));
    if i >= tok.len() {
        if chunk.len() > 0 {
            assert(line.push(r)[0] == (if line.len() > 0 { line[0] } else { r }));
        }
    } else {
        let w = cell_width(tok[i as int]);
        let c = tok[i as int];
        assert(!unicode_white_space(c));
        if chunk_w + w > max && chunk.len() > 0 {
            let done2 = done.push(line.push(r));
            assert(line.push(r)[0] == (if line.len() > 0 { line[0] } else { r }));
            assert forall|k: int| 0 <= k < done2.len() implies #[trigger] starts_with_text(done2[k]) by {
                if k < done.len() {
                    assert(done2[k] == done[k]);
                }
            }
            assert(no_white(seq![c]));
            lemma_chunk_from(done2, Seq::empty(), seq![c], w, tok, i + 1, style, link, max);
        } else {
            let chunk2 = chunk.push(c);
            assert(no_white(chunk2)) by {
                assert forall|j: int| 0 <= j < chunk2.len() implies !unicode_white_space(#[trigger] chunk2[j]) by {
                    if j < chunk.len() {
                        assert(chunk2[j] == chunk[j]);
                    }
                }
            }
            lemma_chunk_from(done, line, chunk2, chunk_w + w, tok, i + 1, style, link, max);
        }
    }
}

proof fn lemma_wrap_token(st: WrapState, tok: Seq<char>, style: TermStyle, link: Option<Seq<char>>, max: nat)
    requires
        wrap_wf(st),
        uniform_token(tok),
    ensures
        wrap_wf(wrap_token(st, tok, style, link, max)),
{
    if tok == seq!['\n'] {
        lemma_break_line(st);
    } else {
        let tw = str_display_width(tok) as nat;
        let space = all_white(tok);
        if tw > max && !space {
            assert(no_white(tok));
            let st0 = if st.width > 0 { break_line(st) } else { st };
            if st.width > 0 {
                lemma_break_line(st);
            }
            assert(no_white(Seq::<char>::empty()));
            lemma_chunk_from(st0.done, st0.line, Seq::empty(), 0, tok, 0, style, link, max);
        } else {
            let st1 = if st.width + tw > max && st.width > 0 && !space { break_line(st) } else { st };
            if st.width + tw > max && st.width > 0 && !space {
                lemma_break_line(st);
            }
            if !(st1.width == 0 && space) {
                let r = RunView { text: tok, style, link };
                assert(st1.line.push(r)[0] == (if st1.line.len() > 0 { st1.line[0] } else { r }));
            }
        }
    }
}

proof fn lemma_wrap_tokens(st: WrapState, toks: Seq<Seq<char>>, i: nat, style: TermStyle, link: Option<Seq<char>>, max: nat)
    requires
        wrap_wf(st),
        forall|k: int| 0 <= k < toks.len() ==> uniform_token(#[trigger] toks[k]),
    ensures
        wrap_wf(wrap_tokens(st, toks, i, style, link, max)),
    decreases toks.len() - i,
{
    if i < toks.len() {
        lemma_wrap_token(st, toks[i as int], style, link, max);
        lemma_wrap_tokens(wrap_token(st, toks[i as int], style, link, max), toks, i + 1, style, link, max);
    }
}

proof fn lemma_wrap_from(st: WrapState, runs: Seq<RunView>, i: nat, max: nat)
    requires
        wrap_wf(st),
    ensures
        wrap_wf(wrap_from(st, runs, i, max)),
    decreases runs.len() - i,
{
    if i < runs.len() {
        let r = runs[i as int];
        lemma_tokenize_uniform(r.text);
        lemma_wrap_tokens(st, tokenize_spec(r.text), 0, r.style, r.link, max);
        lemma_wrap_from(wrap_tokens(st, tokenize_spec(r.text), 0, r.style, r.link, max), runs, i + 1, max);
    }
}

/// Wrapping never starts a line with whitespace: every wrapped line is empty or starts with
/// a run that holds something other than whitespace.
pub proof fn law_wrapped_lines_start_with_text(runs: Seq<RunView>, max: nat)
    ensures
        forall|k: int| 0 <= k < wrap_runs_spec(runs, max).len() ==> #[trigger] starts_with_text(wrap_runs_spec(runs, max)[k]),
{
    lemma_wrap_from(wrap_start(), runs, 0, max);
    let st = wrap_from(wrap_start(), runs, 0, max);
    let ls = wrap_runs_spec(runs, max);
    assert forall|k: int| 0 <= k < ls.len() implies #[trigger] starts_with_text(ls[k]) by {
        if k < st.done.len() {
            assert(ls[k] == st.done[k]);
        } else {
            assert(ls[k] == st.line);
        }
    }
}

/// The cells a run is known to take: the smaller of its width as a whole and the sum of its
/// characters' widths. Whole words are counted by the first and pieces of split words by
/// the second, so a run never takes more than wrapping counted for it.
pub open spec fn run_cells(r: RunView) -> nat {
    let whole = str_display_width(r.text) as nat;
    let each = cells(r.text);
    if whole <= each { whole } else { each }
}

/// The cells of a line: the sum of its runs' cells.
pub open spec fn line_cells(line: Seq<RunView>) -> nat
    decreases line.len(),
{
    if line.len() == 0 { 0 } else { line_cells(line.drop_last()) + run_cells(line.last()) }
}

/// A line without the runs of only whitespace at its end.
pub open spec fn trim_white_end(line: Seq<RunView>) -> Seq<RunView>
    decreases line.len(),
{
    if line.len() > 0 && all_white(line.last().text) { trim_white_end(line.drop_last()) } else { line }
}

/// Whether a line fits in `max` cells, whitespace at its end aside, or holds a single
/// character wider than `max` with nothing that takes cells before it.
pub open spec fn line_fits(line: Seq<RunView>, max: nat) -> bool {
    let t = trim_white_end(line);
    ||| line_cells(t) <= max
    ||| (t.len() > 0 && t.last().text.len() == 1 && line_cells(t.drop_last()) == 0)
}

/// Whether every line fits, and the line under way takes no more than the cells counted for
/// it (unless the count has reached its ceiling).
spec fn fits_wf(st: WrapState, max: nat) -> bool {
    &&& (line_cells(st.line) <= st.width || st.width == usize::MAX)
    &&& line_fits(st.line, max)
    &&& forall|k: int| 0 <= k < st.done.len() ==> #[trigger] line_fits(st.done[k], max)
}

proof fn lemma_trim_cells(line: Seq<RunView>)
    ensures
        line_cells(trim_white_end(line)) <= line_cells(line),
    decreases line.len(),
{
    if line.len() > 0 && all_white(line.last().text) {
        lemma_trim_cells(line.drop_last());
    }
}

proof fn lemma_push_cells(line: Seq<RunView>, r: RunView)
    ensures
        line_cells(line.push(r)) == line_cells(line) + run_cells(r),
        all_white(r.text) ==> trim_white_end(line.push(r)) == trim_white_end(line),
        !all_white(r.text) ==> trim_white_end(line.push(r)) == line.push(r),
        line.push(r).drop_last() == line,
        line.push(r).last() == r,
{
    assert(line.push(r).drop_last() =~= line);
}

proof fn lemma_fits_break(st: WrapState, max: nat)
    requires
        fits_wf(st, max),
    ensures
        fits_wf(break_line(st), max),
{
    let b = break_line(st);
    assert forall|k: int| 0 <= k < b.done.len() implies #[trigger] line_fits(b.done[k], max) by {
        if k < st.done.len() {
            assert(b.done[k] == st.done[k]);
        }
    }
}

proof fn lemma_fits_chunk(
    done: Seq<Seq<RunView>>,
    line: Seq<RunView>,
    chunk: Seq<char>,
    chunk_w: nat,
    tok: Seq<char>,
    i: nat,
    style: TermStyle,
    link: Option<Seq<char>>,
    max: nat,
)
    requires
        i <= tok.len(),
        no_white(tok),
        no_white(chunk),
        line_cells(line) == 0,
        chunk_w == cells(chunk),
        chunk_w <= max || chunk.len() <= 1,
        forall|k: int| 0 <= k < done.len() ==> #[trigger] line_fits(done[k], max),
    ensures
        fits_wf(chunk_from(done, line, chunk, chunk_w, tok, i, style, link, max), max),
    decreases tok.len() - i,
{
    let r = RunView { text: chunk, style, link };
    lemma_push_cells(line, r);
    lemma_trim_cells(line);
    if chunk.len() > 0 {
        assert(!unicode_white_space(chunk[0]));
        assert(!all_white(chunk));
    }
    assert(chunk.len() > 0 ==> line_fits(line.push(r), max));
    if i < tok.len() {
        let w = cell_width(tok[i as int]);
        let c = tok[i as int];
        assert(!unicode_white_space(c));
        if chunk_w + w > max && chunk.len() > 0 {
            let done2 = done.push(line.push(r));
            assert forall|k: int| 0 <= k < done2.len() implies #[trigger] line_fits(done2[k], max) by {
                if k < done.len() {
                    assert(done2[k] == done[k]);
                }
            }
            assert(no_white(seq![c]));
            assert(seq![c].drop_last() =~= Seq::<char>::empty());
            assert(seq![c].last() == c);
            assert(cells(Seq::<char>::empty()) == 0);
            assert(cells(seq![c]) == w);
            lemma_fits_chunk(done2, Seq::empty(), seq![c], w, tok, i + 1, style, link, max);
        } else {
            let chunk2 = chunk.push(c);
            assert(no_white(chunk2)) by {
                assert forall|j: int| 0 <= j < chunk2.len() implies !unicode_white_space(#[trigger] chunk2[j]) by {
                    if j < chunk.len() {
                        assert(chunk2[j] == chunk[j]);
                    }
                }
            }
            assert(chunk2.drop_last() =~= chunk);
            lemma_fits_chunk(done, line, chunk2, chunk_w + w, tok, i + 1, style, link, max);
        }
    }
}

proof fn lemma_fits_token(st: WrapState, tok: Seq<char>, style: TermStyle, link: Option<Seq<char>>, max: nat)
    requires
        fits_wf(st, max),
        uniform_token(tok),
        max < usize::MAX,
    ensures
        fits_wf(wrap_token(st, tok, style, link, max), max),
{
    if tok == seq!['\n'] {
        lemma_fits_break(st, max);
    } else {
        let tw = str_display_width(tok) as nat;
        let space = all_white(tok);
        if tw > max && !space {
            assert(no_white(tok));
            let st0 = if st.width > 0 { break_line(st) } else { st };
            if st.width > 0 {
                lemma_fits_break(st, max);
            }
            assert(no_white(Seq::<char>::empty()));
            lemma_fits_chunk(st0.done, st0.line, Seq::empty(), 0, tok, 0, style, link, max);
        } else {
            let st1 = if st.width + tw > max && st.width > 0 && !space { break_line(st) } else { st };
            if st.width + tw > max && st.width > 0 && !space {
                lemma_fits_break(st, max);
            }
            if !(st1.width == 0 && space) {
                let r = RunView { text: tok, style, link };
                lemma_push_cells(st1.line, r);
                assert(run_cells(r) <= tw);
                if !space {
                    assert(line_cells(st1.line) <= st1.width);
                    assert(st1.width + tw <= max);
                    assert(line_cells(st1.line.push(r)) <= max);
                }
            }
        }
    }
}

proof fn lemma_fits_tokens(st: WrapState, toks: Seq<Seq<char>>, i: nat, style: TermStyle, link: Option<Seq<char>>, max: nat)
    requires
        fits_wf(st, max),
        max < usize::MAX,
        forall|k: int| 0 <= k < toks.len() ==> uniform_token(#[trigger] toks[k]),
    ensures
        fits_wf(wrap_tokens(st, toks, i, style, link, max), max),
    decreases toks.len() - i,
{
    if i < toks.len() {
        lemma_fits_token(st, toks[i as int], style, link, max);
        lemma_fits_tokens(wrap_token(st, toks[i as int], style, link, max), toks, i + 1, style, link, max);
    }
}

proof fn lemma_fits_from(st: WrapState, runs: Seq<RunView>, i: nat, max: nat)
    requires
        fits_wf(st, max),
        max < usize::MAX,
    ensures
        fits_wf(wrap_from(st, runs, i, max), max),
    decreases runs.len() - i,
{
    if i < runs.len() {
        let r = runs[i as int];
        lemma_tokenize_uniform(r.text);
        lemma_fits_tokens(st, tokenize_spec(r.text), 0, r.style, r.link, max);
        lemma_fits_from(wrap_tokens(st, tokenize_spec(r.text), 0, r.style, r.link, max), runs, i + 1, max);
    }
}

/// Every wrapped line fits the width: whitespace at its end aside, a line takes at most
/// `max` cells, unless it holds a single character wider than `max` (a word wider than the
/// line is split into pieces, each on a line of its own).
pub proof fn law_wrapped_lines_fit(runs: Seq<RunView>, max: nat)
    requires
        max < usize::MAX,
    ensures
        forall|k: int| 0 <= k < wrap_runs_spec(runs, max).len() ==> #[trigger] line_fits(wrap_runs_spec(runs, max)[k], max),
{
    lemma_fits_from(wrap_start(), runs, 0, max);
    let st = wrap_from(wrap_start(), runs, 0, max);
    let ls = wrap_runs_spec(runs, max);
    assert forall|k: int| 0 <= k < ls.len() implies #[trigger] line_fits(ls[k], max) by {
        if k < st.done.len() {
            assert(ls[k] == st.done[k]);
        } else {
            assert(ls[k] == st.line);
        }
    }
}

} // verus!
