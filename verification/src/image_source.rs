//! Where an image named in markdown is looked for: web sources are not local, `file://`
//! URLs name a path, `~/` paths are under the home directory, other names are paths to
//! check on disk.
use vstd::prelude::*;
use crate::markdown::{leading_run, trailing_run, leading_run_len, trailing_run_len, starts_with, chars_start_with};
use crate::text::{chars_of, string_from_chars, sub_chars, trim, trim_chars};

verus! {

/// What an image source names.
#[derive(Debug, Clone, PartialEq, Eq)]
pub enum ImageSourceKind {
    /// An `http://` or `https://` address: never a local file.
    Web,
    /// A path given by a `file://` URL; it is taken as it is.
    FileUrl(String),
    /// A path relative to the home directory (what follows `~/`).
    HomeRelative(String),
    /// Any other path: used if it is absolute or exists, else looked up from the working
    /// directory.
    Path(String),
}

/// The abstract form of a source kind.
pub enum SourceKindView {
    Web,
    FileUrl(Seq<char>),
    HomeRelative(Seq<char>),
    Path(Seq<char>),
}

/// The abstract form of a source kind.
pub open spec fn source_kind_view(k: ImageSourceKind) -> SourceKindView {
    match k {
        ImageSourceKind::Web => SourceKindView::Web,
        ImageSourceKind::FileUrl(p) => SourceKindView::FileUrl(p@),
        ImageSourceKind::HomeRelative(p) => SourceKindView::HomeRelative(p@),
        ImageSourceKind::Path(p) => SourceKindView::Path(p@),
    }
}

/// `s` without its leading and trailing `c` characters (std `str::trim_matches` with a
/// character).
pub open spec fn strip_char(s: Seq<char>, c: char) -> Seq<char> {
    let rest = s.skip(leading_run(s, c) as int);
    rest.take(rest.len() - trailing_run(rest, c))
}

/// The source as it is looked up: trimmed, then without surrounding `<`, then without
/// surrounding `>`.
pub open spec fn cleaned_source(source: Seq<char>) -> Seq<char> {
    strip_char(strip_char(trim(source), '<'), '>')
}

/// What a cleaned image source names.
pub open spec fn source_kind_spec(source: Seq<char>) -> SourceKindView {
    let t = cleaned_source(source);
    if starts_with(t, "http://"@) || starts_with(t, "https://"@) {
        SourceKindView::Web
    } else if starts_with(t, "file://"@) {
        SourceKindView::FileUrl(t.skip(7))
    } else if starts_with(t, "~/"@) {
        SourceKindView::HomeRelative(t.skip(2))
    } else {
        SourceKindView::Path(t)
    }
}

/// `v` without its leading and trailing `c` characters.
fn strip_char_exec(v: &[char], c: char) -> (r: Vec<char>)
    ensures
        r@ == strip_char(v@, c),
{
    let lead = leading_run_len(v, c);
    let rest = sub_chars(v, lead, v.len());
    proof {
        assert(rest@ =~= v@.skip(lead as int));
    }
    let trail = trailing_run_len(rest.as_slice(), c);
    let r = sub_chars(rest.as_slice(), 0, rest.len() - trail);
    proof {
        assert(r@ =~= rest@.take(rest@.len() - trail));
    }
    r
}

/// Reads what an image source names (see `source_kind_spec`).
pub fn image_source_kind(source: &str) -> (r: ImageSourceKind)
    ensures
        source_kind_view(r) == source_kind_spec(source@),
{
    let v = chars_of(source);
    let t0 = trim_chars(v.as_slice());
    let t1 = strip_char_exec(t0.as_slice(), '<');
    let t = strip_char_exec(t1.as_slice(), '>');
    let http = chars_of("http://");
    let https = chars_of("https://");
    if chars_start_with(t.as_slice(), http.as_slice()) || chars_start_with(t.as_slice(), https.as_slice()) {
        return ImageSourceKind::Web;
    }
    let file = chars_of("file://");
    if chars_start_with(t.as_slice(), file.as_slice()) {
        proof {
            reveal_strlit("file://");
        }
        let rest = sub_chars(t.as_slice(), 7, t.len());
        proof {
            assert(rest@ =~= t@.skip(7));
        }
        return ImageSourceKind::FileUrl(string_from_chars(rest.as_slice()));
    }
    let home = chars_of("~/");
    if chars_start_with(t.as_slice(), home.as_slice()) {
        proof {
            reveal_strlit("~/");
        }
        let rest = sub_chars(t.as_slice(), 2, t.len());
        proof {
            assert(rest@ =~= t@.skip(2));
        }
        return ImageSourceKind::HomeRelative(string_from_chars(rest.as_slice()));
    }
    ImageSourceKind::Path(string_from_chars(t.as_slice()))
}

} // verus!
