//! The cards of the artifact sidebar's flat sections and the rows of its vault section:
//! which entries or rows are shown for the section's scroll offset, where each sits, where a
//! card's buttons (view, edit, save or export, delete) are and what a vault row's click
//! does; and the kind of an artifact told by its path's extension.
use vstd::prelude::*;
use crate::artifacts::{
    ArtifactEntry, ArtifactHandle, ArtifactKind, ArtifactOrigin, ArtifactRowHitAreas, ArtifactSidebarAction, HandleView,
    ROW_HEIGHT, SidebarActionView, VaultNode, VaultNodeHitArea, VaultNodeKind, action_label_spec, action_view, handle_view,
};
use crate::geometry::{Rect, rect_new, sat_add16};
use crate::render::sat_sub;
use crate::text::{chars_of, string_from_chars};
use crate::name_set::same_text;
use crate::vault_tree::{components_of, path_components};

verus! {

/// A button labelled `label` at column `x` of row `y`: two cells wider than the label, one
/// row high.
pub open spec fn button_rect(x: u16, y: u16, label: Seq<char>) -> Rect {
    rect_new(x, y, (label.len() + 2) as u16, 1)
}

/// The column after a button labelled `label` at `x`, with one cell of space, capped at the
/// largest `u16`.
pub open spec fn after_button(x: u16, label: Seq<char>) -> u16 {
    sat_add16(x, (label.len() + 3) as u16)
}

/// The label of the save-like button of an entry, if it has one.
pub open spec fn save_button(origin: ArtifactOrigin, kind: ArtifactKind, has_vault: bool) -> Option<Seq<char>> {
    action_label_spec(origin, kind, has_vault)
}

/// The buttons of a card at `area`, on its third row from the left edge: view; edit for a
/// saved file; the save-like button when the entry has one; delete. Each entry of the
/// result is a button's area; the second, third and fourth are absent when the card has no
/// such button.
pub open spec fn card_buttons(area: Rect, origin: ArtifactOrigin, kind: ArtifactKind, has_vault: bool) -> (Rect, Option<Rect>, Option<Rect>, Option<Rect>) {
    let y = (area.y + 2) as u16;
    let x0 = area.x;
    let open = button_rect(x0, y, "View"@);
    let x1 = after_button(x0, "View"@);
    let edit = if origin == ArtifactOrigin::Saved { Some(button_rect(x1, y, "Edit"@)) } else { None };
    let x2 = if origin == ArtifactOrigin::Saved { after_button(x1, "Edit"@) } else { x1 };
    let save = match save_button(origin, kind, has_vault) {
        Some(l) => Some(button_rect(x2, y, l)),
        None => None,
    };
    let x3 = match save_button(origin, kind, has_vault) {
        Some(l) => after_button(x2, l),
        None => x2,
    };
    (open, edit, save, Some(button_rect(x3, y, "Del"@)))
}

/// Whether `r` holds the buttons of `entry`'s card at `area` (see `card_buttons`).
pub open spec fn card_areas_are(r: ArtifactRowHitAreas, entry: ArtifactEntry, area: Rect, has_vault: bool) -> bool {
    let b = card_buttons(area, entry.origin, entry.kind, has_vault);
    &&& handle_view(r.handle) == handle_view(entry.handle)
    &&& r.open == b.0
    &&& r.edit == b.1
    &&& r.save == b.2
    &&& r.delete == b.3
}

/// A button labelled `label` at `*x` on row `y`; `*x` moves past it and a space.
fn button_area(x: &mut u16, y: u16, label: &str) -> (r: Rect)
    requires
        label@.len() + 3 <= u16::MAX,
    ensures
        r == button_rect(*old(x), y, label@),
        *final(x) == after_button(*old(x), label@),
{
    let width = chars_of(label).len() as u16 + 2;
    let rect = Rect::new(*x, y, width, 1);
    *x = (*x).saturating_add(width + 1);
    rect
}

/// The buttons of `entry`'s card at `area` (see `card_buttons`); the card must have its
/// third row within the coordinate range.
pub fn card_hit_areas(area: Rect, entry: &ArtifactEntry, has_vault: bool) -> (r: ArtifactRowHitAreas)
    requires
        area.y + 2 <= u16::MAX,
    ensures
        card_areas_are(r, *entry, area, has_vault),
{
    proof {
        reveal_strlit("View");
        reveal_strlit("Edit");
        reveal_strlit("Del");
        reveal_strlit("Vault");
        reveal_strlit("Save");
        reveal_strlit("Export");
        reveal_strlit("Exp");
    }
    let mut x = area.x;
    let y = area.y + 2;
    let open = button_area(&mut x, y, "View");
    let edit = if entry.origin == ArtifactOrigin::Saved { Some(button_area(&mut x, y, "Edit")) } else { None };
    let save = if entry.can_save(has_vault) {
        let label = entry.save_label(has_vault);
        Some(button_area(&mut x, y, label))
    } else {
        None
    };
    let delete = if entry.can_delete() { Some(button_area(&mut x, y, "Del")) } else { None };
    ArtifactRowHitAreas { handle: entry.handle.duplicate(), open, edit, save, delete }
}

/// The cards shown in a section: the rows a body of `height` shows (one card per three,
/// at least one), and the scroll offset kept within the entries for at most `max_rows`
/// cards.
pub open spec fn section_scroll(scroll: nat, len: nat, height: u16, max_rows: nat) -> nat {
    let per = if height / ROW_HEIGHT >= 1 { (height / ROW_HEIGHT) as nat } else { 1 };
    let visible = if per <= max_rows { per } else { max_rows };
    let max = sat_sub(len, visible);
    if scroll <= max { scroll } else { max }
}

/// The number of cards the body `body` shows from `scroll` on among `len` entries.
pub open spec fn cards_shown(body: Rect, scroll: nat, len: nat) -> nat {
    let per: nat = if body.height / ROW_HEIGHT >= 1 { (body.height / ROW_HEIGHT) as nat } else { 1 };
    let left = sat_sub(len, scroll);
    if left <= per { left } else { per }
}

/// The area of the `k`-th card shown in `body`: three rows each, from the top.
pub open spec fn card_area(body: Rect, k: nat) -> Rect {
    rect_new(body.x, (body.y + k * 3) as u16, body.width, 3)
}

/// Whether `rows` are the cards of a flat section's body `body` holding `entries` from
/// `scroll` on: none when the body is narrower than a cell or a card from its top would
/// pass the last row of the coordinate range; otherwise one card for each entry shown, in
/// order (a body shorter than a card still shows one).
pub open spec fn cards_are(rows: Seq<ArtifactRowHitAreas>, body: Rect, entries: Seq<ArtifactEntry>, scroll: nat, has_vault: bool) -> bool {
    if body.width == 0 || body.y + 3 > u16::MAX {
        rows.len() == 0
    } else {
        &&& rows.len() == cards_shown(body, scroll, entries.len())
        &&& forall|k: int| 0 <= k < rows.len() ==> card_areas_are(#[trigger] rows[k], entries[scroll + k], card_area(body, k as nat), has_vault)
    }
}

/// Lays out a flat section's body `body`: `None` when the section is folded or the body
/// has no rows (nothing is drawn and the offset is kept); otherwise the scroll offset kept
/// within the entries for at most `max_rows` cards (see `section_scroll`) and the cards from
/// it on (see `cards_are`). The body must lie within the coordinate range.
pub fn flat_section_cards(
    body: Rect,
    entries: &Vec<ArtifactEntry>,
    scroll: usize,
    max_rows: usize,
    collapsed: bool,
    has_vault: bool,
) -> (r: Option<(usize, Vec<ArtifactRowHitAreas>)>)
    requires
        body.y + body.height <= u16::MAX,
    ensures
        collapsed || body.height == 0 ==> r is None,
        !(collapsed || body.height == 0) ==> (r matches Some(p) && p.0 == section_scroll(scroll as nat, entries@.len(), body.height, max_rows as nat)
            && cards_are(p.1@, body, entries@, p.0 as nat, has_vault)),
{
    if collapsed || body.height == 0 {
        return None;
    }
    let per: usize = if body.height / ROW_HEIGHT >= 1 { (body.height / ROW_HEIGHT) as usize } else { 1 };
    let visible = if per <= max_rows { per } else { max_rows };
    let max = if entries.len() >= visible { entries.len() - visible } else { 0 };
    let off = if scroll <= max { scroll } else { max };
    let mut rows: Vec<ArtifactRowHitAreas> = Vec::new();
    if body.width == 0 || body.y > 65532 {
        return Some((off, rows));
    }
    let left = entries.len() - off;
    let count = if left <= per { left } else { per };
    let mut k: usize = 0;
    while k < count
        invariant
            k <= count,
            count <= per,
            per == (if body.height / ROW_HEIGHT >= 1 { (body.height / ROW_HEIGHT) as usize } else { 1usize }),
            body.y + 3 <= u16::MAX,
            off + count <= entries.len(),
            body.y + body.height <= u16::MAX,
            rows@.len() == k,
            forall|j: int| 0 <= j < k ==> card_areas_are(#[trigger] rows@[j], entries@[off + j], card_area(body, j as nat), has_vault),
        decreases count - k,
    {
        let row_area = Rect::new(body.x, body.y + (k as u16) * 3, body.width, 3);
        proof {
            assert(row_area == card_area(body, k as nat));
        }
        let card = card_hit_areas(row_area, &entries[off + k], has_vault);
        rows.push(card);
        k = k + 1;
    }
    Some((off, rows))
}

/// The position of the last dot of `name[..i]`, or -1 when there is none.
pub open spec fn last_dot_before(name: Seq<char>, i: int) -> int
    decreases i,
{
    if i <= 0 {
        -1
    } else if name[i - 1] == '.' {
        i - 1
    } else {
        last_dot_before(name, i - 1)
    }
}

/// The extension of file name `name`: what follows its last dot, unless it has no dot or its
/// last dot is its first character.
pub open spec fn name_extension(name: Seq<char>) -> Option<Seq<char>> {
    let d = last_dot_before(name, name.len() as int);
    if d <= 0 { None } else { Some(name.skip(d + 1)) }
}

/// The extension of a path written with slashes: that of its last component, when that is
/// a name (not the root, `.` or `..`).
pub open spec fn path_extension(path: Seq<char>) -> Option<Seq<char>> {
    let comps = path_components(path);
    if comps.len() == 0 {
        None
    } else {
        let last = comps.last();
        if last == "/"@ || last == "."@ || last == ".."@ { None } else { name_extension(last) }
    }
}

/// `c` in lower case when it is an ASCII capital letter.
pub open spec fn ascii_lower(c: char) -> char {
    if 'A' <= c <= 'Z' { ((c as u32) + 32) as char } else { c }
}

/// The kind of an artifact at `path` with `content`: by its extension in ASCII lower case
/// (`md` markdown; `txt`, `log`, `json`, `yaml`, `yml` text; `png`, `jpg`, `jpeg`, `gif`,
/// `webp`, `bmp` image; `mp4`, `mkv`, `mov`, `webm` video; `mp3`, `wav`, `ogg`, `flac`
/// audio); otherwise text when it has content and binary when it has none.
pub open spec fn infer_kind_spec(path: Seq<char>, has_content: bool) -> ArtifactKind {
    let ext = match path_extension(path) {
        Some(e) => Some(e.map_values(|c: char| ascii_lower(c))),
        None => None,
    };
    match ext {
        Some(e) => if e == "md"@ {
            ArtifactKind::Markdown
        } else if e == "txt"@ || e == "log"@ || e == "json"@ || e == "yaml"@ || e == "yml"@ {
            ArtifactKind::Text
        } else if e == "png"@ || e == "jpg"@ || e == "jpeg"@ || e == "gif"@ || e == "webp"@ || e == "bmp"@ {
            ArtifactKind::Image
        } else if e == "mp4"@ || e == "mkv"@ || e == "mov"@ || e == "webm"@ {
            ArtifactKind::Video
        } else if e == "mp3"@ || e == "wav"@ || e == "ogg"@ || e == "flac"@ {
            ArtifactKind::Audio
        } else if has_content {
            ArtifactKind::Text
        } else {
            ArtifactKind::Binary
        },
        None => if has_content { ArtifactKind::Text } else { ArtifactKind::Binary },
    }
}

/// The extension of `path` in ASCII lower case, if it has one.
pub open spec fn lowered_extension(path: Seq<char>) -> Option<Seq<char>> {
    match path_extension(path) {
        Some(e) => Some(e.map_values(|c: char| ascii_lower(c))),
        None => None,
    }
}

/// An artifact's kind follows its extension, in any ASCII case: `md` is markdown; `txt`,
/// `log`, `json`, `yaml` and `yml` are text; `png`, `jpg`, `jpeg`, `gif`, `webp` and `bmp`
/// are images; `mp4`, `mkv`, `mov` and `webm` are videos; `mp3`, `wav`, `ogg` and `flac` are
/// audio. Any other extension, or none, gives text when there is content and binary when
/// there is none.
pub proof fn law_kind_follows_extension(path: Seq<char>, has_content: bool)
    ensures
        ({
            let e = lowered_extension(path);
            &&& e == Some("md"@) ==> infer_kind_spec(path, has_content) == ArtifactKind::Markdown
            &&& (e == Some("txt"@) || e == Some("log"@) || e == Some("json"@) || e == Some("yaml"@) || e == Some("yml"@))
                ==> infer_kind_spec(path, has_content) == ArtifactKind::Text
            &&& (e == Some("png"@) || e == Some("jpg"@) || e == Some("jpeg"@) || e == Some("gif"@) || e == Some("webp"@)
                || e == Some("bmp"@)) ==> infer_kind_spec(path, has_content) == ArtifactKind::Image
            &&& (e == Some("mp4"@) || e == Some("mkv"@) || e == Some("mov"@) || e == Some("webm"@))
                ==> infer_kind_spec(path, has_content) == ArtifactKind::Video
            &&& (e == Some("mp3"@) || e == Some("wav"@) || e == Some("ogg"@) || e == Some("flac"@))
                ==> infer_kind_spec(path, has_content) == ArtifactKind::Audio
            &&& !known_extension(e) ==> infer_kind_spec(path, has_content)
                == (if has_content { ArtifactKind::Text } else { ArtifactKind::Binary })
        }),
{
    reveal_strlit("md");
    reveal_strlit("txt");
    reveal_strlit("log");
    reveal_strlit("json");
    reveal_strlit("yaml");
    reveal_strlit("yml");
    reveal_strlit("png");
    reveal_strlit("jpg");
    reveal_strlit("jpeg");
    reveal_strlit("gif");
    reveal_strlit("webp");
    reveal_strlit("bmp");
    reveal_strlit("mp4");
    reveal_strlit("mkv");
    reveal_strlit("mov");
    reveal_strlit("webm");
    reveal_strlit("mp3");
    reveal_strlit("wav");
    reveal_strlit("ogg");
    reveal_strlit("flac");
    assert("txt"@.len() != "md"@.len());
    assert("log"@.len() != "md"@.len());
    assert("log"@[0] != "txt"@[0]);
    assert("json"@.len() != "md"@.len());
    assert("json"@.len() != "txt"@.len());
    assert("json"@.len() != "log"@.len());
    assert("yaml"@.len() != "md"@.len());
    assert("yaml"@.len() != "txt"@.len());
    assert("yaml"@.len() != "log"@.len());
    assert("yaml"@[0] != "json"@[0]);
    assert("yml"@.len() != "md"@.len());
    assert("yml"@[0] != "txt"@[0]);
    assert("yml"@[0] != "log"@[0]);
    assert("yml"@.len() != "json"@.len());
    assert("yml"@.len() != "yaml"@.len());
    assert("png"@.len() != "md"@.len());
    assert("png"@[0] != "txt"@[0]);
    assert("png"@[0] != "log"@[0]);
    assert("png"@.len() != "json"@.len());
    assert("png"@.len() != "yaml"@.len());
    assert("png"@[0] != "yml"@[0]);
    assert("jpg"@.len() != "md"@.len());
    assert("jpg"@[0] != "txt"@[0]);
    assert("jpg"@[0] != "log"@[0]);
    assert("jpg"@.len() != "json"@.len());
    assert("jpg"@.len() != "yaml"@.len());
    assert("jpg"@[0] != "yml"@[0]);
    assert("jpg"@[0] != "png"@[0]);
    assert("jpeg"@.len() != "md"@.len());
    assert("jpeg"@.len() != "txt"@.len());
    assert("jpeg"@.len() != "log"@.len());
    assert("jpeg"@[1] != "json"@[1]);
    assert("jpeg"@[0] != "yaml"@[0]);
    assert("jpeg"@.len() != "yml"@.len());
    assert("jpeg"@.len() != "png"@.len());
    assert("jpeg"@.len() != "jpg"@.len());
    assert("gif"@.len() != "md"@.len());
    assert("gif"@[0] != "txt"@[0]);
    assert("gif"@[0] != "log"@[0]);
    assert("gif"@.len() != "json"@.len());
    assert("gif"@.len() != "yaml"@.len());
    assert("gif"@[0] != "yml"@[0]);
    assert("gif"@[0] != "png"@[0]);
    assert("gif"@[0] != "jpg"@[0]);
    assert("gif"@.len() != "jpeg"@.len());
    assert("webp"@.len() != "md"@.len());
    assert("webp"@.len() != "txt"@.len());
    assert("webp"@.len() != "log"@.len());
    assert("webp"@[0] != "json"@[0]);
    assert("webp"@[0] != "yaml"@[0]);
    assert("webp"@.len() != "yml"@.len());
    assert("webp"@.len() != "png"@.len());
    assert("webp"@.len() != "jpg"@.len());
    assert("webp"@[0] != "jpeg"@[0]);
    assert("webp"@.len() != "gif"@.len());
    assert("bmp"@.len() != "md"@.len());
    assert("bmp"@[0] != "txt"@[0]);
    assert("bmp"@[0] != "log"@[0]);
    assert("bmp"@.len() != "json"@.len());
    assert("bmp"@.len() != "yaml"@.len());
    assert("bmp"@[0] != "yml"@[0]);
    assert("bmp"@[0] != "png"@[0]);
    assert("bmp"@[0] != "jpg"@[0]);
    assert("bmp"@.len() != "jpeg"@.len());
    assert("bmp"@[0] != "gif"@[0]);
    assert("bmp"@.len() != "webp"@.len());
    assert("mp4"@.len() != "md"@.len());
    assert("mp4"@[0] != "txt"@[0]);
    assert("mp4"@[0] != "log"@[0]);
    assert("mp4"@.len() != "json"@.len());
    assert("mp4"@.len() != "yaml"@.len());
    assert("mp4"@[0] != "yml"@[0]);
    assert("mp4"@[0] != "png"@[0]);
    assert("mp4"@[0] != "jpg"@[0]);
    assert("mp4"@.len() != "jpeg"@.len());
    assert("mp4"@[0] != "gif"@[0]);
    assert("mp4"@.len() != "webp"@.len());
    assert("mp4"@[0] != "bmp"@[0]);
    assert("mkv"@.len() != "md"@.len());
    assert("mkv"@[0] != "txt"@[0]);
    assert("mkv"@[0] != "log"@[0]);
    assert("mkv"@.len() != "json"@.len());
    assert("mkv"@.len() != "yaml"@.len());
    assert("mkv"@[0] != "yml"@[0]);
    assert("mkv"@[0] != "png"@[0]);
    assert("mkv"@[0] != "jpg"@[0]);
    assert("mkv"@.len() != "jpeg"@.len());
    assert("mkv"@[0] != "gif"@[0]);
    assert("mkv"@.len() != "webp"@.len());
    assert("mkv"@[0] != "bmp"@[0]);
    assert("mkv"@[1] != "mp4"@[1]);
    assert("mov"@.len() != "md"@.len());
    assert("mov"@[0] != "txt"@[0]);
    assert("mov"@[0] != "log"@[0]);
    assert("mov"@.len() != "json"@.len());
    assert("mov"@.len() != "yaml"@.len());
    assert("mov"@[0] != "yml"@[0]);
    assert("mov"@[0] != "png"@[0]);
    assert("mov"@[0] != "jpg"@[0]);
    assert("mov"@.len() != "jpeg"@.len());
    assert("mov"@[0] != "gif"@[0]);
    assert("mov"@.len() != "webp"@.len());
    assert("mov"@[0] != "bmp"@[0]);
    assert("mov"@[1] != "mp4"@[1]);
    assert("mov"@[1] != "mkv"@[1]);
    assert("webm"@.len() != "md"@.len());
    assert("webm"@.len() != "txt"@.len());
    assert("webm"@.len() != "log"@.len());
    assert("webm"@[0] != "json"@[0]);
    assert("webm"@[0] != "yaml"@[0]);
    assert("webm"@.len() != "yml"@.len());
    assert("webm"@.len() != "png"@.len());
    assert("webm"@.len() != "jpg"@.len());
    assert("webm"@[0] != "jpeg"@[0]);
    assert("webm"@.len() != "gif"@.len());
    assert("webm"@[3] != "webp"@[3]);
    assert("webm"@.len() != "bmp"@.len());
    assert("webm"@.len() != "mp4"@.len());
    assert("webm"@.len() != "mkv"@.len());
    assert("webm"@.len() != "mov"@.len());
    assert("mp3"@.len() != "md"@.len());
    assert("mp3"@[0] != "txt"@[0]);
    assert("mp3"@[0] != "log"@[0]);
    assert("mp3"@.len() != "json"@.len());
    assert("mp3"@.len() != "yaml"@.len());
    assert("mp3"@[0] != "yml"@[0]);
    assert("mp3"@[0] != "png"@[0]);
    assert("mp3"@[0] != "jpg"@[0]);
    assert("mp3"@.len() != "jpeg"@.len());
    assert("mp3"@[0] != "gif"@[0]);
    assert("mp3"@.len() != "webp"@.len());
    assert("mp3"@[0] != "bmp"@[0]);
    assert("mp3"@[2] != "mp4"@[2]);
    assert("mp3"@[1] != "mkv"@[1]);
    assert("mp3"@[1] != "mov"@[1]);
    assert("mp3"@.len() != "webm"@.len());
    assert("wav"@.len() != "md"@.len());
    assert("wav"@[0] != "txt"@[0]);
    assert("wav"@[0] != "log"@[0]);
    assert("wav"@.len() != "json"@.len());
    assert("wav"@.len() != "yaml"@.len());
    assert("wav"@[0] != "yml"@[0]);
    assert("wav"@[0] != "png"@[0]);
    assert("wav"@[0] != "jpg"@[0]);
    assert("wav"@.len() != "jpeg"@.len());
    assert("wav"@[0] != "gif"@[0]);
    assert("wav"@.len() != "webp"@.len());
    assert("wav"@[0] != "bmp"@[0]);
    assert("wav"@[0] != "mp4"@[0]);
    assert("wav"@[0] != "mkv"@[0]);
    assert("wav"@[0] != "mov"@[0]);
    assert("wav"@.len() != "webm"@.len());
    assert("wav"@[0] != "mp3"@[0]);
    assert("ogg"@.len() != "md"@.len());
    assert("ogg"@[0] != "txt"@[0]);
    assert("ogg"@[0] != "log"@[0]);
    assert("ogg"@.len() != "json"@.len());
    assert("ogg"@.len() != "yaml"@.len());
    assert("ogg"@[0] != "yml"@[0]);
    assert("ogg"@[0] != "png"@[0]);
    assert("ogg"@[0] != "jpg"@[0]);
    assert("ogg"@.len() != "jpeg"@.len());
    assert("ogg"@[0] != "gif"@[0]);
    assert("ogg"@.len() != "webp"@.len());
    assert("ogg"@[0] != "bmp"@[0]);
    assert("ogg"@[0] != "mp4"@[0]);
    assert("ogg"@[0] != "mkv"@[0]);
    assert("ogg"@[0] != "mov"@[0]);
    assert("ogg"@.len() != "webm"@.len());
    assert("ogg"@[0] != "mp3"@[0]);
    assert("ogg"@[0] != "wav"@[0]);
    assert("flac"@.len() != "md"@.len());
    assert("flac"@.len() != "txt"@.len());
    assert("flac"@.len() != "log"@.len());
    assert("flac"@[0] != "json"@[0]);
    assert("flac"@[0] != "yaml"@[0]);
    assert("flac"@.len() != "yml"@.len());
    assert("flac"@.len() != "png"@.len());
    assert("flac"@.len() != "jpg"@.len());
    assert("flac"@[0] != "jpeg"@[0]);
    assert("flac"@.len() != "gif"@.len());
    assert("flac"@[0] != "webp"@[0]);
    assert("flac"@.len() != "bmp"@.len());
    assert("flac"@.len() != "mp4"@.len());
    assert("flac"@.len() != "mkv"@.len());
    assert("flac"@.len() != "mov"@.len());
    assert("flac"@[0] != "webm"@[0]);
    assert("flac"@.len() != "mp3"@.len());
    assert("flac"@.len() != "wav"@.len());
    assert("flac"@.len() != "ogg"@.len());
}

/// Whether a lowered extension is one the kinds are recognised by.
pub open spec fn known_extension(e: Option<Seq<char>>) -> bool {
    e is Some && {
        let x = e->0;
        ||| x == "md"@ || x == "txt"@ || x == "log"@ || x == "json"@ || x == "yaml"@ || x == "yml"@
        ||| x == "png"@ || x == "jpg"@ || x == "jpeg"@ || x == "gif"@ || x == "webp"@ || x == "bmp"@
        ||| x == "mp4"@ || x == "mkv"@ || x == "mov"@ || x == "webm"@
        ||| x == "mp3"@ || x == "wav"@ || x == "ogg"@ || x == "flac"@
    }
}

/// A file name's extension is what follows its last dot: a name made of a non-empty stem, a
/// dot and a dot-free extension has that extension.
pub proof fn law_name_extension_after_last_dot(stem: Seq<char>, ext: Seq<char>)
    requires
        stem.len() > 0,
        forall|i: int| 0 <= i < ext.len() ==> ext[i] != '.',
    ensures
        name_extension(stem + seq!['.'] + ext) == Some(ext),
{
    let name = stem + seq!['.'] + ext;
    let d = stem.len() as int;
    lemma_last_dot_skips(name, d, name.len() as int);
    assert(name[d] == '.');
    assert(name.skip(d + 1) =~= ext);
}

proof fn lemma_last_dot_skips(name: Seq<char>, d: int, i: int)
    requires
        0 <= d < i <= name.len(),
        name[d] == '.',
        forall|k: int| d < k < i ==> name[k] != '.',
    ensures
        last_dot_before(name, i) == d,
    decreases i,
{
    if i - 1 > d {
        lemma_last_dot_skips(name, d, i - 1);
    }
}

/// The extension of a path written with slashes (see `path_extension`).
fn extension_of(path: &str) -> (r: Option<Vec<char>>)
    ensures
        match path_extension(path@) {
            Some(e) => r matches Some(v) && v@ == e,
            None => r is None,
        },
{
    let comps = components_of(path);
    if comps.len() == 0 {
        return None;
    }
    let last = &comps[comps.len() - 1];
    proof {
        assert(path_components(path@).last() == last@);
        reveal_strlit("/");
        reveal_strlit(".");
        reveal_strlit("..");
    }
    if same_text(last.as_str(), "/") || same_text(last.as_str(), ".") || same_text(last.as_str(), "..") {
        return None;
    }
    let cs = chars_of(last.as_str());
    let mut i: usize = cs.len();
    while i > 0 && cs[i - 1] != '.'
        invariant
            i <= cs.len(),
            cs@ == last@,
            last_dot_before(cs@, i as int) == last_dot_before(cs@, cs@.len() as int),
        decreases i,
    {
        i = i - 1;
    }
    if i <= 1 {
        return None;
    }
    let mut ext: Vec<char> = Vec::new();
    let mut k: usize = i;
    while k < cs.len()
        invariant
            i <= k <= cs.len(),
            ext@ == cs@.subrange(i as int, k as int),
        decreases cs.len() - k,
    {
        ext.push(cs[k]);
        k = k + 1;
        proof {
            assert(ext@ =~= cs@.subrange(i as int, k as int));
        }
    }
    proof {
        assert(cs@.skip(i as int) =~= cs@.subrange(i as int, cs@.len() as int));
    }
    Some(ext)
}

/// The kind of an artifact at `path` with `content` (see `infer_kind_spec`).
pub fn infer_kind(path: &str, content: Option<&str>) -> (r: ArtifactKind)
    ensures
        r == infer_kind_spec(path@, content is Some),
{
    let ghost ext_spec = match path_extension(path@) {
        Some(e) => Some(e.map_values(|c: char| ascii_lower(c))),
        None => None::<Seq<char>>,
    };
    let lowered: Option<String> = match extension_of(path) {
        Some(v) => {
            let mut low: Vec<char> = Vec::new();
            let mut k: usize = 0;
            while k < v.len()
                invariant
                    k <= v.len(),
                    low@ == v@.take(k as int).map_values(|c: char| ascii_lower(c)),
                decreases v.len() - k,
            {
                let c = v[k];
                let l = if 'A' <= c && c <= 'Z' { ((c as u32) + 32) as u8 as char } else { c };
                proof {
                    if 'A' <= c && c <= 'Z' {
                        assert(((c as u32) + 32) as u8 as char == ascii_lower(c));
                    }
                }
                low.push(l);
                k = k + 1;
                proof {
                    assert(low@ =~= v@.take(k as int).map_values(|c: char| ascii_lower(c)));
                }
            }
            proof {
                assert(v@.take(v@.len() as int) =~= v@);
            }
            Some(string_from_chars(low.as_slice()))
        },
        None => None,
    };
    proof {
        reveal_strlit("md");
        reveal_strlit("txt");
        reveal_strlit("log");
        reveal_strlit("json");
        reveal_strlit("yaml");
        reveal_strlit("yml");
        reveal_strlit("png");
        reveal_strlit("jpg");
        reveal_strlit("jpeg");
        reveal_strlit("gif");
        reveal_strlit("webp");
        reveal_strlit("bmp");
        reveal_strlit("mp4");
        reveal_strlit("mkv");
        reveal_strlit("mov");
        reveal_strlit("webm");
        reveal_strlit("mp3");
        reveal_strlit("wav");
        reveal_strlit("ogg");
        reveal_strlit("flac");
    }
    let fallback = if content.is_some() { ArtifactKind::Text } else { ArtifactKind::Binary };
    match lowered {
        Some(e) => {
            let e = e.as_str();
            if same_text(e, "md") {
                ArtifactKind::Markdown
            } else if same_text(e, "txt") || same_text(e, "log") || same_text(e, "json") || same_text(e, "yaml") || same_text(e, "yml") {
                ArtifactKind::Text
            } else if same_text(e, "png") || same_text(e, "jpg") || same_text(e, "jpeg") || same_text(e, "gif") || same_text(e, "webp")
                || same_text(e, "bmp") {
                ArtifactKind::Image
            } else if same_text(e, "mp4") || same_text(e, "mkv") || same_text(e, "mov") || same_text(e, "webm") {
                ArtifactKind::Video
            } else if same_text(e, "mp3") || same_text(e, "wav") || same_text(e, "ogg") || same_text(e, "flac") {
                ArtifactKind::Audio
            } else {
                fallback
            }
        },
        None => fallback,
    }
}

/// What clicking a vault row does: a directory is folded or unfolded, a file is opened.
pub open spec fn vault_row_action(n: VaultNode) -> SidebarActionView {
    match n.kind {
        VaultNodeKind::Directory => SidebarActionView::ToggleVaultDir(n.path@),
        VaultNodeKind::File => SidebarActionView::Open(HandleView::Vault(n.path@)),
    }
}

/// Whether `rows` are the clickable rows of the vault body `body` showing `nodes` from
/// `scroll` on: one row each from the top, as many as the body has rows.
pub open spec fn vault_rows_are(rows: Seq<VaultNodeHitArea>, body: Rect, nodes: Seq<VaultNode>, scroll: nat) -> bool {
    let left = sat_sub(nodes.len(), scroll);
    &&& rows.len() == (if left <= body.height { left } else { body.height as nat })
    &&& forall|k: int| 0 <= k < rows.len() ==> {
        &&& (#[trigger] rows[k]).area == rect_new(body.x, (body.y + k) as u16, body.width, 1)
        &&& action_view(rows[k].action) == vault_row_action(nodes[scroll + k])
    }
}

/// Lays out the vault section's body `body`: `None` when the section is folded or the body
/// has no rows; otherwise the scroll offset kept within the rows (at most the rows past one
/// body) and the clickable rows from it on (see `vault_rows_are`). The body must lie within
/// the coordinate range.
pub fn vault_section_rows(body: Rect, nodes: &Vec<VaultNode>, scroll: usize, collapsed: bool) -> (r: Option<(usize, Vec<VaultNodeHitArea>)>)
    requires
        body.y + body.height <= u16::MAX,
    ensures
        collapsed || body.height == 0 ==> r is None,
        !(collapsed || body.height == 0) ==> (r matches Some(p)
            && p.0 == (if scroll <= sat_sub(nodes@.len(), body.height as nat) { scroll as nat } else { sat_sub(nodes@.len(), body.height as nat) })
            && vault_rows_are(p.1@, body, nodes@, p.0 as nat)),
{
    if collapsed || body.height == 0 {
        return None;
    }
    let visible = body.height as usize;
    let max = if nodes.len() >= visible { nodes.len() - visible } else { 0 };
    let off = if scroll <= max { scroll } else { max };
    let left = nodes.len() - off;
    let count = if left <= visible { left } else { visible };
    let mut rows: Vec<VaultNodeHitArea> = Vec::new();
    let mut k: usize = 0;
    while k < count
        invariant
            k <= count,
            count <= visible,
            visible == body.height,
            off + count <= nodes.len(),
            body.y + body.height <= u16::MAX,
            rows@.len() == k,
            forall|j: int| 0 <= j < k ==> {
                &&& (#[trigger] rows@[j]).area == rect_new(body.x, (body.y + j) as u16, body.width, 1)
                &&& action_view(rows@[j].action) == vault_row_action(nodes@[off + j])
            },
        decreases count - k,
    {
        let node = &nodes[off + k];
        let action = match node.kind {
            VaultNodeKind::Directory => ArtifactSidebarAction::ToggleVaultDir(node.path.clone()),
            VaultNodeKind::File => ArtifactSidebarAction::Open(ArtifactHandle::Vault(node.path.clone())),
        };
        rows.push(VaultNodeHitArea { action, area: Rect::new(body.x, body.y + k as u16, body.width, 1) });
        k = k + 1;
    }
    Some((off, rows))
}

/// The file name of a path written with slashes: its last component when that is a name
/// (not the root, `.` or `..`).
pub open spec fn file_name_of(path: Seq<char>) -> Option<Seq<char>> {
    let comps = path_components(path);
    if comps.len() == 0 {
        None
    } else {
        let last = comps.last();
        if last == "/"@ || last == "."@ || last == ".."@ { None } else { Some(last) }
    }
}

/// The name an artifact at `path` is listed by: its file name, else the path itself.
pub open spec fn display_name_spec(path: Seq<char>) -> Seq<char> {
    match file_name_of(path) {
        Some(n) => n,
        None => path,
    }
}

/// The name an artifact at `path` is listed by (see `display_name_spec`).
pub fn display_name(path: &str) -> (r: String)
    ensures
        r@ == display_name_spec(path@),
{
    let comps = components_of(path);
    if comps.len() == 0 {
        return String::from_str(path);
    }
    let last = &comps[comps.len() - 1];
    proof {
        assert(path_components(path@).last() == last@);
        reveal_strlit("/");
        reveal_strlit(".");
        reveal_strlit("..");
    }
    if same_text(last.as_str(), "/") || same_text(last.as_str(), ".") || same_text(last.as_str(), "..") {
        String::from_str(path)
    } else {
        last.clone()
    }
}

impl ArtifactEntry {
    /// A saved markdown file at `path` with its content.
    pub fn saved_markdown(path: String, content: String) -> (r: ArtifactEntry)
        ensures
            handle_view(r.handle) == HandleView::Saved(path@),
            r.name@ == display_name_spec(path@),
            r.kind == ArtifactKind::Markdown,
            r.origin == ArtifactOrigin::Saved,
            r.content matches Some(c) && c@ == content@,
            r.path matches Some(p) && p@ == path@,
    {
        let name = display_name(path.as_str());
        ArtifactEntry {
            handle: ArtifactHandle::Saved(path.clone()),
            name,
            kind: ArtifactKind::Markdown,
            origin: ArtifactOrigin::Saved,
            content: Some(content),
            path: Some(path),
        }
    }

    /// A saved file at `path`, its kind told by its extension.
    pub fn saved_file(path: String) -> (r: ArtifactEntry)
        ensures
            handle_view(r.handle) == HandleView::Saved(path@),
            r.name@ == display_name_spec(path@),
            r.kind == infer_kind_spec(path@, false),
            r.origin == ArtifactOrigin::Saved,
            r.content is None,
            r.path matches Some(p) && p@ == path@,
    {
        let name = display_name(path.as_str());
        let kind = infer_kind(path.as_str(), None);
        ArtifactEntry {
            handle: ArtifactHandle::Saved(path.clone()),
            name,
            kind,
            origin: ArtifactOrigin::Saved,
            content: None,
            path: Some(path),
        }
    }
}

} // verus!
