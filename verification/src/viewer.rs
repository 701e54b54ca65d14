//! The artifact viewer: which artifact is open, how far its preview is scrolled, and where
//! its buttons were drawn.
use vstd::prelude::*;
use crate::artifacts::{ArtifactEntry, ArtifactHandle, ArtifactKind};
use crate::geometry::{Rect, bordered_inner, bordered_inner_exec, rect_new, sat_add16, sat_sub16};
use crate::layout::{rect_within, split_outcome, split_layout, LayoutConstraint, LayoutDirection};
use crate::render::{HeadingDownscale, MarkdownMode, RenderOptions, RenderTheme, render_markdown, render_spec};
use crate::terminal::TerminalCapabilities;

verus! {

/// Where the viewer's buttons were drawn.
#[derive(Debug, Clone, Copy, PartialEq, Eq, Structural)]
pub struct ArtifactViewerHitAreas {
    pub close: Option<Rect>,
    pub save: Option<Rect>,
    pub delete: Option<Rect>,
}

/// The state of the artifact viewer.
#[derive(Debug, Clone)]
pub struct ArtifactViewerState {
    pub artifact: ArtifactEntry,
    pub scroll: usize,
    pub hit_areas: ArtifactViewerHitAreas,
}

impl ArtifactViewerState {
    /// A viewer opened on `artifact`, at the top, with nothing drawn yet.
    pub fn new(artifact: ArtifactEntry) -> (r: ArtifactViewerState)
        ensures
            r.artifact == artifact,
            r.scroll == 0,
            r.hit_areas == (ArtifactViewerHitAreas { close: None, save: None, delete: None }),
    {
        ArtifactViewerState { artifact, scroll: 0, hit_areas: ArtifactViewerHitAreas { close: None, save: None, delete: None } }
    }

    /// The handle of the artifact shown.
    pub fn handle(&self) -> (r: &ArtifactHandle)
        ensures
            *r == self.artifact.handle,
    {
        &self.artifact.handle
    }

    /// Keeps the scroll offset within the preview: no further than the last screenful of
    /// `viewport_height` (at least one) rows of `line_count`.
    pub fn clamp_scroll(&mut self, line_count: usize, viewport_height: usize)
        ensures
            final(self).scroll == ({
                let v: usize = if viewport_height >= 1 { viewport_height } else { 1 };
                let last: usize = if line_count >= v { (line_count - v) as usize } else { 0 };
                if old(self).scroll <= last { old(self).scroll } else { last }
            }),
            final(self).artifact == old(self).artifact,
            final(self).hit_areas == old(self).hit_areas,
    {
        let v = if viewport_height >= 1 { viewport_height } else { 1 };
        let last = if line_count >= v { line_count - v } else { 0 };
        if self.scroll > last {
            self.scroll = last;
        }
    }
}

/// The kind of an artifact as the viewer's title names it.
pub open spec fn kind_label_spec(kind: ArtifactKind) -> Seq<char> {
    match kind {
        ArtifactKind::Markdown => "md"@,
        ArtifactKind::Text => "text"@,
        ArtifactKind::Image => "image"@,
        ArtifactKind::Video => "video"@,
        ArtifactKind::Audio => "audio"@,
        ArtifactKind::Binary => "binary"@,
    }
}

/// The kind of an artifact as the viewer's title names it.
pub fn kind_label(kind: ArtifactKind) -> (r: &'static str)
    ensures
        r@ == kind_label_spec(kind),
{
    match kind {
        ArtifactKind::Markdown => "md",
        ArtifactKind::Text => "text",
        ArtifactKind::Image => "image",
        ArtifactKind::Video => "video",
        ArtifactKind::Audio => "audio",
        ArtifactKind::Binary => "binary",
    }
}

/// Where the artifact viewer sits in `area`: it asks the layout solver for rows of 8%, 84%
/// and 8%, then the middle row's columns of 6%, 88% and 6%; the result lies within the area.
pub fn popup_area(area: Rect) -> (r: Rect)
    ensures
        rect_within(rect_new(area.x, area.y, area.width, area.height), r),
{
    crate::layout::centered_rect(88, 84, area)
}

/// The constraints of the rows inside the viewer: the button row, the preview, the hint row.
pub open spec fn viewer_row_constraints() -> Seq<LayoutConstraint> {
    seq![LayoutConstraint::Length(1), LayoutConstraint::Min(0), LayoutConstraint::Length(1)]
}

/// The viewer's buttons for `entry` on row `top`: a save button (`[Save]` for markdown, else
/// `[Export]`) from the left when the entry can be saved, then the delete button after a
/// space, and the close button in the row's last three columns.
pub open spec fn viewer_buttons(top: Rect, entry: ArtifactEntry) -> ArtifactViewerHitAreas {
    let can_save = crate::artifacts::action_label_spec(entry.origin, entry.kind, true) is Some;
    let label_len: nat = if entry.kind == ArtifactKind::Markdown { 4 } else { 6 };
    let save = rect_new(top.x, top.y, (label_len + 2) as u16, 1);
    let x = if can_save { sat_add16(top.x, (save.width + 1) as u16) } else { top.x };
    ArtifactViewerHitAreas {
        close: Some(rect_new(sat_add16(top.x, sat_sub16(top.width, 3)), top.y, 3, 1)),
        save: if can_save { Some(save) } else { None },
        delete: Some(rect_new(x, top.y, 5, 1)),
    }
}

/// The markdown settings of the preview in `width` cells.
pub open spec fn preview_options(width: nat, mode: MarkdownMode, downscale: HeadingDownscale, images: bool, caps: TerminalCapabilities) -> RenderOptions {
    RenderOptions {
        mode,
        width: width as usize,
        kitty_enhanced_text: false,
        kitty_heading_downscale: downscale,
        image_protocol_enabled: images,
        terminal_capabilities: caps,
    }
}

/// The viewer's scroll offset and buttons for `entry` showing `content`, its button row being
/// `top` and its preview row `body`: an image is not scrolled; otherwise the offset is kept
/// within the last screenful of the preview's rendered lines (the content rendered two cells
/// narrower than the preview row).
pub open spec fn viewer_layout_from_spec(
    top: Rect,
    body: Rect,
    entry: ArtifactEntry,
    scroll: nat,
    content: Seq<char>,
    mode: MarkdownMode,
    downscale: HeadingDownscale,
    images: bool,
    caps: TerminalCapabilities,
    theme: RenderTheme,
) -> (nat, ArtifactViewerHitAreas) {
    let off = if entry.kind == ArtifactKind::Image {
        0
    } else {
        let lines = render_spec(content, preview_options(sat_sub16(body.width, 2) as nat, mode, downscale, images, caps), theme).lines.len();
        let v: nat = if body.height >= 1 { body.height as nat } else { 1 };
        let last: nat = if lines >= v { (lines - v) as nat } else { 0 };
        if scroll <= last { scroll } else { last }
    };
    (off, viewer_buttons(top, entry))
}

/// Whether `r` is the viewer's layout over `area` for some placement the layout solver may
/// give: a popup within the area, the rows of its bordered inside less one cell of margin,
/// and the offset and buttons those rows give.
pub open spec fn artifact_viewer_layout_spec(
    area: Rect,
    entry: ArtifactEntry,
    scroll: nat,
    content: Seq<char>,
    mode: MarkdownMode,
    downscale: HeadingDownscale,
    images: bool,
    caps: TerminalCapabilities,
    theme: RenderTheme,
    r: (nat, ArtifactViewerHitAreas),
) -> bool {
    exists|popup: Rect, rows: Seq<Rect>| {
        &&& rect_within(rect_new(area.x, area.y, area.width, area.height), popup)
        &&& #[trigger] split_outcome(bordered_inner(popup), LayoutDirection::Vertical, 1, viewer_row_constraints(), rows)
        &&& r == viewer_layout_from_spec(rows[0], rows[1], entry, scroll, content, mode, downscale, images, caps, theme)
    }
}

/// Lays out the viewer (see `artifact_viewer_layout_spec`); `content` is what the preview
/// shows: the entry's content, else its file's text, else a note that no preview is there.
pub fn artifact_viewer_layout(
    area: Rect,
    entry: &ArtifactEntry,
    scroll: usize,
    content: &str,
    mode: MarkdownMode,
    downscale: HeadingDownscale,
    images: bool,
    caps: TerminalCapabilities,
    theme: &RenderTheme,
) -> (r: (usize, ArtifactViewerHitAreas))
    ensures
        artifact_viewer_layout_spec(area, *entry, scroll as nat, content@, mode, downscale, images, caps, *theme, (r.0 as nat, r.1)),
{
    let (popup, rows) = viewer_frame(area);
    let r = viewer_layout_from_rows(rows[0], rows[1], entry, scroll, content, mode, downscale, images, caps, theme);
    proof {
        assert(split_outcome(bordered_inner(popup), LayoutDirection::Vertical, 1, viewer_row_constraints(), rows@));
    }
    r
}

/// The viewer popup over `area` and its rows (the button row, the preview, the hint row), as
/// the layout solver gives them: the popup lies within the area and the rows inside its
/// border, one cell in. Drawing and clicks both use these.
pub fn viewer_frame(area: Rect) -> (r: (Rect, Vec<Rect>))
    ensures
        rect_within(rect_new(area.x, area.y, area.width, area.height), r.0),
        split_outcome(bordered_inner(r.0), LayoutDirection::Vertical, 1, viewer_row_constraints(), r.1@),
{
    let popup = popup_area(area);
    let inner = bordered_inner_exec(popup);
    let cs = vec![LayoutConstraint::Length(1), LayoutConstraint::Min(0), LayoutConstraint::Length(1)];
    proof {
        assert(cs@ =~= viewer_row_constraints());
    }
    let rows = split_layout(inner, LayoutDirection::Vertical, 1, &cs);
    (popup, rows)
}

/// The viewer's scroll offset and buttons with the button row `top` and the preview row
/// `body` (see `viewer_layout_from_spec`).
pub fn viewer_layout_from_rows(
    top: Rect,
    body: Rect,
    entry: &ArtifactEntry,
    scroll: usize,
    content: &str,
    mode: MarkdownMode,
    downscale: HeadingDownscale,
    images: bool,
    caps: TerminalCapabilities,
    theme: &RenderTheme,
) -> (r: (usize, ArtifactViewerHitAreas))
    ensures
        (r.0 as nat, r.1) == viewer_layout_from_spec(top, body, *entry, scroll as nat, content@, mode, downscale, images, caps, *theme),
{
    let can_save = entry.can_save(true);
    let label_len: u16 = if entry.is_markdown() { 4 } else { 6 };
    let save = Rect::new(top.x, top.y, label_len + 2, 1);
    let x = if can_save { top.x.saturating_add(save.width + 1) } else { top.x };
    let buttons = ArtifactViewerHitAreas {
        close: Some(Rect::new(top.x.saturating_add(top.width.saturating_sub(3)), top.y, 3, 1)),
        save: if can_save { Some(save) } else { None },
        delete: Some(Rect::new(x, top.y, 5, 1)),
    };
    if entry.kind == ArtifactKind::Image {
        return (0, buttons);
    }
    let opts = RenderOptions {
        mode,
        width: body.width.saturating_sub(2) as usize,
        kitty_enhanced_text: false,
        kitty_heading_downscale: downscale,
        image_protocol_enabled: images,
        terminal_capabilities: caps,
    };
    let rendered = render_markdown(content, opts, theme);
    let lines = rendered.lines.len();
    let v: usize = if body.height >= 1 { body.height as usize } else { 1 };
    let last = if lines >= v { lines - v } else { 0 };
    (if scroll <= last { scroll } else { last }, buttons)
}

} // verus!
