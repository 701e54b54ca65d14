//! The export dialog: where a conversation or memory is written in clear text, in which
//! format, and how the focus moves among its controls.
use vstd::prelude::*;
use crate::geometry::Rect;

verus! {

/// The controls of the export dialog, in tab order.
#[derive(Debug, Clone, Copy, PartialEq, Eq, Structural)]
pub enum ExportDialogFocus {
    Path,
    Markdown,
    Json,
    Export,
    Cancel,
}

/// The formats the dialog can write.
#[derive(Debug, Clone, Copy, PartialEq, Eq, Structural)]
pub enum OutputFormat {
    Markdown,
    Json,
}

/// What is exported: a conversation by its id, or a memory by its path.
#[derive(Debug, Clone, PartialEq, Eq)]
pub enum ExportTarget {
    Conversation(i64),
    Memory(String),
}

/// Where the dialog's buttons were drawn.
#[derive(Debug, Clone, Copy, PartialEq, Eq, Structural)]
pub struct ExportDialogHitAreas {
    pub markdown: Option<Rect>,
    pub json: Option<Rect>,
    pub export: Option<Rect>,
    pub cancel: Option<Rect>,
}

/// The export dialog's state.
#[derive(Debug, Clone)]
pub struct ExportDialog {
    pub target: ExportTarget,
    pub item_name: String,
    pub directory_input: String,
    pub format: OutputFormat,
    pub focus: ExportDialogFocus,
    pub hit_areas: ExportDialogHitAreas,
}

/// The tab-order position of a control.
pub open spec fn export_focus_index(f: ExportDialogFocus) -> nat {
    match f {
        ExportDialogFocus::Path => 0,
        ExportDialogFocus::Markdown => 1,
        ExportDialogFocus::Json => 2,
        ExportDialogFocus::Export => 3,
        ExportDialogFocus::Cancel => 4,
    }
}

impl ExportDialog {
    /// Where the export dialog sits in `area`: it asks the layout solver for eighteen rows
    /// (within the area's limits) and 64% of the width, in the middle; the result lies
    /// within the area.
    pub fn popup_area(area: Rect) -> (r: Rect)
        ensures
            crate::layout::rect_within(crate::geometry::rect_new(area.x, area.y, area.width, area.height), r),
    {
        crate::layout::centered_rect_in(64, 18, area)
    }

    /// A dialog exporting `target` named `item_name` into `base_dir`, as markdown, with the
    /// directory field focused and nothing drawn yet.
    pub fn new(target: ExportTarget, item_name: String, base_dir: String) -> (r: ExportDialog)
        ensures
            r.target == target,
            r.item_name@ == item_name@,
            r.directory_input@ == base_dir@,
            r.format == OutputFormat::Markdown,
            r.focus == ExportDialogFocus::Path,
            r.hit_areas == (ExportDialogHitAreas { markdown: None, json: None, export: None, cancel: None }),
    {
        ExportDialog {
            target,
            item_name,
            directory_input: base_dir,
            format: OutputFormat::Markdown,
            focus: ExportDialogFocus::Path,
            hit_areas: ExportDialogHitAreas { markdown: None, json: None, export: None, cancel: None },
        }
    }

    /// Moves the focus to the next control (`forward`) or the previous one, wrapping around.
    pub fn cycle_focus(&mut self, forward: bool)
        ensures
            forward ==> export_focus_index(final(self).focus) == (export_focus_index(old(self).focus) + 1) % 5,
            !forward ==> export_focus_index(final(self).focus) == (export_focus_index(old(self).focus) + 4) % 5,
            final(self).format == old(self).format,
            final(self).directory_input@ == old(self).directory_input@,
            final(self).hit_areas == old(self).hit_areas,
    {
        self.focus = match (self.focus, forward) {
            (ExportDialogFocus::Path, true) => ExportDialogFocus::Markdown,
            (ExportDialogFocus::Markdown, true) => ExportDialogFocus::Json,
            (ExportDialogFocus::Json, true) => ExportDialogFocus::Export,
            (ExportDialogFocus::Export, true) => ExportDialogFocus::Cancel,
            (ExportDialogFocus::Cancel, true) => ExportDialogFocus::Path,
            (ExportDialogFocus::Path, false) => ExportDialogFocus::Cancel,
            (ExportDialogFocus::Markdown, false) => ExportDialogFocus::Path,
            (ExportDialogFocus::Json, false) => ExportDialogFocus::Markdown,
            (ExportDialogFocus::Export, false) => ExportDialogFocus::Json,
            (ExportDialogFocus::Cancel, false) => ExportDialogFocus::Export,
        };
    }
}

/// In the export dialog, moving the focus back undoes moving it forward.
pub proof fn law_export_focus_back_undoes_forward(f: ExportDialogFocus, n: ExportDialogFocus, p: ExportDialogFocus)
    requires
        export_focus_index(n) == (export_focus_index(f) + 1) % 5,
        export_focus_index(p) == (export_focus_index(n) + 4) % 5,
    ensures
        p == f,
{
}

} // verus!
