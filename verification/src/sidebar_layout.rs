//! The artifact sidebar's layout: a header row for each section (artifacts, saved files,
//! memories, vault), the flat sections' bodies sized by their cards, and the vault body
//! taking the rest.
use vstd::prelude::*;
use crate::artifacts::{ArtifactSidebarState, FLAT_SECTION_MAX_ROWS, section_body_height, section_body_height_spec};
use crate::geometry::{Rect, rect_new};
use crate::artifacts::{
    ArtifactEntry, ArtifactRowHitAreas, VaultNodeHitArea, VaultNodeKind, SidebarActionView, HandleView, action_view,
};
use crate::render::sat_sub;
use crate::name_set::names_set;
use crate::sidebar_cards::{flat_section_cards, vault_section_rows, section_scroll, cards_are};
use crate::vault_tree::{NodeView, build_vault_nodes, nodes_view, vault_rows, sorted_paths, vault_paths_from, path_components};
use crate::layout::{LayoutConstraint, LayoutDirection, split_layout, split_outcome, split_space, part_of};

verus! {

/// Where the sidebar's sections were laid out: each section's header row, and its body
/// unless the section is folded.
#[derive(Debug, Clone, Copy, PartialEq, Eq, Structural)]
pub struct SidebarAreas {
    pub temp_header: Rect,
    pub temp_body: Option<Rect>,
    pub saved_header: Rect,
    pub saved_body: Option<Rect>,
    pub memory_header: Rect,
    pub memory_body: Option<Rect>,
    pub vault_header: Rect,
    pub vault_body: Option<Rect>,
}

/// The constraints of the sidebar's rows: one row per header, each flat body as tall as
/// `section_body_height_spec` says for its entries (at most three cards), and the vault body
/// taking the rest (nothing when folded).
pub open spec fn sidebar_constraints(area: Rect, counts: (nat, nat, nat), state: ArtifactSidebarState) -> Seq<LayoutConstraint> {
    let max = FLAT_SECTION_MAX_ROWS as nat;
    seq![
        LayoutConstraint::Length(1),
        LayoutConstraint::Length(section_body_height_spec(state.temp_collapsed, counts.0, max, area.height) as u16),
        LayoutConstraint::Length(1),
        LayoutConstraint::Length(section_body_height_spec(state.saved_collapsed, counts.1, max, area.height) as u16),
        LayoutConstraint::Length(1),
        LayoutConstraint::Length(section_body_height_spec(state.memory_collapsed, counts.2, max, area.height) as u16),
        LayoutConstraint::Length(1),
        if state.vault_collapsed { LayoutConstraint::Length(0) } else { LayoutConstraint::Min(0) },
    ]
}

/// The sidebar's areas from the rows the layout solver gave for `sidebar_constraints`:
/// headers and bodies in turn; a folded section has no body.
pub open spec fn sidebar_areas_from(parts: Seq<Rect>, state: ArtifactSidebarState) -> SidebarAreas {
    SidebarAreas {
        temp_header: parts[0],
        temp_body: if state.temp_collapsed { None } else { Some(parts[1]) },
        saved_header: parts[2],
        saved_body: if state.saved_collapsed { None } else { Some(parts[3]) },
        memory_header: parts[4],
        memory_body: if state.memory_collapsed { None } else { Some(parts[5]) },
        vault_header: parts[6],
        vault_body: if state.vault_collapsed { None } else { Some(parts[7]) },
    }
}

/// Whether `r` can be the sidebar's areas in `area` for `counts` temporary, saved and memory
/// entries: the areas from some rows the layout solver may give for `sidebar_constraints`.
pub open spec fn sidebar_layout_spec(area: Rect, counts: (nat, nat, nat), state: ArtifactSidebarState, r: SidebarAreas) -> bool {
    exists|parts: Seq<Rect>| #[trigger] split_outcome(area, LayoutDirection::Vertical, 0, sidebar_constraints(area, counts, state), parts)
        && r == sidebar_areas_from(parts, state)
}

/// Lays out the sidebar (see `sidebar_layout_spec`).
pub fn sidebar_layout(area: Rect, temp_count: usize, saved_count: usize, memory_count: usize, state: &ArtifactSidebarState) -> (r: SidebarAreas)
    ensures
        sidebar_layout_spec(area, (temp_count as nat, saved_count as nat, memory_count as nat), *state, r),
        r.temp_body matches Some(b) ==> b.y + b.height <= u16::MAX,
        r.saved_body matches Some(b) ==> b.y + b.height <= u16::MAX,
        r.memory_body matches Some(b) ==> b.y + b.height <= u16::MAX,
        r.vault_body matches Some(b) ==> b.y + b.height <= u16::MAX,
{
    let max = FLAT_SECTION_MAX_ROWS;
    let constraints = vec![
        LayoutConstraint::Length(1),
        LayoutConstraint::Length(section_body_height(state.temp_collapsed, temp_count, max, area.height)),
        LayoutConstraint::Length(1),
        LayoutConstraint::Length(section_body_height(state.saved_collapsed, saved_count, max, area.height)),
        LayoutConstraint::Length(1),
        LayoutConstraint::Length(section_body_height(state.memory_collapsed, memory_count, max, area.height)),
        LayoutConstraint::Length(1),
        if state.vault_collapsed { LayoutConstraint::Length(0) } else { LayoutConstraint::Min(0) },
    ];
    proof {
        assert(constraints@ =~= sidebar_constraints(area, (temp_count as nat, saved_count as nat, memory_count as nat), *state));
    }
    let parts = split_layout(area, LayoutDirection::Vertical, 0, &constraints);
    proof {
        crate::layout::lemma_split_space_in_range(area, 0);
        assert(part_of(split_space(area, 0), LayoutDirection::Vertical, parts@[1]));
        assert(part_of(split_space(area, 0), LayoutDirection::Vertical, parts@[3]));
        assert(part_of(split_space(area, 0), LayoutDirection::Vertical, parts@[5]));
        assert(part_of(split_space(area, 0), LayoutDirection::Vertical, parts@[7]));
        assert(parts@[1].y + parts@[1].height <= u16::MAX);
        assert(parts@[3].y + parts@[3].height <= u16::MAX);
        assert(parts@[5].y + parts@[5].height <= u16::MAX);
        assert(parts@[7].y + parts@[7].height <= u16::MAX);
    }
    sidebar_areas(&parts, state)
}

/// The sidebar's areas from the eight rows `parts` (see `sidebar_areas_from`).
pub fn sidebar_areas(parts: &Vec<Rect>, state: &ArtifactSidebarState) -> (r: SidebarAreas)
    requires
        parts@.len() == 8,
    ensures
        r == sidebar_areas_from(parts@, *state),
{
    SidebarAreas {
        temp_header: parts[0],
        temp_body: if state.temp_collapsed { None } else { Some(parts[1]) },
        saved_header: parts[2],
        saved_body: if state.saved_collapsed { None } else { Some(parts[3]) },
        memory_header: parts[4],
        memory_body: if state.memory_collapsed { None } else { Some(parts[5]) },
        vault_header: parts[6],
        vault_body: if state.vault_collapsed { None } else { Some(parts[7]) },
    }
}


impl ArtifactSidebarState {
    /// Keeps the section areas a drawing laid out, so that later clicks on a header or in a
    /// body are found; nothing else changes.
    pub fn record_section_areas(&mut self, areas: &SidebarAreas)
        ensures
            *final(self) == (ArtifactSidebarState {
                temp_header: Some(areas.temp_header),
                saved_header: Some(areas.saved_header),
                memory_header: Some(areas.memory_header),
                vault_header: Some(areas.vault_header),
                temp_body: areas.temp_body,
                saved_body: areas.saved_body,
                memory_body: areas.memory_body,
                vault_body: areas.vault_body,
                ..*old(self)
            }),
    {
        self.temp_header = Some(areas.temp_header);
        self.saved_header = Some(areas.saved_header);
        self.memory_header = Some(areas.memory_header);
        self.vault_header = Some(areas.vault_header);
        self.temp_body = areas.temp_body;
        self.saved_body = areas.saved_body;
        self.memory_body = areas.memory_body;
        self.vault_body = areas.vault_body;
    }
}

/// The vault rows the sidebar shows for the vault's entries with the folded directories.
pub open spec fn vault_tree_nodes(vault: Seq<ArtifactEntry>, folded: Seq<String>) -> Seq<NodeView> {
    vault_rows(
        sorted_paths(vault_paths_from(vault, 0, Seq::empty()).map_values(|p: Seq<char>| path_components(p))),
        crate::vault_tree::folded_paths(folded),
    )
}

/// What clicking a vault row does: a directory folds or unfolds, a file opens.
pub open spec fn node_action(n: NodeView) -> SidebarActionView {
    match n.kind {
        VaultNodeKind::Directory => SidebarActionView::ToggleVaultDir(n.path),
        VaultNodeKind::File => SidebarActionView::Open(HandleView::Vault(n.path)),
    }
}

/// Whether `rows` are the clickable rows of the vault body `body` showing `nodes` from
/// `scroll` on: one row each from the top, as many as the body has rows.
pub open spec fn vault_rows_shown(rows: Seq<VaultNodeHitArea>, body: Rect, nodes: Seq<NodeView>, scroll: nat) -> bool {
    let left = sat_sub(nodes.len(), scroll);
    &&& rows.len() == (if left <= body.height { left } else { body.height as nat })
    &&& forall|k: int| 0 <= k < rows.len() ==> {
        &&& (#[trigger] rows[k]).area == rect_new(body.x, (body.y + k) as u16, body.width, 1)
        &&& action_view(rows[k].action) == node_action(nodes[scroll + k])
    }
}

/// What a flat section keeps after it is laid out in `body`: with a body of some rows, the
/// scroll offset kept within its entries and its cards from there on; otherwise no cards
/// and the offset unchanged.
pub open spec fn flat_laid_out(body: Option<Rect>, entries: Seq<ArtifactEntry>, old_scroll: usize, has_vault: bool,
    new_scroll: usize, rows: Seq<ArtifactRowHitAreas>) -> bool {
    if body is Some && body->0.height > 0 {
        &&& new_scroll == section_scroll(old_scroll as nat, entries.len(), body->0.height, FLAT_SECTION_MAX_ROWS as nat)
        &&& cards_are(rows, body->0, entries, new_scroll as nat, has_vault)
    } else {
        new_scroll == old_scroll && rows.len() == 0
    }
}

/// The sidebar state `n` after laying out the sidebar with the section areas `a` from the
/// state `o`: those areas, each flat section's cards and offset, the vault rows and offset,
/// and the folds unchanged.
pub open spec fn laid_out(o: ArtifactSidebarState, n: ArtifactSidebarState, a: SidebarAreas, temp: Seq<ArtifactEntry>,
    saved: Seq<ArtifactEntry>, memories: Seq<ArtifactEntry>, vault: Seq<ArtifactEntry>, has_vault: bool) -> bool {
    let nodes = vault_tree_nodes(vault, o.collapsed_vault_dirs@);
    &&& n.temp_header == Some(a.temp_header)
    &&& n.saved_header == Some(a.saved_header)
    &&& n.memory_header == Some(a.memory_header)
    &&& n.vault_header == Some(a.vault_header)
    &&& n.temp_body == a.temp_body
    &&& n.saved_body == a.saved_body
    &&& n.memory_body == a.memory_body
    &&& n.vault_body == a.vault_body
    &&& flat_laid_out(a.temp_body, temp, o.temp_scroll, has_vault, n.temp_scroll, n.temp_rows@)
    &&& flat_laid_out(a.saved_body, saved, o.saved_scroll, has_vault, n.saved_scroll, n.saved_rows@)
    &&& flat_laid_out(a.memory_body, memories, o.memory_scroll, has_vault, n.memory_scroll, n.memory_rows@)
    &&& if a.vault_body is Some && a.vault_body->0.height > 0 {
        let b = a.vault_body->0;
        let last = sat_sub(nodes.len(), b.height as nat);
        &&& n.vault_scroll == (if o.vault_scroll <= last { o.vault_scroll as nat } else { last })
        &&& vault_rows_shown(n.vault_nodes@, b, nodes, n.vault_scroll as nat)
    } else {
        n.vault_scroll == o.vault_scroll && n.vault_nodes@.len() == 0
    }
    &&& n.temp_collapsed == o.temp_collapsed
    &&& n.saved_collapsed == o.saved_collapsed
    &&& n.memory_collapsed == o.memory_collapsed
    &&& n.vault_collapsed == o.vault_collapsed
    &&& n.collapsed_vault_dirs == o.collapsed_vault_dirs
}

/// Lays out one flat section's body.
fn lay_out_flat(body: Option<Rect>, entries: &Vec<ArtifactEntry>, scroll: usize, has_vault: bool) -> (r: (usize, Vec<ArtifactRowHitAreas>))
    requires
        body matches Some(b) ==> b.y + b.height <= u16::MAX,
    ensures
        flat_laid_out(body, entries@, scroll, has_vault, r.0, r.1@),
{
    match body {
        Some(b) => match flat_section_cards(b, entries, scroll, FLAT_SECTION_MAX_ROWS, false, has_vault) {
            Some(p) => p,
            None => (scroll, Vec::new()),
        },
        None => (scroll, Vec::new()),
    }
}

impl ArtifactSidebarState {
    /// Lays out the sidebar in `area` for the temporary, saved, memory and vault entries:
    /// keeps the section areas, each flat section's cards and the vault rows for later
    /// clicks, and each offset kept within its list (see `laid_out`); returns the section
    /// areas the layout solver gave.
    pub fn lay_out(&mut self, area: Rect, temporary: &Vec<ArtifactEntry>, saved: &Vec<ArtifactEntry>,
        memories: &Vec<ArtifactEntry>, vault: &Vec<ArtifactEntry>, has_vault: bool) -> (a: SidebarAreas)
        ensures
            sidebar_layout_spec(area, (temporary@.len(), saved@.len(), memories@.len()), *old(self), a),
            laid_out(*old(self), *final(self), a, temporary@, saved@, memories@, vault@, has_vault),
    {
        let areas = sidebar_layout(area, temporary.len(), saved.len(), memories.len(), self);
        self.record_section_areas(&areas);
        let (ts, tr) = lay_out_flat(areas.temp_body, temporary, self.temp_scroll, has_vault);
        self.temp_scroll = ts;
        self.temp_rows = tr;
        let (ss, sr) = lay_out_flat(areas.saved_body, saved, self.saved_scroll, has_vault);
        self.saved_scroll = ss;
        self.saved_rows = sr;
        let (ms, mr) = lay_out_flat(areas.memory_body, memories, self.memory_scroll, has_vault);
        self.memory_scroll = ms;
        self.memory_rows = mr;
        match areas.vault_body {
            Some(b) => {
                if b.height > 0 {
                    let nodes = build_vault_nodes(vault, &self.collapsed_vault_dirs);
                    match vault_section_rows(b, &nodes, self.vault_scroll, false) {
                        Some((s, rows)) => {
                            proof {
                                let nv = nodes_view(nodes@);
                                assert forall|k: int| 0 <= k < rows@.len() implies
                                    action_view((#[trigger] rows@[k]).action) == node_action(nv[s + k]) by {
                                    assert(nv[s + k] == crate::vault_tree::node_view(nodes@[s + k]));
                                }
                            }
                            self.vault_scroll = s;
                            self.vault_nodes = rows;
                        },
                        None => {
                            self.vault_nodes = Vec::new();
                        },
                    }
                } else {
                    self.vault_nodes = Vec::new();
                }
            },
            None => {
                self.vault_nodes = Vec::new();
            },
        }
        areas
    }
}

} // verus!
