//! The artifact sidebar: the entries it lists, what a click on it means, and the state of
//! its sections (collapsed, scrolled) and of the vault directories folded in its tree.
use vstd::prelude::*;
use crate::geometry::{Position, Rect, rect_contains};
use crate::text::{chars_of, string_from_chars};
use crate::vault_tree::{dir_keys, dirs_contain, dirs_toggle, toggled_key, law_toggled_key_twice, path_components};

verus! {

/// Rows an artifact card takes.
pub const ROW_HEIGHT: u16 = 3;

/// The most cards a flat section shows at once.
pub const FLAT_SECTION_MAX_ROWS: usize = 3;

/// What an artifact is known by: a temporary id, a media source, or a path (as text) in the
/// saved files, the memories or the vault.
#[derive(Debug, Clone, PartialEq, Eq, Hash)]
pub enum ArtifactHandle {
    Temporary(u64),
    Media(String),
    Saved(String),
    Memory(String),
    Vault(String),
}

/// The abstract form of a handle.
pub enum HandleView {
    Temporary(u64),
    Media(Seq<char>),
    Saved(Seq<char>),
    Memory(Seq<char>),
    Vault(Seq<char>),
}

/// The abstract form of a handle.
pub open spec fn handle_view(h: ArtifactHandle) -> HandleView {
    match h {
        ArtifactHandle::Temporary(id) => HandleView::Temporary(id),
        ArtifactHandle::Media(s) => HandleView::Media(s@),
        ArtifactHandle::Saved(s) => HandleView::Saved(s@),
        ArtifactHandle::Memory(s) => HandleView::Memory(s@),
        ArtifactHandle::Vault(s) => HandleView::Vault(s@),
    }
}

impl ArtifactHandle {
    /// A copy of the handle.
    pub fn duplicate(&self) -> (r: ArtifactHandle)
        ensures
            handle_view(r) == handle_view(*self),
    {
        match self {
            ArtifactHandle::Temporary(id) => ArtifactHandle::Temporary(*id),
            ArtifactHandle::Media(s) => ArtifactHandle::Media(s.clone()),
            ArtifactHandle::Saved(s) => ArtifactHandle::Saved(s.clone()),
            ArtifactHandle::Memory(s) => ArtifactHandle::Memory(s.clone()),
            ArtifactHandle::Vault(s) => ArtifactHandle::Vault(s.clone()),
        }
    }
}

/// What kind of content an artifact holds.
#[derive(Debug, Clone, Copy, PartialEq, Eq, Structural)]
pub enum ArtifactKind {
    Markdown,
    Text,
    Image,
    Video,
    Audio,
    Binary,
}

/// Where an artifact comes from.
#[derive(Debug, Clone, Copy, PartialEq, Eq, Structural)]
pub enum ArtifactOrigin {
    Temporary,
    Saved,
    Memory,
    Vault,
}

/// An artifact listed in the sidebar.
#[derive(Debug, Clone)]
pub struct ArtifactEntry {
    pub handle: ArtifactHandle,
    pub name: String,
    pub kind: ArtifactKind,
    pub origin: ArtifactOrigin,
    pub content: Option<String>,
    pub path: Option<String>,
}

/// The label of the save-like action of an entry, if it has one: a temporary markdown
/// entry goes to the vault when there is one, other temporary entries are saved, memories
/// and saved files are exported, vault files have none.
pub open spec fn action_label_spec(origin: ArtifactOrigin, kind: ArtifactKind, has_vault: bool) -> Option<Seq<char>> {
    match origin {
        ArtifactOrigin::Temporary => if kind == ArtifactKind::Markdown && has_vault { Some("Vault"@) } else { Some("Save"@) },
        ArtifactOrigin::Memory => Some("Exp"@),
        ArtifactOrigin::Saved => Some("Export"@),
        ArtifactOrigin::Vault => None,
    }
}

/// The label of an origin.
pub open spec fn origin_label_spec(origin: ArtifactOrigin) -> Seq<char> {
    match origin {
        ArtifactOrigin::Temporary => "Temporary"@,
        ArtifactOrigin::Saved => "Saved"@,
        ArtifactOrigin::Memory => "Memory"@,
        ArtifactOrigin::Vault => "Vault"@,
    }
}

impl ArtifactEntry {
    /// A temporary markdown artifact with its content.
    pub fn temp_markdown(id: u64, name: String, content: String) -> (r: ArtifactEntry)
        ensures
            r.handle == ArtifactHandle::Temporary(id),
            r.name@ == name@,
            r.kind == ArtifactKind::Markdown,
            r.origin == ArtifactOrigin::Temporary,
            r.content matches Some(c) && c@ == content@,
            r.path is None,
    {
        ArtifactEntry {
            handle: ArtifactHandle::Temporary(id),
            name,
            kind: ArtifactKind::Markdown,
            origin: ArtifactOrigin::Temporary,
            content: Some(content),
            path: None,
        }
    }

    /// A memory stored as markdown at `path`, known by its logical path.
    pub fn memory_file(logical_path: String, title: String, markdown: String, path: String) -> (r: ArtifactEntry)
        ensures
            handle_view(r.handle) == HandleView::Memory(logical_path@),
            r.name@ == title@,
            r.kind == ArtifactKind::Markdown,
            r.origin == ArtifactOrigin::Memory,
            r.content matches Some(c) && c@ == markdown@,
            r.path matches Some(p) && p@ == path@,
    {
        ArtifactEntry {
            handle: ArtifactHandle::Memory(logical_path),
            name: title,
            kind: ArtifactKind::Markdown,
            origin: ArtifactOrigin::Memory,
            content: Some(markdown),
            path: Some(path),
        }
    }

    /// Whether the entry is markdown.
    pub fn is_markdown(&self) -> (r: bool)
        ensures
            r == (self.kind == ArtifactKind::Markdown),
    {
        self.kind == ArtifactKind::Markdown
    }

    /// The label of the entry's save-like action, if any (see `action_label_spec`).
    pub fn action_label(&self, has_vault: bool) -> (r: Option<&'static str>)
        ensures
            match (r, action_label_spec(self.origin, self.kind, has_vault)) {
                (Some(a), Some(b)) => a@ == b,
                (None, None) => true,
                _ => false,
            },
    {
        match self.origin {
            ArtifactOrigin::Temporary => if self.is_markdown() && has_vault { Some("Vault") } else { Some("Save") },
            ArtifactOrigin::Memory => Some("Exp"),
            ArtifactOrigin::Saved => Some("Export"),
            ArtifactOrigin::Vault => None,
        }
    }

    /// The label of the save-like action, or nothing.
    pub fn save_label(&self, has_vault: bool) -> (r: &'static str)
        ensures
            r@ == match action_label_spec(self.origin, self.kind, has_vault) {
                Some(l) => l,
                None => ""@,
            },
    {
        match self.action_label(has_vault) {
            Some(l) => l,
            None => "",
        }
    }

    /// Whether the entry has a save-like action.
    pub fn can_save(&self, has_vault: bool) -> (r: bool)
        ensures
            r == action_label_spec(self.origin, self.kind, has_vault).is_some(),
    {
        self.action_label(has_vault).is_some()
    }

    /// Whether the entry can be deleted: every entry can.
    pub fn can_delete(&self) -> (r: bool)
        ensures
            r,
    {
        true
    }

    /// The label of the entry's origin.
    pub fn origin_label(&self) -> (r: &'static str)
        ensures
            r@ == origin_label_spec(self.origin),
    {
        match self.origin {
            ArtifactOrigin::Temporary => "Temporary",
            ArtifactOrigin::Saved => "Saved",
            ArtifactOrigin::Memory => "Memory",
            ArtifactOrigin::Vault => "Vault",
        }
    }
}

/// The short label of a kind.
pub open spec fn kind_label_spec(kind: ArtifactKind) -> Seq<char> {
    match kind {
        ArtifactKind::Markdown => "md"@,
        ArtifactKind::Text => "txt"@,
        ArtifactKind::Image => "img"@,
        ArtifactKind::Video => "vid"@,
        ArtifactKind::Audio => "aud"@,
        ArtifactKind::Binary => "bin"@,
    }
}

/// The short label of a kind.
pub fn kind_label(kind: ArtifactKind) -> (r: &'static str)
    ensures
        r@ == kind_label_spec(kind),
{
    match kind {
        ArtifactKind::Markdown => "md",
        ArtifactKind::Text => "txt",
        ArtifactKind::Image => "img",
        ArtifactKind::Video => "vid",
        ArtifactKind::Audio => "aud",
        ArtifactKind::Binary => "bin",
    }
}

/// The sections of the sidebar, top to bottom.
#[derive(Debug, Clone, Copy, PartialEq, Eq, Structural)]
pub enum ArtifactSection {
    Temporary,
    Saved,
    Memories,
    Vault,
}

/// What a click in the sidebar asks for.
#[derive(Debug, Clone, PartialEq, Eq)]
pub enum ArtifactSidebarAction {
    ToggleSection(ArtifactSection),
    ToggleVaultDir(String),
    Open(ArtifactHandle),
    Edit(ArtifactHandle),
    Save(ArtifactHandle),
    Delete(ArtifactHandle),
}

/// The abstract form of a sidebar action.
pub enum SidebarActionView {
    ToggleSection(ArtifactSection),
    ToggleVaultDir(Seq<char>),
    Open(HandleView),
    Edit(HandleView),
    Save(HandleView),
    Delete(HandleView),
}

/// The abstract form of a sidebar action.
pub open spec fn action_view(a: ArtifactSidebarAction) -> SidebarActionView {
    match a {
        ArtifactSidebarAction::ToggleSection(s) => SidebarActionView::ToggleSection(s),
        ArtifactSidebarAction::ToggleVaultDir(p) => SidebarActionView::ToggleVaultDir(p@),
        ArtifactSidebarAction::Open(h) => SidebarActionView::Open(handle_view(h)),
        ArtifactSidebarAction::Edit(h) => SidebarActionView::Edit(handle_view(h)),
        ArtifactSidebarAction::Save(h) => SidebarActionView::Save(handle_view(h)),
        ArtifactSidebarAction::Delete(h) => SidebarActionView::Delete(handle_view(h)),
    }
}

/// The abstract form of an optional action.
pub open spec fn opt_action_view(a: Option<ArtifactSidebarAction>) -> Option<SidebarActionView> {
    match a {
        Some(a) => Some(action_view(a)),
        None => None,
    }
}

impl ArtifactSidebarAction {
    /// A copy of the action.
    pub fn duplicate(&self) -> (r: ArtifactSidebarAction)
        ensures
            action_view(r) == action_view(*self),
    {
        match self {
            ArtifactSidebarAction::ToggleSection(s) => ArtifactSidebarAction::ToggleSection(*s),
            ArtifactSidebarAction::ToggleVaultDir(p) => ArtifactSidebarAction::ToggleVaultDir(p.clone()),
            ArtifactSidebarAction::Open(h) => ArtifactSidebarAction::Open(h.duplicate()),
            ArtifactSidebarAction::Edit(h) => ArtifactSidebarAction::Edit(h.duplicate()),
            ArtifactSidebarAction::Save(h) => ArtifactSidebarAction::Save(h.duplicate()),
            ArtifactSidebarAction::Delete(h) => ArtifactSidebarAction::Delete(h.duplicate()),
        }
    }
}

/// Where one card's buttons were drawn.
#[derive(Debug, Clone)]
pub struct ArtifactRowHitAreas {
    pub handle: ArtifactHandle,
    pub open: Rect,
    pub edit: Option<Rect>,
    pub save: Option<Rect>,
    pub delete: Option<Rect>,
}

/// Where one vault tree row was drawn and what clicking it does.
#[derive(Debug, Clone)]
pub struct VaultNodeHitArea {
    pub action: ArtifactSidebarAction,
    pub area: Rect,
}

/// The sidebar's state: per section its scroll offset, whether it is collapsed, where its
/// header and body were drawn; the folded vault directories; and the hit areas of the
/// cards and vault rows drawn last.
#[derive(Debug, Clone)]
pub struct ArtifactSidebarState {
    pub temp_scroll: usize,
    pub saved_scroll: usize,
    pub memory_scroll: usize,
    pub vault_scroll: usize,
    pub temp_collapsed: bool,
    pub saved_collapsed: bool,
    pub memory_collapsed: bool,
    pub vault_collapsed: bool,
    pub collapsed_vault_dirs: Vec<String>,
    pub temp_header: Option<Rect>,
    pub saved_header: Option<Rect>,
    pub memory_header: Option<Rect>,
    pub vault_header: Option<Rect>,
    pub temp_body: Option<Rect>,
    pub saved_body: Option<Rect>,
    pub memory_body: Option<Rect>,
    pub vault_body: Option<Rect>,
    pub temp_rows: Vec<ArtifactRowHitAreas>,
    pub saved_rows: Vec<ArtifactRowHitAreas>,
    pub memory_rows: Vec<ArtifactRowHitAreas>,
    pub vault_nodes: Vec<VaultNodeHitArea>,
}

/// Whether an optional area holds a position.
pub open spec fn hit(area: Option<Rect>, p: Position) -> bool {
    match area {
        Some(r) => rect_contains(r, p),
        None => false,
    }
}

/// Whether an optional area holds a position.
fn hit_exec(area: Option<Rect>, p: Position) -> (r: bool)
    ensures
        r == hit(area, p),
{
    match area {
        Some(r) => r.contains(p),
        None => false,
    }
}

/// The first section, top to bottom, whose area (of those given) holds the position.
pub open spec fn first_section_at(t: Option<Rect>, s: Option<Rect>, m: Option<Rect>, v: Option<Rect>, p: Position) -> Option<ArtifactSection> {
    if hit(t, p) {
        Some(ArtifactSection::Temporary)
    } else if hit(s, p) {
        Some(ArtifactSection::Saved)
    } else if hit(m, p) {
        Some(ArtifactSection::Memories)
    } else if hit(v, p) {
        Some(ArtifactSection::Vault)
    } else {
        None
    }
}

/// The action of the first card button, in the order open, save, edit, delete, of the
/// first card in `rows[i..]` with a button at the position.
pub open spec fn row_action_from(rows: Seq<ArtifactRowHitAreas>, i: nat, p: Position) -> Option<SidebarActionView>
    decreases rows.len() - i,
{
    if i >= rows.len() {
        None
    } else {
        let row = rows[i as int];
        if rect_contains(row.open, p) {
            Some(SidebarActionView::Open(handle_view(row.handle)))
        } else if hit(row.save, p) {
            Some(SidebarActionView::Save(handle_view(row.handle)))
        } else if hit(row.edit, p) {
            Some(SidebarActionView::Edit(handle_view(row.handle)))
        } else if hit(row.delete, p) {
            Some(SidebarActionView::Delete(handle_view(row.handle)))
        } else {
            row_action_from(rows, i + 1, p)
        }
    }
}

/// The action of the first vault row in `nodes[i..]` drawn at the position.
pub open spec fn node_action_from(nodes: Seq<VaultNodeHitArea>, i: nat, p: Position) -> Option<SidebarActionView>
    decreases nodes.len() - i,
{
    if i >= nodes.len() {
        None
    } else if rect_contains(nodes[i as int].area, p) {
        Some(action_view(nodes[i as int].action))
    } else {
        node_action_from(nodes, i + 1, p)
    }
}

/// The scroll offset after one step: down by one, no further than the last screenful of
/// `visible` (at least one) rows of `total`; or up by one, stopping at the top.
pub open spec fn scrolled(offset: usize, down: bool, total: usize, visible: usize) -> usize {
    let v: usize = if visible >= 1 { visible } else { 1 };
    let max: usize = if total >= v { (total - v) as usize } else { 0 };
    if down {
        if offset + 1 <= max { (offset + 1) as usize } else { max }
    } else {
        if offset >= 1 { (offset - 1) as usize } else { 0 }
    }
}

impl Default for ArtifactSidebarState {
    /// The state of a sidebar not yet drawn (see `ArtifactSidebarState::new`).
    fn default() -> (r: ArtifactSidebarState)
        ensures
            r.collapsed_vault_dirs@.len() == 0,
            !r.temp_collapsed && !r.saved_collapsed && !r.memory_collapsed && !r.vault_collapsed,
            r.temp_scroll == 0 && r.saved_scroll == 0 && r.memory_scroll == 0 && r.vault_scroll == 0,
            r.hit_rows().len() == 0,
            r.hit_nodes().len() == 0,
    {
        ArtifactSidebarState::new()
    }
}

impl ArtifactSidebarState {
    /// A sidebar with every section expanded and unscrolled, nothing folded and nothing drawn.
    pub fn new() -> (r: ArtifactSidebarState)
        ensures
            r.temp_scroll == 0 && r.saved_scroll == 0 && r.memory_scroll == 0 && r.vault_scroll == 0,
            !r.temp_collapsed && !r.saved_collapsed && !r.memory_collapsed && !r.vault_collapsed,
            r.collapsed_vault_dirs@.len() == 0,
            r.temp_header is None && r.saved_header is None && r.memory_header is None && r.vault_header is None,
            r.temp_body is None && r.saved_body is None && r.memory_body is None && r.vault_body is None,
            r.hit_rows().len() == 0,
            r.hit_nodes().len() == 0,
    {
        ArtifactSidebarState {
            temp_scroll: 0,
            saved_scroll: 0,
            memory_scroll: 0,
            vault_scroll: 0,
            temp_collapsed: false,
            saved_collapsed: false,
            memory_collapsed: false,
            vault_collapsed: false,
            collapsed_vault_dirs: Vec::new(),
            temp_header: None,
            saved_header: None,
            memory_header: None,
            vault_header: None,
            temp_body: None,
            saved_body: None,
            memory_body: None,
            vault_body: None,
            temp_rows: Vec::new(),
            saved_rows: Vec::new(),
            memory_rows: Vec::new(),
            vault_nodes: Vec::new(),
        }
    }

    /// The card hit areas drawn last, temporary then saved then memory cards.
    pub open spec fn hit_rows(&self) -> Seq<ArtifactRowHitAreas> {
        self.temp_rows@ + self.saved_rows@ + self.memory_rows@
    }

    /// The vault row hit areas drawn last.
    pub open spec fn hit_nodes(&self) -> Seq<VaultNodeHitArea> {
        self.vault_nodes@
    }

    /// The section whose header was drawn at the position, if any.
    pub open spec fn header_at_spec(&self, p: Position) -> Option<ArtifactSection> {
        first_section_at(self.temp_header, self.saved_header, self.memory_header, self.vault_header, p)
    }

    /// What a click at the position asks for: toggling the section whose header is there;
    /// otherwise the first card button there; otherwise the first vault row there.
    pub open spec fn action_at_spec(&self, p: Position) -> Option<SidebarActionView> {
        match self.header_at_spec(p) {
            Some(s) => Some(SidebarActionView::ToggleSection(s)),
            None => match row_action_from(self.hit_rows(), 0, p) {
                Some(a) => Some(a),
                None => node_action_from(self.hit_nodes(), 0, p),
            },
        }
    }

    /// The section whose header was drawn at the position, if any.
    fn header_at(&self, p: Position) -> (r: Option<ArtifactSection>)
        ensures
            r == self.header_at_spec(p),
    {
        if hit_exec(self.temp_header, p) {
            Some(ArtifactSection::Temporary)
        } else if hit_exec(self.saved_header, p) {
            Some(ArtifactSection::Saved)
        } else if hit_exec(self.memory_header, p) {
            Some(ArtifactSection::Memories)
        } else if hit_exec(self.vault_header, p) {
            Some(ArtifactSection::Vault)
        } else {
            None
        }
    }

    /// What a click at the position asks for (see `action_at_spec`).
    pub fn action_at(&self, p: Position) -> (r: Option<ArtifactSidebarAction>)
        ensures
            opt_action_view(r) == self.action_at_spec(p),
    {
        match self.header_at(p) {
            Some(s) => return Some(ArtifactSidebarAction::ToggleSection(s)),
            None => {},
        }
        proof {
            lemma_row_action_concat(self.temp_rows@ + self.saved_rows@, self.memory_rows@, 0, p);
            lemma_row_action_concat(self.temp_rows@, self.saved_rows@, 0, p);
        }
        match row_action(&self.temp_rows, p) {
            Some(a) => return Some(a),
            None => {},
        }
        match row_action(&self.saved_rows, p) {
            Some(a) => return Some(a),
            None => {},
        }
        match row_action(&self.memory_rows, p) {
            Some(a) => return Some(a),
            None => {},
        }
        let ghost nodes = self.hit_nodes();
        assert(self.header_at_spec(p) is None);
        assert(row_action_from(self.hit_rows(), 0, p) is None);
        let mut k: usize = 0;
        while k < self.vault_nodes.len()
            invariant
                self.header_at_spec(p) is None,
                row_action_from(self.hit_rows(), 0, p) is None,
                nodes == self.hit_nodes(),
                k <= nodes.len(),
                node_action_from(nodes, k as nat, p) == node_action_from(nodes, 0, p),
            decreases self.vault_nodes.len() - k,
        {
            if self.vault_nodes[k].area.contains(p) {
                let a = self.vault_nodes[k].action.duplicate();
                return Some(a);
            }
            k = k + 1;
        }
        None
    }

    /// The section whose body was drawn at the position, if any.
    pub fn section_at(&self, p: Position) -> (r: Option<ArtifactSection>)
        ensures
            r == first_section_at(self.temp_body, self.saved_body, self.memory_body, self.vault_body, p),
    {
        if hit_exec(self.temp_body, p) {
            Some(ArtifactSection::Temporary)
        } else if hit_exec(self.saved_body, p) {
            Some(ArtifactSection::Saved)
        } else if hit_exec(self.memory_body, p) {
            Some(ArtifactSection::Memories)
        } else if hit_exec(self.vault_body, p) {
            Some(ArtifactSection::Vault)
        } else {
            None
        }
    }

    /// The scroll offset of a section.
    pub open spec fn scroll_of(&self, section: ArtifactSection) -> usize {
        match section {
            ArtifactSection::Temporary => self.temp_scroll,
            ArtifactSection::Saved => self.saved_scroll,
            ArtifactSection::Memories => self.memory_scroll,
            ArtifactSection::Vault => self.vault_scroll,
        }
    }

    /// Whether a section is collapsed.
    pub open spec fn collapsed_of(&self, section: ArtifactSection) -> bool {
        match section {
            ArtifactSection::Temporary => self.temp_collapsed,
            ArtifactSection::Saved => self.saved_collapsed,
            ArtifactSection::Memories => self.memory_collapsed,
            ArtifactSection::Vault => self.vault_collapsed,
        }
    }

    /// Everything but the scroll offsets is the same in both states.
    pub open spec fn same_but_scroll(&self, other: &Self) -> bool {
        &&& self.temp_collapsed == other.temp_collapsed
        &&& self.saved_collapsed == other.saved_collapsed
        &&& self.memory_collapsed == other.memory_collapsed
        &&& self.vault_collapsed == other.vault_collapsed
        &&& self.collapsed_vault_dirs@ == other.collapsed_vault_dirs@
        &&& self.hit_rows() == other.hit_rows()
        &&& self.hit_nodes() == other.hit_nodes()
    }

    /// Scrolls a section one row (see `scrolled`); the other sections keep their offsets.
    pub fn scroll(&mut self, section: ArtifactSection, down: bool, total: usize, visible: usize)
        requires
            down ==> old(self).scroll_of(section) < usize::MAX,
        ensures
            final(self).scroll_of(section) == scrolled(old(self).scroll_of(section), down, total, visible),
            forall|s: ArtifactSection| s != section ==> #[trigger] final(self).scroll_of(s) == old(self).scroll_of(s),
            final(self).same_but_scroll(old(self)),
    {
        let v = if visible >= 1 { visible } else { 1 };
        let max_offset = if total >= v { total - v } else { 0 };
        let current = match section {
            ArtifactSection::Temporary => self.temp_scroll,
            ArtifactSection::Saved => self.saved_scroll,
            ArtifactSection::Memories => self.memory_scroll,
            ArtifactSection::Vault => self.vault_scroll,
        };
        let next = if down {
            if current + 1 <= max_offset { current + 1 } else { max_offset }
        } else {
            if current >= 1 { current - 1 } else { 0 }
        };
        match section {
            ArtifactSection::Temporary => self.temp_scroll = next,
            ArtifactSection::Saved => self.saved_scroll = next,
            ArtifactSection::Memories => self.memory_scroll = next,
            ArtifactSection::Vault => self.vault_scroll = next,
        }
    }

    /// Collapses an expanded section or expands a collapsed one; nothing else changes.
    pub fn toggle(&mut self, section: ArtifactSection)
        ensures
            final(self).collapsed_of(section) == !old(self).collapsed_of(section),
            forall|s: ArtifactSection| s != section ==> #[trigger] final(self).collapsed_of(s) == old(self).collapsed_of(s),
            forall|s: ArtifactSection| #[trigger] final(self).scroll_of(s) == old(self).scroll_of(s),
            *final(self) == (ArtifactSidebarState {
                temp_collapsed: final(self).temp_collapsed,
                saved_collapsed: final(self).saved_collapsed,
                memory_collapsed: final(self).memory_collapsed,
                vault_collapsed: final(self).vault_collapsed,
                ..*old(self)
            }),
    {
        match section {
            ArtifactSection::Temporary => self.temp_collapsed = !self.temp_collapsed,
            ArtifactSection::Saved => self.saved_collapsed = !self.saved_collapsed,
            ArtifactSection::Memories => self.memory_collapsed = !self.memory_collapsed,
            ArtifactSection::Vault => self.vault_collapsed = !self.vault_collapsed,
        }
    }

    /// Whether a vault directory is folded (paths compared by their components, so that
    /// `notes` and `notes/` name one directory).
    pub fn is_vault_dir_collapsed(&self, path: &str) -> (r: bool)
        ensures
            r == dir_keys(self.collapsed_vault_dirs@).contains(path_components(path@)),
    {
        dirs_contain(&self.collapsed_vault_dirs, path)
    }

    /// Folds an unfolded vault directory or unfolds a folded one (paths compared by their
    /// components).
    pub fn toggle_vault_dir(&mut self, path: &str)
        ensures
            dir_keys(final(self).collapsed_vault_dirs@) == toggled_key(dir_keys(old(self).collapsed_vault_dirs@), path_components(path@)),
            forall|s: ArtifactSection| #[trigger] final(self).scroll_of(s) == old(self).scroll_of(s),
            forall|s: ArtifactSection| #[trigger] final(self).collapsed_of(s) == old(self).collapsed_of(s),
            *final(self) == (ArtifactSidebarState { collapsed_vault_dirs: final(self).collapsed_vault_dirs, ..*old(self) }),
    {
        dirs_toggle(&mut self.collapsed_vault_dirs, path);
    }

    /// Forgets the areas drawn last: headers, bodies and hit areas.
    pub fn clear_hit_state(&mut self)
        ensures
            final(self).temp_header is None && final(self).saved_header is None,
            final(self).memory_header is None && final(self).vault_header is None,
            final(self).temp_body is None && final(self).saved_body is None,
            final(self).memory_body is None && final(self).vault_body is None,
            final(self).hit_rows().len() == 0,
            final(self).hit_nodes().len() == 0,
            forall|s: ArtifactSection| #[trigger] final(self).scroll_of(s) == old(self).scroll_of(s),
            forall|s: ArtifactSection| #[trigger] final(self).collapsed_of(s) == old(self).collapsed_of(s),
            final(self).collapsed_vault_dirs@ == old(self).collapsed_vault_dirs@,
    {
        self.temp_header = None;
        self.saved_header = None;
        self.memory_header = None;
        self.vault_header = None;
        self.temp_body = None;
        self.saved_body = None;
        self.memory_body = None;
        self.vault_body = None;
        self.temp_rows = Vec::new();
        self.saved_rows = Vec::new();
        self.memory_rows = Vec::new();
        self.vault_nodes = Vec::new();
        proof {
            assert(self.hit_rows() =~= Seq::<ArtifactRowHitAreas>::empty());
        }
    }
}

/// The action of the first card button at the position among `rows`.
fn row_action(rows: &Vec<ArtifactRowHitAreas>, p: Position) -> (r: Option<ArtifactSidebarAction>)
    ensures
        opt_action_view(r) == row_action_from(rows@, 0, p),
{
    let mut i: usize = 0;
    while i < rows.len()
        invariant
            i <= rows.len(),
            row_action_from(rows@, i as nat, p) == row_action_from(rows@, 0, p),
        decreases rows.len() - i,
    {
        let row = &rows[i];
        if row.open.contains(p) {
            let h = row.handle.duplicate();
            return Some(ArtifactSidebarAction::Open(h));
        }
        if hit_exec(row.save, p) {
            let h = row.handle.duplicate();
            return Some(ArtifactSidebarAction::Save(h));
        }
        if hit_exec(row.edit, p) {
            let h = row.handle.duplicate();
            return Some(ArtifactSidebarAction::Edit(h));
        }
        if hit_exec(row.delete, p) {
            let h = row.handle.duplicate();
            return Some(ArtifactSidebarAction::Delete(h));
        }
        i = i + 1;
    }
    None
}

proof fn lemma_row_action_shift(a: Seq<ArtifactRowHitAreas>, b: Seq<ArtifactRowHitAreas>, j: nat, p: Position)
    requires
        j <= b.len(),
    ensures
        row_action_from(a + b, a.len() + j, p) == row_action_from(b, j, p),
    decreases b.len() - j,
{
    if j < b.len() {
        assert((a + b)[a.len() + j as int] == b[j as int]);
        lemma_row_action_shift(a, b, j + 1, p);
    }
}

proof fn lemma_row_action_concat(a: Seq<ArtifactRowHitAreas>, b: Seq<ArtifactRowHitAreas>, i: nat, p: Position)
    requires
        i <= a.len(),
    ensures
        row_action_from(a + b, i, p) == (match row_action_from(a, i, p) {
            Some(x) => Some(x),
            None => row_action_from(b, 0, p),
        }),
    decreases a.len() - i,
{
    if i < a.len() {
        assert((a + b)[i as int] == a[i as int]);
        lemma_row_action_concat(a, b, i + 1, p);
    } else {
        lemma_row_action_shift(a, b, 0, p);
    }
}

/// Folding a vault directory and folding it again leaves the folded directories as they
/// were.
pub proof fn law_toggle_vault_dir_twice(s: Set<Seq<Seq<char>>>, p: Seq<char>)
    ensures
        toggled_key(toggled_key(s, path_components(p)), path_components(p)) == s,
{
    law_toggled_key_twice(s, path_components(p));
}

/// The number of cards a section body of `area` shows: one per three rows, at least one.
pub fn visible_rows(area: Rect) -> (r: usize)
    ensures
        r == (if area.height / ROW_HEIGHT >= 1 { (area.height / ROW_HEIGHT) as usize } else { 1usize }),
{
    let n = (area.height / ROW_HEIGHT) as usize;
    if n >= 1 { n } else { 1 }
}

/// The number of vault rows a body of `area` shows: one per row, at least one.
pub fn visible_vault_rows(area: Rect) -> (r: usize)
    ensures
        r == (if area.height >= 1 { area.height as usize } else { 1usize }),
{
    let n = area.height as usize;
    if n >= 1 { n } else { 1 }
}

/// The height of a section body: nothing when collapsed, one row (if available) for an
/// empty section, otherwise three rows per card for up to `max_rows` cards, within
/// what is available.
pub open spec fn section_body_height_spec(collapsed: bool, entry_count: nat, max_rows: nat, available: u16) -> nat {
    if collapsed {
        0
    } else if entry_count == 0 {
        if available >= 1 { 1 } else { 0 }
    } else {
        let rows = ((if entry_count <= max_rows { entry_count } else { max_rows }) as u16) as nat;
        let cards: nat = if rows * 3 > u16::MAX { u16::MAX as nat } else { rows * 3 };
        if available <= cards { available as nat } else { cards }
    }
}

/// The height of a section body (see `section_body_height_spec`).
pub fn section_body_height(collapsed: bool, entry_count: usize, max_rows: usize, available: u16) -> (r: u16)
    ensures
        r == section_body_height_spec(collapsed, entry_count as nat, max_rows as nat, available),
{
    if collapsed {
        0
    } else if entry_count == 0 {
        if available >= 1 { 1 } else { 0 }
    } else {
        let rows = (if entry_count <= max_rows { entry_count } else { max_rows }) as u16;
        let cards: u32 = rows as u32 * 3;
        let cards: u16 = if cards > 0xffff { 0xffff } else { cards as u16 };
        if available <= cards { available } else { cards }
    }
}

/// A label cut to `width` characters: unchanged when it fits, otherwise its first
/// `width - 3` characters and `...`.
pub open spec fn truncate_label_spec(label: Seq<char>, width: nat) -> Seq<char> {
    if label.len() <= width {
        label
    } else {
        label.take((if width >= 3 { width - 3 } else { 0 }) as int) + "..."@
    }
}

/// Cuts a label to `width` characters, marking the cut with `...`.
pub fn truncate_label(label: &str, width: usize) -> (r: String)
    ensures
        r@ == truncate_label_spec(label@, width as nat),
{
    let cs = chars_of(label);
    if cs.len() <= width {
        return string_from_chars(cs.as_slice());
    }
    let keep = if width >= 3 { width - 3 } else { 0 };
    let head = string_from_chars(crate::text::sub_chars(cs.as_slice(), 0, keep).as_slice());
    proof {
        assert(cs@.subrange(0, keep as int) =~= cs@.take(keep as int));
    }
    crate::text::concat_str(head, "...")
}

/// Whether a path component is hidden: it starts with a dot.
pub open spec fn is_hidden_spec(name: Seq<char>) -> bool {
    name.len() > 0 && name[0] == '.'
}

/// Whether a path component is hidden.
pub fn is_hidden_component(name: &str) -> (r: bool)
    ensures
        r == is_hidden_spec(name@),
{
    let cs = chars_of(name);
    cs.len() > 0 && cs[0] == '.'
}

/// Whether a vault tree row is a directory or a file.
#[derive(Debug, Clone, Copy, PartialEq, Eq, Structural)]
pub enum VaultNodeKind {
    Directory,
    File,
}

/// A row of the vault tree.
#[derive(Debug, Clone, PartialEq, Eq)]
pub struct VaultNode {
    pub path: String,
    pub depth: usize,
    pub kind: VaultNodeKind,
    pub label: String,
    pub expanded: bool,
}

/// The marker of a vault row: `v ` for an expanded directory, `> ` for a folded one, `- `
/// for a file.
pub open spec fn node_marker(kind: VaultNodeKind, expanded: bool) -> Seq<char> {
    match kind {
        VaultNodeKind::Directory => if expanded { "v "@ } else { "> "@ },
        VaultNodeKind::File => "- "@,
    }
}

/// The text of a vault row: two spaces per level of depth, the marker, the label, all cut
/// to `width` characters.
pub open spec fn vault_node_label_spec(node: VaultNode, width: nat) -> Seq<char> {
    truncate_label_spec(Seq::new((2 * node.depth) as nat, |_i: int| ' ') + node_marker(node.kind, node.expanded) + node.label@, width)
}

/// The text of a vault row (see `vault_node_label_spec`).
pub fn vault_node_label(node: &VaultNode, width: usize) -> (r: String)
    ensures
        r@ == vault_node_label_spec(*node, width as nat),
{
    let mut s = String::new();
    let mut d: usize = 0;
    while d < node.depth
        invariant
            d <= node.depth,
            s@ == Seq::new((2 * d) as nat, |_i: int| ' '),
        decreases node.depth - d,
    {
        crate::text::push_char(&mut s, ' ');
        crate::text::push_char(&mut s, ' ');
        d = d + 1;
        assert(s@ =~= Seq::new((2 * d) as nat, |_i: int| ' '));
    }
    let marker = match node.kind {
        VaultNodeKind::Directory => if node.expanded { "v " } else { "> " },
        VaultNodeKind::File => "- ",
    };
    let s = crate::text::concat_str(s, marker);
    let s = crate::text::concat_str(s, node.label.as_str());
    truncate_label(s.as_str(), width)
}

} // verus!
