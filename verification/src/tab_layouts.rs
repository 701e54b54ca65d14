//! Where the rows, buttons and open lists of the settings tabs and of the provider form are
//! drawn, and which row is drawn focused: the areas that clicks are later matched against.
use vstd::prelude::*;
use crate::geometry::{Rect, rect_new, sat_add16, sat_sub16, bordered_inner, bordered_inner_exec};
use crate::layout::{LayoutConstraint, LayoutDirection, split_layout, split_outcome, rect_within, centered_rect_in};
use crate::settings::{GeneralFocus, GeneralDropdown, LocalFocus, ProviderFormState, SettingsTab};
use crate::name_set::{names_set, set_contains};
use crate::text::concat_str;
use crate::settings_popup::{
    SettingsPopup, ProviderFormHitAreas, ProvidersDropdown, ProvidersTabFocus, ProviderEntry, EntryView, entries_view, oauth_entries, preset_entries, custom_key_entries,
};

verus! {

/// The `i`-th one-row item of a list drawn in the bordered box `d`: inside the border, one
/// row per item from the top.
pub open spec fn item_row(d: Rect, i: int) -> Rect {
    Rect { x: sat_add16(d.x, 1), y: sat_add16(sat_add16(d.y, 1), i as u16), width: sat_sub16(d.width, 2), height: 1 }
}

/// The first `count` item rows of the list box `d`.
pub open spec fn item_rows(d: Rect, count: nat) -> Seq<Rect> {
    Seq::new(count, |i: int| item_row(d, i))
}

/// The item rows of a list box.
fn item_rows_exec(d: Rect, count: u16) -> (r: Vec<Rect>)
    ensures
        r@ == item_rows(d, count as nat),
{
    let mut v: Vec<Rect> = Vec::new();
    let mut i: u16 = 0;
    while i < count
        invariant
            i <= count,
            v@ == item_rows(d, i as nat),
        decreases count - i,
    {
        let row = Rect { x: d.x.saturating_add(1), y: d.y.saturating_add(1).saturating_add(i), width: d.width.saturating_sub(2), height: 1 };
        proof {
            assert(item_rows(d, (i + 1) as nat) =~= item_rows(d, i as nat).push(row));
        }
        v.push(row);
        i = i + 1;
    }
    v
}

/// The `i`-th item row of the provider form's backend list box `d`, cut to the coordinate
/// range as `Rect::new` cuts it.
pub open spec fn form_item_row(d: Rect, i: int) -> Rect {
    rect_new(sat_add16(d.x, 1), sat_add16(sat_add16(d.y, 1), i as u16), sat_sub16(d.width, 2), 1)
}

/// The first `count` item rows of the backend list box `d`.
pub open spec fn form_item_rows(d: Rect, count: nat) -> Seq<Rect> {
    Seq::new(count, |i: int| form_item_row(d, i))
}

fn form_item_rows_exec(d: Rect, count: u16) -> (r: Vec<Rect>)
    ensures
        r@ == form_item_rows(d, count as nat),
{
    let mut v: Vec<Rect> = Vec::new();
    let mut i: u16 = 0;
    while i < count
        invariant
            i <= count,
            v@ == form_item_rows(d, i as nat),
        decreases count - i,
    {
        let row = Rect::new(d.x.saturating_add(1), d.y.saturating_add(1).saturating_add(i), d.width.saturating_sub(2), 1);
        proof {
            assert(form_item_rows(d, (i + 1) as nat) =~= form_item_rows(d, i as nat).push(row));
        }
        v.push(row);
        i = i + 1;
    }
    v
}

/// A box of `height` rows hanging below `anchor`, as wide as it.
pub open spec fn box_below(anchor: Rect, height: u16) -> Rect {
    rect_new(anchor.x, sat_add16(anchor.y, anchor.height), anchor.width, height)
}

/// The box of `height` rows hanging below `anchor` (see `box_below`).
pub fn box_below_exec(anchor: Rect, height: u16) -> (r: Rect)
    ensures
        r == box_below(anchor, height),
{
    Rect::new(anchor.x, anchor.y.saturating_add(anchor.height), anchor.width, height)
}

/// `n` constraints of three rows each.
pub open spec fn rows_of_three(n: nat) -> Seq<LayoutConstraint> {
    Seq::new(n, |i: int| LayoutConstraint::Length(3))
}

fn rows_of_three_exec(n: usize) -> (r: Vec<LayoutConstraint>)
    ensures
        r@ == rows_of_three(n as nat),
{
    let mut v: Vec<LayoutConstraint> = Vec::new();
    let mut i: usize = 0;
    while i < n
        invariant
            i <= n,
            v@ == rows_of_three(i as nat),
        decreases n - i,
    {
        proof {
            assert(rows_of_three((i + 1) as nat) =~= rows_of_three(i as nat).push(LayoutConstraint::Length(3)));
        }
        v.push(LayoutConstraint::Length(3));
        i = i + 1;
    }
    v
}

// ---------------------------------------------------------------------------------------
// The provider form popup.

/// The form's button row constraints: the submit and cancel buttons (twelve columns each)
/// and the rest.
pub open spec fn form_button_constraints() -> Seq<LayoutConstraint> {
    seq![LayoutConstraint::Length(12), LayoutConstraint::Length(12), LayoutConstraint::Min(0)]
}

/// The provider form's click areas from its five rows and its button row's three parts: the
/// fields on the first four rows, the two buttons, and, while the backend list is open, the
/// six items of the list box hanging below the backend row (eight rows: six backends and the
/// border).
pub open spec fn provider_form_areas_spec(rows: Seq<Rect>, buttons: Seq<Rect>, form: ProviderFormState, r: ProviderFormHitAreas) -> bool {
    &&& r.name == Some(rows[0])
    &&& r.endpoint == Some(rows[1])
    &&& r.backend_type == Some(rows[2])
    &&& r.api_key == Some(rows[3])
    &&& r.submit_button == Some(buttons[0])
    &&& r.cancel_button == Some(buttons[1])
    &&& r.dropdown_items@ == if form.dropdown_open { form_item_rows(box_below(rows[2], 8), 6) } else { Seq::empty() }
}

/// Whether `r` can be the provider form popup's click areas over `area`: a popup within the
/// area, five rows of three lines in its bordered inside (one cell in), the last row cut
/// into the buttons, as the layout solver may give them, and the areas those give.
pub open spec fn provider_form_layout_spec(area: Rect, form: ProviderFormState, r: ProviderFormHitAreas) -> bool {
    exists|popup: Rect, rows: Seq<Rect>, buttons: Seq<Rect>| {
        &&& rect_within(rect_new(area.x, area.y, area.width, area.height), popup)
        &&& #[trigger] split_outcome(bordered_inner(popup), LayoutDirection::Vertical, 1, rows_of_three(5), rows)
        &&& #[trigger] split_outcome(rows[4], LayoutDirection::Horizontal, 0, form_button_constraints(), buttons)
        &&& provider_form_areas_spec(rows, buttons, form, r)
    }
}

/// Lays out the provider form popup over `area` (see `provider_form_layout_spec`).
pub fn provider_form_layout(area: Rect, form: &ProviderFormState) -> (r: ProviderFormHitAreas)
    ensures
        provider_form_layout_spec(area, *form, r),
{
    let popup = centered_rect_in(52, 60, area);
    let inner = bordered_inner_exec(popup);
    let cs = rows_of_three_exec(5);
    let rows = split_layout(inner, LayoutDirection::Vertical, 1, &cs);
    let bcs = vec![LayoutConstraint::Length(12), LayoutConstraint::Length(12), LayoutConstraint::Min(0)];
    proof {
        assert(bcs@ =~= form_button_constraints());
    }
    let buttons = split_layout(rows[4], LayoutDirection::Horizontal, 0, &bcs);
    let r = provider_form_areas(&rows, &buttons, form);
    proof {
        assert(split_outcome(bordered_inner(popup), LayoutDirection::Vertical, 1, rows_of_three(5), rows@));
        assert(split_outcome(rows@[4], LayoutDirection::Horizontal, 0, form_button_constraints(), buttons@));
    }
    r
}

/// The provider form's click areas from its rows and buttons (see
/// `provider_form_areas_spec`).
pub fn provider_form_areas(rows: &Vec<Rect>, buttons: &Vec<Rect>, form: &ProviderFormState) -> (r: ProviderFormHitAreas)
    requires
        rows@.len() == 5,
        buttons@.len() == 3,
    ensures
        provider_form_areas_spec(rows@, buttons@, *form, r),
{
    let items = if form.dropdown_open {
        let d = box_below_exec(rows[2], 8);
        form_item_rows_exec(d, 6)
    } else {
        Vec::new()
    };
    ProviderFormHitAreas {
        name: Some(rows[0]),
        endpoint: Some(rows[1]),
        backend_type: Some(rows[2]),
        api_key: Some(rows[3]),
        submit_button: Some(buttons[0]),
        cancel_button: Some(buttons[1]),
        dropdown_items: items,
    }
}

// ---------------------------------------------------------------------------------------
// The local tab.

/// Where the local tab puts its rows and which of them is drawn focused.
#[derive(Debug, Clone)]
pub struct LocalTabLayout {
    /// The enabled checkbox, the nine text fields and the detected-server line, in order.
    pub rows: Vec<Rect>,
    /// The row drawn focused, if any.
    pub focused: Option<usize>,
}

/// The local tab's constraints: ten rows of three lines and a last one of two.
pub open spec fn local_constraints() -> Seq<LayoutConstraint> {
    rows_of_three(10).push(LayoutConstraint::Length(2))
}

/// The local tab's focused row: the checkbox only while the local tab is shown, any text
/// field whenever it has the focus.
pub open spec fn local_focused_row(p: SettingsPopup) -> Option<usize> {
    if p.local_focus == LocalFocus::Enabled {
        if p.active_tab == SettingsTab::Local { Some(0) } else { None }
    } else {
        Some(crate::settings::local_focus_index(p.local_focus) as usize)
    }
}

/// Where the local tab drawn in `area` puts its rows: eleven rows the layout solver may give
/// for `local_constraints`, one cell in.
pub open spec fn local_tab_layout_spec(area: Rect, p: SettingsPopup, r: LocalTabLayout) -> bool {
    &&& split_outcome(area, LayoutDirection::Vertical, 1, local_constraints(), r.rows@)
    &&& r.focused == local_focused_row(p)
}

/// Lays out the local tab in `area`.
pub fn local_tab_layout(area: Rect, popup: &SettingsPopup) -> (r: LocalTabLayout)
    ensures
        local_tab_layout_spec(area, *popup, r),
{
    let mut cs = rows_of_three_exec(10);
    cs.push(LayoutConstraint::Length(2));
    let rows = split_layout(area, LayoutDirection::Vertical, 1, &cs);
    let focused: Option<usize> = match popup.local_focus {
        LocalFocus::Enabled => if popup.active_tab == SettingsTab::Local { Some(0) } else { None },
        LocalFocus::Host => Some(1),
        LocalFocus::Port => Some(2),
        LocalFocus::ServerType => Some(3),
        LocalFocus::SelectedModel => Some(4),
        LocalFocus::ModelDirectory => Some(5),
        LocalFocus::HealthInterval => Some(6),
        LocalFocus::ConnectTimeout => Some(7),
        LocalFocus::RequestTimeout => Some(8),
        LocalFocus::ApiTokenEnv => Some(9),
    };
    LocalTabLayout { rows, focused }
}

// ---------------------------------------------------------------------------------------
// The general tab.

/// Where the general tab puts its rows, which of them is drawn focused, and the open
/// dropdown with its items.
#[derive(Debug, Clone)]
pub struct GeneralTabLayout {
    /// Theme, user alignment, AI alignment, artifact directory, vault path, the selector,
    /// scrollbar, thinking, enhanced-text switches, the heading scale, web search and quit
    /// confirmation.
    pub rows: Vec<Rect>,
    /// The row drawn focused, if any.
    pub focused: Option<usize>,
    /// The open dropdown's box, if one is open.
    pub dropdown: Option<Rect>,
    /// The open dropdown's items, one row each.
    pub dropdown_items: Vec<Rect>,
    /// The texts of the six switch rows (selector, scrollbar, thinking, enhanced text, web
    /// search, quit confirmation): a ticked or empty box and the switch's name.
    pub switch_labels: Vec<String>,
}

/// A switch row's text: a ticked box when it is on, an empty one otherwise, then its name.
pub open spec fn switch_label(on: bool, name: Seq<char>) -> Seq<char> {
    (if on { "[✓] "@ } else { "[ ] "@ }) + name
}

/// The texts of the general tab's switch rows.
pub open spec fn general_switch_labels(p: SettingsPopup) -> Seq<Seq<char>> {
    seq![
        switch_label(p.show_selector, "Show provider/model selector"@),
        switch_label(p.show_chat_scrollbar, "Show chat scrollbar"@),
        switch_label(p.collapse_thinking, "Fold thinking by default"@),
        switch_label(p.kitty_enhanced_text, "Use kitty enhanced text"@),
        switch_label(p.web_search_enabled, "Enable web search"@),
        switch_label(p.quit_confirmation, "Confirm before quit"@),
    ]
}

fn switch_label_exec(on: bool, name: &str) -> (r: String)
    ensures
        r@ == switch_label(on, name@),
{
    let prefix = if on { String::from_str("[✓] ") } else { String::from_str("[ ] ") };
    concat_str(prefix, name)
}

/// The general tab's row drawn for a focus: the rows follow the focus order, the vault path
/// right after the artifact directory.
pub open spec fn general_row(f: GeneralFocus) -> Option<usize> {
    match f {
        GeneralFocus::Theme => Some(0),
        GeneralFocus::UserAlignment => Some(1),
        GeneralFocus::AiAlignment => Some(2),
        GeneralFocus::ArtifactSaveDir => Some(3),
        GeneralFocus::VaultPath => Some(4),
        GeneralFocus::ShowSelector => Some(5),
        GeneralFocus::ShowChatScrollbar => Some(6),
        GeneralFocus::CollapseThinking => Some(7),
        GeneralFocus::KittyEnhancedText => Some(8),
        GeneralFocus::KittyTextScale => Some(9),
        GeneralFocus::WebSearchEnabled => Some(10),
        GeneralFocus::QuitConfirmation => Some(11),
    }
}

/// The row a dropdown hangs below.
pub open spec fn dropdown_anchor_row(d: GeneralDropdown) -> int {
    match d {
        GeneralDropdown::Theme => 0,
        GeneralDropdown::UserAlignment => 1,
        GeneralDropdown::AiAlignment => 2,
        GeneralDropdown::KittyTextScale => 9,
    }
}

/// A dropdown's box height: the themes and the border, or five rows for the others.
pub open spec fn dropdown_height(d: GeneralDropdown, themes: nat) -> u16 {
    match d {
        GeneralDropdown::Theme => (themes + 2) as u16,
        _ => 5,
    }
}

/// Where the general tab drawn in `area` puts its rows and its open dropdown.
pub open spec fn general_tab_layout_spec(area: Rect, p: SettingsPopup, r: GeneralTabLayout) -> bool {
    &&& split_outcome(area, LayoutDirection::Vertical, 1, rows_of_three(12), r.rows@)
    &&& general_tab_from_spec(r.rows@, p, r)
}

/// The general tab's layout on its twelve rows `rows`: the focused row, the switch texts, and
/// the open dropdown's box hanging below its row with its items.
pub open spec fn general_tab_from_spec(rows: Seq<Rect>, p: SettingsPopup, r: GeneralTabLayout) -> bool {
    &&& r.rows@ == rows
    &&& r.focused == if p.active_tab == SettingsTab::General { general_row(p.general_focus) } else { None }
    &&& texts(r.switch_labels@) == general_switch_labels(p)
    &&& match p.general_dropdown_open {
        Some(d) => {
            let b = box_below(rows[dropdown_anchor_row(d)], dropdown_height(d, p.theme_keys@.len()));
            &&& r.dropdown == Some(b)
            &&& r.dropdown_items@ == item_rows(b, p.general_options_len())
        },
        None => r.dropdown is None && r.dropdown_items@.len() == 0,
    }
}

/// Lays out the general tab in `area`: twelve rows of three lines, one cell in, as the
/// layout solver gives them (see `general_tab_layout_spec`).
pub fn general_tab_layout(area: Rect, popup: &SettingsPopup) -> (r: GeneralTabLayout)
    requires
        popup.general_dropdown_open == Some(GeneralDropdown::Theme) ==> popup.theme_keys@.len() + 2 <= u16::MAX,
    ensures
        general_tab_layout_spec(area, *popup, r),
{
    let cs = rows_of_three_exec(12);
    let rows = split_layout(area, LayoutDirection::Vertical, 1, &cs);
    general_tab_from(rows, popup)
}

/// The general tab's layout on the rows `rows` (see `general_tab_from_spec`).
pub fn general_tab_from(rows: Vec<Rect>, popup: &SettingsPopup) -> (r: GeneralTabLayout)
    requires
        rows@.len() == 12,
        popup.general_dropdown_open == Some(GeneralDropdown::Theme) ==> popup.theme_keys@.len() + 2 <= u16::MAX,
    ensures
        general_tab_from_spec(rows@, *popup, r),
{
    let focused: Option<usize> = if popup.active_tab == SettingsTab::General {
        match popup.general_focus {
            GeneralFocus::Theme => Some(0),
            GeneralFocus::UserAlignment => Some(1),
            GeneralFocus::AiAlignment => Some(2),
            GeneralFocus::ArtifactSaveDir => Some(3),
            GeneralFocus::VaultPath => Some(4),
            GeneralFocus::ShowSelector => Some(5),
            GeneralFocus::ShowChatScrollbar => Some(6),
            GeneralFocus::CollapseThinking => Some(7),
            GeneralFocus::KittyEnhancedText => Some(8),
            GeneralFocus::KittyTextScale => Some(9),
            GeneralFocus::WebSearchEnabled => Some(10),
            GeneralFocus::QuitConfirmation => Some(11),
        }
    } else {
        None
    };
    let (dropdown, items) = match popup.general_dropdown_open {
        Some(d) => {
            let (anchor, height, count): (usize, u16, u16) = match d {
                GeneralDropdown::Theme => {
                    let n = popup.theme_keys.len() as u16;
                    (0, n + 2, n)
                },
                GeneralDropdown::UserAlignment => (1, 5, 3),
                GeneralDropdown::AiAlignment => (2, 5, 3),
                GeneralDropdown::KittyTextScale => (9, 5, 3),
            };
            let b = box_below_exec(rows[anchor], height);
            (Some(b), item_rows_exec(b, count))
        },
        None => (None, Vec::new()),
    };
    let switch_labels = vec![
        switch_label_exec(popup.show_selector, "Show provider/model selector"),
        switch_label_exec(popup.show_chat_scrollbar, "Show chat scrollbar"),
        switch_label_exec(popup.collapse_thinking, "Fold thinking by default"),
        switch_label_exec(popup.kitty_enhanced_text, "Use kitty enhanced text"),
        switch_label_exec(popup.web_search_enabled, "Enable web search"),
        switch_label_exec(popup.quit_confirmation, "Confirm before quit"),
    ];
    proof {
        assert(texts(switch_labels@) =~= general_switch_labels(*popup));
    }
    GeneralTabLayout { rows, focused, dropdown, dropdown_items: items, switch_labels }
}

// ---------------------------------------------------------------------------------------
// The providers tab.

/// Where the providers tab puts its rows, its buttons and the rows of the saved-providers
/// list (OAuth providers, then preset providers, then custom ones, as many as fit).
#[derive(Debug, Clone)]
pub struct ProvidersTabLayout {
    /// Default provider, default model, the button row, the saved list and the help line.
    pub rows: Vec<Rect>,
    /// Grab-env, add, edit and reload buttons and the rest of their row.
    pub buttons: Vec<Rect>,
    /// Whether a model list is shown in place of the saved list.
    pub model_list_open: bool,
    pub oauth_rows: Vec<Rect>,
    pub preset_rows: Vec<Rect>,
    pub saved_key_rows: Vec<Rect>,
    /// The text of each shown saved-list row, in order: its checkbox and the provider's name.
    pub row_labels: Vec<String>,
    /// How each shown saved-list row is drawn, in order.
    pub row_styles: Vec<SavedRowStyle>,
    /// While a model list is shown: the first model shown (the scroll offset kept within
    /// the list) and the rows of the shown models, left of a one-column scrollbar.
    pub model_offset: usize,
    pub model_rows: Vec<Rect>,
}

/// The `i`-th row of the model list drawn inside `inner`.
pub open spec fn model_row(inner: Rect, i: int) -> Rect {
    rect_new(inner.x, sat_add16(inner.y, i as u16), sat_sub16(inner.width, 1), 1)
}

/// The first `count` rows of the model list.
pub open spec fn model_rows(inner: Rect, count: nat) -> Seq<Rect> {
    Seq::new(count, |i: int| model_row(inner, i))
}

fn model_rows_exec(inner: Rect, count: u16) -> (r: Vec<Rect>)
    ensures
        r@ == model_rows(inner, count as nat),
{
    let mut v: Vec<Rect> = Vec::new();
    let mut i: u16 = 0;
    while i < count
        invariant
            i <= count,
            v@ == model_rows(inner, i as nat),
        decreases count - i,
    {
        let row = Rect::new(inner.x, inner.y.saturating_add(i), inner.width.saturating_sub(1), 1);
        proof {
            assert(model_rows(inner, (i + 1) as nat) =~= model_rows(inner, i as nat).push(row));
        }
        v.push(row);
        i = i + 1;
    }
    v
}

/// How many models the inline list shows: six at most.
pub open spec fn models_shown(total: nat) -> nat {
    min_nat(6, total)
}

/// How a row of the saved-providers list is drawn.
#[derive(Debug, Clone, Copy, PartialEq, Eq, Structural)]
pub enum SavedRowStyle {
    /// The row has the focus.
    Focused,
    /// The provider is enabled and has a key.
    Connected,
    /// The provider is disabled.
    Disabled,
    /// The provider is enabled but has no key.
    NotConnected,
}

/// The three parts of the saved-providers list.
#[derive(Debug, Clone, Copy, PartialEq, Eq, Structural)]
pub enum SavedSection {
    OAuth,
    Preset,
    Custom,
}

/// Whether the `i`-th row of a part of the list has the focus.
pub open spec fn section_focused(s: SavedSection, f: ProvidersTabFocus, i: int) -> bool {
    match s {
        SavedSection::OAuth => f == ProvidersTabFocus::OAuthProvider(i as usize),
        SavedSection::Preset => f == ProvidersTabFocus::PresetProvider(i as usize),
        SavedSection::Custom => f == ProvidersTabFocus::SavedKeyList(i as usize),
    }
}

/// Whether a non-blank key is saved under `name`.
pub open spec fn key_saved(p: SettingsPopup, name: Seq<char>) -> bool {
    exists|k: int| 0 <= k < p.saved_keys@.len() && #[trigger] p.saved_keys@[k].0@ == name
        && crate::text::trim(p.saved_keys@[k].1@).len() > 0
}

/// Whether the provider called `name` is enabled.
pub open spec fn provider_enabled(p: SettingsPopup, name: Seq<char>) -> bool {
    !names_set(p.disabled_providers@).contains(name)
}

/// A saved-list row's text: a ticked box for an enabled provider, an empty one otherwise,
/// a space and the name.
pub open spec fn saved_row_label(p: SettingsPopup, name: Seq<char>) -> Seq<char> {
    (if provider_enabled(p, name) { "[✓] "@ } else { "[ ] "@ }) + name
}

/// How a saved-list row is drawn.
pub open spec fn saved_row_style(p: SettingsPopup, name: Seq<char>, focused: bool) -> SavedRowStyle {
    if focused {
        SavedRowStyle::Focused
    } else if provider_enabled(p, name) && key_saved(p, name) {
        SavedRowStyle::Connected
    } else if !provider_enabled(p, name) {
        SavedRowStyle::Disabled
    } else {
        SavedRowStyle::NotConnected
    }
}

/// The texts of the first `n` rows of a part of the list.
pub open spec fn section_labels(p: SettingsPopup, e: Seq<EntryView>, n: nat) -> Seq<Seq<char>> {
    Seq::new(n, |i: int| saved_row_label(p, e[i].0))
}

/// The styles of the first `n` rows of a part of the list.
pub open spec fn section_styles(p: SettingsPopup, s: SavedSection, e: Seq<EntryView>, n: nat) -> Seq<SavedRowStyle> {
    Seq::new(n, |i: int| saved_row_style(p, e[i].0, section_focused(s, p.providers_tab_focus, i)))
}

/// The texts of some strings.
pub open spec fn texts(v: Seq<String>) -> Seq<Seq<char>> {
    v.map_values(|s: String| s@)
}

/// Appends the texts and styles of the first `n` rows of one part of the list.
fn push_section(p: &SettingsPopup, entries: &Vec<ProviderEntry>, n: u16, s: SavedSection,
    labels: &mut Vec<String>, styles: &mut Vec<SavedRowStyle>)
    requires
        n <= entries@.len(),
    ensures
        texts(final(labels)@) == texts(old(labels)@) + section_labels(*p, entries_view(entries@), n as nat),
        final(styles)@ == old(styles)@ + section_styles(*p, s, entries_view(entries@), n as nat),
{
    let ghost l0 = texts(labels@);
    let ghost s0 = styles@;
    let ghost ev = entries_view(entries@);
    let mut i: u16 = 0;
    while i < n
        invariant
            i <= n,
            n <= entries@.len(),
            ev == entries_view(entries@),
            texts(labels@) == l0 + section_labels(*p, ev, i as nat),
            styles@ == s0 + section_styles(*p, s, ev, i as nat),
        decreases n - i,
    {
        let name = entries[i as usize].0.as_str();
        let enabled = !set_contains(&p.disabled_providers, name);
        let prefix = if enabled { String::from_str("[✓] ") } else { String::from_str("[ ] ") };
        let label = concat_str(prefix, name);
        let focused = match (s, p.providers_tab_focus) {
            (SavedSection::OAuth, ProvidersTabFocus::OAuthProvider(k)) => k == i as usize,
            (SavedSection::Preset, ProvidersTabFocus::PresetProvider(k)) => k == i as usize,
            (SavedSection::Custom, ProvidersTabFocus::SavedKeyList(k)) => k == i as usize,
            _ => false,
        };
        let style = if focused {
            SavedRowStyle::Focused
        } else if enabled && p.has_saved_key(name) {
            SavedRowStyle::Connected
        } else if !enabled {
            SavedRowStyle::Disabled
        } else {
            SavedRowStyle::NotConnected
        };
        proof {
            assert(ev[i as int].0 == name@);
            assert(section_labels(*p, ev, (i + 1) as nat) =~= section_labels(*p, ev, i as nat).push(label@));
            assert(section_styles(*p, s, ev, (i + 1) as nat) =~= section_styles(*p, s, ev, i as nat).push(style));
            assert(texts(labels@.push(label)) =~= texts(labels@).push(label@));
        }
        labels.push(label);
        styles.push(style);
        i = i + 1;
    }
}

/// The `k`-th row of the saved list drawn inside `inner`.
pub open spec fn saved_row(inner: Rect, k: int) -> Rect {
    rect_new(inner.x, sat_add16(inner.y, k as u16), inner.width, 1)
}

/// `count` saved-list rows from the `start`-th.
pub open spec fn saved_rows(inner: Rect, start: nat, count: nat) -> Seq<Rect> {
    Seq::new(count, |i: int| saved_row(inner, start + i))
}

fn saved_rows_exec(inner: Rect, start: u16, count: u16) -> (r: Vec<Rect>)
    requires
        start + count <= u16::MAX,
    ensures
        r@ == saved_rows(inner, start as nat, count as nat),
{
    let mut v: Vec<Rect> = Vec::new();
    let mut i: u16 = 0;
    while i < count
        invariant
            i <= count,
            start + count <= u16::MAX,
            v@ == saved_rows(inner, start as nat, i as nat),
        decreases count - i,
    {
        let row = Rect::new(inner.x, inner.y.saturating_add(start + i), inner.width, 1);
        proof {
            assert(saved_rows(inner, start as nat, (i + 1) as nat) =~= saved_rows(inner, start as nat, i as nat).push(row));
        }
        v.push(row);
        i = i + 1;
    }
    v
}

/// `a` or `b`, whichever is smaller.
pub open spec fn min_nat(a: nat, b: nat) -> nat {
    if a < b { a } else { b }
}

/// The providers tab's constraints: three rows of three lines, the saved list of at least
/// three and a last row of three.
pub open spec fn providers_constraints() -> Seq<LayoutConstraint> {
    seq![LayoutConstraint::Length(3), LayoutConstraint::Length(3), LayoutConstraint::Length(3),
        LayoutConstraint::Min(3), LayoutConstraint::Length(3)]
}

/// The button row's constraints.
pub open spec fn provider_button_constraints() -> Seq<LayoutConstraint> {
    seq![LayoutConstraint::Length(16), LayoutConstraint::Length(18), LayoutConstraint::Length(20),
        LayoutConstraint::Length(20), LayoutConstraint::Min(0)]
}

/// Where the providers tab drawn in `area` puts its rows, buttons and saved-list rows.
pub open spec fn providers_tab_layout_spec(area: Rect, p: SettingsPopup, r: ProvidersTabLayout) -> bool {
    &&& split_outcome(area, LayoutDirection::Vertical, 1, providers_constraints(), r.rows@)
    &&& split_outcome(r.rows@[2], LayoutDirection::Horizontal, 0, provider_button_constraints(), r.buttons@)
    &&& providers_tab_from_spec(r.rows@, r.buttons@, p, r)
}

/// The providers tab's layout on its five rows `rows` and the button row's parts `buttons`:
/// the saved list (or a model list) inside the fourth row's border.
pub open spec fn providers_tab_from_spec(rows: Seq<Rect>, buttons: Seq<Rect>, p: SettingsPopup, r: ProvidersTabLayout) -> bool {
    let inner = bordered_inner(rows[3]);
    let h = inner.height as nat;
    let o = min_nat(oauth_entries(p.db_providers@).len(), h);
    let pr = min_nat(preset_entries(p.db_providers@).len(), (h - o) as nat);
    let c = min_nat(custom_key_entries(p.db_providers@).len(), (h - o - pr) as nat);
    let model_list = p.providers_dropdown_open == Some(ProvidersDropdown::DefaultModel)
        || p.providers_dropdown_open == Some(ProvidersDropdown::SmallModel);
    &&& r.rows@ == rows
    &&& r.buttons@ == buttons
    &&& r.model_list_open == model_list
    &&& if model_list {
        let total = p.available_models@.len();
        &&& r.oauth_rows@.len() == 0 && r.preset_rows@.len() == 0 && r.saved_key_rows@.len() == 0
        &&& r.row_labels@.len() == 0 && r.row_styles@.len() == 0
        &&& r.model_offset == min_nat(p.dropdown_scroll_offset as nat, (total - models_shown(total)) as nat)
        &&& r.model_rows@ == model_rows(inner, models_shown(total))
    } else {
        &&& r.model_offset == 0
        &&& r.model_rows@.len() == 0
        &&& r.oauth_rows@ == saved_rows(inner, 0, o)
        &&& r.preset_rows@ == saved_rows(inner, o, pr)
        &&& r.saved_key_rows@ == saved_rows(inner, o + pr, c)
        &&& texts(r.row_labels@) == section_labels(p, oauth_entries(p.db_providers@), o)
            + section_labels(p, preset_entries(p.db_providers@), pr)
            + section_labels(p, custom_key_entries(p.db_providers@), c)
        &&& r.row_styles@ == section_styles(p, SavedSection::OAuth, oauth_entries(p.db_providers@), o)
            + section_styles(p, SavedSection::Preset, preset_entries(p.db_providers@), pr)
            + section_styles(p, SavedSection::Custom, custom_key_entries(p.db_providers@), c)
    }
}

/// Lays out the providers tab in `area`: its rows and buttons as the layout solver gives
/// them (see `providers_tab_layout_spec`).
pub fn providers_tab_layout(area: Rect, popup: &SettingsPopup) -> (r: ProvidersTabLayout)
    ensures
        providers_tab_layout_spec(area, *popup, r),
{
    let cs = vec![LayoutConstraint::Length(3), LayoutConstraint::Length(3), LayoutConstraint::Length(3),
        LayoutConstraint::Min(3), LayoutConstraint::Length(3)];
    let bcs = vec![LayoutConstraint::Length(16), LayoutConstraint::Length(18), LayoutConstraint::Length(20),
        LayoutConstraint::Length(20), LayoutConstraint::Min(0)];
    proof {
        assert(cs@ =~= providers_constraints());
        assert(bcs@ =~= provider_button_constraints());
    }
    let rows = split_layout(area, LayoutDirection::Vertical, 1, &cs);
    let buttons = split_layout(rows[2], LayoutDirection::Horizontal, 0, &bcs);
    providers_tab_from(rows, buttons, popup)
}

/// The providers tab's layout on the rows `rows` and buttons `buttons` (see
/// `providers_tab_from_spec`).
pub fn providers_tab_from(rows: Vec<Rect>, buttons: Vec<Rect>, popup: &SettingsPopup) -> (r: ProvidersTabLayout)
    requires
        rows@.len() == 5,
    ensures
        providers_tab_from_spec(rows@, buttons@, *popup, r),
{
    let model_list = match popup.providers_dropdown_open {
        Some(ProvidersDropdown::DefaultModel) | Some(ProvidersDropdown::SmallModel) => true,
        _ => false,
    };
    let inner = bordered_inner_exec(rows[3]);
    if model_list {
        let total = popup.available_models.len();
        let shown: usize = if total < 6 { total } else { 6 };
        let last = total - shown;
        let offset = if popup.dropdown_scroll_offset < last { popup.dropdown_scroll_offset } else { last };
        return ProvidersTabLayout {
            rows, buttons, model_list_open: true,
            oauth_rows: Vec::new(), preset_rows: Vec::new(), saved_key_rows: Vec::new(),
            row_labels: Vec::new(), row_styles: Vec::new(),
            model_offset: offset,
            model_rows: model_rows_exec(inner, shown as u16),
        };
    }
    let h = inner.height;
    let ov = popup.oauth_providers();
    let pv = popup.preset_api_key_providers();
    let cv = popup.custom_key_providers();
    let on = ov.len();
    let pn = pv.len();
    let cn = cv.len();
    proof {
        assert(entries_view(ov@).len() == ov@.len());
        assert(entries_view(pv@).len() == pv@.len());
        assert(entries_view(cv@).len() == cv@.len());
    }
    let o: u16 = if on < h as usize { on as u16 } else { h };
    let pr: u16 = if pn < (h - o) as usize { pn as u16 } else { h - o };
    let c: u16 = if cn < (h - o - pr) as usize { cn as u16 } else { h - o - pr };
    let mut labels: Vec<String> = Vec::new();
    let mut styles: Vec<SavedRowStyle> = Vec::new();
    proof {
        assert(texts(labels@) =~= Seq::<Seq<char>>::empty());
        assert(styles@ =~= Seq::<SavedRowStyle>::empty());
    }
    push_section(popup, &ov, o, SavedSection::OAuth, &mut labels, &mut styles);
    push_section(popup, &pv, pr, SavedSection::Preset, &mut labels, &mut styles);
    push_section(popup, &cv, c, SavedSection::Custom, &mut labels, &mut styles);
    ProvidersTabLayout {
        rows, buttons, model_list_open: false,
        oauth_rows: saved_rows_exec(inner, 0, o),
        preset_rows: saved_rows_exec(inner, o, pr),
        saved_key_rows: saved_rows_exec(inner, o + pr, c),
        row_labels: labels,
        row_styles: styles,
        model_offset: 0,
        model_rows: Vec::new(),
    }
}

// ---------------------------------------------------------------------------------------
// The popup's frame and the MCP tab.

/// The settings popup's rows: the tab-title row of three lines and the tab's content.
pub open spec fn settings_frame_constraints() -> Seq<LayoutConstraint> {
    seq![LayoutConstraint::Length(3), LayoutConstraint::Min(0)]
}

/// The settings popup over `area`, with its tab-title row and content area: the popup lies
/// within the area and the two rows are what the layout solver gives inside its border.
/// Clicks on the tab titles are matched against this popup (see `tab_hit_areas`).
pub fn settings_frame_areas(area: Rect) -> (r: (Rect, Vec<Rect>))
    ensures
        rect_within(rect_new(area.x, area.y, area.width, area.height), r.0),
        split_outcome(bordered_inner(r.0), LayoutDirection::Vertical, 0, settings_frame_constraints(), r.1@),
{
    let popup = SettingsPopup::popup_area(area);
    let inner = bordered_inner_exec(popup);
    let cs = vec![LayoutConstraint::Length(3), LayoutConstraint::Min(0)];
    proof {
        assert(cs@ =~= settings_frame_constraints());
    }
    let rows = split_layout(inner, LayoutDirection::Vertical, 0, &cs);
    (popup, rows)
}

/// Where the MCP tab puts its server rows, and the focus it keeps.
#[derive(Debug, Clone)]
pub struct McpTabLayout {
    /// The focused server, kept within the list (unchanged when no row fits).
    pub focus: usize,
    /// Each shown server's position in the list and its one-line row.
    pub rows: Vec<(usize, Rect)>,
}

/// `a - b`, or 0 when `b` is larger.
pub open spec fn sat_sub_nat(a: nat, b: nat) -> nat {
    if a >= b { (a - b) as nat } else { 0 }
}

/// How many rows the MCP tab has room for: the area less its one-cell margin.
pub open spec fn mcp_visible(area: Rect) -> nat {
    sat_sub16(area.height, 2) as nat
}

/// The MCP tab's focus: kept within the list when a row fits.
pub open spec fn mcp_focus_kept(area: Rect, p: SettingsPopup) -> nat {
    if mcp_visible(area) == 0 {
        p.mcp_focus as nat
    } else {
        min_nat(p.mcp_focus as nat, sat_sub_nat(p.mcp_servers@.len(), 1))
    }
}

/// The first server shown: the focus stays on the last visible row at most, and the list
/// does not scroll past its end.
pub open spec fn mcp_start(area: Rect, p: SettingsPopup) -> nat {
    let visible = mcp_visible(area);
    min_nat(sat_sub_nat(mcp_focus_kept(area, p), sat_sub_nat(visible, 1)), sat_sub_nat(p.mcp_servers@.len(), visible))
}

/// How many servers are shown.
pub open spec fn mcp_shown(area: Rect, p: SettingsPopup) -> nat {
    min_nat(mcp_visible(area), sat_sub_nat(p.mcp_servers@.len(), mcp_start(area, p)))
}

/// `n` constraints of one row each.
pub open spec fn rows_of_one(n: nat) -> Seq<LayoutConstraint> {
    Seq::new(n, |i: int| LayoutConstraint::Length(1))
}

/// Where the MCP tab drawn in `area` puts its rows.
pub open spec fn mcp_tab_layout_spec(area: Rect, p: SettingsPopup, r: McpTabLayout) -> bool {
    let n = if mcp_visible(area) == 0 { 0 } else { mcp_shown(area, p) };
    &&& r.focus == mcp_focus_kept(area, p)
    &&& split_outcome(area, LayoutDirection::Vertical, 1, rows_of_one(n), r.rows@.map_values(|e: (usize, Rect)| e.1))
    &&& forall|i: int| 0 <= i < n ==> #[trigger] r.rows@[i].0 == (mcp_start(area, p) + i) as usize
}

/// Lays out the MCP tab in `area`.
pub fn mcp_tab_layout(area: Rect, popup: &SettingsPopup) -> (r: McpTabLayout)
    ensures
        mcp_tab_layout_spec(area, *popup, r),
{
    let visible = area.height.saturating_sub(2) as usize;
    if visible == 0 {
        let r = McpTabLayout { focus: popup.mcp_focus, rows: Vec::new() };
        proof {
            assert(r.rows@.map_values(|e: (usize, Rect)| e.1) =~= Seq::<Rect>::empty());
        }
        return r;
    }
    let len = popup.mcp_servers.len();
    let last = len.saturating_sub(1);
    let focus = if popup.mcp_focus < last { popup.mcp_focus } else { last };
    let a = focus.saturating_sub(visible - 1);
    let b = len.saturating_sub(visible);
    let start = if a < b { a } else { b };
    let rest = len - start;
    let n = if visible < rest { visible } else { rest };
    let mut cs: Vec<LayoutConstraint> = Vec::new();
    let mut i: usize = 0;
    while i < n
        invariant
            i <= n,
            cs@ == rows_of_one(i as nat),
        decreases n - i,
    {
        proof {
            assert(rows_of_one((i + 1) as nat) =~= rows_of_one(i as nat).push(LayoutConstraint::Length(1)));
        }
        cs.push(LayoutConstraint::Length(1));
        i = i + 1;
    }
    let parts = split_layout(area, LayoutDirection::Vertical, 1, &cs);
    let mut rows: Vec<(usize, Rect)> = Vec::new();
    let mut k: usize = 0;
    while k < n
        invariant
            k <= n,
            n == parts@.len(),
            start + n <= len,
            rows@.len() == k,
            forall|j: int| 0 <= j < k ==> #[trigger] rows@[j] == ((start + j) as usize, parts@[j]),
        decreases n - k,
    {
        rows.push((start + k, parts[k]));
        k = k + 1;
    }
    proof {
        assert(rows@.map_values(|e: (usize, Rect)| e.1) =~= parts@);
    }
    McpTabLayout { focus, rows }
}

// ---------------------------------------------------------------------------------------
// The models tab.

/// How a row of the models tab's list is drawn.
#[derive(Debug, Clone, Copy, PartialEq, Eq, Structural)]
pub enum ModelRowStyle {
    Focused,
    Enabled,
    Disabled,
}

/// Where the models tab puts its provider selector and its model rows, with the rows'
/// texts and styles.
#[derive(Debug, Clone)]
pub struct ModelsTabLayout {
    /// The provider selector, the model list and the help line.
    pub rows: Vec<Rect>,
    /// The rows of the shown models, as many as fit in the list.
    pub model_rows: Vec<Rect>,
    /// Each shown model's text: a ticked box when it is enabled, then its id.
    pub model_labels: Vec<String>,
    pub model_styles: Vec<ModelRowStyle>,
}

/// The models tab's constraints: the selector of three rows, the list, a help line of two.
pub open spec fn models_constraints() -> Seq<LayoutConstraint> {
    seq![LayoutConstraint::Length(3), LayoutConstraint::Min(0), LayoutConstraint::Length(2)]
}

/// Whether the model `id` of the tab's provider is enabled.
pub open spec fn model_enabled(p: SettingsPopup, id: Seq<char>) -> bool {
    !names_set(p.disabled_models@).contains(p.models_provider@ + seq![':'] + id)
}

/// A model row's text.
pub open spec fn model_label(p: SettingsPopup, id: Seq<char>) -> Seq<char> {
    (if model_enabled(p, id) { "[✓] "@ } else { "[ ] "@ }) + id
}

/// How the `i`-th model row is drawn.
pub open spec fn model_style(p: SettingsPopup, i: int) -> ModelRowStyle {
    if p.models_tab_focus == crate::settings_popup::ModelsTabFocus::Model(i as usize) {
        ModelRowStyle::Focused
    } else if model_enabled(p, p.models_available_models@[i].id@) {
        ModelRowStyle::Enabled
    } else {
        ModelRowStyle::Disabled
    }
}

/// Where the models tab drawn in `area` puts its rows.
pub open spec fn models_tab_layout_spec(area: Rect, p: SettingsPopup, r: ModelsTabLayout) -> bool {
    &&& split_outcome(area, LayoutDirection::Vertical, 1, models_constraints(), r.rows@)
    &&& models_tab_from_spec(r.rows@, p, r)
}

/// The models tab's layout on its three rows `rows`: the model rows inside the list row's
/// border, as many as fit, with their texts and styles.
pub open spec fn models_tab_from_spec(rows: Seq<Rect>, p: SettingsPopup, r: ModelsTabLayout) -> bool {
    let inner = bordered_inner(rows[1]);
    let n = min_nat(p.models_available_models@.len(), inner.height as nat);
    &&& r.rows@ == rows
    &&& r.model_rows@ == saved_rows(inner, 0, n)
    &&& texts(r.model_labels@) == Seq::new(n, |i: int| model_label(p, p.models_available_models@[i].id@))
    &&& r.model_styles@ == Seq::new(n, |i: int| model_style(p, i))
}

/// Lays out the models tab in `area`: its rows as the layout solver gives them (see
/// `models_tab_layout_spec`).
pub fn models_tab_layout(area: Rect, popup: &SettingsPopup) -> (r: ModelsTabLayout)
    ensures
        models_tab_layout_spec(area, *popup, r),
{
    let cs = vec![LayoutConstraint::Length(3), LayoutConstraint::Min(0), LayoutConstraint::Length(2)];
    proof {
        assert(cs@ =~= models_constraints());
    }
    let rows = split_layout(area, LayoutDirection::Vertical, 1, &cs);
    models_tab_from(rows, popup)
}

/// The models tab's layout on the rows `rows` (see `models_tab_from_spec`).
pub fn models_tab_from(rows: Vec<Rect>, popup: &SettingsPopup) -> (r: ModelsTabLayout)
    requires
        rows@.len() == 3,
    ensures
        models_tab_from_spec(rows@, *popup, r),
{
    let inner = bordered_inner_exec(rows[1]);
    let total = popup.models_available_models.len();
    let n: u16 = if total < inner.height as usize { total as u16 } else { inner.height };
    let ghost p = *popup;
    let mut labels: Vec<String> = Vec::new();
    let mut styles: Vec<ModelRowStyle> = Vec::new();
    let mut i: u16 = 0;
    while i < n
        invariant
            i <= n,
            n <= popup.models_available_models@.len(),
            p == *popup,
            texts(labels@) == Seq::new(i as nat, |k: int| model_label(p, p.models_available_models@[k].id@)),
            styles@ == Seq::new(i as nat, |k: int| model_style(p, k)),
        decreases n - i,
    {
        let id = popup.models_available_models[i as usize].id.as_str();
        let key = SettingsPopup::disabled_model_key(popup.models_provider.as_str(), id);
        let enabled = !set_contains(&popup.disabled_models, key.as_str());
        let prefix = if enabled { String::from_str("[✓] ") } else { String::from_str("[ ] ") };
        let label = concat_str(prefix, id);
        let focused = match popup.models_tab_focus {
            crate::settings_popup::ModelsTabFocus::Model(k) => k == i as usize,
            _ => false,
        };
        let style = if focused {
            ModelRowStyle::Focused
        } else if enabled {
            ModelRowStyle::Enabled
        } else {
            ModelRowStyle::Disabled
        };
        proof {
            assert(Seq::new((i + 1) as nat, |k: int| model_label(p, p.models_available_models@[k].id@))
                =~= Seq::new(i as nat, |k: int| model_label(p, p.models_available_models@[k].id@)).push(label@));
            assert(Seq::new((i + 1) as nat, |k: int| model_style(p, k))
                =~= Seq::new(i as nat, |k: int| model_style(p, k)).push(style));
            assert(texts(labels@.push(label)) =~= texts(labels@).push(label@));
        }
        labels.push(label);
        styles.push(style);
        i = i + 1;
    }
    ModelsTabLayout { rows, model_rows: saved_rows_exec(inner, 0, n), model_labels: labels, model_styles: styles }
}

// ---------------------------------------------------------------------------------------
// The keybindings tab.

/// The shortcuts the keybindings tab lists, key and description, in order; the memory
/// routes only when memory is built in.
pub open spec fn keybinding_pairs(memory: bool) -> Seq<(Seq<char>, Seq<char>)> {
    seq![("Ctrl+T"@, "New Tab"@), ("Ctrl+N"@, "New Chat"@), ("Ctrl+W"@, "Close Tab"@), ("Ctrl+Shift+W"@, "Close Chat"@), ("Ctrl+B"@, "Toggle Sidebar"@), ("Ctrl+,"@, "Toggle Settings"@), ("Ctrl+Q"@, "Quit"@), ("Ctrl+C"@, "Cancel / Quit (press twice)"@), ("Enter"@, "Send message"@), ("/quit, /exit, /q"@, "Quit via chat"@), ("/theme"@, "Choose and apply a theme"@), ("/skills"@, "Show installed skills"@)]
        + (if memory { seq![("memory-mcp"@, "Expose memory tools over stdio MCP"@)] } else { Seq::empty() })
        + seq![("/mcp"@, "Show MCP servers"@), ("/vault <query>"@, "Search the configured vault"@), ("/web, /web on, /web off"@, "Toggle local web search"@), ("@obsidian"@, "Search, read, or update the configured vault"@)]
        + (if memory { seq![("@remember"@, "Save one durable fact or preference"@), ("@memory / @memorize"@, "Search, read, write, or forget memory"@)] } else { Seq::empty() })
        + seq![("@websearch"@, "Use local web search"@), ("@save"@, "Create a sidebar markdown artifact"@)]
}

/// The texts of pairs of strings.
pub open spec fn pairs_view(v: Seq<(String, String)>) -> Seq<(Seq<char>, Seq<char>)> {
    v.map_values(|p: (String, String)| (p.0@, p.1@))
}

/// The shortcuts the keybindings tab lists (see `keybinding_pairs`).
pub fn keybinding_rows(memory: bool) -> (r: Vec<(String, String)>)
    ensures
        pairs_view(r@) == keybinding_pairs(memory),
{
    let mut v: Vec<(String, String)> = Vec::new();
    v.push((String::from_str("Ctrl+T"), String::from_str("New Tab")));
    v.push((String::from_str("Ctrl+N"), String::from_str("New Chat")));
    v.push((String::from_str("Ctrl+W"), String::from_str("Close Tab")));
    v.push((String::from_str("Ctrl+Shift+W"), String::from_str("Close Chat")));
    v.push((String::from_str("Ctrl+B"), String::from_str("Toggle Sidebar")));
    v.push((String::from_str("Ctrl+,"), String::from_str("Toggle Settings")));
    v.push((String::from_str("Ctrl+Q"), String::from_str("Quit")));
    v.push((String::from_str("Ctrl+C"), String::from_str("Cancel / Quit (press twice)")));
    v.push((String::from_str("Enter"), String::from_str("Send message")));
    v.push((String::from_str("/quit, /exit, /q"), String::from_str("Quit via chat")));
    v.push((String::from_str("/theme"), String::from_str("Choose and apply a theme")));
    v.push((String::from_str("/skills"), String::from_str("Show installed skills")));
    if memory {
        v.push((String::from_str("memory-mcp"), String::from_str("Expose memory tools over stdio MCP")));
    }
    v.push((String::from_str("/mcp"), String::from_str("Show MCP servers")));
    v.push((String::from_str("/vault <query>"), String::from_str("Search the configured vault")));
    v.push((String::from_str("/web, /web on, /web off"), String::from_str("Toggle local web search")));
    v.push((String::from_str("@obsidian"), String::from_str("Search, read, or update the configured vault")));
    if memory {
        v.push((String::from_str("@remember"), String::from_str("Save one durable fact or preference")));
        v.push((String::from_str("@memory / @memorize"), String::from_str("Search, read, write, or forget memory")));
    }
    v.push((String::from_str("@websearch"), String::from_str("Use local web search")));
    v.push((String::from_str("@save"), String::from_str("Create a sidebar markdown artifact")));
    proof {
        assert(pairs_view(v@) =~= keybinding_pairs(memory));
    }
    v
}

/// A keybinding line: the key padded with spaces to 22 characters, then the description.
pub open spec fn keybinding_line(key: Seq<char>, desc: Seq<char>) -> Seq<char> {
    key + Seq::new(sat_sub_nat(22, key.len()), |i: int| ' ') + desc
}

/// The keybindings tab's lines.
pub fn keybinding_lines(memory: bool) -> (r: Vec<String>)
    ensures
        texts(r@) == Seq::new(keybinding_pairs(memory).len(),
            |i: int| keybinding_line(keybinding_pairs(memory)[i].0, keybinding_pairs(memory)[i].1)),
{
    let rows = keybinding_rows(memory);
    let ghost pairs = keybinding_pairs(memory);
    let mut out: Vec<String> = Vec::new();
    let mut i: usize = 0;
    while i < rows.len()
        invariant
            i <= rows@.len(),
            pairs_view(rows@) == pairs,
            texts(out@) == Seq::new(i as nat, |k: int| keybinding_line(pairs[k].0, pairs[k].1)),
        decreases rows@.len() - i,
    {
        let key = rows[i].0.as_str();
        let desc = rows[i].1.as_str();
        let mut line = String::from_str(key);
        let mut n: usize = crate::text::chars_of(key).len();
        let ghost start = n;
        while n < 22
            invariant
                start == key@.len(),
                start <= n <= 22 || (n == start && start >= 22),
                line@ == key@ + Seq::new((n - start) as nat, |j: int| ' '),
            decreases 22 - n,
        {
            proof {
                assert(key@ + Seq::new((n + 1 - start) as nat, |j: int| ' ')
                    =~= (key@ + Seq::new((n - start) as nat, |j: int| ' ')).push(' '));
            }
            crate::text::push_char(&mut line, ' ');
            n = n + 1;
        }
        let line = concat_str(line, desc);
        proof {
            assert(pairs[i as int] == (key@, desc@));
            assert(Seq::new(sat_sub_nat(22, key@.len()), |j: int| ' ') =~= Seq::new((n - start) as nat, |j: int| ' '));
            assert(Seq::new((i + 1) as nat, |k: int| keybinding_line(pairs[k].0, pairs[k].1))
                =~= Seq::new(i as nat, |k: int| keybinding_line(pairs[k].0, pairs[k].1)).push(line@));
            assert(texts(out@.push(line)) =~= texts(out@).push(line@));
        }
        out.push(line);
        i = i + 1;
    }
    out
}

} // verus!
