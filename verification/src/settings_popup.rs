//! The settings popup as a whole: which tab and row have focus, the dropdowns of the
//! general, providers and models tabs, and what a key press or activation does to them.
use vstd::prelude::*;
use crate::settings::{
    SettingsTab, GeneralFocus, GeneralDropdown, focus_dropdown, general_focus_next, general_focus_prev,
    local_focus_next, local_focus_prev, cycle_form_focus_spec, cycle_edit_focus_spec, LocalFocus, LocalServerType, EditableProvider,
    ProviderFormState, EditProvidersPopupState, PresetKeyPopupState, drop_last_char, pop_char,
};
use crate::render::{MarkdownMode, HeadingDownscale};
use crate::geometry::Rect;
use crate::name_order::{sorted_by_name, sort_by_name};
use crate::name_set::{no_repeats, names_view, names_set, set_contains, set_toggle, toggled, same_text};
use crate::text::{chars_of, sub_chars, string_from_chars, push_char, concat_str, trim, trimmed_string};

verus! {

/// Where the messages of one side of the chat are aligned.
#[derive(Debug, Clone, Copy, PartialEq, Eq, Structural)]
pub enum TextAlignment {
    Left,
    Middle,
    Right,
}

/// The alignments the alignment dropdowns offer, in order.
pub open spec fn alignment_options() -> Seq<TextAlignment> {
    seq![TextAlignment::Left, TextAlignment::Middle, TextAlignment::Right]
}

/// The heading scales the kitty text-scale dropdown offers, in order.
pub open spec fn heading_scale_options() -> Seq<HeadingDownscale> {
    seq![HeadingDownscale::Zero, HeadingDownscale::One, HeadingDownscale::Two]
}

/// An MCP server as the settings list shows it.
#[derive(Debug, Clone)]
pub struct McpServerConfig {
    pub name: String,
    pub enabled: bool,
}

/// A model a provider offers, and the size of its context window when known.
#[derive(Debug, Clone)]
pub struct ModelInfo {
    pub id: String,
    pub context_window: Option<u32>,
}

/// A configured provider: name, endpoint, environment variable of its key, backend type
/// and authentication type (`api_key` or `oauth`).
pub type ProviderEntry = (String, String, String, String, String);

/// Focusable rows of the providers tab.
#[derive(Debug, Clone, Copy, PartialEq, Eq, Structural)]
pub enum ProvidersTabFocus {
    DefaultProvider,
    DefaultModel,
    SmallProvider,
    SmallModel,
    UseEnvToggle,
    ReloadModelsButton,
    AddProviderButton,
    EditProvidersButton,
    SavedKeyList(usize),
    PresetProvider(usize),
    OAuthProvider(usize),
    PopupApiKey,
    PopupSaveButton,
    PopupCancelButton,
}

/// The dropdowns of the providers tab.
#[derive(Debug, Clone, Copy, PartialEq, Eq, Structural)]
pub enum ProvidersDropdown {
    DefaultProvider,
    DefaultModel,
    SmallProvider,
    SmallModel,
}

/// Focusable rows of the models tab: the provider selector or one of its models.
#[derive(Debug, Clone, Copy, PartialEq, Eq, Structural)]
pub enum ModelsTabFocus {
    Provider,
    Model(usize),
}

/// What the caller has to do after an activation in the providers tab.
#[derive(Debug, Clone)]
pub enum ProvidersAction {
    NoAction,
    ToggleUseEnv,
    RefreshModels,
    SubmitAdd { provider: EditableProvider, api_key: String },
    SubmitEdit { original_name: String, provider: EditableProvider, api_key: String },
    DeleteProvider(String),
    SavePresetKey { provider_name: String, api_key: String },
}

/// The areas of the preset-key popup's controls, as last drawn.
#[derive(Debug, Clone, Copy, PartialEq, Eq, Structural)]
pub struct ProvidersTabHitAreas {
    pub popup_api_key: Option<Rect>,
    pub popup_save: Option<Rect>,
    pub popup_cancel: Option<Rect>,
}

/// The values the settings popup opens with.
pub struct SettingsPopupInit {
    pub default_provider: String,
    pub default_model: String,
    pub small_model: String,
    pub use_env_keys: bool,
    pub saved_keys: Vec<(String, String)>,
    pub theme: String,
    pub theme_keys: Vec<String>,
    pub user_alignment: TextAlignment,
    pub ai_alignment: TextAlignment,
    pub markdown_mode: MarkdownMode,
    pub artifact_save_dir: String,
    pub vault_path: String,
    pub available_models: Vec<ModelInfo>,
    pub db_providers: Vec<ProviderEntry>,
    pub show_selector: bool,
    pub show_chat_scrollbar: bool,
    pub collapse_thinking: bool,
    pub kitty_enhanced_text: bool,
    pub kitty_heading_downscale: HeadingDownscale,
    pub web_search_enabled: bool,
    pub quit_confirmation: bool,
    pub local_enabled: bool,
    pub local_host: String,
    pub local_port: String,
    pub local_server_type: LocalServerType,
    pub local_selected_model: String,
    pub local_model_directory: String,
    pub local_health_interval_seconds: String,
    pub local_connect_timeout_ms: String,
    pub local_request_timeout_ms: String,
    pub local_api_token_env: String,
    pub detected_local_server: Option<LocalServerType>,
    pub providers_tab_list: Vec<EditableProvider>,
    pub models_provider: String,
    pub models_available_models: Vec<ModelInfo>,
    pub mcp_servers: Vec<McpServerConfig>,
}

/// The state of the settings popup.
pub struct SettingsPopup {
    pub default_provider: String,
    pub default_model: String,
    pub small_model: String,
    pub active_tab: SettingsTab,
    pub use_env_keys: bool,
    pub saved_keys: Vec<(String, String)>,
    pub theme: String,
    pub theme_keys: Vec<String>,
    pub user_alignment: TextAlignment,
    pub ai_alignment: TextAlignment,
    pub markdown_mode: MarkdownMode,
    pub artifact_save_dir: String,
    pub vault_path: String,
    pub general_focus: GeneralFocus,
    pub general_dropdown_open: Option<GeneralDropdown>,
    pub available_models: Vec<ModelInfo>,
    pub db_providers: Vec<ProviderEntry>,
    pub show_selector: bool,
    pub show_chat_scrollbar: bool,
    pub collapse_thinking: bool,
    pub kitty_enhanced_text: bool,
    pub kitty_heading_downscale: HeadingDownscale,
    pub web_search_enabled: bool,
    pub quit_confirmation: bool,
    pub local_enabled: bool,
    pub local_host: String,
    pub local_port: String,
    pub local_server_type: LocalServerType,
    pub local_selected_model: String,
    pub local_model_directory: String,
    pub local_health_interval_seconds: String,
    pub local_connect_timeout_ms: String,
    pub local_request_timeout_ms: String,
    pub local_api_token_env: String,
    pub detected_local_server: Option<LocalServerType>,
    pub local_focus: LocalFocus,
    pub mcp_servers: Vec<McpServerConfig>,
    pub mcp_focus: usize,
    pub providers_tab_list: Vec<EditableProvider>,
    pub providers_tab_focus: ProvidersTabFocus,
    pub providers_dropdown_open: Option<ProvidersDropdown>,
    pub dropdown_scroll_offset: usize,
    pub providers_tab_hit_areas: ProvidersTabHitAreas,
    pub models_provider: String,
    pub models_available_models: Vec<ModelInfo>,
    pub models_tab_focus: ModelsTabFocus,
    pub models_dropdown_open: bool,
    pub models_dropdown_scroll_offset: usize,
    pub add_provider_popup: Option<ProviderFormState>,
    pub edit_providers_popup: Option<EditProvidersPopupState>,
    pub edit_provider_popup: Option<ProviderFormState>,
    pub preset_key_popup: Option<PresetKeyPopupState>,
    pub disabled_providers: Vec<String>,
    pub disabled_models: Vec<String>,
}

/// The popup with every focus back on its tab's first row and every dropdown closed.
pub open spec fn focus_reset(p: SettingsPopup) -> SettingsPopup {
    SettingsPopup {
        general_focus: GeneralFocus::Theme,
        general_dropdown_open: None,
        providers_tab_focus: ProvidersTabFocus::DefaultProvider,
        models_tab_focus: ModelsTabFocus::Provider,
        models_dropdown_open: false,
        local_focus: LocalFocus::Enabled,
        mcp_focus: 0,
        ..p
    }
}

/// The first position of `key` among `keys`, or 0 when it is not there.
pub open spec fn key_position(keys: Seq<Seq<char>>, key: Seq<char>) -> nat
    decreases keys.len(),
{
    if keys.len() == 0 {
        0
    } else if keys[0] == key {
        0
    } else if keys.drop_first().contains(key) {
        1 + key_position(keys.drop_first(), key)
    } else {
        0
    }
}

/// The position of an alignment among the dropdown's options.
pub open spec fn alignment_position(a: TextAlignment) -> nat {
    match a {
        TextAlignment::Left => 0,
        TextAlignment::Middle => 1,
        TextAlignment::Right => 2,
    }
}

/// The position of a heading scale among the dropdown's options.
pub open spec fn heading_scale_position(d: HeadingDownscale) -> nat {
    match d {
        HeadingDownscale::Zero => 0,
        HeadingDownscale::One => 1,
        HeadingDownscale::Two => 2,
    }
}

impl SettingsPopup {
    /// Whether the disabled provider and model names hold no name twice.
    pub open spec fn wf(&self) -> bool {
        no_repeats(names_view(self.disabled_providers@)) && no_repeats(names_view(self.disabled_models@))
    }

    /// The number of options of the open general dropdown; 0 when none is open.
    pub open spec fn general_options_len(&self) -> nat {
        match self.general_dropdown_open {
            Some(GeneralDropdown::Theme) => self.theme_keys@.len(),
            Some(GeneralDropdown::UserAlignment) => 3,
            Some(GeneralDropdown::AiAlignment) => 3,
            Some(GeneralDropdown::KittyTextScale) => 3,
            None => 0,
        }
    }

    /// The position of the current value among the open general dropdown's options.
    pub open spec fn general_current_position(&self) -> nat {
        match self.general_dropdown_open {
            Some(GeneralDropdown::Theme) => key_position(names_view(self.theme_keys@), self.theme@),
            Some(GeneralDropdown::UserAlignment) => alignment_position(self.user_alignment),
            Some(GeneralDropdown::AiAlignment) => alignment_position(self.ai_alignment),
            Some(GeneralDropdown::KittyTextScale) => heading_scale_position(self.kitty_heading_downscale),
            None => 0,
        }
    }

    /// The theme after choosing option `idx` of the open general dropdown.
    pub open spec fn selected_theme(&self, idx: nat) -> String {
        if self.general_dropdown_open == Some(GeneralDropdown::Theme) && idx < self.theme_keys@.len() {
            self.theme_keys@[idx as int]
        } else {
            self.theme
        }
    }

    /// The user-side alignment after choosing option `idx` of the open general dropdown.
    pub open spec fn selected_user_alignment(&self, idx: nat) -> TextAlignment {
        if self.general_dropdown_open == Some(GeneralDropdown::UserAlignment) && idx < 3 {
            alignment_options()[idx as int]
        } else {
            self.user_alignment
        }
    }

    /// The assistant-side alignment after choosing option `idx` of the open general dropdown.
    pub open spec fn selected_ai_alignment(&self, idx: nat) -> TextAlignment {
        if self.general_dropdown_open == Some(GeneralDropdown::AiAlignment) && idx < 3 {
            alignment_options()[idx as int]
        } else {
            self.ai_alignment
        }
    }

    /// The heading scale after choosing option `idx` of the open general dropdown.
    pub open spec fn selected_heading_scale(&self, idx: nat) -> HeadingDownscale {
        if self.general_dropdown_open == Some(GeneralDropdown::KittyTextScale) && idx < 3 {
            heading_scale_options()[idx as int]
        } else {
            self.kitty_heading_downscale
        }
    }

    /// The popup after choosing option `idx` of the open general dropdown: the value is set
    /// when `idx` is an option, and the dropdown closes either way.
    pub open spec fn general_selected(&self, idx: nat) -> SettingsPopup {
        SettingsPopup {
            general_dropdown_open: None,
            theme: self.selected_theme(idx),
            user_alignment: self.selected_user_alignment(idx),
            ai_alignment: self.selected_ai_alignment(idx),
            kitty_heading_downscale: self.selected_heading_scale(idx),
            ..*self
        }
    }
}

fn alignment_option(i: usize) -> (r: TextAlignment)
    requires
        i < 3,
    ensures
        r == alignment_options()[i as int],
{
    if i == 0 {
        TextAlignment::Left
    } else if i == 1 {
        TextAlignment::Middle
    } else {
        TextAlignment::Right
    }
}

fn heading_scale_option(i: usize) -> (r: HeadingDownscale)
    requires
        i < 3,
    ensures
        r == heading_scale_options()[i as int],
{
    if i == 0 {
        HeadingDownscale::Zero
    } else if i == 1 {
        HeadingDownscale::One
    } else {
        HeadingDownscale::Two
    }
}

fn alignment_index(a: TextAlignment) -> (r: usize)
    ensures
        r == alignment_position(a),
{
    match a {
        TextAlignment::Left => 0,
        TextAlignment::Middle => 1,
        TextAlignment::Right => 2,
    }
}

fn heading_scale_index(d: HeadingDownscale) -> (r: usize)
    ensures
        r == heading_scale_position(d),
{
    match d {
        HeadingDownscale::Zero => 0,
        HeadingDownscale::One => 1,
        HeadingDownscale::Two => 2,
    }
}

proof fn lemma_key_position(keys: Seq<Seq<char>>, key: Seq<char>, i: int)
    requires
        0 <= i <= keys.len(),
        forall|k: int| 0 <= k < i ==> keys[k] != key,
        i == keys.len() || keys[i] == key,
    ensures
        key_position(keys, key) == (if i == keys.len() { 0 } else { i }),
    decreases keys.len(),
{
    if keys.len() > 0 && i > 0 {
        let rest = keys.drop_first();
        assert forall|k: int| 0 <= k < i - 1 implies rest[k] != key by {
            assert(rest[k] == keys[k + 1]);
        }
        if i < keys.len() {
            assert(rest[i - 1] == key);
            assert(rest.contains(key));
        } else {
            assert(!rest.contains(key)) by {
                if rest.contains(key) {
                    let k = choose|k: int| 0 <= k < rest.len() && rest[k] == key;
                    assert(keys[k + 1] == key);
                }
            }
        }
        lemma_key_position(rest, key, i - 1);
    }
}

/// The first position of `key` among `keys`, or 0 when it is not there.
fn key_index(keys: &Vec<String>, key: &str) -> (r: usize)
    ensures
        r == key_position(names_view(keys@), key@),
        r == 0 || r < keys@.len(),
{
    let ghost kv = names_view(keys@);
    let mut i: usize = 0;
    while i < keys.len()
        invariant
            i <= keys.len(),
            kv == names_view(keys@),
            forall|k: int| 0 <= k < i ==> kv[k] != key@,
        decreases keys.len() - i,
    {
        if same_text(keys[i].as_str(), key) {
            proof {
                lemma_key_position(kv, key@, i as int);
            }
            return i;
        }
        i = i + 1;
    }
    proof {
        lemma_key_position(kv, key@, i as int);
    }
    0
}

impl SettingsPopup {
    /// A popup on the general tab's theme row, every dropdown and provider popup closed,
    /// nothing disabled, holding the given values.
    pub fn new(init: SettingsPopupInit) -> (r: Self)
        ensures
            r == (SettingsPopup {
                default_provider: init.default_provider,
                default_model: init.default_model,
                small_model: init.small_model,
                active_tab: SettingsTab::General,
                use_env_keys: init.use_env_keys,
                saved_keys: init.saved_keys,
                theme: init.theme,
                theme_keys: init.theme_keys,
                user_alignment: init.user_alignment,
                ai_alignment: init.ai_alignment,
                markdown_mode: init.markdown_mode,
                artifact_save_dir: init.artifact_save_dir,
                vault_path: init.vault_path,
                general_focus: GeneralFocus::Theme,
                general_dropdown_open: None,
                available_models: init.available_models,
                db_providers: init.db_providers,
                show_selector: init.show_selector,
                show_chat_scrollbar: init.show_chat_scrollbar,
                collapse_thinking: init.collapse_thinking,
                kitty_enhanced_text: init.kitty_enhanced_text,
                kitty_heading_downscale: init.kitty_heading_downscale,
                web_search_enabled: init.web_search_enabled,
                quit_confirmation: init.quit_confirmation,
                local_enabled: init.local_enabled,
                local_host: init.local_host,
                local_port: init.local_port,
                local_server_type: init.local_server_type,
                local_selected_model: init.local_selected_model,
                local_model_directory: init.local_model_directory,
                local_health_interval_seconds: init.local_health_interval_seconds,
                local_connect_timeout_ms: init.local_connect_timeout_ms,
                local_request_timeout_ms: init.local_request_timeout_ms,
                local_api_token_env: init.local_api_token_env,
                detected_local_server: init.detected_local_server,
                local_focus: LocalFocus::Enabled,
                mcp_servers: init.mcp_servers,
                mcp_focus: 0,
                providers_tab_list: init.providers_tab_list,
                providers_tab_focus: ProvidersTabFocus::DefaultProvider,
                providers_dropdown_open: None,
                dropdown_scroll_offset: 0,
                providers_tab_hit_areas: ProvidersTabHitAreas { popup_api_key: None, popup_save: None, popup_cancel: None },
                models_provider: init.models_provider,
                models_available_models: init.models_available_models,
                models_tab_focus: ModelsTabFocus::Provider,
                models_dropdown_open: false,
                models_dropdown_scroll_offset: 0,
                add_provider_popup: None,
                edit_providers_popup: None,
                edit_provider_popup: None,
                preset_key_popup: None,
                disabled_providers: r.disabled_providers,
                disabled_models: r.disabled_models,
            }),
            r.disabled_providers@.len() == 0,
            r.disabled_models@.len() == 0,
            r.wf(),
    {
        SettingsPopup {
            default_provider: init.default_provider,
            default_model: init.default_model,
            small_model: init.small_model,
            active_tab: SettingsTab::General,
            use_env_keys: init.use_env_keys,
            saved_keys: init.saved_keys,
            theme: init.theme,
            theme_keys: init.theme_keys,
            user_alignment: init.user_alignment,
            ai_alignment: init.ai_alignment,
            markdown_mode: init.markdown_mode,
            artifact_save_dir: init.artifact_save_dir,
            vault_path: init.vault_path,
            general_focus: GeneralFocus::Theme,
            general_dropdown_open: None,
            available_models: init.available_models,
            db_providers: init.db_providers,
            show_selector: init.show_selector,
            show_chat_scrollbar: init.show_chat_scrollbar,
            collapse_thinking: init.collapse_thinking,
            kitty_enhanced_text: init.kitty_enhanced_text,
            kitty_heading_downscale: init.kitty_heading_downscale,
            web_search_enabled: init.web_search_enabled,
            quit_confirmation: init.quit_confirmation,
            local_enabled: init.local_enabled,
            local_host: init.local_host,
            local_port: init.local_port,
            local_server_type: init.local_server_type,
            local_selected_model: init.local_selected_model,
            local_model_directory: init.local_model_directory,
            local_health_interval_seconds: init.local_health_interval_seconds,
            local_connect_timeout_ms: init.local_connect_timeout_ms,
            local_request_timeout_ms: init.local_request_timeout_ms,
            local_api_token_env: init.local_api_token_env,
            detected_local_server: init.detected_local_server,
            local_focus: LocalFocus::Enabled,
            mcp_servers: init.mcp_servers,
            mcp_focus: 0,
            providers_tab_list: init.providers_tab_list,
            providers_tab_focus: ProvidersTabFocus::DefaultProvider,
            providers_dropdown_open: None,
            dropdown_scroll_offset: 0,
            providers_tab_hit_areas: ProvidersTabHitAreas { popup_api_key: None, popup_save: None, popup_cancel: None },
            models_provider: init.models_provider,
            models_available_models: init.models_available_models,
            models_tab_focus: ModelsTabFocus::Provider,
            models_dropdown_open: false,
            models_dropdown_scroll_offset: 0,
            add_provider_popup: None,
            edit_providers_popup: None,
            edit_provider_popup: None,
            preset_key_popup: None,
            disabled_providers: Vec::new(),
            disabled_models: Vec::new(),
        }
    }

    /// Puts every tab's focus back on its first row and closes the dropdowns.
    pub fn reset_focus(&mut self)
        ensures
            *final(self) == focus_reset(*old(self)),
    {
        self.general_focus = GeneralFocus::Theme;
        self.general_dropdown_open = None;
        self.providers_tab_focus = ProvidersTabFocus::DefaultProvider;
        self.models_tab_focus = ModelsTabFocus::Provider;
        self.models_dropdown_open = false;
        self.local_focus = LocalFocus::Enabled;
        self.mcp_focus = 0;
    }

    /// Moves to the next tab, wrapping around, with the focus reset.
    pub fn next_tab(&mut self)
        ensures
            *final(self) == (SettingsPopup { active_tab: final(self).active_tab, ..focus_reset(*old(self)) }),
            crate::settings::settings_tab_index(final(self).active_tab)
                == (crate::settings::settings_tab_index(old(self).active_tab) + 1) % 6,
    {
        self.active_tab = self.active_tab.next();
        self.reset_focus();
    }

    /// Moves to the previous tab, wrapping around, with the focus reset.
    pub fn prev_tab(&mut self)
        ensures
            *final(self) == (SettingsPopup { active_tab: final(self).active_tab, ..focus_reset(*old(self)) }),
            crate::settings::settings_tab_index(final(self).active_tab)
                == (crate::settings::settings_tab_index(old(self).active_tab) + 5) % 6,
    {
        self.active_tab = self.active_tab.prev();
        self.reset_focus();
    }

    /// Opens `dropdown`, or closes it when it is the one open.
    pub fn toggle_general_dropdown(&mut self, dropdown: GeneralDropdown)
        ensures
            *final(self) == (SettingsPopup {
                general_dropdown_open: if old(self).general_dropdown_open == Some(dropdown) { None } else { Some(dropdown) },
                ..*old(self)
            }),
    {
        if self.general_dropdown_open == Some(dropdown) {
            self.general_dropdown_open = None;
        } else {
            self.general_dropdown_open = Some(dropdown);
        }
    }

    /// Closes the general dropdown.
    pub fn close_general_dropdown(&mut self)
        ensures
            *final(self) == (SettingsPopup { general_dropdown_open: None, ..*old(self) }),
    {
        self.general_dropdown_open = None;
    }

    /// The number of options of the open general dropdown; 0 when none is open.
    pub fn general_dropdown_len(&self) -> (r: usize)
        ensures
            r == self.general_options_len(),
    {
        match self.general_dropdown_open {
            Some(GeneralDropdown::Theme) => self.theme_keys.len(),
            Some(GeneralDropdown::UserAlignment) => 3,
            Some(GeneralDropdown::AiAlignment) => 3,
            Some(GeneralDropdown::KittyTextScale) => 3,
            None => 0,
        }
    }

    /// The position of the current value among the open dropdown's options (0 when the
    /// value is not among them or no dropdown is open).
    pub fn general_dropdown_current_idx(&self) -> (r: usize)
        ensures
            r == self.general_current_position(),
            r == 0 || r < self.general_options_len(),
    {
        match self.general_dropdown_open {
            Some(GeneralDropdown::Theme) => key_index(&self.theme_keys, self.theme.as_str()),
            Some(GeneralDropdown::UserAlignment) => alignment_index(self.user_alignment),
            Some(GeneralDropdown::AiAlignment) => alignment_index(self.ai_alignment),
            Some(GeneralDropdown::KittyTextScale) => heading_scale_index(self.kitty_heading_downscale),
            None => 0,
        }
    }

    /// Chooses option `idx` of the open general dropdown and closes it. Returns whether a
    /// different theme was chosen; other choices return `false`.
    pub fn select_general_dropdown_item(&mut self, idx: usize) -> (changed: bool)
        ensures
            *final(self) == old(self).general_selected(idx as nat),
            changed == (old(self).general_dropdown_open == Some(GeneralDropdown::Theme)
                && idx < old(self).theme_keys@.len() && old(self).theme@ != old(self).theme_keys@[idx as int]@),
    {
        let (theme, changed) = self.selected_theme_exec(idx);
        let chosen = self.chosen_option(idx);
        self.theme = theme;
        self.user_alignment = chosen.0;
        self.ai_alignment = chosen.1;
        self.kitty_heading_downscale = chosen.2;
        self.general_dropdown_open = None;
        changed
    }

    fn selected_theme_exec(&self, idx: usize) -> (r: (String, bool))
        ensures
            r.0 == self.selected_theme(idx as nat),
            r.1 == (self.general_dropdown_open == Some(GeneralDropdown::Theme)
                && idx < self.theme_keys@.len() && self.theme@ != self.theme_keys@[idx as int]@),
    {
        if self.general_dropdown_open == Some(GeneralDropdown::Theme) && idx < self.theme_keys.len() {
            let key = self.theme_keys[idx].clone();
            let changed = !same_text(self.theme.as_str(), key.as_str());
            (key, changed)
        } else {
            (self.theme.clone(), false)
        }
    }

    fn chosen_option(&self, idx: usize) -> (r: (TextAlignment, TextAlignment, HeadingDownscale))
        ensures
            r.0 == self.selected_user_alignment(idx as nat),
            r.1 == self.selected_ai_alignment(idx as nat),
            r.2 == self.selected_heading_scale(idx as nat),
    {
        let open = self.general_dropdown_open;
        let mut r = (self.user_alignment, self.ai_alignment, self.kitty_heading_downscale);
        if idx < 3 {
            if open == Some(GeneralDropdown::UserAlignment) {
                r.0 = alignment_option(idx);
            } else if open == Some(GeneralDropdown::AiAlignment) {
                r.1 = alignment_option(idx);
            } else if open == Some(GeneralDropdown::KittyTextScale) {
                r.2 = heading_scale_option(idx);
            }
        }
        r
    }

    /// Up in the open general dropdown: the option before the current one is chosen,
    /// wrapping to the last, and the dropdown of the focused row stays open.
    pub fn general_dropdown_up(&mut self)
        ensures
            old(self).general_options_len() == 0 ==> *final(self) == *old(self),
            old(self).general_options_len() > 0 ==> *final(self) == (SettingsPopup {
                general_dropdown_open: focus_dropdown(old(self).general_focus),
                ..old(self).general_selected(
                    if old(self).general_current_position() == 0 { (old(self).general_options_len() - 1) as nat }
                    else { (old(self).general_current_position() - 1) as nat })
            }),
    {
        let len = self.general_dropdown_len();
        if len == 0 {
            return;
        }
        let idx = self.general_dropdown_current_idx();
        let new_idx = if idx == 0 { len - 1 } else { idx - 1 };
        self.select_general_dropdown_item(new_idx);
        if let Some(dropdown) = self.general_focus.dropdown() {
            self.general_dropdown_open = Some(dropdown);
        }
    }

    /// Down in the open general dropdown: the option after the current one is chosen,
    /// wrapping to the first, and the dropdown of the focused row stays open.
    pub fn general_dropdown_down(&mut self)
        ensures
            old(self).general_options_len() == 0 ==> *final(self) == *old(self),
            old(self).general_options_len() > 0 ==> *final(self) == (SettingsPopup {
                general_dropdown_open: focus_dropdown(old(self).general_focus),
                ..old(self).general_selected(((old(self).general_current_position() + 1) % old(self).general_options_len()) as nat)
            }),
    {
        let len = self.general_dropdown_len();
        if len == 0 {
            return;
        }
        let idx = self.general_dropdown_current_idx();
        let new_idx = (idx + 1) % len;
        self.select_general_dropdown_item(new_idx);
        if let Some(dropdown) = self.general_focus.dropdown() {
            self.general_dropdown_open = Some(dropdown);
        }
    }
}

/// The names of the given providers, in order.
pub open spec fn entry_names(s: Seq<ProviderEntry>) -> Seq<String> {
    s.map_values(|e: ProviderEntry| e.0)
}

/// The providers whose names are not in `disabled`, in order.
pub open spec fn enabled_entries(db: Seq<ProviderEntry>, disabled: Set<Seq<char>>) -> Seq<ProviderEntry> {
    db.filter(|e: ProviderEntry| !disabled.contains(e.0@))
}

/// `s.take(i + 1)` filtered is `s.take(i)` filtered, followed by `s[i]` when it passes.
pub proof fn lemma_filter_take_step<A>(s: Seq<A>, pred: spec_fn(A) -> bool, i: int)
    requires
        0 <= i < s.len(),
    ensures
        s.take(i + 1).filter(pred) == (if pred(s[i]) { s.take(i).filter(pred).push(s[i]) } else { s.take(i).filter(pred) }),
{
    reveal(Seq::filter);
    assert(s.take(i + 1).drop_last() =~= s.take(i));
    assert(s.take(i + 1).last() == s[i]);
}

/// The part of a `provider:model` pair before the first `:`, or all of it.
pub open spec fn pair_provider(s: Seq<char>) -> Seq<char> {
    s.take(first_colon(s) as int)
}

/// The part of a `provider:model` pair between the first `:` and the next one (or the
/// end); empty when there is no `:`.
pub open spec fn pair_model(s: Seq<char>) -> Seq<char> {
    if first_colon(s) >= s.len() {
        Seq::empty()
    } else {
        let rest = s.skip(first_colon(s) + 1int);
        rest.take(first_colon(rest) as int)
    }
}

/// The position of the first `:` in `s`, or its length when there is none.
pub open spec fn first_colon(s: Seq<char>) -> nat
    decreases s.len(),
{
    if s.len() == 0 {
        0
    } else if s[0] == ':' {
        0
    } else {
        1 + first_colon(s.drop_first())
    }
}

proof fn lemma_first_colon(s: Seq<char>, i: int)
    requires
        0 <= i <= s.len(),
        forall|k: int| 0 <= k < i ==> s[k] != ':',
        i == s.len() || s[i] == ':',
    ensures
        first_colon(s) == i,
    decreases s.len(),
{
    if i > 0 {
        let t = s.drop_first();
        assert forall|k: int| 0 <= k < i - 1 implies t[k] != ':' by {
            assert(t[k] == s[k + 1]);
        }
        lemma_first_colon(t, i - 1);
    }
}

/// The position of the first `:` among `v[from..]`, counted from `from`, or the remaining
/// length when there is none.
fn colon_from(v: &Vec<char>, from: usize) -> (r: usize)
    requires
        from <= v@.len(),
    ensures
        r == first_colon(v@.skip(from as int)),
        from + r <= v@.len(),
{
    let ghost t = v@.skip(from as int);
    let mut i: usize = from;
    while i < v.len() && v[i] != ':'
        invariant
            from <= i <= v@.len(),
            t == v@.skip(from as int),
            forall|k: int| 0 <= k < i - from ==> t[k] != ':',
        decreases v@.len() - i,
    {
        i = i + 1;
    }
    proof {
        lemma_first_colon(t, (i - from) as int);
    }
    i - from
}

/// `provider:model` from its two parts.
fn pair_string(provider: &str, model: &str) -> (r: String)
    ensures
        r@ == provider@ + seq![':'] + model@,
{
    let mut s = provider.to_owned();
    push_char(&mut s, ':');
    concat_str(s, model)
}

/// The larger offset a dropdown of `total` entries, eight of them visible, may scroll to.
pub open spec fn max_scroll(total: nat) -> nat {
    if total <= 8 { 0 } else { (total - 8) as nat }
}

/// The offset after scrolling down one entry, stopping at the last page.
pub open spec fn scrolled_down(offset: nat, total: nat) -> nat {
    if offset < max_scroll(total) { offset + 1 } else { offset }
}

/// The offset after scrolling up one entry, stopping at the top.
pub open spec fn scrolled_up(offset: nat) -> nat {
    if offset > 0 { (offset - 1) as nat } else { offset }
}

fn scroll_down_exec(offset: usize, total: usize) -> (r: usize)
    ensures
        r == scrolled_down(offset as nat, total as nat),
{
    let max_visible = if total < 8 { total } else { 8 };
    let max_offset = total - max_visible;
    if offset < max_offset { offset + 1 } else { offset }
}

/// The order of the providers tab's main rows, as tab moves through them.
pub open spec fn providers_focus_order() -> Seq<ProvidersTabFocus> {
    seq![
        ProvidersTabFocus::DefaultProvider,
        ProvidersTabFocus::DefaultModel,
        ProvidersTabFocus::UseEnvToggle,
        ProvidersTabFocus::AddProviderButton,
        ProvidersTabFocus::EditProvidersButton,
        ProvidersTabFocus::ReloadModelsButton,
    ]
}

/// The providers-tab row after tab (`forward`) or shift-tab, wrapping around the main rows;
/// from any other row the focus goes to the default-provider row.
pub open spec fn providers_focus_moved(f: ProvidersTabFocus, forward: bool) -> ProvidersTabFocus {
    let order = providers_focus_order();
    if order.contains(f) {
        let i = order.index_of(f);
        if forward { order[(i + 1) % 6] } else if i == 0 { order[5] } else { order[i - 1] }
    } else {
        ProvidersTabFocus::DefaultProvider
    }
}

fn providers_focus_moved_exec(f: ProvidersTabFocus, forward: bool) -> (r: ProvidersTabFocus)
    ensures
        r == providers_focus_moved(f, forward),
{
    let ghost order = providers_focus_order();
    proof {
        assert(order[0] == ProvidersTabFocus::DefaultProvider);
        assert(order[1] == ProvidersTabFocus::DefaultModel);
        assert(order[2] == ProvidersTabFocus::UseEnvToggle);
        assert(order[3] == ProvidersTabFocus::AddProviderButton);
        assert(order[4] == ProvidersTabFocus::EditProvidersButton);
        assert(order[5] == ProvidersTabFocus::ReloadModelsButton);
    }
    let (at, idx): (bool, usize) = match f {
        ProvidersTabFocus::DefaultProvider => (true, 0),
        ProvidersTabFocus::DefaultModel => (true, 1),
        ProvidersTabFocus::UseEnvToggle => (true, 2),
        ProvidersTabFocus::AddProviderButton => (true, 3),
        ProvidersTabFocus::EditProvidersButton => (true, 4),
        ProvidersTabFocus::ReloadModelsButton => (true, 5),
        _ => (false, 0),
    };
    proof {
        if at {
            assert(order[idx as int] == f);
            assert(order.contains(f));
            order.index_of_first_ensures(f);
            assert forall|k: int| 0 <= k < 6 && k != idx implies order[k] != f by {}
        } else {
            assert(!order.contains(f));
        }
    }
    if !at {
        return ProvidersTabFocus::DefaultProvider;
    }
    let next = if forward { (idx + 1) % 6 } else if idx == 0 { 5 } else { idx - 1 };
    match next {
        0 => ProvidersTabFocus::DefaultProvider,
        1 => ProvidersTabFocus::DefaultModel,
        2 => ProvidersTabFocus::UseEnvToggle,
        3 => ProvidersTabFocus::AddProviderButton,
        4 => ProvidersTabFocus::EditProvidersButton,
        _ => ProvidersTabFocus::ReloadModelsButton,
    }
}

/// The models-tab focus after tab (`forward`) or shift-tab over `count` models: forward
/// goes from the provider row to the first model and down the list back to the provider
/// row; backward goes up the list to the provider row, where it stays.
pub open spec fn models_focus_moved(f: ModelsTabFocus, forward: bool, count: nat) -> ModelsTabFocus {
    match f {
        ModelsTabFocus::Provider => if forward && count > 0 { ModelsTabFocus::Model(0) } else { ModelsTabFocus::Provider },
        ModelsTabFocus::Model(idx) =>
            if forward {
                if idx + 1 < count { ModelsTabFocus::Model((idx + 1) as usize) } else { ModelsTabFocus::Provider }
            } else if idx == 0 {
                ModelsTabFocus::Provider
            } else {
                ModelsTabFocus::Model((idx - 1) as usize)
            },
    }
}

fn models_focus_moved_exec(f: ModelsTabFocus, forward: bool, count: usize) -> (r: ModelsTabFocus)
    ensures
        r == models_focus_moved(f, forward, count as nat),
{
    match f {
        ModelsTabFocus::Provider => if forward && count > 0 { ModelsTabFocus::Model(0) } else { ModelsTabFocus::Provider },
        ModelsTabFocus::Model(idx) => {
            if forward {
                if count > 0 && idx < count - 1 { ModelsTabFocus::Model(idx + 1) } else { ModelsTabFocus::Provider }
            } else if idx == 0 {
                ModelsTabFocus::Provider
            } else {
                ModelsTabFocus::Model(idx - 1)
            }
        },
    }
}

impl SettingsPopup {
    /// The enabled providers' names, sorted.
    pub open spec fn enabled_names(&self) -> Seq<String> {
        sorted_by_name(entry_names(enabled_entries(self.db_providers@, names_set(self.disabled_providers@))))
    }

    /// The number of entries of the open providers dropdown; 0 when none is open.
    pub open spec fn providers_dropdown_total(&self) -> nat {
        match self.providers_dropdown_open {
            Some(ProvidersDropdown::DefaultProvider) => self.enabled_names().len(),
            Some(ProvidersDropdown::SmallProvider) => self.enabled_names().len(),
            Some(ProvidersDropdown::DefaultModel) => self.available_models@.len(),
            Some(ProvidersDropdown::SmallModel) => self.available_models@.len(),
            None => 0,
        }
    }

    /// The names of the providers that are not disabled, sorted.
    pub fn all_enabled_provider_names(&self) -> (r: Vec<String>)
        ensures
            r@ == self.enabled_names(),
    {
        let ghost db = self.db_providers@;
        let ghost disabled = names_set(self.disabled_providers@);
        let ghost pred = |e: ProviderEntry| !disabled.contains(e.0@);
        let mut names: Vec<String> = Vec::new();
        let mut i: usize = 0;
        proof {
            reveal(Seq::filter);
            assert(db.take(0) =~= Seq::<ProviderEntry>::empty());
            assert(entry_names(db.take(0).filter(pred)) =~= names@);
        }
        while i < self.db_providers.len()
            invariant
                i <= db.len(),
                db == self.db_providers@,
                disabled == names_set(self.disabled_providers@),
                pred == (|e: ProviderEntry| !disabled.contains(e.0@)),
                names@ == entry_names(db.take(i as int).filter(pred)),
            decreases db.len() - i,
        {
            proof {
                lemma_filter_take_step(db, pred, i as int);
            }
            if !set_contains(&self.disabled_providers, self.db_providers[i].0.as_str()) {
                names.push(self.db_providers[i].0.clone());
                proof {
                    assert(entry_names(db.take(i as int + 1).filter(pred)) =~= names@);
                }
            }
            i = i + 1;
        }
        proof {
            assert(db.take(db.len() as int) =~= db);
        }
        sort_by_name(&mut names);
        names
    }

    /// The number of entries of the open providers dropdown; 0 when none is open.
    fn providers_dropdown_total_exec(&self) -> (r: usize)
        ensures
            r == self.providers_dropdown_total(),
    {
        match self.providers_dropdown_open {
            Some(ProvidersDropdown::DefaultProvider) | Some(ProvidersDropdown::SmallProvider) => self.all_enabled_provider_names().len(),
            Some(ProvidersDropdown::DefaultModel) | Some(ProvidersDropdown::SmallModel) => self.available_models.len(),
            None => 0,
        }
    }

    /// Opens `dropdown` scrolled to the top, or closes it when it is the one open.
    pub fn toggle_providers_dropdown(&mut self, dropdown: ProvidersDropdown)
        ensures
            old(self).providers_dropdown_open == Some(dropdown)
                ==> *final(self) == (SettingsPopup { providers_dropdown_open: None, ..*old(self) }),
            old(self).providers_dropdown_open != Some(dropdown)
                ==> *final(self) == (SettingsPopup { providers_dropdown_open: Some(dropdown), dropdown_scroll_offset: 0, ..*old(self) }),
    {
        let same = self.providers_dropdown_open == Some(dropdown);
        let offset = if same { self.dropdown_scroll_offset } else { 0 };
        self.providers_dropdown_open = if same { None } else { Some(dropdown) };
        self.dropdown_scroll_offset = offset;
    }

    /// Scrolls the open providers dropdown up one entry.
    pub fn providers_dropdown_up(&mut self)
        ensures
            *final(self) == (SettingsPopup { dropdown_scroll_offset: scrolled_up(old(self).dropdown_scroll_offset as nat) as usize, ..*old(self) }),
    {
        if self.dropdown_scroll_offset > 0 {
            self.dropdown_scroll_offset = self.dropdown_scroll_offset - 1;
        }
    }

    /// Scrolls the open providers dropdown down one entry, eight entries staying visible;
    /// nothing moves when no dropdown is open.
    pub fn providers_dropdown_down(&mut self)
        ensures
            old(self).providers_dropdown_open is None ==> *final(self) == *old(self),
            old(self).providers_dropdown_open is Some ==> *final(self) == (SettingsPopup {
                dropdown_scroll_offset: scrolled_down(old(self).dropdown_scroll_offset as nat, old(self).providers_dropdown_total()) as usize,
                ..*old(self)
            }),
    {
        let total = self.providers_dropdown_total_exec();
        let offset = if self.providers_dropdown_open.is_some() { scroll_down_exec(self.dropdown_scroll_offset, total) } else { self.dropdown_scroll_offset };
        self.dropdown_scroll_offset = offset;
    }

    /// The provider half of the small-model pair.
    pub fn small_model_provider(&self) -> (r: String)
        ensures
            r@ == pair_provider(self.small_model@),
    {
        let v = chars_of(self.small_model.as_str());
        let end = colon_from(&v, 0);
        proof {
            assert(v@.skip(0) =~= v@);
        }
        let part = sub_chars(v.as_slice(), 0, end);
        proof {
            assert(part@ =~= v@.take(end as int));
        }
        string_from_chars(part.as_slice())
    }

    /// The model half of the small-model pair.
    pub fn small_model_name(&self) -> (r: String)
        ensures
            r@ == pair_model(self.small_model@),
    {
        let v = chars_of(self.small_model.as_str());
        let first = colon_from(&v, 0);
        proof {
            assert(v@.skip(0) =~= v@);
        }
        if first >= v.len() {
            return String::new();
        }
        let len = colon_from(&v, first + 1);
        let part = sub_chars(v.as_slice(), first + 1, first + 1 + len);
        proof {
            assert(part@ =~= v@.skip(first + 1).take(len as int));
        }
        string_from_chars(part.as_slice())
    }

    /// The default provider, default model and small-model pair after choosing entry
    /// `real_idx` of the open providers dropdown: a provider entry of the enabled names, a
    /// model entry of the available models; an index past the entries changes nothing.
    pub open spec fn providers_chosen(&self, real_idx: nat) -> (Seq<char>, Seq<char>, Seq<char>) {
        let names = self.enabled_names();
        let models = self.available_models@;
        let unchanged = (self.default_provider@, self.default_model@, self.small_model@);
        match self.providers_dropdown_open {
            Some(ProvidersDropdown::DefaultProvider) =>
                if real_idx < names.len() { (names[real_idx as int]@, Seq::empty(), self.small_model@) } else { unchanged },
            Some(ProvidersDropdown::SmallProvider) =>
                if real_idx < names.len() {
                    (self.default_provider@, self.default_model@, names[real_idx as int]@ + seq![':'] + pair_model(self.small_model@))
                } else { unchanged },
            Some(ProvidersDropdown::DefaultModel) =>
                if real_idx < models.len() { (self.default_provider@, models[real_idx as int].id@, self.small_model@) } else { unchanged },
            Some(ProvidersDropdown::SmallModel) =>
                if real_idx < models.len() {
                    (self.default_provider@, self.default_model@, pair_provider(self.small_model@) + seq![':'] + models[real_idx as int].id@)
                } else { unchanged },
            None => unchanged,
        }
    }
}

/// A copy of a list of names.
fn copy_names(v: &Vec<String>) -> (r: Vec<String>)
    ensures
        r@ == v@,
{
    let mut r: Vec<String> = Vec::new();
    let mut i: usize = 0;
    while i < v.len()
        invariant
            i <= v@.len(),
            r@ == v@.take(i as int),
        decreases v@.len() - i,
    {
        r.push(v[i].clone());
        proof {
            assert(v@.take(i as int + 1) =~= v@.take(i as int).push(v@[i as int]));
        }
        i = i + 1;
    }
    proof {
        assert(v@.take(v@.len() as int) =~= v@);
    }
    r
}

impl SettingsPopup {
    /// The popup after tab (`forward`) or shift-tab on the providers tab's main rows: with
    /// a dropdown open its list scrolls instead.
    pub open spec fn providers_focus_stepped(&self, forward: bool) -> SettingsPopup {
        if self.providers_dropdown_open is Some {
            SettingsPopup {
                dropdown_scroll_offset: (if forward {
                    scrolled_down(self.dropdown_scroll_offset as nat, self.providers_dropdown_total())
                } else {
                    scrolled_up(self.dropdown_scroll_offset as nat)
                }) as usize,
                ..*self
            }
        } else {
            SettingsPopup { providers_tab_focus: providers_focus_moved(self.providers_tab_focus, forward), ..*self }
        }
    }

    /// The popup after tab (`forward`) or shift-tab on the models tab: with the provider
    /// dropdown open its list scrolls instead.
    pub open spec fn models_focus_stepped(&self, forward: bool) -> SettingsPopup {
        if self.models_dropdown_open {
            SettingsPopup {
                models_dropdown_scroll_offset: (if forward {
                    scrolled_down(self.models_dropdown_scroll_offset as nat, self.enabled_names().len())
                } else {
                    scrolled_up(self.models_dropdown_scroll_offset as nat)
                }) as usize,
                ..*self
            }
        } else {
            SettingsPopup {
                models_tab_focus: models_focus_moved(self.models_tab_focus, forward, self.models_available_models@.len()),
                ..*self
            }
        }
    }

    fn providers_choice(&self, real_idx: usize) -> (r: (String, String, String))
        ensures
            (r.0@, r.1@, r.2@) == self.providers_chosen(real_idx as nat),
    {
        let mut dp = self.default_provider.clone();
        let mut dm = self.default_model.clone();
        let mut sm = self.small_model.clone();
        match self.providers_dropdown_open {
            Some(ProvidersDropdown::DefaultProvider) => {
                let names = self.all_enabled_provider_names();
                if real_idx < names.len() {
                    dp = names[real_idx].clone();
                    dm = String::new();
                }
            },
            Some(ProvidersDropdown::SmallProvider) => {
                let names = self.all_enabled_provider_names();
                if real_idx < names.len() {
                    let model = self.small_model_name();
                    sm = pair_string(names[real_idx].as_str(), model.as_str());
                }
            },
            Some(ProvidersDropdown::DefaultModel) => {
                if real_idx < self.available_models.len() {
                    dm = self.available_models[real_idx].id.clone();
                }
            },
            Some(ProvidersDropdown::SmallModel) => {
                if real_idx < self.available_models.len() {
                    let provider = self.small_model_provider();
                    sm = pair_string(provider.as_str(), self.available_models[real_idx].id.as_str());
                }
            },
            None => {},
        }
        (dp, dm, sm)
    }

    /// Chooses entry `idx` of the visible part of the open providers dropdown (counted
    /// from its scroll offset) and closes the dropdown.
    pub fn select_providers_dropdown_item(&mut self, idx: usize)
        requires
            idx + old(self).dropdown_scroll_offset <= usize::MAX,
        ensures
            (final(self).default_provider@, final(self).default_model@, final(self).small_model@)
                == old(self).providers_chosen((idx + old(self).dropdown_scroll_offset) as nat),
            *final(self) == (SettingsPopup {
                default_provider: final(self).default_provider,
                default_model: final(self).default_model,
                small_model: final(self).small_model,
                providers_dropdown_open: None,
                dropdown_scroll_offset: 0,
                ..*old(self)
            }),
    {
        let real_idx = idx + self.dropdown_scroll_offset;
        let (dp, dm, sm) = self.providers_choice(real_idx);
        self.default_provider = dp;
        self.default_model = dm;
        self.small_model = sm;
        self.providers_dropdown_open = None;
        self.dropdown_scroll_offset = 0;
    }

    /// Tab (`forward`) or shift-tab on the providers tab's main rows; with a dropdown open
    /// its list scrolls instead.
    pub fn move_providers_tab_focus(&mut self, forward: bool)
        ensures
            *final(self) == old(self).providers_focus_stepped(forward),
    {
        let open = self.providers_dropdown_open.is_some();
        let total = self.providers_dropdown_total_exec();
        let offset = if !open {
            self.dropdown_scroll_offset
        } else if forward {
            scroll_down_exec(self.dropdown_scroll_offset, total)
        } else if self.dropdown_scroll_offset > 0 {
            self.dropdown_scroll_offset - 1
        } else {
            0
        };
        let focus = if open { self.providers_tab_focus } else { providers_focus_moved_exec(self.providers_tab_focus, forward) };
        self.dropdown_scroll_offset = offset;
        self.providers_tab_focus = focus;
    }

    /// The key under which a provider's model is disabled: `provider:model`.
    pub fn disabled_model_key(provider: &str, model: &str) -> (r: String)
        ensures
            r@ == provider@ + seq![':'] + model@,
    {
        pair_string(provider, model)
    }

    /// Opens the models tab's provider dropdown scrolled to the top, or closes it.
    pub fn toggle_models_dropdown(&mut self)
        ensures
            *final(self) == (SettingsPopup {
                models_dropdown_open: !old(self).models_dropdown_open,
                models_dropdown_scroll_offset: if old(self).models_dropdown_open { old(self).models_dropdown_scroll_offset } else { 0 },
                ..*old(self)
            }),
    {
        let open = !self.models_dropdown_open;
        let offset = if open { 0 } else { self.models_dropdown_scroll_offset };
        self.models_dropdown_open = open;
        self.models_dropdown_scroll_offset = offset;
    }

    /// Chooses entry `idx` of the visible part of the models tab's provider dropdown: an
    /// enabled provider becomes the one whose models are listed, with the focus on the
    /// provider row. The dropdown closes either way.
    pub fn select_models_provider_dropdown_item(&mut self, idx: usize)
        requires
            idx + old(self).models_dropdown_scroll_offset <= usize::MAX,
        ensures
            idx + old(self).models_dropdown_scroll_offset < old(self).enabled_names().len() ==> *final(self) == (SettingsPopup {
                models_provider: old(self).enabled_names()[idx + old(self).models_dropdown_scroll_offset],
                models_tab_focus: ModelsTabFocus::Provider,
                models_dropdown_open: false,
                models_dropdown_scroll_offset: 0,
                ..*old(self)
            }),
            idx + old(self).models_dropdown_scroll_offset >= old(self).enabled_names().len() ==> *final(self) == (SettingsPopup {
                models_dropdown_open: false,
                models_dropdown_scroll_offset: 0,
                ..*old(self)
            }),
    {
        let real_idx = idx + self.models_dropdown_scroll_offset;
        let names = self.all_enabled_provider_names();
        let (provider, focus) = if real_idx < names.len() {
            (names[real_idx].clone(), ModelsTabFocus::Provider)
        } else {
            (self.models_provider.clone(), self.models_tab_focus)
        };
        self.models_provider = provider;
        self.models_tab_focus = focus;
        self.models_dropdown_open = false;
        self.models_dropdown_scroll_offset = 0;
    }

    /// Scrolls the models tab's provider dropdown up one entry.
    pub fn models_dropdown_up(&mut self)
        ensures
            *final(self) == (SettingsPopup {
                models_dropdown_scroll_offset: scrolled_up(old(self).models_dropdown_scroll_offset as nat) as usize,
                ..*old(self)
            }),
    {
        if self.models_dropdown_scroll_offset > 0 {
            self.models_dropdown_scroll_offset = self.models_dropdown_scroll_offset - 1;
        }
    }

    /// Scrolls the models tab's provider dropdown down one entry, eight staying visible.
    pub fn models_dropdown_down(&mut self)
        ensures
            *final(self) == (SettingsPopup {
                models_dropdown_scroll_offset: scrolled_down(old(self).models_dropdown_scroll_offset as nat, old(self).enabled_names().len()) as usize,
                ..*old(self)
            }),
    {
        let total = self.all_enabled_provider_names().len();
        self.models_dropdown_scroll_offset = scroll_down_exec(self.models_dropdown_scroll_offset, total);
    }

    /// Tab (`forward`) or shift-tab on the models tab; with the provider dropdown open its
    /// list scrolls instead.
    pub fn move_models_tab_focus(&mut self, forward: bool)
        ensures
            *final(self) == old(self).models_focus_stepped(forward),
    {
        let open = self.models_dropdown_open;
        let total = self.all_enabled_provider_names().len();
        let offset = if !open {
            self.models_dropdown_scroll_offset
        } else if forward {
            scroll_down_exec(self.models_dropdown_scroll_offset, total)
        } else if self.models_dropdown_scroll_offset > 0 {
            self.models_dropdown_scroll_offset - 1
        } else {
            0
        };
        let focus = if open {
            self.models_tab_focus
        } else {
            models_focus_moved_exec(self.models_tab_focus, forward, self.models_available_models.len())
        };
        self.models_dropdown_scroll_offset = offset;
        self.models_tab_focus = focus;
    }

    /// Activates the models tab's focused row: the provider row opens or closes its
    /// dropdown, a model row disables the model for that provider or enables it again.
    /// Whether `new` is the popup after activating the models tab's focused row: the
    /// provider row opens or closes its dropdown (opening scrolls it to the top), a model
    /// row disables the model for that provider or enables it again.
    pub open spec fn models_activated(&self, new: SettingsPopup) -> bool {
        match self.models_tab_focus {
            ModelsTabFocus::Provider => new == (SettingsPopup {
                models_dropdown_open: !self.models_dropdown_open,
                models_dropdown_scroll_offset: if self.models_dropdown_open { self.models_dropdown_scroll_offset } else { 0 },
                ..*self
            }),
            ModelsTabFocus::Model(i) => {
                &&& new == (SettingsPopup { disabled_models: new.disabled_models, ..*self })
                &&& names_set(new.disabled_models@) == (if i < self.models_available_models@.len() {
                    toggled(names_set(self.disabled_models@),
                        self.models_provider@ + seq![':'] + self.models_available_models@[i as int].id@)
                } else {
                    names_set(self.disabled_models@)
                })
            },
        }
    }

    pub fn activate_models_focus(&mut self)
        requires
            old(self).wf(),
        ensures
            final(self).wf(),
            old(self).models_activated(*final(self)),
    {
        match self.models_tab_focus {
            ModelsTabFocus::Provider => self.toggle_models_dropdown(),
            ModelsTabFocus::Model(idx) => self.toggle_model_disabled(idx),
        }
    }

    fn toggle_model_disabled(&mut self, idx: usize)
        requires
            old(self).wf(),
        ensures
            final(self).wf(),
            *final(self) == (SettingsPopup { disabled_models: final(self).disabled_models, ..*old(self) }),
            names_set(final(self).disabled_models@) == (if idx < old(self).models_available_models@.len() {
                toggled(names_set(old(self).disabled_models@),
                    old(self).models_provider@ + seq![':'] + old(self).models_available_models@[idx as int].id@)
            } else {
                names_set(old(self).disabled_models@)
            }),
    {
        let set = self.disabled_models_toggled(idx);
        self.disabled_models = set;
    }

    fn disabled_models_toggled(&self, idx: usize) -> (r: Vec<String>)
        requires
            self.wf(),
        ensures
            no_repeats(names_view(r@)),
            names_set(r@) == (if idx < self.models_available_models@.len() {
                toggled(names_set(self.disabled_models@),
                    self.models_provider@ + seq![':'] + self.models_available_models@[idx as int].id@)
            } else {
                names_set(self.disabled_models@)
            }),
    {
        let mut set = copy_names(&self.disabled_models);
        if idx < self.models_available_models.len() {
            let key = Self::disabled_model_key(self.models_provider.as_str(), self.models_available_models[idx].id.as_str());
            set_toggle(&mut set, key.as_str());
        }
        set
    }

    /// The popup after tab (`forward`) or shift-tab on the active tab.
    pub open spec fn focus_stepped(&self, forward: bool) -> SettingsPopup {
        match self.active_tab {
            SettingsTab::General => SettingsPopup {
                general_dropdown_open: None,
                general_focus: if forward { general_focus_next(self.general_focus) } else { general_focus_prev(self.general_focus) },
                ..*self
            },
            SettingsTab::Providers => match self.add_provider_popup {
                Some(form) => SettingsPopup {
                    add_provider_popup: Some(ProviderFormState { focus: cycle_form_focus_spec(form.focus, forward), dropdown_open: false, ..form }),
                    ..*self
                },
                None => match self.edit_providers_popup {
                    Some(popup) => SettingsPopup {
                        edit_providers_popup: Some(EditProvidersPopupState {
                            focus: cycle_edit_focus_spec(popup.focus, self.providers_tab_list@.len(), forward),
                        }),
                        ..*self
                    },
                    None => self.providers_focus_stepped(forward),
                },
            },
            SettingsTab::Models => self.models_focus_stepped(forward),
            SettingsTab::Local => SettingsPopup {
                local_focus: if forward { local_focus_next(self.local_focus) } else { local_focus_prev(self.local_focus) },
                ..*self
            },
            SettingsTab::Mcp => SettingsPopup {
                mcp_focus: if self.mcp_servers@.len() == 0 {
                    self.mcp_focus
                } else if forward {
                    ((self.mcp_focus + 1) % (self.mcp_servers@.len() as int)) as usize
                } else if self.mcp_focus == 0 {
                    (self.mcp_servers@.len() - 1) as usize
                } else {
                    (self.mcp_focus - 1) as usize
                },
                ..*self
            },
            SettingsTab::Keybindings => *self,
        }
    }

    /// Tab: the focus moves to the next row of the active tab (inside an open provider
    /// form or edit list, to its next control).
    pub fn next_focus(&mut self)
        requires
            old(self).mcp_focus < usize::MAX,
        ensures
            *final(self) == old(self).focus_stepped(true),
    {
        self.step_focus(true);
    }

    /// Shift-tab: the focus moves to the previous row of the active tab (inside an open
    /// provider form or edit list, to its previous control).
    pub fn prev_focus(&mut self)
        ensures
            *final(self) == old(self).focus_stepped(false),
    {
        self.step_focus(false);
    }

    fn step_focus(&mut self, forward: bool)
        requires
            forward ==> old(self).mcp_focus < usize::MAX,
        ensures
            *final(self) == old(self).focus_stepped(forward),
    {
        match self.active_tab {
            SettingsTab::General => {
                let focus = if forward { self.general_focus.next() } else { self.general_focus.prev() };
                self.general_dropdown_open = None;
                self.general_focus = focus;
            },
            SettingsTab::Providers => {
                let len = self.providers_tab_list.len();
                if let Some(form) = &mut self.add_provider_popup {
                    form.cycle_focus(forward);
                } else if let Some(popup) = &mut self.edit_providers_popup {
                    popup.cycle_focus(len, forward);
                } else {
                    self.move_providers_tab_focus(forward);
                }
            },
            SettingsTab::Models => self.move_models_tab_focus(forward),
            SettingsTab::Local => {
                let focus = if forward { self.local_focus.next() } else { self.local_focus.prev() };
                self.local_focus = focus;
            },
            SettingsTab::Mcp => {
                let len = self.mcp_servers.len();
                let focus = if forward {
                    crate::settings::next_mcp_focus(self.mcp_focus, len)
                } else {
                    crate::settings::prev_mcp_focus(self.mcp_focus, len)
                };
                self.mcp_focus = focus;
            },
            SettingsTab::Keybindings => {},
        }
    }
}

/// Whether `c` is an ASCII decimal digit.
pub open spec fn ascii_digit(c: char) -> bool {
    '0' <= c && c <= '9'
}

/// Whether `c` may be typed into an environment-variable name: an ASCII letter or digit,
/// or `_`.
pub open spec fn token_char(c: char) -> bool {
    ascii_digit(c) || ('a' <= c && c <= 'z') || ('A' <= c && c <= 'Z') || c == '_'
}

fn is_ascii_digit(c: char) -> (r: bool)
    ensures
        r == ascii_digit(c),
{
    '0' <= c && c <= '9'
}

fn is_token_char(c: char) -> (r: bool)
    ensures
        r == token_char(c),
{
    ('0' <= c && c <= '9') || ('a' <= c && c <= 'z') || ('A' <= c && c <= 'Z') || c == '_'
}

/// `s` with `c` appended when `keep` holds.
pub open spec fn pushed_if(s: Seq<char>, c: char, keep: bool) -> Seq<char> {
    if keep { s.push(c) } else { s }
}

/// A copy of `s` with `c` appended when `keep` holds.
fn push_if(s: &String, c: char, keep: bool) -> (r: String)
    ensures
        r@ == pushed_if(s@, c, keep),
{
    let mut r = s.clone();
    if keep {
        push_char(&mut r, c);
    }
    r
}

/// A copy of `s` without its last character when `drop` holds.
fn pop_if(s: &String, drop: bool) -> (r: String)
    ensures
        r@ == (if drop { drop_last_char(s@) } else { s@ }),
{
    let mut r = s.clone();
    if drop {
        pop_char(&mut r);
    }
    r
}

/// The form after typing `c`: the focused text field gets it.
pub open spec fn form_typed(f: ProviderFormState, c: char, g: ProviderFormState) -> bool {
    &&& g == (ProviderFormState { name: g.name, endpoint: g.endpoint, api_key: g.api_key, ..f })
    &&& g.name@ == pushed_if(f.name@, c, f.focus == crate::settings::ProviderFormFocus::ProviderName)
    &&& g.endpoint@ == pushed_if(f.endpoint@, c, f.focus == crate::settings::ProviderFormFocus::ProviderEndpoint)
    &&& g.api_key@ == pushed_if(f.api_key@, c, f.focus == crate::settings::ProviderFormFocus::ProviderApiKey)
}

/// The form after a backspace: the focused text field loses its last character.
pub open spec fn form_backspaced(f: ProviderFormState, g: ProviderFormState) -> bool {
    &&& g == (ProviderFormState { name: g.name, endpoint: g.endpoint, api_key: g.api_key, ..f })
    &&& g.name@ == (if f.focus == crate::settings::ProviderFormFocus::ProviderName { drop_last_char(f.name@) } else { f.name@ })
    &&& g.endpoint@ == (if f.focus == crate::settings::ProviderFormFocus::ProviderEndpoint { drop_last_char(f.endpoint@) } else { f.endpoint@ })
    &&& g.api_key@ == (if f.focus == crate::settings::ProviderFormFocus::ProviderApiKey { drop_last_char(f.api_key@) } else { f.api_key@ })
}

/// The key popup after typing `c` or a backspace into its key field (`edit` gives the new
/// key from the old one).
pub open spec fn key_popup_edited(p: PresetKeyPopupState, q: PresetKeyPopupState, key: Seq<char>) -> bool {
    q.provider_name == p.provider_name && q.endpoint == p.endpoint && q.api_key@ == key
}

impl SettingsPopup {
    /// The text fields the general and local tabs edit, with everything else, equal.
    pub open spec fn same_but_text_fields(&self, other: SettingsPopup) -> bool {
        *self == (SettingsPopup {
            artifact_save_dir: self.artifact_save_dir,
            vault_path: self.vault_path,
            local_host: self.local_host,
            local_port: self.local_port,
            local_selected_model: self.local_selected_model,
            local_model_directory: self.local_model_directory,
            local_health_interval_seconds: self.local_health_interval_seconds,
            local_connect_timeout_ms: self.local_connect_timeout_ms,
            local_request_timeout_ms: self.local_request_timeout_ms,
            local_api_token_env: self.local_api_token_env,
            ..other
        })
    }

    /// How typing `c` changes the text fields of the general and local tabs when no
    /// provider popup is open: the focused field gets it, the port and timeouts only
    /// digits, the token variable only letters, digits and `_`.
    pub open spec fn text_typed(&self, c: char, new: SettingsPopup) -> bool {
        let general = self.active_tab == SettingsTab::General;
        let local = self.active_tab == SettingsTab::Local;
        let lf = self.local_focus;
        &&& new.same_but_text_fields(*self)
        &&& new.artifact_save_dir@ == pushed_if(self.artifact_save_dir@, c, general && self.general_focus == GeneralFocus::ArtifactSaveDir)
        &&& new.vault_path@ == pushed_if(self.vault_path@, c, general && self.general_focus == GeneralFocus::VaultPath)
        &&& new.local_host@ == pushed_if(self.local_host@, c, local && lf == LocalFocus::Host)
        &&& new.local_port@ == pushed_if(self.local_port@, c, local && lf == LocalFocus::Port && ascii_digit(c))
        &&& new.local_selected_model@ == pushed_if(self.local_selected_model@, c, local && lf == LocalFocus::SelectedModel)
        &&& new.local_model_directory@ == pushed_if(self.local_model_directory@, c, local && lf == LocalFocus::ModelDirectory)
        &&& new.local_health_interval_seconds@ == pushed_if(self.local_health_interval_seconds@, c, local && lf == LocalFocus::HealthInterval && ascii_digit(c))
        &&& new.local_connect_timeout_ms@ == pushed_if(self.local_connect_timeout_ms@, c, local && lf == LocalFocus::ConnectTimeout && ascii_digit(c))
        &&& new.local_request_timeout_ms@ == pushed_if(self.local_request_timeout_ms@, c, local && lf == LocalFocus::RequestTimeout && ascii_digit(c))
        &&& new.local_api_token_env@ == pushed_if(self.local_api_token_env@, c, local && lf == LocalFocus::ApiTokenEnv && token_char(c))
    }

    /// How a backspace changes the text fields of the general and local tabs when no
    /// provider popup is open: the focused field loses its last character.
    pub open spec fn text_backspaced(&self, new: SettingsPopup) -> bool {
        let general = self.active_tab == SettingsTab::General;
        let local = self.active_tab == SettingsTab::Local;
        let lf = self.local_focus;
        &&& new.same_but_text_fields(*self)
        &&& new.artifact_save_dir@ == (if general && self.general_focus == GeneralFocus::ArtifactSaveDir { drop_last_char(self.artifact_save_dir@) } else { self.artifact_save_dir@ })
        &&& new.vault_path@ == (if general && self.general_focus == GeneralFocus::VaultPath { drop_last_char(self.vault_path@) } else { self.vault_path@ })
        &&& new.local_host@ == (if local && lf == LocalFocus::Host { drop_last_char(self.local_host@) } else { self.local_host@ })
        &&& new.local_port@ == (if local && lf == LocalFocus::Port { drop_last_char(self.local_port@) } else { self.local_port@ })
        &&& new.local_selected_model@ == (if local && lf == LocalFocus::SelectedModel { drop_last_char(self.local_selected_model@) } else { self.local_selected_model@ })
        &&& new.local_model_directory@ == (if local && lf == LocalFocus::ModelDirectory { drop_last_char(self.local_model_directory@) } else { self.local_model_directory@ })
        &&& new.local_health_interval_seconds@ == (if local && lf == LocalFocus::HealthInterval { drop_last_char(self.local_health_interval_seconds@) } else { self.local_health_interval_seconds@ })
        &&& new.local_connect_timeout_ms@ == (if local && lf == LocalFocus::ConnectTimeout { drop_last_char(self.local_connect_timeout_ms@) } else { self.local_connect_timeout_ms@ })
        &&& new.local_request_timeout_ms@ == (if local && lf == LocalFocus::RequestTimeout { drop_last_char(self.local_request_timeout_ms@) } else { self.local_request_timeout_ms@ })
        &&& new.local_api_token_env@ == (if local && lf == LocalFocus::ApiTokenEnv { drop_last_char(self.local_api_token_env@) } else { self.local_api_token_env@ })
    }

    /// Types `c` into whatever has the keyboard: the key popup's key field, the open
    /// provider form (the edit form before the add form), or the focused text field of the
    /// general or local tab.
    pub fn type_char(&mut self, c: char)
        ensures
            old(self).preset_key_popup matches Some(p) ==> {
                &&& *final(self) == (SettingsPopup { preset_key_popup: final(self).preset_key_popup, ..*old(self) })
                &&& final(self).preset_key_popup matches Some(q) && key_popup_edited(p, q,
                    pushed_if(p.api_key@, c, old(self).providers_tab_focus == ProvidersTabFocus::PopupApiKey))
            },
            old(self).preset_key_popup is None ==> (old(self).edit_provider_popup matches Some(f) ==> {
                &&& *final(self) == (SettingsPopup { edit_provider_popup: final(self).edit_provider_popup, ..*old(self) })
                &&& final(self).edit_provider_popup matches Some(g) && form_typed(f, c, g)
            }),
            old(self).preset_key_popup is None && old(self).edit_provider_popup is None ==> (old(self).add_provider_popup matches Some(f) ==> {
                &&& *final(self) == (SettingsPopup { add_provider_popup: final(self).add_provider_popup, ..*old(self) })
                &&& final(self).add_provider_popup matches Some(g) && form_typed(f, c, g)
            }),
            old(self).preset_key_popup is None && old(self).edit_provider_popup is None && old(self).add_provider_popup is None
                ==> old(self).text_typed(c, *final(self)),
    {
        if self.preset_key_popup.is_some() {
            let focused = self.providers_tab_focus == ProvidersTabFocus::PopupApiKey;
            if let Some(popup) = &mut self.preset_key_popup {
                if focused {
                    push_char(&mut popup.api_key, c);
                }
            }
        } else if let Some(form) = &mut self.edit_provider_popup {
            form.type_char(c);
        } else if let Some(form) = &mut self.add_provider_popup {
            form.type_char(c);
        } else {
            self.type_text_field(c);
        }
    }

    fn type_text_field(&mut self, c: char)
        ensures
            old(self).text_typed(c, *final(self)),
    {
        let general = self.active_tab == SettingsTab::General;
        let local = self.active_tab == SettingsTab::Local;
        let gf = self.general_focus;
        let lf = self.local_focus;
        let digit = is_ascii_digit(c);
        let a = push_if(&self.artifact_save_dir, c, general && gf == GeneralFocus::ArtifactSaveDir);
        let b = push_if(&self.vault_path, c, general && gf == GeneralFocus::VaultPath);
        let h = push_if(&self.local_host, c, local && lf == LocalFocus::Host);
        let po = push_if(&self.local_port, c, local && lf == LocalFocus::Port && digit);
        let sm = push_if(&self.local_selected_model, c, local && lf == LocalFocus::SelectedModel);
        let md = push_if(&self.local_model_directory, c, local && lf == LocalFocus::ModelDirectory);
        let hi = push_if(&self.local_health_interval_seconds, c, local && lf == LocalFocus::HealthInterval && digit);
        let ct = push_if(&self.local_connect_timeout_ms, c, local && lf == LocalFocus::ConnectTimeout && digit);
        let rt = push_if(&self.local_request_timeout_ms, c, local && lf == LocalFocus::RequestTimeout && digit);
        let te = push_if(&self.local_api_token_env, c, local && lf == LocalFocus::ApiTokenEnv && is_token_char(c));
        self.artifact_save_dir = a;
        self.vault_path = b;
        self.local_host = h;
        self.local_port = po;
        self.local_selected_model = sm;
        self.local_model_directory = md;
        self.local_health_interval_seconds = hi;
        self.local_connect_timeout_ms = ct;
        self.local_request_timeout_ms = rt;
        self.local_api_token_env = te;
    }

    /// Deletes the last character of whatever has the keyboard, as `type_char` decides.
    pub fn backspace(&mut self)
        ensures
            old(self).preset_key_popup matches Some(p) ==> {
                &&& *final(self) == (SettingsPopup { preset_key_popup: final(self).preset_key_popup, ..*old(self) })
                &&& final(self).preset_key_popup matches Some(q) && key_popup_edited(p, q,
                    if old(self).providers_tab_focus == ProvidersTabFocus::PopupApiKey { drop_last_char(p.api_key@) } else { p.api_key@ })
            },
            old(self).preset_key_popup is None ==> (old(self).edit_provider_popup matches Some(f) ==> {
                &&& *final(self) == (SettingsPopup { edit_provider_popup: final(self).edit_provider_popup, ..*old(self) })
                &&& final(self).edit_provider_popup matches Some(g) && form_backspaced(f, g)
            }),
            old(self).preset_key_popup is None && old(self).edit_provider_popup is None ==> (old(self).add_provider_popup matches Some(f) ==> {
                &&& *final(self) == (SettingsPopup { add_provider_popup: final(self).add_provider_popup, ..*old(self) })
                &&& final(self).add_provider_popup matches Some(g) && form_backspaced(f, g)
            }),
            old(self).preset_key_popup is None && old(self).edit_provider_popup is None && old(self).add_provider_popup is None
                ==> old(self).text_backspaced(*final(self)),
    {
        if self.preset_key_popup.is_some() {
            let focused = self.providers_tab_focus == ProvidersTabFocus::PopupApiKey;
            if let Some(popup) = &mut self.preset_key_popup {
                if focused {
                    pop_char(&mut popup.api_key);
                }
            }
        } else if let Some(form) = &mut self.edit_provider_popup {
            form.backspace();
        } else if let Some(form) = &mut self.add_provider_popup {
            form.backspace();
        } else {
            self.backspace_text_field();
        }
    }

    fn backspace_text_field(&mut self)
        ensures
            old(self).text_backspaced(*final(self)),
    {
        let general = self.active_tab == SettingsTab::General;
        let local = self.active_tab == SettingsTab::Local;
        let gf = self.general_focus;
        let lf = self.local_focus;
        let a = pop_if(&self.artifact_save_dir, general && gf == GeneralFocus::ArtifactSaveDir);
        let b = pop_if(&self.vault_path, general && gf == GeneralFocus::VaultPath);
        let h = pop_if(&self.local_host, local && lf == LocalFocus::Host);
        let po = pop_if(&self.local_port, local && lf == LocalFocus::Port);
        let sm = pop_if(&self.local_selected_model, local && lf == LocalFocus::SelectedModel);
        let md = pop_if(&self.local_model_directory, local && lf == LocalFocus::ModelDirectory);
        let hi = pop_if(&self.local_health_interval_seconds, local && lf == LocalFocus::HealthInterval);
        let ct = pop_if(&self.local_connect_timeout_ms, local && lf == LocalFocus::ConnectTimeout);
        let rt = pop_if(&self.local_request_timeout_ms, local && lf == LocalFocus::RequestTimeout);
        let te = pop_if(&self.local_api_token_env, local && lf == LocalFocus::ApiTokenEnv);
        self.artifact_save_dir = a;
        self.vault_path = b;
        self.local_host = h;
        self.local_port = po;
        self.local_selected_model = sm;
        self.local_model_directory = md;
        self.local_health_interval_seconds = hi;
        self.local_connect_timeout_ms = ct;
        self.local_request_timeout_ms = rt;
        self.local_api_token_env = te;
    }
}

/// A provider entry as text: name, endpoint, key variable, backend type, authentication.
pub type EntryView = (Seq<char>, Seq<char>, Seq<char>, Seq<char>, Seq<char>);

/// The entries as text.
pub open spec fn entries_view(s: Seq<ProviderEntry>) -> Seq<EntryView> {
    s.map_values(|e: ProviderEntry| e@)
}

/// The providers that ship with a preset endpoint and only need an API key.
pub open spec fn preset_provider_names() -> Seq<Seq<char>> {
    seq!["OpenAI"@, "Anthropic"@, "Google AI"@, "Ollama"@, "OpenRouter"@, "Kilo Gateway"@,
        "Mistral"@, "Groq"@, "Berget.ai"@, "OpenCode Go"@, "OpenCode Zen"@]
}

/// The web-search services whose keys the providers tab also keeps, as entries.
pub open spec fn search_entries() -> Seq<EntryView> {
    seq![
        ("Exa Search"@, "https://api.exa.ai/search"@, "EXA_API_KEY"@, "search"@, "api_key"@),
        ("Tavily Search"@, "https://api.tavily.com/search"@, "TAVILY_API_KEY"@, "search"@, "api_key"@),
        ("Firecrawl Search"@, "https://api.firecrawl.dev/v2/search"@, "FIRECRAWL_API_KEY"@, "search"@, "api_key"@),
    ]
}

/// Whether an entry is a preset provider authenticated by API key.
pub open spec fn is_preset_key_entry(e: EntryView) -> bool {
    e.4 == "api_key"@ && preset_provider_names().contains(e.0)
}

/// The preset providers among `db` that take an API key, followed by the search services.
pub open spec fn preset_entries(db: Seq<ProviderEntry>) -> Seq<EntryView> {
    entries_view(db).filter(|e: EntryView| is_preset_key_entry(e)) + search_entries()
}

/// The providers among `db` that sign in with OAuth.
pub open spec fn oauth_entries(db: Seq<ProviderEntry>) -> Seq<EntryView> {
    entries_view(db).filter(|e: EntryView| e.4 == "oauth"@)
}

/// The names of the preset entries.
pub open spec fn preset_entry_names(db: Seq<ProviderEntry>) -> Seq<Seq<char>> {
    preset_entries(db).map_values(|e: EntryView| e.0)
}

/// The custom providers among `db`: not OAuth and not named like a preset entry.
pub open spec fn custom_key_entries(db: Seq<ProviderEntry>) -> Seq<EntryView> {
    entries_view(db).filter(|e: EntryView| e.4 != "oauth"@ && !preset_entry_names(db).contains(e.0))
}

/// The key saved for `name`: the first saved pair with that name, or empty.
pub open spec fn saved_key(keys: Seq<(String, String)>, name: Seq<char>) -> Seq<char>
    decreases keys.len(),
{
    if keys.len() == 0 {
        Seq::empty()
    } else if keys[0].0@ == name {
        keys[0].1@
    } else {
        saved_key(keys.drop_first(), name)
    }
}

proof fn lemma_saved_key(keys: Seq<(String, String)>, name: Seq<char>, i: int)
    requires
        0 <= i <= keys.len(),
        forall|k: int| 0 <= k < i ==> keys[k].0@ != name,
    ensures
        saved_key(keys, name) == saved_key(keys.skip(i), name),
    decreases i,
{
    if i > 0 {
        assert forall|k: int| 0 <= k < i - 1 implies keys.drop_first()[k].0@ != name by {
            assert(keys.drop_first()[k] == keys[k + 1]);
        }
        lemma_saved_key(keys.drop_first(), name, i - 1);
        assert(keys.drop_first().skip(i - 1) =~= keys.skip(i));
    } else {
        assert(keys.skip(0) =~= keys);
    }
}

/// The key saved for `name`, or an empty string.
fn saved_key_for(keys: &Vec<(String, String)>, name: &str) -> (r: String)
    ensures
        r@ == saved_key(keys@, name@),
{
    let mut i: usize = 0;
    while i < keys.len()
        invariant
            i <= keys@.len(),
            forall|k: int| 0 <= k < i ==> keys@[k].0@ != name@,
        decreases keys@.len() - i,
    {
        if same_text(keys[i].0.as_str(), name) {
            proof {
                lemma_saved_key(keys@, name@, i as int);
                assert(keys@.skip(i as int)[0] == keys@[i as int]);
            }
            return keys[i].1.clone();
        }
        i = i + 1;
    }
    proof {
        lemma_saved_key(keys@, name@, i as int);
    }
    String::new()
}

/// A copy of a provider entry.
fn copy_entry(e: &ProviderEntry) -> (r: ProviderEntry)
    ensures
        r == *e,
{
    (e.0.clone(), e.1.clone(), e.2.clone(), e.3.clone(), e.4.clone())
}

fn preset_names_vec() -> (r: Vec<String>)
    ensures
        names_view(r@) == preset_provider_names(),
{
    let mut v: Vec<String> = Vec::new();
    v.push(String::from_str("OpenAI"));
    v.push(String::from_str("Anthropic"));
    v.push(String::from_str("Google AI"));
    v.push(String::from_str("Ollama"));
    v.push(String::from_str("OpenRouter"));
    v.push(String::from_str("Kilo Gateway"));
    v.push(String::from_str("Mistral"));
    v.push(String::from_str("Groq"));
    v.push(String::from_str("Berget.ai"));
    v.push(String::from_str("OpenCode Go"));
    v.push(String::from_str("OpenCode Zen"));
    proof {
        assert(names_view(v@) =~= preset_provider_names());
    }
    v
}

fn search_entry(name: &str, endpoint: &str, env_var: &str) -> (r: ProviderEntry)
    ensures
        r@ == (name@, endpoint@, env_var@, "search"@, "api_key"@),
{
    (name.to_owned(), endpoint.to_owned(), env_var.to_owned(), String::from_str("search"), String::from_str("api_key"))
}

impl SettingsPopup {
    /// Whether one of the provider popups is open.
    pub fn provider_popup_active(&self) -> (r: bool)
        ensures
            r == (self.add_provider_popup is Some || self.edit_providers_popup is Some
                || self.edit_provider_popup is Some || self.preset_key_popup is Some),
    {
        self.add_provider_popup.is_some() || self.edit_providers_popup.is_some()
            || self.edit_provider_popup.is_some() || self.preset_key_popup.is_some()
    }

    /// Closes the topmost provider popup: the key popup, else the edit form, else the edit
    /// list, else the add form. Returns whether one was open.
    pub fn close_active_provider_popup(&mut self) -> (r: bool)
        ensures
            r == (old(self).add_provider_popup is Some || old(self).edit_providers_popup is Some
                || old(self).edit_provider_popup is Some || old(self).preset_key_popup is Some),
            old(self).preset_key_popup is Some ==> *final(self) == (SettingsPopup { preset_key_popup: None, ..*old(self) }),
            old(self).preset_key_popup is None && old(self).edit_provider_popup is Some
                ==> *final(self) == (SettingsPopup { edit_provider_popup: None, ..*old(self) }),
            old(self).preset_key_popup is None && old(self).edit_provider_popup is None && old(self).edit_providers_popup is Some
                ==> *final(self) == (SettingsPopup { edit_providers_popup: None, ..*old(self) }),
            old(self).preset_key_popup is None && old(self).edit_provider_popup is None && old(self).edit_providers_popup is None
                ==> *final(self) == (SettingsPopup { add_provider_popup: None, ..*old(self) }),
    {
        if self.preset_key_popup.take().is_some() {
            return true;
        }
        if self.edit_provider_popup.take().is_some() {
            return true;
        }
        if self.edit_providers_popup.take().is_some() {
            return true;
        }
        self.add_provider_popup.take().is_some()
    }

    /// The preset providers that take an API key, followed by the search services.
    pub fn preset_api_key_providers(&self) -> (r: Vec<ProviderEntry>)
        ensures
            entries_view(r@) == preset_entries(self.db_providers@),
    {
        let ghost dbv = entries_view(self.db_providers@);
        let ghost pred = |e: EntryView| is_preset_key_entry(e);
        let names = preset_names_vec();
        let mut out: Vec<ProviderEntry> = Vec::new();
        let mut i: usize = 0;
        proof {
            reveal(Seq::filter);
            assert(dbv.take(0) =~= Seq::<EntryView>::empty());
            assert(entries_view(out@) =~= dbv.take(0).filter(pred));
        }
        while i < self.db_providers.len()
            invariant
                i <= dbv.len(),
                dbv == entries_view(self.db_providers@),
                pred == (|e: EntryView| is_preset_key_entry(e)),
                names_view(names@) == preset_provider_names(),
                entries_view(out@) == dbv.take(i as int).filter(pred),
            decreases dbv.len() - i,
        {
            proof {
                lemma_filter_take_step(dbv, pred, i as int);
            }
            let e = &self.db_providers[i];
            if same_text(e.4.as_str(), "api_key") && set_contains(&names, e.0.as_str()) {
                out.push(copy_entry(e));
                proof {
                    assert(entries_view(out@) =~= dbv.take(i as int + 1).filter(pred));
                }
            }
            i = i + 1;
        }
        proof {
            assert(dbv.take(dbv.len() as int) =~= dbv);
        }
        let ghost head = entries_view(out@);
        out.push(search_entry("Exa Search", "https://api.exa.ai/search", "EXA_API_KEY"));
        out.push(search_entry("Tavily Search", "https://api.tavily.com/search", "TAVILY_API_KEY"));
        out.push(search_entry("Firecrawl Search", "https://api.firecrawl.dev/v2/search", "FIRECRAWL_API_KEY"));
        proof {
            assert(entries_view(out@) =~= head + search_entries());
        }
        out
    }

    /// The providers that sign in with OAuth.
    pub fn oauth_providers(&self) -> (r: Vec<ProviderEntry>)
        ensures
            entries_view(r@) == oauth_entries(self.db_providers@),
    {
        let ghost dbv = entries_view(self.db_providers@);
        let ghost pred = |e: EntryView| e.4 == "oauth"@;
        let mut out: Vec<ProviderEntry> = Vec::new();
        let mut i: usize = 0;
        proof {
            reveal(Seq::filter);
            assert(dbv.take(0) =~= Seq::<EntryView>::empty());
            assert(entries_view(out@) =~= dbv.take(0).filter(pred));
        }
        while i < self.db_providers.len()
            invariant
                i <= dbv.len(),
                dbv == entries_view(self.db_providers@),
                pred == (|e: EntryView| e.4 == "oauth"@),
                entries_view(out@) == dbv.take(i as int).filter(pred),
            decreases dbv.len() - i,
        {
            proof {
                lemma_filter_take_step(dbv, pred, i as int);
            }
            let e = &self.db_providers[i];
            if same_text(e.4.as_str(), "oauth") {
                out.push(copy_entry(e));
                proof {
                    assert(entries_view(out@) =~= dbv.take(i as int + 1).filter(pred));
                }
            }
            i = i + 1;
        }
        proof {
            assert(dbv.take(dbv.len() as int) =~= dbv);
        }
        out
    }

    /// The custom providers: neither OAuth nor named like a preset entry.
    pub fn custom_key_providers(&self) -> (r: Vec<ProviderEntry>)
        ensures
            entries_view(r@) == custom_key_entries(self.db_providers@),
    {
        let presets = self.preset_api_key_providers();
        let mut preset_names: Vec<String> = Vec::new();
        let mut j: usize = 0;
        while j < presets.len()
            invariant
                j <= presets@.len(),
                names_view(preset_names@) == entries_view(presets@).take(j as int).map_values(|e: EntryView| e.0),
            decreases presets@.len() - j,
        {
            let ghost before = names_view(preset_names@);
            preset_names.push(presets[j].0.clone());
            proof {
                let ev = entries_view(presets@);
                assert(ev[j as int] == presets@[j as int]@);
                assert(ev.take(j as int + 1) =~= ev.take(j as int).push(ev[j as int]));
                assert(ev.take(j as int + 1).map_values(|e: EntryView| e.0) =~= ev.take(j as int).map_values(|e: EntryView| e.0).push(ev[j as int].0));
                assert(names_view(preset_names@) =~= before.push(presets@[j as int].0@));
            }
            j = j + 1;
        }
        proof {
            assert(entries_view(presets@).take(presets@.len() as int) =~= entries_view(presets@));
            assert(names_view(preset_names@) == preset_entry_names(self.db_providers@));
        }
        let ghost dbv = entries_view(self.db_providers@);
        let ghost pn = preset_entry_names(self.db_providers@);
        let ghost pred = |e: EntryView| e.4 != "oauth"@ && !pn.contains(e.0);
        let mut out: Vec<ProviderEntry> = Vec::new();
        let mut i: usize = 0;
        proof {
            reveal(Seq::filter);
            assert(dbv.take(0) =~= Seq::<EntryView>::empty());
            assert(entries_view(out@) =~= dbv.take(0).filter(pred));
        }
        while i < self.db_providers.len()
            invariant
                i <= dbv.len(),
                dbv == entries_view(self.db_providers@),
                pn == preset_entry_names(self.db_providers@),
                names_view(preset_names@) == pn,
                pred == (|e: EntryView| e.4 != "oauth"@ && !pn.contains(e.0)),
                entries_view(out@) == dbv.take(i as int).filter(pred),
            decreases dbv.len() - i,
        {
            proof {
                lemma_filter_take_step(dbv, pred, i as int);
            }
            let e = &self.db_providers[i];
            if !same_text(e.4.as_str(), "oauth") && !set_contains(&preset_names, e.0.as_str()) {
                out.push(copy_entry(e));
                proof {
                    assert(entries_view(out@) =~= dbv.take(i as int + 1).filter(pred));
                }
            }
            i = i + 1;
        }
        proof {
            assert(dbv.take(dbv.len() as int) =~= dbv);
            assert(custom_key_entries(self.db_providers@) == dbv.filter(pred));
        }
        out
    }

    /// Opens the form for adding a provider.
    pub fn open_add_provider_popup(&mut self)
        ensures
            *final(self) == (SettingsPopup { add_provider_popup: final(self).add_provider_popup, ..*old(self) }),
            final(self).add_provider_popup matches Some(f) && fresh_add_form(f),
    {
        self.add_provider_popup = Some(ProviderFormState::new_add());
    }

    /// Opens the list of providers to edit or delete, focused on the first one.
    pub fn open_edit_providers_popup(&mut self)
        ensures
            *final(self) == (SettingsPopup {
                edit_providers_popup: Some(EditProvidersPopupState {
                    focus: if old(self).providers_tab_list@.len() > 0 { Some(crate::settings::EditProvidersFocus::ProviderName(0)) } else { None },
                }),
                ..*old(self)
            }),
    {
        let popup = EditProvidersPopupState::new(!self.providers_tab_list.is_empty());
        self.edit_providers_popup = Some(popup);
    }

    /// Opens the form for editing provider `idx` of the list, prefilled with its saved key;
    /// nothing happens past the end of the list.
    pub fn open_edit_provider_popup(&mut self, idx: usize)
        ensures
            old(self).edit_provider_opened(idx, *final(self)),
    {
        if idx < self.providers_tab_list.len() {
            let key = saved_key_for(&self.saved_keys, self.providers_tab_list[idx].name.as_str());
            let form = ProviderFormState::new_edit(&self.providers_tab_list[idx], key);
            self.edit_provider_popup = Some(form);
        }
    }

    /// Opens the key popup for preset entry `idx`, prefilled with its saved key, and puts
    /// the focus on the key field; nothing happens past the end of the entries.
    pub fn open_preset_key_popup(&mut self, idx: usize)
        ensures
            idx >= preset_entries(old(self).db_providers@).len() ==> *final(self) == *old(self),
            idx < preset_entries(old(self).db_providers@).len() ==> {
                let e = preset_entries(old(self).db_providers@)[idx as int];
                &&& *final(self) == (SettingsPopup {
                    preset_key_popup: final(self).preset_key_popup,
                    providers_tab_focus: ProvidersTabFocus::PopupApiKey,
                    ..*old(self)
                })
                &&& final(self).preset_key_popup matches Some(p) && p.provider_name@ == e.0 && p.endpoint@ == e.1
                    && p.api_key@ == saved_key(old(self).saved_keys@, e.0)
            },
    {
        let presets = self.preset_api_key_providers();
        if idx < presets.len() {
            let key = saved_key_for(&self.saved_keys, presets[idx].0.as_str());
            let popup = PresetKeyPopupState::new(presets[idx].0.clone(), presets[idx].1.clone(), key);
            self.preset_key_popup = Some(popup);
            self.providers_tab_focus = ProvidersTabFocus::PopupApiKey;
        }
    }
}

/// Whether `f` is the empty add-provider form.
pub open spec fn fresh_add_form(f: ProviderFormState) -> bool {
    &&& f.title@ == " Add Provider "@
    &&& f.submit_label@ == "Add"@
    &&& f.original_name is None
    &&& f.name@.len() == 0
    &&& f.endpoint@.len() == 0
    &&& f.backend_type@ == "openai"@
    &&& f.api_key@.len() == 0
    &&& f.focus == crate::settings::ProviderFormFocus::ProviderName
    &&& !f.dropdown_open
}

/// Whether `f` is the form for editing provider `p` with key `key`.
pub open spec fn edit_form_of(f: ProviderFormState, p: EditableProvider, key: Seq<char>) -> bool {
    &&& f.title@ == " Edit Provider "@
    &&& f.submit_label@ == "Save"@
    &&& f.original_name == Some(p.name)
    &&& f.name == p.name
    &&& f.endpoint == p.endpoint
    &&& f.backend_type == p.backend_type
    &&& f.api_key@ == key
    &&& f.focus == crate::settings::ProviderFormFocus::ProviderName
    &&& !f.dropdown_open
}

/// The key popup's focus after tab (`forward`) or shift-tab: key field, save, cancel and
/// round again; from elsewhere the focus goes to the key field.
pub open spec fn key_popup_focus_cycled(f: ProvidersTabFocus, forward: bool) -> ProvidersTabFocus {
    match f {
        ProvidersTabFocus::PopupApiKey => if forward { ProvidersTabFocus::PopupSaveButton } else { ProvidersTabFocus::PopupCancelButton },
        ProvidersTabFocus::PopupSaveButton => if forward { ProvidersTabFocus::PopupCancelButton } else { ProvidersTabFocus::PopupApiKey },
        ProvidersTabFocus::PopupCancelButton => if forward { ProvidersTabFocus::PopupApiKey } else { ProvidersTabFocus::PopupSaveButton },
        _ => ProvidersTabFocus::PopupApiKey,
    }
}

fn key_popup_focus_cycled_exec(f: ProvidersTabFocus, forward: bool) -> (r: ProvidersTabFocus)
    ensures
        r == key_popup_focus_cycled(f, forward),
{
    match f {
        ProvidersTabFocus::PopupApiKey => if forward { ProvidersTabFocus::PopupSaveButton } else { ProvidersTabFocus::PopupCancelButton },
        ProvidersTabFocus::PopupSaveButton => if forward { ProvidersTabFocus::PopupCancelButton } else { ProvidersTabFocus::PopupApiKey },
        ProvidersTabFocus::PopupCancelButton => if forward { ProvidersTabFocus::PopupApiKey } else { ProvidersTabFocus::PopupSaveButton },
        _ => ProvidersTabFocus::PopupApiKey,
    }
}

/// The key popup's focus after up (`forward == false`) or down: up goes from a button to
/// the key field, down from the key field to the save button.
pub open spec fn key_popup_focus_moved(f: ProvidersTabFocus, forward: bool) -> ProvidersTabFocus {
    if forward {
        if f == ProvidersTabFocus::PopupApiKey { ProvidersTabFocus::PopupSaveButton } else { f }
    } else if f == ProvidersTabFocus::PopupSaveButton || f == ProvidersTabFocus::PopupCancelButton {
        ProvidersTabFocus::PopupApiKey
    } else {
        f
    }
}

/// The form after up/down in it: with the backend dropdown open on the backend row, the
/// backend moves to the neighbouring option; otherwise nothing changes.
pub open spec fn backend_moved(f: ProviderFormState, forward: bool, g: ProviderFormState) -> bool {
    &&& g == (ProviderFormState { backend_type: g.backend_type, ..f })
    &&& g.backend_type@ == (if f.dropdown_open && f.focus == crate::settings::ProviderFormFocus::ProviderBackendType {
        crate::settings::backend_type_options()[crate::settings::wrap_step(crate::settings::backend_position(f.backend_type@), 6, forward) as int]
    } else {
        f.backend_type@
    })
}

/// Whether some listed provider other than the one being edited already has the form's
/// trimmed name.
pub open spec fn duplicate_name(list: Seq<EditableProvider>, f: ProviderFormState) -> bool {
    exists|i: int| 0 <= i < list.len() && #[trigger] list[i].name@ == trim(f.name@)
        && (match f.original_name { Some(o) => o@ != trim(f.name@), None => true })
}

/// Whether `p` is the provider the form submits: its fields trimmed.
pub open spec fn submitted_provider(f: ProviderFormState, p: EditableProvider) -> bool {
    p.name@ == trim(f.name@) && p.endpoint@ == trim(f.endpoint@) && p.backend_type@ == trim(f.backend_type@)
}

/// Whether activating form `f` (the edit form when `is_edit`) of popup `old` gave `new`
/// and the action `r`: on the backend row the dropdown opens or closes; cancel closes the
/// form; submit, when every field is filled and the name is not taken, closes the form and
/// asks to add (or update) the trimmed provider with the trimmed key. Anything else does
/// nothing.
pub open spec fn form_activated(old: SettingsPopup, f: ProviderFormState, is_edit: bool, new: SettingsPopup, r: ProvidersAction) -> bool {
    let closed = if is_edit { SettingsPopup { edit_provider_popup: None, ..old } } else { SettingsPopup { add_provider_popup: None, ..old } };
    let toggled_form = ProviderFormState { dropdown_open: !f.dropdown_open, ..f };
    let reopened = if is_edit { SettingsPopup { edit_provider_popup: Some(toggled_form), ..old } } else { SettingsPopup { add_provider_popup: Some(toggled_form), ..old } };
    let submit_ok = crate::settings::form_can_submit(f.name@, f.endpoint@, f.backend_type@, f.api_key@)
        && !duplicate_name(old.providers_tab_list@, f);
    if f.focus == crate::settings::ProviderFormFocus::ProviderBackendType {
        new == reopened && r is NoAction
    } else if f.focus == crate::settings::ProviderFormFocus::CancelButton {
        new == closed && r is NoAction
    } else if f.focus == crate::settings::ProviderFormFocus::SubmitButton && submit_ok {
        &&& new == closed
        &&& if is_edit {
            r matches ProvidersAction::SubmitEdit { original_name, provider, api_key } && submitted_provider(f, provider)
                && api_key@ == trim(f.api_key@)
                && original_name@ == (match f.original_name { Some(o) => o@, None => trim(f.name@) })
        } else {
            r matches ProvidersAction::SubmitAdd { provider, api_key } && submitted_provider(f, provider)
                && api_key@ == trim(f.api_key@)
        }
    } else {
        new == old && r is NoAction
    }
}

/// Whether `pos` lies in the area, when there is one.
pub open spec fn hit(area: Option<Rect>, pos: crate::geometry::Position) -> bool {
    area matches Some(a) && crate::geometry::rect_contains(a, pos)
}

fn hit_exec(area: Option<Rect>, pos: crate::geometry::Position) -> (r: bool)
    ensures
        r == hit(area, pos),
{
    match area {
        Some(a) => a.contains(pos),
        None => false,
    }
}

/// Whether `new` is `old` with the name of entry `i` of `list` toggled among the disabled
/// providers (nothing changes past the end of the list).
pub open spec fn disabled_toggled(old: SettingsPopup, new: SettingsPopup, list: Seq<EntryView>, i: nat) -> bool {
    &&& new == (SettingsPopup { disabled_providers: new.disabled_providers, ..old })
    &&& no_repeats(names_view(new.disabled_providers@))
    &&& names_set(new.disabled_providers@) == (if i < list.len() {
        toggled(names_set(old.disabled_providers@), list[i as int].0)
    } else {
        names_set(old.disabled_providers@)
    })
}

impl SettingsPopup {
    /// The popup after tab (`forward`) or shift-tab inside the topmost provider popup:
    /// the key popup, else the edit form, else the edit list, else the add form.
    pub open spec fn popup_focus_stepped(&self, forward: bool) -> SettingsPopup {
        if self.preset_key_popup is Some {
            SettingsPopup { providers_tab_focus: key_popup_focus_cycled(self.providers_tab_focus, forward), ..*self }
        } else if let Some(form) = self.edit_provider_popup {
            SettingsPopup {
                edit_provider_popup: Some(ProviderFormState { focus: cycle_form_focus_spec(form.focus, forward), dropdown_open: false, ..form }),
                ..*self
            }
        } else if let Some(popup) = self.edit_providers_popup {
            SettingsPopup {
                edit_providers_popup: Some(EditProvidersPopupState { focus: cycle_edit_focus_spec(popup.focus, self.providers_tab_list@.len(), forward) }),
                ..*self
            }
        } else if let Some(form) = self.add_provider_popup {
            SettingsPopup {
                add_provider_popup: Some(ProviderFormState { focus: cycle_form_focus_spec(form.focus, forward), dropdown_open: false, ..form }),
                ..*self
            }
        } else {
            *self
        }
    }

    /// Tab inside the topmost provider popup.
    pub fn next_popup_focus(&mut self)
        ensures
            *final(self) == old(self).popup_focus_stepped(true),
    {
        self.step_popup_focus(true);
    }

    /// Shift-tab inside the topmost provider popup.
    pub fn prev_popup_focus(&mut self)
        ensures
            *final(self) == old(self).popup_focus_stepped(false),
    {
        self.step_popup_focus(false);
    }

    fn step_popup_focus(&mut self, forward: bool)
        ensures
            *final(self) == old(self).popup_focus_stepped(forward),
    {
        let len = self.providers_tab_list.len();
        if self.preset_key_popup.is_some() {
            self.providers_tab_focus = key_popup_focus_cycled_exec(self.providers_tab_focus, forward);
        } else if let Some(form) = &mut self.edit_provider_popup {
            form.cycle_focus(forward);
        } else if let Some(popup) = &mut self.edit_providers_popup {
            popup.cycle_focus(len, forward);
        } else if let Some(form) = &mut self.add_provider_popup {
            form.cycle_focus(forward);
        }
    }

    /// Up inside the topmost provider popup.
    pub fn popup_up(&mut self)
        requires
            old(self).preset_key_popup is None && old(self).edit_provider_popup is None ==> (old(self).edit_providers_popup matches Some(p)
                ==> (p.focus matches Some(f) ==> crate::settings::focus_row(f) < usize::MAX)),
        ensures
            old(self).popup_moved(false, *final(self)),
    {
        self.move_in_popup(false);
    }

    /// Down inside the topmost provider popup.
    pub fn popup_down(&mut self)
        requires
            old(self).preset_key_popup is None && old(self).edit_provider_popup is None ==> (old(self).edit_providers_popup matches Some(p)
                ==> (p.focus matches Some(f) ==> crate::settings::focus_row(f) < usize::MAX)),
        ensures
            old(self).popup_moved(true, *final(self)),
    {
        self.move_in_popup(true);
    }

    /// Whether `new` is the popup after up (`forward == false`) or down inside the topmost
    /// provider popup: the key popup moves its focus, a form moves its backend selection,
    /// the edit list moves to the neighbouring provider row.
    pub open spec fn popup_moved(&self, forward: bool, new: SettingsPopup) -> bool {
        if self.preset_key_popup is Some {
            new == (SettingsPopup { providers_tab_focus: key_popup_focus_moved(self.providers_tab_focus, forward), ..*self })
        } else if let Some(form) = self.edit_provider_popup {
            new == (SettingsPopup { edit_provider_popup: new.edit_provider_popup, ..*self })
                && (new.edit_provider_popup matches Some(g) && backend_moved(form, forward, g))
        } else if let Some(popup) = self.edit_providers_popup {
            new == (SettingsPopup {
                edit_providers_popup: Some(EditProvidersPopupState {
                    focus: crate::settings::move_edit_focus_spec(popup.focus, self.providers_tab_list@.len(), forward),
                }),
                ..*self
            })
        } else if let Some(form) = self.add_provider_popup {
            new == (SettingsPopup { add_provider_popup: new.add_provider_popup, ..*self })
                && (new.add_provider_popup matches Some(g) && backend_moved(form, forward, g))
        } else {
            new == *self
        }
    }

    fn move_in_popup(&mut self, forward: bool)
        requires
            old(self).preset_key_popup is None && old(self).edit_provider_popup is None ==> (old(self).edit_providers_popup matches Some(p)
                ==> (p.focus matches Some(f) ==> crate::settings::focus_row(f) < usize::MAX)),
        ensures
            old(self).popup_moved(forward, *final(self)),
    {
        let len = self.providers_tab_list.len();
        if self.preset_key_popup.is_some() {
            let f = self.providers_tab_focus;
            let moved = if forward {
                if f == ProvidersTabFocus::PopupApiKey { ProvidersTabFocus::PopupSaveButton } else { f }
            } else if f == ProvidersTabFocus::PopupSaveButton || f == ProvidersTabFocus::PopupCancelButton {
                ProvidersTabFocus::PopupApiKey
            } else {
                f
            };
            self.providers_tab_focus = moved;
        } else if let Some(form) = &mut self.edit_provider_popup {
            form.move_backend_selection(forward);
        } else if let Some(popup) = &mut self.edit_providers_popup {
            popup.move_vertically(len, forward);
        } else if let Some(form) = &mut self.add_provider_popup {
            form.move_backend_selection(forward);
        }
    }

    /// Activates the key popup's focused control: save (with a key filled in) closes the
    /// popup and asks to save the trimmed key; cancel closes it.
    pub fn activate_preset_key_popup(&mut self) -> (r: ProvidersAction)
        ensures
            old(self).key_popup_activated(*final(self), r),
    {
        let focus = self.providers_tab_focus;
        let outcome: Option<(String, String)> = match &self.preset_key_popup {
            None => None,
            Some(popup) => {
                if focus == ProvidersTabFocus::PopupSaveButton && popup.can_submit() {
                    Some((popup.provider_name.clone(), trimmed_string(popup.api_key.as_str())))
                } else {
                    None
                }
            },
        };
        match outcome {
            Some((provider_name, api_key)) => {
                self.preset_key_popup = None;
                ProvidersAction::SavePresetKey { provider_name, api_key }
            },
            None => {
                if self.preset_key_popup.is_some() && focus == ProvidersTabFocus::PopupCancelButton {
                    self.preset_key_popup = None;
                }
                ProvidersAction::NoAction
            },
        }
    }
}

/// Whether a listed provider other than the one being edited already has the form's
/// trimmed name.
fn name_taken(list: &Vec<EditableProvider>, form: &ProviderFormState) -> (r: bool)
    ensures
        r == duplicate_name(list@, *form),
{
    let trimmed = trimmed_string(form.name.as_str());
    let other = match &form.original_name {
        Some(o) => !same_text(o.as_str(), trimmed.as_str()),
        None => true,
    };
    let mut i: usize = 0;
    while i < list.len()
        invariant
            i <= list@.len(),
            trimmed@ == trim(form.name@),
            other == (match form.original_name { Some(o) => o@ != trim(form.name@), None => true }),
            forall|k: int| 0 <= k < i ==> !(#[trigger] list@[k].name@ == trim(form.name@) && other),
        decreases list@.len() - i,
    {
        if same_text(list[i].name.as_str(), trimmed.as_str()) && other {
            proof {
                assert(list@[i as int].name@ == trim(form.name@));
            }
            return true;
        }
        i = i + 1;
    }
    false
}

/// What submitting a form produces, when it may be submitted.
fn form_submission(form: &ProviderFormState, is_edit: bool) -> (r: ProvidersAction)
    ensures
        is_edit ==> (r matches ProvidersAction::SubmitEdit { original_name, provider, api_key } && submitted_provider(*form, provider)
            && api_key@ == trim(form.api_key@)
            && original_name@ == (match form.original_name { Some(o) => o@, None => trim(form.name@) })),
        !is_edit ==> (r matches ProvidersAction::SubmitAdd { provider, api_key } && submitted_provider(*form, provider)
            && api_key@ == trim(form.api_key@)),
{
    let provider = EditableProvider {
        name: trimmed_string(form.name.as_str()),
        endpoint: trimmed_string(form.endpoint.as_str()),
        backend_type: trimmed_string(form.backend_type.as_str()),
    };
    let api_key = trimmed_string(form.api_key.as_str());
    if is_edit {
        let original_name = match &form.original_name {
            Some(o) => o.clone(),
            None => provider.name.clone(),
        };
        ProvidersAction::SubmitEdit { original_name, provider, api_key }
    } else {
        ProvidersAction::SubmitAdd { provider, api_key }
    }
}

impl SettingsPopup {
    /// Activates the focused control of the edit form (`is_edit`) or the add form.
    fn activate_form_popup(&mut self, is_edit: bool) -> (r: ProvidersAction)
        ensures
            (if is_edit { old(self).edit_provider_popup } else { old(self).add_provider_popup }) matches Some(f)
                ==> form_activated(*old(self), f, is_edit, *final(self), r),
            (if is_edit { old(self).edit_provider_popup } else { old(self).add_provider_popup }) is None
                ==> *final(self) == *old(self) && r is NoAction,
    {
        let decision: Option<(u8, ProvidersAction)> = {
            let form_opt = if is_edit { &self.edit_provider_popup } else { &self.add_provider_popup };
            match form_opt {
                None => None,
                Some(form) => {
                    if form.focus == crate::settings::ProviderFormFocus::ProviderBackendType {
                        Some((0, ProvidersAction::NoAction))
                    } else if form.focus == crate::settings::ProviderFormFocus::CancelButton {
                        Some((1, ProvidersAction::NoAction))
                    } else if form.focus == crate::settings::ProviderFormFocus::SubmitButton && form.can_submit()
                        && !name_taken(&self.providers_tab_list, form) {
                        Some((1, form_submission(form, is_edit)))
                    } else {
                        Some((2, ProvidersAction::NoAction))
                    }
                },
            }
        };
        match decision {
            None => ProvidersAction::NoAction,
            Some((kind, action)) => {
                if kind == 0 {
                    if is_edit {
                        if let Some(form) = &mut self.edit_provider_popup {
                            form.dropdown_open = !form.dropdown_open;
                        }
                    } else {
                        if let Some(form) = &mut self.add_provider_popup {
                            form.dropdown_open = !form.dropdown_open;
                        }
                    }
                } else if kind == 1 {
                    if is_edit {
                        self.edit_provider_popup = None;
                    } else {
                        self.add_provider_popup = None;
                    }
                }
                action
            },
        }
    }
}

impl SettingsPopup {
    /// Activates the focused control of the topmost provider popup: the key popup, else the
    /// edit form, else the edit list (a name opens its edit form, a delete button asks to
    /// delete that provider), else the add form.
    pub fn activate_provider_popup(&mut self) -> (r: ProvidersAction)
        ensures
            old(self).preset_key_popup is Some ==> old(self).key_popup_activated(*final(self), r),
            old(self).preset_key_popup is None ==> (old(self).edit_provider_popup matches Some(f)
                ==> form_activated(*old(self), f, true, *final(self), r)),
            old(self).preset_key_popup is None && old(self).edit_provider_popup is None ==> (old(self).edit_providers_popup matches Some(popup)
                ==> (match popup.focus {
                    Some(crate::settings::EditProvidersFocus::ProviderName(i)) =>
                        r is NoAction && (if i < old(self).providers_tab_list@.len() {
                            *final(self) == (SettingsPopup { edit_provider_popup: final(self).edit_provider_popup, ..*old(self) })
                            && (final(self).edit_provider_popup matches Some(f) && edit_form_of(f, old(self).providers_tab_list@[i as int],
                                saved_key(old(self).saved_keys@, old(self).providers_tab_list@[i as int].name@)))
                        } else {
                            *final(self) == *old(self)
                        }),
                    Some(crate::settings::EditProvidersFocus::DeleteButton(i)) =>
                        *final(self) == *old(self) && (if i < old(self).providers_tab_list@.len() {
                            r matches ProvidersAction::DeleteProvider(name) && name == old(self).providers_tab_list@[i as int].name
                        } else {
                            r is NoAction
                        }),
                    None => *final(self) == *old(self) && r is NoAction,
                })),
            old(self).preset_key_popup is None && old(self).edit_provider_popup is None && old(self).edit_providers_popup is None
                ==> (old(self).add_provider_popup matches Some(f) ==> form_activated(*old(self), f, false, *final(self), r)),
            old(self).preset_key_popup is None && old(self).edit_provider_popup is None && old(self).edit_providers_popup is None
                && old(self).add_provider_popup is None ==> *final(self) == *old(self) && r is NoAction,
    {
        if self.preset_key_popup.is_some() {
            return self.activate_preset_key_popup();
        }
        if self.edit_provider_popup.is_some() {
            return self.activate_form_popup(true);
        }
        if self.edit_providers_popup.is_some() {
            let focus = match &self.edit_providers_popup {
                Some(popup) => popup.focus,
                None => None,
            };
            return match focus {
                Some(crate::settings::EditProvidersFocus::ProviderName(idx)) => {
                    self.open_edit_provider_popup(idx);
                    ProvidersAction::NoAction
                },
                Some(crate::settings::EditProvidersFocus::DeleteButton(idx)) => {
                    if idx < self.providers_tab_list.len() {
                        ProvidersAction::DeleteProvider(self.providers_tab_list[idx].name.clone())
                    } else {
                        ProvidersAction::NoAction
                    }
                },
                None => ProvidersAction::NoAction,
            };
        }
        if self.add_provider_popup.is_some() {
            return self.activate_form_popup(false);
        }
        ProvidersAction::NoAction
    }

    /// Whether `new` and `r` are what activating the key popup of `self` gives.
    pub open spec fn key_popup_activated(&self, new: SettingsPopup, r: ProvidersAction) -> bool {
        match self.preset_key_popup {
            None => new == *self && r is NoAction,
            Some(p) =>
                if self.providers_tab_focus == ProvidersTabFocus::PopupSaveButton && trim(p.api_key@).len() > 0 {
                    &&& new == (SettingsPopup { preset_key_popup: None, ..*self })
                    &&& r matches ProvidersAction::SavePresetKey { provider_name, api_key }
                        && provider_name == p.provider_name && api_key@ == trim(p.api_key@)
                } else if self.providers_tab_focus == ProvidersTabFocus::PopupCancelButton {
                    new == (SettingsPopup { preset_key_popup: None, ..*self }) && r is NoAction
                } else {
                    new == *self && r is NoAction
                },
        }
    }

    /// The popup after activating the general tab's focused row: a dropdown row opens or
    /// closes its dropdown, a switch flips, the text rows do nothing.
    pub open spec fn general_activated(&self) -> SettingsPopup {
        let f = self.general_focus;
        SettingsPopup {
            general_dropdown_open: match focus_dropdown(f) {
                Some(d) => if self.general_dropdown_open == Some(d) { None } else { Some(d) },
                None => self.general_dropdown_open,
            },
            show_selector: if f == GeneralFocus::ShowSelector { !self.show_selector } else { self.show_selector },
            show_chat_scrollbar: if f == GeneralFocus::ShowChatScrollbar { !self.show_chat_scrollbar } else { self.show_chat_scrollbar },
            collapse_thinking: if f == GeneralFocus::CollapseThinking { !self.collapse_thinking } else { self.collapse_thinking },
            kitty_enhanced_text: if f == GeneralFocus::KittyEnhancedText { !self.kitty_enhanced_text } else { self.kitty_enhanced_text },
            web_search_enabled: if f == GeneralFocus::WebSearchEnabled { !self.web_search_enabled } else { self.web_search_enabled },
            quit_confirmation: if f == GeneralFocus::QuitConfirmation { !self.quit_confirmation } else { self.quit_confirmation },
            ..*self
        }
    }

    fn activate_general(&mut self)
        ensures
            *final(self) == old(self).general_activated(),
    {
        let f = self.general_focus;
        let open = match f.dropdown() {
            Some(d) => if self.general_dropdown_open == Some(d) { None } else { Some(d) },
            None => self.general_dropdown_open,
        };
        let show_selector = if f == GeneralFocus::ShowSelector { !self.show_selector } else { self.show_selector };
        let show_chat_scrollbar = if f == GeneralFocus::ShowChatScrollbar { !self.show_chat_scrollbar } else { self.show_chat_scrollbar };
        let collapse_thinking = if f == GeneralFocus::CollapseThinking { !self.collapse_thinking } else { self.collapse_thinking };
        let kitty_enhanced_text = if f == GeneralFocus::KittyEnhancedText { !self.kitty_enhanced_text } else { self.kitty_enhanced_text };
        let web_search_enabled = if f == GeneralFocus::WebSearchEnabled { !self.web_search_enabled } else { self.web_search_enabled };
        let quit_confirmation = if f == GeneralFocus::QuitConfirmation { !self.quit_confirmation } else { self.quit_confirmation };
        self.general_dropdown_open = open;
        self.show_selector = show_selector;
        self.show_chat_scrollbar = show_chat_scrollbar;
        self.collapse_thinking = collapse_thinking;
        self.kitty_enhanced_text = kitty_enhanced_text;
        self.web_search_enabled = web_search_enabled;
        self.quit_confirmation = quit_confirmation;
    }

    /// Whether `new` is the popup after activating the local tab's focused row: the
    /// enabled switch flips, the server-type row steps to the next kind.
    pub open spec fn local_activated(&self, new: SettingsPopup) -> bool {
        &&& new == (SettingsPopup { local_enabled: new.local_enabled, local_server_type: new.local_server_type, ..*self })
        &&& new.local_enabled == (if self.local_focus == LocalFocus::Enabled { !self.local_enabled } else { self.local_enabled })
        &&& if self.local_focus == LocalFocus::ServerType {
            crate::settings::local_server_type_index(new.local_server_type) == (crate::settings::local_server_type_index(self.local_server_type) + 1) % 5
        } else {
            new.local_server_type == self.local_server_type
        }
    }

    fn activate_local(&mut self)
        ensures
            old(self).local_activated(*final(self)),
    {
        let enabled = if self.local_focus == LocalFocus::Enabled { !self.local_enabled } else { self.local_enabled };
        let server = if self.local_focus == LocalFocus::ServerType {
            crate::settings::next_local_server_type(self.local_server_type)
        } else {
            self.local_server_type
        };
        self.local_enabled = enabled;
        self.local_server_type = server;
    }

    fn toggle_mcp_server(&mut self)
        ensures
            old(self).mcp_focus < old(self).mcp_servers@.len() ==> {
                let s = old(self).mcp_servers@[old(self).mcp_focus as int];
                &&& *final(self) == (SettingsPopup { mcp_servers: final(self).mcp_servers, ..*old(self) })
                &&& final(self).mcp_servers@ == old(self).mcp_servers@.update(old(self).mcp_focus as int,
                    McpServerConfig { name: s.name, enabled: !s.enabled })
            },
            old(self).mcp_focus >= old(self).mcp_servers@.len() ==> *final(self) == *old(self),
    {
        let i = self.mcp_focus;
        if i < self.mcp_servers.len() {
            let s = self.mcp_servers.remove(i);
            self.mcp_servers.insert(i, McpServerConfig { name: s.name, enabled: !s.enabled });
            proof {
                assert(self.mcp_servers@ =~= old(self).mcp_servers@.update(i as int,
                    McpServerConfig { name: old(self).mcp_servers@[i as int].name, enabled: !old(self).mcp_servers@[i as int].enabled }));
            }
        }
    }

    /// Toggles the name of entry `idx` of `list` among the disabled providers.
    fn toggle_disabled_entry(&mut self, list: &Vec<ProviderEntry>, idx: usize)
        requires
            old(self).wf(),
        ensures
            final(self).wf(),
            disabled_toggled(*old(self), *final(self), entries_view(list@), idx as nat),
    {
        let set = self.disabled_providers_toggled(list, idx);
        self.disabled_providers = set;
    }

    fn disabled_providers_toggled(&self, list: &Vec<ProviderEntry>, idx: usize) -> (r: Vec<String>)
        requires
            self.wf(),
        ensures
            no_repeats(names_view(r@)),
            names_set(r@) == (if idx < list@.len() {
                toggled(names_set(self.disabled_providers@), entries_view(list@)[idx as int].0)
            } else {
                names_set(self.disabled_providers@)
            }),
    {
        let mut set = copy_names(&self.disabled_providers);
        if idx < list.len() {
            set_toggle(&mut set, list[idx].0.as_str());
        }
        set
    }

    /// The popup with `dropdown` opened scrolled to the top, or closed when it was open.
    pub open spec fn providers_dropdown_toggled(&self, dropdown: ProvidersDropdown) -> SettingsPopup {
        if self.providers_dropdown_open == Some(dropdown) {
            SettingsPopup { providers_dropdown_open: None, ..*self }
        } else {
            SettingsPopup { providers_dropdown_open: Some(dropdown), dropdown_scroll_offset: 0, ..*self }
        }
    }

    /// Whether `new` and `r` are what activating the providers tab's focused row gives.
    pub open spec fn providers_row_activated(&self, new: SettingsPopup, r: ProvidersAction) -> bool {
        let db = self.db_providers@;
        match self.providers_tab_focus {
            ProvidersTabFocus::UseEnvToggle => new == *self && r is ToggleUseEnv,
            ProvidersTabFocus::AddProviderButton =>
                new == (SettingsPopup { add_provider_popup: new.add_provider_popup, ..*self })
                && (new.add_provider_popup matches Some(f) && fresh_add_form(f)) && r is NoAction,
            ProvidersTabFocus::EditProvidersButton =>
                new == (SettingsPopup {
                    edit_providers_popup: Some(EditProvidersPopupState {
                        focus: if self.providers_tab_list@.len() > 0 { Some(crate::settings::EditProvidersFocus::ProviderName(0)) } else { None },
                    }),
                    ..*self
                }) && r is NoAction,
            ProvidersTabFocus::ReloadModelsButton => new == *self && r is RefreshModels,
            ProvidersTabFocus::SmallProvider => new == self.providers_dropdown_toggled(ProvidersDropdown::SmallProvider) && r is NoAction,
            ProvidersTabFocus::SmallModel => new == self.providers_dropdown_toggled(ProvidersDropdown::SmallModel) && r is NoAction,
            ProvidersTabFocus::DefaultProvider => new == self.providers_dropdown_toggled(ProvidersDropdown::DefaultProvider) && r is NoAction,
            ProvidersTabFocus::DefaultModel => new == self.providers_dropdown_toggled(ProvidersDropdown::DefaultModel) && r is NoAction,
            ProvidersTabFocus::SavedKeyList(i) => disabled_toggled(*self, new, custom_key_entries(db), i as nat) && r is NoAction,
            ProvidersTabFocus::OAuthProvider(i) => disabled_toggled(*self, new, oauth_entries(db), i as nat) && r is NoAction,
            ProvidersTabFocus::PresetProvider(i) => disabled_toggled(*self, new, preset_entries(db), i as nat) && r is NoAction,
            _ => new == *self && r is NoAction,
        }
    }

    fn activate_providers_row(&mut self) -> (r: ProvidersAction)
        requires
            old(self).wf(),
        ensures
            final(self).wf(),
            old(self).providers_row_activated(*final(self), r),
    {
        match self.providers_tab_focus {
            ProvidersTabFocus::UseEnvToggle => ProvidersAction::ToggleUseEnv,
            ProvidersTabFocus::ReloadModelsButton => ProvidersAction::RefreshModels,
            ProvidersTabFocus::AddProviderButton => {
                self.open_add_provider_popup();
                ProvidersAction::NoAction
            },
            ProvidersTabFocus::EditProvidersButton => {
                self.open_edit_providers_popup();
                ProvidersAction::NoAction
            },
            ProvidersTabFocus::SmallProvider | ProvidersTabFocus::SmallModel
            | ProvidersTabFocus::DefaultProvider | ProvidersTabFocus::DefaultModel => {
                self.toggle_focused_dropdown();
                ProvidersAction::NoAction
            },
            ProvidersTabFocus::SavedKeyList(_) | ProvidersTabFocus::OAuthProvider(_)
            | ProvidersTabFocus::PresetProvider(_) => {
                self.toggle_focused_listed_provider();
                ProvidersAction::NoAction
            },
            _ => ProvidersAction::NoAction,
        }
    }

    fn toggle_focused_dropdown(&mut self)
        requires
            old(self).providers_tab_focus == ProvidersTabFocus::SmallProvider
                || old(self).providers_tab_focus == ProvidersTabFocus::SmallModel
                || old(self).providers_tab_focus == ProvidersTabFocus::DefaultProvider
                || old(self).providers_tab_focus == ProvidersTabFocus::DefaultModel,
        ensures
            *final(self) == old(self).providers_dropdown_toggled(match old(self).providers_tab_focus {
                ProvidersTabFocus::SmallProvider => ProvidersDropdown::SmallProvider,
                ProvidersTabFocus::SmallModel => ProvidersDropdown::SmallModel,
                ProvidersTabFocus::DefaultProvider => ProvidersDropdown::DefaultProvider,
                _ => ProvidersDropdown::DefaultModel,
            }),
    {
        let dropdown = match self.providers_tab_focus {
            ProvidersTabFocus::SmallProvider => ProvidersDropdown::SmallProvider,
            ProvidersTabFocus::SmallModel => ProvidersDropdown::SmallModel,
            ProvidersTabFocus::DefaultProvider => ProvidersDropdown::DefaultProvider,
            _ => ProvidersDropdown::DefaultModel,
        };
        self.toggle_providers_dropdown(dropdown);
    }

    fn toggle_focused_listed_provider(&mut self)
        requires
            old(self).wf(),
        ensures
            final(self).wf(),
            old(self).providers_tab_focus matches ProvidersTabFocus::SavedKeyList(i)
                ==> disabled_toggled(*old(self), *final(self), custom_key_entries(old(self).db_providers@), i as nat),
            old(self).providers_tab_focus matches ProvidersTabFocus::OAuthProvider(i)
                ==> disabled_toggled(*old(self), *final(self), oauth_entries(old(self).db_providers@), i as nat),
            old(self).providers_tab_focus matches ProvidersTabFocus::PresetProvider(i)
                ==> disabled_toggled(*old(self), *final(self), preset_entries(old(self).db_providers@), i as nat),
    {
        match self.providers_tab_focus {
            ProvidersTabFocus::SavedKeyList(i) => {
                let list = self.custom_key_providers();
                self.toggle_disabled_entry(&list, i);
            },
            ProvidersTabFocus::OAuthProvider(i) => {
                let list = self.oauth_providers();
                self.toggle_disabled_entry(&list, i);
            },
            ProvidersTabFocus::PresetProvider(i) => {
                let list = self.preset_api_key_providers();
                self.toggle_disabled_entry(&list, i);
            },
            _ => {},
        }
    }

    /// Activates the focused row of the active tab (enter or space). On the providers tab's
    /// use-environment row it answers `ToggleUseEnv`; the caller then gathers the keys from
    /// the environment and hands them to `grab_keys_from_env`.
    pub fn activate_focus(&mut self) -> (r: ProvidersAction)
        requires
            old(self).wf(),
        ensures
            final(self).wf(),
            old(self).active_tab == SettingsTab::General ==> *final(self) == old(self).general_activated() && r is NoAction,
            old(self).active_tab == SettingsTab::Providers ==> old(self).providers_row_activated(*final(self), r),
            old(self).active_tab == SettingsTab::Models ==> old(self).models_activated(*final(self)) && r is NoAction,
            old(self).active_tab == SettingsTab::Local ==> old(self).local_activated(*final(self)) && r is NoAction,
            old(self).active_tab == SettingsTab::Mcp ==> {
                &&& *final(self) == (SettingsPopup { mcp_servers: final(self).mcp_servers, ..*old(self) })
                &&& final(self).mcp_servers@ == (if old(self).mcp_focus < old(self).mcp_servers@.len() {
                    old(self).mcp_servers@.update(old(self).mcp_focus as int, McpServerConfig {
                        name: old(self).mcp_servers@[old(self).mcp_focus as int].name,
                        enabled: !old(self).mcp_servers@[old(self).mcp_focus as int].enabled,
                    })
                } else {
                    old(self).mcp_servers@
                })
                &&& r is NoAction
            },
            old(self).active_tab == SettingsTab::Keybindings ==> *final(self) == *old(self) && r is NoAction,
    {
        match self.active_tab {
            SettingsTab::General => {
                self.activate_general();
                ProvidersAction::NoAction
            },
            SettingsTab::Providers => self.activate_providers_row(),
            SettingsTab::Models => {
                self.activate_models_focus();
                ProvidersAction::NoAction
            },
            SettingsTab::Local => {
                self.activate_local();
                ProvidersAction::NoAction
            },
            SettingsTab::Mcp => {
                self.toggle_mcp_server();
                ProvidersAction::NoAction
            },
            SettingsTab::Keybindings => ProvidersAction::NoAction,
        }
    }

    /// Whether `new` and `r` are what a click at `pos` in the providers tab gives: on the
    /// key popup's key field the field gets the focus, on save the save button gets it and
    /// is activated, on cancel the popup closes. Clicks elsewhere do nothing.
    pub open spec fn providers_clicked(&self, pos: crate::geometry::Position, new: SettingsPopup, r: ProvidersAction) -> bool {
        let areas = self.providers_tab_hit_areas;
        if hit(areas.popup_api_key, pos) {
            new == (SettingsPopup { providers_tab_focus: ProvidersTabFocus::PopupApiKey, ..*self }) && r is NoAction
        } else if hit(areas.popup_save, pos) {
            (SettingsPopup { providers_tab_focus: ProvidersTabFocus::PopupSaveButton, ..*self }).key_popup_activated(new, r)
        } else if hit(areas.popup_cancel, pos) {
            new == (SettingsPopup { providers_tab_focus: ProvidersTabFocus::PopupCancelButton, preset_key_popup: None, ..*self })
                && r is NoAction
        } else {
            new == *self && r is NoAction
        }
    }

    fn click_save(&mut self) -> (r: ProvidersAction)
        ensures
            (SettingsPopup { providers_tab_focus: ProvidersTabFocus::PopupSaveButton, ..*old(self) }).key_popup_activated(*final(self), r),
    {
        self.providers_tab_focus = ProvidersTabFocus::PopupSaveButton;
        self.activate_preset_key_popup()
    }

    /// A click in the providers tab at `pos`, as `providers_clicked` describes.
    pub fn handle_providers_click(&mut self, pos: crate::geometry::Position) -> (r: ProvidersAction)
        ensures
            old(self).providers_clicked(pos, *final(self), r),
    {
        let areas = self.providers_tab_hit_areas;
        if hit_exec(areas.popup_api_key, pos) {
            self.providers_tab_focus = ProvidersTabFocus::PopupApiKey;
            ProvidersAction::NoAction
        } else if hit_exec(areas.popup_save, pos) {
            self.click_save()
        } else if hit_exec(areas.popup_cancel, pos) {
            self.providers_tab_focus = ProvidersTabFocus::PopupCancelButton;
            self.preset_key_popup = None;
            ProvidersAction::NoAction
        } else {
            ProvidersAction::NoAction
        }
    }
}

} // verus!

verus! {

/// Shift-tab undoes tab on the general, local, MCP and providers tabs (with no provider
/// popup or dropdown open, from one of the providers tab's main rows): the focus comes back,
/// and the only other change is that the general tab's dropdown is closed.
pub proof fn law_prev_focus_undoes_next_focus(p: SettingsPopup)
    requires
        p.active_tab == SettingsTab::General || p.active_tab == SettingsTab::Local
            || (p.active_tab == SettingsTab::Mcp && p.mcp_focus < p.mcp_servers@.len())
            || (p.active_tab == SettingsTab::Providers && p.add_provider_popup is None && p.edit_providers_popup is None
                && p.providers_dropdown_open is None && providers_focus_order().contains(p.providers_tab_focus)),
    ensures
        p.focus_stepped(true).focus_stepped(false) == (SettingsPopup { general_dropdown_open: if p.active_tab == SettingsTab::General { None } else { p.general_dropdown_open }, ..p }),
{
    let q = p.focus_stepped(true);
    if p.active_tab == SettingsTab::General {
        assert(general_focus_prev(general_focus_next(p.general_focus)) == p.general_focus);
        assert(q.focus_stepped(false) == (SettingsPopup { general_dropdown_open: if p.active_tab == SettingsTab::General { None } else { p.general_dropdown_open }, ..p }));
    } else if p.active_tab == SettingsTab::Local {
        assert(local_focus_prev(local_focus_next(p.local_focus)) == p.local_focus);
        assert(q.focus_stepped(false) == (SettingsPopup { general_dropdown_open: if p.active_tab == SettingsTab::General { None } else { p.general_dropdown_open }, ..p }));
    } else if p.active_tab == SettingsTab::Mcp {
        let len = p.mcp_servers@.len() as int;
        assert(p.mcp_servers.len() == p.mcp_servers@.len());
        if p.mcp_focus + 1 < len {
            assert((p.mcp_focus + 1) % len == p.mcp_focus + 1) by (nonlinear_arith)
                requires 0 <= p.mcp_focus + 1 < len;
        } else {
            assert((p.mcp_focus + 1) % len == 0) by (nonlinear_arith)
                requires p.mcp_focus + 1 == len, len > 0;
        }
        assert(q.focus_stepped(false) == (SettingsPopup { general_dropdown_open: if p.active_tab == SettingsTab::General { None } else { p.general_dropdown_open }, ..p }));
    } else {
        let order = providers_focus_order();
        let i = order.index_of(p.providers_tab_focus);
        order.index_of_first_ensures(p.providers_tab_focus);
        assert(order[0] == ProvidersTabFocus::DefaultProvider);
        assert(order[1] == ProvidersTabFocus::DefaultModel);
        assert(order[2] == ProvidersTabFocus::UseEnvToggle);
        assert(order[3] == ProvidersTabFocus::AddProviderButton);
        assert(order[4] == ProvidersTabFocus::EditProvidersButton);
        assert(order[5] == ProvidersTabFocus::ReloadModelsButton);
        let n = order[(i + 1) % 6];
        assert(order.contains(n));
        let j = order.index_of(n);
        order.index_of_first_ensures(n);
        assert(j == (i + 1) % 6);
        assert(order[i] == p.providers_tab_focus);
        assert(providers_focus_moved(p.providers_tab_focus, true) == n);
        if i == 5 {
            assert(providers_focus_moved(n, false) == order[5]);
        } else {
            assert(j == i + 1);
            assert(providers_focus_moved(n, false) == order[i]);
        }
        assert(q == (SettingsPopup { providers_tab_focus: n, ..p }));
        assert(q.focus_stepped(false) == (SettingsPopup { providers_tab_focus: providers_focus_moved(n, false), ..q }));
    }
}

/// The enabled provider names are in order, and hold each enabled provider's name as
/// often as it is stored.
pub proof fn law_enabled_names_sorted(p: SettingsPopup)
    ensures
        crate::name_order::names_sorted(p.enabled_names()),
        p.enabled_names().to_multiset()
            =~= entry_names(enabled_entries(p.db_providers@, names_set(p.disabled_providers@))).to_multiset(),
{
    crate::name_order::law_sorted_by_name_sorts(entry_names(enabled_entries(p.db_providers@, names_set(p.disabled_providers@))));
}

} // verus!

verus! {

/// The widths of the tab titles: General, Keybindings, Providers, Models, Local, MCP.
pub open spec fn tab_title_widths() -> Seq<u16> {
    seq![7, 11, 9, 6, 5, 3]
}

/// How far right of the first tab title tab `k` starts: the widths before it, each
/// followed by one column of divider.
pub open spec fn tab_offset(k: nat) -> nat
    decreases k,
{
    if k == 0 { 0 } else { tab_offset((k - 1) as nat) + tab_title_widths()[k - 1] as nat + 1 }
}

/// The clickable area of tab `k` in a popup drawn over `area`: on the tab row inside the
/// border, three rows high, as wide as its title.
pub open spec fn tab_area(area: Rect, k: nat) -> Rect {
    let inner = crate::geometry::rect_new((area.x + 1) as u16, (area.y + 1) as u16, (area.width - 2) as u16, (area.height - 2) as u16);
    let row = crate::geometry::rect_new(inner.x, inner.y, inner.width, 3);
    crate::geometry::rect_new((row.x + tab_offset(k)) as u16, row.y, tab_title_widths()[k as int], row.height)
}

impl SettingsPopup {
    /// Where the settings popup sits in `area`: it asks the layout solver for 65% of its
    /// width and 75% of its height in the middle; the result lies within the area.
    pub fn popup_area(area: Rect) -> (r: Rect)
        ensures
            crate::layout::rect_within(crate::geometry::rect_new(area.x, area.y, area.width, area.height), r),
    {
        crate::layout::centered_rect(65, 75, area)
    }

    /// The clickable areas of the six tab titles of a popup drawn over `area`, in order.
    pub fn tab_hit_areas(&self, area: Rect) -> (r: Vec<Rect>)
        requires
            area.x <= u16::MAX - 48,
            area.y < u16::MAX,
            area.width >= 2,
            area.height >= 2,
        ensures
            r@.len() == 6,
            forall|k: int| 0 <= k < 6 ==> #[trigger] r@[k] == tab_area(area, k as nat),
    {
        let inner = Rect::new(area.x + 1, area.y + 1, area.width - 2, area.height - 2);
        let row = Rect::new(inner.x, inner.y, inner.width, 3);
        let widths: [u16; 6] = [7, 11, 9, 6, 5, 3];
        let mut areas: Vec<Rect> = Vec::new();
        let mut current_x: u16 = row.x;
        let mut k: usize = 0;
        proof {
            assert(widths@ == tab_title_widths());
        }
        while k < 6
            invariant
                k <= 6,
                widths@ == tab_title_widths(),
                inner == crate::geometry::rect_new((area.x + 1) as u16, (area.y + 1) as u16, (area.width - 2) as u16, (area.height - 2) as u16),
                row == crate::geometry::rect_new(inner.x, inner.y, inner.width, 3),
                row.x == area.x + 1,
                area.x <= u16::MAX - 48,
                current_x == row.x + tab_offset(k as nat),
                areas@.len() == k,
                forall|j: int| 0 <= j < k ==> #[trigger] areas@[j] == tab_area(area, j as nat),
            decreases 6 - k,
        {
            proof {
                reveal_with_fuel(tab_offset, 7);
                assert(tab_offset(k as nat + 1) <= 47);
            }
            let width = widths[k];
            areas.push(Rect::new(current_x, row.y, width, row.height));
            current_x = current_x + width + 1;
            k = k + 1;
        }
        areas
    }
}

} // verus!

verus! {

impl SettingsPopup {
    /// Whether `new` is this popup after opening the edit form for provider `idx`: past the
    /// end of the list nothing changes; otherwise the form holds that provider and its saved
    /// key, and nothing else changes.
    pub open spec fn edit_provider_opened(&self, idx: usize, new: SettingsPopup) -> bool {
        &&& idx >= self.providers_tab_list@.len() ==> new == *self
        &&& idx < self.providers_tab_list@.len() ==> {
            &&& new == (SettingsPopup { edit_provider_popup: new.edit_provider_popup, ..*self })
            &&& new.edit_provider_popup matches Some(f) && edit_form_of(f, self.providers_tab_list@[idx as int],
                saved_key(self.saved_keys@, self.providers_tab_list@[idx as int].name@))
        }
    }
}

/// The areas of a provider form's controls and of its backend dropdown's items, as last
/// drawn.
#[derive(Debug, Clone)]
pub struct ProviderFormHitAreas {
    pub name: Option<Rect>,
    pub endpoint: Option<Rect>,
    pub backend_type: Option<Rect>,
    pub api_key: Option<Rect>,
    pub submit_button: Option<Rect>,
    pub cancel_button: Option<Rect>,
    pub dropdown_items: Vec<Rect>,
}

/// The areas of the edit-providers popup's rows, as last drawn: each provider's name and its
/// delete button.
#[derive(Debug, Clone)]
pub struct EditProvidersHitAreas {
    pub provider_rows: Vec<(Rect, Rect)>,
}

/// What a click on a provider form asks for: activating the focused control, or nothing
/// more.
#[derive(Debug, Clone, Copy, PartialEq, Eq, Structural)]
pub enum FormClickAction {
    Activate,
    Noop,
}

/// The control of a provider form a click lands on.
pub enum FormClickTarget {
    Item(nat),
    Name,
    Endpoint,
    Backend,
    ApiKey,
    Submit,
    Cancel,
    Miss,
}

/// The first of `rects[i..]` containing `pos`.
pub open spec fn first_hit(rects: Seq<Rect>, pos: crate::geometry::Position, i: nat) -> Option<nat>
    decreases rects.len() - i,
{
    if i >= rects.len() {
        None
    } else if crate::geometry::rect_contains(rects[i as int], pos) {
        Some(i)
    } else {
        first_hit(rects, pos, i + 1)
    }
}

/// Where a click at `pos` lands on form `f`: an item of the open dropdown first, then the
/// name, endpoint, backend, key, submit and cancel controls in turn.
pub open spec fn form_click_target(f: ProviderFormState, areas: ProviderFormHitAreas, pos: crate::geometry::Position) -> FormClickTarget {
    let item = first_hit(areas.dropdown_items@, pos, 0);
    if f.dropdown_open && item is Some {
        FormClickTarget::Item(item.unwrap())
    } else if hit(areas.name, pos) {
        FormClickTarget::Name
    } else if hit(areas.endpoint, pos) {
        FormClickTarget::Endpoint
    } else if hit(areas.backend_type, pos) {
        FormClickTarget::Backend
    } else if hit(areas.api_key, pos) {
        FormClickTarget::ApiKey
    } else if hit(areas.submit_button, pos) {
        FormClickTarget::Submit
    } else if hit(areas.cancel_button, pos) {
        FormClickTarget::Cancel
    } else {
        FormClickTarget::Miss
    }
}

/// Whether `g` is form `f` after a click on `t`: an item picks that backend and closes the
/// dropdown with the focus on the backend; a field takes the focus and closes the dropdown;
/// the backend control takes the focus and opens or closes the dropdown; submit and cancel
/// take the focus; a miss changes nothing.
pub open spec fn form_clicked(f: ProviderFormState, t: FormClickTarget, g: ProviderFormState) -> bool {
    match t {
        FormClickTarget::Item(i) => g.backend_type@ == crate::settings::backend_type_options()[i as int]
            && g == (ProviderFormState { backend_type: g.backend_type, dropdown_open: false, focus: crate::settings::ProviderFormFocus::ProviderBackendType, ..f }),
        FormClickTarget::Name => g == (ProviderFormState { focus: crate::settings::ProviderFormFocus::ProviderName, dropdown_open: false, ..f }),
        FormClickTarget::Endpoint => g == (ProviderFormState { focus: crate::settings::ProviderFormFocus::ProviderEndpoint, dropdown_open: false, ..f }),
        FormClickTarget::Backend => g == (ProviderFormState { focus: crate::settings::ProviderFormFocus::ProviderBackendType, dropdown_open: !f.dropdown_open, ..f }),
        FormClickTarget::ApiKey => g == (ProviderFormState { focus: crate::settings::ProviderFormFocus::ProviderApiKey, dropdown_open: false, ..f }),
        FormClickTarget::Submit => g == (ProviderFormState { focus: crate::settings::ProviderFormFocus::SubmitButton, ..f }),
        FormClickTarget::Cancel => g == (ProviderFormState { focus: crate::settings::ProviderFormFocus::CancelButton, ..f }),
        FormClickTarget::Miss => g == f,
    }
}

/// What a click on `t` asks for: activation for submit and cancel, nothing more for the
/// other controls, and no answer for a miss.
pub open spec fn form_click_action(t: FormClickTarget) -> Option<FormClickAction> {
    match t {
        FormClickTarget::Submit | FormClickTarget::Cancel => Some(FormClickAction::Activate),
        FormClickTarget::Miss => None,
        _ => Some(FormClickAction::Noop),
    }
}

proof fn lemma_first_hit_in_range(rects: Seq<Rect>, pos: crate::geometry::Position, i: nat)
    ensures
        first_hit(rects, pos, i) matches Some(j) ==> i <= j < rects.len(),
    decreases rects.len() - i,
{
    if i < rects.len() && !crate::geometry::rect_contains(rects[i as int], pos) {
        lemma_first_hit_in_range(rects, pos, i + 1);
    }
}

/// The first dropdown item containing `pos`.
fn first_hit_exec(rects: &Vec<Rect>, pos: crate::geometry::Position) -> (r: Option<usize>)
    ensures
        match first_hit(rects@, pos, 0) {
            Some(i) => r == Some(i as usize) && i < rects@.len(),
            None => r is None,
        },
{
    proof {
        lemma_first_hit_in_range(rects@, pos, 0);
    }
    let mut i: usize = 0;
    while i < rects.len()
        invariant
            i <= rects.len(),
            first_hit(rects@, pos, i as nat) == first_hit(rects@, pos, 0),
        decreases rects.len() - i,
    {
        if rects[i].contains(pos) {
            return Some(i);
        }
        i = i + 1;
    }
    None
}

/// A click at `pos` on form `form` (see `form_click_target`, `form_clicked` and
/// `form_click_action`); the dropdown shows no more items than there are backends.
pub fn handle_form_click(form: &mut ProviderFormState, areas: &ProviderFormHitAreas, pos: crate::geometry::Position) -> (r: Option<FormClickAction>)
    requires
        areas.dropdown_items@.len() <= crate::settings::backend_type_options().len(),
    ensures
        form_clicked(*old(form), form_click_target(*old(form), *areas, pos), *final(form)),
        r == form_click_action(form_click_target(*old(form), *areas, pos)),
{
    if form.dropdown_open {
        match first_hit_exec(&areas.dropdown_items, pos) {
            Some(idx) => {
                assert(crate::settings::backend_type_options().len() == 6);
                form.backend_type = crate::settings::backend_type_option(idx);
                form.dropdown_open = false;
                form.focus = crate::settings::ProviderFormFocus::ProviderBackendType;
                return Some(FormClickAction::Noop);
            },
            None => {},
        }
    }
    if hit_exec(areas.name, pos) {
        form.focus = crate::settings::ProviderFormFocus::ProviderName;
        form.dropdown_open = false;
        Some(FormClickAction::Noop)
    } else if hit_exec(areas.endpoint, pos) {
        form.focus = crate::settings::ProviderFormFocus::ProviderEndpoint;
        form.dropdown_open = false;
        Some(FormClickAction::Noop)
    } else if hit_exec(areas.backend_type, pos) {
        form.focus = crate::settings::ProviderFormFocus::ProviderBackendType;
        form.dropdown_open = !form.dropdown_open;
        Some(FormClickAction::Noop)
    } else if hit_exec(areas.api_key, pos) {
        form.focus = crate::settings::ProviderFormFocus::ProviderApiKey;
        form.dropdown_open = false;
        Some(FormClickAction::Noop)
    } else if hit_exec(areas.submit_button, pos) {
        form.focus = crate::settings::ProviderFormFocus::SubmitButton;
        Some(FormClickAction::Activate)
    } else if hit_exec(areas.cancel_button, pos) {
        form.focus = crate::settings::ProviderFormFocus::CancelButton;
        Some(FormClickAction::Activate)
    } else {
        None
    }
}

/// Where a click lands on the edit-providers popup's rows.
pub enum RowClick {
    Miss,
    Name(nat),
    Delete(nat),
}

/// The focus and what was hit after a click at `pos` on rows `rows[i..]` of a list of `len`
/// providers, starting from `focus`: the first row whose name contains `pos` takes the focus
/// and is hit; a delete button containing `pos` takes the focus, and is hit when its row is
/// one of the providers (else the search goes on).
pub open spec fn edit_rows_click(
    rows: Seq<(Rect, Rect)>,
    i: nat,
    pos: crate::geometry::Position,
    len: nat,
    focus: Option<crate::settings::EditProvidersFocus>,
) -> (Option<crate::settings::EditProvidersFocus>, RowClick)
    decreases rows.len() - i,
{
    if i >= rows.len() {
        (focus, RowClick::Miss)
    } else if crate::geometry::rect_contains(rows[i as int].0, pos) {
        (Some(crate::settings::EditProvidersFocus::ProviderName(i as usize)), RowClick::Name(i))
    } else if crate::geometry::rect_contains(rows[i as int].1, pos) {
        if i < len {
            (Some(crate::settings::EditProvidersFocus::DeleteButton(i as usize)), RowClick::Delete(i))
        } else {
            edit_rows_click(rows, i + 1, pos, len, Some(crate::settings::EditProvidersFocus::DeleteButton(i as usize)))
        }
    } else {
        edit_rows_click(rows, i + 1, pos, len, focus)
    }
}

proof fn lemma_edit_rows_click_in_range(
    rows: Seq<(Rect, Rect)>,
    i: nat,
    pos: crate::geometry::Position,
    len: nat,
    focus: Option<crate::settings::EditProvidersFocus>,
)
    ensures
        edit_rows_click(rows, i, pos, len, focus).1 matches RowClick::Name(j) ==> i <= j < rows.len(),
        edit_rows_click(rows, i, pos, len, focus).1 matches RowClick::Delete(j) ==> i <= j < rows.len() && j < len,
    decreases rows.len() - i,
{
    if i < rows.len() && !crate::geometry::rect_contains(rows[i as int].0, pos) {
        if crate::geometry::rect_contains(rows[i as int].1, pos) {
            if i >= len {
                lemma_edit_rows_click_in_range(rows, i + 1, pos, len, Some(crate::settings::EditProvidersFocus::DeleteButton(i as usize)));
            }
        } else {
            lemma_edit_rows_click_in_range(rows, i + 1, pos, len, focus);
        }
    }
}

/// A click on the edit-providers popup's rows (see `edit_rows_click`): the new focus, and
/// the row hit with whether it was its name.
fn click_edit_rows(
    rows: &Vec<(Rect, Rect)>,
    pos: crate::geometry::Position,
    len: usize,
    focus: Option<crate::settings::EditProvidersFocus>,
) -> (r: (Option<crate::settings::EditProvidersFocus>, Option<(usize, bool)>))
    ensures
        r.0 == edit_rows_click(rows@, 0, pos, len as nat, focus).0,
        match edit_rows_click(rows@, 0, pos, len as nat, focus).1 {
            RowClick::Name(i) => r.1 == Some((i as usize, true)) && i < rows@.len(),
            RowClick::Delete(i) => r.1 == Some((i as usize, false)) && i < rows@.len() && i < len,
            RowClick::Miss => r.1 is None,
        },
{
    proof {
        lemma_edit_rows_click_in_range(rows@, 0, pos, len as nat, focus);
    }
    let mut cur = focus;
    let mut i: usize = 0;
    while i < rows.len()
        invariant
            i <= rows.len(),
            edit_rows_click(rows@, i as nat, pos, len as nat, cur) == edit_rows_click(rows@, 0, pos, len as nat, focus),
        decreases rows.len() - i,
    {
        let (name_area, delete_area) = rows[i];
        if name_area.contains(pos) {
            return (Some(crate::settings::EditProvidersFocus::ProviderName(i)), Some((i, true)));
        }
        if delete_area.contains(pos) {
            if i < len {
                return (Some(crate::settings::EditProvidersFocus::DeleteButton(i)), Some((i, false)));
            }
            cur = Some(crate::settings::EditProvidersFocus::DeleteButton(i));
        }
        i = i + 1;
    }
    (cur, None)
}

/// Whether `new` and `r` are what a click at `pos` on form `f` of popup `p` gives (the edit
/// form when `is_edit`, else the add form): submit and cancel take the focus and activate
/// the form; the other controls change the form as `form_clicked` says; a miss does nothing.
pub open spec fn form_popup_clicked(
    p: SettingsPopup,
    f: ProviderFormState,
    is_edit: bool,
    areas: ProviderFormHitAreas,
    pos: crate::geometry::Position,
    new: SettingsPopup,
    r: ProvidersAction,
) -> bool {
    let t = form_click_target(f, areas, pos);
    match t {
        FormClickTarget::Submit | FormClickTarget::Cancel => {
            let g = ProviderFormState {
                focus: if t is Submit { crate::settings::ProviderFormFocus::SubmitButton } else { crate::settings::ProviderFormFocus::CancelButton },
                ..f
            };
            let mid = if is_edit { SettingsPopup { edit_provider_popup: Some(g), ..p } } else { SettingsPopup { add_provider_popup: Some(g), ..p } };
            form_activated(mid, g, is_edit, new, r)
        },
        FormClickTarget::Miss => new == p && r is NoAction,
        _ => {
            &&& r is NoAction
            &&& (if is_edit { new.edit_provider_popup } else { new.add_provider_popup }) matches Some(g) && form_clicked(f, t, g)
            &&& new == (if is_edit { SettingsPopup { edit_provider_popup: new.edit_provider_popup, ..p } } else { SettingsPopup { add_provider_popup: new.add_provider_popup, ..p } })
        },
    }
}

/// Whether `new` and `r` are what a click at `pos` on rows `rows` of the edit-providers popup
/// `popup` of `p` gives (see `edit_rows_click`): a name opens that provider's edit form, a
/// delete button asks to delete that provider, and the popup keeps the new focus.
pub open spec fn rows_popup_clicked(
    p: SettingsPopup,
    popup: EditProvidersPopupState,
    rows: Seq<(Rect, Rect)>,
    pos: crate::geometry::Position,
    new: SettingsPopup,
    r: ProvidersAction,
) -> bool {
    let c = edit_rows_click(rows, 0, pos, p.providers_tab_list@.len(), popup.focus);
    let mid = SettingsPopup { edit_providers_popup: Some(EditProvidersPopupState { focus: c.0 }), ..p };
    match c.1 {
        RowClick::Name(i) => mid.edit_provider_opened(i as usize, new) && r is NoAction,
        RowClick::Delete(i) => new == mid && (r matches ProvidersAction::DeleteProvider(n) && n@ == p.providers_tab_list@[i as int].name@),
        RowClick::Miss => new == mid && r is NoAction,
    }
}

impl SettingsPopup {
    /// Whether `new` and `r` are what a click at `pos` on the providers tab's popups gives:
    /// the key popup first, then the edit form, the edit-providers list and the add form;
    /// with no popup open nothing happens.
    pub open spec fn provider_popup_clicked(
        &self,
        pos: crate::geometry::Position,
        form_areas: ProviderFormHitAreas,
        rows: Seq<(Rect, Rect)>,
        new: SettingsPopup,
        r: ProvidersAction,
    ) -> bool {
        if self.preset_key_popup is Some {
            self.providers_clicked(pos, new, r)
        } else if self.edit_provider_popup is Some {
            form_popup_clicked(*self, self.edit_provider_popup.unwrap(), true, form_areas, pos, new, r)
        } else if self.edit_providers_popup is Some {
            rows_popup_clicked(*self, self.edit_providers_popup.unwrap(), rows, pos, new, r)
        } else if self.add_provider_popup is Some {
            form_popup_clicked(*self, self.add_provider_popup.unwrap(), false, form_areas, pos, new, r)
        } else {
            new == *self && r is NoAction
        }
    }

    /// A click on the key popup, as `providers_clicked` describes.
    pub fn handle_preset_key_popup_click(&mut self, pos: crate::geometry::Position) -> (r: ProvidersAction)
        ensures
            old(self).providers_clicked(pos, *final(self), r),
    {
        self.handle_providers_click(pos)
    }

    fn click_form_popup(&mut self, is_edit: bool, areas: &ProviderFormHitAreas, pos: crate::geometry::Position) -> (r: ProvidersAction)
        requires
            (if is_edit { old(self).edit_provider_popup } else { old(self).add_provider_popup }) is Some,
            areas.dropdown_items@.len() <= crate::settings::backend_type_options().len(),
        ensures
            form_popup_clicked(
                *old(self),
                (if is_edit { old(self).edit_provider_popup } else { old(self).add_provider_popup }).unwrap(),
                is_edit,
                *areas,
                pos,
                *final(self),
                r,
            ),
    {
        let taken = if is_edit { self.edit_provider_popup.take() } else { self.add_provider_popup.take() };
        let mut form = match taken {
            Some(f) => f,
            None => {
                proof {
                    assert(false);
                }
                return ProvidersAction::NoAction;
            },
        };
        let action = handle_form_click(&mut form, areas, pos);
        if is_edit {
            self.edit_provider_popup = Some(form);
        } else {
            self.add_provider_popup = Some(form);
        }
        match action {
            Some(FormClickAction::Activate) => self.activate_form_popup(is_edit),
            _ => ProvidersAction::NoAction,
        }
    }

    fn click_rows_popup(&mut self, rows: &Vec<(Rect, Rect)>, pos: crate::geometry::Position) -> (r: ProvidersAction)
        requires
            old(self).edit_providers_popup is Some,
        ensures
            rows_popup_clicked(*old(self), old(self).edit_providers_popup.unwrap(), rows@, pos, *final(self), r),
    {
        let focus = match &self.edit_providers_popup {
            Some(p) => p.focus,
            None => None,
        };
        let (new_focus, hit_row) = click_edit_rows(rows, pos, self.providers_tab_list.len(), focus);
        self.edit_providers_popup = Some(EditProvidersPopupState { focus: new_focus });
        match hit_row {
            Some((idx, true)) => {
                self.open_edit_provider_popup(idx);
                ProvidersAction::NoAction
            },
            Some((idx, false)) => ProvidersAction::DeleteProvider(self.providers_tab_list[idx].name.clone()),
            None => ProvidersAction::NoAction,
        }
    }

    /// A click at `pos` on the providers tab's popups, as `provider_popup_clicked` describes;
    /// `form_areas` and `edit_areas` are where the open form's controls and the
    /// edit-providers rows were last drawn, the dropdown showing no more items than there
    /// are backends.
    pub fn handle_provider_popup_click(
        &mut self,
        pos: crate::geometry::Position,
        form_areas: &ProviderFormHitAreas,
        edit_areas: &EditProvidersHitAreas,
    ) -> (r: ProvidersAction)
        requires
            form_areas.dropdown_items@.len() <= crate::settings::backend_type_options().len(),
        ensures
            old(self).provider_popup_clicked(pos, *form_areas, edit_areas.provider_rows@, *final(self), r),
    {
        if self.preset_key_popup.is_some() {
            self.handle_preset_key_popup_click(pos)
        } else if self.edit_provider_popup.is_some() {
            self.click_form_popup(true, form_areas, pos)
        } else if self.edit_providers_popup.is_some() {
            self.click_rows_popup(&edit_areas.provider_rows, pos)
        } else if self.add_provider_popup.is_some() {
            self.click_form_popup(false, form_areas, pos)
        } else {
            ProvidersAction::NoAction
        }
    }
}

/// The label of a backend type: its display name for the known backends, else the value.
pub open spec fn backend_label_spec(value: Seq<char>) -> Seq<char> {
    if value == "openai"@ {
        "OpenAI"@
    } else if value == "anthropic"@ {
        "Anthropic"@
    } else if value == "gemini"@ {
        "Gemini"@
    } else if value == "ollama"@ {
        "Ollama"@
    } else if value == "openai-responses"@ {
        "OpenAI Responses"@
    } else if value == "alibaba"@ {
        "Alibaba"@
    } else {
        value
    }
}

/// The tab at display position `i`; the general tab past the last position.
pub open spec fn tab_at(i: nat) -> SettingsTab {
    if i == 0 {
        SettingsTab::General
    } else if i == 1 {
        SettingsTab::Keybindings
    } else if i == 2 {
        SettingsTab::Providers
    } else if i == 3 {
        SettingsTab::Models
    } else if i == 4 {
        SettingsTab::Local
    } else if i == 5 {
        SettingsTab::Mcp
    } else {
        SettingsTab::General
    }
}

impl SettingsPopup {
    /// The display position of the active tab.
    pub fn tab_index(&self) -> (r: usize)
        ensures
            r == crate::settings::settings_tab_index(self.active_tab),
    {
        match self.active_tab {
            SettingsTab::General => 0,
            SettingsTab::Keybindings => 1,
            SettingsTab::Providers => 2,
            SettingsTab::Models => 3,
            SettingsTab::Local => 4,
            SettingsTab::Mcp => 5,
        }
    }

    /// The tab at display position `i` (see `tab_at`).
    pub fn tab_from_index(i: usize) -> (r: SettingsTab)
        ensures
            r == tab_at(i as nat),
    {
        match i {
            0 => SettingsTab::General,
            1 => SettingsTab::Keybindings,
            2 => SettingsTab::Providers,
            3 => SettingsTab::Models,
            4 => SettingsTab::Local,
            5 => SettingsTab::Mcp,
            _ => SettingsTab::General,
        }
    }

    /// The label of a backend type (see `backend_label_spec`).
    pub fn backend_label(value: &str) -> (r: String)
        ensures
            r@ == backend_label_spec(value@),
    {
        if same_text(value, "openai") {
            String::from_str("OpenAI")
        } else if same_text(value, "anthropic") {
            String::from_str("Anthropic")
        } else if same_text(value, "gemini") {
            String::from_str("Gemini")
        } else if same_text(value, "ollama") {
            String::from_str("Ollama")
        } else if same_text(value, "openai-responses") {
            String::from_str("OpenAI Responses")
        } else if same_text(value, "alibaba") {
            String::from_str("Alibaba")
        } else {
            String::from_str(value)
        }
    }
}

/// A tab is found again from its display position.
pub proof fn law_tab_found_from_its_index(t: SettingsTab)
    ensures
        tab_at(crate::settings::settings_tab_index(t)) == t,
{
}

} // verus!
