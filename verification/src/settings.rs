//! Keyboard navigation and form state of the settings popup: the tab row, the focus
//! cycles of each tab, the provider forms and their submit rules.
use vstd::prelude::*;
use crate::text::{push_char, str_is_blank, trim, concat_str};
use vstd::utf8::{decode_utf8, is_char_boundary};
use vstd::string::StringSliceAdditionalSpecFns;

verus! {

/// The tabs of the settings popup, in display order.
#[derive(Debug, Clone, Copy, PartialEq, Eq, Structural)]
pub enum SettingsTab {
    General,
    Keybindings,
    Providers,
    Models,
    Local,
    Mcp,
}

/// The number of settings tabs.
pub open spec fn settings_tab_count() -> nat {
    6
}

/// The display position of a settings tab.
pub open spec fn settings_tab_index(t: SettingsTab) -> nat {
    match t {
        SettingsTab::General => 0,
        SettingsTab::Keybindings => 1,
        SettingsTab::Providers => 2,
        SettingsTab::Models => 3,
        SettingsTab::Local => 4,
        SettingsTab::Mcp => 5,
    }
}

impl SettingsTab {
    /// The tab after this one, wrapping from the last to the first.
    pub fn next(self) -> (r: SettingsTab)
        ensures
            settings_tab_index(r) == (settings_tab_index(self) + 1) % settings_tab_count(),
    {
        match self {
            SettingsTab::General => SettingsTab::Keybindings,
            SettingsTab::Keybindings => SettingsTab::Providers,
            SettingsTab::Providers => SettingsTab::Models,
            SettingsTab::Models => SettingsTab::Local,
            SettingsTab::Local => SettingsTab::Mcp,
            SettingsTab::Mcp => SettingsTab::General,
        }
    }

    /// The tab before this one, wrapping from the first to the last.
    pub fn prev(self) -> (r: SettingsTab)
        ensures
            settings_tab_index(r) == (settings_tab_index(self) + 5) % settings_tab_count(),
    {
        match self {
            SettingsTab::General => SettingsTab::Mcp,
            SettingsTab::Keybindings => SettingsTab::General,
            SettingsTab::Providers => SettingsTab::Keybindings,
            SettingsTab::Models => SettingsTab::Providers,
            SettingsTab::Local => SettingsTab::Models,
            SettingsTab::Mcp => SettingsTab::Local,
        }
    }
}

/// A settings tab is determined by its position.
pub proof fn lemma_settings_tab_index_injective(a: SettingsTab, b: SettingsTab)
    ensures
        settings_tab_index(a) == settings_tab_index(b) ==> a == b,
        settings_tab_index(a) < settings_tab_count(),
{
}

/// Moving to the previous tab undoes moving to the next one, and the other way round.
pub proof fn law_settings_tab_prev_undoes_next(t: SettingsTab, n: SettingsTab, p: SettingsTab)
    requires
        settings_tab_index(n) == (settings_tab_index(t) + 1) % settings_tab_count(),
        settings_tab_index(p) == (settings_tab_index(n) + 5) % settings_tab_count(),
    ensures
        p == t,
{
    lemma_settings_tab_index_injective(p, t);
}

/// Focusable rows of the general settings tab, in display order.
#[derive(Debug, Clone, Copy, PartialEq, Eq, Structural)]
pub enum GeneralFocus {
    Theme,
    UserAlignment,
    AiAlignment,
    ArtifactSaveDir,
    VaultPath,
    ShowSelector,
    ShowChatScrollbar,
    CollapseThinking,
    KittyEnhancedText,
    KittyTextScale,
    WebSearchEnabled,
    QuitConfirmation,
}

/// The display position of a general-tab row.
pub open spec fn general_focus_index(f: GeneralFocus) -> nat {
    match f {
        GeneralFocus::Theme => 0,
        GeneralFocus::UserAlignment => 1,
        GeneralFocus::AiAlignment => 2,
        GeneralFocus::ArtifactSaveDir => 3,
        GeneralFocus::VaultPath => 4,
        GeneralFocus::ShowSelector => 5,
        GeneralFocus::ShowChatScrollbar => 6,
        GeneralFocus::CollapseThinking => 7,
        GeneralFocus::KittyEnhancedText => 8,
        GeneralFocus::KittyTextScale => 9,
        GeneralFocus::WebSearchEnabled => 10,
        GeneralFocus::QuitConfirmation => 11,
    }
}

/// The dropdowns of the general settings tab.
#[derive(Debug, Clone, Copy, PartialEq, Eq, Structural)]
pub enum GeneralDropdown {
    Theme,
    UserAlignment,
    AiAlignment,
    KittyTextScale,
}

/// The dropdown a general-tab row opens, if it has one.
pub open spec fn focus_dropdown(f: GeneralFocus) -> Option<GeneralDropdown> {
    match f {
        GeneralFocus::Theme => Some(GeneralDropdown::Theme),
        GeneralFocus::UserAlignment => Some(GeneralDropdown::UserAlignment),
        GeneralFocus::AiAlignment => Some(GeneralDropdown::AiAlignment),
        GeneralFocus::KittyTextScale => Some(GeneralDropdown::KittyTextScale),
        _ => None,
    }
}

impl GeneralFocus {
    /// The next row of the general tab, wrapping around.
    pub fn next(self) -> (r: GeneralFocus)
        ensures
            r == general_focus_next(self),
            general_focus_index(r) == (general_focus_index(self) + 1) % 12,
    {
        match self {
            GeneralFocus::Theme => GeneralFocus::UserAlignment,
            GeneralFocus::UserAlignment => GeneralFocus::AiAlignment,
            GeneralFocus::AiAlignment => GeneralFocus::ArtifactSaveDir,
            GeneralFocus::ArtifactSaveDir => GeneralFocus::VaultPath,
            GeneralFocus::VaultPath => GeneralFocus::ShowSelector,
            GeneralFocus::ShowSelector => GeneralFocus::ShowChatScrollbar,
            GeneralFocus::ShowChatScrollbar => GeneralFocus::CollapseThinking,
            GeneralFocus::CollapseThinking => GeneralFocus::KittyEnhancedText,
            GeneralFocus::KittyEnhancedText => GeneralFocus::KittyTextScale,
            GeneralFocus::KittyTextScale => GeneralFocus::WebSearchEnabled,
            GeneralFocus::WebSearchEnabled => GeneralFocus::QuitConfirmation,
            GeneralFocus::QuitConfirmation => GeneralFocus::Theme,
        }
    }

    /// The previous row of the general tab, wrapping around.
    pub fn prev(self) -> (r: GeneralFocus)
        ensures
            r == general_focus_prev(self),
            general_focus_index(r) == (general_focus_index(self) + 11) % 12,
    {
        match self {
            GeneralFocus::Theme => GeneralFocus::QuitConfirmation,
            GeneralFocus::UserAlignment => GeneralFocus::Theme,
            GeneralFocus::AiAlignment => GeneralFocus::UserAlignment,
            GeneralFocus::ArtifactSaveDir => GeneralFocus::AiAlignment,
            GeneralFocus::VaultPath => GeneralFocus::ArtifactSaveDir,
            GeneralFocus::ShowSelector => GeneralFocus::VaultPath,
            GeneralFocus::ShowChatScrollbar => GeneralFocus::ShowSelector,
            GeneralFocus::CollapseThinking => GeneralFocus::ShowChatScrollbar,
            GeneralFocus::KittyEnhancedText => GeneralFocus::CollapseThinking,
            GeneralFocus::KittyTextScale => GeneralFocus::KittyEnhancedText,
            GeneralFocus::WebSearchEnabled => GeneralFocus::KittyTextScale,
            GeneralFocus::QuitConfirmation => GeneralFocus::WebSearchEnabled,
        }
    }

    /// The dropdown that activating this row opens, if it has one.
    pub fn dropdown(self) -> (r: Option<GeneralDropdown>)
        ensures
            r == focus_dropdown(self),
    {
        match self {
            GeneralFocus::Theme => Some(GeneralDropdown::Theme),
            GeneralFocus::UserAlignment => Some(GeneralDropdown::UserAlignment),
            GeneralFocus::AiAlignment => Some(GeneralDropdown::AiAlignment),
            GeneralFocus::KittyTextScale => Some(GeneralDropdown::KittyTextScale),
            _ => None,
        }
    }
}

/// The general-tab row after tab, wrapping around.
pub open spec fn general_focus_next(f: GeneralFocus) -> GeneralFocus {
    match f {
        GeneralFocus::Theme => GeneralFocus::UserAlignment,
        GeneralFocus::UserAlignment => GeneralFocus::AiAlignment,
        GeneralFocus::AiAlignment => GeneralFocus::ArtifactSaveDir,
        GeneralFocus::ArtifactSaveDir => GeneralFocus::VaultPath,
        GeneralFocus::VaultPath => GeneralFocus::ShowSelector,
        GeneralFocus::ShowSelector => GeneralFocus::ShowChatScrollbar,
        GeneralFocus::ShowChatScrollbar => GeneralFocus::CollapseThinking,
        GeneralFocus::CollapseThinking => GeneralFocus::KittyEnhancedText,
        GeneralFocus::KittyEnhancedText => GeneralFocus::KittyTextScale,
        GeneralFocus::KittyTextScale => GeneralFocus::WebSearchEnabled,
        GeneralFocus::WebSearchEnabled => GeneralFocus::QuitConfirmation,
        GeneralFocus::QuitConfirmation => GeneralFocus::Theme,
    }
}

/// The general-tab row after shift-tab, wrapping around.
pub open spec fn general_focus_prev(f: GeneralFocus) -> GeneralFocus {
    match f {
        GeneralFocus::Theme => GeneralFocus::QuitConfirmation,
        GeneralFocus::UserAlignment => GeneralFocus::Theme,
        GeneralFocus::AiAlignment => GeneralFocus::UserAlignment,
        GeneralFocus::ArtifactSaveDir => GeneralFocus::AiAlignment,
        GeneralFocus::VaultPath => GeneralFocus::ArtifactSaveDir,
        GeneralFocus::ShowSelector => GeneralFocus::VaultPath,
        GeneralFocus::ShowChatScrollbar => GeneralFocus::ShowSelector,
        GeneralFocus::CollapseThinking => GeneralFocus::ShowChatScrollbar,
        GeneralFocus::KittyEnhancedText => GeneralFocus::CollapseThinking,
        GeneralFocus::KittyTextScale => GeneralFocus::KittyEnhancedText,
        GeneralFocus::WebSearchEnabled => GeneralFocus::KittyTextScale,
        GeneralFocus::QuitConfirmation => GeneralFocus::WebSearchEnabled,
    }
}

/// The local-tab row after tab, wrapping around.
pub open spec fn local_focus_next(f: LocalFocus) -> LocalFocus {
    match f {
        LocalFocus::Enabled => LocalFocus::Host,
        LocalFocus::Host => LocalFocus::Port,
        LocalFocus::Port => LocalFocus::ServerType,
        LocalFocus::ServerType => LocalFocus::SelectedModel,
        LocalFocus::SelectedModel => LocalFocus::ModelDirectory,
        LocalFocus::ModelDirectory => LocalFocus::HealthInterval,
        LocalFocus::HealthInterval => LocalFocus::ConnectTimeout,
        LocalFocus::ConnectTimeout => LocalFocus::RequestTimeout,
        LocalFocus::RequestTimeout => LocalFocus::ApiTokenEnv,
        LocalFocus::ApiTokenEnv => LocalFocus::Enabled,
    }
}

/// The local-tab row after shift-tab, wrapping around.
pub open spec fn local_focus_prev(f: LocalFocus) -> LocalFocus {
    match f {
        LocalFocus::Enabled => LocalFocus::ApiTokenEnv,
        LocalFocus::Host => LocalFocus::Enabled,
        LocalFocus::Port => LocalFocus::Host,
        LocalFocus::ServerType => LocalFocus::Port,
        LocalFocus::SelectedModel => LocalFocus::ServerType,
        LocalFocus::ModelDirectory => LocalFocus::SelectedModel,
        LocalFocus::HealthInterval => LocalFocus::ModelDirectory,
        LocalFocus::ConnectTimeout => LocalFocus::HealthInterval,
        LocalFocus::RequestTimeout => LocalFocus::ConnectTimeout,
        LocalFocus::ApiTokenEnv => LocalFocus::RequestTimeout,
    }
}

/// A general-tab row is determined by its position.
pub proof fn lemma_general_focus_index_injective(a: GeneralFocus, b: GeneralFocus)
    ensures
        general_focus_index(a) == general_focus_index(b) ==> a == b,
        general_focus_index(a) < 12,
{
}

/// On the general tab, moving focus back undoes moving it forward.
pub proof fn law_general_focus_prev_undoes_next(f: GeneralFocus, n: GeneralFocus, p: GeneralFocus)
    requires
        general_focus_index(n) == (general_focus_index(f) + 1) % 12,
        general_focus_index(p) == (general_focus_index(n) + 11) % 12,
    ensures
        p == f,
{
    lemma_general_focus_index_injective(p, f);
}

/// Focusable rows of the local-inference tab, in display order.
#[derive(Debug, Clone, Copy, PartialEq, Eq, Structural)]
pub enum LocalFocus {
    Enabled,
    Host,
    Port,
    ServerType,
    SelectedModel,
    ModelDirectory,
    HealthInterval,
    ConnectTimeout,
    RequestTimeout,
    ApiTokenEnv,
}

/// The display position of a local-tab row.
pub open spec fn local_focus_index(f: LocalFocus) -> nat {
    match f {
        LocalFocus::Enabled => 0,
        LocalFocus::Host => 1,
        LocalFocus::Port => 2,
        LocalFocus::ServerType => 3,
        LocalFocus::SelectedModel => 4,
        LocalFocus::ModelDirectory => 5,
        LocalFocus::HealthInterval => 6,
        LocalFocus::ConnectTimeout => 7,
        LocalFocus::RequestTimeout => 8,
        LocalFocus::ApiTokenEnv => 9,
    }
}

impl LocalFocus {
    /// The next row of the local tab, wrapping around.
    pub fn next(self) -> (r: LocalFocus)
        ensures
            r == local_focus_next(self),
            local_focus_index(r) == (local_focus_index(self) + 1) % 10,
    {
        match self {
            LocalFocus::Enabled => LocalFocus::Host,
            LocalFocus::Host => LocalFocus::Port,
            LocalFocus::Port => LocalFocus::ServerType,
            LocalFocus::ServerType => LocalFocus::SelectedModel,
            LocalFocus::SelectedModel => LocalFocus::ModelDirectory,
            LocalFocus::ModelDirectory => LocalFocus::HealthInterval,
            LocalFocus::HealthInterval => LocalFocus::ConnectTimeout,
            LocalFocus::ConnectTimeout => LocalFocus::RequestTimeout,
            LocalFocus::RequestTimeout => LocalFocus::ApiTokenEnv,
            LocalFocus::ApiTokenEnv => LocalFocus::Enabled,
        }
    }

    /// The previous row of the local tab, wrapping around.
    pub fn prev(self) -> (r: LocalFocus)
        ensures
            r == local_focus_prev(self),
            local_focus_index(r) == (local_focus_index(self) + 9) % 10,
    {
        match self {
            LocalFocus::Enabled => LocalFocus::ApiTokenEnv,
            LocalFocus::Host => LocalFocus::Enabled,
            LocalFocus::Port => LocalFocus::Host,
            LocalFocus::ServerType => LocalFocus::Port,
            LocalFocus::SelectedModel => LocalFocus::ServerType,
            LocalFocus::ModelDirectory => LocalFocus::SelectedModel,
            LocalFocus::HealthInterval => LocalFocus::ModelDirectory,
            LocalFocus::ConnectTimeout => LocalFocus::HealthInterval,
            LocalFocus::RequestTimeout => LocalFocus::ConnectTimeout,
            LocalFocus::ApiTokenEnv => LocalFocus::RequestTimeout,
        }
    }
}

/// The kinds of local inference server.
#[derive(Debug, Clone, Copy, PartialEq, Eq, Structural)]
pub enum LocalServerType {
    Auto,
    Ollama,
    LlamaCpp,
    LmStudio,
    OpenAiCompat,
}

/// The position of a server kind in the cycle the settings tab steps through.
pub open spec fn local_server_type_index(t: LocalServerType) -> nat {
    match t {
        LocalServerType::Auto => 0,
        LocalServerType::Ollama => 1,
        LocalServerType::LlamaCpp => 2,
        LocalServerType::LmStudio => 3,
        LocalServerType::OpenAiCompat => 4,
    }
}

/// The server kind that follows `current` when the server-type row is activated.
pub fn next_local_server_type(current: LocalServerType) -> (r: LocalServerType)
    ensures
        local_server_type_index(r) == (local_server_type_index(current) + 1) % 5,
{
    match current {
        LocalServerType::Auto => LocalServerType::Ollama,
        LocalServerType::Ollama => LocalServerType::LlamaCpp,
        LocalServerType::LlamaCpp => LocalServerType::LmStudio,
        LocalServerType::LmStudio => LocalServerType::OpenAiCompat,
        LocalServerType::OpenAiCompat => LocalServerType::Auto,
    }
}

/// The server kind `n` steps after `t` in the cycle.
pub open spec fn local_server_type_after(t: LocalServerType, n: nat) -> nat {
    (local_server_type_index(t) + n) % 5
}

/// Stepping the server kind five times comes back to where it started, and every kind
/// is reached on the way.
pub proof fn law_local_server_type_cycle(t: LocalServerType, u: LocalServerType)
    ensures
        local_server_type_after(t, 5) == local_server_type_index(t),
        exists|n: nat| n < 5 && #[trigger] local_server_type_after(t, n) == local_server_type_index(u),
{
    let n: nat = ((local_server_type_index(u) + 5 - local_server_type_index(t)) % 5) as nat;
    assert(local_server_type_after(t, n) == local_server_type_index(u));
}

/// The focus inside the add/edit provider form, in tab order.
#[derive(Debug, Clone, Copy, PartialEq, Eq, Structural)]
pub enum ProviderFormFocus {
    ProviderName,
    ProviderEndpoint,
    ProviderBackendType,
    ProviderApiKey,
    SubmitButton,
    CancelButton,
}

/// The tab-order position of a provider form field.
pub open spec fn form_focus_index(f: ProviderFormFocus) -> nat {
    match f {
        ProviderFormFocus::ProviderName => 0,
        ProviderFormFocus::ProviderEndpoint => 1,
        ProviderFormFocus::ProviderBackendType => 2,
        ProviderFormFocus::ProviderApiKey => 3,
        ProviderFormFocus::SubmitButton => 4,
        ProviderFormFocus::CancelButton => 5,
    }
}

/// The focus after pressing tab (`forward`) or shift-tab in the provider form.
pub fn cycle_form_focus_value(f: ProviderFormFocus, forward: bool) -> (r: ProviderFormFocus)
    ensures
        r == cycle_form_focus_spec(f, forward),
        forward ==> form_focus_index(r) == (form_focus_index(f) + 1) % 6,
        !forward ==> form_focus_index(r) == (form_focus_index(f) + 5) % 6,
{
    match (f, forward) {
        (ProviderFormFocus::ProviderName, true) => ProviderFormFocus::ProviderEndpoint,
        (ProviderFormFocus::ProviderEndpoint, true) => ProviderFormFocus::ProviderBackendType,
        (ProviderFormFocus::ProviderBackendType, true) => ProviderFormFocus::ProviderApiKey,
        (ProviderFormFocus::ProviderApiKey, true) => ProviderFormFocus::SubmitButton,
        (ProviderFormFocus::SubmitButton, true) => ProviderFormFocus::CancelButton,
        (ProviderFormFocus::CancelButton, true) => ProviderFormFocus::ProviderName,
        (ProviderFormFocus::ProviderName, false) => ProviderFormFocus::CancelButton,
        (ProviderFormFocus::ProviderEndpoint, false) => ProviderFormFocus::ProviderName,
        (ProviderFormFocus::ProviderBackendType, false) => ProviderFormFocus::ProviderEndpoint,
        (ProviderFormFocus::ProviderApiKey, false) => ProviderFormFocus::ProviderBackendType,
        (ProviderFormFocus::SubmitButton, false) => ProviderFormFocus::ProviderApiKey,
        (ProviderFormFocus::CancelButton, false) => ProviderFormFocus::SubmitButton,
    }
}

/// A provider form field is determined by its position.
pub proof fn lemma_form_focus_index_injective(a: ProviderFormFocus, b: ProviderFormFocus)
    ensures
        form_focus_index(a) == form_focus_index(b) ==> a == b,
        form_focus_index(a) < 6,
{
}

/// In the provider form, shift-tab undoes tab.
pub proof fn law_form_focus_back_undoes_forward(f: ProviderFormFocus, n: ProviderFormFocus, p: ProviderFormFocus)
    requires
        form_focus_index(n) == (form_focus_index(f) + 1) % 6,
        form_focus_index(p) == (form_focus_index(n) + 5) % 6,
    ensures
        p == f,
{
    lemma_form_focus_index_injective(p, f);
}

/// A provider as listed and edited in the providers tab.
#[derive(Debug, Clone, PartialEq, Eq)]
pub struct EditableProvider {
    pub name: String,
    pub endpoint: String,
    pub backend_type: String,
}

/// The backend types the provider form offers, in dropdown order.
pub open spec fn backend_type_options() -> Seq<Seq<char>> {
    seq!["openai"@, "anthropic"@, "gemini"@, "ollama"@, "openai-responses"@, "alibaba"@]
}

/// The backend type at position `i` of the dropdown.
pub fn backend_type_option(i: usize) -> (r: String)
    requires
        i < 6,
    ensures
        r@ == backend_type_options()[i as int],
{
    if i == 0 {
        String::from_str("openai")
    } else if i == 1 {
        String::from_str("anthropic")
    } else if i == 2 {
        String::from_str("gemini")
    } else if i == 3 {
        String::from_str("ollama")
    } else if i == 4 {
        String::from_str("openai-responses")
    } else {
        String::from_str("alibaba")
    }
}

/// The state of the add/edit provider form.
#[derive(Debug, Clone)]
pub struct ProviderFormState {
    pub title: String,
    pub submit_label: String,
    pub original_name: Option<String>,
    pub name: String,
    pub endpoint: String,
    pub backend_type: String,
    pub api_key: String,
    pub focus: ProviderFormFocus,
    pub dropdown_open: bool,
}

/// Whether a form with these fields may be submitted: every field non-blank after trimming.
pub open spec fn form_can_submit(name: Seq<char>, endpoint: Seq<char>, backend: Seq<char>, key: Seq<char>) -> bool {
    trim(name).len() > 0 && trim(endpoint).len() > 0 && trim(backend).len() > 0 && trim(key).len() > 0
}

impl ProviderFormState {
    /// An empty form for adding a provider, with the `openai` backend preselected.
    pub fn new_add() -> (r: Self)
        ensures
            r.title@ == " Add Provider "@,
            r.submit_label@ == "Add"@,
            r.original_name is None,
            r.name@.len() == 0,
            r.endpoint@.len() == 0,
            r.backend_type@ == "openai"@,
            r.api_key@.len() == 0,
            r.focus == ProviderFormFocus::ProviderName,
            !r.dropdown_open,
    {
        ProviderFormState {
            title: String::from_str(" Add Provider "),
            submit_label: String::from_str("Add"),
            original_name: None,
            name: String::new(),
            endpoint: String::new(),
            backend_type: String::from_str("openai"),
            api_key: String::new(),
            focus: ProviderFormFocus::ProviderName,
            dropdown_open: false,
        }
    }

    /// A form for editing `provider`, prefilled with its fields and the given key.
    pub fn new_edit(provider: &EditableProvider, api_key: String) -> (r: Self)
        ensures
            r.title@ == " Edit Provider "@,
            r.submit_label@ == "Save"@,
            r.original_name == Some(provider.name),
            r.name == provider.name,
            r.endpoint == provider.endpoint,
            r.backend_type == provider.backend_type,
            r.api_key == api_key,
            r.focus == ProviderFormFocus::ProviderName,
            !r.dropdown_open,
    {
        ProviderFormState {
            title: String::from_str(" Edit Provider "),
            submit_label: String::from_str("Save"),
            original_name: Some(provider.name.clone()),
            name: provider.name.clone(),
            endpoint: provider.endpoint.clone(),
            backend_type: provider.backend_type.clone(),
            api_key,
            focus: ProviderFormFocus::ProviderName,
            dropdown_open: false,
        }
    }

    /// Whether the form may be submitted: no field is blank.
    pub fn can_submit(&self) -> (r: bool)
        ensures
            r == form_can_submit(self.name@, self.endpoint@, self.backend_type@, self.api_key@),
    {
        !str_is_blank(self.name.as_str()) && !str_is_blank(self.endpoint.as_str())
            && !str_is_blank(self.backend_type.as_str()) && !str_is_blank(self.api_key.as_str())
    }

    /// Tab (`forward`) or shift-tab inside the form; the backend dropdown closes.
    pub fn cycle_focus(&mut self, forward: bool)
        ensures
            *final(self) == (ProviderFormState {
                focus: cycle_form_focus_spec(old(self).focus, forward),
                dropdown_open: false,
                ..*old(self)
            }),
    {
        self.dropdown_open = false;
        self.focus = cycle_form_focus_value(self.focus, forward);
    }

    /// Types `c` into the focused text field; buttons and the backend row ignore it.
    pub fn type_char(&mut self, c: char)
        ensures
            *final(self) == (ProviderFormState { name: final(self).name, endpoint: final(self).endpoint, api_key: final(self).api_key, ..*old(self) }),
            final(self).title == old(self).title,
            final(self).submit_label == old(self).submit_label,
            final(self).original_name == old(self).original_name,
            final(self).name@ == (if old(self).focus == ProviderFormFocus::ProviderName { old(self).name@.push(c) } else { old(self).name@ }),
            final(self).endpoint@ == (if old(self).focus == ProviderFormFocus::ProviderEndpoint { old(self).endpoint@.push(c) } else { old(self).endpoint@ }),
            final(self).api_key@ == (if old(self).focus == ProviderFormFocus::ProviderApiKey { old(self).api_key@.push(c) } else { old(self).api_key@ }),
            final(self).backend_type@ == old(self).backend_type@,
            final(self).focus == old(self).focus,
            final(self).dropdown_open == old(self).dropdown_open,
    {
        match self.focus {
            ProviderFormFocus::ProviderName => push_char(&mut self.name, c),
            ProviderFormFocus::ProviderEndpoint => push_char(&mut self.endpoint, c),
            ProviderFormFocus::ProviderApiKey => push_char(&mut self.api_key, c),
            _ => {},
        }
    }

    /// Removes the last character of the focused text field.
    pub fn backspace(&mut self)
        ensures
            *final(self) == (ProviderFormState { name: final(self).name, endpoint: final(self).endpoint, api_key: final(self).api_key, ..*old(self) }),
            final(self).title == old(self).title,
            final(self).submit_label == old(self).submit_label,
            final(self).original_name == old(self).original_name,
            final(self).name@ == (if old(self).focus == ProviderFormFocus::ProviderName { drop_last_char(old(self).name@) } else { old(self).name@ }),
            final(self).endpoint@ == (if old(self).focus == ProviderFormFocus::ProviderEndpoint { drop_last_char(old(self).endpoint@) } else { old(self).endpoint@ }),
            final(self).api_key@ == (if old(self).focus == ProviderFormFocus::ProviderApiKey { drop_last_char(old(self).api_key@) } else { old(self).api_key@ }),
            final(self).backend_type@ == old(self).backend_type@,
            final(self).focus == old(self).focus,
            final(self).dropdown_open == old(self).dropdown_open,
    {
        match self.focus {
            ProviderFormFocus::ProviderName => { pop_char(&mut self.name); },
            ProviderFormFocus::ProviderEndpoint => { pop_char(&mut self.endpoint); },
            ProviderFormFocus::ProviderApiKey => { pop_char(&mut self.api_key); },
            _ => {},
        }
    }
}

/// The dropdown position of `backend`, or 0 when it is not one of the options.
pub open spec fn backend_position(backend: Seq<char>) -> nat {
    if exists|i: int| 0 <= i < 6 && backend_type_options()[i] == backend {
        (choose|i: int| 0 <= i < 6 && backend_type_options()[i] == backend && forall|j: int| 0 <= j < i ==> backend_type_options()[j] != backend) as nat
    } else {
        0
    }
}

fn backend_position_exec(backend: &String) -> (r: usize)
    ensures
        r == backend_position(backend@),
        r < 6,
{
    let mut i: usize = 0;
    while i < 6
        invariant
            i <= 6,
            forall|j: int| 0 <= j < i ==> backend_type_options()[j] != backend@,
        decreases 6 - i,
    {
        let option = backend_type_option(i);
        if option == *backend {
            assert(backend_type_options()[i as int] == backend@);
            assert(forall|j: int| 0 <= j < i ==> backend_type_options()[j] != backend@);
            return i;
        }
        i = i + 1;
    }
    0
}

impl ProviderFormState {
    /// Up/down inside the open backend dropdown: the backend moves to the neighbouring
    /// option, wrapping around; an unknown backend counts as the first option. Outside the
    /// open dropdown nothing changes.
    pub fn move_backend_selection(&mut self, forward: bool)
        ensures
            *final(self) == (ProviderFormState { backend_type: final(self).backend_type, ..*old(self) }),
            final(self).title == old(self).title,
            final(self).submit_label == old(self).submit_label,
            final(self).original_name == old(self).original_name,
            (!old(self).dropdown_open || old(self).focus != ProviderFormFocus::ProviderBackendType)
                ==> final(self).backend_type@ == old(self).backend_type@,
            (old(self).dropdown_open && old(self).focus == ProviderFormFocus::ProviderBackendType)
                ==> final(self).backend_type@ == backend_type_options()[wrap_step(backend_position(old(self).backend_type@), 6, forward) as int],
            final(self).name@ == old(self).name@,
            final(self).endpoint@ == old(self).endpoint@,
            final(self).api_key@ == old(self).api_key@,
            final(self).focus == old(self).focus,
            final(self).dropdown_open == old(self).dropdown_open,
    {
        if !self.dropdown_open || self.focus != ProviderFormFocus::ProviderBackendType {
            return;
        }
        let idx = backend_position_exec(&self.backend_type);
        let new_idx = wrap_step_exec(idx, 6, forward);
        self.backend_type = backend_type_option(new_idx);
    }
}

/// The focus after tab or shift-tab in the provider form.
pub open spec fn cycle_form_focus_spec(f: ProviderFormFocus, forward: bool) -> ProviderFormFocus {
    match (f, forward) {
        (ProviderFormFocus::ProviderName, true) => ProviderFormFocus::ProviderEndpoint,
        (ProviderFormFocus::ProviderEndpoint, true) => ProviderFormFocus::ProviderBackendType,
        (ProviderFormFocus::ProviderBackendType, true) => ProviderFormFocus::ProviderApiKey,
        (ProviderFormFocus::ProviderApiKey, true) => ProviderFormFocus::SubmitButton,
        (ProviderFormFocus::SubmitButton, true) => ProviderFormFocus::CancelButton,
        (ProviderFormFocus::CancelButton, true) => ProviderFormFocus::ProviderName,
        (ProviderFormFocus::ProviderName, false) => ProviderFormFocus::CancelButton,
        (ProviderFormFocus::ProviderEndpoint, false) => ProviderFormFocus::ProviderName,
        (ProviderFormFocus::ProviderBackendType, false) => ProviderFormFocus::ProviderEndpoint,
        (ProviderFormFocus::ProviderApiKey, false) => ProviderFormFocus::ProviderBackendType,
        (ProviderFormFocus::SubmitButton, false) => ProviderFormFocus::ProviderApiKey,
        (ProviderFormFocus::CancelButton, false) => ProviderFormFocus::SubmitButton,
    }
}

/// `s` without its last character; the empty string stays empty.
pub open spec fn drop_last_char(s: Seq<char>) -> Seq<char> {
    if s.len() == 0 { s } else { s.drop_last() }
}

/// Removes the last character of a `String` (std `String::pop`).
/// Trusted: returns the last character, which is removed, or `None` on an empty string.
#[verifier::external_body]
pub fn pop_char(s: &mut String) -> (r: Option<char>)
    ensures
        final(s)@ == drop_last_char(old(s)@),
        old(s)@.len() == 0 ==> r is None,
        old(s)@.len() > 0 ==> r == Some(old(s)@.last()),
{
    s.pop()
}

/// Which row of the edit-providers popup has focus: a provider's name or its delete button.
#[derive(Debug, Clone, Copy, PartialEq, Eq, Structural)]
pub enum EditProvidersFocus {
    ProviderName(usize),
    DeleteButton(usize),
}

/// The provider row a focus points at.
pub open spec fn focus_row(f: EditProvidersFocus) -> nat {
    match f {
        EditProvidersFocus::ProviderName(i) => i as nat,
        EditProvidersFocus::DeleteButton(i) => i as nat,
    }
}

/// The state of the popup listing the providers to edit or delete.
#[derive(Debug, Clone)]
pub struct EditProvidersPopupState {
    pub focus: Option<EditProvidersFocus>,
}

/// The focus after tab/shift-tab in the edit-providers popup over `len` providers: tab
/// goes from a name to its delete button and from a delete button to the next name.
pub open spec fn cycle_edit_focus_spec(focus: Option<EditProvidersFocus>, len: nat, forward: bool) -> Option<EditProvidersFocus> {
    if len == 0 {
        None
    } else {
        let cur = match focus { Some(f) => f, None => EditProvidersFocus::ProviderName(0) };
        Some(match (cur, forward) {
            (EditProvidersFocus::ProviderName(idx), true) => EditProvidersFocus::DeleteButton(idx),
            (EditProvidersFocus::DeleteButton(idx), true) =>
                if idx + 1 < len { EditProvidersFocus::ProviderName((idx + 1) as usize) } else { EditProvidersFocus::ProviderName(0) },
            (EditProvidersFocus::ProviderName(idx), false) =>
                if idx == 0 { EditProvidersFocus::DeleteButton((len - 1) as usize) } else { EditProvidersFocus::DeleteButton((idx - 1) as usize) },
            (EditProvidersFocus::DeleteButton(idx), false) => EditProvidersFocus::ProviderName(idx),
        })
    }
}

/// The row index `i` moves to with up/down over `len` rows, wrapping around.
pub open spec fn wrap_step(i: nat, len: nat, forward: bool) -> nat {
    if forward { (i + 1) % len } else if i == 0 { (len - 1) as nat } else { (i - 1) as nat }
}

/// The focus after up/down in the edit-providers popup: the column stays, the row moves.
pub open spec fn move_edit_focus_spec(focus: Option<EditProvidersFocus>, len: nat, forward: bool) -> Option<EditProvidersFocus> {
    if len == 0 {
        None
    } else {
        let cur = match focus { Some(f) => f, None => EditProvidersFocus::ProviderName(0) };
        Some(match cur {
            EditProvidersFocus::ProviderName(idx) => EditProvidersFocus::ProviderName(wrap_step(idx as nat, len, forward) as usize),
            EditProvidersFocus::DeleteButton(idx) => EditProvidersFocus::DeleteButton(wrap_step(idx as nat, len, forward) as usize),
        })
    }
}

fn wrap_step_exec(i: usize, len: usize, forward: bool) -> (r: usize)
    requires
        len > 0,
        i < usize::MAX,
    ensures
        r == wrap_step(i as nat, len as nat, forward),
{
    if forward {
        (i + 1) % len
    } else if i == 0 {
        len - 1
    } else {
        i - 1
    }
}

impl EditProvidersPopupState {
    /// A popup focused on the first provider's name, or on nothing when the list is empty.
    pub fn new(has_providers: bool) -> (r: Self)
        ensures
            has_providers ==> r.focus == Some(EditProvidersFocus::ProviderName(0)),
            !has_providers ==> r.focus is None,
    {
        EditProvidersPopupState {
            focus: if has_providers { Some(EditProvidersFocus::ProviderName(0)) } else { None },
        }
    }

    /// Tab (`forward`) or shift-tab over a list of `len` providers.
    pub fn cycle_focus(&mut self, len: usize, forward: bool)
        ensures
            final(self).focus == cycle_edit_focus_spec(old(self).focus, len as nat, forward),
    {
        if len == 0 {
            self.focus = None;
            return;
        }
        let cur = match self.focus {
            Some(f) => f,
            None => EditProvidersFocus::ProviderName(0),
        };
        self.focus = Some(match (cur, forward) {
            (EditProvidersFocus::ProviderName(idx), true) => EditProvidersFocus::DeleteButton(idx),
            (EditProvidersFocus::DeleteButton(idx), true) => {
                if idx < len - 1 { EditProvidersFocus::ProviderName(idx + 1) } else { EditProvidersFocus::ProviderName(0) }
            },
            (EditProvidersFocus::ProviderName(idx), false) => {
                if idx == 0 { EditProvidersFocus::DeleteButton(len - 1) } else { EditProvidersFocus::DeleteButton(idx - 1) }
            },
            (EditProvidersFocus::DeleteButton(idx), false) => EditProvidersFocus::ProviderName(idx),
        });
    }

    /// Up (`forward == false`) or down over a list of `len` providers.
    pub fn move_vertically(&mut self, len: usize, forward: bool)
        requires
            old(self).focus matches Some(f) ==> focus_row(f) < usize::MAX,
        ensures
            final(self).focus == move_edit_focus_spec(old(self).focus, len as nat, forward),
    {
        if len == 0 {
            self.focus = None;
            return;
        }
        let cur = match self.focus {
            Some(f) => f,
            None => EditProvidersFocus::ProviderName(0),
        };
        self.focus = Some(match cur {
            EditProvidersFocus::ProviderName(idx) => EditProvidersFocus::ProviderName(wrap_step_exec(idx, len, forward)),
            EditProvidersFocus::DeleteButton(idx) => EditProvidersFocus::DeleteButton(wrap_step_exec(idx, len, forward)),
        });
    }
}

/// Over a non-empty list, the edit-providers focus always points at an existing row.
pub proof fn law_edit_focus_stays_in_range(focus: Option<EditProvidersFocus>, len: nat, forward: bool)
    requires
        len > 0,
        focus matches Some(f) ==> (match f { EditProvidersFocus::ProviderName(i) => i < len, EditProvidersFocus::DeleteButton(i) => i < len }),
    ensures
        cycle_edit_focus_spec(focus, len, forward) matches Some(f) && (match f { EditProvidersFocus::ProviderName(i) => i < len, EditProvidersFocus::DeleteButton(i) => i < len }),
        move_edit_focus_spec(focus, len, forward) matches Some(f) && (match f { EditProvidersFocus::ProviderName(i) => i < len, EditProvidersFocus::DeleteButton(i) => i < len }),
{
}

/// The popup that asks for the API key of a preset provider.
#[derive(Debug, Clone)]
pub struct PresetKeyPopupState {
    pub provider_name: String,
    pub endpoint: String,
    pub api_key: String,
}

impl PresetKeyPopupState {
    /// A popup for `provider_name` at `endpoint`, prefilled with `api_key`.
    pub fn new(provider_name: String, endpoint: String, api_key: String) -> (r: Self)
        ensures
            r.provider_name@ == provider_name@,
            r.endpoint@ == endpoint@,
            r.api_key@ == api_key@,
    {
        PresetKeyPopupState { provider_name, endpoint, api_key }
    }

    /// Whether the key may be saved: it is not blank.
    pub fn can_submit(&self) -> (r: bool)
        ensures
            r == (trim(self.api_key@).len() > 0),
    {
        !str_is_blank(self.api_key.as_str())
    }
}

/// The next focused MCP server row, wrapping around; nothing moves when there are no servers.
pub fn next_mcp_focus(focus: usize, len: usize) -> (r: usize)
    requires
        len > 0 ==> focus < usize::MAX,
    ensures
        len == 0 ==> r == focus,
        len > 0 ==> r == (focus + 1) % (len as int),
{
    if len == 0 {
        focus
    } else {
        (focus + 1) % len
    }
}

/// The previous focused MCP server row, wrapping around.
pub fn prev_mcp_focus(focus: usize, len: usize) -> (r: usize)
    ensures
        len == 0 ==> r == focus,
        len > 0 && focus == 0 ==> r == len - 1,
        len > 0 && focus > 0 ==> r == focus - 1,
{
    if len == 0 {
        focus
    } else if focus == 0 {
        len - 1
    } else {
        focus - 1
    }
}

/// How a stored API key is shown: empty stays empty, a key of more than eight bytes shows
/// its first four and last four bytes around `...`, a shorter key shows four bullets.
pub open spec fn masked_key(key: Seq<u8>) -> Seq<char> {
    if key.len() == 0 {
        Seq::empty()
    } else if key.len() > 8 {
        decode_utf8(key.subrange(0, 4)) + "..."@ + decode_utf8(key.subrange(key.len() - 4, key.len() as int))
    } else {
        "••••"@
    }
}

/// The masked form of an API key for display.
pub fn mask_key(key: &str) -> (r: String)
    requires
        key.spec_bytes().len() <= usize::MAX,
        key.spec_bytes().len() > 8 ==> is_char_boundary(key.spec_bytes(), 4)
            && is_char_boundary(key.spec_bytes(), key.spec_bytes().len() - 4),
    ensures
        r@ == masked_key(key.spec_bytes()),
{
    broadcast use vstd::utf8::encode_utf8_decode_utf8;
    if key.is_empty() {
        proof {
            assert(key@ =~= Seq::<char>::empty());
            assert(vstd::utf8::encode_utf8(Seq::<char>::empty()) =~= Seq::<u8>::empty());
            assert(key.spec_bytes().len() == 0);
        }
        String::new()
    } else if key.len() > 8 {
        let (head, _) = key.split_at(4);
        let (_, tail) = key.split_at(key.len() - 4);
        let s = String::from_str(head);
        let s = concat_str(s, "...");
        let s = concat_str(s, tail);
        proof {
            assert(head@ == decode_utf8(head.spec_bytes()));
            assert(tail@ == decode_utf8(tail.spec_bytes()));
        }
        s
    } else {
        proof {
            assert(key.spec_bytes().len() != 0) by {
                assert(key@.len() != 0);
                vstd::utf8::encode_utf8_first_scalar(key@);
            }
        }
        String::from_str("••••")
    }
}

} // verus!
