use tcui::geometry::{Position, Rect};
use tcui::key_sources::KeySources;
use tcui::render::{HeadingDownscale, MarkdownMode};
use tcui::settings::{
    EditProvidersFocus, EditProvidersPopupState, EditableProvider, GeneralDropdown, GeneralFocus, LocalFocus,
    LocalServerType, PresetKeyPopupState, ProviderFormFocus, ProviderFormState, SettingsTab,
};
use tcui::settings_popup::{
    handle_form_click, EditProvidersHitAreas, FormClickAction, McpServerConfig, ModelInfo, ModelsTabFocus,
    ProviderFormHitAreas, ProvidersAction, ProvidersDropdown, ProvidersTabFocus, SettingsPopup, SettingsPopupInit,
    TextAlignment,
};

fn popup_with_mcps(count: usize) -> SettingsPopup {
    SettingsPopup::new(SettingsPopupInit {
        default_provider: String::new(),
        default_model: String::new(),
        small_model: String::new(),
        use_env_keys: false,
        saved_keys: vec![],
        theme: "system".to_string(),
        theme_keys: vec!["system".to_string(), "gruvbox-dark".to_string(), "nord".to_string()],
        user_alignment: TextAlignment::Left,
        ai_alignment: TextAlignment::Left,
        markdown_mode: MarkdownMode::Full,
        artifact_save_dir: String::new(),
        vault_path: String::new(),
        available_models: vec![],
        db_providers: vec![],
        show_selector: true,
        show_chat_scrollbar: true,
        collapse_thinking: true,
        kitty_enhanced_text: false,
        kitty_heading_downscale: HeadingDownscale::Zero,
        web_search_enabled: false,
        quit_confirmation: true,
        local_enabled: false,
        local_host: String::new(),
        local_port: String::new(),
        local_server_type: LocalServerType::Auto,
        local_selected_model: String::new(),
        local_model_directory: String::new(),
        local_health_interval_seconds: String::new(),
        local_connect_timeout_ms: String::new(),
        local_request_timeout_ms: String::new(),
        local_api_token_env: String::new(),
        detected_local_server: None,
        providers_tab_list: vec![],
        models_provider: String::new(),
        models_available_models: vec![],
        mcp_servers: (0..count)
            .map(|idx| McpServerConfig { name: format!("server-{idx}"), enabled: idx % 2 == 0 })
            .collect(),
    })
}

fn entry(name: &str, endpoint: &str, var: &str, backend: &str, auth: &str) -> (String, String, String, String, String) {
    (name.to_string(), endpoint.to_string(), var.to_string(), backend.to_string(), auth.to_string())
}

fn provider(name: &str, endpoint: &str) -> EditableProvider {
    EditableProvider { name: name.to_string(), endpoint: endpoint.to_string(), backend_type: "openai".to_string() }
}

#[test]
fn settings_popup_starts_on_general_tab() {
    let popup = popup_with_mcps(0);
    assert_eq!(popup.active_tab, SettingsTab::General);
    assert_eq!(popup.general_focus, GeneralFocus::Theme);
}

#[test]
fn settings_tab_activating_preset_provider_row_toggles_provider_enabled_state() {
    // Given
    let mut popup = popup_with_mcps(0);
    popup.active_tab = SettingsTab::Providers;
    popup.db_providers = vec![entry("OpenAI", "https://api.openai.com/v1", "OPENAI_API_KEY", "openai", "api_key")];
    popup.providers_tab_focus = ProvidersTabFocus::PresetProvider(0);

    // When
    let action = popup.activate_focus();

    // Then
    assert!(matches!(action, ProvidersAction::NoAction));
    assert!(popup.disabled_providers.iter().any(|name| name == "OpenAI"));
    assert!(popup.preset_key_popup.is_none());
}

#[test]
fn tests_activating_preset_provider_row_toggles_provider_enabled_state() {
    // Given
    let mut popup = popup_with_mcps(0);
    popup.active_tab = SettingsTab::Providers;
    popup.db_providers = vec![entry("OpenAI", "https://api.openai.com/v1", "OPENAI_API_KEY", "openai", "api_key")];
    popup.providers_tab_focus = ProvidersTabFocus::PresetProvider(0);

    // When
    let action = popup.activate_focus();

    // Then
    assert!(matches!(action, ProvidersAction::NoAction));
    assert!(popup.disabled_providers.iter().any(|name| name == "OpenAI"));
    assert!(popup.preset_key_popup.is_none());
}

#[test]
fn provider_form_state_submits_trimmed_add_provider_action() {
    // Given
    let mut popup = popup_with_mcps(0);
    popup.active_tab = SettingsTab::Providers;
    popup.providers_tab_focus = ProvidersTabFocus::AddProviderButton;
    assert!(matches!(popup.activate_focus(), ProvidersAction::NoAction));
    let form = popup.add_provider_popup.as_mut().expect("add provider form");
    form.name = "  Custom AI  ".to_string();
    form.endpoint = "  https://custom.invalid/v1  ".to_string();
    form.api_key = "  secret-token  ".to_string();
    form.focus = ProviderFormFocus::SubmitButton;

    // When
    let action = popup.activate_provider_popup();

    // Then
    match action {
        ProvidersAction::SubmitAdd { provider, api_key } => {
            assert_eq!(provider.name, "Custom AI");
            assert_eq!(provider.endpoint, "https://custom.invalid/v1");
            assert_eq!(provider.backend_type, "openai");
            assert_eq!(api_key, "secret-token");
        }
        other => panic!("expected submit add action, got {other:?}"),
    }
    assert!(popup.add_provider_popup.is_none());
}

#[test]
fn provider_form_state_blocks_duplicate_provider_name() {
    // Given
    let mut popup = popup_with_mcps(0);
    popup.providers_tab_list = vec![EditableProvider {
        name: "Custom AI".to_string(),
        endpoint: "https://existing.invalid/v1".to_string(),
        backend_type: "openai".to_string(),
    }];
    popup.add_provider_popup = Some(ProviderFormState {
        name: "Custom AI".to_string(),
        endpoint: "https://custom.invalid/v1".to_string(),
        api_key: "secret-token".to_string(),
        focus: ProviderFormFocus::SubmitButton,
        ..ProviderFormState::new_add()
    });

    // When
    let action = popup.activate_provider_popup();

    // Then
    assert!(matches!(action, ProvidersAction::NoAction));
    assert!(popup.add_provider_popup.is_some());
}

#[test]
fn next_and_prev_tab_cycle_through_all_settings_tabs() {
    // Given
    let mut popup = popup_with_mcps(0);
    popup.local_focus = LocalFocus::ApiTokenEnv;

    // When / Then
    popup.next_tab();
    assert_eq!(popup.active_tab, SettingsTab::Keybindings);
    popup.next_tab();
    assert_eq!(popup.active_tab, SettingsTab::Providers);
    popup.next_tab();
    assert_eq!(popup.active_tab, SettingsTab::Models);
    popup.next_tab();
    assert_eq!(popup.active_tab, SettingsTab::Local);
    assert_eq!(popup.local_focus, LocalFocus::Enabled);
    popup.next_tab();
    assert_eq!(popup.active_tab, SettingsTab::Mcp);
    popup.next_tab();
    assert_eq!(popup.active_tab, SettingsTab::General);
    popup.prev_tab();
    assert_eq!(popup.active_tab, SettingsTab::Mcp);
}

#[test]
fn local_text_input_filters_numeric_and_token_fields() {
    // Given
    let mut popup = popup_with_mcps(0);
    popup.active_tab = SettingsTab::Local;

    // When
    popup.local_focus = LocalFocus::Port;
    popup.type_char('x');
    popup.type_char('1');
    popup.type_char('2');
    popup.local_focus = LocalFocus::ApiTokenEnv;
    popup.type_char('A');
    popup.type_char('-');
    popup.type_char('_');
    popup.type_char('9');

    // Then
    assert_eq!(popup.local_port, "12");
    assert_eq!(popup.local_api_token_env, "A_9");
}

#[test]
fn general_settings_edits_vault_path() {
    let mut popup = popup_with_mcps(0);
    popup.active_tab = SettingsTab::General;
    popup.general_focus = GeneralFocus::VaultPath;

    for c in "/tmp/obsidian".chars() {
        popup.type_char(c);
    }
    popup.backspace();

    assert_eq!(popup.vault_path, "/tmp/obsidia");
}

#[test]
fn general_focus_cycles_and_closes_the_dropdown() {
    let mut popup = popup_with_mcps(0);
    popup.general_dropdown_open = Some(GeneralDropdown::Theme);
    popup.next_focus();
    assert_eq!(popup.general_focus, GeneralFocus::UserAlignment);
    assert_eq!(popup.general_dropdown_open, None);
    popup.prev_focus();
    popup.prev_focus();
    assert_eq!(popup.general_focus, GeneralFocus::QuitConfirmation);
}

#[test]
fn general_dropdowns_choose_and_wrap() {
    let mut popup = popup_with_mcps(0);
    assert!(matches!(popup.activate_focus(), ProvidersAction::NoAction));
    assert_eq!(popup.general_dropdown_open, Some(GeneralDropdown::Theme));
    assert_eq!(popup.general_dropdown_len(), 3);
    assert_eq!(popup.general_dropdown_current_idx(), 0);
    popup.general_dropdown_up();
    assert_eq!(popup.theme, "nord");
    assert_eq!(popup.general_dropdown_open, Some(GeneralDropdown::Theme));
    popup.general_dropdown_down();
    assert_eq!(popup.theme, "system");
    assert!(popup.select_general_dropdown_item(1));
    assert_eq!(popup.theme, "gruvbox-dark");
    assert_eq!(popup.general_dropdown_open, None);

    popup.general_focus = GeneralFocus::AiAlignment;
    popup.toggle_general_dropdown(GeneralDropdown::AiAlignment);
    assert!(!popup.select_general_dropdown_item(2));
    assert_eq!(popup.ai_alignment, TextAlignment::Right);
    popup.toggle_general_dropdown(GeneralDropdown::KittyTextScale);
    assert!(!popup.select_general_dropdown_item(7));
    assert_eq!(popup.kitty_heading_downscale, HeadingDownscale::Zero);
    assert_eq!(popup.general_dropdown_open, None);
}

#[test]
fn general_switches_flip_on_activation() {
    let mut popup = popup_with_mcps(0);
    popup.general_focus = GeneralFocus::QuitConfirmation;
    popup.activate_focus();
    assert!(!popup.quit_confirmation);
    popup.general_focus = GeneralFocus::WebSearchEnabled;
    popup.activate_focus();
    assert!(popup.web_search_enabled);
    popup.general_focus = GeneralFocus::ArtifactSaveDir;
    popup.type_char('d');
    popup.activate_focus();
    assert_eq!(popup.artifact_save_dir, "d");
}

#[test]
fn local_tab_activation_switches_and_cycles_server_type() {
    let mut popup = popup_with_mcps(0);
    popup.active_tab = SettingsTab::Local;
    popup.activate_focus();
    assert!(popup.local_enabled);
    popup.next_focus();
    popup.next_focus();
    popup.next_focus();
    assert_eq!(popup.local_focus, LocalFocus::ServerType);
    popup.activate_focus();
    assert_eq!(popup.local_server_type, LocalServerType::Ollama);
    popup.local_focus = LocalFocus::Host;
    popup.type_char('h');
    popup.type_char('i');
    popup.backspace();
    assert_eq!(popup.local_host, "h");
}

#[test]
fn mcp_focus_wraps_and_activation_toggles_the_server() {
    let mut popup = popup_with_mcps(3);
    popup.active_tab = SettingsTab::Mcp;
    popup.prev_focus();
    assert_eq!(popup.mcp_focus, 2);
    popup.next_focus();
    assert_eq!(popup.mcp_focus, 0);
    assert!(popup.mcp_servers[0].enabled);
    popup.activate_focus();
    assert!(!popup.mcp_servers[0].enabled);
    assert_eq!(popup.mcp_servers[0].name, "server-0");
}

#[test]
fn enabled_provider_names_are_sorted_without_disabled_ones() {
    let mut popup = popup_with_mcps(0);
    popup.db_providers = vec![
        entry("Zeta", "z", "ZETA_API_KEY", "openai", "api_key"),
        entry("Alpha", "a", "ALPHA_API_KEY", "openai", "api_key"),
        entry("Mid", "m", "MID_API_KEY", "openai", "api_key"),
    ];
    assert_eq!(popup.all_enabled_provider_names(), vec!["Alpha", "Mid", "Zeta"]);
    popup.disabled_providers = vec!["Mid".to_string()];
    assert_eq!(popup.all_enabled_provider_names(), vec!["Alpha", "Zeta"]);
}

#[test]
fn providers_dropdown_selects_provider_and_small_model_parts() {
    let mut popup = popup_with_mcps(0);
    popup.db_providers = vec![
        entry("Beta", "b", "BETA_API_KEY", "openai", "api_key"),
        entry("Alpha", "a", "ALPHA_API_KEY", "openai", "api_key"),
    ];
    popup.default_model = "old-model".to_string();
    popup.small_model = "Alpha:tiny:extra".to_string();
    assert_eq!(popup.small_model_provider(), "Alpha");
    assert_eq!(popup.small_model_name(), "tiny");

    popup.toggle_providers_dropdown(ProvidersDropdown::DefaultProvider);
    popup.select_providers_dropdown_item(1);
    assert_eq!(popup.default_provider, "Beta");
    assert_eq!(popup.default_model, "");
    assert_eq!(popup.providers_dropdown_open, None);

    popup.toggle_providers_dropdown(ProvidersDropdown::SmallProvider);
    popup.select_providers_dropdown_item(1);
    assert_eq!(popup.small_model, "Beta:tiny");

    popup.available_models = vec![ModelInfo { id: "big".to_string(), context_window: Some(8192) }];
    popup.toggle_providers_dropdown(ProvidersDropdown::SmallModel);
    popup.select_providers_dropdown_item(0);
    assert_eq!(popup.small_model, "Beta:big");
    popup.toggle_providers_dropdown(ProvidersDropdown::DefaultModel);
    popup.select_providers_dropdown_item(5);
    assert_eq!(popup.default_model, "");
}

#[test]
fn small_model_without_colon_has_no_model_part() {
    let mut popup = popup_with_mcps(0);
    popup.small_model = "Solo".to_string();
    assert_eq!(popup.small_model_provider(), "Solo");
    assert_eq!(popup.small_model_name(), "");
    assert!(popup.small_model_tuple().is_some());
    popup.small_model = ":model".to_string();
    assert!(popup.small_model_tuple().is_none());
}

#[test]
fn providers_dropdown_scrolls_within_the_list() {
    let mut popup = popup_with_mcps(0);
    popup.available_models = (0..10).map(|i| ModelInfo { id: format!("m{i}"), context_window: None }).collect();
    popup.active_tab = SettingsTab::Providers;
    popup.providers_tab_focus = ProvidersTabFocus::DefaultModel;
    popup.activate_focus();
    assert_eq!(popup.providers_dropdown_open, Some(ProvidersDropdown::DefaultModel));
    popup.next_focus();
    popup.next_focus();
    popup.next_focus();
    assert_eq!(popup.dropdown_scroll_offset, 2);
    popup.prev_focus();
    assert_eq!(popup.dropdown_scroll_offset, 1);
    popup.select_providers_dropdown_item(0);
    assert_eq!(popup.default_model, "m1");
    assert_eq!(popup.dropdown_scroll_offset, 0);
}

#[test]
fn providers_tab_focus_cycles_through_main_rows() {
    let mut popup = popup_with_mcps(0);
    popup.active_tab = SettingsTab::Providers;
    popup.next_focus();
    assert_eq!(popup.providers_tab_focus, ProvidersTabFocus::DefaultModel);
    popup.next_focus();
    assert_eq!(popup.providers_tab_focus, ProvidersTabFocus::UseEnvToggle);
    popup.prev_focus();
    popup.prev_focus();
    popup.prev_focus();
    assert_eq!(popup.providers_tab_focus, ProvidersTabFocus::ReloadModelsButton);
    popup.providers_tab_focus = ProvidersTabFocus::SavedKeyList(3);
    popup.next_focus();
    assert_eq!(popup.providers_tab_focus, ProvidersTabFocus::DefaultProvider);
}

#[test]
fn models_tab_focus_and_disabled_models() {
    let mut popup = popup_with_mcps(0);
    popup.active_tab = SettingsTab::Models;
    popup.models_provider = "Codex".to_string();
    popup.models_available_models = vec![
        ModelInfo { id: "gpt-5.5".to_string(), context_window: Some(400_000) },
        ModelInfo { id: "gpt-5.4".to_string(), context_window: Some(256_000) },
    ];
    popup.prev_focus();
    assert_eq!(popup.models_tab_focus, ModelsTabFocus::Provider);
    popup.next_focus();
    popup.next_focus();
    assert_eq!(popup.models_tab_focus, ModelsTabFocus::Model(1));
    popup.activate_focus();
    assert_eq!(popup.disabled_models, vec!["Codex:gpt-5.4"]);
    popup.activate_focus();
    assert!(popup.disabled_models.is_empty());
    popup.next_focus();
    assert_eq!(popup.models_tab_focus, ModelsTabFocus::Provider);
    assert_eq!(SettingsPopup::disabled_model_key("p", "m"), "p:m");
}

#[test]
fn models_dropdown_selects_an_enabled_provider() {
    let mut popup = popup_with_mcps(0);
    popup.db_providers = vec![
        entry("Beta", "b", "BETA_API_KEY", "openai", "api_key"),
        entry("Alpha", "a", "ALPHA_API_KEY", "openai", "api_key"),
    ];
    popup.toggle_models_dropdown();
    assert!(popup.models_dropdown_open);
    popup.models_dropdown_down();
    assert_eq!(popup.models_dropdown_scroll_offset, 0);
    popup.select_models_provider_dropdown_item(1);
    assert_eq!(popup.models_provider, "Beta");
    assert!(!popup.models_dropdown_open);
}

#[test]
fn provider_popups_open_and_close_in_order() {
    let mut popup = popup_with_mcps(0);
    popup.providers_tab_list = vec![provider("Custom", "https://c.invalid")];
    popup.saved_keys = vec![("Custom".to_string(), "k-1".to_string())];
    assert!(!popup.provider_popup_active());
    popup.open_edit_providers_popup();
    assert_eq!(popup.edit_providers_popup.as_ref().unwrap().focus, Some(EditProvidersFocus::ProviderName(0)));
    popup.open_edit_provider_popup(0);
    let form = popup.edit_provider_popup.as_ref().unwrap();
    assert_eq!(form.api_key, "k-1");
    assert_eq!(form.original_name.as_deref(), Some("Custom"));
    assert!(popup.provider_popup_active());
    assert!(popup.close_active_provider_popup());
    assert!(popup.edit_provider_popup.is_none());
    assert!(popup.edit_providers_popup.is_some());
    assert!(popup.close_active_provider_popup());
    assert!(!popup.close_active_provider_popup());
}

#[test]
fn edit_list_activation_opens_form_or_asks_to_delete() {
    let mut popup = popup_with_mcps(0);
    popup.providers_tab_list = vec![provider("A", "a"), provider("B", "b")];
    popup.open_edit_providers_popup();
    popup.next_popup_focus();
    popup.next_popup_focus();
    popup.next_popup_focus();
    assert_eq!(popup.edit_providers_popup.as_ref().unwrap().focus, Some(EditProvidersFocus::DeleteButton(1)));
    match popup.activate_provider_popup() {
        ProvidersAction::DeleteProvider(name) => assert_eq!(name, "B"),
        other => panic!("expected delete, got {other:?}"),
    }
    popup.popup_up();
    assert_eq!(popup.edit_providers_popup.as_ref().unwrap().focus, Some(EditProvidersFocus::DeleteButton(0)));
    popup.prev_popup_focus();
    assert!(matches!(popup.activate_provider_popup(), ProvidersAction::NoAction));
    assert_eq!(popup.edit_provider_popup.as_ref().unwrap().name, "A");
}

#[test]
fn edit_form_submits_with_original_name() {
    let mut popup = popup_with_mcps(0);
    popup.providers_tab_list = vec![provider("Old", "https://old.invalid")];
    popup.open_edit_provider_popup(0);
    let form = popup.edit_provider_popup.as_mut().unwrap();
    form.name = " New ".to_string();
    form.api_key = "key".to_string();
    form.focus = ProviderFormFocus::SubmitButton;
    match popup.activate_provider_popup() {
        ProvidersAction::SubmitEdit { original_name, provider, api_key } => {
            assert_eq!(original_name, "Old");
            assert_eq!(provider.name, "New");
            assert_eq!(api_key, "key");
        }
        other => panic!("expected submit edit, got {other:?}"),
    }
    assert!(popup.edit_provider_popup.is_none());
}

#[test]
fn form_backend_row_toggles_dropdown_and_moves_selection() {
    let mut popup = popup_with_mcps(0);
    popup.open_add_provider_popup();
    popup.next_popup_focus();
    popup.next_popup_focus();
    assert_eq!(popup.add_provider_popup.as_ref().unwrap().focus, ProviderFormFocus::ProviderBackendType);
    popup.activate_provider_popup();
    assert!(popup.add_provider_popup.as_ref().unwrap().dropdown_open);
    popup.popup_down();
    assert_eq!(popup.add_provider_popup.as_ref().unwrap().backend_type, "anthropic");
    popup.popup_up();
    popup.popup_up();
    assert_eq!(popup.add_provider_popup.as_ref().unwrap().backend_type, "alibaba");
    popup.activate_provider_popup();
    assert!(!popup.add_provider_popup.as_ref().unwrap().dropdown_open);
    popup.prev_popup_focus();
    popup.prev_popup_focus();
    popup.type_char('x');
    assert_eq!(popup.add_provider_popup.as_ref().unwrap().name, "x");
    popup.backspace();
    assert_eq!(popup.add_provider_popup.as_ref().unwrap().name, "");
}

#[test]
fn preset_key_popup_saves_trimmed_key() {
    let mut popup = popup_with_mcps(0);
    popup.db_providers = vec![entry("OpenAI", "https://api.openai.com/v1", "OPENAI_API_KEY", "openai", "api_key")];
    popup.saved_keys = vec![("OpenAI".to_string(), " sk ".to_string())];
    popup.open_preset_key_popup(0);
    assert_eq!(popup.providers_tab_focus, ProvidersTabFocus::PopupApiKey);
    let key_popup = popup.preset_key_popup.as_ref().unwrap();
    assert_eq!(key_popup.endpoint, "https://api.openai.com/v1");
    popup.type_char('x');
    popup.next_popup_focus();
    assert_eq!(popup.providers_tab_focus, ProvidersTabFocus::PopupSaveButton);
    match popup.activate_provider_popup() {
        ProvidersAction::SavePresetKey { provider_name, api_key } => {
            assert_eq!(provider_name, "OpenAI");
            assert_eq!(api_key, "sk x");
        }
        other => panic!("expected save, got {other:?}"),
    }
    assert!(popup.preset_key_popup.is_none());
}

#[test]
fn key_popup_clicks_focus_and_cancel() {
    let mut popup = popup_with_mcps(0);
    popup.preset_key_popup = Some(PresetKeyPopupState::new("Groq".to_string(), String::new(), String::new()));
    popup.providers_tab_hit_areas.popup_api_key = Some(Rect::new(0, 0, 10, 1));
    popup.providers_tab_hit_areas.popup_cancel = Some(Rect::new(0, 2, 10, 1));
    assert!(matches!(popup.handle_providers_click(Position { x: 3, y: 0 }), ProvidersAction::NoAction));
    assert_eq!(popup.providers_tab_focus, ProvidersTabFocus::PopupApiKey);
    assert!(matches!(popup.handle_providers_click(Position { x: 3, y: 5 }), ProvidersAction::NoAction));
    assert!(popup.preset_key_popup.is_some());
    popup.handle_providers_click(Position { x: 3, y: 2 });
    assert!(popup.preset_key_popup.is_none());
    assert_eq!(popup.providers_tab_focus, ProvidersTabFocus::PopupCancelButton);
}

#[test]
fn preset_list_holds_presets_then_search_services() {
    let mut popup = popup_with_mcps(0);
    popup.db_providers = vec![
        entry("OpenAI", "o", "OPENAI_API_KEY", "openai", "api_key"),
        entry("Custom", "c", "CUSTOM_API_KEY", "openai", "api_key"),
        entry("Codex", "x", "", "openai", "oauth"),
    ];
    let presets = popup.preset_api_key_providers();
    let names: Vec<&str> = presets.iter().map(|e| e.0.as_str()).collect();
    assert_eq!(names, vec!["OpenAI", "Exa Search", "Tavily Search", "Firecrawl Search"]);
    assert_eq!(presets[1].3, "search");
    assert_eq!(popup.oauth_providers().len(), 1);
    let custom = popup.custom_key_providers();
    assert_eq!(custom.len(), 1);
    assert_eq!(custom[0].0, "Custom");
    popup.active_tab = SettingsTab::Providers;
    popup.providers_tab_focus = ProvidersTabFocus::OAuthProvider(0);
    popup.activate_focus();
    assert_eq!(popup.disabled_providers, vec!["Codex"]);
    popup.providers_tab_focus = ProvidersTabFocus::SavedKeyList(0);
    popup.activate_focus();
    popup.activate_focus();
    assert_eq!(popup.disabled_providers, vec!["Codex"]);
}

#[test]
fn providers_buttons_answer_actions() {
    let mut popup = popup_with_mcps(0);
    popup.active_tab = SettingsTab::Providers;
    popup.providers_tab_focus = ProvidersTabFocus::UseEnvToggle;
    assert!(matches!(popup.activate_focus(), ProvidersAction::ToggleUseEnv));
    popup.providers_tab_focus = ProvidersTabFocus::ReloadModelsButton;
    assert!(matches!(popup.activate_focus(), ProvidersAction::RefreshModels));
    popup.providers_tab_focus = ProvidersTabFocus::EditProvidersButton;
    popup.activate_focus();
    assert_eq!(popup.edit_providers_popup.as_ref().unwrap().focus, None);
}

#[test]
fn adding_and_updating_providers_keeps_lists_sorted() {
    let mut popup = popup_with_mcps(0);
    popup.db_providers = vec![entry("Zed", "z", "ZED_API_KEY", "openai", "api_key")];
    popup.providers_tab_list = vec![provider("Zed", "z")];
    popup.apply_add_provider(provider("Custom AI", "https://c.invalid"), "k1".to_string());
    assert_eq!(popup.db_providers[0].0, "Custom AI");
    assert_eq!(popup.db_providers[0].2, "CUSTOM_AI_API_KEY");
    assert_eq!(popup.db_providers[0].4, "api_key");
    assert_eq!(popup.providers_tab_list[1].name, "Zed");
    assert_eq!(popup.saved_keys, vec![("Custom AI".to_string(), "k1".to_string())]);

    popup.default_provider = "Custom AI".to_string();
    popup.default_model = "m".to_string();
    popup.apply_update_provider("Custom AI", provider("Zz", "https://n.invalid"), "k2".to_string());
    assert_eq!(popup.db_providers[1].0, "Zz");
    assert_eq!(popup.db_providers[1].2, "ZZ_API_KEY");
    assert_eq!(popup.providers_tab_list[1].endpoint, "https://n.invalid");
    assert_eq!(popup.saved_keys, vec![("Zz".to_string(), "k2".to_string())]);
    assert_eq!(popup.default_provider, "Zz");
    assert_eq!(popup.default_model, "");
    assert_eq!(popup.provider_endpoint("Zz").as_deref(), Some("https://n.invalid"));
    assert_eq!(popup.provider_endpoint("Nope"), None);
}

#[test]
fn empty_key_removes_the_saved_key() {
    let mut popup = popup_with_mcps(0);
    popup.saved_keys = vec![("B".to_string(), "2".to_string()), ("A".to_string(), "1".to_string())];
    popup.set_saved_key("C".to_string(), "3".to_string());
    assert_eq!(popup.saved_keys[0].0, "A");
    assert_eq!(popup.saved_keys[2].0, "C");
    popup.apply_preset_key_save("A".to_string(), String::new());
    assert_eq!(popup.saved_keys.len(), 2);
    assert!(popup.has_saved_key("B"));
    assert!(!popup.has_saved_key("A"));
}

#[test]
fn removing_a_provider_clears_its_traces() {
    let mut popup = popup_with_mcps(0);
    popup.db_providers = vec![entry("A", "a", "A_API_KEY", "openai", "api_key"), entry("B", "b", "B_API_KEY", "openai", "api_key")];
    popup.providers_tab_list = vec![provider("A", "a"), provider("B", "b")];
    popup.saved_keys = vec![("A".to_string(), "1".to_string()), ("B".to_string(), "2".to_string())];
    popup.default_provider = "A".to_string();
    popup.edit_providers_popup = Some(EditProvidersPopupState { focus: Some(EditProvidersFocus::DeleteButton(1)) });
    popup.open_edit_provider_popup(0);
    popup.remove_provider_by_name("A");
    assert_eq!(popup.db_providers.len(), 1);
    assert_eq!(popup.providers_tab_list.len(), 1);
    assert_eq!(popup.default_provider, "B");
    assert_eq!(popup.edit_providers_popup.as_ref().unwrap().focus, Some(EditProvidersFocus::DeleteButton(0)));
    assert!(popup.edit_provider_popup.is_none());
}

#[test]
fn keys_are_gathered_from_env_dotenv_and_oauth() {
    let mut popup = popup_with_mcps(0);
    popup.db_providers = vec![
        entry("OpenAI", "o", "OPENAI_API_KEY", "openai", "api_key"),
        entry("Groq", "g", "GROQ_API_KEY", "openai", "api_key"),
        entry("Codex", "x", "CODEX_KEY", "openai", "oauth"),
    ];
    popup.saved_keys = vec![("Groq".to_string(), "old".to_string())];
    let sources = KeySources {
        env: vec![
            ("OPENAI_API_KEY".to_string(), "from-env".to_string()),
            ("GROQ_API_KEY".to_string(), String::new()),
            ("CODEX_KEY".to_string(), "ignored".to_string()),
        ],
        dotenv_texts: vec![
            "# comment\n  GROQ_API_KEY = nope\nGROQ_API_KEY=\"'quoted'\"\r\n\nEXA_API_KEY= exa \n".to_string(),
        ],
        oauth_tokens: vec!["Codex".to_string()],
    };
    popup.grab_keys_from_env(&sources);
    assert_eq!(
        popup.saved_keys,
        vec![
            ("Codex".to_string(), "OAuth token found".to_string()),
            ("Exa Search".to_string(), "exa".to_string()),
            ("Groq".to_string(), "quoted".to_string()),
            ("OpenAI".to_string(), "from-env".to_string()),
        ]
    );
}

#[test]
fn oauth_check_reports_found_providers() {
    let mut popup = popup_with_mcps(0);
    popup.db_providers = vec![entry("Codex", "x", "", "openai", "oauth"), entry("Other", "y", "", "openai", "oauth")];
    let sources = KeySources { env: vec![], dotenv_texts: vec![], oauth_tokens: vec!["Other".to_string()] };
    assert_eq!(popup.check_oauth_tokens(&sources), vec!["Other"]);
    assert_eq!(popup.saved_keys, vec![("Other".to_string(), "OAuth token found".to_string())]);
}

#[test]
fn settings_tab_tab_hit_areas_include_models_before_local_and_mcp() {
    // Given
    let popup = popup_with_mcps(0);
    let area = SettingsPopup::popup_area(Rect::new(0, 0, 100, 30));

    // When
    let hit_areas = popup.tab_hit_areas(area);

    // Then
    assert_eq!(hit_areas.len(), 6);
    assert!(hit_areas[3].x < hit_areas[4].x);
    assert!(hit_areas[4].x < hit_areas[5].x);
}

#[test]
fn tests_tab_hit_areas_include_models_before_local_and_mcp() {
    // Given
    let popup = popup_with_mcps(0);
    let area = SettingsPopup::popup_area(Rect::new(0, 0, 100, 30));

    // When
    let hit_areas = popup.tab_hit_areas(area);

    // Then
    assert_eq!(hit_areas.len(), 6);
    assert!(hit_areas[3].x < hit_areas[4].x);
    assert!(hit_areas[4].x < hit_areas[5].x);
}

#[test]
fn settings_popup_area_is_centered_inside_the_screen() {
    let area = SettingsPopup::popup_area(Rect::new(0, 0, 100, 40));
    assert!(area.width >= 64 && area.width <= 66);
    assert!(area.height >= 29 && area.height <= 31);
    assert!(area.x >= 16 && area.x <= 19);
    assert!(area.y >= 4 && area.y <= 6);
    assert!(area.x + area.width <= 100 && area.y + area.height <= 40);
}

#[test]
fn tab_hit_areas_follow_the_titles() {
    let popup = popup_with_mcps(0);
    let areas = popup.tab_hit_areas(Rect::new(10, 5, 80, 20));
    assert_eq!(areas[0], Rect::new(11, 6, 7, 3));
    assert_eq!(areas[1], Rect::new(19, 6, 11, 3));
    assert_eq!(areas[5], Rect::new(54, 6, 3, 3));
}

fn form_areas() -> ProviderFormHitAreas {
    ProviderFormHitAreas {
        name: Some(Rect::new(0, 0, 20, 1)),
        endpoint: Some(Rect::new(0, 1, 20, 1)),
        backend_type: Some(Rect::new(0, 2, 20, 1)),
        api_key: Some(Rect::new(0, 3, 20, 1)),
        submit_button: Some(Rect::new(0, 5, 8, 1)),
        cancel_button: Some(Rect::new(10, 5, 8, 1)),
        dropdown_items: (0..6).map(|i| Rect::new(0, 3 + i, 20, 1)).collect(),
    }
}

#[test]
fn form_clicks_move_focus_and_toggle_dropdown() {
    let areas = form_areas();
    let mut form = ProviderFormState::new_add();
    assert_eq!(handle_form_click(&mut form, &areas, Position { x: 1, y: 1 }), Some(FormClickAction::Noop));
    assert_eq!(form.focus, ProviderFormFocus::ProviderEndpoint);
    handle_form_click(&mut form, &areas, Position { x: 1, y: 2 });
    assert_eq!(form.focus, ProviderFormFocus::ProviderBackendType);
    assert!(form.dropdown_open);
    assert_eq!(handle_form_click(&mut form, &areas, Position { x: 1, y: 6 }), Some(FormClickAction::Noop));
    assert_eq!(form.backend_type, "ollama");
    assert!(!form.dropdown_open);
    assert_eq!(handle_form_click(&mut form, &areas, Position { x: 1, y: 3 }), Some(FormClickAction::Noop));
    assert_eq!(form.focus, ProviderFormFocus::ProviderApiKey);
    assert_eq!(handle_form_click(&mut form, &areas, Position { x: 12, y: 5 }), Some(FormClickAction::Activate));
    assert_eq!(form.focus, ProviderFormFocus::CancelButton);
    assert_eq!(handle_form_click(&mut form, &areas, Position { x: 30, y: 30 }), None);
    assert_eq!(form.focus, ProviderFormFocus::CancelButton);
}

#[test]
fn add_form_cancel_click_closes_it() {
    let mut popup = popup_with_mcps(0);
    popup.open_add_provider_popup();
    let rows = EditProvidersHitAreas { provider_rows: vec![] };
    assert!(matches!(popup.handle_provider_popup_click(Position { x: 1, y: 0 }, &form_areas(), &rows), ProvidersAction::NoAction));
    assert_eq!(popup.add_provider_popup.as_ref().unwrap().focus, ProviderFormFocus::ProviderName);
    popup.handle_provider_popup_click(Position { x: 12, y: 5 }, &form_areas(), &rows);
    assert!(popup.add_provider_popup.is_none());
}

#[test]
fn add_form_submit_click_submits_a_complete_form() {
    let mut popup = popup_with_mcps(0);
    popup.open_add_provider_popup();
    {
        let form = popup.add_provider_popup.as_mut().unwrap();
        form.name = "Mine".to_string();
        form.endpoint = "https://mine.invalid".to_string();
        form.api_key = "k".to_string();
    }
    let rows = EditProvidersHitAreas { provider_rows: vec![] };
    match popup.handle_provider_popup_click(Position { x: 2, y: 5 }, &form_areas(), &rows) {
        ProvidersAction::SubmitAdd { provider, api_key } => {
            assert_eq!(provider.name, "Mine");
            assert_eq!(api_key, "k");
        }
        other => panic!("expected submit, got {other:?}"),
    }
    assert!(popup.add_provider_popup.is_none());
}

#[test]
fn edit_list_clicks_open_a_form_or_ask_to_delete() {
    let mut popup = popup_with_mcps(0);
    popup.providers_tab_list = vec![provider("A", "a"), provider("B", "b")];
    popup.open_edit_providers_popup();
    let rows = EditProvidersHitAreas {
        provider_rows: vec![
            (Rect::new(0, 0, 10, 1), Rect::new(10, 0, 4, 1)),
            (Rect::new(0, 1, 10, 1), Rect::new(10, 1, 4, 1)),
        ],
    };
    match popup.handle_provider_popup_click(Position { x: 11, y: 1 }, &form_areas(), &rows) {
        ProvidersAction::DeleteProvider(name) => assert_eq!(name, "B"),
        other => panic!("expected delete, got {other:?}"),
    }
    assert_eq!(popup.edit_providers_popup.as_ref().unwrap().focus, Some(EditProvidersFocus::DeleteButton(1)));
    assert!(matches!(popup.handle_provider_popup_click(Position { x: 2, y: 0 }, &form_areas(), &rows), ProvidersAction::NoAction));
    assert_eq!(popup.edit_providers_popup.as_ref().unwrap().focus, Some(EditProvidersFocus::ProviderName(0)));
    assert_eq!(popup.edit_provider_popup.as_ref().unwrap().name, "A");
}

#[test]
fn key_popup_takes_clicks_before_other_popups() {
    let mut popup = popup_with_mcps(0);
    popup.open_add_provider_popup();
    popup.preset_key_popup = Some(PresetKeyPopupState::new("Groq".to_string(), String::new(), String::new()));
    popup.providers_tab_hit_areas.popup_cancel = Some(Rect::new(0, 0, 10, 1));
    let rows = EditProvidersHitAreas { provider_rows: vec![] };
    popup.handle_provider_popup_click(Position { x: 1, y: 0 }, &form_areas(), &rows);
    assert!(popup.preset_key_popup.is_none());
    assert_eq!(popup.add_provider_popup.as_ref().unwrap().focus, ProviderFormFocus::ProviderName);
    let mut other = popup_with_mcps(0);
    other.preset_key_popup = Some(PresetKeyPopupState::new("Groq".to_string(), String::new(), String::new()));
    other.providers_tab_hit_areas.popup_api_key = Some(Rect::new(0, 0, 10, 1));
    assert!(matches!(other.handle_preset_key_popup_click(Position { x: 1, y: 0 }), ProvidersAction::NoAction));
    assert_eq!(other.providers_tab_focus, ProvidersTabFocus::PopupApiKey);
}

#[test]
fn tab_positions_round_trip_and_default_to_general() {
    let mut popup = popup_with_mcps(0);
    for i in 0..6 {
        popup.active_tab = SettingsPopup::tab_from_index(i);
        assert_eq!(popup.tab_index(), i);
    }
    assert_eq!(SettingsPopup::tab_from_index(9), SettingsTab::General);
    assert_eq!(SettingsPopup::tab_from_index(3), SettingsTab::Models);
}

#[test]
fn backend_labels_name_known_backends() {
    assert_eq!(SettingsPopup::backend_label("openai-responses"), "OpenAI Responses");
    assert_eq!(SettingsPopup::backend_label("gemini"), "Gemini");
    assert_eq!(SettingsPopup::backend_label("custom"), "custom");
}

#[test]
fn providers_dropdown_layout_lists_enabled_providers_below_its_row() {
    let mut popup = popup_with_mcps(0);
    popup.db_providers = vec![
        entry("OpenAI", "https://api.openai.com/v1", "OPENAI_API_KEY", "openai", "api_key"),
        entry("Groq", "https://api.groq.com", "GROQ_API_KEY", "openai", "api_key"),
    ];
    popup.default_provider = "OpenAI".to_string();
    let chunks = vec![Rect::new(2, 2, 30, 3), Rect::new(2, 5, 30, 3), Rect::new(2, 8, 30, 3)];
    assert!(popup.providers_dropdown_layout(&chunks).is_none());
    popup.providers_dropdown_open = Some(ProvidersDropdown::DefaultProvider);
    let layout = popup.providers_dropdown_layout(&chunks).expect("dropdown");
    assert_eq!(layout.labels, vec!["Groq".to_string(), "OpenAI".to_string()]);
    assert_eq!(layout.selected, vec![false, true]);
    assert_eq!(layout.area, Rect::new(2, 5, 30, 4));
    popup.providers_dropdown_open = Some(ProvidersDropdown::DefaultModel);
    assert!(popup.providers_dropdown_layout(&chunks).is_none());
}
