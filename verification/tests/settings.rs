use tcui::settings::{
    backend_type_option, cycle_form_focus_value, mask_key, next_local_server_type, next_mcp_focus, prev_mcp_focus,
    EditProvidersFocus, EditProvidersPopupState, EditableProvider, GeneralDropdown, GeneralFocus, LocalFocus,
    LocalServerType, PresetKeyPopupState, ProviderFormFocus, ProviderFormState, SettingsTab,
};

#[test]
fn local_server_type_cycles_through_all_variants() {
    assert_eq!(next_local_server_type(LocalServerType::Auto), LocalServerType::Ollama);
    assert_eq!(next_local_server_type(LocalServerType::Ollama), LocalServerType::LlamaCpp);
    assert_eq!(next_local_server_type(LocalServerType::LlamaCpp), LocalServerType::LmStudio);
    assert_eq!(next_local_server_type(LocalServerType::LmStudio), LocalServerType::OpenAiCompat);
    assert_eq!(next_local_server_type(LocalServerType::OpenAiCompat), LocalServerType::Auto);
}

#[test]
fn provider_form_can_submit_only_when_all_fields_present() {
    let mut form = ProviderFormState::new_add();
    assert!(!form.can_submit());

    form.name = "Test".to_string();
    assert!(!form.can_submit());

    form.endpoint = "https://api.test.com".to_string();
    assert!(!form.can_submit());

    form.backend_type = "openai".to_string();
    assert!(!form.can_submit());

    form.api_key = "sk-123".to_string();
    assert!(form.can_submit());
}

#[test]
fn provider_form_can_submit_rejects_whitespace_only() {
    let mut form = ProviderFormState::new_add();
    form.name = "   ".to_string();
    form.endpoint = "  ".to_string();
    form.backend_type = "  ".to_string();
    form.api_key = "  ".to_string();
    assert!(!form.can_submit());
}

#[test]
fn edit_providers_popup_focus_none_when_empty() {
    let popup = EditProvidersPopupState::new(false);
    assert_eq!(popup.focus, None);
}

#[test]
fn edit_providers_popup_focus_first_when_providers_exist() {
    let popup = EditProvidersPopupState::new(true);
    assert_eq!(popup.focus, Some(EditProvidersFocus::ProviderName(0)));
}

#[test]
fn preset_key_popup_can_submit_requires_api_key() {
    let popup = PresetKeyPopupState::new("Test".to_string(), "".to_string(), "".to_string());
    assert!(!popup.can_submit());

    let popup = PresetKeyPopupState::new("Test".to_string(), "".to_string(), "sk-123".to_string());
    assert!(popup.can_submit());
}

#[test]
fn settings_tabs_cycle_in_display_order() {
    let order = [
        SettingsTab::General,
        SettingsTab::Keybindings,
        SettingsTab::Providers,
        SettingsTab::Models,
        SettingsTab::Local,
        SettingsTab::Mcp,
    ];
    for i in 0..order.len() {
        assert_eq!(order[i].next(), order[(i + 1) % order.len()]);
        assert_eq!(order[(i + 1) % order.len()].prev(), order[i]);
    }
}

#[test]
fn general_focus_visits_the_vault_path_after_the_save_directory() {
    assert_eq!(GeneralFocus::ArtifactSaveDir.next(), GeneralFocus::VaultPath);
    assert_eq!(GeneralFocus::VaultPath.prev(), GeneralFocus::ArtifactSaveDir);
    assert_eq!(GeneralFocus::QuitConfirmation.next(), GeneralFocus::Theme);
    assert_eq!(GeneralFocus::Theme.prev(), GeneralFocus::QuitConfirmation);
    let mut f = GeneralFocus::Theme;
    for _ in 0..12 {
        f = f.next();
    }
    assert_eq!(f, GeneralFocus::Theme);
}

#[test]
fn general_rows_with_dropdowns() {
    assert_eq!(GeneralFocus::Theme.dropdown(), Some(GeneralDropdown::Theme));
    assert_eq!(GeneralFocus::KittyTextScale.dropdown(), Some(GeneralDropdown::KittyTextScale));
    assert_eq!(GeneralFocus::VaultPath.dropdown(), None);
}

#[test]
fn local_focus_wraps_both_ways() {
    assert_eq!(LocalFocus::ApiTokenEnv.next(), LocalFocus::Enabled);
    assert_eq!(LocalFocus::Enabled.prev(), LocalFocus::ApiTokenEnv);
    assert_eq!(LocalFocus::Port.next(), LocalFocus::ServerType);
}

#[test]
fn form_focus_back_undoes_forward() {
    let all = [
        ProviderFormFocus::ProviderName,
        ProviderFormFocus::ProviderEndpoint,
        ProviderFormFocus::ProviderBackendType,
        ProviderFormFocus::ProviderApiKey,
        ProviderFormFocus::SubmitButton,
        ProviderFormFocus::CancelButton,
    ];
    for f in all {
        assert_eq!(cycle_form_focus_value(cycle_form_focus_value(f, true), false), f);
    }
    assert_eq!(cycle_form_focus_value(ProviderFormFocus::CancelButton, true), ProviderFormFocus::ProviderName);
}

#[test]
fn provider_form_typing_and_backspace_edit_the_focused_field() {
    let mut form = ProviderFormState::new_add();
    form.focus = ProviderFormFocus::ProviderName;
    form.type_char('a');
    form.type_char('b');
    form.backspace();
    assert_eq!(form.name, "a");
    form.focus = ProviderFormFocus::ProviderApiKey;
    form.type_char('k');
    assert_eq!(form.api_key, "k");
    assert_eq!(form.name, "a");
    form.focus = ProviderFormFocus::SubmitButton;
    form.type_char('z');
    assert_eq!(form.name, "a");
    assert_eq!(form.api_key, "k");
}

#[test]
fn edit_form_starts_from_the_provider() {
    let provider = EditableProvider {
        name: "Custom".to_string(),
        endpoint: "https://x.invalid".to_string(),
        backend_type: "gemini".to_string(),
    };
    let form = ProviderFormState::new_edit(&provider, "key".to_string());
    assert_eq!(form.name, "Custom");
    assert_eq!(form.endpoint, "https://x.invalid");
    assert_eq!(form.backend_type, "gemini");
    assert_eq!(form.api_key, "key");
    assert_eq!(form.original_name, Some("Custom".to_string()));
}

#[test]
fn backend_dropdown_steps_through_the_options() {
    let mut form = ProviderFormState::new_add();
    assert_eq!(form.backend_type, "openai");
    form.focus = ProviderFormFocus::ProviderBackendType;
    form.dropdown_open = true;
    form.move_backend_selection(true);
    assert_eq!(form.backend_type, "anthropic");
    form.move_backend_selection(false);
    form.move_backend_selection(false);
    assert_eq!(form.backend_type, backend_type_option(5));
}

#[test]
fn edit_providers_focus_cycles_between_name_and_delete() {
    let mut popup = EditProvidersPopupState::new(true);
    popup.cycle_focus(2, true);
    assert_eq!(popup.focus, Some(EditProvidersFocus::DeleteButton(0)));
    popup.cycle_focus(2, true);
    assert_eq!(popup.focus, Some(EditProvidersFocus::ProviderName(1)));
    popup.cycle_focus(0, true);
    assert_eq!(popup.focus, None);
}

#[test]
fn mcp_focus_wraps() {
    assert_eq!(next_mcp_focus(2, 3), 0);
    assert_eq!(prev_mcp_focus(0, 3), 2);
    assert_eq!(next_mcp_focus(4, 0), 4);
    assert_eq!(prev_mcp_focus(1, 3), 0);
}

#[test]
fn api_keys_are_masked() {
    assert_eq!(mask_key(""), "");
    assert_eq!(mask_key("short"), "••••");
    assert_eq!(mask_key("sk-1234567890"), "sk-1...7890");
}

#[test]
fn edit_providers_focus_moves_between_rows() {
    let mut popup = EditProvidersPopupState::new(true);
    popup.move_vertically(3, true);
    assert_eq!(popup.focus, Some(EditProvidersFocus::ProviderName(1)));
    popup.cycle_focus(3, true);
    popup.move_vertically(3, false);
    assert_eq!(popup.focus, Some(EditProvidersFocus::DeleteButton(0)));
    popup.move_vertically(3, false);
    assert_eq!(popup.focus, Some(EditProvidersFocus::DeleteButton(2)));
    popup.move_vertically(0, true);
    assert_eq!(popup.focus, None);
}
