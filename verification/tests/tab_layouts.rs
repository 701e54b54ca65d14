use tcui::geometry::{bordered_inner_exec, Rect};
use tcui::render::{HeadingDownscale, MarkdownMode};
use tcui::settings::{GeneralDropdown, GeneralFocus, LocalFocus, LocalServerType, ProviderFormState, SettingsTab};
use tcui::settings_popup::{ProvidersDropdown, SettingsPopup, SettingsPopupInit, TextAlignment};
use tcui::settings_popup::{McpServerConfig, ModelInfo, ProvidersTabFocus};
use tcui::tab_layouts::{general_tab_from, models_tab_from, provider_form_areas, providers_tab_from, keybinding_lines, models_tab_layout, ModelRowStyle, mcp_tab_layout, settings_frame_areas, general_tab_layout, local_tab_layout, provider_form_layout, providers_tab_layout, SavedRowStyle};

fn rect(x: u16, y: u16, width: u16, height: u16) -> Rect {
    Rect { x, y, width, height }
}

fn entry(name: &str, auth: &str) -> (String, String, String, String, String) {
    (name.to_string(), "https://example.test".to_string(), String::new(), "openai".to_string(), auth.to_string())
}

fn popup(db: Vec<(String, String, String, String, String)>) -> SettingsPopup {
    SettingsPopup::new(SettingsPopupInit {
        default_provider: String::new(),
        default_model: String::new(),
        small_model: String::new(),
        use_env_keys: false,
        saved_keys: vec![],
        theme: "system".to_string(),
        theme_keys: vec!["system".to_string(), "gruvbox-dark".to_string(), "nord".to_string()],
        user_alignment: TextAlignment::Left,
        ai_alignment: TextAlignment::Left,
        markdown_mode: MarkdownMode::Full,
        artifact_save_dir: String::new(),
        vault_path: String::new(),
        available_models: vec![],
        db_providers: db,
        show_selector: true,
        show_chat_scrollbar: true,
        collapse_thinking: true,
        kitty_enhanced_text: false,
        kitty_heading_downscale: HeadingDownscale::Zero,
        web_search_enabled: false,
        quit_confirmation: true,
        local_enabled: false,
        local_host: String::new(),
        local_port: String::new(),
        local_server_type: LocalServerType::Auto,
        local_selected_model: String::new(),
        local_model_directory: String::new(),
        local_health_interval_seconds: String::new(),
        local_connect_timeout_ms: String::new(),
        local_request_timeout_ms: String::new(),
        local_api_token_env: String::new(),
        detected_local_server: None,
        providers_tab_list: vec![],
        models_provider: String::new(),
        models_available_models: vec![],
        mcp_servers: vec![],
    })
}

#[test]
fn general_tab_rows_are_three_lines_inside_a_one_cell_margin() {
    let p = popup(vec![]);
    let l = general_tab_layout(rect(0, 0, 100, 42), &p);
    assert_eq!(l.rows.len(), 12);
    assert_eq!(l.rows[0], rect(1, 1, 98, 3));
    assert_eq!(l.rows[1], rect(1, 4, 98, 3));
    assert_eq!(l.focused, Some(0));
    assert_eq!(l.dropdown, None);
    assert!(l.dropdown_items.is_empty());
}

#[test]
fn general_alignment_dropdown_hangs_below_its_row_with_three_items() {
    let mut p = popup(vec![]);
    p.general_focus = GeneralFocus::UserAlignment;
    p.general_dropdown_open = Some(GeneralDropdown::UserAlignment);
    let l = general_tab_layout(rect(0, 0, 100, 40), &p);
    assert_eq!(l.focused, Some(1));
    assert_eq!(l.dropdown, Some(rect(1, 7, 98, 5)));
    assert_eq!(l.dropdown_items, vec![rect(2, 8, 96, 1), rect(2, 9, 96, 1), rect(2, 10, 96, 1)]);
}

#[test]
fn general_theme_dropdown_is_as_tall_as_the_themes_and_its_border() {
    let mut p = popup(vec![]);
    p.general_dropdown_open = Some(GeneralDropdown::Theme);
    let l = general_tab_layout(rect(0, 0, 100, 40), &p);
    assert_eq!(l.dropdown, Some(rect(1, 4, 98, 5)));
    assert_eq!(l.dropdown_items.len(), 3);
    assert_eq!(l.dropdown_items[2], rect(2, 7, 96, 1));
}

#[test]
fn general_rows_are_not_focused_on_another_tab_and_follow_the_focus_order() {
    let mut p = popup(vec![]);
    p.active_tab = SettingsTab::Local;
    assert_eq!(general_tab_layout(rect(0, 0, 100, 40), &p).focused, None);
    p.active_tab = SettingsTab::General;
    p.general_focus = GeneralFocus::VaultPath;
    assert_eq!(general_tab_layout(rect(0, 0, 100, 40), &p).focused, Some(4));
    p.general_focus = GeneralFocus::QuitConfirmation;
    assert_eq!(general_tab_layout(rect(0, 0, 100, 40), &p).focused, Some(11));
}

#[test]
fn local_tab_has_eleven_rows_and_focuses_text_fields_on_any_tab() {
    let mut p = popup(vec![]);
    let l = local_tab_layout(rect(0, 0, 100, 40), &p);
    assert_eq!(l.rows.len(), 11);
    assert_eq!(l.rows[0], rect(1, 1, 98, 3));
    assert_eq!(l.focused, None);
    p.active_tab = SettingsTab::Local;
    assert_eq!(local_tab_layout(rect(0, 0, 100, 40), &p).focused, Some(0));
    p.active_tab = SettingsTab::General;
    p.local_focus = LocalFocus::Port;
    assert_eq!(local_tab_layout(rect(0, 0, 100, 40), &p).focused, Some(2));
}

#[test]
fn providers_tab_lists_oauth_then_preset_then_custom_rows() {
    let p = popup(vec![entry("Codex", "oauth"), entry("My LLM", "api_key")]);
    let l = providers_tab_layout(rect(0, 0, 100, 40), &p);
    assert_eq!(l.rows.len(), 5);
    assert_eq!(l.rows[0], rect(1, 1, 98, 3));
    assert_eq!(l.buttons[0], rect(1, 7, 16, 3));
    assert_eq!(l.buttons[1], rect(17, 7, 18, 3));
    assert!(!l.model_list_open);
    let inner = bordered_inner_exec(l.rows[3]);
    assert_eq!(l.oauth_rows, vec![rect(inner.x, inner.y, inner.width, 1)]);
    assert_eq!(l.preset_rows.len(), 3);
    assert_eq!(l.preset_rows[0], rect(inner.x, inner.y + 1, inner.width, 1));
    assert_eq!(l.saved_key_rows, vec![rect(inner.x, inner.y + 4, inner.width, 1)]);
}

#[test]
fn providers_tab_rows_stop_at_the_list_height() {
    let p = popup(vec![entry("Codex", "oauth"), entry("My LLM", "api_key")]);
    let l = providers_tab_layout(rect(0, 0, 60, 16), &p);
    let inner = bordered_inner_exec(l.rows[3]);
    let shown = l.oauth_rows.len() + l.preset_rows.len() + l.saved_key_rows.len();
    assert_eq!(shown, 5.min(inner.height as usize));
}

#[test]
fn providers_tab_model_list_replaces_the_saved_rows() {
    let mut p = popup(vec![entry("Codex", "oauth")]);
    p.providers_dropdown_open = Some(ProvidersDropdown::DefaultModel);
    let l = providers_tab_layout(rect(0, 0, 100, 40), &p);
    assert!(l.model_list_open);
    assert!(l.oauth_rows.is_empty() && l.preset_rows.is_empty() && l.saved_key_rows.is_empty());
}

#[test]
fn provider_form_fields_are_three_rows_each_and_backend_list_hangs_below() {
    let mut form = ProviderFormState::new_add();
    let closed = provider_form_layout(rect(0, 0, 100, 40), &form);
    let name = closed.name.unwrap();
    let endpoint = closed.endpoint.unwrap();
    let backend = closed.backend_type.unwrap();
    assert_eq!(name.height, 3);
    assert_eq!(endpoint.y, name.y + 3);
    assert_eq!(closed.api_key.unwrap().y, backend.y + 3);
    let submit = closed.submit_button.unwrap();
    let cancel = closed.cancel_button.unwrap();
    assert_eq!(submit.width, 12);
    assert_eq!(cancel.x, submit.x + 12);
    assert!(closed.dropdown_items.is_empty());
    form.dropdown_open = true;
    let open = provider_form_layout(rect(0, 0, 100, 40), &form);
    assert_eq!(open.dropdown_items.len(), 6);
    assert_eq!(open.dropdown_items[0], rect(backend.x + 1, backend.y + backend.height + 1, backend.width - 2, 1));
    assert_eq!(open.dropdown_items[5].y, backend.y + backend.height + 6);
}

#[test]
fn general_switch_rows_show_their_state_and_name() {
    let p = popup(vec![]);
    let l = general_tab_layout(rect(0, 0, 100, 40), &p);
    assert_eq!(
        l.switch_labels,
        vec![
            "[✓] Show provider/model selector".to_string(),
            "[✓] Show chat scrollbar".to_string(),
            "[✓] Fold thinking by default".to_string(),
            "[ ] Use kitty enhanced text".to_string(),
            "[ ] Enable web search".to_string(),
            "[✓] Confirm before quit".to_string(),
        ]
    );
}

#[test]
fn providers_tab_rows_are_labelled_and_styled_by_state() {
    let mut p = popup(vec![entry("Codex", "oauth"), entry("My LLM", "api_key")]);
    p.saved_keys = vec![("My LLM".to_string(), "sk-1".to_string())];
    p.disabled_providers = vec!["Codex".to_string()];
    p.providers_tab_focus = ProvidersTabFocus::PresetProvider(0);
    let l = providers_tab_layout(rect(0, 0, 100, 40), &p);
    assert_eq!(
        l.row_labels,
        vec![
            "[ ] Codex".to_string(),
            "[✓] Exa Search".to_string(),
            "[✓] Tavily Search".to_string(),
            "[✓] Firecrawl Search".to_string(),
            "[✓] My LLM".to_string(),
        ]
    );
    assert_eq!(
        l.row_styles,
        vec![
            SavedRowStyle::Disabled,
            SavedRowStyle::Focused,
            SavedRowStyle::NotConnected,
            SavedRowStyle::NotConnected,
            SavedRowStyle::Connected,
        ]
    );
}

#[test]
fn providers_model_list_shows_six_rows_and_keeps_the_offset_in_the_list() {
    let mut p = popup(vec![]);
    p.providers_dropdown_open = Some(ProvidersDropdown::SmallModel);
    p.available_models = (0..10).map(|i| ModelInfo { id: format!("m{i}"), context_window: None }).collect();
    p.dropdown_scroll_offset = 9;
    let l = providers_tab_layout(rect(0, 0, 100, 40), &p);
    let inner = bordered_inner_exec(l.rows[3]);
    assert_eq!(l.model_offset, 4);
    assert_eq!(l.model_rows.len(), 6);
    assert_eq!(l.model_rows[0], rect(inner.x, inner.y, inner.width - 1, 1));
    assert_eq!(l.model_rows[5], rect(inner.x, inner.y + 5, inner.width - 1, 1));
    p.dropdown_scroll_offset = 2;
    assert_eq!(providers_tab_layout(rect(0, 0, 100, 40), &p).model_offset, 2);
}

#[test]
fn general_settings_render_exposes_obsidian_vault_path() {
    let mut p = popup(vec![]);
    p.active_tab = SettingsTab::General;
    p.vault_path = "/tmp/obsidian".to_string();
    p.general_focus = GeneralFocus::VaultPath;
    let l = general_tab_layout(rect(0, 0, 100, 40), &p);
    assert_eq!(l.rows.len(), 12);
    assert_eq!(l.focused, Some(4));
    assert_eq!(l.rows[4].height, 3);
}

#[test]
fn tests_providers_settings_hide_small_model_controls() {
    let mut p = popup(vec![]);
    p.active_tab = SettingsTab::Providers;
    let l = providers_tab_layout(rect(0, 0, 100, 30), &p);
    assert_eq!(l.rows.len(), 5);
    assert!(!l.row_labels.iter().any(|s| s.contains("Small Provider") || s.contains("Small Model")));
}

#[test]
fn settings_tab_providers_settings_hide_small_model_controls() {
    let mut p = popup(vec![]);
    p.active_tab = SettingsTab::Providers;
    let l = providers_tab_layout(rect(0, 0, 100, 30), &p);
    assert_eq!(l.buttons.len(), 5);
    assert!(!l.row_labels.iter().any(|s| s.contains("Small Provider") || s.contains("Small Model")));
}

#[test]
fn settings_tab_mcp_settings_render_and_hit_rows_fit_80_by_24() {
    // Given
    let mut p = popup(vec![]);
    p.mcp_servers = (0..20).map(|idx| McpServerConfig { name: format!("server-{idx}"), enabled: idx % 2 == 0 }).collect();
    p.active_tab = SettingsTab::Mcp;
    p.mcp_focus = 15;

    // When
    let frame = settings_frame_areas(rect(0, 0, 80, 24));
    let l = mcp_tab_layout(frame.1[1], &p);

    // Then
    assert!(l.rows.iter().any(|(idx, area)| *idx == 15 && area.height == 1));
    assert!(l.rows.iter().all(|(_, area)| area.right() <= 80 && area.bottom() <= 24));
}

#[test]
fn tests_mcp_settings_render_and_hit_rows_fit_80_by_24() {
    // Given
    let mut p = popup(vec![]);
    p.mcp_servers = (0..20).map(|idx| McpServerConfig { name: format!("server-{idx}"), enabled: idx % 2 == 0 }).collect();
    p.active_tab = SettingsTab::Mcp;
    p.mcp_focus = 15;

    // When
    let frame = settings_frame_areas(rect(0, 0, 80, 24));
    let l = mcp_tab_layout(frame.1[1], &p);

    // Then
    assert!(l.rows.iter().any(|(idx, area)| *idx == 15 && area.height == 1));
    assert!(l.rows.iter().all(|(_, area)| area.right() <= 80 && area.bottom() <= 24));
}

#[test]
fn mcp_rows_scroll_to_keep_the_focus_and_the_focus_stays_in_the_list() {
    let mut p = popup(vec![]);
    p.mcp_servers = (0..20).map(|idx| McpServerConfig { name: format!("server-{idx}"), enabled: true }).collect();
    p.mcp_focus = 40;
    let l = mcp_tab_layout(rect(0, 0, 60, 7), &p);
    assert_eq!(l.focus, 19);
    let idxs: Vec<usize> = l.rows.iter().map(|(i, _)| *i).collect();
    assert_eq!(idxs, vec![15, 16, 17, 18, 19]);
    assert_eq!(l.rows[0].1, rect(1, 1, 58, 1));
    let none = mcp_tab_layout(rect(0, 0, 60, 2), &p);
    assert_eq!(none.focus, 40);
    assert!(none.rows.is_empty());
}

#[test]
fn settings_tab_models_tab_renders_provider_and_model_rows() {
    let mut p = popup(vec![]);
    p.active_tab = SettingsTab::Models;
    p.models_provider = "Codex".to_string();
    p.models_available_models = vec![
        ModelInfo { id: "gpt-5.5".to_string(), context_window: Some(400_000) },
        ModelInfo { id: "gpt-5.4".to_string(), context_window: Some(256_000) },
    ];
    let l = models_tab_layout(rect(0, 0, 100, 30), &p);
    assert_eq!(l.rows.len(), 3);
    assert!(l.model_labels.iter().any(|s| s.contains("gpt-5.5")));
    assert!(l.model_labels.iter().any(|s| s.contains("gpt-5.4")));
}

#[test]
fn tests_models_tab_renders_provider_and_model_rows() {
    let mut p = popup(vec![]);
    p.active_tab = SettingsTab::Models;
    p.models_provider = "Codex".to_string();
    p.models_available_models = vec![
        ModelInfo { id: "gpt-5.5".to_string(), context_window: Some(400_000) },
        ModelInfo { id: "gpt-5.4".to_string(), context_window: Some(256_000) },
    ];
    let l = models_tab_layout(rect(0, 0, 100, 30), &p);
    assert_eq!(l.rows.len(), 3);
    assert!(l.model_labels.iter().any(|s| s.contains("gpt-5.5")));
    assert!(l.model_labels.iter().any(|s| s.contains("gpt-5.4")));
}

#[test]
fn models_tab_rows_show_disabled_models_and_the_focus() {
    let mut p = popup(vec![]);
    p.models_provider = "Codex".to_string();
    p.models_available_models = vec![
        ModelInfo { id: "a".to_string(), context_window: None },
        ModelInfo { id: "b".to_string(), context_window: None },
        ModelInfo { id: "c".to_string(), context_window: None },
    ];
    p.disabled_models = vec!["Codex:b".to_string()];
    p.models_tab_focus = tcui::settings_popup::ModelsTabFocus::Model(2);
    let l = models_tab_layout(rect(0, 0, 100, 30), &p);
    assert_eq!(l.model_labels, vec!["[✓] a".to_string(), "[ ] b".to_string(), "[✓] c".to_string()]);
    assert_eq!(l.model_styles, vec![ModelRowStyle::Enabled, ModelRowStyle::Disabled, ModelRowStyle::Focused]);
    assert_eq!(l.rows[0], rect(1, 1, 98, 3));
    let inner = bordered_inner_exec(l.rows[1]);
    assert_eq!(l.model_rows[1], rect(inner.x, inner.y + 1, inner.width, 1));
}

#[test]
fn settings_tab_keybindings_help_keeps_vault_route_and_omits_local_route() {
    let lines = keybinding_lines(false);
    assert!(lines.iter().any(|l| l.contains("/vault <query>")));
    assert!(!lines.iter().any(|l| l.contains("/local")));
}

#[test]
fn tests_keybindings_help_keeps_vault_route_and_omits_local_route() {
    let lines = keybinding_lines(false);
    assert!(lines.iter().any(|l| l.contains("/vault <query>")));
    assert!(!lines.iter().any(|l| l.contains("/local")));
}

#[test]
fn keybindings_help_exposes_memory_routes_when_enabled() {
    let lines = keybinding_lines(true);
    assert!(lines.iter().any(|l| l.contains("@remember")));
    assert!(lines.iter().any(|l| l.contains("@memory / @memorize")));
    assert!(lines.iter().any(|l| l.contains("memory-mcp")));
}

#[test]
fn keybinding_keys_are_padded_to_twenty_two_columns() {
    let lines = keybinding_lines(false);
    assert_eq!(lines.len(), 18);
    assert_eq!(lines[0], format!("{:22}{}", "Ctrl+T", "New Tab"));
    assert_eq!(lines[14], format!("{:22}{}", "/web, /web on, /web off", "Toggle local web search"));
    assert!(!lines.iter().any(|l| l.contains("@remember")));
}

fn stacked(x: u16, y: u16, width: u16, heights: &[u16]) -> Vec<Rect> {
    let mut rows = Vec::new();
    let mut top = y;
    for h in heights {
        rows.push(rect(x, top, width, *h));
        top += h;
    }
    rows
}

#[test]
fn general_tab_from_given_rows_hangs_the_dropdown_below_its_row() {
    let mut p = popup(vec![]);
    p.general_dropdown_open = Some(GeneralDropdown::KittyTextScale);
    p.general_focus = GeneralFocus::KittyTextScale;
    let rows = stacked(5, 2, 50, &[3; 12]);
    let l = general_tab_from(rows.clone(), &p);
    assert_eq!(l.rows, rows);
    assert_eq!(l.focused, Some(9));
    assert_eq!(l.dropdown, Some(rect(5, 32, 50, 5)));
    assert_eq!(l.dropdown_items, vec![rect(6, 33, 48, 1), rect(6, 34, 48, 1), rect(6, 35, 48, 1)]);
}

#[test]
fn providers_tab_from_given_rows_fills_the_saved_list_inside_its_border() {
    let p = popup(vec![entry("Codex", "oauth")]);
    let rows = vec![rect(1, 1, 60, 3), rect(1, 4, 60, 3), rect(1, 7, 60, 3), rect(1, 10, 60, 4), rect(1, 14, 60, 3)];
    let buttons = vec![rect(1, 7, 16, 3)];
    let l = providers_tab_from(rows, buttons, &p);
    assert_eq!(l.oauth_rows, vec![rect(2, 11, 58, 1)]);
    assert_eq!(l.preset_rows, vec![rect(2, 12, 58, 1)]);
    assert!(l.saved_key_rows.is_empty());
    assert_eq!(l.row_labels, vec!["[✓] Codex".to_string(), "[✓] Exa Search".to_string()]);
}

#[test]
fn models_tab_from_given_rows_lists_models_inside_the_list_border() {
    let mut p = popup(vec![]);
    p.models_provider = "Codex".to_string();
    p.models_available_models = vec![ModelInfo { id: "a".to_string(), context_window: None }];
    let l = models_tab_from(vec![rect(0, 0, 30, 3), rect(0, 3, 30, 6), rect(0, 9, 30, 2)], &p);
    assert_eq!(l.model_rows, vec![rect(1, 4, 28, 1)]);
    assert_eq!(l.model_labels, vec!["[✓] a".to_string()]);
}

#[test]
fn provider_form_areas_from_given_rows_place_the_backend_items() {
    let mut form = ProviderFormState::new_add();
    form.dropdown_open = true;
    let rows = stacked(10, 5, 40, &[3; 5]);
    let buttons = vec![rect(10, 17, 12, 3), rect(22, 17, 12, 3), rect(34, 17, 16, 3)];
    let areas = provider_form_areas(&rows, &buttons, &form);
    assert_eq!(areas.backend_type, Some(rect(10, 11, 40, 3)));
    assert_eq!(areas.cancel_button, Some(rect(22, 17, 12, 3)));
    assert_eq!(areas.dropdown_items.len(), 6);
    assert_eq!(areas.dropdown_items[0], rect(11, 15, 38, 1));
    assert_eq!(areas.dropdown_items[5], rect(11, 20, 38, 1));
}
