//! Verified core of a terminal chat client: tab bookkeeping, settings navigation,
//! markdown block parsing and wrapping, terminal escape sequences and key encoding.

pub mod text;
pub mod unicode;
pub mod app_tabs;
pub mod settings;
pub mod editor_keys;
pub mod terminal;
pub mod markdown;
pub mod inline;
pub mod wrap;
pub mod inline_runs;
pub mod render;
pub mod input_box;
pub mod geometry;
pub mod list_popup;
pub mod boxes;
pub mod artifacts;
pub mod image_source;
pub mod dialogs;
pub mod viewer;
pub mod name_order;
pub mod name_set;
pub mod settings_popup;
pub mod provider_lists;
pub mod key_sources;
pub mod layout;
pub mod transcript;
pub mod dropdowns;
pub mod chat_state;
pub mod vault_tree;
pub mod sidebar_cards;
pub mod kitty_heading;
pub mod sidebar_layout;
pub mod screen_layout;
pub mod tab_layouts;
pub mod chat_layout;
