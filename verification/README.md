# tcui

The user-interface core of a terminal chat client, written in Verus: the logic that
decides what the client shows and what a key press or click means, with its behaviour
stated in contracts and proved.

`src/` is the verified library:

- `text`, `unicode` — strings as character sequences, trimming, and the display widths the
  `unicode-width` crate reports.
- `markdown` — splitting markdown into blocks (headings, fences, rules, images, tables,
  quotes, lists, paragraphs).
- `inline`, `inline_runs`, `wrap`, `render` — inline styling (read from `pulldown-cmark`'s
  events), `@skill` mentions, word wrapping, and rendering blocks into styled lines with
  their clickable link areas, image slots and terminal-sized headings.
- `terminal`, `editor_keys` — terminal and multiplexer capabilities, escape sequences
  (tmux passthrough, Kitty text sizing, ANSI colours) and the bytes sent for key presses.
- `app_tabs`, `settings`, `list_popup`, `dialogs`, `artifacts`, `viewer`, `input_box`,
  `boxes`, `geometry`, `image_source` — the state of tabs, settings forms, popups, the
  artifact sidebar and viewer, the chat input box and the boxed transcript lines.
- `settings_popup`, `provider_lists`, `key_sources`, `name_order`, `name_set` — the settings
  popup: focus movement, dropdowns, provider forms and clicks, the sorted provider and key
  lists, and gathering keys from the environment, `.env` texts and OAuth tokens.
- `layout` — splitting an area with `ratatui`'s layout solver and what holds of every split
  it may give (the solver can settle competing constraints either way), and centred popups.
  The layouts built on it take the parts the solver actually gave.
- `transcript` — the chat transcript as lines (user bubbles, foldable reasoning boxes, link
  areas, image slots, sized headings, answer lines) and its placement in the viewport.
- `chat_state` — the chat tabs' conversations: adding messages, streamed text and reasoning,
  reasoning folds, adding and removing tabs.
- `dropdowns` — the list dropdowns of the chat status line and the providers tab.
- `vault_tree` — the vault tree of the artifact sidebar: path components, path order, and
  the rows with folded directories.
- `sidebar_cards` — the sidebar's cards and vault rows for a scroll offset, their buttons
  and clicks, file names, and the kind of an artifact by its extension.
- `sidebar_layout` — the artifact sidebar's sections: a row per flat section growing with
  its cards, and the vault taking the rest.
- `kitty_heading` — the escape sequence of a terminal-sized heading, its text cut into
  grapheme clusters (`unicode-segmentation`) and packed into chunks.
- `screen_layout`, `chat_layout`, `tab_layouts` — where the main screen's bars, sidebars and
  chat pane, the chat's title, transcript, input box and cursor, the settings tabs' rows,
  buttons, lists and texts, and the provider form's fields are drawn.

`app/` is the terminal-facing side that Verus does not see: environment and tmux probing,
crossterm and ratatui conversions, file-system lookups, floating-point colour contrast, and
drawing the settings tabs and the screen's frame with ratatui widgets at the areas the library
lays out.

`tests/` exercise the library on concrete values.
