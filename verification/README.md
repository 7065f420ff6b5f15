# gmtui

A keyboard-driven Gmail client for the terminal, whose logic is a library verified
with Verus.

## Layout

- `src/` — the verified library.
  - `state.rs` — the application state: listings, search, composer, stable sorting.
  - `app.rs` — the state machine: keys and Gmail reports in, state changes and
    commands for the Gmail client out.
  - `config.rs` — themes, key bindings, the configuration file's settings, OAuth settings.
  - `gmail/` — message models, decoding of Gmail API responses and URLs, OAuth token
    bookkeeping and the redirect parsing.
  - `components/`, `ui.rs` — what each part of the screen shows: texts, rows, labels,
    cursor positions and overlay boxes.
  - `text.rs` — text operations the rest builds on.
- `tests/` — tests of the library.
- `app/` — the program around the library: terminal, HTTP, OAuth, files, the event
  loop and drawing with ratatui.

## Configuration

`config.toml` in the platform configuration directory under `gmtui/`:

```
client_id = "YOUR_CLIENT_ID"
client_secret = "YOUR_CLIENT_SECRET"
theme = "dark"          # dark | light
page_size = 20
cache_ttl_secs = 300

[keybindings]
down = "j"
up = "k"
```
