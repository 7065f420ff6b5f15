use gmtui::config::{
    parse_keycode, Action, AuthConfig, AuthConfigError, Color, Config, ConfigFile, KeyCode,
    KeyEvent, KeyEventKind, KeyModifiers, Keybindings, KeybindingsFile, Theme,
};

fn key(code: KeyCode) -> KeyEvent {
    KeyEvent {
        code,
        modifiers: KeyModifiers { control: false, alt: false, shift: false },
        kind: KeyEventKind::Press,
    }
}

fn empty_file() -> ConfigFile {
    ConfigFile {
        theme: None,
        page_size: None,
        cache_ttl_secs: None,
        keybindings: None,
        client_id: None,
        client_secret: None,
        token_cache_path: None,
    }
}

fn empty_bindings() -> KeybindingsFile {
    KeybindingsFile {
        down: None,
        up: None,
        open: None,
        compose: None,
        reply: None,
        delete: None,
        search: None,
        refresh: None,
        quit: None,
        next_tab: None,
        prev_tab: None,
        load_more: None,
        help: None,
    }
}

#[test]
fn test_dark_theme_colors_differ_from_light() {
    let dark = Theme::dark();
    let light = Theme::light();
    assert_ne!(dark.primary_unread, light.primary_unread);
}

#[test]
fn theme_names_and_colours() {
    let dark = Theme::dark();
    assert_eq!(dark.name, "");
    assert_eq!(dark.primary_unread, Color::Rgb(248, 250, 252));
    let light = Theme::light();
    assert_eq!(light.primary_unread, Color::Rgb(15, 23, 42));
    assert_eq!(Theme::dark().named("custom").name, "custom");
}

#[test]
fn config_defaults() {
    let cfg = Config::default();
    assert_eq!(cfg.page_size, 20);
    assert_eq!(cfg.cache_ttl_secs, 300);
    assert_eq!(cfg.theme.name, "dark");
    assert_eq!(cfg.keybindings, Keybindings::default());
}

#[test]
fn config_file_overrides_values() {
    let mut file = empty_file();
    file.theme = Some("light".to_string());
    file.page_size = Some(10);
    file.cache_ttl_secs = Some(42);
    let cfg = Config::from_file(file);
    assert_eq!(cfg.page_size, 10);
    assert_eq!(cfg.cache_ttl_secs, 42);
    assert_eq!(cfg.theme.name, "light");
}

#[test]
fn config_file_without_entries_gives_defaults() {
    let cfg = Config::from_file(empty_file());
    assert_eq!(cfg.page_size, 20);
    assert_eq!(cfg.cache_ttl_secs, 300);
    assert_eq!(cfg.theme.name, "dark");
}

#[test]
fn unknown_theme_name_selects_dark_colours() {
    let mut file = empty_file();
    file.theme = Some("solarized".to_string());
    let cfg = Config::from_file(file);
    assert_eq!(cfg.theme.primary_unread, Theme::dark().primary_unread);
}

#[test]
fn default_keybindings_are_vim_like() {
    let keys = Keybindings::default();
    assert_eq!(keys.down, KeyCode::Char('j'));
    assert_eq!(keys.up, KeyCode::Char('k'));
    assert_eq!(keys.open, KeyCode::Enter);
    assert_eq!(keys.quit, KeyCode::Char('q'));
}

#[test]
fn arrow_keys_work_beside_bindings() {
    let keys = Keybindings::default();
    assert!(keys.matches(Action::Down, key(KeyCode::Down)));
    assert!(keys.matches(Action::Down, key(KeyCode::Char('j'))));
    assert!(keys.matches(Action::Up, key(KeyCode::Up)));
    assert!(!keys.matches(Action::Up, key(KeyCode::Down)));
    assert!(keys.matches(Action::Quit, key(KeyCode::Char('q'))));
}

#[test]
fn parse_keycode_names_and_chars() {
    assert_eq!(parse_keycode(Some("enter".to_string())), Some(KeyCode::Enter));
    assert_eq!(parse_keycode(Some("  Tab ".to_string())), Some(KeyCode::Tab));
    assert_eq!(parse_keycode(Some("x".to_string())), Some(KeyCode::Char('x')));
    assert_eq!(parse_keycode(Some("pagedown".to_string())), Some(KeyCode::PageDown));
    assert_eq!(parse_keycode(Some("xy".to_string())), None);
    assert_eq!(parse_keycode(Some("".to_string())), None);
    assert_eq!(parse_keycode(None), None);
}

#[test]
fn keybindings_file_overrides_some_keys() {
    let mut file = empty_bindings();
    file.down = Some("n".to_string());
    file.quit = Some("esc".to_string());
    file.up = Some("??".to_string());
    let keys = Keybindings::from_file(Some(file));
    assert_eq!(keys.down, KeyCode::Char('n'));
    assert_eq!(keys.quit, KeyCode::Esc);
    assert_eq!(keys.up, KeyCode::Char('k'));
    assert_eq!(Keybindings::from_file(None), Keybindings::default());
}

#[test]
fn auth_config_prefers_file_then_environment() {
    let r = AuthConfig::resolve(
        Some("file-id".to_string()),
        None,
        None,
        Some("env-id".to_string()),
        Some("env-secret".to_string()),
        None,
        "/home/u/.config/gmtui/token.json".to_string(),
    );
    let cfg = r.unwrap();
    assert_eq!(cfg.client_id, "file-id");
    assert_eq!(cfg.client_secret, "env-secret");
    assert_eq!(cfg.token_cache_path, "/home/u/.config/gmtui/token.json");
}

#[test]
fn auth_config_reports_missing_id_then_secret() {
    let r = AuthConfig::resolve(None, Some("s".to_string()), None, None, None, None, "t".to_string());
    let err = r.unwrap_err();
    assert_eq!(err, AuthConfigError::MissingClientId);
    assert!(err.message().contains("client_id"));
    let r = AuthConfig::resolve(Some("i".to_string()), None, None, None, None, None, "t".to_string());
    assert_eq!(r.unwrap_err(), AuthConfigError::MissingClientSecret);
}
