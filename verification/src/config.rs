use vstd::prelude::*;
use crate::text::{chars_of, lowercase, str_eq, string_of, to_lowercase, trim_chars, trim_seq};

verus! {

/// A terminal colour.
#[derive(Debug, Clone, Copy, PartialEq, Eq, Structural)]
pub enum Color {
    Rgb(u8, u8, u8),
}

/// The colours the interface is drawn in.
#[derive(Debug)]
pub struct Theme {
    pub name: String,
    pub primary_read: Color,
    pub primary_unread: Color,
    pub social: Color,
    pub promotions: Color,
    pub updates: Color,
    pub selected_bg: Color,
    pub selected_fg: Color,
    pub status_bar_bg: Color,
    pub header_fg: Color,
}

/// The colours of the dark theme.
pub open spec fn dark_colors(t: Theme) -> bool {
    &&& t.primary_read == Color::Rgb(160, 166, 176)
    &&& t.primary_unread == Color::Rgb(248, 250, 252)
    &&& t.social == Color::Rgb(96, 165, 250)
    &&& t.promotions == Color::Rgb(244, 114, 182)
    &&& t.updates == Color::Rgb(251, 191, 36)
    &&& t.selected_bg == Color::Rgb(56, 189, 248)
    &&& t.selected_fg == Color::Rgb(15, 23, 42)
    &&& t.status_bar_bg == Color::Rgb(30, 41, 59)
    &&& t.header_fg == Color::Rgb(148, 163, 184)
}

/// The colours of the light theme.
pub open spec fn light_colors(t: Theme) -> bool {
    &&& t.primary_read == Color::Rgb(71, 85, 105)
    &&& t.primary_unread == Color::Rgb(15, 23, 42)
    &&& t.social == Color::Rgb(2, 132, 199)
    &&& t.promotions == Color::Rgb(219, 39, 119)
    &&& t.updates == Color::Rgb(180, 83, 9)
    &&& t.selected_bg == Color::Rgb(59, 130, 246)
    &&& t.selected_fg == Color::Rgb(255, 255, 255)
    &&& t.status_bar_bg == Color::Rgb(226, 232, 240)
    &&& t.header_fg == Color::Rgb(100, 116, 139)
}

impl Theme {
    /// The dark theme, unnamed.
    pub fn dark() -> (t: Theme)
        ensures
            dark_colors(t),
            t.name@.len() == 0,
    {
        Theme {
            name: String::new(),
            primary_read: Color::Rgb(160, 166, 176),
            primary_unread: Color::Rgb(248, 250, 252),
            social: Color::Rgb(96, 165, 250),
            promotions: Color::Rgb(244, 114, 182),
            updates: Color::Rgb(251, 191, 36),
            selected_bg: Color::Rgb(56, 189, 248),
            selected_fg: Color::Rgb(15, 23, 42),
            status_bar_bg: Color::Rgb(30, 41, 59),
            header_fg: Color::Rgb(148, 163, 184),
        }
    }

    /// The light theme, unnamed.
    pub fn light() -> (t: Theme)
        ensures
            light_colors(t),
            t.name@.len() == 0,
    {
        Theme {
            name: String::new(),
            primary_read: Color::Rgb(71, 85, 105),
            primary_unread: Color::Rgb(15, 23, 42),
            social: Color::Rgb(2, 132, 199),
            promotions: Color::Rgb(219, 39, 119),
            updates: Color::Rgb(180, 83, 9),
            selected_bg: Color::Rgb(59, 130, 246),
            selected_fg: Color::Rgb(255, 255, 255),
            status_bar_bg: Color::Rgb(226, 232, 240),
            header_fg: Color::Rgb(100, 116, 139),
        }
    }

    /// The same colours under `name`.
    pub fn named(self, name: &str) -> (t: Theme)
        ensures
            t.name@ == name@,
            t == (Theme { name: t.name, ..self }),
    {
        let mut t = self;
        t.name = String::from_str(name);
        t
    }
}

/// The dark and light themes draw unread messages in different colours.
pub proof fn lemma_themes_differ(d: Theme, l: Theme)
    requires
        dark_colors(d),
        light_colors(l),
    ensures
        d.primary_unread != l.primary_unread,
{
}

/// A key as the terminal reports it.
#[derive(Debug, Clone, Copy, PartialEq, Eq, Structural)]
pub enum KeyCode {
    Char(char),
    Enter,
    Tab,
    BackTab,
    Esc,
    Up,
    Down,
    Left,
    Right,
    Backspace,
    Delete,
    Home,
    End,
    PageUp,
    PageDown,
    Other,
}

/// The modifier keys held with a key.
#[derive(Debug, Clone, Copy, PartialEq, Eq, Structural)]
pub struct KeyModifiers {
    pub control: bool,
    pub alt: bool,
    pub shift: bool,
}

/// Whether a key went down, repeats or went up.
#[derive(Debug, Clone, Copy, PartialEq, Eq, Structural)]
pub enum KeyEventKind {
    Press,
    Repeat,
    Release,
}

/// A key event.
#[derive(Debug, Clone, Copy, PartialEq, Eq, Structural)]
pub struct KeyEvent {
    pub code: KeyCode,
    pub modifiers: KeyModifiers,
    pub kind: KeyEventKind,
}

/// The keys bound to the actions.
#[derive(Debug, Clone, Copy, PartialEq, Eq, Structural)]
pub struct Keybindings {
    pub down: KeyCode,
    pub up: KeyCode,
    pub open: KeyCode,
    pub compose: KeyCode,
    pub reply: KeyCode,
    pub delete: KeyCode,
    pub search: KeyCode,
    pub refresh: KeyCode,
    pub quit: KeyCode,
    pub next_tab: KeyCode,
    pub prev_tab: KeyCode,
    pub load_more: KeyCode,
    pub help: KeyCode,
}

/// The actions a key can be bound to.
#[derive(Debug, Clone, Copy, PartialEq, Eq, Structural)]
pub enum Action {
    Down,
    Up,
    Open,
    Compose,
    Reply,
    Delete,
    Search,
    Refresh,
    Quit,
    NextTab,
    PrevTab,
    LoadMore,
    Help,
}

/// The bindings a fresh configuration has.
pub open spec fn default_keybindings() -> Keybindings {
    Keybindings {
        down: KeyCode::Char('j'),
        up: KeyCode::Char('k'),
        open: KeyCode::Enter,
        compose: KeyCode::Char('c'),
        reply: KeyCode::Char('r'),
        delete: KeyCode::Char('d'),
        search: KeyCode::Char('/'),
        refresh: KeyCode::Char('R'),
        quit: KeyCode::Char('q'),
        next_tab: KeyCode::Tab,
        prev_tab: KeyCode::BackTab,
        load_more: KeyCode::Char('L'),
        help: KeyCode::Char('?'),
    }
}

/// `key` is `binding` pressed without Control.
pub open spec fn matches_code_spec(key: KeyEvent, binding: KeyCode) -> bool {
    !key.modifiers.control && key.code == binding
}

/// `key` is `primary` pressed without Control, or the arrow `fallback` where the
/// primary binding is the default `j`/`k` or the arrow itself.
pub open spec fn matches_with_fallback_spec(key: KeyEvent, primary: KeyCode, fallback: KeyCode) -> bool {
    ||| matches_code_spec(key, primary)
    ||| (primary == KeyCode::Char('j') && key.code == fallback)
    ||| (primary == KeyCode::Char('k') && key.code == fallback)
    ||| (key.code == fallback && primary == fallback)
}

/// `key` triggers `action` under bindings `k`.
pub open spec fn key_matches(k: Keybindings, action: Action, key: KeyEvent) -> bool {
    match action {
        Action::Down => matches_with_fallback_spec(key, k.down, KeyCode::Down),
        Action::Up => matches_with_fallback_spec(key, k.up, KeyCode::Up),
        Action::Open => matches_code_spec(key, k.open),
        Action::Compose => matches_code_spec(key, k.compose),
        Action::Reply => matches_code_spec(key, k.reply),
        Action::Delete => matches_code_spec(key, k.delete),
        Action::Search => matches_code_spec(key, k.search),
        Action::Refresh => matches_code_spec(key, k.refresh),
        Action::Quit => matches_code_spec(key, k.quit),
        Action::NextTab => matches_code_spec(key, k.next_tab),
        Action::PrevTab => matches_code_spec(key, k.prev_tab),
        Action::LoadMore => matches_code_spec(key, k.load_more),
        Action::Help => matches_code_spec(key, k.help),
    }
}

impl Default for Keybindings {
    fn default() -> (r: Keybindings)
        ensures
            r == default_keybindings(),
    {
        Keybindings {
            down: KeyCode::Char('j'),
            up: KeyCode::Char('k'),
            open: KeyCode::Enter,
            compose: KeyCode::Char('c'),
            reply: KeyCode::Char('r'),
            delete: KeyCode::Char('d'),
            search: KeyCode::Char('/'),
            refresh: KeyCode::Char('R'),
            quit: KeyCode::Char('q'),
            next_tab: KeyCode::Tab,
            prev_tab: KeyCode::BackTab,
            load_more: KeyCode::Char('L'),
            help: KeyCode::Char('?'),
        }
    }
}

impl Keybindings {
    /// Whether `key` triggers `action`.
    pub fn matches(&self, action: Action, key: KeyEvent) -> (r: bool)
        ensures
            r == key_matches(*self, action, key),
    {
        match action {
            Action::Down => self.matches_with_fallback(key, self.down, KeyCode::Down),
            Action::Up => self.matches_with_fallback(key, self.up, KeyCode::Up),
            Action::Open => self.matches_code(key, self.open),
            Action::Compose => self.matches_code(key, self.compose),
            Action::Reply => self.matches_code(key, self.reply),
            Action::Delete => self.matches_code(key, self.delete),
            Action::Search => self.matches_code(key, self.search),
            Action::Refresh => self.matches_code(key, self.refresh),
            Action::Quit => self.matches_code(key, self.quit),
            Action::NextTab => self.matches_code(key, self.next_tab),
            Action::PrevTab => self.matches_code(key, self.prev_tab),
            Action::LoadMore => self.matches_code(key, self.load_more),
            Action::Help => self.matches_code(key, self.help),
        }
    }

    /// Whether `key` is `binding` without Control.
    pub fn matches_code(&self, key: KeyEvent, binding: KeyCode) -> (r: bool)
        ensures
            r == matches_code_spec(key, binding),
    {
        if key.modifiers.control {
            return false;
        }
        key.code == binding
    }

    /// Whether `key` is `primary`, or the arrow `fallback` where that is allowed.
    pub fn matches_with_fallback(&self, key: KeyEvent, primary: KeyCode, fallback: KeyCode) -> (r: bool)
        ensures
            r == matches_with_fallback_spec(key, primary, fallback),
    {
        if self.matches_code(key, primary) {
            return true;
        }
        if primary == KeyCode::Char('j') && key.code == fallback {
            return true;
        }
        if primary == KeyCode::Char('k') && key.code == fallback {
            return true;
        }
        key.code == fallback && primary == fallback
    }

    /// The bindings a configuration file gives: each entry that names a key replaces the
    /// default, each missing or unreadable one keeps it.
    pub fn from_file(file: Option<KeybindingsFile>) -> (r: Keybindings)
        ensures
            r == keybindings_from_file_spec(file),
    {
        let defaults = Keybindings::default();
        match file {
            Some(f) => Keybindings {
                down: parse_keycode(f.down).unwrap_or(defaults.down),
                up: parse_keycode(f.up).unwrap_or(defaults.up),
                open: parse_keycode(f.open).unwrap_or(defaults.open),
                compose: parse_keycode(f.compose).unwrap_or(defaults.compose),
                reply: parse_keycode(f.reply).unwrap_or(defaults.reply),
                delete: parse_keycode(f.delete).unwrap_or(defaults.delete),
                search: parse_keycode(f.search).unwrap_or(defaults.search),
                refresh: parse_keycode(f.refresh).unwrap_or(defaults.refresh),
                quit: parse_keycode(f.quit).unwrap_or(defaults.quit),
                next_tab: parse_keycode(f.next_tab).unwrap_or(defaults.next_tab),
                prev_tab: parse_keycode(f.prev_tab).unwrap_or(defaults.prev_tab),
                load_more: parse_keycode(f.load_more).unwrap_or(defaults.load_more),
                help: parse_keycode(f.help).unwrap_or(defaults.help),
            },
            None => defaults,
        }
    }
}

/// The `[keybindings]` table of the configuration file, as text.
#[derive(Debug)]
pub struct KeybindingsFile {
    pub down: Option<String>,
    pub up: Option<String>,
    pub open: Option<String>,
    pub compose: Option<String>,
    pub reply: Option<String>,
    pub delete: Option<String>,
    pub search: Option<String>,
    pub refresh: Option<String>,
    pub quit: Option<String>,
    pub next_tab: Option<String>,
    pub prev_tab: Option<String>,
    pub load_more: Option<String>,
    pub help: Option<String>,
}

/// The key a named key spells, for the names the configuration file knows.
pub open spec fn named_key(name: Seq<char>) -> Option<KeyCode> {
    if name == "down"@ { Some(KeyCode::Down) }
    else if name == "up"@ { Some(KeyCode::Up) }
    else if name == "left"@ { Some(KeyCode::Left) }
    else if name == "right"@ { Some(KeyCode::Right) }
    else if name == "enter"@ { Some(KeyCode::Enter) }
    else if name == "tab"@ { Some(KeyCode::Tab) }
    else if name == "backtab"@ || name == "shift+tab"@ { Some(KeyCode::BackTab) }
    else if name == "esc"@ || name == "escape"@ { Some(KeyCode::Esc) }
    else if name == "backspace"@ { Some(KeyCode::Backspace) }
    else if name == "delete"@ { Some(KeyCode::Delete) }
    else if name == "home"@ { Some(KeyCode::Home) }
    else if name == "end"@ { Some(KeyCode::End) }
    else if name == "pageup"@ { Some(KeyCode::PageUp) }
    else if name == "pagedown"@ { Some(KeyCode::PageDown) }
    else if name == "space"@ { Some(KeyCode::Char(' ')) }
    else { None }
}

/// The key a configuration entry names: the entry is trimmed; an empty entry names
/// none; a key name in any case names that key; a single one-byte (ASCII) character
/// names itself; anything else names none.
pub open spec fn parse_keycode_seq(raw: Seq<char>) -> Option<KeyCode> {
    let value = trim_seq(raw);
    if value.len() == 0 {
        None
    } else {
        match named_key(lowercase(value)) {
            Some(k) => Some(k),
            None => if value.len() == 1 && (value[0] as u32) < 0x80 {
                Some(KeyCode::Char(value[0]))
            } else {
                None
            },
        }
    }
}

/// The key an optional configuration entry names.
pub open spec fn parse_keycode_spec(input: Option<String>) -> Option<KeyCode> {
    match input {
        Some(raw) => parse_keycode_seq(raw@),
        None => None,
    }
}

/// No key name is a single character, so a one-character entry names no key.
pub proof fn lemma_key_names_are_long(name: Seq<char>)
    requires
        name.len() <= 1,
    ensures
        named_key(name) is None,
{
    reveal_strlit("down");
    reveal_strlit("up");
    reveal_strlit("left");
    reveal_strlit("right");
    reveal_strlit("enter");
    reveal_strlit("tab");
    reveal_strlit("backtab");
    reveal_strlit("shift+tab");
    reveal_strlit("esc");
    reveal_strlit("escape");
    reveal_strlit("backspace");
    reveal_strlit("delete");
    reveal_strlit("home");
    reveal_strlit("end");
    reveal_strlit("pageup");
    reveal_strlit("pagedown");
    reveal_strlit("space");
}

/// An entry that, trimmed, is one ASCII character binds that very character, its case
/// kept: `refresh = "R"` binds 'R' and not the 'r' of reply. (Lower-casing the character
/// for the name lookup gives at most one character, which names no key.)
pub proof fn lemma_single_char_binds_itself(raw: String, c: char)
    requires
        trim_seq(raw@) == seq![c],
        (c as u32) < 0x80,
        lowercase(seq![c]).len() <= 1,
    ensures
        parse_keycode_spec(Some(raw)) == Some(KeyCode::Char(c)),
{
    lemma_key_names_are_long(lowercase(seq![c]));
    assert(trim_seq(raw@)[0] == c);
}

/// Key names are read in any case: two entries longer than one character that differ,
/// once trimmed, in case alone bind the same key, or none.
pub proof fn lemma_key_names_ignore_case(raw1: String, raw2: String)
    requires
        trim_seq(raw1@).len() > 1,
        trim_seq(raw2@).len() > 1,
        lowercase(trim_seq(raw1@)) == lowercase(trim_seq(raw2@)),
    ensures
        parse_keycode_spec(Some(raw1)) == parse_keycode_spec(Some(raw2)),
{
}

/// The binding for one entry, or the default.
pub open spec fn binding_or(input: Option<String>, default: KeyCode) -> KeyCode {
    match parse_keycode_spec(input) {
        Some(k) => k,
        None => default,
    }
}

/// The bindings a configuration file gives.
pub open spec fn keybindings_from_file_spec(file: Option<KeybindingsFile>) -> Keybindings {
    let d = default_keybindings();
    match file {
        Some(f) => Keybindings {
            down: binding_or(f.down, d.down),
            up: binding_or(f.up, d.up),
            open: binding_or(f.open, d.open),
            compose: binding_or(f.compose, d.compose),
            reply: binding_or(f.reply, d.reply),
            delete: binding_or(f.delete, d.delete),
            search: binding_or(f.search, d.search),
            refresh: binding_or(f.refresh, d.refresh),
            quit: binding_or(f.quit, d.quit),
            next_tab: binding_or(f.next_tab, d.next_tab),
            prev_tab: binding_or(f.prev_tab, d.prev_tab),
            load_more: binding_or(f.load_more, d.load_more),
            help: binding_or(f.help, d.help),
        },
        None => d,
    }
}

fn named_key_exec(name: &str) -> (r: Option<KeyCode>)
    ensures
        r == named_key(name@),
{
    if str_eq(name, "down") { Some(KeyCode::Down) }
    else if str_eq(name, "up") { Some(KeyCode::Up) }
    else if str_eq(name, "left") { Some(KeyCode::Left) }
    else if str_eq(name, "right") { Some(KeyCode::Right) }
    else if str_eq(name, "enter") { Some(KeyCode::Enter) }
    else if str_eq(name, "tab") { Some(KeyCode::Tab) }
    else if str_eq(name, "backtab") || str_eq(name, "shift+tab") { Some(KeyCode::BackTab) }
    else if str_eq(name, "esc") || str_eq(name, "escape") { Some(KeyCode::Esc) }
    else if str_eq(name, "backspace") { Some(KeyCode::Backspace) }
    else if str_eq(name, "delete") { Some(KeyCode::Delete) }
    else if str_eq(name, "home") { Some(KeyCode::Home) }
    else if str_eq(name, "end") { Some(KeyCode::End) }
    else if str_eq(name, "pageup") { Some(KeyCode::PageUp) }
    else if str_eq(name, "pagedown") { Some(KeyCode::PageDown) }
    else if str_eq(name, "space") { Some(KeyCode::Char(' ')) }
    else { None }
}

/// The key a configuration entry names, if any.
pub fn parse_keycode(input: Option<String>) -> (r: Option<KeyCode>)
    ensures
        r == parse_keycode_spec(input),
{
    let raw = match input {
        Some(raw) => raw,
        None => {
            return None;
        },
    };
    let chars = chars_of(raw.as_str());
    let trimmed = trim_chars(&chars);
    if trimmed.len() == 0 {
        return None;
    }
    let value = string_of(&trimmed);
    let lower = to_lowercase(value.as_str());
    match named_key_exec(lower.as_str()) {
        Some(k) => Some(k),
        None => {
            if trimmed.len() == 1 && (trimmed[0] as u32) < 0x80 {
                Some(KeyCode::Char(trimmed[0]))
            } else {
                None
            }
        },
    }
}

} // verus!

verus! {

/// The settings the application runs with.
#[derive(Debug)]
pub struct Config {
    pub theme: Theme,
    pub keybindings: Keybindings,
    pub page_size: usize,
    pub cache_ttl_secs: u64,
}

/// The configuration file, as read: every entry may be missing.
#[derive(Debug)]
pub struct ConfigFile {
    pub theme: Option<String>,
    pub page_size: Option<usize>,
    pub cache_ttl_secs: Option<u64>,
    pub keybindings: Option<KeybindingsFile>,
    pub client_id: Option<String>,
    pub client_secret: Option<String>,
    pub token_cache_path: Option<String>,
}

/// The theme a `theme` entry selects: "light" selects the light theme, anything else
/// or nothing the dark one; the theme carries the name it was selected as.
pub open spec fn theme_selected(t: Theme, entry: Option<String>) -> bool {
    if entry matches Some(name) && name@ == "light"@ {
        light_colors(t) && t.name@ == "light"@
    } else {
        dark_colors(t) && t.name@ == "dark"@
    }
}

impl Config {
    /// The configuration without a file: dark theme, default keys, pages of 20,
    /// a cache that lives 300 seconds.
    pub fn new() -> (c: Config)
        ensures
            dark_colors(c.theme),
            c.theme.name@ == "dark"@,
            c.keybindings == default_keybindings(),
            c.page_size == 20,
            c.cache_ttl_secs == 300,
    {
        Config {
            theme: Theme::dark().named("dark"),
            keybindings: Keybindings::default(),
            page_size: 20,
            cache_ttl_secs: 300,
        }
    }

    /// The configuration a file gives: each present entry replaces the default.
    pub fn from_file(file: ConfigFile) -> (c: Config)
        ensures
            theme_selected(c.theme, file.theme),
            c.keybindings == keybindings_from_file_spec(file.keybindings),
            c.page_size == (match file.page_size {
                Some(n) => n,
                None => 20,
            }),
            c.cache_ttl_secs == (match file.cache_ttl_secs {
                Some(n) => n,
                None => 300,
            }),
    {
        let is_light = match &file.theme {
            Some(name) => str_eq(name.as_str(), "light"),
            None => false,
        };
        let theme = if is_light {
            Theme::light().named("light")
        } else {
            Theme::dark().named("dark")
        };
        Config {
            theme,
            keybindings: Keybindings::from_file(file.keybindings),
            page_size: file.page_size.unwrap_or(20),
            cache_ttl_secs: file.cache_ttl_secs.unwrap_or(300),
        }
    }
}

impl Default for Config {
    fn default() -> (c: Config)
        ensures
            dark_colors(c.theme),
            c.theme.name@ == "dark"@,
            c.keybindings == default_keybindings(),
            c.page_size == 20,
            c.cache_ttl_secs == 300,
    {
        Config::new()
    }
}

/// The OAuth settings.
#[derive(Debug)]
pub struct AuthConfig {
    pub client_id: String,
    pub client_secret: String,
    pub token_cache_path: String,
}

/// What went wrong while reading the OAuth settings.
#[derive(Debug, Clone, Copy, PartialEq, Eq, Structural)]
pub enum AuthConfigError {
    MissingClientId,
    MissingClientSecret,
}

/// The first of two optional settings that is present.
pub open spec fn first_of(a: Option<String>, b: Option<String>) -> Option<String> {
    if a is Some { a } else { b }
}

impl AuthConfigError {
    /// The message the error is reported with.
    pub fn message(&self) -> (r: &'static str)
        ensures
            r@ == (match self {
                AuthConfigError::MissingClientId => "missing client_id"@,
                AuthConfigError::MissingClientSecret => "missing client_secret"@,
            }),
    {
        match self {
            AuthConfigError::MissingClientId => "missing client_id",
            AuthConfigError::MissingClientSecret => "missing client_secret",
        }
    }
}

impl AuthConfig {
    /// The OAuth settings from the configuration file's entries, each falling back to
    /// its environment variable, and the token cache falling back to `default_token_path`.
    /// Without a client id, or else without a client secret, there are none.
    pub fn resolve(
        file_client_id: Option<String>,
        file_client_secret: Option<String>,
        file_token_cache_path: Option<String>,
        env_client_id: Option<String>,
        env_client_secret: Option<String>,
        env_token_cache_path: Option<String>,
        default_token_path: String,
    ) -> (r: Result<AuthConfig, AuthConfigError>)
        ensures
            first_of(file_client_id, env_client_id) is None ==> r == Err::<AuthConfig, AuthConfigError>(AuthConfigError::MissingClientId),
            first_of(file_client_id, env_client_id) is Some && first_of(file_client_secret, env_client_secret) is None
                ==> r == Err::<AuthConfig, AuthConfigError>(AuthConfigError::MissingClientSecret),
            r matches Ok(c) ==> {
                &&& Some(c.client_id) == first_of(file_client_id, env_client_id)
                &&& Some(c.client_secret) == first_of(file_client_secret, env_client_secret)
                &&& c.token_cache_path == (match first_of(file_token_cache_path, env_token_cache_path) {
                    Some(p) => p,
                    None => default_token_path,
                })
            },
            (first_of(file_client_id, env_client_id) is Some && first_of(file_client_secret, env_client_secret) is Some) ==> r is Ok,
    {
        let client_id = match file_client_id {
            Some(v) => Some(v),
            None => env_client_id,
        };
        let client_secret = match file_client_secret {
            Some(v) => Some(v),
            None => env_client_secret,
        };
        let token_cache_path = match file_token_cache_path {
            Some(v) => Some(v),
            None => env_token_cache_path,
        };
        let client_id = match client_id {
            Some(v) => v,
            None => {
                return Err(AuthConfigError::MissingClientId);
            },
        };
        let client_secret = match client_secret {
            Some(v) => v,
            None => {
                return Err(AuthConfigError::MissingClientSecret);
            },
        };
        let token_cache_path = match token_cache_path {
            Some(p) => p,
            None => default_token_path,
        };
        Ok(AuthConfig { client_id, client_secret, token_cache_path })
    }
}

} // verus!
