//! Application settings and how a partial update applies to them.
use vstd::prelude::*;

use crate::document::or_keep;

verus! {

#[derive(Clone, Copy, Debug, PartialEq, Eq, Structural)]
pub enum Theme {
    System,
    Light,
    Dark,
    Latte,
    Frappe,
    Macchiato,
    Mocha,
    Custom,
}

impl Default for Theme {
    fn default() -> (r: Theme)
        ensures
            r == Theme::System,
    {
        Theme::System
    }
}

pub struct ThemeColors {
    pub background: String,
    pub foreground: String,
    pub primary: String,
    pub secondary: String,
    pub accent: String,
    pub muted: String,
    pub border: String,
}

impl Default for ThemeColors {
    fn default() -> (r: ThemeColors)
        ensures
            r.background@.len() == 0 && r.foreground@.len() == 0 && r.primary@.len() == 0
                && r.secondary@.len() == 0 && r.accent@.len() == 0 && r.muted@.len() == 0
                && r.border@.len() == 0,
    {
        ThemeColors {
            background: String::new(),
            foreground: String::new(),
            primary: String::new(),
            secondary: String::new(),
            accent: String::new(),
            muted: String::new(),
            border: String::new(),
        }
    }
}

pub struct CustomTheme {
    pub name: String,
    pub colors: ThemeColors,
}

pub struct AppSettings {
    pub theme: Theme,
    pub custom_themes: Vec<CustomTheme>,
    /// Milliseconds.
    pub default_timeout: u32,
    pub follow_redirects: bool,
    pub validate_ssl: bool,
    pub max_history_items: u32,
    pub auto_save_requests: bool,
}

pub struct UpdateSettingsInput {
    pub theme: Option<Theme>,
    pub custom_themes: Option<Vec<CustomTheme>>,
    pub default_timeout: Option<u32>,
    pub follow_redirects: Option<bool>,
    pub validate_ssl: Option<bool>,
    pub max_history_items: Option<u32>,
    pub auto_save_requests: Option<bool>,
}

/// The request timeout where none is stored, in milliseconds.
pub fn default_timeout() -> (r: u32)
    ensures
        r == 30000,
{
    30000
}

/// The value of the switches that are on where none is stored.
pub fn default_true() -> (r: bool)
    ensures
        r,
{
    true
}

/// The length of the request history where none is stored.
pub fn default_max_history() -> (r: u32)
    ensures
        r == 100,
{
    100
}

impl Default for AppSettings {
    fn default() -> (r: AppSettings)
        ensures
            r.theme == Theme::System,
            r.custom_themes@.len() == 0,
            r.default_timeout == 30000,
            r.follow_redirects,
            r.validate_ssl,
            r.max_history_items == 100,
            r.auto_save_requests,
    {
        AppSettings {
            theme: Theme::System,
            custom_themes: Vec::new(),
            default_timeout: default_timeout(),
            follow_redirects: default_true(),
            validate_ssl: default_true(),
            max_history_items: default_max_history(),
            auto_save_requests: default_true(),
        }
    }
}

impl AppSettings {
    /// Takes each setting that `input` supplies; the others stay.
    pub fn apply(&mut self, input: UpdateSettingsInput)
        ensures
            final(self).theme == or_keep(input.theme, old(self).theme),
            final(self).custom_themes@ == if input.custom_themes is Some {
                input.custom_themes->Some_0@
            } else {
                old(self).custom_themes@
            },
            final(self).default_timeout == or_keep(input.default_timeout, old(self).default_timeout),
            final(self).follow_redirects == or_keep(input.follow_redirects, old(self).follow_redirects),
            final(self).validate_ssl == or_keep(input.validate_ssl, old(self).validate_ssl),
            final(self).max_history_items == or_keep(input.max_history_items, old(self).max_history_items),
            final(self).auto_save_requests == or_keep(input.auto_save_requests, old(self).auto_save_requests),
    {
        if let Some(theme) = input.theme {
            self.theme = theme;
        }
        if let Some(custom_themes) = input.custom_themes {
            self.custom_themes = custom_themes;
        }
        if let Some(timeout) = input.default_timeout {
            self.default_timeout = timeout;
        }
        if let Some(follow) = input.follow_redirects {
            self.follow_redirects = follow;
        }
        if let Some(validate) = input.validate_ssl {
            self.validate_ssl = validate;
        }
        if let Some(max) = input.max_history_items {
            self.max_history_items = max;
        }
        if let Some(auto_save) = input.auto_save_requests {
            self.auto_save_requests = auto_save;
        }
    }
}

} // verus!
