//! Launcher settings, their defaults, and the choices derived from them.
use vstd::prelude::*;
use crate::text::{cat, cat3, from_chars, lit, same_chars, slice, to_chars};

verus! {

/// The user's configuration, as stored in `~/.config/spear/config.json`.
#[derive(Debug, Clone)]
pub struct AppSettings {
    pub shortcut: String,
    pub search_font_size: i32,
    pub title_font_size: i32,
    pub window_width: i32,
    pub window_height: i32,
    pub color_scheme: String, // default, light, dark
    pub theme: String, // adwaita, tokyonight, dracula, catppuccin, gruvbox
    pub layout_mode: String, // standard, focused, minimal
    pub file_preview_enabled: bool,
    pub apps_enabled: bool,
    pub calc_enabled: bool,
    pub web_enabled: bool,
    pub youtube_enabled: bool,
    pub files_enabled: bool,
    pub command_enabled: bool,
    pub gnome_enabled: bool,
    pub recent_enabled: bool,
    pub web_custom_name: String,
    pub web_custom_url: String,
    pub file_search_roots: String,
    pub command_prefix: String,
    pub youtube_url: String,
}

impl AppSettings {
    /// Every field holds its default value.
    pub open spec fn is_default(&self) -> bool {
        &&& self.shortcut@ == "<Alt>space"@
        &&& self.search_font_size == 16
        &&& self.title_font_size == 14
        &&& self.window_width == 650
        &&& self.window_height == 480
        &&& self.color_scheme@ == "default"@
        &&& self.theme@ == "adwaita"@
        &&& self.layout_mode@ == "standard"@
        &&& self.file_preview_enabled
        &&& self.apps_enabled
        &&& self.calc_enabled
        &&& self.web_enabled
        &&& self.youtube_enabled
        &&& self.files_enabled
        &&& self.command_enabled
        &&& self.gnome_enabled
        &&& self.recent_enabled
        &&& self.web_custom_name@ == "Google"@
        &&& self.web_custom_url@ == "https://google.com/search?q="@
        &&& self.file_search_roots@ == "~/Documents, ~/Downloads, ~/Desktop"@
        &&& self.command_prefix@ == ">"@
        &&& self.youtube_url@ == "https://youtube.com/results?search_query="@
    }
}

impl Default for AppSettings {
    fn default() -> (s: Self)
        ensures
            s.is_default(),
    {
        AppSettings {
            shortcut: lit("<Alt>space"),
            search_font_size: 16,
            title_font_size: 14,
            window_width: 650,
            window_height: 480,
            color_scheme: lit("default"),
            theme: lit("adwaita"),
            layout_mode: lit("standard"),
            file_preview_enabled: true,
            apps_enabled: true,
            calc_enabled: true,
            web_enabled: true,
            youtube_enabled: true,
            files_enabled: true,
            command_enabled: true,
            gnome_enabled: true,
            recent_enabled: true,
            web_custom_name: lit("Google"),
            web_custom_url: lit("https://google.com/search?q="),
            file_search_roots: lit("~/Documents, ~/Downloads, ~/Desktop"),
            command_prefix: lit(">"),
            youtube_url: lit("https://youtube.com/results?search_query="),
        }
    }
}

/// Default of the per-plugin switches.
pub fn default_true() -> (b: bool)
    ensures
        b,
{
    true
}

pub fn default_layout_mode() -> (s: String)
    ensures
        s@ == "standard"@,
{
    lit("standard")
}

pub fn default_web_name() -> (s: String)
    ensures
        s@ == "Google"@,
{
    lit("Google")
}

pub fn default_web_url() -> (s: String)
    ensures
        s@ == "https://google.com/search?q="@,
{
    lit("https://google.com/search?q=")
}

pub fn default_file_roots() -> (s: String)
    ensures
        s@ == "~/Documents, ~/Downloads, ~/Desktop"@,
{
    lit("~/Documents, ~/Downloads, ~/Desktop")
}

pub fn default_cmd_prefix() -> (s: String)
    ensures
        s@ == ">"@,
{
    lit(">")
}

pub fn default_yt_url() -> (s: String)
    ensures
        s@ == "https://youtube.com/results?search_query="@,
{
    lit("https://youtube.com/results?search_query=")
}

/// `base` joined with the relative path `part`, as `Path::join` does: no
/// separator is added after an empty base or one that already ends in `/`.
pub open spec fn joined(base: Seq<char>, part: Seq<char>) -> Seq<char> {
    if base.len() == 0 {
        part
    } else if base.last() == '/' {
        base + part
    } else {
        base + seq!['/'] + part
    }
}

pub fn join_path(base: &str, part: &str) -> (r: String)
    ensures
        r@ == joined(base@, part@),
{
    let b = to_chars(base);
    if b.len() == 0 {
        lit(part)
    } else if b[b.len() - 1] == '/' {
        cat(base, part)
    } else {
        let sep = from_chars(&['/']);
        assert(sep@ =~= seq!['/']);
        cat3(base, sep.as_str(), part)
    }
}

/// The configuration directory under the home directory `home`.
pub open spec fn config_dir(home: Seq<char>) -> Seq<char> {
    joined(joined(home, ".config"@), "spear"@)
}

impl AppSettings {
    /// Where the settings file lives for the home directory `home`:
    /// `home/.config/spear/config.json`.
    pub fn get_config_path(home: &str) -> (r: String)
        ensures
            r@ == joined(config_dir(home@), "config.json"@),
    {
        let c = join_path(home, ".config");
        let s = join_path(c.as_str(), "spear");
        join_path(s.as_str(), "config.json")
    }
}

/// The colour schemes the style manager offers.
#[derive(Clone, Copy, Debug, PartialEq, Eq)]
pub enum ColorScheme {
    Default,
    PreferLight,
    PreferDark,
}

/// `dark` and `light` select those schemes; any other value the default.
pub open spec fn spec_color_scheme(scheme: Seq<char>) -> ColorScheme {
    if scheme == "dark"@ {
        ColorScheme::PreferDark
    } else if scheme == "light"@ {
        ColorScheme::PreferLight
    } else {
        ColorScheme::Default
    }
}

pub fn color_scheme_for(scheme: &str) -> (r: ColorScheme)
    ensures
        r == spec_color_scheme(scheme@),
{
    let s = to_chars(scheme);
    if same_chars(&s, &to_chars("dark")) {
        ColorScheme::PreferDark
    } else if same_chars(&s, &to_chars("light")) {
        ColorScheme::PreferLight
    } else {
        ColorScheme::Default
    }
}

/// What `char::to_uppercase` yields for `c`, collected into a string.
pub uninterp spec fn char_upper(c: char) -> Seq<char>;

/// `char::to_uppercase`, collected into a `String`; the characters are
/// named by `char_upper`.
#[verifier::external_body]
fn upper_char(c: char) -> (r: String)
    ensures
        r@ == char_upper(c),
{
    c.to_uppercase().collect()
}

/// The label of a custom theme: its file stem with the first character
/// upper-cased.
pub open spec fn spec_theme_label(stem: Seq<char>) -> Seq<char> {
    if stem.len() == 0 {
        stem
    } else {
        char_upper(stem[0]) + stem.drop_first()
    }
}

pub fn theme_display_name(stem: &str) -> (r: String)
    ensures
        r@ == spec_theme_label(stem@),
{
    let s = to_chars(stem);
    if s.len() == 0 {
        return String::new();
    }
    let first = upper_char(s[0]);
    let rest = from_chars(slice(&s, 1, s.len()).as_slice());
    let r = cat(first.as_str(), rest.as_str());
    assert(s@.subrange(1, s@.len() as int) =~= s@.drop_first());
    r
}

} // verus!
