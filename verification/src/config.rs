//! Persisted user preferences.

use vstd::prelude::*;

verus! {

/// The preferences the reader stores between sessions.
pub struct AppConfig {
    pub default_theme: String,
    pub text_size: usize,
    pub text_alignment: String,
    pub startup_view: String,
    pub case_sensitive_search: bool,
    pub show_status_bar: bool,
    pub target_wpm: usize,
}

/// Alignment used when a stored configuration does not name one.
pub fn default_alignment() -> (s: String)
    ensures
        s@ == "left"@,
{
    String::from_str("left")
}

/// Start-up view used when a stored configuration does not name one.
pub fn default_startup_view() -> (s: String)
    ensures
        s@ == "library"@,
{
    String::from_str("library")
}

/// Search is case-insensitive unless configured otherwise.
pub fn default_case_sensitive() -> (b: bool)
    ensures
        !b,
{
    false
}

/// The status bar is shown unless configured otherwise.
pub fn default_show_status_bar() -> (b: bool)
    ensures
        b,
{
    true
}

/// Reading speed, in words per minute, used when none is configured.
pub fn default_target_wpm() -> (n: usize)
    ensures
        n == 250,
{
    250
}

impl Default for AppConfig {
    fn default() -> (c: Self)
        ensures
            c.default_theme@ == "dark"@,
            c.text_size == 14,
            c.text_alignment@ == "left"@,
            c.startup_view@ == "library"@,
            !c.case_sensitive_search,
            c.show_status_bar,
            c.target_wpm == 250,
    {
        AppConfig {
            default_theme: String::from_str("dark"),
            text_size: 14,
            text_alignment: default_alignment(),
            startup_view: default_startup_view(),
            case_sensitive_search: default_case_sensitive(),
            show_status_bar: default_show_status_bar(),
            target_wpm: default_target_wpm(),
        }
    }
}

} // verus!
