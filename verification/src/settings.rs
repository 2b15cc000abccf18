//! Defaults of the application settings. Reading the configuration file,
//! and the font size (a floating-point number), stay with the application.
use vstd::prelude::*;

verus! {

/// The font family used when the configuration names none.
pub fn default_font_family() -> (r: String)
    ensures
        r@ == "monospace"@,
{
    "monospace".to_owned()
}

/// The colour scheme used when the configuration names none.
pub fn default_theme() -> (r: String)
    ensures
        r@ == "system"@,
{
    "system".to_owned()
}

/// Appearance settings: the colour scheme, "system", "light" or "dark".
#[derive(Debug, Clone)]
pub struct AppearanceSettings {
    pub theme: String,
}

impl Default for AppearanceSettings {
    fn default() -> (r: Self)
        ensures
            r.theme@ == "system"@,
    {
        AppearanceSettings { theme: default_theme() }
    }
}

} // verus!
