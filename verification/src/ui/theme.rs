//! The application's own two themes.
use vstd::prelude::*;

verus! {

/// What the light theme is called.
pub const LIGHT_THEME_NAME: &'static str = "CloudBridge Light";

/// What the dark theme is called.
pub const DARK_THEME_NAME: &'static str = "CloudBridge Dark";

/// The theme that a configuration's dark flag stands for.
pub fn named_theme(dark: bool) -> (res: &'static str)
    ensures
        res@ == (if dark {
            DARK_THEME_NAME@
        } else {
            LIGHT_THEME_NAME@
        }),
{
    if dark {
        DARK_THEME_NAME
    } else {
        LIGHT_THEME_NAME
    }
}

} // verus!
