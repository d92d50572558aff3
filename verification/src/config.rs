//! Per-app settings: theme and language. Reading and writing the JSON file
//! happens outside; a missing or broken file gives the default.
use crate::i18n::Lang;
use crate::theme::Theme;
use vstd::prelude::*;

verus! {

#[derive(Clone, Copy, PartialEq, Eq, Debug)]
pub struct Config {
    pub theme: Theme,
    pub lang: Lang,
}

impl Default for Config {
    /// Nature theme, Portuguese.
    fn default() -> (c: Config)
        ensures
            c == (Config { theme: Theme::Nature, lang: Lang::Pt }),
    {
        Config { theme: Theme::Nature, lang: Lang::Pt }
    }
}

} // verus!
