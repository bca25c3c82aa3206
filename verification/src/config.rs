//! User settings. Reading and writing the TOML file belong to the caller;
//! the settings themselves, their defaults, and which file's text is used
//! stand here.

use vstd::prelude::*;

verus! {

/// Settings; an absent value means the built-in default.
#[derive(Debug)]
pub struct Config {
    pub symbols: Option<String>,
    pub theme: Option<String>,
    /// Kept only for migration from a single sort setting.
    pub sort_column: Option<String>,
    /// Kept only for migration from a single sort setting.
    pub sort_asc: Option<bool>,
    pub sort_column_branches: Option<String>,
    pub sort_asc_branches: Option<bool>,
    pub sort_column_remotes: Option<String>,
    pub sort_asc_remotes: Option<bool>,
    pub sort_column_tags: Option<String>,
    pub sort_asc_tags: Option<bool>,
    pub sort_column_worktrees: Option<String>,
    pub sort_asc_worktrees: Option<bool>,
    pub auto_fetch: Option<bool>,
    pub load_worktrees_on_launch: Option<bool>,
    pub include_remotes: Option<bool>,
    /// Silently verify and correct the cache in the background on launch;
    /// absent means on.
    pub verify_cache_on_launch: Option<bool>,
}

/// Every setting absent.
pub open spec fn is_default_config(c: Config) -> bool {
    &&& c.symbols is None
    &&& c.theme is None
    &&& c.sort_column is None
    &&& c.sort_asc is None
    &&& c.sort_column_branches is None
    &&& c.sort_asc_branches is None
    &&& c.sort_column_remotes is None
    &&& c.sort_asc_remotes is None
    &&& c.sort_column_tags is None
    &&& c.sort_asc_tags is None
    &&& c.sort_column_worktrees is None
    &&& c.sort_asc_worktrees is None
    &&& c.auto_fetch is None
    &&& c.load_worktrees_on_launch is None
    &&& c.include_remotes is None
    &&& c.verify_cache_on_launch is None
}

impl Default for Config {
    fn default() -> (c: Self)
        ensures
            is_default_config(c),
    {
        Config {
            symbols: None,
            theme: None,
            sort_column: None,
            sort_asc: None,
            sort_column_branches: None,
            sort_asc_branches: None,
            sort_column_remotes: None,
            sort_asc_remotes: None,
            sort_column_tags: None,
            sort_asc_tags: None,
            sort_column_worktrees: None,
            sort_asc_worktrees: None,
            auto_fetch: None,
            load_worktrees_on_launch: None,
            include_remotes: None,
            verify_cache_on_launch: None,
        }
    }
}

/// The text to parse as settings: the current file's when it could be read,
/// else the legacy file's; `None` (the defaults) when neither could be read
/// or the text chosen is empty.
pub fn config_text(current: Result<String, String>, legacy: Result<String, String>) -> (t: Option<String>)
    ensures
        t == match current {
            Ok(c) => if c@.len() == 0 { None } else { Some(c) },
            Err(_) => match legacy {
                Ok(l) => if l@.len() == 0 { None } else { Some(l) },
                Err(_) => None,
            },
        },
{
    let chosen = match current {
        Ok(c) => Some(c),
        Err(_) => match legacy {
            Ok(l) => Some(l),
            Err(_) => None,
        },
    };
    match chosen {
        Some(text) => if text.as_str().is_empty() { None } else { Some(text) },
        None => None,
    }
}

} // verus!
