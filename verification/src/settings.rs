//! Persisted UI preferences.
use vstd::prelude::*;

use crate::library::{join_path, joined};

verus! {

/// Persisted UI preferences.
#[derive(Debug, Clone, PartialEq, Eq, Structural)]
pub struct Settings {
    /// Whether the page-thumbnails sidebar should be visible on launch.
    pub show_sidebar: bool,
}

impl Default for Settings {
    fn default() -> (s: Self)
        ensures
            !s.show_sidebar,
    {
        Settings { show_sidebar: false }
    }
}

/// Where the settings file lives, given `$XDG_CONFIG_HOME` and `$HOME`
/// (`None` when unset): `previewer/settings.json` under `$XDG_CONFIG_HOME`
/// when it is non-empty, else under `$HOME/.config`; nowhere when neither
/// applies.
pub open spec fn settings_file(xdg_config_home: Option<Seq<char>>, home: Option<Seq<char>>) -> Option<Seq<char>> {
    let base = match xdg_config_home {
        Some(x) if x.len() > 0 => Some(x),
        _ => match home {
            Some(h) => Some(joined(h, ".config"@)),
            None => None,
        },
    };
    match base {
        Some(b) => Some(joined(joined(b, "previewer"@), "settings.json"@)),
        None => None,
    }
}

/// The settings file path for the given values of `$XDG_CONFIG_HOME` and
/// `$HOME` (`None` when unset).
pub fn settings_path(xdg_config_home: Option<&str>, home: Option<&str>) -> (p: Option<String>)
    ensures
        match p {
            Some(s) => settings_file(
                match xdg_config_home {
                    Some(x) => Some(x@),
                    None => None,
                },
                match home {
                    Some(h) => Some(h@),
                    None => None,
                },
            ) == Some(s@),
            None => settings_file(
                match xdg_config_home {
                    Some(x) => Some(x@),
                    None => None,
                },
                match home {
                    Some(h) => Some(h@),
                    None => None,
                },
            ) is None,
        },
{
    proof {
        reveal_strlit(".config");
        reveal_strlit("previewer");
        reveal_strlit("settings.json");
    }
    let base = match xdg_config_home {
        Some(x) if x.unicode_len() > 0 => String::from_str(x),
        _ => match home {
            Some(h) => join_path(h, ".config"),
            None => return None,
        },
    };
    let dir = join_path(base.as_str(), "previewer");
    Some(join_path(dir.as_str(), "settings.json"))
}

} // verus!
