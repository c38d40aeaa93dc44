//! The persisted configuration: which theme is the default, and where the
//! configuration file lies.

use vstd::prelude::*;
use vstd::string::StringExecFns;
use crate::text::chars_of;

verus! {

/// The configuration of the tool.
#[derive(Debug)]
pub struct Config {
    /// The name of the theme that listings use.
    pub default_theme: String,
}

/// The name of the theme that is used when nothing is configured.
pub open spec fn fallback_theme() -> Seq<char> {
    "catppuccin"@
}

impl Default for Config {
    fn default() -> (r: Config)
        ensures
            r.default_theme@ == fallback_theme(),
    {
        Config { default_theme: String::from_str("catppuccin") }
    }
}

impl Config {
    /// The configuration in force: what was loaded, or the default when
    /// the file was missing, unreadable or malformed.
    pub fn or_default(loaded: Option<Config>) -> (r: Config)
        ensures
            match loaded {
                Some(c) => r == c,
                None => r.default_theme@ == fallback_theme(),
            },
    {
        match loaded {
            Some(c) => c,
            None => Config::default(),
        }
    }
}

/// A directory path with a component appended: a separator goes between
/// them unless the directory is empty or already ends in one.
pub open spec fn joined(dir: Seq<char>, component: Seq<char>) -> Seq<char> {
    if dir.len() == 0 || dir.last() == '/' {
        dir + component
    } else {
        dir + seq!['/'] + component
    }
}

/// The path of the configuration file below the user's configuration
/// directory, or below the current directory when there is none.
pub open spec fn config_path_text(config_dir: Option<Seq<char>>) -> Seq<char> {
    let base = match config_dir {
        Some(d) => d,
        None => seq!['.'],
    };
    joined(joined(base, "lsa"@), "config.toml"@)
}

/// Appends a component to a directory path.
pub fn join(dir: String, component: &str) -> (r: String)
    ensures
        r@ == joined(dir@, component@),
{
    let v = chars_of(dir.as_str());
    let mut out = dir;
    if v.len() > 0 && v[v.len() - 1] != '/' {
        out.push('/');
    }
    out.append(component);
    assert(out@ =~= joined(dir@, component@));
    out
}

/// The path of the configuration file.
pub fn config_path(config_dir: Option<&str>) -> (r: String)
    ensures
        r@ == config_path_text(
            match config_dir {
                Some(d) => Some(d@),
                None => None,
            },
        ),
{
    let base = match config_dir {
        Some(d) => String::from_str(d),
        None => {
            let mut dot = String::new();
            dot.push('.');
            assert(dot@ =~= seq!['.']);
            dot
        },
    };
    let with_dir = join(base, "lsa");
    join(with_dir, "config.toml")
}

} // verus!
