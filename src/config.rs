//! The configuration that a filter is built from.

use vstd::prelude::*;

use crate::errors::DumpError;

verus! {

/// The resolved, merged configuration.
#[derive(Debug, Clone)]
pub struct AppConfig {
    /// File extensions to skip, without the leading dot.
    pub skip_extensions: Vec<String>,
    /// Regular expressions matched against the whole path.
    pub skip_patterns: Vec<String>,
    /// File names to skip, matched against both the stem and the whole name.
    pub skip_filenames: Vec<String>,
    /// Names that exclude a file when any component of its path has one.
    pub skip_path_components: Vec<String>,
    /// Glob patterns matched against the path.
    pub skip_globs: Vec<String>,
    /// Whether files whose content looks binary are skipped.
    pub skip_binary: bool,
    /// Whether names that start with a dot are skipped.
    pub skip_hidden: bool,
}

/// The character sequences of a list of strings.
pub open spec fn string_views(v: Seq<String>) -> Seq<Seq<char>> {
    v.map_values(|s: String| s@)
}

pub open spec fn default_extensions() -> Seq<Seq<char>> {
    seq!["snap"@, "lock"@, "new"@, "gitignore"@, "orig"@, "bak"@, "swp"@]
}

pub open spec fn default_patterns() -> Seq<Seq<char>> {
    seq![".*test.*\\.rs$"@]
}

pub open spec fn default_filenames() -> Seq<Seq<char>> {
    seq!["license"@, "readme"@, "changelog"@, "makefile"@, "dockerfile"@]
}

pub open spec fn default_path_components() -> Seq<Seq<char>> {
    seq![".github"@, ".git"@, "node_modules"@, ".direnv"@]
}

fn strings_of(items: &[&str]) -> (r: Vec<String>)
    ensures
        string_views(r@) == items@.map_values(|s: &str| s@),
{
    let mut r: Vec<String> = Vec::new();
    let mut i: usize = 0;
    while i < items.len()
        invariant
            i <= items.len(),
            string_views(r@) == items@.take(i as int).map_values(|s: &str| s@),
        decreases items.len() - i,
    {
        let ghost before = r@;
        r.push(String::from_str(items[i]));
        assert(string_views(r@) == string_views(before).push(items@[i as int]@));
        assert(items@.take(i + 1) == items@.take(i as int).push(items@[i as int]));
        i = i + 1;
    }
    assert(items@.take(i as int) == items@);
    r
}

impl Default for AppConfig {
    /// Lock, snapshot, backup and swap files, test sources, license and build
    /// files, and version-control or dependency directories are skipped;
    /// so are binary and hidden files.
    fn default() -> (r: AppConfig)
        ensures
            string_views(r.skip_extensions@) == default_extensions(),
            string_views(r.skip_patterns@) == default_patterns(),
            string_views(r.skip_filenames@) == default_filenames(),
            string_views(r.skip_path_components@) == default_path_components(),
            r.skip_globs@.len() == 0,
            r.skip_binary,
            r.skip_hidden,
    {
        let extensions = ["snap", "lock", "new", "gitignore", "orig", "bak", "swp"];
        let patterns = [".*test.*\\.rs$"];
        let filenames = ["license", "readme", "changelog", "makefile", "dockerfile"];
        let components = [".github", ".git", "node_modules", ".direnv"];
        let r = AppConfig {
            skip_extensions: strings_of(&extensions),
            skip_patterns: strings_of(&patterns),
            skip_filenames: strings_of(&filenames),
            skip_path_components: strings_of(&components),
            skip_globs: Vec::new(),
            skip_binary: true,
            skip_hidden: true,
        };
        assert(extensions@.map_values(|s: &str| s@) == default_extensions());
        assert(patterns@.map_values(|s: &str| s@) == default_patterns());
        assert(filenames@.map_values(|s: &str| s@) == default_filenames());
        assert(components@.map_values(|s: &str| s@) == default_path_components());
        r
    }
}

/// The configuration after the command line's overrides: `no_filter`
/// clears every rule; extensions and patterns given on the command line
/// then replace those of the configuration.
pub fn apply_overrides(
    cfg: AppConfig,
    no_filter: bool,
    skip_extensions: Option<Vec<String>>,
    skip_patterns: Option<Vec<String>>,
) -> (r: AppConfig)
    ensures
        r.skip_extensions@ == (match skip_extensions {
            Some(e) => e@,
            None => if no_filter {
                Seq::empty()
            } else {
                cfg.skip_extensions@
            },
        }),
        r.skip_patterns@ == (match skip_patterns {
            Some(p) => p@,
            None => if no_filter {
                Seq::empty()
            } else {
                cfg.skip_patterns@
            },
        }),
        r.skip_filenames@ == (if no_filter {
            Seq::empty()
        } else {
            cfg.skip_filenames@
        }),
        r.skip_path_components@ == (if no_filter {
            Seq::empty()
        } else {
            cfg.skip_path_components@
        }),
        r.skip_globs@ == (if no_filter {
            Seq::empty()
        } else {
            cfg.skip_globs@
        }),
        r.skip_binary == (!no_filter && cfg.skip_binary),
        r.skip_hidden == (!no_filter && cfg.skip_hidden),
{
    let mut r = cfg;
    if no_filter {
        r.skip_extensions = Vec::new();
        r.skip_patterns = Vec::new();
        r.skip_filenames = Vec::new();
        r.skip_path_components = Vec::new();
        r.skip_globs = Vec::new();
        r.skip_binary = false;
        r.skip_hidden = false;
    }
    if let Some(e) = skip_extensions {
        r.skip_extensions = e;
    }
    if let Some(p) = skip_patterns {
        r.skip_patterns = p;
    }
    r
}

/// The file name of the local configuration when none is named.
pub open spec fn default_local_config() -> Seq<char> {
    "dump.toml"@
}

/// The local configuration file to look for: the one named, or
/// `dump.toml`.
pub fn local_config_candidate(explicit: &Option<String>) -> (r: String)
    ensures
        r@ == (match explicit {
            Some(p) => p@,
            None => default_local_config(),
        }),
{
    match explicit {
        Some(p) => p.clone(),
        None => String::from_str("dump.toml"),
    }
}

/// Which local configuration file to read, given whether the candidate
/// exists: none when it is missing, unless it was named explicitly, which
/// is an error.
pub fn local_config(candidate: String, named: bool, exists: bool) -> (r: Result<
    Option<String>,
    DumpError,
>)
    ensures
        exists ==> (r matches Ok(Some(p)) && p@ == candidate@),
        !exists && !named ==> (r matches Ok(None)),
        !exists && named ==> (r matches Err(DumpError::ConfigNotFound { path }) && path@
            == candidate@),
{
    if exists {
        Ok(Some(candidate))
    } else if named {
        Err(DumpError::ConfigNotFound { path: candidate })
    } else {
        Ok(None)
    }
}

} // verus!
