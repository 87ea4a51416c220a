//! The compiled rule set: whether to prune a directory, whether to skip a file.

use vstd::prelude::*;

use crate::config::{string_views, AppConfig};
use crate::errors::DumpError;
use crate::matchers::{
    add_glob, build_glob_set, compile_regex, glob_compiles, glob_matches, glob_set_builds,
    glob_set_is_match, new_glob_builder, regex_compiles, regex_finds, regex_is_match, set_globs,
    PathRegex,
};
use crate::path::{
    char_views, chars_of, child_of, child_path, components, components_of, contains_chars,
    dot, dot_dot, extension, extension_of, file_name, file_stem, is_absolute, last_name,
    relative_path, relative_to, stem_of,
};
use crate::sniff::{is_binary_content, is_binary_spec};
use crate::text::{lower_of, lowercase};

verus! {

/// Each string of `v` in lowercase.
pub open spec fn lowered(v: Seq<Seq<char>>) -> Seq<Seq<char>> {
    v.map_values(|s: Seq<char>| lower_of(s))
}

/// A regex source that matches without regard to case.
pub open spec fn ignoring_case(p: Seq<char>) -> Seq<char> {
    seq!['(', '?', 'i', ')'] + p
}

/// Globs of the skip list match case-insensitively, and with a literal
/// separator: `*` stays within one component, `**` crosses them.
pub open spec fn skip_glob(pattern: Seq<char>) -> (Seq<char>, bool, bool) {
    (pattern, true, true)
}

pub open spec fn any_glob(globs: Seq<(Seq<char>, bool, bool)>, path: Seq<char>) -> bool {
    exists|i: int| 0 <= i < globs.len() && #[trigger] glob_matches(globs[i].0, globs[i].1, globs[i].2, path)
}

/// A name that marks an entry hidden: it starts with a dot, and is neither
/// `.` nor `..`.
pub open spec fn is_hidden_name(c: Seq<char>) -> bool {
    c.len() > 0 && c[0] == '.' && c != dot() && c != dot_dot()
}

pub open spec fn regexes_compile(patterns: Seq<Seq<char>>) -> bool {
    forall|i: int| 0 <= i < patterns.len() ==> #[trigger] regex_compiles(ignoring_case(patterns[i]))
}

pub open spec fn first_bad_regex(patterns: Seq<Seq<char>>, i: int) -> bool {
    &&& 0 <= i < patterns.len()
    &&& !regex_compiles(ignoring_case(patterns[i]))
    &&& regexes_compile(patterns.take(i))
}

pub open spec fn globs_compile(patterns: Seq<Seq<char>>) -> bool {
    forall|i: int| 0 <= i < patterns.len() ==> #[trigger] glob_compiles(patterns[i], true, true)
}

pub open spec fn first_bad_glob(patterns: Seq<Seq<char>>, i: int) -> bool {
    &&& 0 <= i < patterns.len()
    &&& !glob_compiles(patterns[i], true, true)
    &&& globs_compile(patterns.take(i))
}

/// The compiled, immutable rule set.
pub struct Filter {
    skip_extensions: Vec<Vec<char>>,
    skip_filenames: Vec<Vec<char>>,
    skip_path_components: Vec<Vec<char>>,
    skip_patterns: Vec<PathRegex>,
    skip_globs: globset::GlobSet,
    skip_binary: bool,
    skip_hidden: bool,
}

impl Filter {
    /// Lowercase extensions that exclude a file.
    pub closed spec fn extensions(&self) -> Seq<Seq<char>> {
        char_views(self.skip_extensions@)
    }

    /// Lowercase names that exclude a file by its stem or whole name.
    pub closed spec fn filenames(&self) -> Seq<Seq<char>> {
        char_views(self.skip_filenames@)
    }

    /// Lowercase names that exclude every path with such a component.
    pub closed spec fn blocked_components(&self) -> Seq<Seq<char>> {
        char_views(self.skip_path_components@)
    }

    /// The sources the regexes were compiled from.
    pub closed spec fn patterns(&self) -> Seq<Seq<char>> {
        self.skip_patterns@.map_values(|r: PathRegex| r.source())
    }

    /// The globs of the compiled glob set.
    pub closed spec fn globs(&self) -> Seq<(Seq<char>, bool, bool)> {
        set_globs(self.skip_globs)
    }

    pub closed spec fn skips_binary(&self) -> bool {
        self.skip_binary
    }

    pub closed spec fn skips_hidden(&self) -> bool {
        self.skip_hidden
    }

    /// The filter is the one that `cfg` describes.
    pub open spec fn built_from(&self, cfg: AppConfig) -> bool {
        &&& self.extensions() == lowered(string_views(cfg.skip_extensions@))
        &&& self.filenames() == lowered(string_views(cfg.skip_filenames@))
        &&& self.blocked_components() == lowered(string_views(cfg.skip_path_components@))
        &&& self.patterns() == string_views(cfg.skip_patterns@).map_values(
            |p: Seq<char>| ignoring_case(p),
        )
        &&& self.globs() == string_views(cfg.skip_globs@).map_values(|p: Seq<char>| skip_glob(p))
        &&& self.skips_binary() == cfg.skip_binary
        &&& self.skips_hidden() == cfg.skip_hidden
    }

    /// Some component of `p`, in lowercase, is a blocked name.
    pub open spec fn component_rule(&self, p: Seq<char>) -> bool {
        exists|i: int|
            0 <= i < components(p).len() && self.blocked_components().contains(
                #[trigger] lower_of(components(p)[i]),
            )
    }

    /// Hidden names are skipped: for an absolute path only its file name is
    /// looked at, for a relative one every component.
    pub open spec fn hidden_rule(&self, p: Seq<char>) -> bool {
        &&& self.skips_hidden()
        &&& if is_absolute(p) {
            file_name(p) matches Some(n) && n.len() > 0 && n[0] == '.'
        } else {
            exists|i: int| 0 <= i < components(p).len() && #[trigger] is_hidden_name(components(p)[i])
        }
    }

    pub open spec fn extension_rule(&self, p: Seq<char>) -> bool {
        extension(p) matches Some(e) && self.extensions().contains(lower_of(e))
    }

    pub open spec fn filename_rule(&self, p: Seq<char>) -> bool {
        ||| (file_stem(p) matches Some(s) && self.filenames().contains(lower_of(s)))
        ||| (file_name(p) matches Some(n) && self.filenames().contains(lower_of(n)))
    }

    pub open spec fn regex_rule(&self, p: Seq<char>) -> bool {
        exists|i: int| 0 <= i < self.patterns().len() && #[trigger] regex_finds(self.patterns()[i], p)
    }

    /// The glob set matches `p` as given, or `p` relative to `cwd`.
    pub open spec fn glob_rule(&self, p: Seq<char>, cwd: Option<Seq<char>>) -> bool {
        ||| any_glob(self.globs(), p)
        ||| (cwd matches Some(c) && relative_to(p, c) matches Some(r) && any_glob(self.globs(), r))
    }

    pub open spec fn binary_rule(&self, content: Option<Seq<u8>>) -> bool {
        &&& self.skips_binary()
        &&& (content matches Some(c) && is_binary_spec(c))
    }

    /// The rules on the path alone, everything but binary content.
    pub open spec fn path_rules(&self, p: Seq<char>, cwd: Option<Seq<char>>) -> bool {
        ||| self.component_rule(p)
        ||| self.hidden_rule(p)
        ||| self.extension_rule(p)
        ||| self.filename_rule(p)
        ||| self.regex_rule(p)
        ||| self.glob_rule(p, cwd)
    }

    /// Whether the file at `p`, with `content` as far as it could be read, is
    /// skipped.
    pub open spec fn skips_file(&self, p: Seq<char>, cwd: Option<Seq<char>>, content: Option<Seq<u8>>) -> bool {
        self.path_rules(p, cwd) || self.binary_rule(content)
    }

    /// The directory's own name is hidden or blocked.
    pub open spec fn dir_name_rule(&self, p: Seq<char>) -> bool {
        file_name(p) matches Some(n) && ((self.skips_hidden() && n.len() > 0 && n[0] == '.')
            || self.blocked_components().contains(lower_of(n)))
    }

    /// Whether the directory at `p` is pruned with all it holds.
    pub open spec fn skips_dir(&self, p: Seq<char>, cwd: Option<Seq<char>>) -> bool {
        ||| self.dir_name_rule(p)
        ||| self.glob_rule(p, cwd)
        ||| self.glob_rule(child_of(p), cwd)
    }
}


/// The characters of an optional string.
pub open spec fn opt_chars(s: Option<&str>) -> Option<Seq<char>> {
    match s {
        Some(t) => Some(t@),
        None => None,
    }
}

pub open spec fn opt_bytes(b: Option<&[u8]>) -> Option<Seq<u8>> {
    match b {
        Some(c) => Some(c@),
        None => None,
    }
}

fn lower_all(v: &Vec<String>) -> (r: Vec<Vec<char>>)
    ensures
        char_views(r@) == lowered(string_views(v@)),
{
    let mut r: Vec<Vec<char>> = Vec::new();
    let mut i: usize = 0;
    while i < v.len()
        invariant
            i <= v.len(),
            char_views(r@) == lowered(string_views(v@).take(i as int)),
        decreases v.len() - i,
    {
        let cs = chars_of(v[i].as_str());
        let low = lowercase(&cs);
        let ghost before = char_views(r@);
        r.push(low);
        assert(char_views(r@) == before.push(low@));
        assert(string_views(v@).take(i + 1) == string_views(v@).take(i as int).push(v@[i as int]@));
        i = i + 1;
    }
    assert(string_views(v@).take(i as int) == string_views(v@));
    r
}

impl Filter {
    /// Builds the rule set of `cfg`. Each regex is compiled in turn, then
    /// each glob, then the glob set; the first failure is the error.
    pub fn new(cfg: &AppConfig) -> (r: Result<Filter, DumpError>)
        ensures
            match r {
                Ok(f) => {
                    &&& regexes_compile(string_views(cfg.skip_patterns@))
                    &&& globs_compile(string_views(cfg.skip_globs@))
                    &&& glob_set_builds(string_views(cfg.skip_globs@).map_values(|p: Seq<char>| skip_glob(p)))
                    &&& f.built_from(*cfg)
                },
                Err(DumpError::InvalidRegex { pattern, .. }) => exists|i: int|
                    first_bad_regex(string_views(cfg.skip_patterns@), i) && pattern@
                        == cfg.skip_patterns@[i]@,
                Err(DumpError::InvalidGlob { pattern, .. }) => {
                    &&& regexes_compile(string_views(cfg.skip_patterns@))
                    &&& exists|i: int|
                        first_bad_glob(string_views(cfg.skip_globs@), i) && pattern@
                            == cfg.skip_globs@[i]@
                },
                Err(DumpError::GlobSetBuild { .. }) => {
                    &&& regexes_compile(string_views(cfg.skip_patterns@))
                    &&& globs_compile(string_views(cfg.skip_globs@))
                    &&& !glob_set_builds(string_views(cfg.skip_globs@).map_values(|p: Seq<char>| skip_glob(p)))
                },
                Err(_) => false,
            },
    {
        let ghost pats = string_views(cfg.skip_patterns@);
        let mut skip_patterns: Vec<PathRegex> = Vec::new();
        let mut i: usize = 0;
        while i < cfg.skip_patterns.len()
            invariant
                i <= cfg.skip_patterns.len(),
                pats == string_views(cfg.skip_patterns@),
                regexes_compile(pats.take(i as int)),
                skip_patterns@.map_values(|r: PathRegex| r.source()) == pats.take(i as int).map_values(
                    |p: Seq<char>| ignoring_case(p),
                ),
            decreases cfg.skip_patterns.len() - i,
        {
            let mut source = String::from_str("(?i)");
            proof {
                reveal_strlit("(?i)");
            }
            source.append(cfg.skip_patterns[i].as_str());
            assert(source@ == ignoring_case(pats[i as int]));
            match compile_regex(source) {
                Ok(re) => {
                    let ghost before = skip_patterns@;
                    skip_patterns.push(re);
                    assert(pats.take(i + 1) == pats.take(i as int).push(pats[i as int]));
                    assert(skip_patterns@.map_values(|r: PathRegex| r.source()) == before.map_values(
                        |r: PathRegex| r.source(),
                    ).push(ignoring_case(pats[i as int])));
                    assert(regexes_compile(pats.take(i + 1))) by {
                        assert forall|j: int| 0 <= j < i + 1 implies #[trigger] regex_compiles(
                            ignoring_case(pats.take(i + 1)[j]),
                        ) by {
                            if j < i {
                                assert(pats.take(i + 1)[j] == pats.take(i as int)[j]);
                            }
                        }
                    }
                },
                Err(e) => {
                    assert(first_bad_regex(pats, i as int));
                    return Err(
                        DumpError::InvalidRegex { pattern: cfg.skip_patterns[i].clone(), source: e },
                    );
                },
            }
            i = i + 1;
        }
        assert(pats.take(i as int) == pats);

        let ghost globs = string_views(cfg.skip_globs@);
        let mut builder = new_glob_builder();
        let mut k: usize = 0;
        while k < cfg.skip_globs.len()
            invariant
                k <= cfg.skip_globs.len(),
                globs == string_views(cfg.skip_globs@),
                regexes_compile(string_views(cfg.skip_patterns@)),
                globs_compile(globs.take(k as int)),
                crate::matchers::builder_globs(builder) == globs.take(k as int).map_values(
                    |p: Seq<char>| skip_glob(p),
                ),
            decreases cfg.skip_globs.len() - k,
        {
            match add_glob(&mut builder, cfg.skip_globs[k].as_str(), true, true) {
                Ok(()) => {
                    assert(globs.take(k + 1) == globs.take(k as int).push(globs[k as int]));
                    assert(globs.take(k + 1).map_values(|p: Seq<char>| skip_glob(p)) == globs.take(
                        k as int,
                    ).map_values(|p: Seq<char>| skip_glob(p)).push(skip_glob(globs[k as int])));
                    assert(globs_compile(globs.take(k + 1))) by {
                        assert forall|j: int| 0 <= j < k + 1 implies #[trigger] glob_compiles(
                            globs.take(k + 1)[j],
                            true,
                            true,
                        ) by {
                            if j < k {
                                assert(globs.take(k + 1)[j] == globs.take(k as int)[j]);
                            }
                        }
                    }
                },
                Err(e) => {
                    assert(first_bad_glob(globs, k as int));
                    return Err(
                        DumpError::InvalidGlob { pattern: cfg.skip_globs[k].clone(), source: e },
                    );
                },
            }
            k = k + 1;
        }
        assert(globs.take(k as int) == globs);
        let skip_globs = match build_glob_set(&builder) {
            Ok(set) => set,
            Err(e) => {
                return Err(DumpError::GlobSetBuild { source: e });
            },
        };
        let f = Filter {
            skip_extensions: lower_all(&cfg.skip_extensions),
            skip_filenames: lower_all(&cfg.skip_filenames),
            skip_path_components: lower_all(&cfg.skip_path_components),
            skip_patterns,
            skip_globs,
            skip_binary: cfg.skip_binary,
            skip_hidden: cfg.skip_hidden,
        };
        Ok(f)
    }
}


fn hidden_name(c: &Vec<char>) -> (r: bool)
    ensures
        r == is_hidden_name(c@),
{
    if c.len() == 0 || c[0] != '.' {
        return false;
    }
    let is_dot = c.len() == 1;
    let is_dot_dot = c.len() == 2 && c[1] == '.';
    if is_dot {
        assert(c@ =~= dot());
    }
    if is_dot_dot {
        assert(c@ =~= dot_dot());
    }
    assert(c@ == dot_dot() ==> c@[1] == '.');
    !is_dot && !is_dot_dot
}

impl Filter {
    fn any_blocked(&self, comps: &Vec<Vec<char>>) -> (r: bool)
        ensures
            r == exists|i: int|
                0 <= i < char_views(comps@).len() && self.blocked_components().contains(
                    #[trigger] lower_of(char_views(comps@)[i]),
                ),
    {
        let mut i: usize = 0;
        while i < comps.len()
            invariant
                i <= comps.len(),
                forall|j: int|
                    0 <= j < i ==> !self.blocked_components().contains(
                        #[trigger] lower_of(char_views(comps@)[j]),
                    ),
            decreases comps.len() - i,
        {
            let low = lowercase(&comps[i]);
            if contains_chars(&self.skip_path_components, &low) {
                assert(self.blocked_components().contains(lower_of(char_views(comps@)[i as int])));
                return true;
            }
            i = i + 1;
        }
        false
    }

    fn any_hidden(comps: &Vec<Vec<char>>) -> (r: bool)
        ensures
            r == exists|i: int| 0 <= i < char_views(comps@).len() && #[trigger] is_hidden_name(char_views(comps@)[i]),
    {
        let mut i: usize = 0;
        while i < comps.len()
            invariant
                i <= comps.len(),
                forall|j: int| 0 <= j < i ==> !#[trigger] is_hidden_name(char_views(comps@)[j]),
            decreases comps.len() - i,
        {
            if hidden_name(&comps[i]) {
                assert(is_hidden_name(char_views(comps@)[i as int]));
                return true;
            }
            i = i + 1;
        }
        false
    }

    fn regex_hit(&self, text: &str) -> (r: bool)
        ensures
            r == self.regex_rule(text@),
    {
        let mut i: usize = 0;
        while i < self.skip_patterns.len()
            invariant
                i <= self.skip_patterns.len(),
                forall|j: int| 0 <= j < i ==> !#[trigger] regex_finds(self.patterns()[j], text@),
            decreases self.skip_patterns.len() - i,
        {
            if regex_is_match(&self.skip_patterns[i], text) {
                assert(regex_finds(self.patterns()[i as int], text@));
                return true;
            }
            i = i + 1;
        }
        false
    }

    fn glob_hit(&self, p: &Vec<char>, cwd: Option<&Vec<char>>) -> (r: bool)
        ensures
            r == self.glob_rule(
                p@,
                match cwd {
                    Some(c) => Some(c@),
                    None => None,
                },
            ),
    {
        if glob_set_is_match(&self.skip_globs, p) {
            return true;
        }
        match cwd {
            Some(c) => match relative_path(p, c) {
                Some(rel) => glob_set_is_match(&self.skip_globs, &rel),
                None => false,
            },
            None => false,
        }
    }

    /// Whether the path rules alone, everything but binary content, skip the
    /// file at `path`; `cwd` is the working directory, if known.
    pub fn matches_path_rules(&self, path: &str, cwd: Option<&str>) -> (r: bool)
        ensures
            r == self.path_rules(path@, opt_chars(cwd)),
    {
        let p = chars_of(path);
        let comps = components_of(&p);
        if self.any_blocked(&comps) {
            return true;
        }
        if self.skip_hidden {
            let absolute = p.len() > 0 && p[0] == '/';
            if absolute {
                if let Some(name) = last_name(&comps) {
                    if name.len() > 0 && name[0] == '.' {
                        return true;
                    }
                }
            } else if Self::any_hidden(&comps) {
                return true;
            }
        }
        let name = last_name(&comps);
        if let Some(n) = &name {
            if let Some(ext) = extension_of(n) {
                let low = lowercase(&ext);
                if contains_chars(&self.skip_extensions, &low) {
                    return true;
                }
            }
            let stem = stem_of(n);
            let low_stem = lowercase(&stem);
            if contains_chars(&self.skip_filenames, &low_stem) {
                return true;
            }
            let low_name = lowercase(n);
            if contains_chars(&self.skip_filenames, &low_name) {
                return true;
            }
        }
        if self.regex_hit(path) {
            return true;
        }
        match cwd {
            Some(c) => {
                let base = chars_of(c);
                self.glob_hit(&p, Some(&base))
            },
            None => self.glob_hit(&p, None),
        }
    }

    /// Whether the file at `path` is skipped. `content` is what could be read
    /// of the file, or `None` where it could not be read; it counts only when
    /// binary files are skipped.
    pub fn should_skip(&self, path: &str, cwd: Option<&str>, content: Option<&[u8]>) -> (r: bool)
        ensures
            r == self.skips_file(path@, opt_chars(cwd), opt_bytes(content)),
    {
        if self.matches_path_rules(path, cwd) {
            return true;
        }
        if self.skip_binary {
            match content {
                Some(c) => is_binary_content(c),
                None => false,
            }
        } else {
            false
        }
    }

    /// Whether the directory at `p` is pruned; `base` is the working
    /// directory, if known.
    pub(crate) fn dir_skipped(&self, p: &Vec<char>, base: Option<&Vec<char>>) -> (r: bool)
        ensures
            r == self.skips_dir(
                p@,
                match base {
                    Some(c) => Some(c@),
                    None => None,
                },
            ),
    {
        let comps = components_of(p);
        if let Some(name) = last_name(&comps) {
            if self.skip_hidden && name.len() > 0 && name[0] == '.' {
                return true;
            }
            let low = lowercase(&name);
            if contains_chars(&self.skip_path_components, &low) {
                return true;
            }
        }
        let child = child_path(p);
        self.glob_hit(p, base) || self.glob_hit(&child, base)
    }

    /// Whether the directory at `path` is pruned, everything under it unseen.
    pub fn should_skip_dir(&self, path: &str, cwd: Option<&str>) -> (r: bool)
        ensures
            r == self.skips_dir(path@, opt_chars(cwd)),
    {
        let p = chars_of(path);
        match cwd {
            Some(c) => {
                let base = chars_of(c);
                self.dir_skipped(&p, Some(&base))
            },
            None => self.dir_skipped(&p, None),
        }
    }

    /// Whether files are sniffed for binary content at all.
    pub fn skip_binary(&self) -> (r: bool)
        ensures
            r == self.skips_binary(),
    {
        self.skip_binary
    }
}

/// The lowercase form of an optional part of a path.
pub open spec fn opt_lower(s: Option<Seq<char>>) -> Option<Seq<char>> {
    match s {
        Some(t) => Some(lower_of(t)),
        None => None,
    }
}

/// `d`'s components begin those of `p`, and `p` has more: `p` lies under `d`.
pub open spec fn lies_under(p: Seq<char>, d: Seq<char>) -> bool {
    let dc = components(d);
    let pc = components(p);
    dc.len() < pc.len() && pc.take(dc.len() as int) == dc
}

/// A directory pruned for its name is pruned for good reason: every file
/// under it is skipped by the file rules too, whatever its content. For a
/// hidden name this holds of relative paths; an absolute path is checked
/// for a hidden file name only, as its ancestors were left to the walk.
pub proof fn lemma_pruned_name_skips_descendants(
    f: Filter,
    d: Seq<char>,
    p: Seq<char>,
    cwd: Option<Seq<char>>,
    content: Option<Seq<u8>>,
)
    requires
        f.dir_name_rule(d),
        lies_under(p, d),
        !is_absolute(p) || (file_name(d) matches Some(n) && f.blocked_components().contains(lower_of(n))),
    ensures
        f.skips_file(p, cwd, content),
{
    let dc = components(d);
    let pc = components(p);
    let n = file_name(d)->0;
    let at = dc.len() - 1;
    assert(pc.take(dc.len() as int)[at] == pc[at]);
    assert(pc[at] == n);
    if f.blocked_components().contains(lower_of(n)) {
        assert(f.blocked_components().contains(lower_of(pc[at])));
        assert(f.component_rule(p));
    } else {
        assert(is_hidden_name(pc[at]));
        assert(f.hidden_rule(p));
    }
}

/// The component, extension and file-name rules see a path only through
/// the lowercase forms of its parts: two paths whose parts agree once
/// lowercased are treated alike, as `Cargo.LOCK` and `Cargo.lock` are.
pub proof fn lemma_name_rules_ignore_case(f: Filter, p: Seq<char>, q: Seq<char>)
    requires
        components(p).len() == components(q).len(),
        forall|i: int|
            0 <= i < components(p).len() ==> lower_of(#[trigger] components(p)[i]) == lower_of(
                components(q)[i],
            ),
        opt_lower(extension(p)) == opt_lower(extension(q)),
        opt_lower(file_stem(p)) == opt_lower(file_stem(q)),
        opt_lower(file_name(p)) == opt_lower(file_name(q)),
    ensures
        f.component_rule(p) == f.component_rule(q),
        f.extension_rule(p) == f.extension_rule(q),
        f.filename_rule(p) == f.filename_rule(q),
{
    if f.component_rule(p) {
        let i = choose|i: int|
            0 <= i < components(p).len() && f.blocked_components().contains(
                #[trigger] lower_of(components(p)[i]),
            );
        assert(lower_of(components(p)[i]) == lower_of(components(q)[i]));
    }
    if f.component_rule(q) {
        let i = choose|i: int|
            0 <= i < components(q).len() && f.blocked_components().contains(
                #[trigger] lower_of(components(q)[i]),
            );
        assert(lower_of(components(p)[i]) == lower_of(components(q)[i]));
    }
}

/// `.` and `..` never make a path hidden: when every other component of
/// `p` starts with something else than a dot, neither the file rule nor the
/// directory rule for hidden names fires.
pub proof fn lemma_dot_components_are_not_hidden(f: Filter, p: Seq<char>)
    requires
        forall|i: int|
            0 <= i < components(p).len() ==> #[trigger] components(p)[i] == dot() || components(p)[i]
                == dot_dot() || !(components(p)[i].len() > 0 && components(p)[i][0] == '.'),
    ensures
        !f.hidden_rule(p),
        !(file_name(p) matches Some(n) && n.len() > 0 && n[0] == '.'),
{
    let cs = components(p);
    if cs.len() > 0 {
        assert(cs[cs.len() - 1] == cs.last());
    }
    if !is_absolute(p) && f.skips_hidden() {
        assert forall|i: int| 0 <= i < cs.len() implies !#[trigger] is_hidden_name(cs[i]) by {
            assert(cs[i] == dot() || cs[i] == dot_dot() || !(cs[i].len() > 0 && cs[i][0] == '.'));
        }
    }
}

} // verus!
