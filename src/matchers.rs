//! Compiled regular expressions and glob sets, from the `regex` and
//! `globset` crates, with what the rules rely on about them.

use vstd::prelude::*;

verus! {

#[verifier::external_type_specification]
#[verifier::external_body]
pub struct ExRegex(regex::Regex);

#[verifier::external_type_specification]
#[verifier::external_body]
pub struct ExRegexError(regex::Error);

#[verifier::external_type_specification]
#[verifier::external_body]
pub struct ExGlobSet(globset::GlobSet);

#[verifier::external_type_specification]
#[verifier::external_body]
pub struct ExGlobSetBuilder(globset::GlobSetBuilder);

#[verifier::external_type_specification]
#[verifier::external_body]
pub struct ExGlobError(globset::Error);

/// Whether `regex::Regex::new` accepts `pattern`.
pub uninterp spec fn regex_compiles(pattern: Seq<char>) -> bool;

/// Whether the regex compiled from `pattern` matches somewhere in `text`.
pub uninterp spec fn regex_finds(pattern: Seq<char>, text: Seq<char>) -> bool;

/// Whether `globset::GlobBuilder` accepts `pattern` with these settings of
/// case-insensitive matching and of a literal separator.
pub uninterp spec fn glob_compiles(pattern: Seq<char>, case_insensitive: bool, literal_separator: bool) -> bool;

/// Whether the glob compiled from `pattern` with these settings matches
/// `path`. With a literal separator `*` stays within one component while
/// `**` crosses them.
pub uninterp spec fn glob_matches(
    pattern: Seq<char>,
    case_insensitive: bool,
    literal_separator: bool,
    path: Seq<char>,
) -> bool;

/// The globs that a `globset::GlobSetBuilder` holds, in the order they were
/// added: each pattern with its case-insensitive and literal-separator
/// settings.
pub uninterp spec fn builder_globs(b: globset::GlobSetBuilder) -> Seq<(Seq<char>, bool, bool)>;

/// The globs that a `globset::GlobSet` holds, as `builder_globs` gives them.
pub uninterp spec fn set_globs(s: globset::GlobSet) -> Seq<(Seq<char>, bool, bool)>;

/// Whether `globset::GlobSetBuilder::build` succeeds on these globs.
pub uninterp spec fn glob_set_builds(globs: Seq<(Seq<char>, bool, bool)>) -> bool;

/// A compiled regular expression together with the pattern it was compiled
/// from. Only `compile_regex` makes one, so the two always agree.
pub struct PathRegex {
    source: String,
    compiled: regex::Regex,
}

impl PathRegex {
    /// The pattern this regex was compiled from.
    pub closed spec fn source(&self) -> Seq<char> {
        self.source@
    }
}

/// Relies on `regex::Regex::new`: it compiles `pattern`, or says why not.
#[verifier::external_body]
pub(crate) fn compile_regex(pattern: String) -> (r: Result<PathRegex, regex::Error>)
    ensures
        r is Ok <==> regex_compiles(pattern@),
        r matches Ok(re) ==> re.source() == pattern@,
{
    match regex::Regex::new(&pattern) {
        Ok(compiled) => Ok(PathRegex { source: pattern, compiled }),
        Err(e) => Err(e),
    }
}

/// Relies on `regex::Regex::is_match`: whether the regex matches somewhere
/// in `text`.
#[verifier::external_body]
pub(crate) fn regex_is_match(re: &PathRegex, text: &str) -> (r: bool)
    ensures
        r == regex_finds(re.source(), text@),
{
    re.compiled.is_match(text)
}

/// Relies on `globset::GlobSetBuilder::new`: a builder that holds no glob.
#[verifier::external_body]
pub(crate) fn new_glob_builder() -> (r: globset::GlobSetBuilder)
    ensures
        builder_globs(r) == Seq::<(Seq<char>, bool, bool)>::empty(),
{
    globset::GlobSetBuilder::new()
}

/// Relies on `globset::GlobBuilder::build`, with the case-insensitive and
/// literal-separator settings given, and on `globset::GlobSetBuilder::add`,
/// which appends the compiled glob to the builder.
#[verifier::external_body]
pub(crate) fn add_glob(
    b: &mut globset::GlobSetBuilder,
    pattern: &str,
    case_insensitive: bool,
    literal_separator: bool,
) -> (r: Result<(), globset::Error>)
    ensures
        r is Ok <==> glob_compiles(pattern@, case_insensitive, literal_separator),
        r is Ok ==> builder_globs(*final(b)) == builder_globs(*old(b)).push(
            (pattern@, case_insensitive, literal_separator),
        ),
        r is Err ==> builder_globs(*final(b)) == builder_globs(*old(b)),
{
    match globset::GlobBuilder::new(pattern)
        .case_insensitive(case_insensitive)
        .literal_separator(literal_separator)
        .build()
    {
        Ok(glob) => {
            b.add(glob);
            Ok(())
        },
        Err(e) => Err(e),
    }
}

/// Relies on `globset::GlobSetBuilder::build`: a set of the globs added so
/// far; an empty builder always builds.
#[verifier::external_body]
pub(crate) fn build_glob_set(b: &globset::GlobSetBuilder) -> (r: Result<
    globset::GlobSet,
    globset::Error,
>)
    ensures
        r is Ok <==> glob_set_builds(builder_globs(*b)),
        r matches Ok(s) ==> set_globs(s) == builder_globs(*b),
        builder_globs(*b).len() == 0 ==> r is Ok,
{
    b.build()
}

/// Relies on `globset::GlobSet::is_match`: true when any glob of the set
/// matches the path.
#[verifier::external_body]
pub(crate) fn glob_set_is_match(s: &globset::GlobSet, path: &Vec<char>) -> (r: bool)
    ensures
        r == (exists|i: int| 0 <= i < set_globs(*s).len() && #[trigger] glob_matches(set_globs(*s)[i].0, set_globs(*s)[i].1, set_globs(*s)[i].2, path@)),
{
    let text: String = path.iter().collect();
    s.is_match(std::path::Path::new(&text))
}

} // verus!
