//! The library's error type.

use vstd::prelude::*;

verus! {

#[verifier::external_type_specification]
#[verifier::external_body]
pub struct ExConfigError(config::ConfigError);

#[verifier::external_type_specification]
#[verifier::external_body]
pub struct ExWalkError(ignore::Error);

#[verifier::external_type_specification]
#[verifier::external_body]
pub struct ExIoError(std::io::Error);

/// Each way a run can fail.
#[allow(inconsistent_fields)]
#[derive(Debug)]
pub enum DumpError {
    /// The layered configuration could not be built or read.
    ConfigLoad { source: config::ConfigError },
    /// A configuration file was named explicitly but does not exist.
    ConfigNotFound { path: String },
    /// A pattern of `skip_patterns` is not a valid regular expression.
    InvalidRegex { pattern: String, source: regex::Error },
    /// A pattern of `skip_globs` is not a valid glob.
    InvalidGlob { pattern: String, source: globset::Error },
    /// The globs compiled one by one, but not into one set.
    GlobSetBuild { source: globset::Error },
    /// A path to dump does not exist.
    PathNotFound { path: String },
    /// A file or directory could not be read.
    Io { path: String, source: std::io::Error },
    /// The directory walk failed for a reason other than a denied permission.
    Walk { source: ignore::Error },
}

} // verus!
