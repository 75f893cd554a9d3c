//! The one call this crate makes into libgit2's bindings.

use git2::Config as GitConfig;
use vstd::prelude::*;

verus! {

/// `git2::Config`, a handle on the configuration files of git. Nothing is
/// known of what it holds.
#[verifier::external_type_specification]
#[verifier::external_body]
pub struct ExGitConfig(GitConfig);

/// Reads one string from a git configuration with `git2::Config::get_string`.
/// What comes back depends on the configuration files behind `config`, so
/// nothing is claimed of it; any failure of the lookup becomes `None`.
#[verifier::external_body]
pub(crate) fn git_string(config: &GitConfig, name: &str) -> (stored: Option<String>) {
    config.get_string(name).ok()
}

} // verus!
