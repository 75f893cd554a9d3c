//! The settings that shape a composite identity: the email domain, the
//! prefix of a composite email address, and the separator between nicks.

use vstd::prelude::*;

verus! {

/// Formatting settings. Each has a default that stands in wherever the
/// store holds no value for it.
#[derive(Debug)]
pub struct Config {
    pub domain: String,
    pub prefix: String,
    pub separator: String,
}

/// A `Config` with text as sequences of characters.
pub struct Settings {
    pub domain: Seq<char>,
    pub prefix: Seq<char>,
    pub separator: Seq<char>,
}

impl View for Config {
    type V = Settings;

    open spec fn view(&self) -> Settings {
        Settings { domain: self.domain@, prefix: self.prefix@, separator: self.separator@ }
    }
}

/// The domain of synthesized email addresses where none is set.
pub open spec fn default_domain() -> Seq<char> {
    "example.com"@
}

/// The prefix of composite email addresses where none is set.
pub open spec fn default_prefix() -> Seq<char> {
    "dev"@
}

/// The separator between nicks where none is set.
pub open spec fn default_separator() -> Seq<char> {
    "+"@
}

/// A stored value, or `fallback` where there is none.
pub open spec fn value_or(stored: Option<Seq<char>>, fallback: Seq<char>) -> Seq<char> {
    match stored {
        Some(value) => value,
        None => fallback,
    }
}

/// The settings that three optional stored values amount to.
pub open spec fn settings_of(
    domain: Option<Seq<char>>,
    prefix: Option<Seq<char>>,
    separator: Option<Seq<char>>,
) -> Settings {
    Settings {
        domain: value_or(domain, default_domain()),
        prefix: value_or(prefix, default_prefix()),
        separator: value_or(separator, default_separator()),
    }
}

/// A stored value, or `fallback` where there is none.
pub fn setting_or(stored: Option<String>, fallback: &str) -> (value: String)
    ensures
        value@ == value_or(crate::author::optional_text(stored), fallback@),
{
    match stored {
        Some(value) => value,
        None => String::from_str(fallback),
    }
}

impl Config {
    /// The settings that three optional stored values amount to: each
    /// value where it is present, its default where it is not.
    pub fn from_values(
        domain: Option<String>,
        prefix: Option<String>,
        separator: Option<String>,
    ) -> (config: Config)
        ensures
            config@ == settings_of(
                crate::author::optional_text(domain),
                crate::author::optional_text(prefix),
                crate::author::optional_text(separator),
            ),
    {
        Config {
            domain: setting_or(domain, "example.com"),
            prefix: setting_or(prefix, "dev"),
            separator: setting_or(separator, "+"),
        }
    }

    /// The settings held by a git configuration under `config.domain`,
    /// `config.prefix` and `config.separator`, with the default for each
    /// that cannot be read. The values are whatever the configuration
    /// holds when it is asked; `from_values` says how they are combined.
    pub fn from_git(config: &git2::Config) -> Config {
        let domain = crate::libgit::git_string(config, "config.domain");
        let prefix = crate::libgit::git_string(config, "config.prefix");
        let separator = crate::libgit::git_string(config, "config.separator");
        Config::from_values(domain, prefix, separator)
    }
}

impl Default for Config {
    fn default() -> (config: Config)
        ensures
            config@ == settings_of(None, None, None),
    {
        Config::from_values(None, None, None)
    }
}

} // verus!
