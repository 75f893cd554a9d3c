//! The commands of the program, as far as they compute: each takes what
//! the user gave and a configuration store, and returns what is to be
//! shown. Arguments, prompts and printing are left to the caller.

use crate::author::{author_views, optional_text, text_of, Author, AuthorView};
use crate::author_selection::{resolved_email, resolved_name, resolved_nick, AuthorSelection};
use crate::config::{default_domain, default_prefix, default_separator};
use crate::error::{ErrorView, PartnersError};
use crate::git::{
    author_outcome, author_pattern, found, identity_in, identity_outcome, reads_setting,
    removal_outcome, section_of, selection_of, settings_in, stored_authors, Config, Scope,
};
use crate::ordering::sorted_by_nick;
use crate::store::{
    came_out, counted, from_store, refusals, value_read, with_value, writes, ConfigStore, Entry,
    Outcome,
};
use crate::text::views;
use vstd::prelude::*;

verus! {

/// The texts of `authors`, in order.
pub open spec fn texts_of(authors: Seq<AuthorView>) -> Seq<Seq<char>> {
    authors.map_values(|author: AuthorView| text_of(author))
}

/// What is shown for the identity that a scope holds: its text, or the
/// error that says what the scope lacks.
pub open spec fn shown(identity: Result<AuthorView, ErrorView>) -> Result<Seq<char>, ErrorView> {
    match identity {
        Ok(author) => Ok(text_of(author)),
        Err(error) => Err(error),
    }
}

/// Whether `text` is the text `shown`, or the error in its place.
pub open spec fn shows(text: Result<String, PartnersError>, shown: Result<Seq<char>, ErrorView>) -> bool {
    match shown {
        Ok(wanted) => text matches Ok(given) && given@ == wanted,
        Err(error) => text matches Err(reported) && reported@ == error,
    }
}

/// Lists the stored authors: the text to print for each.
pub fn list<S: ConfigStore>(partners_config: &Config, store: &S) -> (texts: Result<
    Vec<String>,
    PartnersError,
>)
    ensures
        match texts {
            Ok(texts) => store.faithful() ==> texts.deep_view() == texts_of(
                stored_authors(store.entries(), partners_config@, S::matching(author_pattern())),
            ),
            Err(error) => {
                &&& from_store(error@)
                &&& !(error@ is NotFound)
                &&& !store.reliable()
                &&& !store.faithful()
            },
        },
{
    let authors = partners_config.authors(store)?;
    let ghost all = author_views(authors@);
    let mut texts: Vec<String> = Vec::new();
    let mut i: usize = 0;
    proof {
        assert(texts.deep_view() == texts_of(all.take(0)));
    }
    while i < authors.len()
        invariant
            i <= authors.len(),
            all == author_views(authors@),
            texts.deep_view() == texts_of(all.take(i as int)),
        decreases authors.len() - i,
    {
        let ghost before = texts.deep_view();
        let text = authors[i].to_text();
        texts.push(text);
        proof {
            assert(texts.deep_view() == before.push(text_of(authors@[i as int]@)));
            assert(all.take(i + 1) == all.take(i as int).push(all[i as int]));
            assert(texts_of(all.take(i + 1)) == texts_of(all.take(i as int)).push(
                text_of(all[i as int]),
            ));
        }
        i += 1;
    }
    proof {
        assert(all.take(i as int) == all);
    }
    Ok(texts)
}

/// Shows the current identity of the local scope: the text to print.
pub fn current<S: ConfigStore>(store: &S) -> (text: Result<String, PartnersError>)
    ensures
        text matches Err(error) ==> {
            ||| error@ is NoGitNick
            ||| error@ is NoGitName
            ||| from_store(error@) && !(error@ is NotFound) && !store.reliable()
                && !store.faithful()
        },
        store.faithful() ==> shows(text, shown(identity_in(store.entries(), Scope::Local))),
{
    let author = Config::Local.current_author(store)?;
    Ok(author.to_text())
}

/// Adds an author, or updates the author of that nick.
pub fn add<S: ConfigStore>(
    partners_config: &Config,
    store: &mut S,
    nick: String,
    name: String,
    email: Option<String>,
) -> (done: Result<(), PartnersError>)
    ensures
        final(store).faithful() == old(store).faithful(),
        final(store).reliable() == old(store).reliable(),
        done matches Err(error) ==> from_store(error@) && !old(store).reliable(),
        old(store).faithful() ==> came_out(
            *old(store),
            *final(store),
            author_outcome(
                old(store).entries(),
                refusals(*old(store)),
                0,
                partners_config@,
                AuthorView { nick: nick@, name: name@, email: optional_text(email) },
            ),
            done,
        ),
{
    let author = Author { nick, name, email };
    partners_config.add_author(store, &author)
}

/// Deletes the author with the nick `nick`, if there is one.
pub fn delete<S: ConfigStore>(partners_config: &Config, store: &mut S, nick: &str) -> (done:
    Result<(), PartnersError>)
    ensures
        final(store).faithful() == old(store).faithful(),
        final(store).reliable() == old(store).reliable(),
        done matches Err(error) ==> from_store(error@) && !old(store).reliable(),
        old(store).faithful() ==> came_out(
            *old(store),
            *final(store),
            removal_outcome(
                old(store).entries(),
                old(store).refusal(0, partners_config@, section_of(nick@)),
                partners_config@,
                nick@,
                S::matching(author_pattern()),
            ),
            done,
        ),
{
    partners_config.remove_author(store, nick)
}

/// What comes of the command that makes the authors of `nicks` the
/// current identity: the store it leaves, and the text or the error it
/// ends with. Where the nicks select no identity, nothing is written.
/// Else the identity is written to the global scope, under the settings
/// of `scope`, and what the local scope then holds is shown.
pub open spec fn set_outcome(
    before: Seq<Entry>,
    refusal: spec_fn(nat, Scope, Seq<char>) -> Option<ErrorView>,
    scope: Scope,
    names: spec_fn(Seq<char>) -> bool,
    nicks: Seq<Seq<char>>,
) -> (Outcome, Result<Seq<char>, ErrorView>) {
    match selection_of(stored_authors(before, scope, names), nicks) {
        Err(error) => (
            Outcome { error: Some(error), entries: before, writes: 0 },
            Err(error),
        ),
        Ok(chosen) => {
            let settings = settings_in(before, scope);
            let written = identity_outcome(
                before,
                refusal,
                Scope::Global,
                resolved_nick(chosen, settings),
                resolved_name(chosen),
                resolved_email(chosen, settings),
            );
            match written.error {
                Some(error) => (written, Err(error)),
                None => (written, shown(identity_in(written.entries, Scope::Local))),
            }
        },
    }
}

/// Makes the authors with the nicks `nicks` the current identity of the
/// global scope, and shows the current identity of the local scope: the
/// text to print. Nothing is written unless every nick is found.
pub fn set<S: ConfigStore>(partners_config: &Config, store: &mut S, nicks: &[&str]) -> (text:
    Result<String, PartnersError>)
    ensures
        final(store).faithful() == old(store).faithful(),
        final(store).reliable() == old(store).reliable(),
        text is Ok ==> nicks@.len() > 0,
        old(store).faithful() ==> ({
            let outcome = set_outcome(
                old(store).entries(),
                refusals(*old(store)),
                partners_config@,
                S::matching(author_pattern()),
                views(nicks@),
            );
            &&& shows(text, outcome.1)
            &&& final(store).entries() == outcome.0.entries
            &&& counted(*old(store), *final(store), outcome.0.writes)
        }),
{
    let selection = partners_config.find_authors(store, nicks)?;
    Config::Global.set_current_author(store, &selection)?;
    let author = Config::Local.current_author(store)?;
    Ok(author.to_text())
}

/// What the start of a run knows of the current author.
#[derive(Debug)]
pub enum Known {
    /// The local scope holds this identity.
    Author(Author),
    /// The local scope holds no identity, but these parts of one; the
    /// others are to be asked for.
    Parts { nick: Option<String>, name: Option<String>, email: Option<String> },
}

/// Reads what the local scope knows of the current author: the identity
/// it holds, or, where it holds none, the parts of one that it holds.
/// A part that cannot be read counts as missing.
pub fn known<S: ConfigStore>(store: &S) -> (known: Known)
    ensures
        store.faithful() ==> match identity_in(store.entries(), Scope::Local) {
            Ok(author) => known matches Known::Author(read) && read@ == author,
            Err(_) => {
                &&& known matches Known::Parts { nick, name, email }
                &&& optional_text(nick) == value_read(
                    store.entries(),
                    Scope::Local,
                    "partners.current"@,
                )
                &&& optional_text(name) == value_read(store.entries(), Scope::Local, "user.name"@)
                &&& optional_text(email) == value_read(
                    store.entries(),
                    Scope::Local,
                    "user.email"@,
                )
            },
        },
{
    match Config::Local.current_author(store) {
        Ok(author) => Known::Author(author),
        Err(_) => Known::Parts {
            nick: Config::Local.nick(store).ok(),
            name: Config::Local.user_name(store).ok(),
            email: Config::Local.user_email(store).ok(),
        },
    }
}

/// What comes of making `author` known at the start of a run. An author
/// that is `fresh` is made the current identity of the global scope,
/// under the settings of `scope`. Then the author is added to `scope`
/// unless an author of that nick is listed there.
pub open spec fn initial_outcome(
    before: Seq<Entry>,
    refusal: spec_fn(nat, Scope, Seq<char>) -> Option<ErrorView>,
    scope: Scope,
    names: spec_fn(Seq<char>) -> bool,
    author: AuthorView,
    fresh: bool,
) -> Outcome {
    let alone = sorted_by_nick(seq![author]);
    let settings = settings_in(before, scope);
    let current = if fresh {
        identity_outcome(
            before,
            refusal,
            Scope::Global,
            resolved_nick(alone, settings),
            resolved_name(alone),
            resolved_email(alone, settings),
        )
    } else {
        Outcome { error: None, entries: before, writes: 0 }
    };
    if current.error is Some || found(
        stored_authors(current.entries, scope, names),
        author.nick,
    ) is Some {
        current
    } else {
        let added = author_outcome(current.entries, refusal, current.writes, scope, author);
        Outcome {
            error: added.error,
            entries: added.entries,
            writes: current.writes + added.writes,
        }
    }
}

/// Makes `author` known at the start of a run. An author that is `fresh`,
/// one that the local scope did not hold as its current identity, is
/// made the current identity of the global scope. An author that is not
/// listed among the stored authors is added to them.
pub fn initial<S: ConfigStore>(
    partners_config: &Config,
    store: &mut S,
    author: &Author,
    fresh: bool,
) -> (done: Result<(), PartnersError>)
    ensures
        final(store).faithful() == old(store).faithful(),
        final(store).reliable() == old(store).reliable(),
        done matches Err(error) ==> from_store(error@) && !old(store).reliable(),
        old(store).faithful() ==> came_out(
            *old(store),
            *final(store),
            initial_outcome(
                old(store).entries(),
                refusals(*old(store)),
                partners_config@,
                S::matching(author_pattern()),
                author@,
                fresh,
            ),
            done,
        ),
{
    if fresh {
        let mut alone: Vec<Author> = Vec::new();
        alone.push(author.clone());
        proof {
            assert(author_views(alone@) == seq![author@]);
        }
        let settings = partners_config.settings(store);
        match AuthorSelection::new(settings, alone) {
            Ok(selection) => {
                Config::Global.set_current_author(store, &selection)?;
            },
            Err(error) => {
                return Err(error);
            },
        }
    }
    if partners_config.find_author(store, author.nick.as_str()).is_none() {
        partners_config.add_author(store, author)?;
    }
    Ok(())
}

/// Whether a run may go on after the user was asked to let a missing
/// configuration file be created: it may where the reply means yes.
pub fn proceed(reply: &Option<String>) -> (go: Result<(), PartnersError>)
    ensures
        match go {
            Ok(_) => crate::helpers::means_yes(optional_text(*reply)),
            Err(error) => error@ is CannotProcede && !crate::helpers::means_yes(
                optional_text(*reply),
            ),
        },
{
    if crate::helpers::confirm(reply) {
        Ok(())
    } else {
        Err(PartnersError::CannotProcede)
    }
}

/// One of the settings that the setup command goes through. For each in
/// turn it shows the value read, asks for a new one and writes the
/// answer before it goes on to the next.
#[derive(Clone, Copy, Debug, PartialEq, Eq, Structural)]
pub enum Setting {
    Domain,
    Prefix,
    Separator,
}

impl Setting {
    /// The key under which this setting is stored.
    pub open spec fn key_text(self) -> Seq<char> {
        match self {
            Setting::Domain => "config.domain"@,
            Setting::Prefix => "config.prefix"@,
            Setting::Separator => "config.separator"@,
        }
    }

    /// The value of this setting where none is stored.
    pub open spec fn default_text(self) -> Seq<char> {
        match self {
            Setting::Domain => default_domain(),
            Setting::Prefix => default_prefix(),
            Setting::Separator => default_separator(),
        }
    }

    /// The settings in the order in which the setup command asks for
    /// them.
    pub fn all() -> (settings: Vec<Setting>)
        ensures
            settings@ == seq![Setting::Domain, Setting::Prefix, Setting::Separator],
    {
        let mut settings: Vec<Setting> = Vec::new();
        settings.push(Setting::Domain);
        settings.push(Setting::Prefix);
        settings.push(Setting::Separator);
        settings
    }

    /// The name of the command line argument that sets this setting.
    pub fn argument(&self) -> (name: &'static str)
        ensures
            name@ == match self {
                Setting::Domain => "domain"@,
                Setting::Prefix => "prefix"@,
                Setting::Separator => "separator"@,
            },
    {
        match self {
            Setting::Domain => "domain",
            Setting::Prefix => "prefix",
            Setting::Separator => "separator",
        }
    }

    /// The words that ask the user for this setting.
    pub fn label(&self) -> (words: &'static str)
        ensures
            words@ == match self {
                Setting::Domain => "Email Domain"@,
                Setting::Prefix => "Email Prefix"@,
                Setting::Separator => "Separator"@,
            },
    {
        match self {
            Setting::Domain => "Email Domain",
            Setting::Prefix => "Email Prefix",
            Setting::Separator => "Separator",
        }
    }

    /// The value of this setting in `partners_config`, its default where
    /// it cannot be read.
    pub fn read<S: ConfigStore>(&self, partners_config: &Config, store: &S) -> (value: String)
        ensures
            reads_setting(
                store.entries(),
                store.faithful(),
                partners_config@,
                self.key_text(),
                self.default_text(),
                value@,
            ),
    {
        match self {
            Setting::Domain => partners_config.domain(store),
            Setting::Prefix => partners_config.prefix(store),
            Setting::Separator => partners_config.separator(store),
        }
    }

    /// Stores `value` for this setting in `partners_config`.
    pub fn write<S: ConfigStore>(&self, partners_config: &Config, store: &mut S, value: &str) -> (done:
        Result<(), PartnersError>)
        ensures
            final(store).faithful() == old(store).faithful(),
            final(store).reliable() == old(store).reliable(),
            done matches Err(error) ==> from_store(error@) && !old(store).reliable(),
            old(store).faithful() ==> writes(
                old(store).entries(),
                final(store).entries(),
                old(store).refusal(0, partners_config@, self.key_text()),
                with_value(old(store).entries(), partners_config@, self.key_text(), value@),
                done,
            ),
            old(store).faithful() ==> counted(*old(store), *final(store), 1),
    {
        match self {
            Setting::Domain => partners_config.set_domain(store, value),
            Setting::Prefix => partners_config.set_prefix(store, value),
            Setting::Separator => partners_config.set_separator(store, value),
        }
    }
}

} // verus!
