//! Authors and the current identity, kept under well-known keys in one
//! scope of a configuration store.

use crate::author::{author_views, Author, AuthorView};
use crate::author_selection::{resolved_email, resolved_name, resolved_nick, AuthorSelection};
use crate::config::{
    default_domain, default_prefix, default_separator, settings_of, value_or, Settings,
};
use crate::error::{ErrorView, PartnersError};
use crate::ordering::sorted_by_nick;
use crate::store::{
    answers, as_read, came_out, counted, from_store, line_of, listing, lookup, refusals,
    value_read, with_value, without_section, writes, ConfigStore, Entry, Outcome,
};
use crate::text::{chars_of, equal, find_from, first_index, is_line, split_on, trimmed, views};
use vstd::prelude::*;

verus! {

/// The scope of a configuration store that an operation targets.
#[derive(Debug)]
pub enum Config {
    /// The configuration file at this path.
    File(String),
    /// The user's global configuration.
    Global,
    /// The configuration of the repository at hand.
    Local,
}

/// A `Config` with the path as a sequence of characters.
pub enum Scope {
    File(Seq<char>),
    Global,
    Local,
}

impl View for Config {
    type V = Scope;

    open spec fn view(&self) -> Scope {
        match self {
            Config::File(path) => Scope::File(path@),
            Config::Global => Scope::Global,
            Config::Local => Scope::Local,
        }
    }
}

impl Clone for Config {
    fn clone(&self) -> (copy: Config)
        ensures
            copy@ == self@,
    {
        match self {
            Config::File(path) => Config::File(path.clone()),
            Config::Global => Config::Global,
            Config::Local => Config::Local,
        }
    }
}

impl Config {
    /// Whether two scopes are the same scope.
    pub fn same(&self, other: &Config) -> (same: bool)
        ensures
            same == (self@ == other@),
    {
        match self {
            Config::File(path) => match other {
                Config::File(other_path) => *path == *other_path,
                _ => false,
            },
            Config::Global => match other {
                Config::Global => true,
                _ => false,
            },
            Config::Local => match other {
                Config::Local => true,
                _ => false,
            },
        }
    }
}

/// The key under which the name of the author `nick` is stored.
pub open spec fn name_key(nick: Seq<char>) -> Seq<char> {
    "author."@ + nick + ".name"@
}

/// The key under which the email address of the author `nick` is stored.
pub open spec fn email_key(nick: Seq<char>) -> Seq<char> {
    "author."@ + nick + ".email"@
}

/// The section that holds the keys of the author `nick`.
pub open spec fn section_of(nick: Seq<char>) -> Seq<char> {
    "author."@ + nick
}

/// The pattern that lists the name of every author.
pub open spec fn author_pattern() -> Seq<char> {
    "author.\\w+.name"@
}

/// The nick and the name in one line of a listing of names. The key ends
/// at the first space and the name is all that follows it; the nick is
/// the second of the pieces that dots cut the key into. A line without a
/// space, or with a key without a dot, holds no author.
pub open spec fn parsed_line(line: Seq<char>) -> Option<(Seq<char>, Seq<char>)> {
    match first_index(line, ' ') {
        None => None,
        Some(space) => {
            let pieces = split_on(line.take(space), '.');
            if pieces.len() >= 2 {
                Some((pieces[1], line.skip(space + 1)))
            } else {
                None
            }
        },
    }
}

/// Reads the nick and the name from one line of a listing of names.
pub fn parse_author_line(line: &str) -> (parsed: Option<(String, String)>)
    ensures
        match parsed {
            Some((nick, name)) => parsed_line(line@) == Some((nick@, name@)),
            None => parsed_line(line@) is None,
        },
{
    let chars = chars_of(line);
    proof {
        assert(chars@.skip(0) == line@);
    }
    let space = match find_from(&chars, 0, ' ') {
        Some(space) => space,
        None => {
            return None;
        },
    };
    let key = line.substring_char(0, space);
    let name = line.substring_char(space + 1, chars.len());
    let key_chars = chars_of(key);
    proof {
        assert(key@ == line@.take(space as int));
        assert(name@ == line@.skip(space + 1));
        assert(key_chars@.skip(0) == key@);
    }
    let dot = match find_from(&key_chars, 0, '.') {
        Some(dot) => dot,
        None => {
            return None;
        },
    };
    let end = match find_from(&key_chars, dot + 1, '.') {
        Some(end) => end,
        None => key_chars.len(),
    };
    let nick = key.substring_char(dot + 1, end);
    proof {
        let rest = key@.skip(dot + 1);
        assert(split_on(key@, '.') == seq![key@.take(dot as int)] + split_on(rest, '.'));
        assert(split_on(rest, '.')[0] == nick@) by {
            if end < key_chars.len() {
                assert(rest.take(end - dot - 1) == key@.subrange(dot + 1, end as int));
            } else {
                assert(rest == key@.subrange(dot + 1, end as int));
            }
        }
    }
    Some((String::from_str(nick), String::from_str(name)))
}

/// Puts a nick between the two fixed parts of a key.
fn key_around(head: &str, nick: &str, tail: &str) -> (key: String)
    ensures
        key@ == head@ + nick@ + tail@,
{
    let mut key = String::from_str(head);
    key.append(nick);
    key.append(tail);
    key
}

/// Whether `value` is what is read for a setting with the default
/// `fallback`. A faithful store gives the stored value as it is read, or
/// the default where it stores none; of another store nothing is known.
pub open spec fn reads_setting(
    entries: Seq<Entry>,
    faithful: bool,
    scope: Scope,
    key: Seq<char>,
    fallback: Seq<char>,
    value: Seq<char>,
) -> bool {
    faithful ==> value == value_or(value_read(entries, scope, key), fallback)
}

/// The settings that a faithful store holds in `scope`.
pub open spec fn settings_in(entries: Seq<Entry>, scope: Scope) -> Settings {
    settings_of(
        value_read(entries, scope, "config.domain"@),
        value_read(entries, scope, "config.prefix"@),
        value_read(entries, scope, "config.separator"@),
    )
}

/// Whether `lines` are what a faithful store lists for the keys of
/// `scope` that `accepts` holds of: the listing as it is read, or no
/// line at all where the store reports that no key matches.
pub open spec fn listed(
    entries: Seq<Entry>,
    scope: Scope,
    accepts: spec_fn(Seq<char>) -> bool,
    lines: Seq<Seq<char>>,
) -> bool {
    ||| lines == as_read(listing(entries, scope, accepts))
    ||| lines.len() == 0 && listing(entries, scope, accepts).len() == 0
}

impl Config {
    /// The value of `key` in this scope of `store`, without the white
    /// space at either end.
    pub fn get<S: ConfigStore>(&self, store: &S, key: &str) -> (found: Result<
        String,
        PartnersError,
    >)
        ensures
            answers(store.entries(), store.faithful(), store.reliable(), self@, key@, found),
    {
        store.get(self, key)
    }

    /// Writes `value` for `key` in this scope of `store`.
    pub fn set<S: ConfigStore>(&self, store: &mut S, key: &str, value: &str) -> (done: Result<
        (),
        PartnersError,
    >)
        ensures
            final(store).faithful() == old(store).faithful(),
            final(store).reliable() == old(store).reliable(),
            done matches Err(error) ==> from_store(error@) && !old(store).reliable(),
            old(store).faithful() ==> writes(
                old(store).entries(),
                final(store).entries(),
                old(store).refusal(0, self@, key@),
                with_value(old(store).entries(), self@, key@, value@),
                done,
            ),
            old(store).faithful() ==> counted(*old(store), *final(store), 1),
    {
        store.set(self, key, value)
    }

    /// The lines for the keys of this scope of `store` that match
    /// `pattern`; no lines where the store reports that none matches.
    pub fn list<S: ConfigStore>(&self, store: &S, pattern: &str) -> (lines: Result<
        Vec<String>,
        PartnersError,
    >)
        ensures
            match lines {
                Ok(lines) => store.faithful() ==> listed(
                    store.entries(),
                    self@,
                    S::matching(pattern@),
                    lines.deep_view(),
                ),
                Err(error) => {
                    &&& from_store(error@)
                    &&& !(error@ is NotFound)
                    &&& !store.reliable()
                    &&& !store.faithful()
                },
            },
    {
        match store.list(self, pattern) {
            Ok(lines) => Ok(lines),
            Err(PartnersError::NotFound) => {
                let lines: Vec<String> = Vec::new();
                proof {
                    assert(lines.deep_view().len() == 0);
                }
                Ok(lines)
            },
            Err(error) => Err(error),
        }
    }

    /// Reads a setting: the stored value, or `fallback` where the store
    /// has none or fails.
    fn setting<S: ConfigStore>(&self, store: &S, key: &str, fallback: &str) -> (value: String)
        ensures
            reads_setting(store.entries(), store.faithful(), self@, key@, fallback@, value@),
    {
        crate::config::setting_or(store.get(self, key).ok(), fallback)
    }

    /// The domain of synthesized email addresses.
    pub fn domain<S: ConfigStore>(&self, store: &S) -> (value: String)
        ensures
            reads_setting(
                store.entries(),
                store.faithful(),
                self@,
                "config.domain"@,
                default_domain(),
                value@,
            ),
    {
        self.setting(store, "config.domain", "example.com")
    }

    /// The prefix of composite email addresses.
    pub fn prefix<S: ConfigStore>(&self, store: &S) -> (value: String)
        ensures
            reads_setting(
                store.entries(),
                store.faithful(),
                self@,
                "config.prefix"@,
                default_prefix(),
                value@,
            ),
    {
        self.setting(store, "config.prefix", "dev")
    }

    /// The separator between the nicks of a composite identity.
    pub fn separator<S: ConfigStore>(&self, store: &S) -> (value: String)
        ensures
            reads_setting(
                store.entries(),
                store.faithful(),
                self@,
                "config.separator"@,
                default_separator(),
                value@,
            ),
    {
        self.setting(store, "config.separator", "+")
    }

    /// The nick of the current identity.
    pub fn nick<S: ConfigStore>(&self, store: &S) -> (found: Result<String, PartnersError>)
        ensures
            answers(
                store.entries(),
                store.faithful(),
                store.reliable(),
                self@,
                "partners.current"@,
                found,
            ),
    {
        self.get(store, "partners.current")
    }

    /// The name of the current identity.
    pub fn user_name<S: ConfigStore>(&self, store: &S) -> (found: Result<String, PartnersError>)
        ensures
            answers(store.entries(), store.faithful(), store.reliable(), self@, "user.name"@, found),
    {
        self.get(store, "user.name")
    }

    /// The email address of the current identity.
    pub fn user_email<S: ConfigStore>(&self, store: &S) -> (found: Result<String, PartnersError>)
        ensures
            answers(
                store.entries(),
                store.faithful(),
                store.reliable(),
                self@,
                "user.email"@,
                found,
            ),
    {
        self.get(store, "user.email")
    }
}

/// The author that one line of a listing of names stands for, with the
/// email address that is read for its nick.
pub open spec fn author_of_line(entries: Seq<Entry>, scope: Scope, line: Seq<char>) -> Option<
    AuthorView,
> {
    match parsed_line(line) {
        Some((nick, name)) => Some(
            AuthorView { nick, name, email: value_read(entries, scope, email_key(nick)) },
        ),
        None => None,
    }
}

/// The authors that the lines of a listing of names stand for.
pub open spec fn authors_of_lines(entries: Seq<Entry>, scope: Scope, lines: Seq<Seq<char>>) -> Seq<
    AuthorView,
> {
    lines.filter_map(|line: Seq<char>| author_of_line(entries, scope, line))
}

/// The authors stored in `scope`, in the order in which the store lists
/// their names; `names` says which keys the store takes for names.
pub open spec fn stored_authors(
    entries: Seq<Entry>,
    scope: Scope,
    names: spec_fn(Seq<char>) -> bool,
) -> Seq<AuthorView> {
    authors_of_lines(entries, scope, as_read(listing(entries, scope, names)))
}

/// A listing without lines holds no author, however it is answered.
pub proof fn no_lines_no_authors(
    entries: Seq<Entry>,
    scope: Scope,
    names: spec_fn(Seq<char>) -> bool,
    lines: Seq<Seq<char>>,
)
    requires
        listing(entries, scope, names).len() == 0,
        listed(entries, scope, names, lines),
    ensures
        authors_of_lines(entries, scope, lines) == Seq::<AuthorView>::empty(),
        stored_authors(entries, scope, names) == Seq::<AuthorView>::empty(),
{
    reveal_strlit("\n");
    let none = Seq::<Seq<char>>::empty();
    let empty = Seq::<char>::empty();
    assert(listing(entries, scope, names) == none);
    assert(crate::text::joined(none, "\n"@) == empty);
    assert(trimmed(empty) == empty);
    assert(split_on(empty, '\n') == seq![empty]);
    assert(as_read(none) == seq![empty]);
    assert(parsed_line(empty) is None);
    let read = |line: Seq<char>| author_of_line(entries, scope, line);
    assert(none.filter_map(read) == Seq::<AuthorView>::empty());
    assert(seq![empty].drop_last() == none);
    assert(seq![empty].last() == empty);
    assert(read(empty) is None);
    assert(seq![empty].filter_map(read) == Seq::<AuthorView>::empty());
}

/// The store after `author` was added to `scope`: the name is written
/// always, the email address only where the author has one.
pub open spec fn with_author(entries: Seq<Entry>, scope: Scope, author: AuthorView) -> Seq<Entry> {
    let named = with_value(entries, scope, name_key(author.nick), author.name);
    match author.email {
        Some(email) => with_value(named, scope, email_key(author.nick), email),
        None => named,
    }
}

/// What comes of adding `author` to `scope` where writes are refused as
/// `refusal` says, the first of them after `sooner` others. The name is
/// written first. Where that is refused, nothing is changed; where the
/// address is refused, the name stays written.
pub open spec fn author_outcome(
    before: Seq<Entry>,
    refusal: spec_fn(nat, Scope, Seq<char>) -> Option<ErrorView>,
    sooner: nat,
    scope: Scope,
    author: AuthorView,
) -> Outcome {
    let named = with_value(before, scope, name_key(author.nick), author.name);
    let first = refusal(sooner, scope, name_key(author.nick));
    let second = refusal(sooner + 1, scope, email_key(author.nick));
    if first is Some {
        Outcome { error: first, entries: before, writes: 1 }
    } else {
        match author.email {
            None => Outcome { error: None, entries: named, writes: 1 },
            Some(email) => if second is Some {
                Outcome { error: second, entries: named, writes: 2 }
            } else {
                Outcome {
                    error: None,
                    entries: with_value(named, scope, email_key(author.nick), email),
                    writes: 2,
                }
            },
        }
    }
}

/// The store after an identity was made the current one in `scope`.
pub open spec fn with_identity(
    entries: Seq<Entry>,
    scope: Scope,
    nick: Seq<char>,
    name: Seq<char>,
    email: Seq<char>,
) -> Seq<Entry> {
    let first = with_value(entries, scope, "partners.current"@, nick);
    let second = with_value(first, scope, "user.name"@, name);
    with_value(second, scope, "user.email"@, email)
}

/// What comes of making an identity the current one in `scope` where
/// writes are refused as `refusal` says: the nick is written, then the
/// name, then the email address, and the first write that is refused
/// ends it with what was written before.
pub open spec fn identity_outcome(
    before: Seq<Entry>,
    refusal: spec_fn(nat, Scope, Seq<char>) -> Option<ErrorView>,
    scope: Scope,
    nick: Seq<char>,
    name: Seq<char>,
    email: Seq<char>,
) -> Outcome {
    let first = with_value(before, scope, "partners.current"@, nick);
    let second = with_value(first, scope, "user.name"@, name);
    let third = with_value(second, scope, "user.email"@, email);
    if refusal(0, scope, "partners.current"@) is Some {
        Outcome { error: refusal(0, scope, "partners.current"@), entries: before, writes: 1 }
    } else if refusal(1, scope, "user.name"@) is Some {
        Outcome { error: refusal(1, scope, "user.name"@), entries: first, writes: 2 }
    } else if refusal(2, scope, "user.email"@) is Some {
        Outcome { error: refusal(2, scope, "user.email"@), entries: second, writes: 3 }
    } else {
        Outcome { error: None, entries: third, writes: 3 }
    }
}

/// The current identity that `scope` holds, if it holds a nick and a
/// name.
pub open spec fn identity_in(entries: Seq<Entry>, scope: Scope) -> Result<AuthorView, ErrorView> {
    match value_read(entries, scope, "partners.current"@) {
        None => Err(ErrorView::NoGitNick),
        Some(nick) => match value_read(entries, scope, "user.name"@) {
            None => Err(ErrorView::NoGitName),
            Some(name) => Ok(
                AuthorView { nick, name, email: value_read(entries, scope, "user.email"@) },
            ),
        },
    }
}

/// The first of `authors` with the nick `nick`.
pub open spec fn found(authors: Seq<AuthorView>, nick: Seq<char>) -> Option<AuthorView>
    decreases authors.len(),
{
    if authors.len() == 0 {
        None
    } else if authors[0].nick == nick {
        Some(authors[0])
    } else {
        found(authors.drop_first(), nick)
    }
}

/// Whether `nicks[i]` is the first nick that none of `authors` has.
pub open spec fn first_missing(authors: Seq<AuthorView>, nicks: Seq<Seq<char>>, i: int) -> bool {
    &&& 0 <= i < nicks.len()
    &&& found(authors, nicks[i]) is None
    &&& forall|j: int| 0 <= j < i ==> found(authors, #[trigger] nicks[j]) is Some
}

/// For each nick the first of `authors` that has it.
pub open spec fn picked(authors: Seq<AuthorView>, nicks: Seq<Seq<char>>) -> Seq<AuthorView> {
    nicks.map_values(|nick: Seq<char>| found(authors, nick).unwrap())
}

/// The authors that `nicks` select among `authors`, sorted by nick. The
/// first nick that none of the authors has is an error, and so are no
/// nicks at all.
pub open spec fn selection_of(authors: Seq<AuthorView>, nicks: Seq<Seq<char>>) -> Result<
    Seq<AuthorView>,
    ErrorView,
> {
    if exists|i: int| first_missing(authors, nicks, i) {
        Err(ErrorView::AuthorNotFound(nicks[choose|i: int| first_missing(authors, nicks, i)]))
    } else if nicks.len() == 0 {
        Err(ErrorView::NoAuthorSpecified)
    } else {
        Ok(sorted_by_nick(picked(authors, nicks)))
    }
}

/// Where no nick is the first that is missing, none is missing up to
/// `upto`.
proof fn found_up_to(authors: Seq<AuthorView>, nicks: Seq<Seq<char>>, upto: int)
    requires
        0 <= upto <= nicks.len(),
        !exists|i: int| first_missing(authors, nicks, i),
    ensures
        forall|j: int| 0 <= j < upto ==> found(authors, #[trigger] nicks[j]) is Some,
    decreases upto,
{
    if upto > 0 {
        found_up_to(authors, nicks, upto - 1);
        if found(authors, nicks[upto - 1]) is None {
            assert(first_missing(authors, nicks, upto - 1));
        }
    }
}

/// A selection is made only of nicks that are all found, and of one at
/// least; the error otherwise names the first nick that is missing.
pub proof fn selection_is_of_found_nicks(authors: Seq<AuthorView>, nicks: Seq<Seq<char>>)
    ensures
        match selection_of(authors, nicks) {
            Ok(chosen) => {
                &&& nicks.len() > 0
                &&& forall|i: int| 0 <= i < nicks.len() ==> found(authors, #[trigger] nicks[i]) is Some
                &&& chosen == sorted_by_nick(picked(authors, nicks))
            },
            Err(error) => {
                ||| error is NoAuthorSpecified && nicks.len() == 0
                ||| exists|i: int|
                    first_missing(authors, nicks, i) && error == ErrorView::AuthorNotFound(
                        nicks[i],
                    )
            },
        },
{
    if !exists|i: int| first_missing(authors, nicks, i) {
        found_up_to(authors, nicks, nicks.len() as int);
    }
}

/// What comes of removing the author `nick` from `scope` where the
/// removal of its section is refused as `refused` says. Where no author
/// of that nick is listed, nothing is asked of the store, nothing is
/// changed and nothing fails.
pub open spec fn removal_outcome(
    before: Seq<Entry>,
    refused: Option<ErrorView>,
    scope: Scope,
    nick: Seq<char>,
    names: spec_fn(Seq<char>) -> bool,
) -> Outcome {
    if found(stored_authors(before, scope, names), nick) is None {
        Outcome { error: None, entries: before, writes: 0 }
    } else if refused is Some {
        Outcome { error: refused, entries: before, writes: 1 }
    } else {
        Outcome {
            error: None,
            entries: without_section(before, scope, section_of(nick)),
            writes: 1,
        }
    }
}

/// Finds the first of `authors` with the nick `nick`.
pub fn find_in(authors: &Vec<Author>, nick: &str) -> (at: Option<usize>)
    ensures
        match at {
            Some(i) => i < authors.len() && found(author_views(authors@), nick@) == Some(
                authors@[i as int]@,
            ),
            None => found(author_views(authors@), nick@) is None,
        },
{
    let ghost all = author_views(authors@);
    let mut i: usize = 0;
    proof {
        assert(all.skip(0) == all);
    }
    while i < authors.len()
        invariant
            i <= authors.len(),
            all == author_views(authors@),
            found(all, nick@) == found(all.skip(i as int), nick@),
        decreases authors.len() - i,
    {
        proof {
            assert(all.skip(i as int).drop_first() == all.skip(i + 1));
        }
        if equal(authors[i].nick.as_str(), nick) {
            return Some(i);
        }
        i += 1;
    }
    None
}

/// Makes of the answer of a store what it is for a value that may be
/// missing: absence is no value, and every other failure stays.
pub fn optional(found: Result<String, PartnersError>) -> (value: Result<
    Option<String>,
    PartnersError,
>)
    ensures
        match found {
            Ok(text) => value matches Ok(Some(kept)) && kept@ == text@,
            Err(error) => if error@ is NotFound {
                value matches Ok(None)
            } else {
                value matches Err(passed) && passed@ == error@
            },
        },
{
    match found {
        Ok(text) => Ok(Some(text)),
        Err(PartnersError::NotFound) => Ok(None),
        Err(error) => Err(error),
    }
}

/// Makes of the answer of a store what it is for a value that must be
/// there: absence is the error `missing`, and every other failure stays.
pub fn required(found: Result<String, PartnersError>, missing: PartnersError) -> (value: Result<
    String,
    PartnersError,
>)
    ensures
        match found {
            Ok(text) => value matches Ok(kept) && kept@ == text@,
            Err(error) => value matches Err(passed) && passed@ == if error@ is NotFound {
                missing@
            } else {
                error@
            },
        },
{
    match found {
        Ok(text) => Ok(text),
        Err(PartnersError::NotFound) => Err(missing),
        Err(error) => Err(error),
    }
}

/// Picks for each of `nicks` the first of `authors` that has it, or
/// names the first nick that none has.
pub fn pick(authors: &Vec<Author>, nicks: &[&str]) -> (chosen: Result<Vec<Author>, PartnersError>)
    ensures
        match chosen {
            Ok(chosen) => {
                &&& forall|i: int|
                    0 <= i < nicks@.len() ==> found(
                        author_views(authors@),
                        #[trigger] views(nicks@)[i],
                    ) is Some
                &&& author_views(chosen@) == picked(author_views(authors@), views(nicks@))
            },
            Err(error) => exists|i: int|
                first_missing(author_views(authors@), views(nicks@), i) && error@
                    == ErrorView::AuthorNotFound(#[trigger] views(nicks@)[i]),
        },
{
    let ghost stored = author_views(authors@);
    let ghost wanted = views(nicks@);
    let mut chosen: Vec<Author> = Vec::new();
    let mut i: usize = 0;
    proof {
        assert(author_views(chosen@) == picked(stored, wanted.take(0)));
    }
    while i < nicks.len()
        invariant
            i <= nicks.len(),
            stored == author_views(authors@),
            wanted == views(nicks@),
            forall|j: int| 0 <= j < i ==> found(stored, #[trigger] wanted[j]) is Some,
            author_views(chosen@) == picked(stored, wanted.take(i as int)),
        decreases nicks.len() - i,
    {
        let ghost before = author_views(chosen@);
        match find_in(authors, nicks[i]) {
            Some(at) => {
                chosen.push(authors[at].clone());
                proof {
                    assert(wanted[i as int] == nicks@[i as int]@);
                    assert(author_views(chosen@) == before.push(authors@[at as int]@));
                    assert(wanted.take(i + 1) == wanted.take(i as int).push(wanted[i as int]));
                    assert(picked(stored, wanted.take(i + 1)) == picked(
                        stored,
                        wanted.take(i as int),
                    ).push(found(stored, wanted[i as int]).unwrap()));
                }
            },
            None => {
                proof {
                    assert(wanted[i as int] == nicks@[i as int]@);
                    assert(first_missing(stored, wanted, i as int));
                }
                return Err(PartnersError::AuthorNotFound(String::from_str(nicks[i])));
            },
        }
        i += 1;
    }
    proof {
        assert(wanted.take(i as int) == wanted);
    }
    Ok(chosen)
}

impl Config {
    /// Sets the domain of synthesized email addresses.
    pub fn set_domain<S: ConfigStore>(&self, store: &mut S, value: &str) -> (done: Result<
        (),
        PartnersError,
    >)
        ensures
            final(store).faithful() == old(store).faithful(),
            final(store).reliable() == old(store).reliable(),
            done matches Err(error) ==> from_store(error@) && !old(store).reliable(),
            old(store).faithful() ==> writes(
                old(store).entries(),
                final(store).entries(),
                old(store).refusal(0, self@, "config.domain"@),
                with_value(old(store).entries(), self@, "config.domain"@, value@),
                done,
            ),
            old(store).faithful() ==> counted(*old(store), *final(store), 1),
    {
        self.set(store, "config.domain", value)
    }

    /// Sets the prefix of composite email addresses.
    pub fn set_prefix<S: ConfigStore>(&self, store: &mut S, value: &str) -> (done: Result<
        (),
        PartnersError,
    >)
        ensures
            final(store).faithful() == old(store).faithful(),
            final(store).reliable() == old(store).reliable(),
            done matches Err(error) ==> from_store(error@) && !old(store).reliable(),
            old(store).faithful() ==> writes(
                old(store).entries(),
                final(store).entries(),
                old(store).refusal(0, self@, "config.prefix"@),
                with_value(old(store).entries(), self@, "config.prefix"@, value@),
                done,
            ),
            old(store).faithful() ==> counted(*old(store), *final(store), 1),
    {
        self.set(store, "config.prefix", value)
    }

    /// Sets the separator between the nicks of a composite identity.
    pub fn set_separator<S: ConfigStore>(&self, store: &mut S, value: &str) -> (done: Result<
        (),
        PartnersError,
    >)
        ensures
            final(store).faithful() == old(store).faithful(),
            final(store).reliable() == old(store).reliable(),
            done matches Err(error) ==> from_store(error@) && !old(store).reliable(),
            old(store).faithful() ==> writes(
                old(store).entries(),
                final(store).entries(),
                old(store).refusal(0, self@, "config.separator"@),
                with_value(old(store).entries(), self@, "config.separator"@, value@),
                done,
            ),
            old(store).faithful() ==> counted(*old(store), *final(store), 1),
    {
        self.set(store, "config.separator", value)
    }

    /// The settings stored in this scope, with the default for each that
    /// cannot be read.
    pub fn settings<S: ConfigStore>(&self, store: &S) -> (settings: crate::config::Config)
        ensures
            store.faithful() ==> settings@ == settings_in(store.entries(), self@),
    {
        crate::config::Config {
            domain: self.domain(store),
            prefix: self.prefix(store),
            separator: self.separator(store),
        }
    }

    /// The authors stored in this scope, in the order in which the store
    /// lists them. Lines that hold no author are passed over; an author
    /// without a stored email address has none.
    pub fn authors<S: ConfigStore>(&self, store: &S) -> (all: Result<Vec<Author>, PartnersError>)
        ensures
            match all {
                Ok(all) => store.faithful() ==> author_views(all@) == stored_authors(
                    store.entries(),
                    self@,
                    S::matching(author_pattern()),
                ),
                Err(error) => {
                    &&& from_store(error@)
                    &&& !(error@ is NotFound)
                    &&& !store.reliable()
                    &&& !store.faithful()
                },
            },
    {
        let lines = self.list(store, "author.\\w+.name")?;
        let ghost listed = lines.deep_view();
        let mut all: Vec<Author> = Vec::new();
        let mut i: usize = 0;
        proof {
            assert(author_views(all@) == Seq::<AuthorView>::empty());
            assert(listed.take(0) == Seq::<Seq<char>>::empty());
        }
        while i < lines.len()
            invariant
                i <= lines.len(),
                listed == lines.deep_view(),
                store.faithful() ==> author_views(all@) == authors_of_lines(
                    store.entries(),
                    self@,
                    listed.take(i as int),
                ),
            decreases lines.len() - i,
        {
            let ghost before = author_views(all@);
            proof {
                assert(listed.take(i + 1).drop_last() == listed.take(i as int));
                assert(listed.take(i + 1).last() == lines@[i as int]@);
            }
            match parse_author_line(lines[i].as_str()) {
                Some((nick, name)) => {
                    let key = key_around("author.", nick.as_str(), ".email");
                    let email = optional(store.get(self, key.as_str()))?;
                    let author = Author { nick, name, email };
                    proof {
                        if store.faithful() {
                            assert(author_of_line(store.entries(), self@, lines@[i as int]@)
                                == Some(author@));
                        }
                    }
                    all.push(author);
                    proof {
                        assert(author_views(all@) == before + seq![author@]);
                    }
                },
                None => {},
            }
            i += 1;
        }
        proof {
            assert(listed.take(i as int) == listed);
            if store.faithful() {
                let names = S::matching(author_pattern());
                if listed != as_read(listing(store.entries(), self@, names)) {
                    no_lines_no_authors(store.entries(), self@, names, listed);
                }
            }
        }
        Ok(all)
    }

    /// Adds `author` to this scope, or updates the author of that nick.
    /// The name is written first, then the email address where `author`
    /// has one; an address stored earlier stays where it has none. Where
    /// the second write fails, the first has taken effect.
    pub fn add_author<S: ConfigStore>(&self, store: &mut S, author: &Author) -> (done: Result<
        (),
        PartnersError,
    >)
        ensures
            final(store).faithful() == old(store).faithful(),
            final(store).reliable() == old(store).reliable(),
            done matches Err(error) ==> from_store(error@) && !old(store).reliable(),
            old(store).faithful() ==> came_out(
                *old(store),
                *final(store),
                author_outcome(old(store).entries(), refusals(*old(store)), 0, self@, author@),
                done,
            ),
    {
        let key = key_around("author.", author.nick.as_str(), ".name");
        self.set(store, key.as_str(), author.name.as_str())?;
        match &author.email {
            Some(email) => {
                let key = key_around("author.", author.nick.as_str(), ".email");
                self.set(store, key.as_str(), email.as_str())?;
            },
            None => {},
        }
        Ok(())
    }

    /// Makes `current` the current identity in this scope: writes its
    /// nick, then its name, then its email address. Where a write fails,
    /// the writes before it have taken effect.
    pub fn set_current_author<S: ConfigStore>(
        &self,
        store: &mut S,
        current: &AuthorSelection,
    ) -> (done: Result<(), PartnersError>)
        ensures
            final(store).faithful() == old(store).faithful(),
            final(store).reliable() == old(store).reliable(),
            done matches Err(error) ==> from_store(error@) && !old(store).reliable(),
            old(store).faithful() ==> came_out(
                *old(store),
                *final(store),
                identity_outcome(
                    old(store).entries(),
                    refusals(*old(store)),
                    self@,
                    resolved_nick(current.records(), current.settings()),
                    resolved_name(current.records()),
                    resolved_email(current.records(), current.settings()),
                ),
                done,
            ),
    {
        let nick = current.nick();
        self.set(store, "partners.current", nick.as_str())?;
        let name = current.name();
        self.set(store, "user.name", name.as_str())?;
        let email = current.email();
        self.set(store, "user.email", email.as_str())?;
        Ok(())
    }

    /// The current identity in this scope. Without a nick there is none
    /// (`NoGitNick`), nor without a name (`NoGitName`); the email address
    /// may be missing.
    pub fn current_author<S: ConfigStore>(&self, store: &S) -> (current: Result<
        Author,
        PartnersError,
    >)
        ensures
            current matches Err(error) ==> {
                ||| error@ is NoGitNick
                ||| error@ is NoGitName
                ||| from_store(error@) && !(error@ is NotFound) && !store.reliable()
                    && !store.faithful()
            },
            store.faithful() ==> match identity_in(store.entries(), self@) {
                Ok(author) => current matches Ok(read) && read@ == author,
                Err(error) => current matches Err(reported) && reported@ == error,
            },
    {
        let nick = required(self.nick(store), PartnersError::NoGitNick)?;
        let name = required(self.user_name(store), PartnersError::NoGitName)?;
        let email = optional(self.user_email(store))?;
        Ok(Author { nick, name, email })
    }

    /// The stored author with the nick `nick`; none also where the
    /// authors cannot be listed.
    pub fn find_author<S: ConfigStore>(&self, store: &S, nick: &str) -> (author: Option<Author>)
        ensures
            store.faithful() ==> match found(
                stored_authors(store.entries(), self@, S::matching(author_pattern())),
                nick@,
            ) {
                Some(stored) => author matches Some(read) && read@ == stored,
                None => author is None,
            },
    {
        match self.authors(store) {
            Ok(all) => match find_in(&all, nick) {
                Some(i) => Some(all[i].clone()),
                None => None,
            },
            Err(_) => None,
        }
    }

    /// The stored authors with the nicks `nicks`, as a selection. The
    /// first nick that no stored author has is reported as
    /// `AuthorNotFound`; no nicks at all are `NoAuthorSpecified`.
    pub fn find_authors<S: ConfigStore>(&self, store: &S, nicks: &[&str]) -> (chosen: Result<
        AuthorSelection,
        PartnersError,
    >)
        ensures
            chosen is Ok ==> nicks@.len() > 0,
            chosen matches Err(error) ==> {
                ||| error@ is AuthorNotFound
                ||| error@ is NoAuthorSpecified && nicks@.len() == 0
                ||| from_store(error@) && !(error@ is NotFound) && !store.reliable()
                    && !store.faithful()
            },
            store.faithful() ==> match selection_of(
                stored_authors(store.entries(), self@, S::matching(author_pattern())),
                views(nicks@),
            ) {
                Ok(records) => {
                    &&& chosen matches Ok(selection)
                    &&& selection.records() == records
                    &&& selection.settings() == settings_in(store.entries(), self@)
                },
                Err(error) => chosen matches Err(reported) && reported@ == error,
            },
    {
        let all = self.authors(store)?;
        let chosen = pick(&all, nicks)?;
        proof {
            assert(author_views(chosen@).len() == chosen.len());
            assert(picked(author_views(all@), views(nicks@)).len() == nicks@.len());
        }
        let settings = self.settings(store);
        AuthorSelection::new(settings, chosen)
    }

    /// Removes the author with the nick `nick` from this scope. Where no
    /// stored author has that nick, nothing is changed and nothing
    /// fails. A removal that the store refuses fails with the error of
    /// the store.
    pub fn remove_author<S: ConfigStore>(&self, store: &mut S, nick: &str) -> (done: Result<
        (),
        PartnersError,
    >)
        ensures
            final(store).faithful() == old(store).faithful(),
            final(store).reliable() == old(store).reliable(),
            done matches Err(error) ==> from_store(error@) && !old(store).reliable(),
            old(store).faithful() ==> came_out(
                *old(store),
                *final(store),
                removal_outcome(
                    old(store).entries(),
                    old(store).refusal(0, self@, section_of(nick@)),
                    self@,
                    nick@,
                    S::matching(author_pattern()),
                ),
                done,
            ),
    {
        let all = self.authors(store)?;
        match find_in(&all, nick) {
            Some(_) => {
                let section = key_around("author.", nick, "");
                proof {
                    reveal_strlit("");
                    assert(section@ == section_of(nick@));
                }
                store.remove_section(self, section.as_str())
            },
            None => Ok(()),
        }
    }
}

/// Whether `nick` can be part of a key: it holds no dot, which would end
/// it within the key, no space, which would end the key within a line,
/// and no line break, which would end the line.
pub open spec fn is_nick(nick: Seq<char>) -> bool {
    forall|i: int| 0 <= i < nick.len() ==> nick[i] != '.' && nick[i] != ' ' && nick[i] != '\n'
}

/// Whether `name` is listed as it is: it is not empty, does not end in
/// white space and holds no line break.
pub open spec fn is_name(name: Seq<char>) -> bool {
    &&& name.len() > 0
    &&& !crate::text::is_space(name.last())
    &&& forall|i: int| 0 <= i < name.len() ==> name[i] != '\n'
}

/// The line that lists the name of an author is read back as that nick
/// and that name.
pub proof fn name_line_is_parsed(nick: Seq<char>, name: Seq<char>)
    requires
        is_nick(nick),
    ensures
        parsed_line(name_key(nick) + " "@ + name) == Some((nick, name)),
{
    reveal_strlit("author.");
    reveal_strlit(".name");
    reveal_strlit(" ");
    let key = name_key(nick);
    let line = key + " "@ + name;
    assert(key.len() == nick.len() + 12);
    assert forall|j: int| 0 <= j < key.len() implies line[j] != ' ' by {
        if 7 <= j < 7 + nick.len() {
            assert(line[j] == nick[j - 7]);
        }
    }
    crate::text::first_index_found(line, ' ', key.len() as int);
    assert(line.take(key.len() as int) == key);
    assert(line.skip(key.len() as int + 1) == name);
    crate::text::first_index_found(key, '.', 6);
    let rest = key.skip(7);
    assert(rest == nick + ".name"@);
    crate::text::first_index_found(rest, '.', nick.len() as int);
    assert(rest.take(nick.len() as int) == nick);
    assert(split_on(rest, '.')[0] == nick);
    assert(split_on(key, '.') == seq![key.take(6)] + split_on(rest, '.'));
}

/// The line that lists the name of an author stays as it is when the
/// listing is read.
pub proof fn name_line_is_a_line(nick: Seq<char>, name: Seq<char>)
    requires
        is_nick(nick),
        is_name(name),
    ensures
        is_line(name_key(nick) + " "@ + name),
{
    reveal_strlit("author.");
    reveal_strlit(".name");
    reveal_strlit(" ");
    let key = name_key(nick);
    let line = key + " "@ + name;
    assert(key.len() == nick.len() + 12);
    assert(line[0] == 'a');
    assert(line.last() == name.last());
    assert forall|i: int| 0 <= i < line.len() implies line[i] != '\n' by {
        if 7 <= i < 7 + nick.len() {
            assert(line[i] == nick[i - 7]);
        } else if i > key.len() {
            assert(line[i] == name[i - key.len() - 1]);
        }
    }
}

/// An author that was added is listed, with the nick, the name and the
/// email address it was added with. This holds of every nick that the
/// store takes for the name of an author, of every name that is listed
/// as it is, and of every author that brings an email address without
/// white space at its ends or has none stored: an added author without
/// one keeps the address stored before.
pub proof fn added_author_is_listed(
    entries: Seq<Entry>,
    scope: Scope,
    author: AuthorView,
    names: spec_fn(Seq<char>) -> bool,
)
    requires
        is_nick(author.nick),
        is_name(author.name),
        names(name_key(author.nick)),
        match author.email {
            Some(email) => trimmed(email) == email,
            None => lookup(entries, scope, email_key(author.nick)) is None,
        },
    ensures
        stored_authors(with_author(entries, scope, author), scope, names).contains(author),
{
    reveal_strlit("author.");
    reveal_strlit(".name");
    reveal_strlit(".email");
    let name_key = name_key(author.nick);
    let email_key = email_key(author.nick);
    assert(name_key.len() != email_key.len());
    let named = with_value(entries, scope, name_key, author.name);
    let after = with_author(entries, scope, author);
    crate::store::written_value_is_read(entries, scope, name_key, author.name);
    let entry = Entry { scope, key: name_key, value: author.name };
    let i = choose|i: int| 0 <= i < named.len() && #[trigger] named[i] == entry;
    crate::store::other_values_stay(entries, scope, name_key, author.name, scope, email_key);
    match author.email {
        Some(email) => {
            crate::store::written_value_is_read(named, scope, email_key, email);
            crate::store::other_values_stay(named, scope, email_key, email, scope, name_key);
        },
        None => {},
    }
    assert(after[i] == entry);
    assert(value_read(after, scope, email_key) == author.email);
    crate::store::entry_is_listed(after, scope, names, i);
    let listing = listing(after, scope, names);
    let line = line_of(entry);
    let at = choose|at: int| 0 <= at < listing.len() && listing[at] == line;
    name_line_is_a_line(author.nick, author.name);
    crate::text::line_survives(listing, at);
    let lines = as_read(listing);
    let read_at = choose|read_at: int| 0 <= read_at < lines.len() && lines[read_at] == line;
    name_line_is_parsed(author.nick, author.name);
    let read = |line: Seq<char>| author_of_line(after, scope, line);
    assert(read(lines[read_at]) == Some(author));
    crate::store::filter_map_keeps(lines, read, read_at);
}

/// Removing an author that is not listed asks nothing of the store: it
/// fails on no store that is faithful, and changes nothing.
pub proof fn removing_an_unlisted_author_changes_nothing(
    before: Seq<Entry>,
    refused: Option<ErrorView>,
    scope: Scope,
    nick: Seq<char>,
    names: spec_fn(Seq<char>) -> bool,
)
    requires
        found(stored_authors(before, scope, names), nick) is None,
    ensures
        removal_outcome(before, refused, scope, nick, names) == (Outcome {
            error: None,
            entries: before,
            writes: 0,
        }),
{
}

/// The nick in a key that has the form of the key of a name.
pub open spec fn nick_of(key: Seq<char>) -> Seq<char> {
    key.subrange(7, key.len() - 5)
}

/// Whether `entry` holds the name of an author as adding one writes it:
/// under the key of a name for a nick, and without a line break.
pub open spec fn is_name_entry(entry: Entry) -> bool {
    &&& entry.key.len() >= 12
    &&& entry.key == name_key(nick_of(entry.key))
    &&& is_nick(nick_of(entry.key))
    &&& forall|j: int| 0 <= j < entry.value.len() ==> entry.value[j] != '\n'
}

/// Whether all that the store takes for a name in `scope` is the name of
/// an author.
pub open spec fn lists_only_names(
    entries: Seq<Entry>,
    scope: Scope,
    names: spec_fn(Seq<char>) -> bool,
) -> bool {
    forall|i: int|
        0 <= i < entries.len() && entries[i].scope == scope && names(entries[i].key)
            ==> is_name_entry(#[trigger] entries[i])
}

/// Whether `scope` holds the name of the author `nick`.
pub open spec fn holds_name(entries: Seq<Entry>, scope: Scope, nick: Seq<char>) -> bool {
    exists|i: int|
        0 <= i < entries.len() && (#[trigger] entries[i]).scope == scope && entries[i].key
            == name_key(nick) && is_nick(nick)
}

/// Whether `line` lists the name of an author that `scope` holds.
pub open spec fn lists_name(entries: Seq<Entry>, scope: Scope, line: Seq<char>) -> bool {
    exists|i: int|
        0 <= i < entries.len() && (#[trigger] entries[i]).scope == scope && is_name_entry(
            entries[i],
        ) && line == line_of(entries[i])
}

/// Every line of the listing lists a name that the scope holds, where
/// the store takes nothing else for a name.
pub proof fn listing_lists_names(
    entries: Seq<Entry>,
    scope: Scope,
    names: spec_fn(Seq<char>) -> bool,
    at: int,
)
    requires
        lists_only_names(entries, scope, names),
        0 <= at < listing(entries, scope, names).len(),
    ensures
        lists_name(entries, scope, listing(entries, scope, names)[at]),
{
    let pick = |entry: Entry|
        if entry.scope == scope && names(entry.key) {
            Some(line_of(entry))
        } else {
            None
        };
    let lines = entries.filter_map(pick);
    assert(lines.contains(lines[at]));
    entries.lemma_filter_map_contains(pick, lines[at]);
    let entry = choose|entry: Entry| #[trigger]
        entries.contains(entry) && pick(entry) == Some(lines[at]);
    let i = choose|i: int| 0 <= i < entries.len() && entries[i] == entry;
    assert(is_name_entry(entries[i]));
}

/// The line that lists a name begins with the key and holds no line
/// break.
pub proof fn name_line_is_unbroken(entry: Entry)
    requires
        is_name_entry(entry),
    ensures
        crate::text::begins(line_of(entry)),
        forall|j: int| 0 <= j < line_of(entry).len() ==> line_of(entry)[j] != '\n',
{
    reveal_strlit("author.");
    reveal_strlit(".name");
    reveal_strlit(" ");
    let nick = nick_of(entry.key);
    let line = line_of(entry);
    assert(line[0] == 'a');
    assert forall|j: int| 0 <= j < line.len() implies line[j] != '\n' by {
        if 7 <= j < 7 + nick.len() {
            assert(line[j] == nick[j - 7]);
        } else if j > entry.key.len() {
            assert(line[j] == entry.value[j - entry.key.len() - 1]);
        }
    }
}

/// A line that lists a name, read as it is or without the white space
/// it ends with, holds the nick of the key if it holds an author.
pub proof fn read_line_has_the_nick(entry: Entry, line: Seq<char>)
    requires
        is_name_entry(entry),
        line == line_of(entry) || line == crate::text::without_trailing_space(line_of(entry)),
        parsed_line(line) is Some,
    ensures
        parsed_line(line) matches Some((nick, _)) && nick == nick_of(entry.key),
{
    reveal_strlit("author.");
    reveal_strlit(".name");
    reveal_strlit(" ");
    let nick = nick_of(entry.key);
    assert(entry.key.last() == 'e');
    if line == line_of(entry) {
        name_line_is_parsed(nick, entry.value);
    } else {
        crate::text::trailing_space_of_line(entry.key, entry.value);
        let kept = crate::text::without_trailing_space(entry.value);
        if kept.len() == 0 {
            assert forall|j: int| 0 <= j < entry.key.len() implies entry.key[j] != ' ' by {
                if 7 <= j < 7 + nick.len() {
                    assert(entry.key[j] == nick[j - 7]);
                }
            }
            crate::text::first_index_absent(entry.key, ' ');
        } else {
            name_line_is_parsed(nick, kept);
        }
    }
}

/// For each listed author the index of the entry that holds its name,
/// where the store takes nothing but names of authors for names. The
/// indices ascend: no two authors are listed for one entry.
pub proof fn authors_come_from_entries(
    entries: Seq<Entry>,
    scope: Scope,
    names: spec_fn(Seq<char>) -> bool,
) -> (from: Seq<int>)
    requires
        lists_only_names(entries, scope, names),
    ensures
        from.len() == stored_authors(entries, scope, names).len(),
        forall|p: int|
            0 <= p < from.len() ==> {
                &&& 0 <= #[trigger] from[p] < entries.len()
                &&& entries[from[p]].scope == scope
                &&& is_name_entry(entries[from[p]])
                &&& stored_authors(entries, scope, names)[p].nick == nick_of(entries[from[p]].key)
            },
        forall|p: int, q: int| 0 <= p < q < from.len() ==> from[p] < from[q],
{
    let listing = listing(entries, scope, names);
    let authors = stored_authors(entries, scope, names);
    if listing.len() == 0 {
        no_lines_no_authors(entries, scope, names, as_read(listing));
        Seq::empty()
    } else {
        let pick = |entry: Entry|
            if entry.scope == scope && names(entry.key) {
                Some(line_of(entry))
            } else {
                None
            };
        let read = |line: Seq<char>| author_of_line(entries, scope, line);
        let of_line = crate::store::filter_map_sources(entries, pick);
        assert forall|k: int| 0 <= k < listing.len() implies crate::text::begins(
            #[trigger] listing[k],
        ) && forall|j: int| 0 <= j < listing[k].len() ==> listing[k][j] != '\n' by {
            assert(is_name_entry(entries[of_line[k]]));
            name_line_is_unbroken(entries[of_line[k]]);
        }
        crate::text::lines_are_read(listing);
        let lines = as_read(listing);
        let of_author = crate::store::filter_map_sources(lines, read);
        let from = Seq::new(authors.len(), |p: int| of_line[of_author[p]]);
        assert forall|p: int| 0 <= p < from.len() implies {
            &&& 0 <= #[trigger] from[p] < entries.len()
            &&& entries[from[p]].scope == scope
            &&& is_name_entry(entries[from[p]])
            &&& authors[p].nick == nick_of(entries[from[p]].key)
        } by {
            let k = of_author[p];
            let entry = entries[of_line[k]];
            assert(is_name_entry(entry));
            assert(listing[k] == line_of(entry));
            assert(read(lines[k]) == Some(authors[p]));
            read_line_has_the_nick(entry, lines[k]);
        }
        assert forall|p: int, q: int| 0 <= p < q < from.len() implies from[p] < from[q] by {
            assert(of_author[p] < of_author[q]);
        }
        from
    }
}

/// Every listed author has its name stored under its nick, where the
/// store takes nothing but names of authors for names.
pub proof fn listed_author_has_a_name(
    entries: Seq<Entry>,
    scope: Scope,
    names: spec_fn(Seq<char>) -> bool,
    at: int,
)
    requires
        lists_only_names(entries, scope, names),
        0 <= at < stored_authors(entries, scope, names).len(),
    ensures
        holds_name(entries, scope, stored_authors(entries, scope, names)[at].nick),
{
    let from = authors_come_from_entries(entries, scope, names);
    assert(entries[from[at]].scope == scope);
}

/// An author that was added is listed once: no other listed author has
/// its nick. This holds where the store held no key twice, and where,
/// once the author is added, it takes nothing but names of authors for
/// names.
pub proof fn added_author_is_listed_once(
    entries: Seq<Entry>,
    scope: Scope,
    author: AuthorView,
    names: spec_fn(Seq<char>) -> bool,
)
    requires
        is_nick(author.nick),
        is_name(author.name),
        names(name_key(author.nick)),
        match author.email {
            Some(email) => trimmed(email) == email,
            None => lookup(entries, scope, email_key(author.nick)) is None,
        },
        lists_only_names(with_author(entries, scope, author), scope, names),
        crate::store::distinct_keys(entries),
    ensures
        ({
            let listed = stored_authors(with_author(entries, scope, author), scope, names);
            exists|at: int|
                0 <= at < listed.len() && #[trigger] listed[at] == author && forall|other: int|
                    0 <= other < listed.len() && (#[trigger] listed[other]).nick == author.nick
                        ==> other == at
        }),
{
    let after = with_author(entries, scope, author);
    let listed = stored_authors(after, scope, names);
    let named = with_value(entries, scope, name_key(author.nick), author.name);
    crate::store::written_keys_stay_distinct(entries, scope, name_key(author.nick), author.name);
    if author.email is Some {
        crate::store::written_keys_stay_distinct(
            named,
            scope,
            email_key(author.nick),
            author.email->0,
        );
    }
    added_author_is_listed(entries, scope, author, names);
    let at = choose|at: int| 0 <= at < listed.len() && listed[at] == author;
    let from = authors_come_from_entries(after, scope, names);
    assert forall|other: int|
        0 <= other < listed.len() && (#[trigger] listed[other]).nick == author.nick implies other
        == at by {
        let i = from[other];
        let j = from[at];
        assert(after[i].key == after[j].key);
        if other < at {
            assert(from[other] < from[at]);
        } else if at < other {
            assert(from[at] < from[other]);
        }
    }
}

/// Where an author is found, one of the authors has the nick.
pub proof fn found_is_among(authors: Seq<AuthorView>, nick: Seq<char>)
    requires
        found(authors, nick) is Some,
    ensures
        exists|at: int| 0 <= at < authors.len() && (#[trigger] authors[at]).nick == nick,
    decreases authors.len(),
{
    if authors[0].nick != nick {
        found_is_among(authors.drop_first(), nick);
        let at = choose|at: int|
            0 <= at < authors.drop_first().len() && (#[trigger] authors.drop_first()[at]).nick
                == nick;
        assert(authors[at + 1].nick == nick);
    }
}

/// The key of the name of an author belongs to the section of the
/// author.
pub proof fn name_is_in_section(nick: Seq<char>)
    requires
        is_nick(nick),
    ensures
        crate::store::in_section(name_key(nick), section_of(nick)),
{
    reveal_strlit("author.");
    reveal_strlit(".name");
    let key = name_key(nick);
    let section = section_of(nick);
    assert(key.take(section.len() as int) == section);
}

/// An author that was removed is listed no more, where the store takes
/// nothing but names of authors for names.
pub proof fn removed_author_is_unlisted(
    entries: Seq<Entry>,
    scope: Scope,
    nick: Seq<char>,
    names: spec_fn(Seq<char>) -> bool,
)
    requires
        lists_only_names(entries, scope, names),
    ensures
        lists_only_names(without_section(entries, scope, section_of(nick)), scope, names),
        found(
            stored_authors(without_section(entries, scope, section_of(nick)), scope, names),
            nick,
        ) is None,
{
    let kept = |entry: Entry| !crate::store::is_under(entry, scope, section_of(nick));
    let after = entries.filter(kept);
    assert forall|i: int|
        0 <= i < after.len() && after[i].scope == scope && names(after[i].key) implies is_name_entry(
        #[trigger] after[i],
    ) by {
        assert(after.contains(after[i]));
        entries.lemma_filter_contains_rev(kept, after[i]);
        let at = choose|at: int| 0 <= at < entries.len() && entries[at] == after[i];
        assert(is_name_entry(entries[at]));
    }
    let authors = stored_authors(after, scope, names);
    if found(authors, nick) is Some {
        found_is_among(authors, nick);
        let at = choose|at: int| 0 <= at < authors.len() && (#[trigger] authors[at]).nick == nick;
        listed_author_has_a_name(after, scope, names, at);
        let i = choose|i: int|
            0 <= i < after.len() && (#[trigger] after[i]).scope == scope && after[i].key
                == name_key(nick) && is_nick(nick);
        entries.lemma_filter_pred(kept, i);
        name_is_in_section(nick);
    }
}

/// Removing an author a second time changes nothing and does not fail,
/// where the store takes nothing but names of authors for names: the
/// first removal, unless it was refused, left no author of that nick.
pub proof fn second_removal_changes_nothing(
    before: Seq<Entry>,
    first_refused: Option<ErrorView>,
    second_refused: Option<ErrorView>,
    scope: Scope,
    nick: Seq<char>,
    names: spec_fn(Seq<char>) -> bool,
)
    requires
        lists_only_names(before, scope, names),
        removal_outcome(before, first_refused, scope, nick, names).error is None,
    ensures
        ({
            let first = removal_outcome(before, first_refused, scope, nick, names);
            removal_outcome(first.entries, second_refused, scope, nick, names) == (Outcome {
                error: None,
                entries: first.entries,
                writes: 0,
            })
        }),
{
    removed_author_is_unlisted(before, scope, nick, names);
}

} // verus!
