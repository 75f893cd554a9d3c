//! The composite identity of one or more selected authors: one nick, one
//! name and one email address, the same in whatever order the authors
//! were selected.

use crate::author::{author_views, name_parts, nick_parts, views_of, Author, AuthorView};
use crate::author_information::AuthorInformation;
use crate::config::{Config, Settings};
use crate::error::{ErrorView, PartnersError};
use crate::ordering::{ascending, sort_by_nick, sorted_by_nick};
use crate::text::{join, joined};
use vstd::prelude::*;

verus! {

/// The nicks of `authors`, in order.
pub open spec fn nicks(authors: Seq<AuthorView>) -> Seq<Seq<char>> {
    authors.map_values(|author: AuthorView| author.nick)
}

/// The names of `authors`, in order.
pub open spec fn names(authors: Seq<AuthorView>) -> Seq<Seq<char>> {
    authors.map_values(|author: AuthorView| author.name)
}

/// The nick of sorted authors: the only nick, or all nicks joined with
/// the separator.
pub open spec fn resolved_nick(sorted: Seq<AuthorView>, settings: Settings) -> Seq<char> {
    if sorted.len() == 1 {
        sorted[0].nick
    } else {
        joined(nicks(sorted), settings.separator)
    }
}

/// The name of sorted authors: the only name, or all names joined with a
/// comma and a space.
pub open spec fn resolved_name(sorted: Seq<AuthorView>) -> Seq<char> {
    if sorted.len() == 1 {
        sorted[0].name
    } else {
        joined(names(sorted), ", "@)
    }
}

/// The email address of sorted authors. A single author keeps a stored
/// address and otherwise gets nick, `@` and domain. Several authors get
/// prefix, separator, composite nick, `@` and domain, whatever addresses
/// they have stored.
pub open spec fn resolved_email(sorted: Seq<AuthorView>, settings: Settings) -> Seq<char> {
    if sorted.len() == 1 {
        match sorted[0].email {
            Some(email) => email,
            None => sorted[0].nick + "@"@ + settings.domain,
        }
    } else {
        settings.prefix + settings.separator + resolved_nick(sorted, settings) + "@"@
            + settings.domain
    }
}

/// One or more authors acting as one, sorted by nick, with the settings
/// that shape their composite identity.
pub struct AuthorSelection {
    config: Config,
    authors: Vec<Author>,
}

impl AuthorSelection {
    #[verifier::type_invariant]
    spec fn well_formed(&self) -> bool {
        &&& self.authors.len() > 0
        &&& ascending(author_views(self.authors@))
    }

    /// The selected authors, sorted by nick.
    pub closed spec fn records(&self) -> Seq<AuthorView> {
        author_views(self.authors@)
    }

    /// The settings the selection was made with.
    pub closed spec fn settings(&self) -> Settings {
        self.config@
    }

    /// Selects `authors`, in any order. An empty selection is refused;
    /// any other is kept sorted by nick, equal nicks in the given order.
    pub fn new(config: Config, authors: Vec<Author>) -> (selection: Result<
        AuthorSelection,
        PartnersError,
    >)
        ensures
            match selection {
                Ok(selection) => {
                    &&& authors.len() > 0
                    &&& selection.records() == sorted_by_nick(author_views(authors@))
                    &&& selection.settings() == config@
                },
                Err(error) => authors.len() == 0 && error@ == ErrorView::NoAuthorSpecified,
            },
    {
        if authors.len() == 0 {
            Err(PartnersError::NoAuthorSpecified)
        } else {
            proof {
                crate::ordering::sorted_is_an_ascending_permutation(author_views(authors@));
            }
            let sorted = sort_by_nick(authors);
            Ok(AuthorSelection { config, authors: sorted })
        }
    }

    /// The composite name.
    pub fn name(&self) -> (text: String)
        ensures
            text@ == resolved_name(self.records()),
    {
        proof {
            use_type_invariant(self);
        }
        if self.authors.len() == 1 {
            self.authors[0].name.clone()
        } else {
            let parts = name_parts(self.authors.as_slice());
            proof {
                assert(views_of(self.authors@) == author_views(self.authors@));
            }
            join(&parts, ", ")
        }
    }

    /// The composite nick.
    pub fn nick(&self) -> (text: String)
        ensures
            text@ == resolved_nick(self.records(), self.settings()),
    {
        proof {
            use_type_invariant(self);
        }
        if self.authors.len() == 1 {
            self.authors[0].nick.clone()
        } else {
            let parts = nick_parts(self.authors.as_slice());
            proof {
                assert(views_of(self.authors@) == author_views(self.authors@));
            }
            join(&parts, self.config.separator.as_str())
        }
    }

    /// The composite email address.
    pub fn email(&self) -> (text: String)
        ensures
            text@ == resolved_email(self.records(), self.settings()),
    {
        proof {
            use_type_invariant(self);
        }
        if self.authors.len() == 1 {
            match &self.authors[0].email {
                Some(email) => email.clone(),
                None => {
                    let mut text = self.nick();
                    text.append("@");
                    text.append(self.config.domain.as_str());
                    text
                },
            }
        } else {
            let nick = self.nick();
            let mut text = self.config.prefix.clone();
            text.append(self.config.separator.as_str());
            text.append(nick.as_str());
            text.append("@");
            text.append(self.config.domain.as_str());
            text
        }
    }
}

impl AuthorInformation for AuthorSelection {
    open spec fn nick_text(&self) -> Seq<char> {
        resolved_nick(self.records(), self.settings())
    }

    open spec fn name_text(&self) -> Seq<char> {
        resolved_name(self.records())
    }

    open spec fn email_text(&self) -> Seq<char> {
        resolved_email(self.records(), self.settings())
    }

    fn get_nick(&self) -> (nick: String) {
        self.nick()
    }

    fn get_name(&self) -> (name: String) {
        self.name()
    }

    fn get_email(&self) -> (email: String) {
        self.email()
    }
}

/// Whether authors with equal nicks have equal names.
pub open spec fn names_follow_nicks(authors: Seq<AuthorView>) -> bool {
    forall|i: int, j: int|
        0 <= i < authors.len() && 0 <= j < authors.len() && authors[i].nick == authors[j].nick
            ==> authors[i].name == authors[j].name
}

/// Two selections of the same authors, in whatever order, sort to the
/// same sequence of nicks.
pub proof fn sorted_nicks_ignore_order(a: Seq<AuthorView>, b: Seq<AuthorView>)
    requires
        a.to_multiset() == b.to_multiset(),
    ensures
        nicks(sorted_by_nick(a)) == nicks(sorted_by_nick(b)),
        sorted_by_nick(a).len() == sorted_by_nick(b).len(),
{
    let x = sorted_by_nick(a);
    let y = sorted_by_nick(b);
    crate::ordering::sorted_is_an_ascending_permutation(a);
    crate::ordering::sorted_is_an_ascending_permutation(b);
    crate::ordering::mapped_permutation(x, y, |author: AuthorView| author.nick);
    crate::ordering::by_text_is_total();
    vstd::seq_lib::lemma_sorted_unique(nicks(x), nicks(y), crate::ordering::by_text());
}

/// The composite nick is the same for every order of selection.
pub proof fn nick_ignores_order(a: Seq<AuthorView>, b: Seq<AuthorView>, settings: Settings)
    requires
        a.to_multiset() == b.to_multiset(),
    ensures
        resolved_nick(sorted_by_nick(a), settings) == resolved_nick(sorted_by_nick(b), settings),
{
    sorted_nicks_ignore_order(a, b);
    let x = sorted_by_nick(a);
    let y = sorted_by_nick(b);
    if x.len() == 1 {
        assert(nicks(x)[0] == nicks(y)[0]);
    }
}

/// The composite email address is the same for every order of selection.
pub proof fn email_ignores_order(a: Seq<AuthorView>, b: Seq<AuthorView>, settings: Settings)
    requires
        a.to_multiset() == b.to_multiset(),
    ensures
        resolved_email(sorted_by_nick(a), settings) == resolved_email(sorted_by_nick(b), settings),
{
    broadcast use vstd::seq_lib::group_to_multiset_ensures;

    nick_ignores_order(a, b, settings);
    sorted_nicks_ignore_order(a, b);
    crate::ordering::sorted_is_an_ascending_permutation(a);
    crate::ordering::sorted_is_an_ascending_permutation(b);
    if a.len() == 1 {
        crate::ordering::sorted_single(a);
        crate::ordering::sorted_single(b);
        assert(a.contains(a[0]));
        assert(b.to_multiset().count(a[0]) > 0);
        assert(b.contains(a[0]));
    }
}

/// The composite name is the same for every order of selection, as long
/// as authors that share a nick share their name. Where two authors
/// with one nick differ in name, they are listed in the order selected.
pub proof fn name_ignores_order(a: Seq<AuthorView>, b: Seq<AuthorView>)
    requires
        a.to_multiset() == b.to_multiset(),
        names_follow_nicks(a),
    ensures
        resolved_name(sorted_by_nick(a)) == resolved_name(sorted_by_nick(b)),
{
    broadcast use vstd::seq_lib::group_to_multiset_ensures;

    let x = sorted_by_nick(a);
    let y = sorted_by_nick(b);
    let pair = |author: AuthorView| (author.nick, author.name);
    crate::ordering::sorted_is_an_ascending_permutation(a);
    crate::ordering::sorted_is_an_ascending_permutation(b);
    assert forall|s: Seq<AuthorView>| #[trigger]
        s.to_multiset() == a.to_multiset() implies names_follow_nicks(s) by {
        assert forall|i: int, j: int|
            0 <= i < s.len() && 0 <= j < s.len() && s[i].nick == s[j].nick implies s[i].name
            == s[j].name by {
            assert(s.contains(s[i]) && s.contains(s[j]));
            assert(a.to_multiset().count(s[i]) > 0 && a.to_multiset().count(s[j]) > 0);
            assert(a.contains(s[i]) && a.contains(s[j]));
        }
    }
    assert(names_follow_nicks(x) && names_follow_nicks(y));
    crate::ordering::mapped_permutation(x, y, pair);
    crate::ordering::by_pair_is_total();
    let px = x.map_values(pair);
    let py = y.map_values(pair);
    assert forall|i: int, j: int| 0 <= i < j < px.len() implies #[trigger] crate::ordering::by_pair()(
        px[i],
        px[j],
    ) by {
        crate::text::text_le_reflexive(x[i].name);
    }
    assert forall|i: int, j: int| 0 <= i < j < py.len() implies #[trigger] crate::ordering::by_pair()(
        py[i],
        py[j],
    ) by {
        crate::text::text_le_reflexive(y[i].name);
    }
    vstd::seq_lib::lemma_sorted_unique(px, py, crate::ordering::by_pair());
    assert(names(x) == names(y)) by {
        assert(x.len() == y.len());
        assert forall|i: int| 0 <= i < x.len() implies names(x)[i] == names(y)[i] by {
            assert(px[i] == py[i]);
        }
    }
    if x.len() == 1 {
        assert(names(x)[0] == names(y)[0]);
    }
}

/// A single selected author with a stored email address keeps it.
pub proof fn single_author_keeps_email(author: AuthorView, settings: Settings)
    requires
        author.email is Some,
    ensures
        resolved_email(sorted_by_nick(seq![author]), settings) == author.email->0,
{
    crate::ordering::sorted_single(seq![author]);
}

/// A single selected author without a stored email address gets the
/// nick, `@` and the domain.
pub proof fn single_author_gets_email(author: AuthorView, settings: Settings)
    requires
        author.email is None,
    ensures
        resolved_email(sorted_by_nick(seq![author]), settings) == author.nick + "@"@
            + settings.domain,
{
    crate::ordering::sorted_single(seq![author]);
}

/// Several selected authors get the prefix, the separator, their
/// composite nick, `@` and the domain, whatever addresses are stored.
pub proof fn several_authors_get_email(authors: Seq<AuthorView>, settings: Settings)
    requires
        authors.len() >= 2,
    ensures
        resolved_email(sorted_by_nick(authors), settings) == settings.prefix + settings.separator
            + resolved_nick(sorted_by_nick(authors), settings) + "@"@ + settings.domain,
{
    crate::ordering::sorted_is_an_ascending_permutation(authors);
}

} // verus!
