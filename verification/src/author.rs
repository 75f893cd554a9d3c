//! One author: a nick that identifies it, a display name, and an email
//! address where one is known.

use std::cmp::Ordering;
use vstd::prelude::*;

verus! {

/// A recorded author. Two authors are the same author when their nicks
/// are equal.
#[derive(Debug)]
pub struct Author {
    pub nick: String,
    pub name: String,
    pub email: Option<String>,
}

/// An `Author` with text as sequences of characters.
pub struct AuthorView {
    pub nick: Seq<char>,
    pub name: Seq<char>,
    pub email: Option<Seq<char>>,
}

/// The view of an optional string.
pub open spec fn optional_text(text: Option<String>) -> Option<Seq<char>> {
    match text {
        Some(text) => Some(text@),
        None => None,
    }
}

impl View for Author {
    type V = AuthorView;

    open spec fn view(&self) -> AuthorView {
        AuthorView { nick: self.nick@, name: self.name@, email: optional_text(self.email) }
    }
}

/// The views of a sequence of authors.
pub open spec fn author_views(authors: Seq<Author>) -> Seq<AuthorView> {
    authors.map_values(|author: Author| author@)
}

/// What is printed for an author: the nick and a colon, the name, and the
/// email address where there is one, each on a line of its own.
pub open spec fn text_of(author: AuthorView) -> Seq<char> {
    let head = author.nick + ":\n  Name:  "@ + author.name + "\n"@;
    match author.email {
        Some(email) => head + "  Email: "@ + email + "\n"@,
        None => head,
    }
}

impl Clone for Author {
    fn clone(&self) -> (copy: Author)
        ensures
            copy@ == self@,
    {
        let email = match &self.email {
            Some(email) => Some(email.clone()),
            None => None,
        };
        Author { nick: self.nick.clone(), name: self.name.clone(), email }
    }
}

impl PartialEq for Author {
    fn eq(&self, other: &Author) -> (same: bool) {
        self.nick == other.nick
    }
}

impl vstd::std_specs::cmp::PartialEqSpecImpl for Author {
    open spec fn obeys_eq_spec() -> bool {
        true
    }

    open spec fn eq_spec(&self, other: &Author) -> bool {
        self.nick@ == other.nick@
    }
}

impl Eq for Author {

}

impl PartialOrd for Author {
    fn partial_cmp(&self, other: &Author) -> (order: Option<Ordering>) {
        proof {
            crate::text::text_le_reflexive(self@.nick);
        }
        if !self.precedes(other) {
            Some(Ordering::Greater)
        } else if other.precedes(self) {
            proof {
                crate::text::text_le_antisymmetric(self@.nick, other@.nick);
            }
            Some(Ordering::Equal)
        } else {
            Some(Ordering::Less)
        }
    }
}

impl vstd::std_specs::cmp::PartialOrdSpecImpl for Author {
    open spec fn obeys_partial_cmp_spec() -> bool {
        true
    }

    open spec fn partial_cmp_spec(&self, other: &Author) -> Option<Ordering> {
        if self.nick@ == other.nick@ {
            Some(Ordering::Equal)
        } else if crate::text::text_le(self.nick@, other.nick@) {
            Some(Ordering::Less)
        } else {
            Some(Ordering::Greater)
        }
    }
}

impl Author {
    /// The text to print for this author.
    pub fn to_text(&self) -> (text: String)
        ensures
            text@ == text_of(self@),
    {
        let mut text = self.nick.clone();
        text.append(":\n  Name:  ");
        text.append(self.name.as_str());
        text.append("\n");
        match &self.email {
            Some(email) => {
                text.append("  Email: ");
                text.append(email.as_str());
                text.append("\n");
            },
            None => {},
        }
        text
    }

    /// Whether this author's nick comes at or before `other`'s.
    pub fn precedes(&self, other: &Author) -> (at_most: bool)
        ensures
            at_most == crate::text::text_le(self@.nick, other@.nick),
    {
        crate::text::le(self.nick.as_str(), other.nick.as_str())
    }
}

/// Something that is an author or refers to one.
pub trait AsAuthor {
    /// The author, as a view.
    spec fn author_view(&self) -> AuthorView;

    /// The author.
    fn author(&self) -> (author: &Author)
        ensures
            author@ == self.author_view(),
    ;
}

impl AsAuthor for Author {
    open spec fn author_view(&self) -> AuthorView {
        self@
    }

    fn author(&self) -> (author: &Author) {
        self
    }
}

impl<'a> AsAuthor for &'a Author {
    open spec fn author_view(&self) -> AuthorView {
        self@
    }

    fn author(&self) -> (author: &Author) {
        *self
    }
}

/// The views of a sequence of things that are authors.
pub open spec fn views_of<T: AsAuthor>(authors: Seq<T>) -> Seq<AuthorView> {
    authors.map_values(|author: T| author.author_view())
}

/// The names of `authors`, in order.
pub(crate) fn name_parts<'a, T: AsAuthor>(authors: &'a [T]) -> (parts: Vec<&'a str>)
    ensures
        crate::text::views(parts@) == views_of(authors@).map_values(
            |author: AuthorView| author.name,
        ),
{
    let ghost all = views_of(authors@).map_values(|author: AuthorView| author.name);
    let mut parts: Vec<&'a str> = Vec::new();
    let mut i: usize = 0;
    while i < authors.len()
        invariant
            i <= authors.len(),
            all == views_of(authors@).map_values(|author: AuthorView| author.name),
            crate::text::views(parts@) == all.take(i as int),
        decreases authors.len() - i,
    {
        let ghost before = parts@;
        let author = authors[i].author();
        parts.push(author.name.as_str());
        proof {
            assert(all[i as int] == author@.name);
            assert(all.take(i + 1) == all.take(i as int).push(all[i as int]));
            assert(crate::text::views(parts@) == crate::text::views(before).push(author.name@));
        }
        i += 1;
    }
    proof {
        assert(all.take(i as int) == all);
    }
    parts
}

/// The nicks of `authors`, in order.
pub(crate) fn nick_parts<'a, T: AsAuthor>(authors: &'a [T]) -> (parts: Vec<&'a str>)
    ensures
        crate::text::views(parts@) == views_of(authors@).map_values(
            |author: AuthorView| author.nick,
        ),
{
    let ghost all = views_of(authors@).map_values(|author: AuthorView| author.nick);
    let mut parts: Vec<&'a str> = Vec::new();
    let mut i: usize = 0;
    while i < authors.len()
        invariant
            i <= authors.len(),
            all == views_of(authors@).map_values(|author: AuthorView| author.nick),
            crate::text::views(parts@) == all.take(i as int),
        decreases authors.len() - i,
    {
        let ghost before = parts@;
        let author = authors[i].author();
        parts.push(author.nick.as_str());
        proof {
            assert(all[i as int] == author@.nick);
            assert(all.take(i + 1) == all.take(i as int).push(all[i as int]));
            assert(crate::text::views(parts@) == crate::text::views(before).push(author.nick@));
        }
        i += 1;
    }
    proof {
        assert(all.take(i as int) == all);
    }
    parts
}

} // verus!
