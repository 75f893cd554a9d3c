//! Authors working together, named in the order given.

use crate::author::{name_parts, nick_parts, views_of, Author, AuthorView};
use crate::author_information::AuthorInformation;
use crate::author_selection::{names, nicks};
use crate::config::Config;
use crate::text::{join, joined};
use std::rc::Rc;
use vstd::prelude::*;

verus! {

/// Authors that act as one, in the order given, with the settings that
/// shape their identity.
#[derive(Debug)]
pub struct Pair<'a> {
    pub config: Rc<Config>,
    pub authors: &'a [&'a Author],
}

/// The views of a sequence of borrowed authors.
pub open spec fn borrowed_views(authors: Seq<&Author>) -> Seq<AuthorView> {
    authors.map_values(|author: &Author| author@)
}

impl<'a> Pair<'a> {
    /// The authors of the pair, in the order given.
    pub open spec fn records(&self) -> Seq<AuthorView> {
        borrowed_views(self.authors@)
    }

    /// The nicks of the pair, joined with the separator.
    pub open spec fn joined_nicks(&self) -> Seq<char> {
        joined(nicks(self.records()), self.config@.separator)
    }
}

impl<'a> AuthorInformation for Pair<'a> {
    open spec fn nick_text(&self) -> Seq<char> {
        self.joined_nicks()
    }

    open spec fn name_text(&self) -> Seq<char> {
        joined(names(self.records()), " and "@)
    }

    open spec fn email_text(&self) -> Seq<char> {
        self.config@.prefix + self.config@.separator + self.joined_nicks() + "@"@
            + self.config@.domain
    }

    fn get_nick(&self) -> (nick: String) {
        let parts = nick_parts(self.authors);
        proof {
            assert(views_of(self.authors@) == borrowed_views(self.authors@));
        }
        join(&parts, self.config.separator.as_str())
    }

    fn get_name(&self) -> (name: String) {
        let parts = name_parts(self.authors);
        proof {
            assert(views_of(self.authors@) == borrowed_views(self.authors@));
        }
        join(&parts, " and ")
    }

    fn get_email(&self) -> (email: String) {
        let nick = self.get_nick();
        let mut email = self.config.prefix.clone();
        email.append(self.config.separator.as_str());
        email.append(nick.as_str());
        email.append("@");
        email.append(self.config.domain.as_str());
        email
    }
}

} // verus!
