//! What every identity offers, be it one author or several: a nick, a
//! name and an email address.

use vstd::prelude::*;

verus! {

/// An identity under which work can be committed.
pub trait AuthorInformation {
    /// The nick of this identity.
    spec fn nick_text(&self) -> Seq<char>;

    /// The name of this identity.
    spec fn name_text(&self) -> Seq<char>;

    /// The email address of this identity.
    spec fn email_text(&self) -> Seq<char>;

    /// The nick of this identity.
    fn get_nick(&self) -> (nick: String)
        ensures
            nick@ == self.nick_text(),
    ;

    /// The name of this identity.
    fn get_name(&self) -> (name: String)
        ensures
            name@ == self.name_text(),
    ;

    /// The email address of this identity.
    fn get_email(&self) -> (email: String)
        ensures
            email@ == self.email_text(),
    ;
}

} // verus!
