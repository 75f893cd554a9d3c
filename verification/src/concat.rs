//! Joining pieces of text, with or without something between them.

use crate::text::{join, joined, views};
use vstd::prelude::*;

verus! {

/// Pieces that can be written one after another as a `U`.
pub trait IteratorConcatExt<U> {
    /// The pieces one after another.
    fn concat(self) -> U;

    /// The pieces one after another, with `sep` between neighbours.
    fn connect(self, sep: &str) -> U;
}

impl<'a> IteratorConcatExt<String> for Vec<&'a str> {
    fn concat(self) -> (text: String)
        ensures
            text@ == joined(views(self@), Seq::empty()),
    {
        proof {
            reveal_strlit("");
            assert(""@ == Seq::<char>::empty());
        }
        join(&self, "")
    }

    fn connect(self, sep: &str) -> (text: String)
        ensures
            text@ == joined(views(self@), sep@),
    {
        join(&self, sep)
    }
}

} // verus!
