//! Author identities for pair and mob programming: a store of named
//! authors, and the rules that merge a selection of them into the one
//! nick, name and email address under which they commit.
//!
//! `author_selection` resolves a selection to its composite identity and
//! proves that the order of selection does not matter. `git` keeps authors
//! and the current identity in a scope of a configuration store; `store`
//! says what such a store is, and `memory` is one. `backend` names the
//! calls to `git config` and reads their outcome, `commands` holds what the
//! commands of the program compute, and `helpers` what its questions to
//! the user amount to.

pub mod author;
pub mod author_information;
pub mod author_selection;
pub mod backend;
pub mod commands;
pub mod concat;
pub mod config;
pub mod error;
pub mod git;
pub mod helpers;
pub mod libgit;
pub mod memory;
pub mod ordering;
pub mod pair;
pub mod pattern;
pub mod store;
pub mod text;
