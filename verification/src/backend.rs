//! What is said to the `git config` tool and what is made of its
//! answers. Running the tool is left to the caller: these functions name
//! the arguments of each call and read the outcome of one.

use crate::error::{ErrorView, PartnersError};
use crate::git::{Config, Scope};
use crate::text::{split, split_on, trim, trimmed};
use vstd::prelude::*;
use vstd::utf8::{decode_utf8, valid_utf8};

verus! {

/// The program and the arguments that address `scope`.
pub open spec fn command_of(scope: Scope) -> Seq<Seq<char>> {
    match scope {
        Scope::File(path) => seq!["git"@, "config"@, "-f"@, path],
        Scope::Global => seq!["git"@, "config"@, "--global"@],
        Scope::Local => seq!["git"@, "config"@],
    }
}

/// What a finished call yields. A call that succeeded yields what it
/// printed, without the white space at either end. One that failed
/// yields what it wrote as a diagnostic, word for word; one that failed
/// without a word has found nothing. Output that is not UTF-8 is an
/// error of its own.
pub open spec fn outcome_of(success: bool, stdout: Seq<u8>, stderr: Seq<u8>) -> Result<
    Seq<char>,
    ErrorView,
> {
    if success {
        if valid_utf8(stdout) {
            Ok(trimmed(decode_utf8(stdout)))
        } else {
            Err(ErrorView::EncodingError)
        }
    } else if valid_utf8(stderr) {
        if decode_utf8(stderr).len() == 0 {
            Err(ErrorView::NotFound)
        } else {
            Err(ErrorView::BackendError(decode_utf8(stderr)))
        }
    } else {
        Err(ErrorView::EncodingError)
    }
}

/// Decodes bytes with `String::from_utf8`: the text that the bytes encode
/// where they are valid UTF-8, and nothing where they are not.
#[verifier::external_body]
fn decode(bytes: Vec<u8>) -> (text: Option<String>)
    ensures
        match text {
            Some(text) => valid_utf8(bytes@) && text@ == decode_utf8(bytes@),
            None => !valid_utf8(bytes@),
        },
{
    String::from_utf8(bytes).ok()
}

/// Reads the outcome of a finished call from its exit status and what it
/// wrote to its two streams.
pub fn read_result(success: bool, stdout: Vec<u8>, stderr: Vec<u8>) -> (outcome: Result<
    String,
    PartnersError,
>)
    ensures
        match outcome {
            Ok(text) => outcome_of(success, stdout@, stderr@) == Ok::<Seq<char>, ErrorView>(text@),
            Err(error) => outcome_of(success, stdout@, stderr@) == Err::<Seq<char>, ErrorView>(
                error@,
            ),
        },
{
    if success {
        match decode(stdout) {
            Some(text) => Ok(trim(text.as_str())),
            None => Err(PartnersError::EncodingError),
        }
    } else {
        match decode(stderr) {
            Some(text) => {
                if text.as_str().unicode_len() == 0 {
                    Err(PartnersError::NotFound)
                } else {
                    Err(PartnersError::BackendError(text))
                }
            },
            None => Err(PartnersError::EncodingError),
        }
    }
}

/// The lines of the output of a listing.
pub fn lines_of(output: &str) -> (lines: Vec<String>)
    ensures
        lines.deep_view() == split_on(output@, '\n'),
{
    split(output, '\n')
}

/// Copies `args` and puts `more` behind them.
fn extended(args: Vec<String>, more: &str) -> (all: Vec<String>)
    ensures
        all.deep_view() == args.deep_view().push(more@),
{
    let mut all = args;
    let ghost before = all.deep_view();
    all.push(String::from_str(more));
    proof {
        assert(all.deep_view() == before.push(more@));
    }
    all
}

impl Config {
    /// The program and the arguments that address this scope.
    pub fn command(&self) -> (args: Vec<String>)
        ensures
            args.deep_view() == command_of(self@),
    {
        let args: Vec<String> = Vec::new();
        proof {
            assert(args.deep_view() == Seq::<Seq<char>>::empty());
        }
        let args = extended(extended(args, "git"), "config");
        match self {
            Config::File(path) => extended(extended(args, "-f"), path.as_str()),
            Config::Global => extended(args, "--global"),
            Config::Local => args,
        }
    }

    /// The call that reads the value of `key`.
    pub fn get_command(&self, key: &str) -> (args: Vec<String>)
        ensures
            args.deep_view() == command_of(self@).push(key@),
    {
        extended(self.command(), key)
    }

    /// The call that writes `value` for `key`.
    pub fn set_command(&self, key: &str, value: &str) -> (args: Vec<String>)
        ensures
            args.deep_view() == command_of(self@).push(key@).push(value@),
    {
        extended(extended(self.command(), key), value)
    }

    /// The call that lists the keys that match `pattern`.
    pub fn list_command(&self, pattern: &str) -> (args: Vec<String>)
        ensures
            args.deep_view() == command_of(self@).push("--get-regexp"@).push(pattern@),
    {
        extended(extended(self.command(), "--get-regexp"), pattern)
    }

    /// The call that removes `section`.
    pub fn remove_section_command(&self, section: &str) -> (args: Vec<String>)
        ensures
            args.deep_view() == command_of(self@).push("--remove-section"@).push(section@),
    {
        extended(extended(self.command(), "--remove-section"), section)
    }
}

} // verus!
