//! The failures this crate reports, their messages and exit codes.

use vstd::prelude::*;

verus! {

/// Why an operation failed.
#[derive(Debug)]
pub enum PartnersError {
    /// The key, or any key matching a pattern, is absent from the store.
    NotFound,
    /// The backend reported a failure; the payload is its diagnostic text.
    BackendError(String),
    /// The backend could not be reached; the payload says why.
    IoError(String),
    /// The backend produced output that is not text.
    EncodingError,
    /// A selection of authors was empty.
    NoAuthorSpecified,
    /// No stored author has this nick.
    AuthorNotFound(String),
    /// The current identity has no nick.
    NoGitNick,
    /// The current identity has no name.
    NoGitName,
    /// The user's home directory could not be determined.
    HomeDirectoryNotFound,
    /// The user declined a step that is required to go on.
    CannotProcede,
}

/// A `PartnersError` with text as sequences of characters.
pub enum ErrorView {
    NotFound,
    BackendError(Seq<char>),
    IoError(Seq<char>),
    EncodingError,
    NoAuthorSpecified,
    AuthorNotFound(Seq<char>),
    NoGitNick,
    NoGitName,
    HomeDirectoryNotFound,
    CannotProcede,
}

impl View for PartnersError {
    type V = ErrorView;

    open spec fn view(&self) -> ErrorView {
        match self {
            PartnersError::NotFound => ErrorView::NotFound,
            PartnersError::BackendError(text) => ErrorView::BackendError(text@),
            PartnersError::IoError(text) => ErrorView::IoError(text@),
            PartnersError::EncodingError => ErrorView::EncodingError,
            PartnersError::NoAuthorSpecified => ErrorView::NoAuthorSpecified,
            PartnersError::AuthorNotFound(nick) => ErrorView::AuthorNotFound(nick@),
            PartnersError::NoGitNick => ErrorView::NoGitNick,
            PartnersError::NoGitName => ErrorView::NoGitName,
            PartnersError::HomeDirectoryNotFound => ErrorView::HomeDirectoryNotFound,
            PartnersError::CannotProcede => ErrorView::CannotProcede,
        }
    }
}

/// The message shown for an error.
pub open spec fn message_of(error: ErrorView) -> Seq<char> {
    match error {
        ErrorView::NotFound => "key is not defined in config file"@,
        ErrorView::BackendError(text) => "git error: "@ + text,
        ErrorView::IoError(text) => text,
        ErrorView::EncodingError => "output of git is not valid text"@,
        ErrorView::NoAuthorSpecified => "no author specified"@,
        ErrorView::AuthorNotFound(nick) => "unable to find author with nick: "@ + nick,
        ErrorView::NoGitNick => "nick name is not defined in config file"@,
        ErrorView::NoGitName => "name is not defined in config file"@,
        ErrorView::HomeDirectoryNotFound => "home directory not found"@,
        ErrorView::CannotProcede => "cannot procede"@,
    }
}

/// The exit code of a run that ended in `error`: 2 when the user declined
/// a required step, 1 otherwise.
pub open spec fn exit_code_of(error: ErrorView) -> u8 {
    if error is CannotProcede {
        2
    } else {
        1
    }
}

impl PartnersError {
    /// The message to show for this error.
    pub fn message(&self) -> (text: String)
        ensures
            text@ == message_of(self@),
    {
        match self {
            PartnersError::NotFound => String::from_str("key is not defined in config file"),
            PartnersError::BackendError(text) => String::from_str("git error: ").concat(
                text.as_str(),
            ),
            PartnersError::IoError(text) => text.clone(),
            PartnersError::EncodingError => String::from_str("output of git is not valid text"),
            PartnersError::NoAuthorSpecified => String::from_str("no author specified"),
            PartnersError::AuthorNotFound(nick) => String::from_str(
                "unable to find author with nick: ",
            ).concat(nick.as_str()),
            PartnersError::NoGitNick => String::from_str("nick name is not defined in config file"),
            PartnersError::NoGitName => String::from_str("name is not defined in config file"),
            PartnersError::HomeDirectoryNotFound => String::from_str("home directory not found"),
            PartnersError::CannotProcede => String::from_str("cannot procede"),
        }
    }

    /// The exit code of a run that ended in this error.
    pub fn exit_code(&self) -> (code: u8)
        ensures
            code == exit_code_of(self@),
    {
        match self {
            PartnersError::CannotProcede => 2,
            _ => 1,
        }
    }
}

/// The exit code of a run: 0 when it succeeded, else that of its error.
pub fn exit_code(outcome: &Result<(), PartnersError>) -> (code: u8)
    ensures
        code == match outcome {
            Ok(_) => 0u8,
            Err(error) => exit_code_of(error@),
        },
{
    match outcome {
        Ok(_) => 0,
        Err(error) => error.exit_code(),
    }
}

/// The line printed on the error stream for `error`: nothing when the user
/// declined a required step, else `ERROR: ` and the message.
pub open spec fn report_of(error: ErrorView) -> Option<Seq<char>> {
    if error is CannotProcede {
        None
    } else {
        Some("ERROR: "@ + message_of(error))
    }
}

/// The line to print on the error stream for `error`, if any.
pub fn report(error: &PartnersError) -> (line: Option<String>)
    ensures
        match line {
            Some(text) => report_of(error@) == Some(text@),
            None => report_of(error@) is None,
        },
{
    match error {
        PartnersError::CannotProcede => None,
        _ => {
            let message = error.message();
            Some(String::from_str("ERROR: ").concat(message.as_str()))
        },
    }
}

/// The user declined a step that is required to go on.
#[derive(Debug, Clone, Copy)]
pub struct CannotProcede;

impl From<CannotProcede> for PartnersError {
    fn from(declined: CannotProcede) -> (error: PartnersError) {
        PartnersError::CannotProcede
    }
}

impl vstd::std_specs::convert::FromSpecImpl<CannotProcede> for PartnersError {
    open spec fn obeys_from_spec() -> bool {
        true
    }

    open spec fn from_spec(declined: CannotProcede) -> PartnersError {
        PartnersError::CannotProcede
    }
}

} // verus!
