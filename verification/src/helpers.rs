//! Questions put to the user at the terminal: what is shown, and what an
//! answer amounts to. Showing and reading are left to the caller.

use crate::author::optional_text;
use crate::text::equal;
use vstd::prelude::*;

verus! {

/// A question: the label to show, and the value that stands in for an
/// answer left blank.
#[derive(Debug)]
pub struct Query {
    pub label: String,
    pub default: Option<String>,
}

/// A `Query` with text as sequences of characters.
pub struct QueryView {
    pub label: Seq<char>,
    pub default: Option<Seq<char>>,
}

impl View for Query {
    type V = QueryView;

    open spec fn view(&self) -> QueryView {
        QueryView { label: self.label@, default: optional_text(self.default) }
    }
}

/// What a reply to a question amounts to: the reply, or the default of
/// the question where there is no reply or a blank one.
pub open spec fn answer_to(question: QueryView, reply: Option<Seq<char>>) -> Option<Seq<char>> {
    match reply {
        Some(text) => if text.len() == 0 {
            question.default
        } else {
            Some(text)
        },
        None => question.default,
    }
}

/// Whether a reply to a yes-or-no question means yes: a blank line or a
/// `y`.
pub open spec fn means_yes(reply: Option<Seq<char>>) -> bool {
    match reply {
        Some(text) => text.len() == 0 || text == "y"@,
        None => false,
    }
}

/// The question that asks for `prompt`, without a default.
pub fn query(prompt: &str) -> (question: Query)
    ensures
        question@ == (QueryView { label: prompt@, default: None }),
{
    Query { label: String::from_str(prompt), default: None }
}

/// The question that asks for `prompt` and says that it may be left
/// blank.
pub fn query_optional(prompt: &str) -> (question: Query)
    ensures
        question@ == (QueryView { label: prompt@ + " [optional]"@, default: None }),
{
    Query { label: String::from_str(prompt).concat(" [optional]"), default: None }
}

/// The question that asks for `prompt`, shows `default` in brackets and
/// takes it for a blank answer.
pub fn query_with_default(prompt: &str, default: &str) -> (question: Query)
    ensures
        question@ == (QueryView {
            label: prompt@ + " ("@ + default@ + ")"@,
            default: Some(default@),
        }),
{
    let mut label = String::from_str(prompt);
    label.append(" (");
    label.append(default);
    label.append(")");
    Query { label, default: Some(String::from_str(default)) }
}

/// The error shown when a required answer was left blank.
pub open spec fn blank_error(prompt: Seq<char>) -> Seq<char> {
    "ERROR: "@ + prompt + " can't be blank"@
}

/// One round of asking for a required value: the reply where there is
/// one, else the error to show before asking again.
pub fn query_required(prompt: &str, reply: Option<String>) -> (round: Result<String, String>)
    ensures
        match round {
            Ok(value) => answer_to(
                QueryView { label: prompt@, default: None },
                optional_text(reply),
            ) == Some(value@),
            Err(error) => {
                &&& answer_to(QueryView { label: prompt@, default: None }, optional_text(reply))
                    is None
                &&& error@ == blank_error(prompt@)
            },
        },
{
    match query(prompt).answer(reply) {
        Some(value) => Ok(value),
        None => {
            let mut error = String::from_str("ERROR: ");
            error.append(prompt);
            error.append(" can't be blank");
            Err(error)
        },
    }
}

/// The text that asks a yes-or-no question.
pub fn confirm_line(prompt: &str) -> (line: String)
    ensures
        line@ == prompt@ + " (Y/n) "@,
{
    String::from_str(prompt).concat(" (Y/n) ")
}

/// Whether the reply to a yes-or-no question means yes.
pub fn confirm(reply: &Option<String>) -> (yes: bool)
    ensures
        yes == means_yes(optional_text(*reply)),
{
    match reply {
        Some(text) => text.as_str().unicode_len() == 0 || equal(text.as_str(), "y"),
        None => false,
    }
}

impl Query {
    /// The text that asks this question.
    pub fn line(&self) -> (line: String)
        ensures
            line@ == self@.label + ": "@,
    {
        self.label.clone().concat(": ")
    }

    /// What `reply` to this question amounts to.
    pub fn answer(&self, reply: Option<String>) -> (value: Option<String>)
        ensures
            optional_text(value) == answer_to(self@, optional_text(reply)),
    {
        match reply {
            Some(text) => {
                if text.as_str().unicode_len() == 0 {
                    self.default.clone()
                } else {
                    Some(text)
                }
            },
            None => self.default.clone(),
        }
    }
}

} // verus!
