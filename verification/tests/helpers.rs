use partners::helpers::{
    confirm, confirm_line, query, query_optional, query_required, query_with_default,
};

fn reply(text: &str) -> Option<String> {
    Some(text.to_string())
}

#[test]
fn a_plain_question_shows_its_label() {
    let question = query("Nick");
    assert_eq!(question.line(), "Nick: ");
    assert_eq!(question.answer(reply("bob")), reply("bob"));
    assert_eq!(question.answer(reply("")), None);
    assert_eq!(question.answer(None), None);
    assert_eq!(question.answer(reply(" ")), reply(" "));
}

#[test]
fn an_optional_question_says_so() {
    let question = query_optional("Email");
    assert_eq!(question.label, "Email [optional]");
    assert_eq!(question.line(), "Email [optional]: ");
    assert_eq!(question.answer(reply("a@x.com")), reply("a@x.com"));
    assert_eq!(question.answer(reply("")), None);
    assert_eq!(question.answer(None), None);
}

#[test]
fn a_question_with_a_default_shows_and_uses_it() {
    let question = query_with_default("Email Domain", "example.com");
    assert_eq!(question.label, "Email Domain (example.com)");
    assert_eq!(question.line(), "Email Domain (example.com): ");
    assert_eq!(question.answer(reply("corp.test")), reply("corp.test"));
    assert_eq!(question.answer(reply("")), reply("example.com"));
    assert_eq!(question.answer(None), reply("example.com"));
}

#[test]
fn a_required_answer_must_not_be_blank() {
    assert_eq!(query_required("Nick", reply("bob")), Ok("bob".to_string()));
    assert_eq!(query_required("Nick", reply("")), Err("ERROR: Nick can't be blank".to_string()));
    assert_eq!(query_required("Name", None), Err("ERROR: Name can't be blank".to_string()));
}

#[test]
fn confirmation_takes_a_blank_line_or_y() {
    assert_eq!(confirm_line("do you want to create it?"), "do you want to create it? (Y/n) ");
    assert!(confirm(&reply("")));
    assert!(confirm(&reply("y")));
    assert!(!confirm(&reply("Y")));
    assert!(!confirm(&reply("n")));
    assert!(!confirm(&reply("yes")));
    assert!(!confirm(&reply(" ")));
    assert!(!confirm(&None));
}
