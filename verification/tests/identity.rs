use partners::author::Author;
use partners::author_selection::AuthorSelection;
use partners::config::Config;
use partners::error::PartnersError;

fn settings() -> Config {
    Config {
        domain: "example.com".to_string(),
        prefix: "dev".to_string(),
        separator: "+".to_string(),
    }
}

fn alice() -> Author {
    Author { nick: "alice".to_string(), name: "Alice A".to_string(), email: None }
}

fn bob() -> Author {
    Author {
        nick: "bob".to_string(),
        name: "Bob B".to_string(),
        email: Some("bob@x.com".to_string()),
    }
}

#[test]
fn two_authors_out_of_order_resolve_sorted() {
    let selection = AuthorSelection::new(settings(), vec![bob(), alice()]).unwrap();
    assert_eq!(selection.nick(), "alice+bob");
    assert_eq!(selection.name(), "Alice A, Bob B");
    assert_eq!(selection.email(), "dev+alice+bob@example.com");
}

#[test]
fn single_author_without_email_gets_one() {
    let selection = AuthorSelection::new(settings(), vec![alice()]).unwrap();
    assert_eq!(selection.nick(), "alice");
    assert_eq!(selection.name(), "Alice A");
    assert_eq!(selection.email(), "alice@example.com");
}

#[test]
fn single_author_keeps_stored_email() {
    let selection = AuthorSelection::new(settings(), vec![bob()]).unwrap();
    assert_eq!(selection.nick(), "bob");
    assert_eq!(selection.name(), "Bob B");
    assert_eq!(selection.email(), "bob@x.com");
}

#[test]
fn empty_selection_is_refused() {
    match AuthorSelection::new(settings(), Vec::new()) {
        Err(PartnersError::NoAuthorSpecified) => {}
        _ => panic!("an empty selection must be refused"),
    }
}

#[test]
fn order_of_selection_does_not_matter() {
    let carol = Author { nick: "carol".to_string(), name: "Carol C".to_string(), email: None };
    let orders: Vec<Vec<Author>> = vec![
        vec![alice(), bob(), carol.clone()],
        vec![alice(), carol.clone(), bob()],
        vec![bob(), alice(), carol.clone()],
        vec![bob(), carol.clone(), alice()],
        vec![carol.clone(), alice(), bob()],
        vec![carol.clone(), bob(), alice()],
    ];
    for order in orders {
        let selection = AuthorSelection::new(settings(), order).unwrap();
        assert_eq!(selection.nick(), "alice+bob+carol");
        assert_eq!(selection.name(), "Alice A, Bob B, Carol C");
        assert_eq!(selection.email(), "dev+alice+bob+carol@example.com");
    }
}

#[test]
fn several_authors_ignore_stored_emails() {
    let mut first = alice();
    first.email = Some("alice@home.org".to_string());
    let selection = AuthorSelection::new(settings(), vec![first, bob()]).unwrap();
    assert_eq!(selection.email(), "dev+alice+bob@example.com");
}

#[test]
fn settings_shape_the_identity() {
    let custom = Config {
        domain: "corp.test".to_string(),
        prefix: "pair".to_string(),
        separator: "-".to_string(),
    };
    let selection = AuthorSelection::new(custom, vec![bob(), alice()]).unwrap();
    assert_eq!(selection.nick(), "alice-bob");
    assert_eq!(selection.name(), "Alice A, Bob B");
    assert_eq!(selection.email(), "pair-alice-bob@corp.test");
}

#[test]
fn duplicates_in_a_selection_are_kept() {
    let selection = AuthorSelection::new(settings(), vec![bob(), alice(), bob()]).unwrap();
    assert_eq!(selection.nick(), "alice+bob+bob");
    assert_eq!(selection.name(), "Alice A, Bob B, Bob B");
}

#[test]
fn equal_nicks_keep_the_given_order() {
    let early = Author { nick: "x".to_string(), name: "First".to_string(), email: None };
    let late = Author { nick: "x".to_string(), name: "Second".to_string(), email: None };
    let selection = AuthorSelection::new(settings(), vec![early.clone(), late.clone()]).unwrap();
    assert_eq!(selection.name(), "First, Second");
    let selection = AuthorSelection::new(settings(), vec![late, early]).unwrap();
    assert_eq!(selection.name(), "Second, First");
}

#[test]
fn nicks_sort_as_strings_do() {
    let mut nicks = vec!["bob", "Bob", "alice", "al", "", "zoë", "zoe", "a_b", "a-b", "é", "z", "ab"];
    let authors: Vec<Author> = nicks
        .iter()
        .map(|nick| Author { nick: nick.to_string(), name: nick.to_uppercase(), email: None })
        .collect();
    let selection = AuthorSelection::new(settings(), authors).unwrap();
    nicks.sort();
    assert_eq!(selection.nick(), nicks.join("+"));
}
