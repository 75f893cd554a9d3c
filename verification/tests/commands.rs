use partners::author::Author;
use partners::commands::{current, delete, initial, known, list, proceed, Known, Setting};
use partners::error::PartnersError;
use partners::git::Config;
use partners::memory::MemoryStore;
use partners::store::ConfigStore;

fn file() -> Config {
    Config::File("/tmp/partners.cfg".to_string())
}

fn stocked() -> MemoryStore {
    let mut store = MemoryStore::new();
    let email = Some("bob@x.com".to_string());
    partners::commands::add(&file(), &mut store, "bob".to_string(), "Bob B".to_string(), email)
        .unwrap();
    partners::commands::add(&file(), &mut store, "alice".to_string(), "Alice A".to_string(), None)
        .unwrap();
    store
}

fn value(store: &MemoryStore, scope: &Config, key: &str) -> Option<String> {
    store.get(scope, key).ok()
}

#[test]
fn list_prints_each_author() {
    assert_eq!(
        list(&file(), &stocked()).unwrap(),
        vec!["bob:\n  Name:  Bob B\n  Email: bob@x.com\n", "alice:\n  Name:  Alice A\n"]
    );
    assert_eq!(list(&file(), &MemoryStore::new()).unwrap(), Vec::<String>::new());
    assert_eq!(list(&Config::Global, &stocked()).unwrap(), Vec::<String>::new());
}

#[test]
fn set_writes_globally_and_shows_the_local_identity() {
    let mut store = stocked();
    store.set(&Config::Local, "partners.current", "carol").unwrap();
    store.set(&Config::Local, "user.name", "Carol C").unwrap();
    let shown = partners::commands::set(&file(), &mut store, &["bob", "alice"]).unwrap();
    assert_eq!(shown, "carol:\n  Name:  Carol C\n");
    assert_eq!(value(&store, &Config::Global, "partners.current"), Some("alice+bob".to_string()));
    assert_eq!(value(&store, &Config::Global, "user.name"), Some("Alice A, Bob B".to_string()));
    assert_eq!(value(&store, &Config::Global, "user.email"), Some("dev+alice+bob@example.com".to_string()));
    assert_eq!(current(&store).unwrap(), "carol:\n  Name:  Carol C\n");
}

#[test]
fn set_without_a_local_identity_reports_it_after_writing() {
    let mut store = stocked();
    assert!(matches!(partners::commands::set(&file(), &mut store, &["bob"]), Err(PartnersError::NoGitNick)));
    assert_eq!(value(&store, &Config::Global, "partners.current"), Some("bob".to_string()));
    assert_eq!(value(&store, &Config::Global, "user.email"), Some("bob@x.com".to_string()));
    assert!(matches!(current(&store), Err(PartnersError::NoGitNick)));
}

#[test]
fn set_with_an_unknown_nick_writes_nothing() {
    let mut store = stocked();
    match partners::commands::set(&file(), &mut store, &["bob", "zed"]) {
        Err(PartnersError::AuthorNotFound(nick)) => assert_eq!(nick, "zed"),
        other => panic!("unexpected outcome {:?}", other),
    }
    assert!(matches!(
        partners::commands::set(&file(), &mut store, &[]),
        Err(PartnersError::NoAuthorSpecified)
    ));
    assert_eq!(value(&store, &Config::Global, "partners.current"), None);
    assert_eq!(value(&store, &Config::Global, "user.name"), None);
}

#[test]
fn delete_removes_only_the_named_author() {
    let mut store = stocked();
    delete(&file(), &mut store, "bob").unwrap();
    delete(&file(), &mut store, "bob").unwrap();
    delete(&file(), &mut store, "zed").unwrap();
    assert_eq!(list(&file(), &store).unwrap(), vec!["alice:\n  Name:  Alice A\n"]);
}

#[test]
fn a_fresh_author_becomes_current_and_is_added() {
    let mut store = MemoryStore::new();
    let me = Author { nick: "me".to_string(), name: "My Self".to_string(), email: None };
    initial(&file(), &mut store, &me, true).unwrap();
    assert_eq!(value(&store, &Config::Global, "partners.current"), Some("me".to_string()));
    assert_eq!(value(&store, &Config::Global, "user.name"), Some("My Self".to_string()));
    assert_eq!(value(&store, &Config::Global, "user.email"), Some("me@example.com".to_string()));
    assert_eq!(list(&file(), &store).unwrap(), vec!["me:\n  Name:  My Self\n"]);
}

#[test]
fn a_known_author_is_added_but_not_made_current() {
    let mut store = MemoryStore::new();
    let me = Author {
        nick: "me".to_string(),
        name: "My Self".to_string(),
        email: Some("me@home.org".to_string()),
    };
    initial(&file(), &mut store, &me, false).unwrap();
    assert_eq!(value(&store, &Config::Global, "partners.current"), None);
    assert_eq!(list(&file(), &store).unwrap(), vec!["me:\n  Name:  My Self\n  Email: me@home.org\n"]);
}

#[test]
fn a_listed_author_is_left_as_stored() {
    let mut store = stocked();
    let bob = Author { nick: "bob".to_string(), name: "Someone Else".to_string(), email: None };
    initial(&file(), &mut store, &bob, false).unwrap();
    assert_eq!(value(&store, &file(), "author.bob.name"), Some("Bob B".to_string()));
    assert_eq!(list(&file(), &store).unwrap().len(), 2);
}

#[test]
fn a_fresh_author_uses_the_stored_domain() {
    let mut store = MemoryStore::new();
    Setting::Domain.write(&file(), &mut store, "corp.test").unwrap();
    let me = Author { nick: "me".to_string(), name: "My Self".to_string(), email: None };
    initial(&file(), &mut store, &me, true).unwrap();
    assert_eq!(value(&store, &Config::Global, "user.email"), Some("me@corp.test".to_string()));
}

#[test]
fn a_run_goes_on_only_after_a_yes() {
    assert!(proceed(&Some("".to_string())).is_ok());
    assert!(proceed(&Some("y".to_string())).is_ok());
    assert!(matches!(proceed(&Some("n".to_string())), Err(PartnersError::CannotProcede)));
    assert!(matches!(proceed(&None), Err(PartnersError::CannotProcede)));
}

#[test]
fn setup_goes_through_three_settings() {
    let all = Setting::all();
    assert_eq!(all, vec![Setting::Domain, Setting::Prefix, Setting::Separator]);
    let arguments: Vec<&str> = all.iter().map(|setting| setting.argument()).collect();
    assert_eq!(arguments, vec!["domain", "prefix", "separator"]);
    let labels: Vec<&str> = all.iter().map(|setting| setting.label()).collect();
    assert_eq!(labels, vec!["Email Domain", "Email Prefix", "Separator"]);
    let mut store = MemoryStore::new();
    let defaults: Vec<String> = all.iter().map(|setting| setting.read(&file(), &store)).collect();
    assert_eq!(defaults, vec!["example.com", "dev", "+"]);
    for (setting, value) in all.iter().zip(["corp.test", "team", "&"].iter()) {
        setting.write(&file(), &mut store, value).unwrap();
    }
    let stored: Vec<String> = all.iter().map(|setting| setting.read(&file(), &store)).collect();
    assert_eq!(stored, vec!["corp.test", "team", "&"]);
    assert_eq!(value(&store, &file(), "config.domain"), Some("corp.test".to_string()));
    assert_eq!(value(&store, &file(), "config.prefix"), Some("team".to_string()));
    assert_eq!(value(&store, &file(), "config.separator"), Some("&".to_string()));
}

#[test]
fn the_start_of_a_run_knows_the_identity_or_its_parts() {
    let mut store = MemoryStore::new();
    match known(&store) {
        Known::Parts { nick: None, name: None, email: None } => {}
        other => panic!("unexpected {:?}", other),
    }
    store.set(&Config::Local, "user.name", " My Self ").unwrap();
    store.set(&Config::Local, "user.email", "me@home.org").unwrap();
    store.set(&Config::Global, "partners.current", "elsewhere").unwrap();
    match known(&store) {
        Known::Parts { nick: None, name: Some(name), email: Some(email) } => {
            assert_eq!(name, "My Self");
            assert_eq!(email, "me@home.org");
        }
        other => panic!("unexpected {:?}", other),
    }
    store.set(&Config::Local, "partners.current", "me").unwrap();
    match known(&store) {
        Known::Author(author) => {
            assert_eq!(author.nick, "me");
            assert_eq!(author.name, "My Self");
            assert_eq!(author.email, Some("me@home.org".to_string()));
        }
        other => panic!("unexpected {:?}", other),
    }
}
