use partners::author::Author;
use partners::author_selection::AuthorSelection;
use partners::config::Config as Config0;
use partners::error::PartnersError;
use partners::git::{find_in, optional, parse_author_line, pick, required, Config};
use partners::memory::MemoryStore;
use partners::store::ConfigStore;

fn file() -> Config {
    Config::File("/tmp/partners.cfg".to_string())
}

fn author(nick: &str, name: &str, email: Option<&str>) -> Author {
    Author { nick: nick.to_string(), name: name.to_string(), email: email.map(|e| e.to_string()) }
}

fn described(author: &Author) -> (String, String, Option<String>) {
    (author.nick.clone(), author.name.clone(), author.email.clone())
}

/// A store that fails every call with the same diagnostic.
struct BrokenStore;

impl ConfigStore for BrokenStore {
    fn get(&self, _scope: &Config, _key: &str) -> Result<String, PartnersError> {
        Err(PartnersError::BackendError("fatal: unreachable".to_string()))
    }

    fn set(&mut self, _scope: &Config, _key: &str, _value: &str) -> Result<(), PartnersError> {
        Err(PartnersError::BackendError("fatal: unreachable".to_string()))
    }

    fn list(&self, _scope: &Config, _pattern: &str) -> Result<Vec<String>, PartnersError> {
        Err(PartnersError::BackendError("fatal: unreachable".to_string()))
    }

    fn remove_section(&mut self, _scope: &Config, _section: &str) -> Result<(), PartnersError> {
        Err(PartnersError::BackendError("fatal: unreachable".to_string()))
    }
}

#[test]
fn an_added_author_is_listed() {
    let mut store = MemoryStore::new();
    let carol = author("carol", "Carol C", Some("carol@x.com"));
    file().add_author(&mut store, &carol).unwrap();
    let all = file().authors(&store).unwrap();
    assert_eq!(all.len(), 1);
    assert_eq!(described(&all[0]), described(&carol));
}

#[test]
fn an_added_author_without_email_is_listed_without() {
    let mut store = MemoryStore::new();
    file().add_author(&mut store, &author("alice", "Alice A", None)).unwrap();
    let all = file().authors(&store).unwrap();
    assert_eq!(all.len(), 1);
    assert_eq!(described(&all[0]), ("alice".to_string(), "Alice A".to_string(), None));
}

#[test]
fn adding_writes_the_documented_keys() {
    let mut store = MemoryStore::new();
    file().add_author(&mut store, &author("bob", "Bob B", Some("bob@x.com"))).unwrap();
    assert_eq!(store.get(&file(), "author.bob.name").unwrap(), "Bob B");
    assert_eq!(store.get(&file(), "author.bob.email").unwrap(), "bob@x.com");
    assert_eq!(
        store.list(&file(), "author.\\w+.name").unwrap(),
        vec!["author.bob.name Bob B".to_string()]
    );
}

#[test]
fn authors_are_listed_in_the_order_of_the_store() {
    let mut store = MemoryStore::new();
    file().add_author(&mut store, &author("zed", "Zed Z", None)).unwrap();
    file().add_author(&mut store, &author("alice", "Alice A", None)).unwrap();
    file().add_author(&mut store, &author("mike", "Mike M", None)).unwrap();
    let nicks: Vec<String> = file().authors(&store).unwrap().into_iter().map(|a| a.nick).collect();
    assert_eq!(nicks, vec!["zed", "alice", "mike"]);
}

#[test]
fn adding_again_updates_the_name_in_place() {
    let mut store = MemoryStore::new();
    file().add_author(&mut store, &author("alice", "Alice A", None)).unwrap();
    file().add_author(&mut store, &author("bob", "Bob B", None)).unwrap();
    file().add_author(&mut store, &author("alice", "Alice Again", None)).unwrap();
    let all = file().authors(&store).unwrap();
    assert_eq!(all.len(), 2);
    assert_eq!(described(&all[0]), ("alice".to_string(), "Alice Again".to_string(), None));
    assert_eq!(all[1].nick, "bob");
}

#[test]
fn adding_without_email_keeps_the_stored_email() {
    let mut store = MemoryStore::new();
    file().add_author(&mut store, &author("bob", "Bob B", Some("bob@x.com"))).unwrap();
    file().add_author(&mut store, &author("bob", "Robert B", None)).unwrap();
    let all = file().authors(&store).unwrap();
    assert_eq!(
        described(&all[0]),
        ("bob".to_string(), "Robert B".to_string(), Some("bob@x.com".to_string()))
    );
}

#[test]
fn an_empty_store_lists_no_authors() {
    let store = MemoryStore::new();
    assert!(matches!(store.list(&file(), "author.\\w+.name"), Err(PartnersError::NotFound)));
    assert_eq!(file().list(&store, "author.\\w+.name").unwrap(), Vec::<String>::new());
    assert_eq!(file().authors(&store).unwrap().len(), 0);
}

#[test]
fn names_may_hold_spaces() {
    let mut store = MemoryStore::new();
    file().add_author(&mut store, &author("ann", "Ann  van der  Berg", None)).unwrap();
    assert_eq!(file().authors(&store).unwrap()[0].name, "Ann  van der  Berg");
}

#[test]
fn removing_an_unknown_author_succeeds_and_changes_nothing() {
    let mut store = MemoryStore::new();
    file().add_author(&mut store, &author("alice", "Alice A", Some("a@x.com"))).unwrap();
    file().remove_author(&mut store, "nobody").unwrap();
    file().remove_author(&mut store, "nobody").unwrap();
    let all = file().authors(&store).unwrap();
    assert_eq!(all.len(), 1);
    assert_eq!(all[0].email, Some("a@x.com".to_string()));
}

#[test]
fn removing_an_author_removes_name_and_email() {
    let mut store = MemoryStore::new();
    file().add_author(&mut store, &author("alice", "Alice A", Some("a@x.com"))).unwrap();
    file().add_author(&mut store, &author("bob", "Bob B", Some("b@x.com"))).unwrap();
    file().remove_author(&mut store, "alice").unwrap();
    let all = file().authors(&store).unwrap();
    assert_eq!(all.len(), 1);
    assert_eq!(all[0].nick, "bob");
    assert!(matches!(store.get(&file(), "author.alice.name"), Err(PartnersError::NotFound)));
    assert!(matches!(store.get(&file(), "author.alice.email"), Err(PartnersError::NotFound)));
    assert_eq!(store.get(&file(), "author.bob.email").unwrap(), "b@x.com");
    file().remove_author(&mut store, "alice").unwrap();
    assert_eq!(file().authors(&store).unwrap().len(), 1);
}

#[test]
fn removing_an_author_keeps_nicks_that_begin_alike() {
    let mut store = MemoryStore::new();
    file().add_author(&mut store, &author("al", "Al", None)).unwrap();
    file().add_author(&mut store, &author("alice", "Alice A", None)).unwrap();
    file().remove_author(&mut store, "al").unwrap();
    let nicks: Vec<String> = file().authors(&store).unwrap().into_iter().map(|a| a.nick).collect();
    assert_eq!(nicks, vec!["alice"]);
}

#[test]
fn scopes_are_kept_apart() {
    let mut store = MemoryStore::new();
    let other = Config::File("/tmp/other.cfg".to_string());
    file().add_author(&mut store, &author("alice", "Alice A", None)).unwrap();
    other.add_author(&mut store, &author("bob", "Bob B", None)).unwrap();
    Config::Global.add_author(&mut store, &author("carol", "Carol C", None)).unwrap();
    assert_eq!(file().authors(&store).unwrap().len(), 1);
    assert_eq!(other.authors(&store).unwrap()[0].nick, "bob");
    assert_eq!(Config::Global.authors(&store).unwrap()[0].nick, "carol");
    assert_eq!(Config::Local.authors(&store).unwrap().len(), 0);
    other.remove_author(&mut store, "bob").unwrap();
    assert_eq!(file().authors(&store).unwrap().len(), 1);
    assert_eq!(other.authors(&store).unwrap().len(), 0);
}

#[test]
fn find_author_finds_by_nick() {
    let mut store = MemoryStore::new();
    file().add_author(&mut store, &author("alice", "Alice A", None)).unwrap();
    file().add_author(&mut store, &author("bob", "Bob B", Some("bob@x.com"))).unwrap();
    let bob = file().find_author(&store, "bob").unwrap();
    assert_eq!(described(&bob), ("bob".to_string(), "Bob B".to_string(), Some("bob@x.com".to_string())));
    assert!(file().find_author(&store, "bo").is_none());
    assert!(file().find_author(&store, "").is_none());
    assert!(file().find_author(&BrokenStore, "bob").is_none());
}

#[test]
fn find_authors_selects_all_of_them() {
    let mut store = MemoryStore::new();
    file().add_author(&mut store, &author("alice", "Alice A", None)).unwrap();
    file().add_author(&mut store, &author("bob", "Bob B", Some("bob@x.com"))).unwrap();
    let selection = file().find_authors(&store, &["bob", "alice"]).unwrap();
    assert_eq!(selection.nick(), "alice+bob");
    assert_eq!(selection.name(), "Alice A, Bob B");
    assert_eq!(selection.email(), "dev+alice+bob@example.com");
}

#[test]
fn find_authors_reads_the_settings_of_its_scope() {
    let mut store = MemoryStore::new();
    file().add_author(&mut store, &author("alice", "Alice A", None)).unwrap();
    file().add_author(&mut store, &author("bob", "Bob B", None)).unwrap();
    file().set_domain(&mut store, "corp.test").unwrap();
    file().set_prefix(&mut store, "pair").unwrap();
    file().set_separator(&mut store, "_").unwrap();
    Config::Global.set_domain(&mut store, "elsewhere.test").unwrap();
    let selection = file().find_authors(&store, &["bob", "alice"]).unwrap();
    assert_eq!(selection.email(), "pair_alice_bob@corp.test");
    let selection = file().find_authors(&store, &["alice"]).unwrap();
    assert_eq!(selection.email(), "alice@corp.test");
}

#[test]
fn find_authors_names_the_first_unknown_nick() {
    let mut store = MemoryStore::new();
    file().add_author(&mut store, &author("alice", "Alice A", None)).unwrap();
    match file().find_authors(&store, &["alice", "xavier", "yves"]) {
        Err(PartnersError::AuthorNotFound(nick)) => assert_eq!(nick, "xavier"),
        _ => panic!("the first unknown nick must be reported"),
    }
}

#[test]
fn find_authors_refuses_no_nicks() {
    let mut store = MemoryStore::new();
    file().add_author(&mut store, &author("alice", "Alice A", None)).unwrap();
    assert!(matches!(file().find_authors(&store, &[]), Err(PartnersError::NoAuthorSpecified)));
}

#[test]
fn settings_fall_back_to_their_defaults() {
    let mut store = MemoryStore::new();
    assert_eq!(file().domain(&store), "example.com");
    assert_eq!(file().prefix(&store), "dev");
    assert_eq!(file().separator(&store), "+");
    assert_eq!(file().domain(&BrokenStore), "example.com");
    assert_eq!(file().prefix(&BrokenStore), "dev");
    assert_eq!(file().separator(&BrokenStore), "+");
    file().set_domain(&mut store, "corp.test").unwrap();
    file().set_prefix(&mut store, "team").unwrap();
    file().set_separator(&mut store, "-").unwrap();
    assert_eq!(file().domain(&store), "corp.test");
    assert_eq!(file().prefix(&store), "team");
    assert_eq!(file().separator(&store), "-");
    assert_eq!(store.get(&file(), "config.domain").unwrap(), "corp.test");
    assert_eq!(store.get(&file(), "config.prefix").unwrap(), "team");
    assert_eq!(store.get(&file(), "config.separator").unwrap(), "-");
    let settings = file().settings(&store);
    assert_eq!(
        (settings.domain.as_str(), settings.prefix.as_str(), settings.separator.as_str()),
        ("corp.test", "team", "-")
    );
}

#[test]
fn the_current_identity_is_written_and_read_back() {
    let mut store = MemoryStore::new();
    file().add_author(&mut store, &author("alice", "Alice A", None)).unwrap();
    file().add_author(&mut store, &author("bob", "Bob B", None)).unwrap();
    let selection = file().find_authors(&store, &["bob", "alice"]).unwrap();
    Config::Global.set_current_author(&mut store, &selection).unwrap();
    assert_eq!(store.get(&Config::Global, "partners.current").unwrap(), "alice+bob");
    assert_eq!(store.get(&Config::Global, "user.name").unwrap(), "Alice A, Bob B");
    assert_eq!(store.get(&Config::Global, "user.email").unwrap(), "dev+alice+bob@example.com");
    assert_eq!(Config::Global.nick(&store).unwrap(), "alice+bob");
    assert_eq!(Config::Global.user_name(&store).unwrap(), "Alice A, Bob B");
    assert_eq!(Config::Global.user_email(&store).unwrap(), "dev+alice+bob@example.com");
    let current = Config::Global.current_author(&store).unwrap();
    assert_eq!(
        described(&current),
        (
            "alice+bob".to_string(),
            "Alice A, Bob B".to_string(),
            Some("dev+alice+bob@example.com".to_string())
        )
    );
}

#[test]
fn a_current_identity_needs_nick_and_name() {
    let mut store = MemoryStore::new();
    assert!(matches!(Config::Local.current_author(&store), Err(PartnersError::NoGitNick)));
    store.set(&Config::Local, "user.name", "Alice A").unwrap();
    assert!(matches!(Config::Local.current_author(&store), Err(PartnersError::NoGitNick)));
    store.set(&Config::Local, "partners.current", "alice").unwrap();
    let current = Config::Local.current_author(&store).unwrap();
    assert_eq!(described(&current), ("alice".to_string(), "Alice A".to_string(), None));
    let mut nameless = MemoryStore::new();
    nameless.set(&Config::Local, "partners.current", "alice").unwrap();
    nameless.set(&Config::Local, "user.email", "a@x.com").unwrap();
    assert!(matches!(Config::Local.current_author(&nameless), Err(PartnersError::NoGitName)));
}

#[test]
fn failures_of_the_store_are_passed_on() {
    let mut broken = BrokenStore;
    let diagnostic = |error: PartnersError| match error {
        PartnersError::BackendError(text) => text,
        other => panic!("unexpected error {:?}", other),
    };
    assert_eq!(diagnostic(file().authors(&broken).unwrap_err()), "fatal: unreachable");
    assert_eq!(diagnostic(file().list(&broken, "x").unwrap_err()), "fatal: unreachable");
    assert_eq!(diagnostic(file().get(&broken, "x").unwrap_err()), "fatal: unreachable");
    assert_eq!(diagnostic(file().set(&mut broken, "x", "y").unwrap_err()), "fatal: unreachable");
    assert_eq!(diagnostic(Config::Local.current_author(&broken).unwrap_err()), "fatal: unreachable");
    assert_eq!(
        diagnostic(file().add_author(&mut broken, &author("a", "A", None)).unwrap_err()),
        "fatal: unreachable"
    );
    assert_eq!(diagnostic(file().remove_author(&mut broken, "a").unwrap_err()), "fatal: unreachable");
    match file().find_authors(&broken, &["a"]) {
        Err(error) => assert_eq!(diagnostic(error), "fatal: unreachable"),
        Ok(_) => panic!("a broken store finds nobody"),
    }
}

#[test]
fn a_second_write_that_fails_leaves_the_first() {
    let mut store = MemoryStore::failing_after(1);
    let outcome = file().add_author(&mut store, &author("bob", "Bob B", Some("bob@x.com")));
    assert!(matches!(outcome, Err(PartnersError::BackendError(_))));
    assert_eq!(store.get(&file(), "author.bob.name").unwrap(), "Bob B");
    assert!(matches!(store.get(&file(), "author.bob.email"), Err(PartnersError::NotFound)));
}

#[test]
fn a_failed_identity_write_leaves_what_was_written() {
    let mut store = MemoryStore::failing_after(3);
    file().add_author(&mut store, &author("alice", "Alice A", None)).unwrap();
    let selection = file().find_authors(&store, &["alice"]).unwrap();
    let outcome = Config::Global.set_current_author(&mut store, &selection);
    assert!(matches!(outcome, Err(PartnersError::BackendError(_))));
    assert_eq!(store.get(&Config::Global, "partners.current").unwrap(), "alice");
    assert_eq!(store.get(&Config::Global, "user.name").unwrap(), "Alice A");
    assert!(matches!(store.get(&Config::Global, "user.email"), Err(PartnersError::NotFound)));
}

#[test]
fn a_store_out_of_writes_fails_and_keeps_what_it_holds() {
    let mut store = MemoryStore::failing_after(2);
    file().add_author(&mut store, &author("bob", "Bob B", Some("bob@x.com"))).unwrap();
    assert!(matches!(
        file().add_author(&mut store, &author("al", "Al", None)),
        Err(PartnersError::BackendError(_))
    ));
    assert!(matches!(file().remove_author(&mut store, "bob"), Err(PartnersError::BackendError(_))));
    assert!(matches!(file().set_domain(&mut store, "x.test"), Err(PartnersError::BackendError(_))));
    file().remove_author(&mut store, "nobody").unwrap();
    let all = file().authors(&store).unwrap();
    assert_eq!(all.len(), 1);
    assert_eq!(described(&all[0]), ("bob".to_string(), "Bob B".to_string(), Some("bob@x.com".to_string())));
    assert_eq!(file().domain(&store), "example.com");
}

#[test]
fn lines_are_parsed_at_the_first_space_and_the_dots() {
    let parsed = |line: &str| parse_author_line(line);
    assert_eq!(parsed("author.bob.name Bob B"), Some(("bob".to_string(), "Bob B".to_string())));
    assert_eq!(parsed("author.bob.name "), Some(("bob".to_string(), "".to_string())));
    assert_eq!(parsed("author.bob.name  two spaces"), Some(("bob".to_string(), " two spaces".to_string())));
    assert_eq!(parsed("author.bob Bob"), Some(("bob".to_string(), "Bob".to_string())));
    assert_eq!(parsed("author..name X"), Some(("".to_string(), "X".to_string())));
    assert_eq!(parsed("a.b.c.d e f"), Some(("b".to_string(), "e f".to_string())));
    assert_eq!(parsed("author.bob.name"), None);
    assert_eq!(parsed("author Bob"), None);
    assert_eq!(parsed(""), None);
    assert_eq!(parsed(" "), None);
    assert_eq!(parsed(" author.bob.name Bob"), None);
    assert_eq!(parsed("author.zoë.name Zoë"), Some(("zoë".to_string(), "Zoë".to_string())));
}

#[test]
fn find_in_returns_the_first_with_the_nick() {
    let authors = vec![author("a", "First", None), author("b", "B", None), author("a", "Second", None)];
    assert_eq!(find_in(&authors, "a"), Some(0));
    assert_eq!(find_in(&authors, "b"), Some(1));
    assert_eq!(find_in(&authors, "c"), None);
    assert_eq!(find_in(&Vec::new(), "a"), None);
}

#[test]
fn scopes_compare_by_kind_and_path() {
    assert!(Config::Global.same(&Config::Global));
    assert!(Config::Local.same(&Config::Local));
    assert!(!Config::Global.same(&Config::Local));
    assert!(file().same(&Config::File("/tmp/partners.cfg".to_string())));
    assert!(!file().same(&Config::File("/tmp/partners.cfg2".to_string())));
    assert!(!file().same(&Config::Global));
}

#[test]
fn absence_is_no_value_where_a_value_may_be_missing() {
    assert_eq!(optional(Ok("a@x.com".to_string())).unwrap(), Some("a@x.com".to_string()));
    assert_eq!(optional(Ok("".to_string())).unwrap(), Some("".to_string()));
    assert_eq!(optional(Err(PartnersError::NotFound)).unwrap(), None);
    match optional(Err(PartnersError::BackendError("fatal".to_string()))) {
        Err(PartnersError::BackendError(text)) => assert_eq!(text, "fatal"),
        other => panic!("unexpected outcome {:?}", other),
    }
    assert!(matches!(optional(Err(PartnersError::EncodingError)), Err(PartnersError::EncodingError)));
}

#[test]
fn absence_is_an_error_where_a_value_must_be_there() {
    assert_eq!(required(Ok("bob".to_string()), PartnersError::NoGitNick).unwrap(), "bob");
    assert!(matches!(
        required(Err(PartnersError::NotFound), PartnersError::NoGitNick),
        Err(PartnersError::NoGitNick)
    ));
    assert!(matches!(
        required(Err(PartnersError::NotFound), PartnersError::NoGitName),
        Err(PartnersError::NoGitName)
    ));
    match required(Err(PartnersError::BackendError("fatal".to_string())), PartnersError::NoGitNick) {
        Err(PartnersError::BackendError(text)) => assert_eq!(text, "fatal"),
        other => panic!("unexpected outcome {:?}", other),
    }
}

#[test]
fn pick_takes_the_first_author_of_each_nick() {
    let authors = vec![
        author("a", "First", None),
        author("b", "B", Some("b@x.com")),
        author("a", "Second", None),
    ];
    let chosen = pick(&authors, &["b", "a", "b"]).unwrap();
    let names: Vec<String> = chosen.into_iter().map(|a| a.name).collect();
    assert_eq!(names, vec!["B", "First", "B"]);
    assert_eq!(pick(&authors, &[]).unwrap().len(), 0);
    match pick(&authors, &["a", "x", "y"]) {
        Err(PartnersError::AuthorNotFound(nick)) => assert_eq!(nick, "x"),
        _ => panic!("the first unknown nick must be reported"),
    }
}

#[test]
fn a_store_without_writes_refuses_the_first() {
    let mut store = MemoryStore::failing_after(0);
    match store.set(&file(), "user.name", "Alice A") {
        Err(PartnersError::BackendError(text)) => assert_eq!(text, "error: no more writes"),
        other => panic!("unexpected outcome {:?}", other),
    }
    assert!(matches!(store.remove_section(&file(), "user"), Err(PartnersError::BackendError(_))));
    assert!(matches!(store.get(&file(), "user.name"), Err(PartnersError::NotFound)));
    let mut store = MemoryStore::failing_after(1);
    store.set(&file(), "user.name", "Alice A").unwrap();
    assert!(store.set(&file(), "user.name", "Bob B").is_err());
    assert_eq!(store.get(&file(), "user.name").unwrap(), "Alice A");
}

#[test]
fn values_are_read_without_white_space_at_their_ends() {
    let mut store = MemoryStore::new();
    store.set(&file(), "user.name", "  Alice A \t").unwrap();
    assert_eq!(store.get(&file(), "user.name").unwrap(), "Alice A");
    assert_eq!(file().get(&store, "user.name").unwrap(), "Alice A");
    file().set_domain(&mut store, " corp.test\n").unwrap();
    assert_eq!(file().domain(&store), "corp.test");
    store.set(&file(), "user.email", "   ").unwrap();
    assert_eq!(store.get(&file(), "user.email").unwrap(), "");
    file().add_author(&mut store, &author("bob", "Bob B", Some(" bob@x.com "))).unwrap();
    assert_eq!(file().authors(&store).unwrap()[0].email, Some("bob@x.com".to_string()));
}

#[test]
fn a_listing_is_trimmed_as_a_whole_and_cut_into_lines() {
    let mut store = MemoryStore::new();
    file().add_author(&mut store, &author("al", " Al ", None)).unwrap();
    file().add_author(&mut store, &author("bob", "Bob B  ", None)).unwrap();
    assert_eq!(
        store.list(&file(), "author.\\w+.name").unwrap(),
        vec!["author.al.name  Al ".to_string(), "author.bob.name Bob B".to_string()]
    );
    let all = file().authors(&store).unwrap();
    assert_eq!(all[0].name, " Al ");
    assert_eq!(all[1].name, "Bob B");
    let mut broken = MemoryStore::new();
    file().add_author(&mut broken, &author("al", "Al\nauthor.x.name X", None)).unwrap();
    let nicks: Vec<String> = file().authors(&broken).unwrap().into_iter().map(|a| a.nick).collect();
    assert_eq!(nicks, vec!["al", "x"]);
    let mut nameless = MemoryStore::new();
    file().add_author(&mut nameless, &author("al", "", None)).unwrap();
    assert_eq!(store.list(&file(), "nothing").unwrap_err().message(), "key is not defined in config file");
    assert_eq!(file().authors(&nameless).unwrap().len(), 0);
}

#[test]
fn a_refused_write_fails_with_the_error_of_the_store() {
    let bob = author("bob", "Bob B", Some("bob@x.com"));
    let mut store = MemoryStore::failing_after(0);
    match file().add_author(&mut store, &bob) {
        Err(PartnersError::BackendError(text)) => assert_eq!(text, "error: no more writes"),
        other => panic!("unexpected outcome {:?}", other),
    }
    assert!(matches!(store.get(&file(), "author.bob.name"), Err(PartnersError::NotFound)));
    let mut store = MemoryStore::failing_after(2);
    file().add_author(&mut store, &bob).unwrap();
    match file().remove_author(&mut store, "bob") {
        Err(PartnersError::BackendError(text)) => assert_eq!(text, "error: no more writes"),
        other => panic!("unexpected outcome {:?}", other),
    }
    assert_eq!(file().authors(&store).unwrap().len(), 1);
    let mut store = MemoryStore::failing_after(1);
    let selection = AuthorSelection::new(Config0::default(), vec![bob]).unwrap();
    match Config::Global.set_current_author(&mut store, &selection) {
        Err(PartnersError::BackendError(text)) => assert_eq!(text, "error: no more writes"),
        other => panic!("unexpected outcome {:?}", other),
    }
    assert_eq!(store.get(&Config::Global, "partners.current").unwrap(), "bob");
    assert!(matches!(store.get(&Config::Global, "user.name"), Err(PartnersError::NotFound)));
    assert!(matches!(store.get(&Config::Global, "user.email"), Err(PartnersError::NotFound)));
}

#[test]
fn an_added_author_is_listed_once() {
    let mut store = MemoryStore::new();
    file().add_author(&mut store, &author("alice", "Alice A", None)).unwrap();
    file().add_author(&mut store, &author("bob", "Bob B", Some("bob@x.com"))).unwrap();
    file().add_author(&mut store, &author("bob", "Bob B", Some("bob@x.com"))).unwrap();
    let all = file().authors(&store).unwrap();
    let bobs: Vec<&Author> = all.iter().filter(|a| a.nick == "bob").collect();
    assert_eq!(bobs.len(), 1);
    assert_eq!(described(bobs[0]), described(&author("bob", "Bob B", Some("bob@x.com"))));
}

#[test]
fn a_second_removal_changes_nothing() {
    let mut store = MemoryStore::new();
    file().add_author(&mut store, &author("alice", "Alice A", None)).unwrap();
    file().add_author(&mut store, &author("bob", "Bob B", Some("bob@x.com"))).unwrap();
    file().remove_author(&mut store, "bob").unwrap();
    let after_first = store.list(&file(), ".").unwrap();
    file().remove_author(&mut store, "bob").unwrap();
    assert_eq!(store.list(&file(), ".").unwrap(), after_first);
    assert_eq!(after_first, vec!["author.alice.name Alice A".to_string()]);
}
