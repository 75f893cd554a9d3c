use partners::pattern::{class_admits, is_match, parse, word, Atom, Class};

fn described(atoms: &Vec<Atom>) -> Vec<(String, bool)> {
    atoms
        .iter()
        .map(|atom| {
            let class = match atom.class {
                Class::Any => "any".to_string(),
                Class::Word => "word".to_string(),
                Class::Exactly(c) => c.to_string(),
            };
            (class, atom.repeated)
        })
        .collect()
}

fn matches_key(pattern: &str, key: &str) -> bool {
    is_match(&parse(pattern), key)
}

#[test]
fn the_author_pattern_is_read_atom_by_atom() {
    let atoms = parse("author.\\w+.name");
    let expected: Vec<(String, bool)> = vec![
        ("a", false), ("u", false), ("t", false), ("h", false), ("o", false), ("r", false),
        ("any", false), ("word", true), ("any", false),
        ("n", false), ("a", false), ("m", false), ("e", false),
    ]
    .into_iter()
    .map(|(class, repeated)| (class.to_string(), repeated))
    .collect();
    assert_eq!(described(&atoms), expected);
}

#[test]
fn patterns_are_read_leniently() {
    assert_eq!(described(&parse("")), Vec::<(String, bool)>::new());
    assert_eq!(described(&parse("+")), vec![("+".to_string(), false)]);
    assert_eq!(described(&parse("++")), vec![("+".to_string(), true)]);
    assert_eq!(described(&parse("\\")), vec![("\\".to_string(), false)]);
    assert_eq!(described(&parse("\\.")), vec![(".".to_string(), false)]);
    assert_eq!(described(&parse("\\++")), vec![("+".to_string(), true)]);
    assert_eq!(described(&parse(".+x")), vec![("any".to_string(), true), ("x".to_string(), false)]);
    assert_eq!(described(&parse("a\\w")), vec![("a".to_string(), false), ("word".to_string(), false)]);
}

#[test]
fn name_keys_match_the_author_pattern() {
    assert!(matches_key("author.\\w+.name", "author.bob.name"));
    assert!(matches_key("author.\\w+.name", "author.a.name"));
    assert!(matches_key("author.\\w+.name", "author.Bob_2.name"));
    assert!(!matches_key("author.\\w+.name", "author..name"));
    assert!(!matches_key("author.\\w+.name", "author.bob.email"));
    assert!(!matches_key("author.\\w+.name", "author.bob smith.name"));
    assert!(!matches_key("author.\\w+.name", "author.a.b.name"));
    assert!(!matches_key("author.\\w+.name", "author.zoë.name"));
    assert!(!matches_key("author.\\w+.name", "user.name"));
    assert!(!matches_key("author.\\w+.name", ""));
}

#[test]
fn a_pattern_may_match_any_part_of_a_key() {
    assert!(matches_key("author.\\w+.name", "coauthor.bob.names"));
    assert!(matches_key("b", "abc"));
    assert!(matches_key("", "abc"));
    assert!(matches_key("", ""));
    assert!(matches_key("c", "abc"));
    assert!(!matches_key("d", "abc"));
    assert!(matches_key("a.c", "xabcx"));
    assert!(!matches_key("a.c", "ac"));
    assert!(matches_key("a.+c", "abbbc"));
    assert!(!matches_key("a.+c", "ac"));
    assert!(matches_key("a+b", "aaab"));
    assert!(matches_key("\\w+\\.\\w+", "user.name"));
    assert!(!matches_key("\\w+\\.\\w+", "username"));
}

#[test]
fn word_characters_are_ascii() {
    for c in ['a', 'z', 'A', 'Z', '0', '9', '_'] {
        assert!(word(c));
    }
    for c in ['-', '.', ' ', 'é', '+', '@', '`', '{', '[', '/', ':'] {
        assert!(!word(c));
    }
    assert!(class_admits(Class::Any, 'é'));
    assert!(class_admits(Class::Word, 'x'));
    assert!(!class_admits(Class::Word, '-'));
    assert!(class_admits(Class::Exactly('-'), '-'));
    assert!(!class_admits(Class::Exactly('-'), '+'));
}
