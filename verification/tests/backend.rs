use partners::backend::{lines_of, read_result};
use partners::error::PartnersError;
use partners::git::Config;

fn bytes(text: &str) -> Vec<u8> {
    text.as_bytes().to_vec()
}

#[test]
fn output_of_a_successful_call_is_trimmed() {
    assert_eq!(read_result(true, bytes("Alice A\n"), Vec::new()).unwrap(), "Alice A");
    assert_eq!(read_result(true, bytes("  padded \t\n"), bytes("ignored")).unwrap(), "padded");
    assert_eq!(read_result(true, Vec::new(), Vec::new()).unwrap(), "");
    assert_eq!(
        read_result(true, bytes("author.a.name A\nauthor.b.name B\n"), Vec::new()).unwrap(),
        "author.a.name A\nauthor.b.name B"
    );
    assert_eq!(read_result(true, bytes("zoë\n"), Vec::new()).unwrap(), "zoë");
}

#[test]
fn diagnostics_of_a_failed_call_are_kept_word_for_word() {
    match read_result(false, bytes("ignored"), bytes("fatal: no such section: author.x\n")) {
        Err(PartnersError::BackendError(text)) => {
            assert_eq!(text, "fatal: no such section: author.x\n")
        }
        other => panic!("unexpected outcome {:?}", other),
    }
    match read_result(false, Vec::new(), bytes(" ")) {
        Err(PartnersError::BackendError(text)) => assert_eq!(text, " "),
        other => panic!("unexpected outcome {:?}", other),
    }
}

#[test]
fn a_silent_failure_reports_absence() {
    assert!(matches!(read_result(false, Vec::new(), Vec::new()), Err(PartnersError::NotFound)));
    assert!(matches!(read_result(false, bytes("x"), Vec::new()), Err(PartnersError::NotFound)));
}

#[test]
fn output_that_is_not_text_is_an_encoding_error() {
    assert!(matches!(
        read_result(true, vec![0x66, 0xff, 0x6f], Vec::new()),
        Err(PartnersError::EncodingError)
    ));
    assert!(matches!(
        read_result(false, Vec::new(), vec![0xc3, 0x28]),
        Err(PartnersError::EncodingError)
    ));
    assert!(matches!(
        read_result(true, vec![0xed, 0xa0, 0x80], Vec::new()),
        Err(PartnersError::EncodingError)
    ));
    assert_eq!(read_result(true, vec![0xc3, 0xa9], vec![0xff]).unwrap(), "é");
}

#[test]
fn listings_are_cut_into_lines() {
    assert_eq!(lines_of("author.a.name A\nauthor.b.name B"), vec!["author.a.name A", "author.b.name B"]);
    assert_eq!(lines_of("one"), vec!["one"]);
    assert_eq!(lines_of(""), vec![""]);
}

#[test]
fn commands_address_their_scope() {
    let file = Config::File("/home/me/.config/partners/partners.cfg".to_string());
    assert_eq!(file.command(), vec!["git", "config", "-f", "/home/me/.config/partners/partners.cfg"]);
    assert_eq!(Config::Global.command(), vec!["git", "config", "--global"]);
    assert_eq!(Config::Local.command(), vec!["git", "config"]);
}

#[test]
fn commands_name_what_they_do() {
    let file = Config::File("p.cfg".to_string());
    assert_eq!(file.get_command("user.name"), vec!["git", "config", "-f", "p.cfg", "user.name"]);
    assert_eq!(
        Config::Global.set_command("user.name", "Alice A"),
        vec!["git", "config", "--global", "user.name", "Alice A"]
    );
    assert_eq!(
        Config::Local.list_command("author.\\w+.name"),
        vec!["git", "config", "--get-regexp", "author.\\w+.name"]
    );
    assert_eq!(
        file.remove_section_command("author.bob"),
        vec!["git", "config", "-f", "p.cfg", "--remove-section", "author.bob"]
    );
}
