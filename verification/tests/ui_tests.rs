use rustpass::cli::{parse_args, Command};
use rustpass::fuzzy::{fuzzy_match, verify_password};
use rustpass::modal::{ConfirmationType, InputType, Modal, ModalType};
use rustpass::models::{Metadata, PasswordEntry};

fn args(list: &[&str]) -> Vec<String> {
    list.iter().map(|s| String::from(*s)).collect()
}

#[test]
fn test_parse_args() {
    assert!(matches!(parse_args(args(&["rsp"])), Command::Invalid));
    assert!(matches!(parse_args(args(&["rsp", "list"])), Command::List));
    assert!(matches!(parse_args(args(&["rsp", "lock"])), Command::Lock));
    assert!(matches!(parse_args(args(&["rsp", "help"])), Command::Help));
    assert!(matches!(parse_args(args(&["rsp", "tui"])), Command::Tui));
    assert!(matches!(parse_args(args(&["rsp", "nonsense"])), Command::Invalid));

    match parse_args(args(&["rsp", "add", "site", "user", "secret"])) {
        Command::Add { name, password } => {
            assert_eq!(name, "site");
            assert_eq!(password, "secret");
        }
        _ => panic!("expected Add"),
    }
    assert!(matches!(parse_args(args(&["rsp", "add", "site"])), Command::Invalid));

    match parse_args(args(&["rsp", "remove", "site"])) {
        Command::Remove { name } => assert_eq!(name, "site"),
        _ => panic!("expected Remove"),
    }
    assert!(matches!(parse_args(args(&["rsp", "remove"])), Command::Invalid));

    match parse_args(args(&["rsp", "unlock", "pw"])) {
        Command::Unlock { password } => assert_eq!(password.unwrap(), "pw"),
        _ => panic!("expected Unlock"),
    }
    match parse_args(args(&["rsp", "unlock"])) {
        Command::Unlock { password } => assert!(password.is_none()),
        _ => panic!("expected Unlock"),
    }

    assert!(matches!(parse_args(args(&["rsp", "daemon", "start"])), Command::StartDaemon));
    assert!(matches!(parse_args(args(&["rsp", "daemon", "stop"])), Command::StopDaemon));
    assert!(matches!(parse_args(args(&["rsp", "daemon", "status"])), Command::DaemonStatus));
    assert!(matches!(parse_args(args(&["rsp", "daemon"])), Command::Invalid));
    assert!(matches!(parse_args(args(&["rsp", "daemon", "x"])), Command::Invalid));
}

#[test]
fn test_fuzzy_match() {
    assert!(fuzzy_match("", "anything"));
    assert!(fuzzy_match("abc", "a1b2c3"));
    assert!(fuzzy_match("hlo", "hello"));
    assert!(!fuzzy_match("cba", "abc"));
    assert!(!fuzzy_match("abc", "ab"));
    assert!(!fuzzy_match("a", ""));
}

fn entry(name: &str, id: &str, password: &str) -> PasswordEntry {
    PasswordEntry {
        name: String::from(name),
        id: String::from(id),
        password: String::from(password),
        metadata: Metadata::default(),
    }
}

#[test]
fn test_verify_password() {
    assert!(verify_password(&entry("n", "i", "12345678")));
    assert!(verify_password(&entry("n", "i", "123456789012345678901")));
    assert!(!verify_password(&entry("n", "i", "1234567")));
    assert!(!verify_password(&entry("n", "i", "1234567890123456789012")));
    assert!(!verify_password(&entry("", "i", "12345678")));
    assert!(!verify_password(&entry("n", "", "12345678")));
    // The bound is on bytes: seven two-byte characters are 14 bytes (fine),
    // eleven two-byte characters are 22 bytes (too long).
    assert!(verify_password(&entry("n", "i", "\u{e9}\u{e9}\u{e9}\u{e9}\u{e9}\u{e9}\u{e9}")));
    assert!(!verify_password(&entry("n", "i", "\u{e9}\u{e9}\u{e9}\u{e9}\u{e9}\u{e9}\u{e9}\u{e9}\u{e9}\u{e9}\u{e9}")));
}

#[test]
fn test_modal_input_fields() {
    let e = PasswordEntry {
        name: String::from("site"),
        id: String::from("id9"),
        password: String::from("secret-pw"),
        metadata: Metadata {
            url: Some(String::from("https://x")),
            notes: None,
        },
    };
    let m = Modal::new_input(InputType::Edit, String::from("Edit"), Some(e));
    assert!(matches!(m.typ, ModalType::Input(InputType::Edit)));
    assert_eq!(m.input_fields.len(), 5);
    assert_eq!(m.input_fields[0].value, "site");
    assert_eq!(m.input_fields[1].value, "id9");
    assert_eq!(m.input_fields[2].value, "secret-pw");
    assert!(m.input_fields[2].is_password);
    assert_eq!(m.input_fields[3].value, "https://x");
    assert_eq!(m.input_fields[4].value, "");

    let fresh = Modal::new_input(InputType::Create, String::from("New"), None);
    assert!(fresh.input_fields.iter().all(|f| f.value.is_empty()));
}

#[test]
fn test_modal_navigation_and_editing() {
    let mut m = Modal::new_input(InputType::Create, String::from("New"), None);
    assert_eq!(m.active_field, 0);
    m.next_field();
    assert_eq!(m.active_field, 1);
    m.prev_field();
    m.prev_field();
    assert_eq!(m.active_field, 4);
    m.next_field();
    assert_eq!(m.active_field, 0);

    m.handle_input('h');
    m.handle_input('i');
    assert_eq!(m.input_fields[0].value, "hi");
    m.handle_backspace();
    assert_eq!(m.input_fields[0].value, "h");
    m.handle_backspace();
    m.handle_backspace();
    assert_eq!(m.input_fields[0].value, "");
}

#[test]
fn test_modal_to_password_entry() {
    let mut m = Modal::new_input(InputType::Create, String::from("New"), None);
    m.handle_input('n');
    m.next_field();
    m.handle_input('i');
    m.next_field();
    for c in "longenough".chars() {
        m.handle_input(c);
    }
    let e = m.to_password_entry().unwrap();
    assert_eq!(e.name, "n");
    assert_eq!(e.id, "i");
    assert_eq!(e.password, "longenough");
    assert_eq!(e.metadata.url.unwrap(), "");
    assert_eq!(e.metadata.notes.unwrap(), "");

    let c = Modal::new_confirmation(
        ConfirmationType::Delete,
        String::from("Delete?"),
        String::from("Really delete?"),
        None,
    );
    assert!(c.to_password_entry().is_none());
    assert!(matches!(c.typ, ModalType::Confirm(ConfirmationType::Delete)));
}

#[test]
fn test_remove_by_name() {
    let entries = vec![
        entry("a", "1", "12345678"),
        entry("b", "2", "12345678"),
        entry("a", "3", "12345678"),
    ];
    let kept = rustpass::models::remove_by_name(entries, "a").unwrap();
    assert_eq!(kept.len(), 1);
    assert_eq!(kept[0].name, "b");

    let entries = vec![entry("a", "1", "12345678")];
    assert!(rustpass::models::remove_by_name(entries, "zzz").is_none());
}

#[test]
fn test_parser_accepts_short_escapes() {
    let cs = rustpass::text::chars_of("\"a\\nb\\tc\\rd\\be\\ff\"");
    let (content, np) = rustpass::jsontext::parse_string(&cs, 0).unwrap();
    assert_eq!(np, cs.len());
    let text: String = content.into_iter().collect();
    assert_eq!(text, "a\nb\tc\rd\u{0008}e\u{000C}f");
}

#[test]
fn test_legacy_modal() {
    let m = rustpass::widgets::Modal::new(
        rustpass::widgets::ModalType::Delete,
        String::from("t"),
        String::from("c"),
        None,
    );
    assert!(matches!(m.typ, rustpass::widgets::ModalType::Delete));
    assert_eq!(m.title, "t");
    assert_eq!(m.content, "c");
}
