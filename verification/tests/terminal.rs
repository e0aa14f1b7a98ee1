use vault_client::terminal::{dispatch, find_command, input, Command, Request};
use vault_client::text::{parse_i32, same_text};

fn args(words: &[&str]) -> Option<Vec<String>> {
    Some(words.iter().map(|w| w.to_string()).collect())
}

fn line(text: &str) -> Request {
    let (cmd, args) = input(text);
    dispatch(&cmd, args)
}

#[test]
fn a_line_is_cut_into_command_and_arguments() {
    assert_eq!(input("login ann secret\n"), ("login".to_string(), args(&["ann", "secret"])));
    assert_eq!(input("  upload \t a.bin   /tmp  \r\n"), ("upload".to_string(), args(&["a.bin", "/tmp"])));
    assert_eq!(input("exit"), ("exit".to_string(), None));
    assert_eq!(input("exit\n"), ("exit".to_string(), None));
    assert_eq!(input(""), ("".to_string(), None));
    assert_eq!(input(" \t\n"), ("".to_string(), None));
    assert_eq!(input("a\u{a0}b\u{2003}c"), ("a".to_string(), args(&["b", "c"])));
    assert_eq!(input("x y"), ("x".to_string(), args(&["y"])));
}

#[test]
fn every_command_has_its_word() {
    let all = [
        (Command::Delete, "delete"),
        (Command::Download, "download"),
        (Command::Exit, "exit"),
        (Command::Help, "help"),
        (Command::ListFile, "list_file"),
        (Command::Login, "login"),
        (Command::Register, "register"),
        (Command::Upload, "upload"),
    ];
    for (command, word) in all {
        assert_eq!(command.name(), word);
        assert_eq!(find_command(word), Some(command));
    }
    assert_eq!(find_command(""), None);
    assert_eq!(find_command("Login"), None);
    assert_eq!(find_command("login "), None);
    assert_eq!(find_command("logi"), None);
    assert_eq!(find_command("listfile"), None);
}

#[test]
fn an_empty_line_asks_for_nothing() {
    assert!(matches!(line(""), Request::Nothing));
    assert!(matches!(line("   \n"), Request::Nothing));
    assert!(matches!(dispatch("", None), Request::Nothing));
}

#[test]
fn an_unknown_word_is_reported() {
    assert!(matches!(line("frobnicate now"), Request::Unknown(word) if word == "frobnicate"));
    assert!(matches!(line("LOGIN a b"), Request::Unknown(word) if word == "LOGIN"));
}

#[test]
fn help_takes_an_optional_topic() {
    assert!(matches!(line("help"), Request::Help(None)));
    assert!(matches!(line("help upload"), Request::Help(Some(topic)) if topic == "upload"));
    assert!(matches!(line("help me please"), Request::Help(Some(topic)) if topic == "me"));
    assert!(matches!(dispatch("help", Some(Vec::new())), Request::Help(None)));
    assert!(matches!(dispatch("login", Some(Vec::new())), Request::Usage(Command::Login)));
    assert!(matches!(line("exit"), Request::Exit));
    assert!(matches!(line("exit now"), Request::Exit));
}

#[test]
fn login_and_register_take_two_arguments() {
    assert!(matches!(line("login"), Request::Usage(Command::Login)));
    assert!(matches!(line("login ann"), Request::Usage(Command::Login)));
    assert!(matches!(
        line("login ann secret"),
        Request::Login { user_name, password } if user_name == "ann" && password == "secret"
    ));
    assert!(matches!(
        line("login ann secret more"),
        Request::Login { user_name, password } if user_name == "ann" && password == "secret"
    ));
    assert!(matches!(line("register"), Request::Usage(Command::Register)));
    assert!(matches!(line("register ann"), Request::Usage(Command::Register)));
    assert!(matches!(
        line("register ann secret"),
        Request::Register { user_name, password } if user_name == "ann" && password == "secret"
    ));
}

#[test]
fn delete_takes_a_file_id() {
    assert!(matches!(line("delete"), Request::Usage(Command::Delete)));
    assert!(matches!(line("delete 26"), Request::Delete { file_id: 26 }));
    assert!(matches!(line("delete -3 more"), Request::Delete { file_id: -3 }));
    assert!(matches!(line("delete +7"), Request::Delete { file_id: 7 }));
    assert!(matches!(line("delete x26"), Request::IllegalFileId(word) if word == "x26"));
    assert!(matches!(line("delete 2147483648"), Request::IllegalFileId(word) if word == "2147483648"));
    assert!(matches!(line("delete 2147483647"), Request::Delete { file_id: i32::MAX }));
    assert!(matches!(line("delete -2147483648"), Request::Delete { file_id: i32::MIN }));
}

#[test]
fn download_takes_a_file_id_and_a_directory() {
    assert!(matches!(line("download"), Request::Usage(Command::Download)));
    assert!(matches!(line("download 26"), Request::Usage(Command::Download)));
    assert!(matches!(line("download x ./d"), Request::IllegalFileId(word) if word == "x"));
    assert!(matches!(
        line("download 26 ./d"),
        Request::Download { file_id: 26, target_path } if target_path == "./d"
    ));
}

#[test]
fn upload_takes_a_name_and_a_directory() {
    assert!(matches!(line("upload"), Request::Usage(Command::Upload)));
    assert!(matches!(line("upload a.bin"), Request::Usage(Command::Upload)));
    assert!(matches!(
        line("upload a.bin /tmp"),
        Request::Upload { file_name, path } if file_name == "a.bin" && path == "/tmp"
    ));
}

#[test]
fn list_file_takes_an_optional_filter() {
    assert!(matches!(line("list_file"), Request::ListFile { filter } if filter.is_empty()));
    assert!(matches!(line("list_file report"), Request::ListFile { filter } if filter == "report"));
}

#[test]
fn signed_numbers_are_read_as_the_standard_library_reads_them() {
    let texts = [
        "", "0", "-0", "+0", "7", "-7", "+7", "--7", "+-7", "-+7", "-", "+", "007", "-007",
        "2147483647", "2147483648", "-2147483648", "-2147483649", "+2147483647", "4294967296",
        "99999999999999999999", "-99999999999999999999", " 7", "7 ", "1_0", "0x10", "1e3", "١٢",
        "12a", "a12",
    ];
    for text in texts {
        assert_eq!(parse_i32(text.as_bytes()), text.parse::<i32>().ok(), "{:?}", text);
    }
    assert_eq!(parse_i32(b"-2147483648"), Some(i32::MIN));
    assert_eq!(parse_i32(b"2147483647"), Some(i32::MAX));
    assert_eq!(parse_i32(b"-12"), Some(-12));
}

#[test]
fn texts_are_compared_character_by_character() {
    assert!(same_text("", ""));
    assert!(same_text("login", "login"));
    assert!(!same_text("login", "logim"));
    assert!(!same_text("login", "logi"));
    assert!(!same_text("", "x"));
    assert!(same_text("\u{e9}", "\u{e9}"));
    assert!(!same_text("\u{e9}", "e\u{301}"));
}
