use stausee_mnemonic::autostart::{argquote, check_unsafe};

#[test]
fn safe_arguments_stay_bare() {
    assert_eq!(argquote(vec!["C:\\app\\app.exe".to_string(), "--launcher".to_string()]), "C:\\app\\app.exe --launcher");
}

#[test]
fn spaces_are_quoted() {
    assert_eq!(
        argquote(vec!["C:\\Program Files\\app.exe".to_string(), "--launcher".to_string()]),
        "\"C:\\Program Files\\app.exe\" --launcher"
    );
}

#[test]
fn double_quotes_are_escaped_inside_quotes() {
    assert_eq!(argquote(vec!["say \"hi\"".to_string()]), "\"say \\\"hi\\\"\"");
}

#[test]
fn no_arguments_give_an_empty_line() {
    assert_eq!(argquote(Vec::new()), "");
}

#[test]
fn unsafe_characters() {
    assert!(!check_unsafe(&"abc-_.:\\/".to_string()));
    for c in ['!', '"', '#', '$', '&', '\'', '(', ')', '*', ']', '^', '`', '{', '|', '}', '~', ' '] {
        assert!(check_unsafe(&format!("a{}b", c)));
    }
    assert!(!check_unsafe(&String::new()));
}
