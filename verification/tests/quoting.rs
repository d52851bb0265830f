use linuxdo_accelerator::quoting::{
    applescript_escape, powershell_single_quote, shell_join, shell_quote,
};

#[test]
fn powershell_doubles_single_quotes() {
    assert_eq!(powershell_single_quote("it's 'so'"), "it''s ''so''");
    assert_eq!(powershell_single_quote(""), "");
}

#[test]
fn applescript_puts_backslashes_in_front() {
    assert_eq!(applescript_escape("a\\b \"c\""), "a\\\\b \\\"c\\\"");
    assert_eq!(applescript_escape("\\\""), "\\\\\\\"");
}

#[test]
fn shell_words_are_quoted() {
    assert_eq!(shell_quote("a b"), "'a b'");
    assert_eq!(shell_quote("it's"), "'it'\"'\"'s'");
    assert_eq!(shell_quote(""), "''");
    let args = vec!["--config".to_string(), "/a b/c".to_string()];
    assert_eq!(shell_join("/bin/x", &args), "'/bin/x' '--config' '/a b/c'");
    assert_eq!(shell_join("x", &Vec::new()), "'x'");
}
