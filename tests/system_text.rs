use linutil_desktop::pretty_name;

#[test]
fn pretty_name_from_os_release() {
    let text = "NAME=\"Arch Linux\"\nPRETTY_NAME=\"Arch Linux\"\nID=arch\n";
    assert_eq!(pretty_name(text), Some("Arch Linux".to_string()));
}

#[test]
fn pretty_name_first_line_wins_and_crlf_is_dropped() {
    let text = "ID=x\r\nPRETTY_NAME=\"One\"\r\nPRETTY_NAME=Two\r\n";
    assert_eq!(pretty_name(text), Some("One".to_string()));
}

#[test]
fn pretty_name_unquoted_and_missing() {
    assert_eq!(pretty_name("PRETTY_NAME=Plain"), Some("Plain".to_string()));
    assert_eq!(pretty_name("PRETTY_NAME=\"\"\""), Some(String::new()));
    assert_eq!(pretty_name("NAME=Debian\n"), None);
    assert_eq!(pretty_name(""), None);
    assert_eq!(pretty_name("  PRETTY_NAME=Indented"), None);
}

#[test]
fn pretty_name_keeps_inner_quotes() {
    assert_eq!(pretty_name("PRETTY_NAME=\"a \"b\" c\"\n"), Some("a \"b\" c".to_string()));
}
