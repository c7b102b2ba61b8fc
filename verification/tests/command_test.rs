use felix::command::{parse_command, split_whitespace, Command};

#[test]
fn command_words() {
    assert_eq!(split_whitespace("  ls   -la\tx  "), vec!["ls".to_string(), "-la".to_string(), "x".to_string()]);
    assert!(split_whitespace(" \u{3000} ").is_empty());
}

#[test]
fn known_commands() {
    assert_eq!(parse_command(""), Command::Nothing);
    assert_eq!(parse_command("   "), Command::Nothing);
    assert_eq!(parse_command("q"), Command::Quit);
    assert_eq!(parse_command(" cd "), Command::Home);
    assert_eq!(parse_command("z"), Command::Home);
    assert_eq!(parse_command("e"), Command::Reload);
    assert_eq!(parse_command("h"), Command::Help);
    assert_eq!(parse_command("reg"), Command::Registers);
    assert_eq!(parse_command("trash"), Command::Trash);
    assert_eq!(parse_command("empty"), Command::EmptyTrash);
    assert_eq!(parse_command("config"), Command::Config);
    assert_eq!(parse_command("cd /tmp"), Command::Cd("/tmp".to_string()));
}

#[test]
fn other_lines_are_shell_commands() {
    assert_eq!(
        parse_command("zip test *.md"),
        Command::Shell(vec!["zip".to_string(), "test".to_string(), "*.md".to_string()])
    );
    assert_eq!(parse_command("qq"), Command::Shell(vec!["qq".to_string()]));
    assert_eq!(
        parse_command("cd a b"),
        Command::Shell(vec!["cd".to_string(), "a".to_string(), "b".to_string()])
    );
}

#[test]
fn unicode_white_space_splits_words() {
    // U+2003 (em space) and U+0085 are white space; U+200B (zero width space) is not.
    assert_eq!(
        split_whitespace("a\u{2003}b\u{85}c\u{200B}d"),
        vec!["a".to_string(), "b".to_string(), "c\u{200B}d".to_string()]
    );
}

#[test]
fn z_with_keywords_asks_zoxide() {
    assert_eq!(parse_command("z"), Command::Home);
    assert_eq!(parse_command("z proj felix"), Command::Zoxide(vec!["proj".to_string(), "felix".to_string()]));
}
