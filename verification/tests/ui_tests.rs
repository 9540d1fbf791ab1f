use moodle_cli::ui::{parse_assignment_id, cli_mode, direct_assignment_name, menu_lines, menu_pick, menu_reply, CliMode, MenuPick, MenuReply};

#[test]
fn menu_replies() {
    assert_eq!(menu_reply("q", 3), MenuReply::Quit);
    assert_eq!(menu_reply("Q", 3), MenuReply::Quit);
    assert_eq!(menu_reply("2", 3), MenuReply::Choice(2));
    assert_eq!(menu_reply("0", 3), MenuReply::Choice(0));
    assert_eq!(menu_reply("4", 3), MenuReply::Invalid);
    assert_eq!(menu_reply("x", 3), MenuReply::Invalid);
    assert_eq!(menu_reply("", 3), MenuReply::Invalid);
}

#[test]
fn menu_text() {
    let items = vec!["Math".to_string(), "Science".to_string()];
    assert_eq!(
        menu_lines("Select Course", &items, false),
        vec!["\n=== Select Course ===", "  1. Math", "  2. Science", "  q. Quit"]
    );
    assert_eq!(
        menu_lines("S", &items, true),
        vec!["\n=== S ===", "  1. Math", "  2. Science", "  0. Back", "  q. Quit"]
    );
}

#[test]
fn menu_picks() {
    assert_eq!(menu_pick(0, true), MenuPick::Back);
    assert_eq!(menu_pick(3, true), MenuPick::Item(2));
    assert_eq!(menu_pick(1, false), MenuPick::Item(0));
}

fn args(v: &[&str]) -> Vec<String> {
    v.iter().map(|s| s.to_string()).collect()
}

#[test]
fn command_line_modes() {
    match cli_mode(&args(&["p", "u", "pw", "12", "f.pdf"])) {
        CliMode::Direct { user, password, assignment, file } => {
            assert_eq!((user.as_str(), password.as_str(), assignment.as_str(), file.as_str()), ("u", "pw", "12", "f.pdf"));
        }
        _ => panic!("expected direct"),
    }
    match cli_mode(&args(&["p", "u", "pw"])) {
        CliMode::Interactive { user, password } => assert_eq!((user.as_str(), password.as_str()), ("u", "pw")),
        _ => panic!("expected interactive"),
    }
    match cli_mode(&args(&["p", "u", "pw", "12"])) {
        CliMode::Interactive { .. } => {}
        _ => panic!("expected interactive"),
    }
    assert!(matches!(cli_mode(&args(&["p", "--help"])), CliMode::Help));
    assert!(matches!(cli_mode(&args(&["p", "-h"])), CliMode::Help));
    assert!(matches!(cli_mode(&args(&["p", "u"])), CliMode::Usage));
    assert!(matches!(cli_mode(&args(&["p"])), CliMode::Prompt));
    assert_eq!(direct_assignment_name(12), "Assignment 12");
}

#[test]
fn assignment_numbers() {
    assert_eq!(parse_assignment_id("123"), Some(123));
    assert_eq!(parse_assignment_id("12a"), None);
    assert_eq!(parse_assignment_id("-1"), None);
}
