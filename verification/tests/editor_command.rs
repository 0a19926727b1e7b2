use apitester::command::{body_file_name, command_parts, editor_command, split_words};

#[test]
fn visual_wins_then_editor_then_the_platform_default() {
    assert_eq!(editor_command(Some("code -w".into()), Some("nano".into()), false), "code -w");
    assert_eq!(editor_command(None, Some("nano".into()), true), "nano");
    assert_eq!(editor_command(None, None, true), "notepad");
    assert_eq!(editor_command(None, None, false), "vi");
}

#[test]
fn commands_split_at_white_space() {
    assert_eq!(split_words("  code  -w\t--new-window "), vec!["code", "-w", "--new-window"]);
    assert!(split_words(" \t ").is_empty());
    let (program, args) = command_parts("emacsclient -t");
    assert_eq!(program, "emacsclient");
    assert_eq!(args, vec!["-t"]);
    let (program, args) = command_parts("   ");
    assert_eq!(program, "notepad");
    assert!(args.is_empty());
}

#[test]
fn the_body_file_is_named_after_the_process() {
    assert_eq!(body_file_name(4242), "apitester-body-4242.json");
    assert_eq!(body_file_name(0), "apitester-body-0.json");
}
