use head_huntress::cli::{command_name, Command};

#[test]
fn command_names_match_the_cli_commands() {
    assert_eq!(command_name(&Command::Sync), "sync");
    assert_eq!(command_name(&Command::Evaluate), "evaluate");
    assert_eq!(command_name(&Command::Resume), "resume");
    assert_eq!(command_name(&Command::Review), "review");
    assert_eq!(command_name(&Command::Serve), "serve");
}
