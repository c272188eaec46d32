use idf_rs::chain::ParsedCommand;
use idf_rs::dispatch::{
    check_command, command_kind, is_supported_target, sequence_step, supported_targets,
    CommandError, CommandKind, SequenceStep,
};

fn cmd(name: &str, args: &[&str]) -> ParsedCommand {
    ParsedCommand { name: name.to_string(), args: args.iter().map(|a| a.to_string()).collect() }
}

#[test]
fn command_names_map_to_actions() {
    assert_eq!(command_kind(&"build".to_string()), Some(CommandKind::Build));
    assert_eq!(command_kind(&"all".to_string()), Some(CommandKind::Build));
    assert_eq!(command_kind(&"app-flash".to_string()), Some(CommandKind::AppFlash));
    assert_eq!(command_kind(&"uninstall-alias".to_string()), Some(CommandKind::UninstallAlias));
    assert_eq!(command_kind(&"Build".to_string()), None);
}

#[test]
fn commands_that_need_an_argument() {
    assert_eq!(check_command(&cmd("set-target", &[])), Err(CommandError::MissingTarget));
    assert_eq!(check_command(&cmd("set-target", &["esp32"])), Ok(CommandKind::SetTarget));
    assert_eq!(check_command(&cmd("create-project", &[])), Err(CommandError::MissingProjectName));
    assert_eq!(check_command(&cmd("create-project", &["p"])), Ok(CommandKind::CreateProject));
    assert_eq!(check_command(&cmd("monitor", &[])), Ok(CommandKind::Monitor));
}

#[test]
fn unknown_command_is_an_error() {
    assert_eq!(check_command(&cmd("frobnicate", &[])), Err(CommandError::UnrecognizedCommand));
    let name = "frobnicate".to_string();
    assert_eq!(CommandError::UnrecognizedCommand.message(&name), "Unknown command: frobnicate");
    assert_eq!(
        CommandError::MissingTarget.message(&name),
        "set-target requires a target argument"
    );
    assert_eq!(
        CommandError::MissingProjectName.message(&name),
        "create-project requires a project name"
    );
}

#[test]
fn chain_runs_in_order_and_stops_at_first_failure() {
    assert_eq!(sequence_step(3, 0, true), SequenceStep::Run(0));
    assert_eq!(sequence_step(3, 0, false), SequenceStep::Run(0));
    assert_eq!(sequence_step(3, 1, true), SequenceStep::Run(1));
    assert_eq!(sequence_step(3, 2, false), SequenceStep::Aborted(1));
    assert_eq!(sequence_step(3, 3, true), SequenceStep::Finished);
    assert_eq!(sequence_step(3, 3, false), SequenceStep::Aborted(2));
    assert_eq!(sequence_step(0, 0, true), SequenceStep::Finished);
}

#[test]
fn supported_chips() {
    let t = supported_targets();
    assert_eq!(t.len(), 8);
    assert_eq!(t[0], "esp32");
    assert_eq!(t[7], "esp32p4");
    assert!(is_supported_target("esp32c6"));
    assert!(!is_supported_target("esp8266"));
    assert!(!is_supported_target(""));
}
