use idf_rs::chain::{has_flash_monitor, parse_multiple_commands, NotChained};

fn line(tokens: &[&str]) -> Vec<String> {
    tokens.iter().map(|t| t.to_string()).collect()
}

#[test]
fn single_command_falls_back_to_single_parsing() {
    let r = parse_multiple_commands(&line(&["idf-rs", "build"]));
    assert_eq!(r.unwrap_err(), NotChained::SingleCommand);
    let r = parse_multiple_commands(&line(&["idf-rs", "build", "-j", "4"]));
    assert_eq!(r.unwrap_err(), NotChained::SingleCommand);
    let r = parse_multiple_commands(&line(&["idf-rs", "--help"]));
    assert_eq!(r.unwrap_err(), NotChained::SingleCommand);
}

#[test]
fn nothing_after_program_name() {
    assert_eq!(parse_multiple_commands(&line(&["idf-rs"])).unwrap_err(), NotChained::NoCommands);
    assert_eq!(parse_multiple_commands(&[]).unwrap_err(), NotChained::NoCommands);
}

#[test]
fn build_then_flash_with_port() {
    let r = parse_multiple_commands(&line(&["idf-rs", "build", "flash", "-p", "COM3"])).unwrap();
    assert_eq!(r.commands.len(), 2);
    assert_eq!(r.commands[0].name, "build");
    assert!(r.commands[0].args.is_empty());
    assert_eq!(r.commands[1].name, "flash");
    assert_eq!(r.commands[1].args, line(&["-p", "COM3"]));
    assert!(!r.global_args.verbose);
}

#[test]
fn leading_verbose_flag_is_shared() {
    let r = parse_multiple_commands(&line(&["idf-rs", "-v", "build", "monitor"])).unwrap();
    assert!(r.global_args.verbose);
    assert!(!r.global_args.preview);
    assert!(!r.global_args.ccache);
    assert!(!r.global_args.no_ccache);
    assert!(!r.global_args.no_hints);
    assert_eq!(r.commands.len(), 2);
    assert_eq!(r.commands[0].name, "build");
    assert!(r.commands[0].args.is_empty());
    assert_eq!(r.commands[1].name, "monitor");
    assert!(r.commands[1].args.is_empty());
}

#[test]
fn all_shared_switches() {
    let r = parse_multiple_commands(&line(&[
        "idf-rs", "--verbose", "--preview", "--ccache", "--no-ccache", "--no-hints", "-G", "Ninja",
        "app", "bootloader",
    ]))
    .unwrap();
    assert!(r.global_args.verbose);
    assert!(r.global_args.preview);
    assert!(r.global_args.ccache);
    assert!(r.global_args.no_ccache);
    assert!(r.global_args.no_hints);
    assert_eq!(r.commands.len(), 2);
}

#[test]
fn switches_after_a_command_belong_to_it() {
    let r = parse_multiple_commands(&line(&["idf-rs", "build", "-v", "size", "--x"])).unwrap();
    assert!(!r.global_args.verbose);
    assert_eq!(r.commands[0].args, line(&["-v"]));
    assert_eq!(r.commands[1].args, line(&["--x"]));
}

#[test]
fn argument_spelled_like_a_command_opens_a_new_one() {
    let r = parse_multiple_commands(&line(&["idf-rs", "build", "all", "monitor", "x"])).unwrap();
    let names: Vec<&str> = r.commands.iter().map(|c| c.name.as_str()).collect();
    assert_eq!(names, vec!["build", "all", "monitor"]);
    assert_eq!(r.commands[2].args, line(&["x"]));
}

#[test]
fn flash_directly_followed_by_monitor() {
    assert!(has_flash_monitor(&line(&["idf-rs", "flash", "monitor"])));
    assert!(!has_flash_monitor(&line(&["idf-rs", "monitor", "flash"])));
    assert!(!has_flash_monitor(&line(&["idf-rs", "flash", "-p", "x", "monitor"])));
    assert!(!has_flash_monitor(&line(&["flash"])));
    assert!(!has_flash_monitor(&[]));
}

#[test]
fn value_options_before_a_chain_are_reported() {
    let r = parse_multiple_commands(&line(&["idf-rs", "-p", "COM3", "flash", "monitor"])).unwrap();
    assert!(r.ignored_value_options);
    assert_eq!(r.commands.len(), 2);
    let r = parse_multiple_commands(&line(&["idf-rs", "-v", "build", "-p", "x", "flash"])).unwrap();
    assert!(!r.ignored_value_options);
    let r = parse_multiple_commands(&line(&["idf-rs", "--baud", "9600", "size", "app"])).unwrap();
    assert!(r.ignored_value_options);
}
