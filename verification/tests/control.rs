use layanow::control::{
    runtime_dir, socket_path, wire_line, RuntimeDir, DEFAULT_ID,
    command_for_id, parse_args, ArgsError, Command, ControlError, Invocation, QUIT_ID, SETTINGS_ID,
    TOGGLE_ID,
};

fn args(words: &[&str]) -> Vec<String> {
    words.iter().map(|word| (*word).to_string()).collect()
}

#[test]
fn commands_round_trip_through_the_wire_form() {
    for command in [Command::Toggle, Command::Show, Command::Hide, Command::Quit, Command::Reload] {
        assert_eq!(Command::parse(command.as_str()).ok(), Some(command));
    }
    assert!(matches!(Command::parse("bogus"), Err(ControlError::InvalidCommand(_))));
}

#[test]
fn a_command_line_with_surrounding_white_space_still_parses() {
    assert_eq!(Command::parse("  toggle\n").ok(), Some(Command::Toggle));
    assert_eq!(Command::parse("reload\r\n").ok(), Some(Command::Reload));
    match Command::parse(" Toggle ") {
        Err(ControlError::InvalidCommand(word)) => assert_eq!(word, "Toggle"),
        other => panic!("unexpected {other:?}"),
    }
}

#[test]
fn menu_ids_map_to_commands() {
    assert_eq!(command_for_id(TOGGLE_ID), Some(Command::Toggle));
    assert_eq!(command_for_id(QUIT_ID), Some(Command::Quit));
    assert_eq!(command_for_id(SETTINGS_ID), None);
    assert_eq!(command_for_id("other"), None);
}

#[test]
fn the_command_line_selects_what_to_run() {
    assert_eq!(parse_args(&args(&[])), Ok(Invocation::Applet));
    assert_eq!(parse_args(&args(&["--help"])), Ok(Invocation::Help));
    assert_eq!(parse_args(&args(&["-h"])), Ok(Invocation::Help));
    assert_eq!(parse_args(&args(&["settings"])), Ok(Invocation::Settings));
    assert_eq!(parse_args(&args(&["toggle"])), Ok(Invocation::Command(Command::Toggle)));
    assert_eq!(parse_args(&args(&["quit"])), Ok(Invocation::Command(Command::Quit)));
}

#[test]
fn the_command_line_rejects_unknown_words_and_extra_arguments() {
    assert_eq!(
        parse_args(&args(&["launch"])),
        Err(ArgsError::UnknownCommand("launch".to_string()))
    );
    assert_eq!(parse_args(&args(&["show", "now"])), Err(ArgsError::TooManyArguments));
}

#[test]
fn control_errors_display_helpfully() {
    assert_eq!(
        ControlError::AlreadyRunning.message(),
        "another layanow instance is already running"
    );
    assert_eq!(
        ControlError::NotRunning("no socket".to_string()).message(),
        "no running layanow instance (no socket)"
    );
    assert_eq!(
        ControlError::InvalidCommand("bogus".to_string()).message(),
        "unknown control command: \"bogus\""
    );
    let io = ControlError::Io(std::io::Error::new(std::io::ErrorKind::Other, "broken"));
    assert_eq!(io.message(), "control IPC error: broken");
}

#[test]
fn the_socket_lives_in_the_runtime_dir() {
    assert_eq!(
        runtime_dir(Some("/run/user/1000"), "/tmp", 1000),
        RuntimeDir::Trusted("/run/user/1000".to_string())
    );
    assert_eq!(runtime_dir(Some(""), "/tmp", 1000), RuntimeDir::Private("/tmp/layanow-1000".to_string()));
    assert_eq!(runtime_dir(None, "/tmp/", 0), RuntimeDir::Private("/tmp/layanow-0".to_string()));
    assert_eq!(socket_path("/run/user/1000", DEFAULT_ID), "/run/user/1000/layanow.sock");
}

#[test]
fn a_command_goes_on_the_wire_as_one_line() {
    assert_eq!(wire_line(Command::Toggle), "toggle\n");
    assert_eq!(Command::parse(&wire_line(Command::Reload)).ok(), Some(Command::Reload));
}
