use dairi::process_manager::{
    get_cmd_from_table, init_cmd_table, is_health_process, prepare_input, Cmd, CmdRegistry,
    CmdTable, ProcessManagerError, ProcessState,
};

fn sample_cmd(name: &str, no_empty_input: bool) -> Cmd {
    Cmd::new(
        name.to_string(),
        "cat".to_string(),
        4096,
        false,
        None,
        None,
        false,
        no_empty_input,
        None,
        None,
    )
}

#[test]
fn cmd_new_keeps_every_field() {
    let cmd = Cmd::new(
        "julia".to_string(),
        "julia".to_string(),
        1024,
        true,
        Some(";".to_string()),
        Some("#.*".to_string()),
        true,
        true,
        Some(120),
        Some(500),
    );
    assert_eq!(cmd.name, "julia");
    assert_eq!(cmd.cmd, "julia");
    assert_eq!(cmd.output_size, 1024);
    assert!(cmd.auto_trailing_newline);
    assert_eq!(cmd.join_input_newline_with, Some(";".to_string()));
    assert_eq!(cmd.truncate_line_regex, Some("#.*".to_string()));
    assert!(cmd.remove_empty_line);
    assert!(cmd.no_empty_input);
    assert_eq!(cmd.timeout_sec, Some(120));
    assert_eq!(cmd.wait_output_timeout_milli_sec, Some(500));
}

#[test]
fn cmd_effective_values_fall_back_to_defaults() {
    let cmd = sample_cmd("a", false);
    assert_eq!(cmd.effective_timeout_sec(), 30);
    assert_eq!(cmd.effective_quiet_period_ms(), 2);
    assert_eq!(cmd.effective_output_size(None), 4096);
    assert_eq!(cmd.effective_output_size(Some(16)), 16);
}

#[test]
fn registry_installs_only_once() {
    let mut registry = CmdRegistry::new();
    let mut table = CmdTable::new();
    table.insert(sample_cmd("julia", false));
    assert!(init_cmd_table(&mut registry, table).is_ok());

    let mut second = CmdTable::new();
    second.insert(sample_cmd("python", false));
    let rejected = init_cmd_table(&mut registry, second);
    assert!(rejected.is_err());
    let handed_back = rejected.err().unwrap();
    assert!(handed_back.get(&"python".to_string()).is_some());

    // The first table is still the installed one.
    assert!(get_cmd_from_table(&registry, &"julia".to_string()).is_ok());
    assert!(matches!(
        get_cmd_from_table(&registry, &"python".to_string()),
        Err(ProcessManagerError::CmdNotFound(_))
    ));
}

#[test]
fn lookup_before_install_reports_uninitialized() {
    let registry = CmdRegistry::new();
    assert!(matches!(
        get_cmd_from_table(&registry, &"julia".to_string()),
        Err(ProcessManagerError::CmdTableNotInitialize)
    ));
}

#[test]
fn cmd_not_found_names_the_command() {
    let mut registry = CmdRegistry::new();
    init_cmd_table(&mut registry, CmdTable::new()).unwrap();
    match get_cmd_from_table(&registry, &"absent".to_string()) {
        Err(ProcessManagerError::CmdNotFound(n)) => assert_eq!(n, "absent"),
        other => panic!("expected CmdNotFound, got {:?}", other),
    }
}

#[test]
fn cmd_table_insert_replaces_same_name() {
    let mut table = CmdTable::new();
    table.insert(sample_cmd("julia", false));
    let mut replacement = sample_cmd("julia", false);
    replacement.output_size = 77;
    table.insert(replacement);
    assert_eq!(table.len(), 1);
    assert_eq!(table.get(&"julia".to_string()).unwrap().output_size, 77);
}

#[test]
fn prepare_input_rejects_whitespace_only_input() {
    let cmd = sample_cmd("a", true);
    let r = prepare_input(&cmd, "  \n \t \n".to_string());
    assert!(matches!(r, Err(ProcessManagerError::EmptyInputNotAllowed)));

    let r = prepare_input(&cmd, String::new());
    assert!(matches!(r, Err(ProcessManagerError::EmptyInputNotAllowed)));
}

#[test]
fn prepare_input_accepts_visible_input() {
    let cmd = sample_cmd("a", true);
    let r = prepare_input(&cmd, "  \n x \n".to_string());
    assert_eq!(r.unwrap(), "  \n x \n");
}

#[test]
fn prepare_input_without_policy_accepts_whitespace() {
    let cmd = sample_cmd("a", false);
    let r = prepare_input(&cmd, "  ".to_string());
    assert_eq!(r.unwrap(), "  ");
}

#[test]
fn health_policy_follows_process_state() {
    assert!(is_health_process(&ProcessState::Run));
    assert!(is_health_process(&ProcessState::Idle));
    assert!(is_health_process(&ProcessState::Sleep));
    assert!(is_health_process(&ProcessState::Tracing));
    assert!(!is_health_process(&ProcessState::Zombie));
    assert!(!is_health_process(&ProcessState::Stop));
    assert!(!is_health_process(&ProcessState::Dead));
    assert!(!is_health_process(&ProcessState::Wakekill));
    assert!(!is_health_process(&ProcessState::Waking));
    assert!(!is_health_process(&ProcessState::Parked));
    assert!(!is_health_process(&ProcessState::LockBlocked));
    assert!(!is_health_process(&ProcessState::Unknown(0)));
}
