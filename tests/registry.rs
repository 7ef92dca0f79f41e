use launchpane::errors::ClientError;
use launchpane::registry::{ProcessRegistry, ProcessStatus};

#[test]
fn new_registry_reports_stopped() {
    let reg: ProcessRegistry<&str> = ProcessRegistry::new();
    assert_eq!(reg.check_process_status(1), ProcessStatus::Stopped);
}

#[test]
fn second_start_for_same_command_is_refused() {
    let mut reg = ProcessRegistry::new();
    assert!(reg.register(7, "first").is_ok());
    assert_eq!(reg.check_process_status(7), ProcessStatus::Running);
    let refused = reg.register(7, "second");
    assert_eq!(refused, Err((ClientError::AlreadyRunning, "second")));
    assert_eq!(reg.take(7), Some("first"));
    assert_eq!(reg.take(7), None);
}

#[test]
fn other_commands_register_independently() {
    let mut reg = ProcessRegistry::new();
    assert!(reg.register(1, 10u32).is_ok());
    assert!(reg.register(2, 20u32).is_ok());
    assert_eq!(reg.check_process_status(1), ProcessStatus::Running);
    assert_eq!(reg.check_process_status(2), ProcessStatus::Running);
    assert_eq!(reg.take(1), Some(10));
    assert_eq!(reg.check_process_status(1), ProcessStatus::Stopped);
    assert_eq!(reg.check_process_status(2), ProcessStatus::Running);
}

#[test]
fn stopping_a_command_that_does_not_run_changes_nothing() {
    let mut reg: ProcessRegistry<u8> = ProcessRegistry::new();
    assert_eq!(reg.begin_stop(3), None);
    assert_eq!(reg.check_process_status(3), ProcessStatus::Stopped);
    assert!(reg.register(3, 1).is_ok());
    assert_eq!(reg.check_process_status(3), ProcessStatus::Running);
}

#[test]
fn kill_moves_status_running_stopping_stopped() {
    let mut reg = ProcessRegistry::new();
    reg.register(4, 'h').unwrap();
    assert_eq!(reg.check_process_status(4), ProcessStatus::Running);
    assert_eq!(reg.begin_stop(4), Some('h'));
    assert_eq!(reg.check_process_status(4), ProcessStatus::Stopping);
    reg.finish_stop(4);
    assert_eq!(reg.check_process_status(4), ProcessStatus::Stopped);
}

#[test]
fn only_one_of_natural_end_and_kill_gets_the_run() {
    let mut reg = ProcessRegistry::new();
    reg.register(5, "run").unwrap();
    assert_eq!(reg.take(5), Some("run"));
    assert_eq!(reg.begin_stop(5), None);
    assert_eq!(reg.check_process_status(5), ProcessStatus::Stopped);

    reg.register(5, "again").unwrap();
    assert_eq!(reg.begin_stop(5), Some("again"));
    assert_eq!(reg.take(5), None);
    assert_eq!(reg.check_process_status(5), ProcessStatus::Stopping);
}
