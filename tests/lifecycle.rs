use launchpane::events::AppEventPayload;
use launchpane::invocation::{invocation, Platform};
use launchpane::lifecycle::{
    decimal_text, exit_code_text, finished, killed, output_line, spawn_failed, started,
    CommandLogLineSource, Effect, LastRunResultType,
};
use launchpane::termination::{
    kill_step_effects_of, next_kill_step, KillStep, KILL_TREE_GRACE_MS, OUTPUT_DRAIN_MS,
    SIGNAL_GRACE_MS,
};

fn log_lines(effects: &[Effect]) -> Vec<(CommandLogLineSource, String)> {
    let mut out = Vec::new();
    for e in effects {
        if let Effect::AppendLog { source, text } = e {
            out.push((*source, text.clone()));
        }
    }
    out
}

#[test]
fn result_names() {
    assert_eq!(LastRunResultType::Exit.as_str(), "exit");
    assert_eq!(LastRunResultType::Killed.as_str(), "killed");
    assert_eq!(LastRunResultType::Error.as_str(), "error");
}

#[test]
fn source_codes() {
    assert_eq!(CommandLogLineSource::STDOUT.code(), 1);
    assert_eq!(CommandLogLineSource::STDERR.code(), 2);
    assert_eq!(CommandLogLineSource::INFO.code(), 3);
}

#[test]
fn decimal_texts() {
    assert_eq!(decimal_text(0), "0");
    assert_eq!(decimal_text(7), "7");
    assert_eq!(decimal_text(42), "42");
    assert_eq!(decimal_text(-1), "-1");
    assert_eq!(decimal_text(1000), "1000");
    assert_eq!(decimal_text(i32::MAX), "2147483647");
    assert_eq!(decimal_text(i32::MIN), "-2147483648");
    assert_eq!(exit_code_text(Some(0)), Some("0".to_string()));
    assert_eq!(exit_code_text(Some(130)), Some("130".to_string()));
    assert_eq!(exit_code_text(None), None);
}

#[test]
fn echo_hi_run_logs_start_output_and_finish() {
    let mut all = started(9, "echo hi", "/tmp");
    all.extend(output_line(9, CommandLogLineSource::STDOUT, "hi".to_string()));
    let end = finished(9, "exit status: 0", Some(0));
    all.extend(end);
    assert_eq!(
        log_lines(&all),
        vec![
            (CommandLogLineSource::INFO, "Running command `echo hi` at `/tmp`".to_string()),
            (CommandLogLineSource::STDOUT, "hi".to_string()),
            (CommandLogLineSource::INFO, "Command finished with exit status: 0".to_string()),
        ]
    );
    let results: Vec<&Effect> =
        all.iter().filter(|e| matches!(e, Effect::SetLastRun { .. })).collect();
    assert_eq!(
        results,
        vec![&Effect::SetLastRun { result: LastRunResultType::Exit, code: Some("0".to_string()) }]
    );
}

#[test]
fn started_effects_in_order() {
    let e = started(2, "ls", "/");
    assert_eq!(
        e,
        vec![
            Effect::AppendLog {
                source: CommandLogLineSource::INFO,
                text: "Running command `ls` at `/`".to_string()
            },
            Effect::Notify(AppEventPayload::CommandLogUpdateEvent(2)),
            Effect::Notify(AppEventPayload::CommandUpdateEvent(2)),
        ]
    );
}

#[test]
fn spawn_failure_is_recorded_as_error() {
    let e = spawn_failed(3, "No such file or directory (os error 2)");
    assert_eq!(
        e,
        vec![
            Effect::AppendLog {
                source: CommandLogLineSource::INFO,
                text: "Command failed to start: No such file or directory (os error 2)".to_string()
            },
            Effect::SetLastRun { result: LastRunResultType::Error, code: None },
            Effect::Notify(AppEventPayload::CommandLogUpdateEvent(3)),
            Effect::Notify(AppEventPayload::CommandUpdateEvent(3)),
        ]
    );
}

#[test]
fn finish_without_code() {
    let e = finished(4, "signal: 9 (SIGKILL)", None);
    assert_eq!(e[1], Effect::SetLastRun { result: LastRunResultType::Exit, code: None });
    assert_eq!(
        e[0],
        Effect::AppendLog {
            source: CommandLogLineSource::INFO,
            text: "Command finished with signal: 9 (SIGKILL)".to_string()
        }
    );
}

#[test]
fn output_lines_kept_verbatim_per_stream() {
    let arrivals = [
        (CommandLogLineSource::STDOUT, "one"),
        (CommandLogLineSource::STDERR, "  warn: x\t"),
        (CommandLogLineSource::STDOUT, "two"),
        (CommandLogLineSource::STDOUT, ""),
        (CommandLogLineSource::STDERR, "done"),
    ];
    let mut all = Vec::new();
    for (s, l) in arrivals {
        all.extend(output_line(1, s, l.to_string()));
    }
    let logged = log_lines(&all);
    let out: Vec<&str> = logged
        .iter()
        .filter(|(s, _)| *s == CommandLogLineSource::STDOUT)
        .map(|(_, t)| t.as_str())
        .collect();
    let err: Vec<&str> = logged
        .iter()
        .filter(|(s, _)| *s == CommandLogLineSource::STDERR)
        .map(|(_, t)| t.as_str())
        .collect();
    assert_eq!(out, vec!["one", "two", ""]);
    assert_eq!(err, vec!["  warn: x\t", "done"]);
}

#[test]
fn killed_effects_record_kill_without_code() {
    assert_eq!(
        killed(),
        vec![
            Effect::AppendLog {
                source: CommandLogLineSource::INFO,
                text: "Command killed.".to_string()
            },
            Effect::SetLastRun { result: LastRunResultType::Killed, code: None },
        ]
    );
}

fn run_kill(platform: Platform, alive_after: &[bool]) -> (Vec<KillStep>, Vec<Effect>) {
    let mut step = KillStep::Announce;
    let mut steps = Vec::new();
    let mut effects = Vec::new();
    let mut i = 0;
    while step != KillStep::Done {
        steps.push(step);
        effects.extend(kill_step_effects_of(11, step));
        let alive = alive_after.get(i).copied().unwrap_or(false);
        step = next_kill_step(platform, step, alive);
        i += 1;
    }
    (steps, effects)
}

#[test]
fn kill_of_stubborn_child_escalates() {
    let (steps, effects) = run_kill(Platform::Unix, &[false, false, true, true]);
    assert_eq!(
        steps,
        vec![
            KillStep::Announce,
            KillStep::CancelWatcher,
            KillStep::RequestTerminate,
            KillStep::AwaitExit(SIGNAL_GRACE_MS),
            KillStep::ForceKill,
            KillStep::DrainOutput(OUTPUT_DRAIN_MS),
            KillStep::Record,
            KillStep::Release,
        ]
    );
    assert_eq!(
        effects,
        vec![
            Effect::Notify(AppEventPayload::CommandUpdateEvent(11)),
            Effect::AppendLog {
                source: CommandLogLineSource::INFO,
                text: "Command killed.".to_string()
            },
            Effect::SetLastRun { result: LastRunResultType::Killed, code: None },
            Effect::Notify(AppEventPayload::CommandLogUpdateEvent(11)),
            Effect::Notify(AppEventPayload::CommandUpdateEvent(11)),
        ]
    );
}

#[test]
fn kill_of_compliant_child_skips_force() {
    let (steps, effects) = run_kill(Platform::Unix, &[false, false, true, false]);
    assert!(!steps.contains(&KillStep::ForceKill));
    assert_eq!(log_lines(&effects).len(), 1);
    let (steps, _) = run_kill(Platform::Windows, &[false, false, false]);
    assert_eq!(
        steps,
        vec![
            KillStep::Announce,
            KillStep::CancelWatcher,
            KillStep::RequestTerminate,
            KillStep::DrainOutput(OUTPUT_DRAIN_MS),
            KillStep::Record,
            KillStep::Release,
        ]
    );
    let (steps, _) = run_kill(Platform::Windows, &[false, false, true, false]);
    assert_eq!(steps[3], KillStep::AwaitExit(KILL_TREE_GRACE_MS));
}

#[test]
fn unix_invocation_uses_bash() {
    let inv = invocation(Platform::Unix, "echo hi", "/home/u");
    assert_eq!(inv.program, "bash");
    assert_eq!(inv.args, vec!["-c".to_string(), "echo hi".to_string()]);
    assert_eq!(inv.raw_arg, None);
    assert!(!inv.hide_window);
}

#[test]
fn windows_invocations() {
    let inv = invocation(Platform::Windows, "dir", "C:\\Users");
    assert_eq!(inv.program, "cmd");
    assert_eq!(inv.args, vec!["/s".to_string(), "/c".to_string()]);
    assert_eq!(inv.raw_arg, Some("dir".to_string()));
    assert!(inv.hide_window);
    let inv = invocation(Platform::Windows, "dir", "\\\\server\\share");
    assert_eq!(inv.program, "powershell");
    assert_eq!(inv.args, vec!["-Command".to_string(), "dir".to_string()]);
    assert_eq!(inv.raw_arg, None);
    assert!(inv.hide_window);
}
