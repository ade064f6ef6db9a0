use note_runner::engine::{check_compile, compile_plan};
use note_runner::errors::RunError;
use note_runner::shell::{shell_step, ShellState};

#[test]
fn exit_keyword_terminates_cleanly() {
    let (state, token) = shell_step(ShellState::Prompting, "exit\n");
    assert_eq!(state, ShellState::Terminated);
    assert_eq!(token, None);
}

#[test]
fn exit_keyword_is_trimmed_before_comparison() {
    let (state, token) = shell_step(ShellState::Prompting, "   exit  \n");
    assert_eq!(state, ShellState::Terminated);
    assert_eq!(token, None);
}

#[test]
fn exit_keyword_is_exact() {
    let (state, token) = shell_step(ShellState::Prompting, "Exit\n");
    assert_eq!(state, ShellState::Prompting);
    assert_eq!(token, Some("Exit"));
    let (state, _) = shell_step(ShellState::Prompting, "exit now\n");
    assert_eq!(state, ShellState::Prompting);
}

#[test]
fn invalid_token_twice_keeps_the_session_alive() {
    let (state, token) = shell_step(ShellState::Prompting, "bogus\n");
    assert_eq!(state, ShellState::Prompting);
    assert_eq!(token, Some("bogus"));
    let (state, token) = shell_step(state, "l99999\n");
    assert_eq!(state, ShellState::Prompting);
    assert_eq!(token, Some("l99999"));
}

#[test]
fn terminated_session_stays_terminated() {
    let (state, token) = shell_step(ShellState::Terminated, "1\n");
    assert_eq!(state, ShellState::Terminated);
    assert_eq!(token, None);
}

#[test]
fn shell_hands_out_the_trimmed_token() {
    let (_, token) = shell_step(ShellState::Prompting, "  l12 \n");
    assert_eq!(token, Some("l12"));
}

#[test]
fn failed_compilation_is_a_compile_error_and_runs_nothing() {
    // The engine may execute the output binary only when the ruling
    // allows it, and a failure carries the compile error.
    assert_eq!(check_compile(false), Err(RunError::Compile));
    assert_eq!(check_compile(true), Ok(()));
}

#[test]
fn compile_plan_names_the_conventional_artifacts() {
    let unix_plan = compile_plan(false);
    assert_eq!(unix_plan.source_file, "code.c");
    assert_eq!(unix_plan.compiler, "gcc");
    assert_eq!(unix_plan.binary, "a.out");
    let windows_plan = compile_plan(true);
    assert_eq!(windows_plan.binary, "a.exe");
}
