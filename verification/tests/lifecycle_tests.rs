use serverkeeper::args::parse_force_suffix;
use serverkeeper::console::{ConsoleError, ConsoleReply};
use serverkeeper::lifecycle::BackupError;
use serverkeeper::lifecycle::{
    run_save_attempts, save_begin, save_on_reply, start_gate, start_outcome, tunnel_alive,
    tunnel_reload_allowed, BlockReason, LifecycleAction, LifecycleMode, LifecycleOutcome,
    LifecyclePhase, LifecycleRun, SaveOutcome, SaveStep, ScriptError, StartDecision, StartOutcome,
};

fn out(s: &[u8]) -> ConsoleReply {
    ConsoleReply::Output(s.to_vec())
}

fn empty() -> ConsoleReply {
    ConsoleReply::Output(Vec::new())
}

#[test]
fn save_succeeds_on_first_attempt_with_one_call() {
    let replies = vec![out(b"World Saved"), empty(), empty()];
    let (outcome, calls) = run_save_attempts(&replies);
    assert_eq!(calls, 1);
    assert_eq!(outcome, SaveOutcome::Saved(b"World Saved".to_vec()));
}

#[test]
fn save_succeeds_on_second_attempt_with_two_calls() {
    let replies = vec![empty(), out(b"ok"), empty()];
    let (outcome, calls) = run_save_attempts(&replies);
    assert_eq!(calls, 2);
    assert_eq!(outcome, SaveOutcome::Saved(b"ok".to_vec()));
}

#[test]
fn save_succeeds_on_third_attempt_with_three_calls() {
    let replies = vec![ConsoleReply::Failed(ConsoleError::Timeout), empty(), out(b"ok")];
    let (outcome, calls) = run_save_attempts(&replies);
    assert_eq!(calls, 3);
    assert_eq!(outcome, SaveOutcome::Saved(b"ok".to_vec()));
}

#[test]
fn save_fails_after_three_empty_replies() {
    let replies = vec![empty(), empty(), empty()];
    let (outcome, calls) = run_save_attempts(&replies);
    assert_eq!(calls, 3);
    assert_eq!(outcome, SaveOutcome::SaveFailed);
}

#[test]
fn save_machine_retries_then_fails() {
    let p = save_begin();
    let s = save_on_reply(p, &empty());
    let p = match s {
        SaveStep::RetryAfterPause(p) => p,
        _ => panic!("expected retry"),
    };
    assert_eq!(p.attempt, 2);
    let p = match save_on_reply(p, &ConsoleReply::Failed(ConsoleError::Unreachable)) {
        SaveStep::RetryAfterPause(p) => p,
        _ => panic!("expected retry"),
    };
    assert_eq!(p.attempt, 3);
    assert_eq!(save_on_reply(p, &empty()), SaveStep::Failed);
}

#[test]
fn restart_blocked_by_players_makes_no_further_calls() {
    let (mut run, action) = LifecycleRun::begin(LifecycleMode::Restart, false);
    assert_eq!(action, LifecycleAction::QueryStatus);
    let action = run.on_status(&out(b"Alice,1\nBob,2"));
    assert_eq!(action, LifecycleAction::Halt);
    assert_eq!(
        run.phase,
        LifecyclePhase::Finished(LifecycleOutcome::Blocked(BlockReason::PlayersPresent))
    );
}

#[test]
fn restart_blocked_on_failed_status_query() {
    let (mut run, _) = LifecycleRun::begin(LifecycleMode::Restart, false);
    let action = run.on_status(&ConsoleReply::Failed(ConsoleError::Timeout));
    assert_eq!(action, LifecycleAction::Halt);
    assert_eq!(
        run.phase,
        LifecyclePhase::Finished(LifecycleOutcome::Blocked(BlockReason::StatusUnknown))
    );
}

#[test]
fn forced_restart_proceeds_despite_players() {
    let (mut run, _) = LifecycleRun::begin(LifecycleMode::Restart, true);
    let action = run.on_status(&out(b"Alice,1"));
    assert_eq!(action, LifecycleAction::IssueSave);
}

#[test]
fn restart_happy_path_runs_save_backup_exit_script() {
    let (mut run, _) = LifecycleRun::begin(LifecycleMode::Restart, false);
    assert_eq!(run.on_status(&empty()), LifecycleAction::IssueSave);
    assert_eq!(run.on_save_reply(&out(b"Saved")), LifecycleAction::RunBackup);
    assert_eq!(run.on_backup_result(&Ok(())), LifecycleAction::IssueExit);
    assert_eq!(run.on_exit_reply(&out(b"Exiting")), LifecycleAction::RunStartScript);
    assert_eq!(run.on_script_result(&Ok(b"Server started".to_vec())), LifecycleAction::Halt);
    assert_eq!(
        run.phase,
        LifecyclePhase::Finished(LifecycleOutcome::Restarted(b"Server started".to_vec()))
    );
}

#[test]
fn shutdown_stops_after_confirmed_exit() {
    let (mut run, _) = LifecycleRun::begin(LifecycleMode::Shutdown, false);
    assert_eq!(run.on_status(&empty()), LifecycleAction::IssueSave);
    assert_eq!(run.on_save_reply(&out(b"Saved")), LifecycleAction::RunBackup);
    assert_eq!(run.on_backup_result(&Ok(())), LifecycleAction::IssueExit);
    assert_eq!(run.on_exit_reply(&out(b"Exiting")), LifecycleAction::Halt);
    assert_eq!(
        run.phase,
        LifecyclePhase::Finished(LifecycleOutcome::ShutdownComplete(b"Exiting".to_vec()))
    );
}

#[test]
fn unresponsive_server_blocks_after_three_save_attempts() {
    let (mut run, _) = LifecycleRun::begin(LifecycleMode::Shutdown, false);
    assert_eq!(run.on_status(&empty()), LifecycleAction::IssueSave);
    assert_eq!(run.on_save_reply(&empty()), LifecycleAction::PauseThenIssueSave);
    assert_eq!(run.on_save_reply(&empty()), LifecycleAction::PauseThenIssueSave);
    assert_eq!(run.on_save_reply(&empty()), LifecycleAction::Halt);
    assert_eq!(
        run.phase,
        LifecyclePhase::Finished(LifecycleOutcome::Blocked(BlockReason::ServerUnresponsive))
    );
}

#[test]
fn unconfirmed_exit_is_reported() {
    let (mut run, _) = LifecycleRun::begin(LifecycleMode::Restart, false);
    run.on_status(&empty());
    run.on_save_reply(&out(b"Saved"));
    run.on_backup_result(&Ok(()));
    assert_eq!(run.on_exit_reply(&empty()), LifecycleAction::Halt);
    assert_eq!(run.phase, LifecyclePhase::Finished(LifecycleOutcome::ExitUnconfirmed));
}

#[test]
fn backup_failure_aborts_the_run() {
    let (mut run, _) = LifecycleRun::begin(LifecycleMode::Restart, false);
    run.on_status(&empty());
    run.on_save_reply(&out(b"Saved"));
    assert_eq!(run.on_backup_result(&Err(BackupError::DestUnwritable)), LifecycleAction::Halt);
    assert_eq!(
        run.phase,
        LifecyclePhase::Finished(LifecycleOutcome::BackupFailed(BackupError::DestUnwritable))
    );
}

#[test]
fn start_gate_launches_only_a_stopped_server() {
    assert_eq!(start_gate(&empty()), StartDecision::LaunchScript);
    assert_eq!(start_gate(&out(b"Alice,1")), StartDecision::AlreadyRunning);
    assert_eq!(
        start_gate(&ConsoleReply::Failed(ConsoleError::Unreachable)),
        StartDecision::Unconfirmed
    );
}

#[test]
fn start_outcome_relays_script_output() {
    assert_eq!(
        start_outcome(&Ok(b"pid 4242".to_vec())),
        StartOutcome::Started(b"pid 4242".to_vec())
    );
    assert_eq!(start_outcome(&Ok(Vec::new())), StartOutcome::NoOutput);
    assert_eq!(
        start_outcome(&Err(ScriptError::LaunchFailed)),
        StartOutcome::ScriptFailed(ScriptError::LaunchFailed)
    );
}

#[test]
fn tunnel_probe_reads_zero_as_down() {
    assert!(!tunnel_alive(&b"0".to_vec()));
    assert!(tunnel_alive(&b"1".to_vec()));
    assert!(tunnel_alive(&b"00".to_vec()));
}

#[test]
fn tunnel_reload_gate() {
    assert!(tunnel_reload_allowed(&empty(), false));
    assert!(tunnel_reload_allowed(&ConsoleReply::Failed(ConsoleError::Timeout), false));
    assert!(!tunnel_reload_allowed(&out(b"Alice,1"), false));
    assert!(tunnel_reload_allowed(&out(b"Alice,1"), true));
}

#[test]
fn force_is_only_an_exact_trailing_token() {
    assert_eq!(parse_force_suffix(&b"force".to_vec()), (b"".to_vec(), true));
    assert_eq!(parse_force_suffix(&b"abc force".to_vec()), (b"abc".to_vec(), true));
    assert_eq!(parse_force_suffix(&b"abc force  ".to_vec()), (b"abc".to_vec(), true));
    assert_eq!(parse_force_suffix(&b"forceful".to_vec()), (b"forceful".to_vec(), false));
    assert_eq!(parse_force_suffix(&b"force abc".to_vec()), (b"force abc".to_vec(), false));
    assert_eq!(parse_force_suffix(&b"abcforce".to_vec()), (b"abcforce".to_vec(), false));
    assert_eq!(parse_force_suffix(&b"".to_vec()), (b"".to_vec(), false));
}
