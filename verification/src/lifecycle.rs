//! Lifecycle controller: player-count gating, the bounded save retry loop,
//! and the save -> exit -> start sequencing for restart and shutdown.
//!
//! The controller is a state machine. The caller performs one console call,
//! backup, or script run per step and feeds the observed outcome back in;
//! each transition returns the next action to perform. Every transition
//! requires a phase that still awaits its event, so once a run reaches
//! `Finished` no further console call or script run can be requested.

use vstd::prelude::*;
use crate::console::{ConsoleReply, ServerStatus, status_of_reply};

verus! {

/// Failure of an external administrative script.
#[derive(Clone, Copy, PartialEq, Eq, Structural, Debug)]
pub enum ScriptError {
    /// The process could not be launched.
    LaunchFailed,
    /// The process ran but reported failure.
    ReportedFailure,
}

/// Failure of a backup creation, surfaced by the backup manager.
#[derive(Clone, Copy, PartialEq, Eq, Structural, Debug)]
pub enum BackupError {
    /// The data directory could not be read.
    SourceUnreadable,
    /// The backup directory could not be written.
    DestUnwritable,
    /// The archive itself could not be written.
    ArchiveWriteFailed,
}

/// Why a destructive operation was refused without side effects.
#[derive(Clone, Copy, PartialEq, Eq, Structural, Debug)]
pub enum BlockReason {
    /// The status query showed active players and force was not given.
    PlayersPresent,
    /// The status query failed, so a stopped server could not be confirmed.
    StatusUnknown,
    /// All save attempts returned no output: the server is unresponsive.
    ServerUnresponsive,
}

/// The two destructive lifecycle operations that share one gate and one
/// save-then-exit sequence.
#[derive(Clone, Copy, PartialEq, Eq, Structural, Debug)]
pub enum LifecycleMode {
    Restart,
    Shutdown,
}

/// Final outcome of a restart or shutdown run.
#[derive(Clone, PartialEq, Eq, Debug)]
pub enum LifecycleOutcome {
    /// The run was refused: players present, status unconfirmed, or an
    /// unresponsive server.
    Blocked(BlockReason),
    /// The save was confirmed but the backup afterwards failed.
    BackupFailed(BackupError),
    /// The exit command returned no output (or failed): the caller must
    /// re-check the server state by hand.
    ExitUnconfirmed,
    /// Shutdown only: the exit command's response.
    ShutdownComplete(Vec<u8>),
    /// Restart only: the start script's captured output.
    Restarted(Vec<u8>),
    /// Restart only: the start script ran but printed nothing.
    RestartedNoOutput,
    /// Restart only: the start script failed.
    ScriptFailed(ScriptError),
}

/// Where a restart or shutdown run currently stands.
#[derive(Clone, PartialEq, Eq, Debug)]
pub enum LifecyclePhase {
    /// Waiting for the reply to the gating status query.
    AwaitStatus,
    /// Waiting for the reply to save attempt `attempt` (1 to 3).
    AwaitSave { attempt: u8 },
    /// Waiting for the result of the backup that follows a confirmed save.
    AwaitBackup,
    /// Waiting for the reply to the exit command.
    AwaitExit,
    /// Waiting for the start script's output.
    AwaitScript,
    /// The run is over; no further action may be requested.
    Finished(LifecycleOutcome),
}

/// What the caller must do next.
#[derive(Clone, Copy, PartialEq, Eq, Structural, Debug)]
pub enum LifecycleAction {
    /// Issue the status query and feed the reply to `on_status`.
    QueryStatus,
    /// Issue the save command and feed the reply to `on_save_reply`.
    IssueSave,
    /// Pause one second, then issue the save command again and feed the
    /// reply to `on_save_reply`.
    PauseThenIssueSave,
    /// Create a backup and feed the result to `on_backup_result`.
    RunBackup,
    /// Issue the exit command and feed the reply to `on_exit_reply`.
    IssueExit,
    /// Run the start script and feed the result to `on_script_result`.
    RunStartScript,
    /// Nothing: the run is finished.
    Halt,
}

/// A reply confirms a save exactly when it carries non-empty output.
pub open spec fn is_save_ack(r: ConsoleReply) -> bool {
    match r {
        ConsoleReply::Output(v) => v@.len() > 0,
        ConsoleReply::Failed(_) => false,
    }
}

/// Destructive operations proceed only against a confirmed stopped
/// server, or on an explicit force request.
pub open spec fn gate_passes(status: ServerStatus, force: bool) -> bool {
    status is Stopped || force
}

/// One restart or shutdown run.
#[derive(Clone, PartialEq, Eq, Debug)]
pub struct LifecycleRun {
    pub mode: LifecycleMode,
    pub force: bool,
    pub phase: LifecyclePhase,
}

impl LifecycleRun {
    /// Starts a run; the first action is always the gating status query.
    pub fn begin(mode: LifecycleMode, force: bool) -> (r: (LifecycleRun, LifecycleAction))
        ensures
            r.0.mode == mode,
            r.0.force == force,
            r.0.phase is AwaitStatus,
            r.1 is QueryStatus,
    {
        (
            LifecycleRun { mode, force, phase: LifecyclePhase::AwaitStatus },
            LifecycleAction::QueryStatus,
        )
    }

    /// Applies the reply to the gating status query. With no force request,
    /// anything but a confirmed stopped server blocks the run on the spot:
    /// active players as `PlayersPresent`, a failed query conservatively as
    /// `StatusUnknown`. No exit command and no script can follow a blocked
    /// run.
    pub fn on_status(&mut self, reply: &ConsoleReply) -> (a: LifecycleAction)
        requires
            old(self).phase is AwaitStatus,
        ensures
            final(self).mode == old(self).mode,
            final(self).force == old(self).force,
            a is Halt <==> final(self).phase is Finished,
            gate_passes(status_of_reply(*reply), old(self).force) ==> {
                &&& final(self).phase == (LifecyclePhase::AwaitSave { attempt: 1u8 })
                &&& a is IssueSave
            },
            !gate_passes(status_of_reply(*reply), old(self).force) ==> {
                &&& a is Halt
                &&& status_of_reply(*reply) is Running ==> final(self).phase
                    == LifecyclePhase::Finished(
                    LifecycleOutcome::Blocked(BlockReason::PlayersPresent),
                )
                &&& status_of_reply(*reply) is Unknown ==> final(self).phase
                    == LifecyclePhase::Finished(
                    LifecycleOutcome::Blocked(BlockReason::StatusUnknown),
                )
            },
    {
        let status = crate::console::interpret_status(reply);
        match status {
            ServerStatus::Stopped => {
                self.phase = LifecyclePhase::AwaitSave { attempt: 1 };
                LifecycleAction::IssueSave
            },
            ServerStatus::Running(_) => {
                if self.force {
                    self.phase = LifecyclePhase::AwaitSave { attempt: 1 };
                    LifecycleAction::IssueSave
                } else {
                    self.phase = LifecyclePhase::Finished(
                        LifecycleOutcome::Blocked(BlockReason::PlayersPresent),
                    );
                    LifecycleAction::Halt
                }
            },
            ServerStatus::Unknown => {
                if self.force {
                    self.phase = LifecyclePhase::AwaitSave { attempt: 1 };
                    LifecycleAction::IssueSave
                } else {
                    self.phase = LifecyclePhase::Finished(
                        LifecycleOutcome::Blocked(BlockReason::StatusUnknown),
                    );
                    LifecycleAction::Halt
                }
            },
        }
    }

    /// Applies the reply to one save attempt. Non-empty output confirms the
    /// save and moves on to the backup; an empty or failed reply retries
    /// after a pause, up to three attempts in all, and then blocks the run
    /// as `ServerUnresponsive`.
    pub fn on_save_reply(&mut self, reply: &ConsoleReply) -> (a: LifecycleAction)
        requires
            old(self).phase matches LifecyclePhase::AwaitSave { attempt } && 1 <= attempt <= 3,
        ensures
            final(self).mode == old(self).mode,
            final(self).force == old(self).force,
            a is Halt <==> final(self).phase is Finished,
            is_save_ack(*reply) ==> final(self).phase is AwaitBackup && a is RunBackup,
            !is_save_ack(*reply) ==> match old(self).phase {
                LifecyclePhase::AwaitSave { attempt } => {
                    &&& attempt < 3 ==> final(self).phase == (LifecyclePhase::AwaitSave {
                        attempt: (attempt + 1) as u8,
                    }) && a is PauseThenIssueSave
                    &&& attempt == 3 ==> final(self).phase == LifecyclePhase::Finished(
                        LifecycleOutcome::Blocked(BlockReason::ServerUnresponsive),
                    ) && a is Halt
                },
                _ => false,
            },
    {
        let ack = match reply {
            ConsoleReply::Output(v) => v.len() > 0,
            ConsoleReply::Failed(_) => false,
        };
        if ack {
            self.phase = LifecyclePhase::AwaitBackup;
            LifecycleAction::RunBackup
        } else {
            let attempt = match self.phase {
                LifecyclePhase::AwaitSave { attempt } => attempt,
                _ => 1,
            };
            if attempt < 3 {
                self.phase = LifecyclePhase::AwaitSave { attempt: attempt + 1 };
                LifecycleAction::PauseThenIssueSave
            } else {
                self.phase = LifecyclePhase::Finished(
                    LifecycleOutcome::Blocked(BlockReason::ServerUnresponsive),
                );
                LifecycleAction::Halt
            }
        }
    }

    /// Applies the result of the backup that follows a confirmed save. Only
    /// a successful backup lets the run issue the exit command; a backup
    /// error ends the run and is surfaced untouched.
    pub fn on_backup_result(&mut self, result: &Result<(), BackupError>) -> (a: LifecycleAction)
        requires
            old(self).phase is AwaitBackup,
        ensures
            final(self).mode == old(self).mode,
            final(self).force == old(self).force,
            a is Halt <==> final(self).phase is Finished,
            result is Ok ==> final(self).phase is AwaitExit && a is IssueExit,
            (*result) matches Err(e) ==> final(self).phase == LifecyclePhase::Finished(
                LifecycleOutcome::BackupFailed(e),
            ) && a is Halt,
    {
        match result {
            Ok(_) => {
                self.phase = LifecyclePhase::AwaitExit;
                LifecycleAction::IssueExit
            },
            Err(e) => {
                self.phase = LifecyclePhase::Finished(LifecycleOutcome::BackupFailed(*e));
                LifecycleAction::Halt
            },
        }
    }

    /// Applies the reply to the exit command. An empty or failed reply means
    /// the shutdown could not be confirmed and the caller must re-check the
    /// server state by hand. A confirmed exit ends a shutdown run, and makes
    /// a restart run launch the start script.
    pub fn on_exit_reply(&mut self, reply: &ConsoleReply) -> (a: LifecycleAction)
        requires
            old(self).phase is AwaitExit,
        ensures
            final(self).mode == old(self).mode,
            final(self).force == old(self).force,
            a is Halt <==> final(self).phase is Finished,
            !is_save_ack(*reply) ==> final(self).phase == LifecyclePhase::Finished(
                LifecycleOutcome::ExitUnconfirmed,
            ) && a is Halt,
            is_save_ack(*reply) && old(self).mode is Shutdown ==> a is Halt && match (
                *reply,
                final(self).phase,
            ) {
                (
                    ConsoleReply::Output(v),
                    LifecyclePhase::Finished(LifecycleOutcome::ShutdownComplete(out)),
                ) => out@ == v@,
                _ => false,
            },
            is_save_ack(*reply) && old(self).mode is Restart ==> final(self).phase is AwaitScript
                && a is RunStartScript,
    {
        match reply {
            ConsoleReply::Output(v) if v.len() > 0 => {
                match self.mode {
                    LifecycleMode::Shutdown => {
                        self.phase = LifecyclePhase::Finished(
                            LifecycleOutcome::ShutdownComplete(v.clone()),
                        );
                        LifecycleAction::Halt
                    },
                    LifecycleMode::Restart => {
                        self.phase = LifecyclePhase::AwaitScript;
                        LifecycleAction::RunStartScript
                    },
                }
            },
            _ => {
                self.phase = LifecyclePhase::Finished(LifecycleOutcome::ExitUnconfirmed);
                LifecycleAction::Halt
            },
        }
    }

    /// Applies the start script's result, ending a restart run with the
    /// script's output, a marker for empty output, or the script error.
    pub fn on_script_result(&mut self, result: &Result<Vec<u8>, ScriptError>) -> (a:
        LifecycleAction)
        requires
            old(self).phase is AwaitScript,
        ensures
            final(self).mode == old(self).mode,
            final(self).force == old(self).force,
            a is Halt <==> final(self).phase is Finished,
            a is Halt,
            match *result {
                Ok(out) => if out@.len() > 0 {
                    match final(self).phase {
                        LifecyclePhase::Finished(LifecycleOutcome::Restarted(r)) => r@ == out@,
                        _ => false,
                    }
                } else {
                    final(self).phase == LifecyclePhase::Finished(
                        LifecycleOutcome::RestartedNoOutput,
                    )
                },
                Err(e) => final(self).phase == LifecyclePhase::Finished(
                    LifecycleOutcome::ScriptFailed(e),
                ),
            },
    {
        match result {
            Ok(out) => {
                if out.len() > 0 {
                    self.phase = LifecyclePhase::Finished(LifecycleOutcome::Restarted(out.clone()));
                } else {
                    self.phase = LifecyclePhase::Finished(LifecycleOutcome::RestartedNoOutput);
                }
            },
            Err(e) => {
                self.phase = LifecyclePhase::Finished(LifecycleOutcome::ScriptFailed(*e));
            },
        }
        LifecycleAction::Halt
    }
}

/// Final outcome of the standalone save operation.
#[derive(Clone, PartialEq, Eq, Debug)]
pub enum SaveOutcome {
    /// The server confirmed the save with this output; the caller creates a
    /// backup next.
    Saved(Vec<u8>),
    /// All three attempts returned no output; no backup is created.
    SaveFailed,
}

/// One in-flight save operation, waiting for the reply to attempt `attempt`.
#[derive(Clone, Copy, PartialEq, Eq, Structural, Debug)]
pub struct SaveProbe {
    pub attempt: u8,
}

/// What one save reply leads to.
#[derive(Clone, PartialEq, Eq, Debug)]
pub enum SaveStep {
    /// The save is confirmed; create a backup, then report this output.
    Confirmed(Vec<u8>),
    /// Pause one second and issue the save command again.
    RetryAfterPause(SaveProbe),
    /// The third attempt also returned nothing: give up.
    Failed,
}

/// Starts a save operation; the caller issues the save command and feeds the
/// reply to `save_on_reply`.
pub fn save_begin() -> (p: SaveProbe)
    ensures
        p.attempt == 1,
{
    SaveProbe { attempt: 1 }
}

/// Applies the reply to one save attempt: the first non-empty response
/// confirms the save at once; an empty or failed reply is retried after a
/// pause until three attempts have been spent.
pub fn save_on_reply(p: SaveProbe, reply: &ConsoleReply) -> (s: SaveStep)
    requires
        1 <= p.attempt <= 3,
    ensures
        is_save_ack(*reply) ==> match (s, *reply) {
            (SaveStep::Confirmed(out), ConsoleReply::Output(v)) => out@ == v@,
            _ => false,
        },
        !is_save_ack(*reply) && p.attempt < 3 ==> s == SaveStep::RetryAfterPause(
            SaveProbe { attempt: (p.attempt + 1) as u8 },
        ),
        !is_save_ack(*reply) && p.attempt == 3 ==> s == SaveStep::Failed,
{
    match reply {
        ConsoleReply::Output(v) if v.len() > 0 => SaveStep::Confirmed(v.clone()),
        _ => {
            if p.attempt < 3 {
                SaveStep::RetryAfterPause(SaveProbe { attempt: p.attempt + 1 })
            } else {
                SaveStep::Failed
            }
        },
    }
}

/// Runs the whole save operation against a given series of console replies,
/// one per attempt, and also returns how many console calls were made. At
/// most three replies are consumed, and the operation returns with the first
/// non-empty response: when attempt `k` is the first to carry output, exactly
/// `k` calls are made.
pub fn run_save_attempts(replies: &Vec<ConsoleReply>) -> (r: (SaveOutcome, usize))
    requires
        replies@.len() >= 3,
    ensures
        1 <= r.1 <= 3,
        is_save_ack(replies@[0]) ==> r.1 == 1,
        !is_save_ack(replies@[0]) && is_save_ack(replies@[1]) ==> r.1 == 2,
        !is_save_ack(replies@[0]) && !is_save_ack(replies@[1]) ==> r.1 == 3,
        forall|k: int|
            0 <= k < 3 && is_save_ack(replies@[k]) && (forall|j: int|
                0 <= j < k ==> !is_save_ack(replies@[j])) ==> match (r.0, replies@[k]) {
                (SaveOutcome::Saved(out), ConsoleReply::Output(v)) => out@ == v@,
                _ => false,
            },
        (forall|k: int| 0 <= k < 3 ==> !is_save_ack(replies@[k])) ==> r.0 is SaveFailed,
{
    let mut probe = save_begin();
    let mut calls: usize = 1;
    match save_on_reply(probe, &replies[0]) {
        SaveStep::Confirmed(out) => {
            return (SaveOutcome::Saved(out), calls);
        },
        SaveStep::RetryAfterPause(p) => {
            probe = p;
        },
        SaveStep::Failed => {
            return (SaveOutcome::SaveFailed, calls);
        },
    }
    calls = 2;
    match save_on_reply(probe, &replies[1]) {
        SaveStep::Confirmed(out) => {
            return (SaveOutcome::Saved(out), calls);
        },
        SaveStep::RetryAfterPause(p) => {
            probe = p;
        },
        SaveStep::Failed => {
            return (SaveOutcome::SaveFailed, calls);
        },
    }
    calls = 3;
    match save_on_reply(probe, &replies[2]) {
        SaveStep::Confirmed(out) => (SaveOutcome::Saved(out), calls),
        _ => (SaveOutcome::SaveFailed, calls),
    }
}

/// What the reply to the gating status query means for a start request.
#[derive(Clone, Copy, PartialEq, Eq, Structural, Debug)]
pub enum StartDecision {
    /// The server is confirmed stopped: run the start script.
    LaunchScript,
    /// The server answered the query: it is already running.
    AlreadyRunning,
    /// The query failed; conservatively, do not launch a second instance.
    Unconfirmed,
}

/// Gates a start request on the status query's reply: only a confirmed
/// stopped server is started.
pub fn start_gate(status_reply: &ConsoleReply) -> (d: StartDecision)
    ensures
        status_of_reply(*status_reply) is Stopped <==> d is LaunchScript,
        status_of_reply(*status_reply) is Running <==> d is AlreadyRunning,
        status_of_reply(*status_reply) is Unknown <==> d is Unconfirmed,
{
    match crate::console::interpret_status(status_reply) {
        ServerStatus::Stopped => StartDecision::LaunchScript,
        ServerStatus::Running(_) => StartDecision::AlreadyRunning,
        ServerStatus::Unknown => StartDecision::Unconfirmed,
    }
}

/// Final outcome of a start request.
#[derive(Clone, PartialEq, Eq, Debug)]
pub enum StartOutcome {
    /// The start script's captured output.
    Started(Vec<u8>),
    /// The start script ran but printed nothing; this is a success marker,
    /// not an error.
    NoOutput,
    /// The start script failed.
    ScriptFailed(ScriptError),
}

/// Maps the start script's result to the reported outcome: output is relayed
/// as captured, and empty output is reported as `NoOutput`.
pub fn start_outcome(result: &Result<Vec<u8>, ScriptError>) -> (o: StartOutcome)
    ensures
        match *result {
            Ok(out) => if out@.len() > 0 {
                match o {
                    StartOutcome::Started(r) => r@ == out@,
                    _ => false,
                }
            } else {
                o is NoOutput
            },
            Err(e) => o == StartOutcome::ScriptFailed(e),
        },
{
    match result {
        Ok(out) => {
            if out.len() > 0 {
                StartOutcome::Started(out.clone())
            } else {
                StartOutcome::NoOutput
            }
        },
        Err(e) => StartOutcome::ScriptFailed(*e),
    }
}

/// Reads the tunnel helper's probe output: the probe prints `0` when the
/// helper process is not running.
pub fn tunnel_alive(probe_output: &Vec<u8>) -> (b: bool)
    ensures
        b <==> probe_output@ != seq![48u8],
{
    let dead = probe_output.len() == 1 && probe_output[0] == 48;
    proof {
        if probe_output@.len() == 1 && probe_output@[0] == 48 {
            assert(probe_output@ =~= seq![48u8]);
        }
    }
    !dead
}

/// Gates a tunnel-helper reload. Reloading the tunnel drops the connection
/// of every active player, so it is allowed only when no player can be
/// confirmed present: a stopped server, a failed status query, or an
/// explicit force request.
pub fn tunnel_reload_allowed(status_reply: &ConsoleReply, force: bool) -> (b: bool)
    ensures
        b <==> (!(status_of_reply(*status_reply) is Running) || force),
{
    match crate::console::interpret_status(status_reply) {
        ServerStatus::Running(_) => force,
        _ => true,
    }
}

} // verus!
