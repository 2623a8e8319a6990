//! The process lifecycle as a state machine: `Starting`, `Running`,
//! `ShuttingDown`, `Stopped`.
//!
//! The machine decides; the program around it acts. For each stage there is
//! one pending action. The program performs it and reports the result as an
//! event, and the machine moves to the next stage.

use vstd::prelude::*;
use crate::error::{Containment, ErrorKind, EXIT_FAILURE, EXIT_SUCCESS};
use crate::platform::{
    leaves_stale_endpoint, needs_endpoint_cleanup, run_platform, select_strategy, Config,
    Platform, StartupStrategy,
};
use crate::privilege::{is_admin, running_as_admin};
use crate::uniqueness::{
    cleanup_failure, guard, is_live, review_cleanup, ProbeOutcome, RemovalOutcome,
};

verus! {

/// Milliseconds granted, after the loop has stopped, to teardown work that
/// the last command started.
pub const GRACE_DELAY_MS: u64 = 500;

/// Name of the log file inside the log directory.
pub const DAEMON_LOG_FILENAME: &'static str = "daemon.log";

/// Why the process stopped with a failure.
#[derive(Clone, Copy, Debug, PartialEq, Eq, Structural)]
pub enum Failure {
    LogDirUnavailable,
    LoggerInitFailure,
    ServiceFailure,
    ServiceRegistrationFailure,
    AlreadyRunning,
    SettingsDirUnavailable,
    CacheDirUnavailable,
    BindFailure,
    DaemonInitFailure,
    HandlerInstallFailure,
    LoopFailure,
}

/// How the process stopped.
#[derive(Clone, Copy, Debug, PartialEq, Eq, Structural)]
pub enum ExitStatus {
    Orderly,
    Failed(Failure),
}

/// The four states of the lifecycle.
#[derive(Clone, Copy, Debug, PartialEq, Eq, Structural)]
pub enum Phase {
    Starting,
    Running,
    ShuttingDown,
    Stopped,
}

/// Where the process stands. Each stage but the last waits for the result
/// of one action.
#[derive(Clone, Copy, Debug, PartialEq, Eq, Structural)]
pub enum Stage {
    ResolveLogDir,
    InitLogger,
    RunService,
    RegisterService,
    ProbeInstance,
    RemoveStaleEndpoint,
    IdentifyUser,
    ResolveSettingsDir,
    ResolveCacheDir,
    StartServer,
    StartDaemon,
    InstallHandlers,
    Serving,
    Draining,
    Grace,
    Exited(ExitStatus),
}

/// The work that the surrounding program does for the machine.
#[derive(Clone, Copy, Debug, PartialEq, Eq, Structural)]
pub enum Action {
    /// Find the directory that holds the log file.
    ResolveLogDir,
    /// Set up the logger, with or without a log file.
    InitLogger { to_file: bool, stdout_timestamps: bool },
    /// Hand control to the service manager until the service stops.
    RunService,
    /// Register the service with the service manager.
    RegisterService,
    /// Probe the well-known endpoint for a live instance.
    ProbeInstance,
    /// Remove what a crashed instance left at the endpoint's address.
    RemoveStaleEndpoint,
    /// Ask the operating system for the user id of this process.
    IdentifyUser,
    /// Find the settings directory.
    ResolveSettingsDir,
    /// Find the cache directory.
    ResolveCacheDir,
    /// Create the command channel, bind the endpoint and start serving
    /// clients.
    StartServer,
    /// Start the owner of the service state.
    StartDaemon,
    /// Register the handlers for termination requests.
    InstallHandlers,
    /// Receive and handle commands, one at a time.
    ServeCommands,
    /// Accept no new command and wait for the one in flight to finish.
    AwaitLoopExit,
    /// Wait.
    Sleep { millis: u64 },
    /// Leave the process.
    Exit { code: i32 },
}

/// The result of an action, or something that happened while serving.
#[derive(Clone, Copy, Debug, PartialEq, Eq, Structural)]
pub enum Event {
    LogDirResolved { ok: bool },
    LoggerInitialized { ok: bool },
    ServiceFinished { ok: bool },
    ServiceRegistered { ok: bool },
    ProbeCompleted(ProbeOutcome),
    EndpointRemoval(RemovalOutcome),
    UserIdentified { uid: u32 },
    SettingsDirResolved { ok: bool },
    CacheDirResolved { ok: bool },
    ServerStarted { ok: bool },
    DaemonStarted { ok: bool },
    HandlersInstalled { ok: bool },
    /// A command was received and handled to completion.
    CommandHandled,
    /// The shutdown handle fired.
    ShutdownRequested,
    /// The command channel reported its end: every sender is gone.
    CommandsExhausted,
    /// The loop has stopped, in good order or not.
    LoopExited { ok: bool },
    /// The grace delay is over.
    GraceElapsed,
}

/// Something to tell the operator about a transition.
#[derive(Clone, Copy, Debug, PartialEq, Eq, Structural)]
pub enum Notice {
    LoggingToDirectory,
    ServiceRegistered,
    StaleEndpointNotRemoved,
    NotAdministrator,
    Listening,
    Quitting,
    Aborting(Failure),
}

/// The machine: the inputs fixed at launch and the current stage.
#[derive(Clone, Copy, Debug, PartialEq, Eq, Structural)]
pub struct Lifecycle {
    pub config: Config,
    pub platform: Platform,
    pub stage: Stage,
}

/// The stage that stands for a failed stop.
pub open spec fn failed(failure: Failure) -> Stage {
    Stage::Exited(ExitStatus::Failed(failure))
}

/// The stage after an action that either worked or failed.
pub open spec fn proceed(ok: bool, next: Stage, failure: Failure) -> Stage {
    if ok {
        next
    } else {
        failed(failure)
    }
}

/// The stage a process starts in: the log directory is needed only when
/// logging to a file.
pub open spec fn first_stage(config: Config) -> Stage {
    if config.log_to_file {
        Stage::ResolveLogDir
    } else {
        Stage::InitLogger
    }
}

/// The stage that follows logging setup: the first of the selected
/// strategy.
pub open spec fn stage_after_logging(config: Config, platform: Platform) -> Stage {
    match select_strategy(config, platform) {
        StartupStrategy::Standalone => Stage::ProbeInstance,
        StartupStrategy::SystemService => Stage::RunService,
        StartupStrategy::RegisterService => Stage::RegisterService,
    }
}

/// The stage that follows a probe that found no live instance.
pub open spec fn stage_after_probe(platform: Platform) -> Stage {
    if leaves_stale_endpoint(platform) {
        Stage::RemoveStaleEndpoint
    } else {
        Stage::IdentifyUser
    }
}

/// The stage after the loop has stopped.
pub open spec fn stage_after_loop(ok: bool) -> Stage {
    proceed(ok, Stage::Grace, Failure::LoopFailure)
}

/// The transition function. An event that does not answer the pending
/// action of the stage changes nothing.
pub open spec fn next_stage(config: Config, platform: Platform, stage: Stage, event: Event)
    -> Stage {
    match (stage, event) {
        (Stage::ResolveLogDir, Event::LogDirResolved { ok }) => proceed(
            ok,
            Stage::InitLogger,
            Failure::LogDirUnavailable,
        ),
        (Stage::InitLogger, Event::LoggerInitialized { ok }) => proceed(
            ok,
            stage_after_logging(config, platform),
            Failure::LoggerInitFailure,
        ),
        (Stage::RunService, Event::ServiceFinished { ok }) => proceed(
            ok,
            Stage::Exited(ExitStatus::Orderly),
            Failure::ServiceFailure,
        ),
        (Stage::RegisterService, Event::ServiceRegistered { ok }) => proceed(
            ok,
            Stage::Exited(ExitStatus::Orderly),
            Failure::ServiceRegistrationFailure,
        ),
        (Stage::ProbeInstance, Event::ProbeCompleted(outcome)) => proceed(
            !is_live(outcome),
            stage_after_probe(platform),
            Failure::AlreadyRunning,
        ),
        (Stage::RemoveStaleEndpoint, Event::EndpointRemoval(_)) => Stage::IdentifyUser,
        (Stage::IdentifyUser, Event::UserIdentified { uid: _ }) => Stage::ResolveSettingsDir,
        (Stage::ResolveSettingsDir, Event::SettingsDirResolved { ok }) => proceed(
            ok,
            Stage::ResolveCacheDir,
            Failure::SettingsDirUnavailable,
        ),
        (Stage::ResolveCacheDir, Event::CacheDirResolved { ok }) => proceed(
            ok,
            Stage::StartServer,
            Failure::CacheDirUnavailable,
        ),
        (Stage::StartServer, Event::ServerStarted { ok }) => proceed(
            ok,
            Stage::StartDaemon,
            Failure::BindFailure,
        ),
        (Stage::StartDaemon, Event::DaemonStarted { ok }) => proceed(
            ok,
            Stage::InstallHandlers,
            Failure::DaemonInitFailure,
        ),
        (Stage::InstallHandlers, Event::HandlersInstalled { ok }) => proceed(
            ok,
            Stage::Serving,
            Failure::HandlerInstallFailure,
        ),
        (Stage::Serving, Event::CommandHandled) => Stage::Serving,
        (Stage::Serving, Event::ShutdownRequested) => Stage::Draining,
        (Stage::Serving, Event::CommandsExhausted) => Stage::Draining,
        (Stage::Serving, Event::LoopExited { ok }) => stage_after_loop(ok),
        (Stage::Draining, Event::LoopExited { ok }) => stage_after_loop(ok),
        (Stage::Grace, Event::GraceElapsed) => Stage::Exited(ExitStatus::Orderly),
        _ => stage,
    }
}

/// The failure that a stage records, if it is a failed stop.
pub open spec fn failure_of(stage: Stage) -> Option<Failure> {
    match stage {
        Stage::Exited(ExitStatus::Failed(failure)) => Some(failure),
        _ => None,
    }
}

/// What a transition has to tell the operator. Every failed stop is
/// announced; so are the few steps worth a line in the log.
pub open spec fn notice_for(config: Config, platform: Platform, stage: Stage, event: Event)
    -> Option<Notice> {
    let next = next_stage(config, platform, stage, event);
    if next != stage && failure_of(next).is_some() {
        Some(Notice::Aborting(failure_of(next).unwrap()))
    } else {
        match (stage, event) {
            (Stage::InitLogger, Event::LoggerInitialized { ok: _ }) => if config.log_to_file {
                Some(Notice::LoggingToDirectory)
            } else {
                None
            },
            (Stage::RegisterService, Event::ServiceRegistered { ok: _ }) => Some(
                Notice::ServiceRegistered,
            ),
            (Stage::RemoveStaleEndpoint, Event::EndpointRemoval(outcome)) => if cleanup_failure(
                outcome,
            ).is_some() {
                Some(Notice::StaleEndpointNotRemoved)
            } else {
                None
            },
            (Stage::IdentifyUser, Event::UserIdentified { uid }) => if is_admin(platform, uid) {
                None
            } else {
                Some(Notice::NotAdministrator)
            },
            (Stage::StartServer, Event::ServerStarted { ok: _ }) => Some(Notice::Listening),
            (Stage::Serving, Event::LoopExited { ok: _ }) => Some(Notice::Quitting),
            (Stage::Draining, Event::LoopExited { ok: _ }) => Some(Notice::Quitting),
            _ => None,
        }
    }
}

/// The exit status of the process for each way of stopping.
pub open spec fn code_of(status: ExitStatus) -> i32 {
    match status {
        ExitStatus::Orderly => EXIT_SUCCESS,
        ExitStatus::Failed(_) => EXIT_FAILURE,
    }
}

/// The action that a stage waits for.
pub open spec fn action_for(config: Config, stage: Stage) -> Action {
    match stage {
        Stage::ResolveLogDir => Action::ResolveLogDir,
        Stage::InitLogger => Action::InitLogger {
            to_file: config.log_to_file,
            stdout_timestamps: config.log_stdout_timestamps,
        },
        Stage::RunService => Action::RunService,
        Stage::RegisterService => Action::RegisterService,
        Stage::ProbeInstance => Action::ProbeInstance,
        Stage::RemoveStaleEndpoint => Action::RemoveStaleEndpoint,
        Stage::IdentifyUser => Action::IdentifyUser,
        Stage::ResolveSettingsDir => Action::ResolveSettingsDir,
        Stage::ResolveCacheDir => Action::ResolveCacheDir,
        Stage::StartServer => Action::StartServer,
        Stage::StartDaemon => Action::StartDaemon,
        Stage::InstallHandlers => Action::InstallHandlers,
        Stage::Serving => Action::ServeCommands,
        Stage::Draining => Action::AwaitLoopExit,
        Stage::Grace => Action::Sleep { millis: GRACE_DELAY_MS },
        Stage::Exited(status) => Action::Exit { code: code_of(status) },
    }
}

/// The state of the lifecycle that a stage belongs to.
pub open spec fn phase_of(stage: Stage) -> Phase {
    match stage {
        Stage::Exited(_) => Phase::Stopped,
        Stage::Draining => Phase::ShuttingDown,
        Stage::Grace => Phase::ShuttingDown,
        Stage::Serving => Phase::Running,
        Stage::RunService => Phase::Running,
        _ => Phase::Starting,
    }
}

/// The stage reached from `stage` after the events of `events`, in order.
pub open spec fn run(config: Config, platform: Platform, stage: Stage, events: Seq<Event>)
    -> Stage
    decreases events.len(),
{
    if events.len() == 0 {
        stage
    } else {
        next_stage(
            config,
            platform,
            run(config, platform, stage, events.drop_last()),
            events.last(),
        )
    }
}

/// The exit status for a way of stopping: success for an orderly stop,
/// failure for every other.
pub fn exit_code(status: ExitStatus) -> (code: i32)
    ensures
        code == code_of(status),
        code == EXIT_SUCCESS <==> status == ExitStatus::Orderly,
{
    match status {
        ExitStatus::Orderly => EXIT_SUCCESS,
        ExitStatus::Failed(_) => EXIT_FAILURE,
    }
}

impl Failure {
    /// The line that describes each failure.
    pub open spec fn text(self) -> Seq<char> {
        match self {
            Failure::LogDirUnavailable => "Unable to get log directory"@,
            Failure::LoggerInitFailure => "Unable to initialize logger"@,
            Failure::ServiceFailure => "Unable to run as a system service"@,
            Failure::ServiceRegistrationFailure => "Unable to install the service"@,
            Failure::AlreadyRunning => "Another instance of the daemon is already running"@,
            Failure::SettingsDirUnavailable => "Unable to get settings dir"@,
            Failure::CacheDirUnavailable => "Unable to get cache dir"@,
            Failure::BindFailure => "Unable to start management interface server"@,
            Failure::DaemonInitFailure => "Unable to initialize daemon"@,
            Failure::HandlerInstallFailure => "Unable to install shutdown signal handlers"@,
            Failure::LoopFailure => "The daemon stopped on an unrecoverable error"@,
        }
    }

    /// The kind of failure, for those that the core itself detects. The
    /// others come from the collaborators that startup calls.
    pub open spec fn spec_kind(self) -> Option<ErrorKind> {
        match self {
            Failure::AlreadyRunning => Some(ErrorKind::AlreadyRunning),
            Failure::BindFailure => Some(ErrorKind::BindFailure),
            Failure::HandlerInstallFailure => Some(ErrorKind::HandlerInstallFailure),
            _ => None,
        }
    }

    /// The kind of this failure, if the core itself detects it. Each such
    /// kind is fatal.
    pub fn kind(&self) -> (kind: Option<ErrorKind>)
        ensures
            kind == self.spec_kind(),
            kind.is_some() ==> kind.unwrap().spec_containment() == Containment::Fatal,
    {
        match self {
            Failure::AlreadyRunning => Some(ErrorKind::AlreadyRunning),
            Failure::BindFailure => Some(ErrorKind::BindFailure),
            Failure::HandlerInstallFailure => Some(ErrorKind::HandlerInstallFailure),
            _ => None,
        }
    }

    /// A line for the operator that says what failed.
    pub fn description(&self) -> (line: &'static str)
        ensures
            line@ == self.text(),
    {
        match self {
            Failure::LogDirUnavailable => "Unable to get log directory",
            Failure::LoggerInitFailure => "Unable to initialize logger",
            Failure::ServiceFailure => "Unable to run as a system service",
            Failure::ServiceRegistrationFailure => "Unable to install the service",
            Failure::AlreadyRunning => "Another instance of the daemon is already running",
            Failure::SettingsDirUnavailable => "Unable to get settings dir",
            Failure::CacheDirUnavailable => "Unable to get cache dir",
            Failure::BindFailure => "Unable to start management interface server",
            Failure::DaemonInitFailure => "Unable to initialize daemon",
            Failure::HandlerInstallFailure => "Unable to install shutdown signal handlers",
            Failure::LoopFailure => "The daemon stopped on an unrecoverable error",
        }
    }
}

impl Lifecycle {
    /// A process at its first stage.
    pub fn new(config: Config, platform: Platform) -> (machine: Lifecycle)
        ensures
            machine.config == config,
            machine.platform == platform,
            machine.stage == first_stage(config),
    {
        let stage = if config.log_to_file {
            Stage::ResolveLogDir
        } else {
            Stage::InitLogger
        };
        Lifecycle { config, platform, stage }
    }

    /// The stage the process is in.
    pub fn stage(&self) -> (stage: Stage)
        ensures
            stage == self.stage,
    {
        self.stage
    }

    /// The state of the lifecycle the process is in.
    pub fn phase(&self) -> (phase: Phase)
        ensures
            phase == phase_of(self.stage),
    {
        match self.stage {
            Stage::Exited(_) => Phase::Stopped,
            Stage::Draining | Stage::Grace => Phase::ShuttingDown,
            Stage::Serving | Stage::RunService => Phase::Running,
            Stage::ResolveLogDir
            | Stage::InitLogger
            | Stage::RegisterService
            | Stage::ProbeInstance
            | Stage::RemoveStaleEndpoint
            | Stage::IdentifyUser
            | Stage::ResolveSettingsDir
            | Stage::ResolveCacheDir
            | Stage::StartServer
            | Stage::StartDaemon
            | Stage::InstallHandlers => Phase::Starting,
        }
    }

    /// The action the process has to perform next.
    pub fn pending_action(&self) -> (action: Action)
        ensures
            action == action_for(self.config, self.stage),
    {
        match self.stage {
            Stage::ResolveLogDir => Action::ResolveLogDir,
            Stage::InitLogger => Action::InitLogger {
                to_file: self.config.log_to_file,
                stdout_timestamps: self.config.log_stdout_timestamps,
            },
            Stage::RunService => Action::RunService,
            Stage::RegisterService => Action::RegisterService,
            Stage::ProbeInstance => Action::ProbeInstance,
            Stage::RemoveStaleEndpoint => Action::RemoveStaleEndpoint,
            Stage::IdentifyUser => Action::IdentifyUser,
            Stage::ResolveSettingsDir => Action::ResolveSettingsDir,
            Stage::ResolveCacheDir => Action::ResolveCacheDir,
            Stage::StartServer => Action::StartServer,
            Stage::StartDaemon => Action::StartDaemon,
            Stage::InstallHandlers => Action::InstallHandlers,
            Stage::Serving => Action::ServeCommands,
            Stage::Draining => Action::AwaitLoopExit,
            Stage::Grace => Action::Sleep { millis: GRACE_DELAY_MS },
            Stage::Exited(status) => Action::Exit { code: exit_code(status) },
        }
    }

    /// The exit status, once the process has stopped.
    pub fn exit_status(&self) -> (code: Option<i32>)
        ensures
            code == match self.stage {
                Stage::Exited(status) => Some(code_of(status)),
                _ => None,
            },
    {
        match self.stage {
            Stage::Exited(status) => Some(exit_code(status)),
            _ => None,
        }
    }

    /// Moves to the stage that `ok` selects and announces a failure.
    fn advance(&mut self, ok: bool, next: Stage, failure: Failure) -> (notice: Option<Notice>)
        ensures
            final(self).config == old(self).config,
            final(self).platform == old(self).platform,
            final(self).stage == proceed(ok, next, failure),
            notice == if ok {
                None
            } else {
                Some(Notice::Aborting(failure))
            },
    {
        if ok {
            self.stage = next;
            None
        } else {
            self.stage = Stage::Exited(ExitStatus::Failed(failure));
            Some(Notice::Aborting(failure))
        }
    }

    /// The first stage of the strategy that the configuration selects.
    fn strategy_entry(&self) -> (stage: Stage)
        ensures
            stage == stage_after_logging(self.config, self.platform),
    {
        match run_platform(&self.config, self.platform) {
            StartupStrategy::Standalone => Stage::ProbeInstance,
            StartupStrategy::SystemService => Stage::RunService,
            StartupStrategy::RegisterService => Stage::RegisterService,
        }
    }

    /// Takes in the result of the pending action, or what happened while
    /// serving, and moves on. Returns what there is to tell the operator.
    pub fn handle(&mut self, event: Event) -> (notice: Option<Notice>)
        ensures
            final(self).config == old(self).config,
            final(self).platform == old(self).platform,
            final(self).stage == next_stage(
                old(self).config,
                old(self).platform,
                old(self).stage,
                event,
            ),
            notice == notice_for(old(self).config, old(self).platform, old(self).stage, event),
    {
        match (self.stage, event) {
            (Stage::ResolveLogDir, Event::LogDirResolved { ok }) => self.advance(
                ok,
                Stage::InitLogger,
                Failure::LogDirUnavailable,
            ),
            (Stage::InitLogger, Event::LoggerInitialized { ok }) => {
                let entry = self.strategy_entry();
                let failure = self.advance(ok, entry, Failure::LoggerInitFailure);
                if ok && self.config.log_to_file {
                    Some(Notice::LoggingToDirectory)
                } else {
                    failure
                }
            },
            (Stage::RunService, Event::ServiceFinished { ok }) => self.advance(
                ok,
                Stage::Exited(ExitStatus::Orderly),
                Failure::ServiceFailure,
            ),
            (Stage::RegisterService, Event::ServiceRegistered { ok }) => {
                let failure = self.advance(
                    ok,
                    Stage::Exited(ExitStatus::Orderly),
                    Failure::ServiceRegistrationFailure,
                );
                if ok {
                    Some(Notice::ServiceRegistered)
                } else {
                    failure
                }
            },
            (Stage::ProbeInstance, Event::ProbeCompleted(outcome)) => {
                let next = if needs_endpoint_cleanup(self.platform) {
                    Stage::RemoveStaleEndpoint
                } else {
                    Stage::IdentifyUser
                };
                self.advance(guard(outcome).is_ok(), next, Failure::AlreadyRunning)
            },
            (Stage::RemoveStaleEndpoint, Event::EndpointRemoval(outcome)) => {
                self.stage = Stage::IdentifyUser;
                match review_cleanup(outcome) {
                    Some(_) => Some(Notice::StaleEndpointNotRemoved),
                    None => None,
                }
            },
            (Stage::IdentifyUser, Event::UserIdentified { uid }) => {
                self.stage = Stage::ResolveSettingsDir;
                if running_as_admin(self.platform, uid) {
                    None
                } else {
                    Some(Notice::NotAdministrator)
                }
            },
            (Stage::ResolveSettingsDir, Event::SettingsDirResolved { ok }) => self.advance(
                ok,
                Stage::ResolveCacheDir,
                Failure::SettingsDirUnavailable,
            ),
            (Stage::ResolveCacheDir, Event::CacheDirResolved { ok }) => self.advance(
                ok,
                Stage::StartServer,
                Failure::CacheDirUnavailable,
            ),
            (Stage::StartServer, Event::ServerStarted { ok }) => {
                let failure = self.advance(ok, Stage::StartDaemon, Failure::BindFailure);
                if ok {
                    Some(Notice::Listening)
                } else {
                    failure
                }
            },
            (Stage::StartDaemon, Event::DaemonStarted { ok }) => self.advance(
                ok,
                Stage::InstallHandlers,
                Failure::DaemonInitFailure,
            ),
            (Stage::InstallHandlers, Event::HandlersInstalled { ok }) => self.advance(
                ok,
                Stage::Serving,
                Failure::HandlerInstallFailure,
            ),
            (Stage::Serving, Event::ShutdownRequested)
            | (Stage::Serving, Event::CommandsExhausted) => {
                self.stage = Stage::Draining;
                None
            },
            (Stage::Serving, Event::LoopExited { ok })
            | (Stage::Draining, Event::LoopExited { ok }) => {
                let failure = self.advance(ok, Stage::Grace, Failure::LoopFailure);
                if ok {
                    Some(Notice::Quitting)
                } else {
                    failure
                }
            },
            (Stage::Grace, Event::GraceElapsed) => {
                self.stage = Stage::Exited(ExitStatus::Orderly);
                None
            },
            _ => None,
        }
    }
}

/// How far along a stage is. Used to state that the machine never goes
/// back.
pub open spec fn rank(stage: Stage) -> nat {
    match stage {
        Stage::ResolveLogDir => 0,
        Stage::InitLogger => 1,
        Stage::RunService => 2,
        Stage::RegisterService => 2,
        Stage::ProbeInstance => 2,
        Stage::RemoveStaleEndpoint => 3,
        Stage::IdentifyUser => 4,
        Stage::ResolveSettingsDir => 5,
        Stage::ResolveCacheDir => 6,
        Stage::StartServer => 7,
        Stage::StartDaemon => 8,
        Stage::InstallHandlers => 9,
        Stage::Serving => 10,
        Stage::Draining => 11,
        Stage::Grace => 12,
        Stage::Exited(_) => 13,
    }
}

/// The stages of a standalone run that lie behind the guard: from the
/// cleanup of the endpoint to the grace delay.
pub open spec fn behind_guard(stage: Stage) -> bool {
    3 <= rank(stage) <= 12
}

/// Whether `events` holds a probe that found no live instance.
pub open spec fn has_clear_probe(events: Seq<Event>) -> bool {
    exists|i: int|
        0 <= i < events.len() && (#[trigger] events[i] matches Event::ProbeCompleted(outcome)
            && !is_live(outcome))
}

/// A stopped process stays stopped, with the status it stopped with,
/// whatever event arrives.
pub proof fn lemma_stopped_is_final(
    config: Config,
    platform: Platform,
    status: ExitStatus,
    events: Seq<Event>,
)
    ensures
        run(config, platform, Stage::Exited(status), events) == Stage::Exited(status),
    decreases events.len(),
{
    if events.len() > 0 {
        lemma_stopped_is_final(config, platform, status, events.drop_last());
    }
}

/// The machine never goes back: an event either leaves the stage as it is
/// or leads to a later one. So no startup action is ever asked for twice.
pub proof fn lemma_stages_never_go_back(
    config: Config,
    platform: Platform,
    stage: Stage,
    event: Event,
)
    ensures
        rank(stage) <= rank(next_stage(config, platform, stage, event)),
        rank(stage) == rank(next_stage(config, platform, stage, event)) ==> next_stage(
            config,
            platform,
            stage,
            event,
        ) == stage,
{
}

/// When the probe finds a live instance, startup aborts on the spot:
/// whatever events follow, the process stays stopped with a failure status
/// and the server is never started.
pub proof fn lemma_live_peer_aborts_startup(
    config: Config,
    platform: Platform,
    outcome: ProbeOutcome,
    rest: Seq<Event>,
)
    requires
        is_live(outcome),
    ensures
        run(config, platform, Stage::ProbeInstance, seq![Event::ProbeCompleted(outcome)] + rest)
            == failed(Failure::AlreadyRunning),
        action_for(
            config,
            run(
                config,
                platform,
                Stage::ProbeInstance,
                seq![Event::ProbeCompleted(outcome)] + rest,
            ),
        ) == (Action::Exit { code: EXIT_FAILURE }),
    decreases rest.len(),
{
    let head = seq![Event::ProbeCompleted(outcome)];
    let events = head + rest;
    if rest.len() == 0 {
        assert(events.drop_last() =~= Seq::<Event>::empty());
        assert(run(config, platform, Stage::ProbeInstance, events.drop_last())
            == Stage::ProbeInstance);
        assert(events.last() == Event::ProbeCompleted(outcome));
    } else {
        assert(events.drop_last() =~= head + rest.drop_last());
        lemma_live_peer_aborts_startup(config, platform, outcome, rest.drop_last());
    }
}

/// The endpoint is bound only behind the guard: on every path from the
/// first stage to the start of the server, and to any later stage in which
/// the process holds the endpoint, a probe found no live instance.
pub proof fn lemma_server_starts_behind_guard(
    config: Config,
    platform: Platform,
    events: Seq<Event>,
)
    requires
        behind_guard(run(config, platform, first_stage(config), events)),
    ensures
        has_clear_probe(events),
    decreases events.len(),
{
    if events.len() > 0 {
        let before = events.drop_last();
        let stage = run(config, platform, first_stage(config), before);
        if behind_guard(stage) {
            lemma_server_starts_behind_guard(config, platform, before);
            let i = choose|i: int|
                0 <= i < before.len() && (#[trigger] before[i] matches Event::ProbeCompleted(
                    outcome,
                ) && !is_live(outcome));
            assert(events[i] == before[i]);
        } else {
            assert(stage == Stage::ProbeInstance);
            assert(events[events.len() - 1] == events.last());
        }
    }
}

/// A stale endpoint never stops startup. After a probe that found no live
/// instance, the removal of the stale artifact is the next action on a
/// platform that leaves one behind; whatever the removal reports, startup
/// goes on to bind the endpoint, and only a failed bind aborts it, with a
/// failure status.
pub proof fn lemma_stale_endpoint_is_cleared_before_bind(
    config: Config,
    platform: Platform,
    probe: ProbeOutcome,
    removal: RemovalOutcome,
    uid: u32,
    bound: bool,
)
    requires
        !is_live(probe),
        leaves_stale_endpoint(platform),
    ensures
        ({
            let cleaning = next_stage(
                config,
                platform,
                Stage::ProbeInstance,
                Event::ProbeCompleted(probe),
            );
            let events = seq![
                Event::ProbeCompleted(probe),
                Event::EndpointRemoval(removal),
                Event::UserIdentified { uid },
                Event::SettingsDirResolved { ok: true },
                Event::CacheDirResolved { ok: true },
            ];
            let binding = run(config, platform, Stage::ProbeInstance, events);
            let after = next_stage(config, platform, binding, Event::ServerStarted { ok: bound });
            &&& action_for(config, cleaning) == Action::RemoveStaleEndpoint
            &&& next_stage(config, platform, cleaning, Event::EndpointRemoval(removal))
                == Stage::IdentifyUser
            &&& binding == Stage::StartServer
            &&& bound ==> after == Stage::StartDaemon
            &&& !bound ==> after == failed(Failure::BindFailure) && action_for(config, after) == (
            Action::Exit { code: EXIT_FAILURE })
        }),
{
    let e0 = Event::ProbeCompleted(probe);
    let e1 = Event::EndpointRemoval(removal);
    let e2 = Event::UserIdentified { uid };
    let e3 = Event::SettingsDirResolved { ok: true };
    let e4 = Event::CacheDirResolved { ok: true };
    let s0 = Seq::<Event>::empty();
    let s1 = seq![e0];
    let s2 = seq![e0, e1];
    let s3 = seq![e0, e1, e2];
    let s4 = seq![e0, e1, e2, e3];
    let s5 = seq![e0, e1, e2, e3, e4];
    assert(s1.drop_last() =~= s0);
    assert(s2.drop_last() =~= s1);
    assert(s3.drop_last() =~= s2);
    assert(s4.drop_last() =~= s3);
    assert(s5.drop_last() =~= s4);
    assert(run(config, platform, Stage::ProbeInstance, s0) == Stage::ProbeInstance);
    assert(run(config, platform, Stage::ProbeInstance, s1) == Stage::RemoveStaleEndpoint);
    assert(run(config, platform, Stage::ProbeInstance, s2) == Stage::IdentifyUser);
    assert(run(config, platform, Stage::ProbeInstance, s3) == Stage::ResolveSettingsDir);
    assert(run(config, platform, Stage::ProbeInstance, s4) == Stage::ResolveCacheDir);
    assert(run(config, platform, Stage::ProbeInstance, s5) == Stage::StartServer);
}

/// The process reports success exactly when it stopped in good order.
pub proof fn lemma_exit_code_tells_orderly_stop(config: Config, stage: Stage)
    requires
        phase_of(stage) == Phase::Stopped,
    ensures
        action_for(config, stage) == (Action::Exit { code: EXIT_SUCCESS }) <==> stage
            == Stage::Exited(ExitStatus::Orderly),
        action_for(config, stage) == (Action::Exit { code: EXIT_FAILURE }) <==> failure_of(
            stage,
        ).is_some(),
{
}

} // verus!
