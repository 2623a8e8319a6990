use daemon_core::error::{ErrorKind, EXIT_FAILURE, EXIT_SUCCESS};
use daemon_core::lifecycle::{
    exit_code, Action, Event, ExitStatus, Failure, Lifecycle, Notice, Phase, Stage,
    DAEMON_LOG_FILENAME, GRACE_DELAY_MS,
};
use daemon_core::platform::{
    needs_endpoint_cleanup, run_platform, Config, Platform, StartupStrategy,
};
use daemon_core::uniqueness::{ProbeOutcome, RemovalOutcome};

fn plain() -> Config {
    Config {
        log_to_file: false,
        log_stdout_timestamps: false,
        run_as_service: false,
        register_service: false,
    }
}

fn started(platform: Platform) -> Lifecycle {
    let mut machine = Lifecycle::new(plain(), platform);
    assert_eq!(machine.handle(Event::LoggerInitialized { ok: true }), None);
    machine
}

fn serving() -> Lifecycle {
    let mut machine = started(Platform::Unix);
    machine.handle(Event::ProbeCompleted(ProbeOutcome::EndpointAbsent));
    machine.handle(Event::EndpointRemoval(RemovalOutcome::NotFound));
    machine.handle(Event::UserIdentified { uid: 0 });
    machine.handle(Event::SettingsDirResolved { ok: true });
    machine.handle(Event::CacheDirResolved { ok: true });
    machine.handle(Event::ServerStarted { ok: true });
    machine.handle(Event::DaemonStarted { ok: true });
    machine.handle(Event::HandlersInstalled { ok: true });
    machine
}

#[test]
fn starts_with_logging() {
    let machine = Lifecycle::new(plain(), Platform::Unix);
    assert_eq!(machine.stage(), Stage::InitLogger);
    assert_eq!(machine.phase(), Phase::Starting);
    assert_eq!(
        machine.pending_action(),
        Action::InitLogger { to_file: false, stdout_timestamps: false }
    );
    assert_eq!(machine.exit_status(), None);
}

#[test]
fn log_directory_is_resolved_only_for_file_logging() {
    let config = Config { log_to_file: true, log_stdout_timestamps: true, ..plain() };
    let mut machine = Lifecycle::new(config, Platform::Unix);
    assert_eq!(machine.stage(), Stage::ResolveLogDir);
    assert_eq!(machine.pending_action(), Action::ResolveLogDir);
    assert_eq!(machine.handle(Event::LogDirResolved { ok: true }), None);
    assert_eq!(
        machine.pending_action(),
        Action::InitLogger { to_file: true, stdout_timestamps: true }
    );
    assert_eq!(
        machine.handle(Event::LoggerInitialized { ok: true }),
        Some(Notice::LoggingToDirectory)
    );
    assert_eq!(machine.stage(), Stage::ProbeInstance);
}

#[test]
fn log_directory_failure_stops_the_process() {
    let config = Config { log_to_file: true, ..plain() };
    let mut machine = Lifecycle::new(config, Platform::Unix);
    assert_eq!(
        machine.handle(Event::LogDirResolved { ok: false }),
        Some(Notice::Aborting(Failure::LogDirUnavailable))
    );
    assert_eq!(machine.exit_status(), Some(1));
    assert_eq!(machine.phase(), Phase::Stopped);
}

#[test]
fn logger_failure_stops_the_process() {
    let mut machine = Lifecycle::new(plain(), Platform::Unix);
    assert_eq!(
        machine.handle(Event::LoggerInitialized { ok: false }),
        Some(Notice::Aborting(Failure::LoggerInitFailure))
    );
    assert_eq!(machine.stage(), Stage::Exited(ExitStatus::Failed(Failure::LoggerInitFailure)));
    assert_eq!(machine.pending_action(), Action::Exit { code: 1 });
}

#[test]
fn scenario_no_prior_instance_startup_completes() {
    let mut machine = started(Platform::Unix);
    assert_eq!(machine.pending_action(), Action::ProbeInstance);
    assert_eq!(machine.handle(Event::ProbeCompleted(ProbeOutcome::EndpointAbsent)), None);
    assert_eq!(machine.pending_action(), Action::RemoveStaleEndpoint);
    assert_eq!(machine.handle(Event::EndpointRemoval(RemovalOutcome::NotFound)), None);
    assert_eq!(machine.pending_action(), Action::IdentifyUser);
    assert_eq!(machine.handle(Event::UserIdentified { uid: 0 }), None);
    assert_eq!(machine.pending_action(), Action::ResolveSettingsDir);
    assert_eq!(machine.handle(Event::SettingsDirResolved { ok: true }), None);
    assert_eq!(machine.pending_action(), Action::ResolveCacheDir);
    assert_eq!(machine.handle(Event::CacheDirResolved { ok: true }), None);
    assert_eq!(machine.pending_action(), Action::StartServer);
    assert_eq!(machine.handle(Event::ServerStarted { ok: true }), Some(Notice::Listening));
    assert_eq!(machine.pending_action(), Action::StartDaemon);
    assert_eq!(machine.handle(Event::DaemonStarted { ok: true }), None);
    assert_eq!(machine.pending_action(), Action::InstallHandlers);
    assert_eq!(machine.phase(), Phase::Starting);
    assert_eq!(machine.handle(Event::HandlersInstalled { ok: true }), None);
    assert_eq!(machine.stage(), Stage::Serving);
    assert_eq!(machine.phase(), Phase::Running);
    assert_eq!(machine.pending_action(), Action::ServeCommands);
    assert_eq!(machine.exit_status(), None);
}

#[test]
fn scenario_second_instance_exits_with_failure() {
    let mut machine = started(Platform::Unix);
    assert_eq!(
        machine.handle(Event::ProbeCompleted(ProbeOutcome::Replied)),
        Some(Notice::Aborting(Failure::AlreadyRunning))
    );
    assert_eq!(machine.stage(), Stage::Exited(ExitStatus::Failed(Failure::AlreadyRunning)));
    assert_eq!(machine.phase(), Phase::Stopped);
    assert_eq!(machine.pending_action(), Action::Exit { code: 1 });
    assert_eq!(machine.exit_status(), Some(1));
    // Nothing that follows binds an endpoint.
    for event in [
        Event::EndpointRemoval(RemovalOutcome::Removed),
        Event::UserIdentified { uid: 0 },
        Event::SettingsDirResolved { ok: true },
        Event::CacheDirResolved { ok: true },
        Event::ServerStarted { ok: true },
    ] {
        assert_eq!(machine.handle(event), None);
        assert_eq!(machine.pending_action(), Action::Exit { code: 1 });
    }
}

#[test]
fn an_error_reply_counts_as_a_live_instance() {
    let mut machine = started(Platform::Unix);
    machine.handle(Event::ProbeCompleted(ProbeOutcome::RepliedWithError));
    assert_eq!(machine.exit_status(), Some(EXIT_FAILURE));
}

#[test]
fn stale_endpoint_is_removed_before_binding() {
    for probe in [ProbeOutcome::Unreachable, ProbeOutcome::NoReply] {
        for removal in [RemovalOutcome::Removed, RemovalOutcome::NotFound] {
            let mut machine = started(Platform::Unix);
            assert_eq!(machine.handle(Event::ProbeCompleted(probe)), None);
            assert_eq!(machine.pending_action(), Action::RemoveStaleEndpoint);
            assert_eq!(machine.handle(Event::EndpointRemoval(removal)), None);
            assert_eq!(machine.stage(), Stage::IdentifyUser);
        }
    }
}

#[test]
fn failed_removal_is_reported_and_startup_goes_on() {
    let mut machine = started(Platform::Unix);
    machine.handle(Event::ProbeCompleted(ProbeOutcome::Unreachable));
    assert_eq!(
        machine.handle(Event::EndpointRemoval(RemovalOutcome::Failed)),
        Some(Notice::StaleEndpointNotRemoved)
    );
    assert_eq!(machine.stage(), Stage::IdentifyUser);
    machine.handle(Event::UserIdentified { uid: 0 });
    machine.handle(Event::SettingsDirResolved { ok: true });
    machine.handle(Event::CacheDirResolved { ok: true });
    // The bind is the check that counts: it fails loudly.
    assert_eq!(
        machine.handle(Event::ServerStarted { ok: false }),
        Some(Notice::Aborting(Failure::BindFailure))
    );
    assert_eq!(machine.exit_status(), Some(1));
}

#[test]
fn windows_skips_the_endpoint_cleanup() {
    let mut machine = started(Platform::Windows);
    machine.handle(Event::ProbeCompleted(ProbeOutcome::EndpointAbsent));
    assert_eq!(machine.stage(), Stage::IdentifyUser);
    assert!(needs_endpoint_cleanup(Platform::Unix));
    assert!(!needs_endpoint_cleanup(Platform::Windows));
}

#[test]
fn a_user_without_rights_is_warned_about() {
    let mut machine = started(Platform::Unix);
    machine.handle(Event::ProbeCompleted(ProbeOutcome::EndpointAbsent));
    machine.handle(Event::EndpointRemoval(RemovalOutcome::Removed));
    assert_eq!(
        machine.handle(Event::UserIdentified { uid: 1000 }),
        Some(Notice::NotAdministrator)
    );
    assert_eq!(machine.stage(), Stage::ResolveSettingsDir);

    let mut machine = started(Platform::Windows);
    machine.handle(Event::ProbeCompleted(ProbeOutcome::EndpointAbsent));
    assert_eq!(machine.handle(Event::UserIdentified { uid: 1000 }), None);
}

#[test]
fn each_startup_failure_has_its_own_status() {
    let steps: [(Event, Event, Failure); 5] = [
        (
            Event::SettingsDirResolved { ok: true },
            Event::SettingsDirResolved { ok: false },
            Failure::SettingsDirUnavailable,
        ),
        (
            Event::CacheDirResolved { ok: true },
            Event::CacheDirResolved { ok: false },
            Failure::CacheDirUnavailable,
        ),
        (
            Event::ServerStarted { ok: true },
            Event::ServerStarted { ok: false },
            Failure::BindFailure,
        ),
        (
            Event::DaemonStarted { ok: true },
            Event::DaemonStarted { ok: false },
            Failure::DaemonInitFailure,
        ),
        (
            Event::HandlersInstalled { ok: true },
            Event::HandlersInstalled { ok: false },
            Failure::HandlerInstallFailure,
        ),
    ];
    for failing in 0..steps.len() {
        let mut machine = started(Platform::Unix);
        machine.handle(Event::ProbeCompleted(ProbeOutcome::EndpointAbsent));
        machine.handle(Event::EndpointRemoval(RemovalOutcome::Removed));
        machine.handle(Event::UserIdentified { uid: 0 });
        for step in 0..failing {
            machine.handle(steps[step].0);
        }
        assert_eq!(machine.handle(steps[failing].1), Some(Notice::Aborting(steps[failing].2)));
        assert_eq!(machine.stage(), Stage::Exited(ExitStatus::Failed(steps[failing].2)));
        assert_eq!(machine.exit_status(), Some(1));
    }
}

#[test]
fn scenario_termination_request_stops_in_order() {
    let mut machine = serving();
    assert_eq!(machine.phase(), Phase::Running);
    assert_eq!(machine.handle(Event::ShutdownRequested), None);
    assert_eq!(machine.stage(), Stage::Draining);
    assert_eq!(machine.phase(), Phase::ShuttingDown);
    assert_eq!(machine.pending_action(), Action::AwaitLoopExit);
    assert_eq!(machine.handle(Event::LoopExited { ok: true }), Some(Notice::Quitting));
    assert_eq!(machine.phase(), Phase::ShuttingDown);
    assert_eq!(machine.pending_action(), Action::Sleep { millis: 500 });
    assert_eq!(machine.handle(Event::GraceElapsed), None);
    assert_eq!(machine.stage(), Stage::Exited(ExitStatus::Orderly));
    assert_eq!(machine.phase(), Phase::Stopped);
    assert_eq!(machine.pending_action(), Action::Exit { code: 0 });
    assert_eq!(machine.exit_status(), Some(0));
}

#[test]
fn handled_commands_keep_the_loop_running() {
    let mut machine = serving();
    for _ in 0..3 {
        assert_eq!(machine.handle(Event::CommandHandled), None);
        assert_eq!(machine.stage(), Stage::Serving);
    }
}

#[test]
fn end_of_commands_shuts_down() {
    let mut machine = serving();
    assert_eq!(machine.handle(Event::CommandsExhausted), None);
    assert_eq!(machine.stage(), Stage::Draining);
}

#[test]
fn later_termination_requests_are_ignored() {
    let mut machine = serving();
    machine.handle(Event::ShutdownRequested);
    assert_eq!(machine.handle(Event::ShutdownRequested), None);
    assert_eq!(machine.stage(), Stage::Draining);
    machine.handle(Event::LoopExited { ok: true });
    assert_eq!(machine.handle(Event::ShutdownRequested), None);
    assert_eq!(machine.stage(), Stage::Grace);
}

#[test]
fn loop_failure_exits_without_grace() {
    let mut machine = serving();
    assert_eq!(
        machine.handle(Event::LoopExited { ok: false }),
        Some(Notice::Aborting(Failure::LoopFailure))
    );
    assert_eq!(machine.exit_status(), Some(1));

    let mut machine = serving();
    machine.handle(Event::ShutdownRequested);
    assert_eq!(
        machine.handle(Event::LoopExited { ok: false }),
        Some(Notice::Aborting(Failure::LoopFailure))
    );
    assert_eq!(machine.stage(), Stage::Exited(ExitStatus::Failed(Failure::LoopFailure)));
}

#[test]
fn loop_that_ends_by_itself_gets_its_grace() {
    let mut machine = serving();
    assert_eq!(machine.handle(Event::LoopExited { ok: true }), Some(Notice::Quitting));
    assert_eq!(machine.stage(), Stage::Grace);
}

#[test]
fn events_out_of_turn_change_nothing() {
    let mut machine = started(Platform::Unix);
    for event in [
        Event::GraceElapsed,
        Event::ServerStarted { ok: true },
        Event::ShutdownRequested,
        Event::CommandHandled,
        Event::LoopExited { ok: false },
        Event::LoggerInitialized { ok: false },
    ] {
        assert_eq!(machine.handle(event), None);
        assert_eq!(machine.stage(), Stage::ProbeInstance);
    }
}

#[test]
fn stopped_is_final() {
    let mut machine = serving();
    machine.handle(Event::ShutdownRequested);
    machine.handle(Event::LoopExited { ok: true });
    machine.handle(Event::GraceElapsed);
    for event in [
        Event::CommandHandled,
        Event::ProbeCompleted(ProbeOutcome::Replied),
        Event::LoopExited { ok: false },
        Event::GraceElapsed,
    ] {
        assert_eq!(machine.handle(event), None);
        assert_eq!(machine.exit_status(), Some(0));
    }
}

#[test]
fn strategy_follows_platform_and_switches() {
    let service = Config { run_as_service: true, register_service: true, ..plain() };
    let register = Config { register_service: true, ..plain() };
    assert_eq!(run_platform(&plain(), Platform::Unix), StartupStrategy::Standalone);
    assert_eq!(run_platform(&service, Platform::Unix), StartupStrategy::Standalone);
    assert_eq!(run_platform(&register, Platform::Unix), StartupStrategy::Standalone);
    assert_eq!(run_platform(&plain(), Platform::Windows), StartupStrategy::Standalone);
    assert_eq!(run_platform(&service, Platform::Windows), StartupStrategy::SystemService);
    assert_eq!(run_platform(&register, Platform::Windows), StartupStrategy::RegisterService);
}

#[test]
fn service_mode_runs_until_the_service_ends() {
    let config = Config { run_as_service: true, ..plain() };
    let mut machine = Lifecycle::new(config, Platform::Windows);
    machine.handle(Event::LoggerInitialized { ok: true });
    assert_eq!(machine.stage(), Stage::RunService);
    assert_eq!(machine.phase(), Phase::Running);
    assert_eq!(machine.pending_action(), Action::RunService);
    assert_eq!(machine.handle(Event::ServiceFinished { ok: true }), None);
    assert_eq!(machine.exit_status(), Some(0));

    let mut machine = Lifecycle::new(config, Platform::Windows);
    machine.handle(Event::LoggerInitialized { ok: true });
    assert_eq!(
        machine.handle(Event::ServiceFinished { ok: false }),
        Some(Notice::Aborting(Failure::ServiceFailure))
    );
    assert_eq!(machine.exit_status(), Some(1));
}

#[test]
fn registering_the_service_exits_afterwards() {
    let config = Config { register_service: true, ..plain() };
    let mut machine = Lifecycle::new(config, Platform::Windows);
    machine.handle(Event::LoggerInitialized { ok: true });
    assert_eq!(machine.stage(), Stage::RegisterService);
    assert_eq!(machine.pending_action(), Action::RegisterService);
    assert_eq!(
        machine.handle(Event::ServiceRegistered { ok: true }),
        Some(Notice::ServiceRegistered)
    );
    assert_eq!(machine.exit_status(), Some(0));

    let mut machine = Lifecycle::new(config, Platform::Windows);
    machine.handle(Event::LoggerInitialized { ok: true });
    assert_eq!(
        machine.handle(Event::ServiceRegistered { ok: false }),
        Some(Notice::Aborting(Failure::ServiceRegistrationFailure))
    );
    assert_eq!(machine.exit_status(), Some(1));
}

#[test]
fn exit_codes() {
    assert_eq!(exit_code(ExitStatus::Orderly), 0);
    assert_eq!(exit_code(ExitStatus::Failed(Failure::AlreadyRunning)), 1);
    assert_eq!(exit_code(ExitStatus::Failed(Failure::LoopFailure)), 1);
    assert_eq!(EXIT_SUCCESS, 0);
    assert_eq!(EXIT_FAILURE, 1);
}

#[test]
fn constants() {
    assert_eq!(GRACE_DELAY_MS, 500);
    assert_eq!(DAEMON_LOG_FILENAME, "daemon.log");
}

#[test]
fn failure_descriptions() {
    assert_eq!(Failure::LogDirUnavailable.description(), "Unable to get log directory");
    assert_eq!(Failure::LoggerInitFailure.description(), "Unable to initialize logger");
    assert_eq!(
        Failure::AlreadyRunning.description(),
        "Another instance of the daemon is already running"
    );
    assert_eq!(Failure::SettingsDirUnavailable.description(), "Unable to get settings dir");
    assert_eq!(Failure::CacheDirUnavailable.description(), "Unable to get cache dir");
    assert_eq!(
        Failure::BindFailure.description(),
        "Unable to start management interface server"
    );
    assert_eq!(Failure::DaemonInitFailure.description(), "Unable to initialize daemon");
    assert_eq!(
        Failure::HandlerInstallFailure.description(),
        "Unable to install shutdown signal handlers"
    );
    assert_eq!(
        Failure::LoopFailure.description(),
        "The daemon stopped on an unrecoverable error"
    );
    assert_eq!(Failure::ServiceFailure.description(), "Unable to run as a system service");
    assert_eq!(
        Failure::ServiceRegistrationFailure.description(),
        "Unable to install the service"
    );
}

#[test]
fn failures_of_the_core_are_fatal_kinds() {
    assert_eq!(Failure::AlreadyRunning.kind(), Some(ErrorKind::AlreadyRunning));
    assert_eq!(Failure::BindFailure.kind(), Some(ErrorKind::BindFailure));
    assert_eq!(Failure::HandlerInstallFailure.kind(), Some(ErrorKind::HandlerInstallFailure));
    for failure in [
        Failure::LogDirUnavailable,
        Failure::LoggerInitFailure,
        Failure::ServiceFailure,
        Failure::ServiceRegistrationFailure,
        Failure::SettingsDirUnavailable,
        Failure::CacheDirUnavailable,
        Failure::DaemonInitFailure,
        Failure::LoopFailure,
    ] {
        assert_eq!(failure.kind(), None);
    }
    for failure in [Failure::AlreadyRunning, Failure::BindFailure, Failure::HandlerInstallFailure] {
        assert!(failure.kind().unwrap().is_fatal());
    }
}
