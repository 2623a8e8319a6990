use daemon_core::error::ErrorKind;
use daemon_core::shutdown::{
    set_shutdown_signal_handler, Installation, ShutdownHandle, SignalAction, TerminationRequest,
};

fn installed(request: TerminationRequest) -> Installation {
    Installation { request, installed: true }
}

#[test]
fn handle_runs_the_stop_once() {
    let mut handle = ShutdownHandle::new();
    assert!(!handle.is_fired());
    let mut runs = 0;
    for _ in 0..50 {
        if handle.shutdown() {
            runs += 1;
        }
        assert!(handle.is_fired());
    }
    assert_eq!(runs, 1);
}

#[test]
fn first_firing_is_the_one_that_counts() {
    let mut handle = ShutdownHandle::new();
    assert!(handle.shutdown());
    assert!(!handle.shutdown());
    assert!(!handle.shutdown());
}

#[test]
fn first_request_calls_the_callback() {
    let outcomes =
        vec![installed(TerminationRequest::Interrupt), installed(TerminationRequest::Terminate)];
    let mut coordinator = set_shutdown_signal_handler(&outcomes).unwrap();
    assert!(!coordinator.is_triggered());
    assert_eq!(coordinator.on_request(TerminationRequest::Terminate), SignalAction::InvokeCallback);
    assert!(coordinator.is_triggered());
    assert_eq!(coordinator.on_request(TerminationRequest::Terminate), SignalAction::Ignore);
    assert_eq!(coordinator.on_request(TerminationRequest::Interrupt), SignalAction::Ignore);
}

#[test]
fn requests_without_a_handler_are_ignored() {
    let outcomes = vec![installed(TerminationRequest::Interrupt)];
    let mut coordinator = set_shutdown_signal_handler(&outcomes).unwrap();
    assert_eq!(coordinator.on_request(TerminationRequest::ServiceStop), SignalAction::Ignore);
    assert!(!coordinator.is_triggered());
    assert_eq!(coordinator.on_request(TerminationRequest::Interrupt), SignalAction::InvokeCallback);
}

#[test]
fn many_requests_one_callback() {
    let outcomes = vec![
        installed(TerminationRequest::Interrupt),
        installed(TerminationRequest::Terminate),
        installed(TerminationRequest::ServiceStop),
    ];
    let mut coordinator = set_shutdown_signal_handler(&outcomes).unwrap();
    let mut calls = 0;
    for round in 0..30 {
        let request = match round % 3 {
            0 => TerminationRequest::Interrupt,
            1 => TerminationRequest::Terminate,
            _ => TerminationRequest::ServiceStop,
        };
        if coordinator.on_request(request) == SignalAction::InvokeCallback {
            calls += 1;
        }
    }
    assert_eq!(calls, 1);
}

#[test]
fn a_handler_that_cannot_be_installed_fails_startup() {
    let outcomes = vec![
        installed(TerminationRequest::Interrupt),
        Installation { request: TerminationRequest::Terminate, installed: false },
    ];
    match set_shutdown_signal_handler(&outcomes) {
        Err(kind) => {
            assert_eq!(kind, ErrorKind::HandlerInstallFailure);
            assert!(kind.is_fatal());
        }
        Ok(_) => panic!("a failed installation was accepted"),
    }
}

#[test]
fn no_handlers_no_callback() {
    let mut coordinator = set_shutdown_signal_handler(&Vec::new()).unwrap();
    assert_eq!(coordinator.on_request(TerminationRequest::Interrupt), SignalAction::Ignore);
    assert!(!coordinator.is_triggered());
}
