//! Shutdown coordination: the handle that stops the daemon at most once,
//! and the coordinator that turns termination requests into one call of
//! the shutdown callback.

use vstd::prelude::*;
use crate::error::ErrorKind;

verus! {

/// A request of the operating system to end the process.
#[derive(Clone, Copy, Debug, PartialEq, Eq, Structural)]
pub enum TerminationRequest {
    /// An interrupt from the terminal.
    Interrupt,
    /// A request to terminate the process.
    Terminate,
    /// A stop request of the platform's service manager.
    ServiceStop,
}

/// What the handler of a termination request does.
#[derive(Clone, Copy, Debug, PartialEq, Eq, Structural)]
pub enum SignalAction {
    /// Call the shutdown callback.
    InvokeCallback,
    /// Do nothing.
    Ignore,
}

/// The result of registering the handler for one termination request.
#[derive(Clone, Copy, Debug, PartialEq, Eq, Structural)]
pub struct Installation {
    pub request: TerminationRequest,
    pub installed: bool,
}

/// The trigger of the stop procedure. It may be fired any number of times;
/// only the first firing runs the stop procedure.
#[derive(Debug)]
pub struct ShutdownHandle {
    fired: bool,
}

impl View for ShutdownHandle {
    type V = bool;

    /// Whether the handle has fired.
    closed spec fn view(&self) -> bool {
        self.fired
    }
}

/// Whether firing a handle runs the stop procedure: only a handle that
/// has not fired before does.
pub open spec fn runs_stop(fired: bool) -> bool {
    !fired
}

/// The number of firings, out of `firings` in a row, that run the stop
/// procedure, on a handle that has fired before (`fired`) or not.
pub open spec fn stops_run(fired: bool, firings: nat) -> nat
    decreases firings,
{
    if firings == 0 {
        0
    } else {
        let later = stops_run(true, (firings - 1) as nat);
        if runs_stop(fired) {
            1 + later
        } else {
            later
        }
    }
}

impl ShutdownHandle {
    /// A handle that has not fired.
    pub fn new() -> (handle: Self)
        ensures
            !handle@,
    {
        ShutdownHandle { fired: false }
    }

    /// Fires the handle. Returns whether this firing is the one that runs
    /// the stop procedure: the first does, every later one does not.
    pub fn shutdown(&mut self) -> (run_stop: bool)
        ensures
            final(self)@,
            run_stop == runs_stop(old(self)@),
    {
        let first = !self.fired;
        self.fired = true;
        first
    }

    /// Whether the handle has fired.
    pub fn is_fired(&self) -> (fired: bool)
        ensures
            fired == self@,
    {
        self.fired
    }
}

/// The coordinator as a mathematical value.
pub ghost struct CoordinatorState {
    /// The termination requests whose handlers are registered.
    pub handled: Set<TerminationRequest>,
    /// Whether the callback has been called.
    pub triggered: bool,
}

impl CoordinatorState {
    /// What the handler does on `request`: the first handled request calls
    /// the callback, every other request is ignored.
    pub open spec fn action(self, request: TerminationRequest) -> SignalAction {
        if self.handled.contains(request) && !self.triggered {
            SignalAction::InvokeCallback
        } else {
            SignalAction::Ignore
        }
    }

    /// The coordinator after `request` arrived.
    pub open spec fn on_request(self, request: TerminationRequest) -> Self {
        CoordinatorState {
            triggered: self.triggered || self.handled.contains(request),
            ..self
        }
    }

    /// The number of calls of the callback that the requests of
    /// `requests` cause, in order.
    pub open spec fn callbacks(self, requests: Seq<TerminationRequest>) -> nat
        decreases requests.len(),
    {
        if requests.len() == 0 {
            0
        } else {
            let earlier = requests.drop_last();
            let state = self.after(earlier);
            self.callbacks(earlier) + if state.action(requests.last())
                == SignalAction::InvokeCallback {
                1nat
            } else {
                0nat
            }
        }
    }

    /// The coordinator after the requests of `requests`, in order.
    pub open spec fn after(self, requests: Seq<TerminationRequest>) -> Self
        decreases requests.len(),
    {
        if requests.len() == 0 {
            self
        } else {
            self.after(requests.drop_last()).on_request(requests.last())
        }
    }
}

/// Whether every handler of `outcomes` was registered.
pub open spec fn all_installed(outcomes: Seq<Installation>) -> bool {
    forall|i: int| 0 <= i < outcomes.len() ==> (#[trigger] outcomes[i]).installed
}

/// The requests that `outcomes` speaks of.
pub open spec fn requests_of(outcomes: Seq<Installation>) -> Set<TerminationRequest> {
    Set::new(
        |request: TerminationRequest|
            exists|i: int| 0 <= i < outcomes.len() && (#[trigger] outcomes[i]).request == request,
    )
}

/// Routes termination requests to the shutdown callback.
#[derive(Debug)]
pub struct ShutdownCoordinator {
    handled: Vec<TerminationRequest>,
    handle: ShutdownHandle,
}

impl View for ShutdownCoordinator {
    type V = CoordinatorState;

    closed spec fn view(&self) -> CoordinatorState {
        CoordinatorState { handled: self.handled@.to_set(), triggered: self.handle@ }
    }
}

/// Sets up the coordinator from the results of registering the handlers.
/// One handler that could not be registered fails the whole: a daemon that
/// cannot be stopped in good order must not run.
pub fn set_shutdown_signal_handler(outcomes: &Vec<Installation>) -> (coordinator: Result<
    ShutdownCoordinator,
    ErrorKind,
>)
    ensures
        all_installed(outcomes@) <==> coordinator.is_ok(),
        !all_installed(outcomes@) <==> coordinator == Err::<ShutdownCoordinator, ErrorKind>(
            ErrorKind::HandlerInstallFailure,
        ),
        coordinator.is_ok() ==> coordinator.unwrap()@ == (CoordinatorState {
            handled: requests_of(outcomes@),
            triggered: false,
        }),
{
    let mut handled: Vec<TerminationRequest> = Vec::new();
    let mut i: usize = 0;
    while i < outcomes.len()
        invariant
            i <= outcomes@.len(),
            handled@.len() == i,
            forall|j: int| 0 <= j < i ==> (#[trigger] outcomes@[j]).installed,
            forall|j: int| 0 <= j < i ==> handled@[j] == (#[trigger] outcomes@[j]).request,
        decreases outcomes@.len() - i,
    {
        if !outcomes[i].installed {
            return Err(ErrorKind::HandlerInstallFailure);
        }
        handled.push(outcomes[i].request);
        i += 1;
    }
    let coordinator = ShutdownCoordinator { handled, handle: ShutdownHandle::new() };
    proof {
        assert forall|request: TerminationRequest|
            coordinator.handled@.to_set().contains(request) <==> requests_of(
                outcomes@,
            ).contains(request) by {
            if coordinator.handled@.contains(request) {
                let j = choose|j: int|
                    0 <= j < coordinator.handled@.len() && coordinator.handled@[j] == request;
                assert(outcomes@[j].request == request);
            }
            if requests_of(outcomes@).contains(request) {
                let j = choose|j: int|
                    0 <= j < outcomes@.len() && (#[trigger] outcomes@[j]).request == request;
                assert(coordinator.handled@[j] == request);
            }
        }
        assert(coordinator@.handled =~= requests_of(outcomes@));
    }
    Ok(coordinator)
}

impl ShutdownCoordinator {
    /// Takes a termination request. The first request with a registered
    /// handler calls the callback; every later one, and every request
    /// without a handler, is ignored.
    pub fn on_request(&mut self, request: TerminationRequest) -> (action: SignalAction)
        ensures
            action == old(self)@.action(request),
            final(self)@ == old(self)@.on_request(request),
    {
        let mut i: usize = 0;
        let mut handled: bool = false;
        while i < self.handled.len()
            invariant
                i <= self.handled@.len(),
                handled <==> exists|j: int| 0 <= j < i && self.handled@[j] == request,
            decreases self.handled@.len() - i,
        {
            if self.handled[i] == request {
                handled = true;
            }
            i += 1;
        }
        assert(handled == self.handled@.contains(request));
        if handled && self.handle.shutdown() {
            SignalAction::InvokeCallback
        } else {
            SignalAction::Ignore
        }
    }

    /// Whether the callback has been called.
    pub fn is_triggered(&self) -> (triggered: bool)
        ensures
            triggered == self@.triggered,
    {
        self.handle.is_fired()
    }
}

/// However often the handle is fired, the stop procedure runs exactly
/// once; on a handle that has fired before, it does not run again.
pub proof fn lemma_stop_runs_once(firings: nat)
    ensures
        firings >= 1 ==> stops_run(false, firings) == 1,
        stops_run(true, firings) == 0,
    decreases firings,
{
    if firings > 0 {
        lemma_stop_runs_once((firings - 1) as nat);
    }
}

/// However many termination requests arrive, the callback is called at
/// most once: exactly once when one of them has a registered handler and
/// the callback has not been called before, and not at all otherwise.
pub proof fn lemma_callback_runs_once(state: CoordinatorState, requests: Seq<TerminationRequest>)
    ensures
        state.after(requests).handled == state.handled,
        state.after(requests).triggered == (state.triggered || exists|i: int|
            0 <= i < requests.len() && state.handled.contains(#[trigger] requests[i])),
        state.callbacks(requests) == if !state.triggered && state.after(requests).triggered {
            1nat
        } else {
            0nat
        },
    decreases requests.len(),
{
    if requests.len() > 0 {
        let earlier = requests.drop_last();
        lemma_callback_runs_once(state, earlier);
        if exists|i: int| 0 <= i < earlier.len() && state.handled.contains(#[trigger] earlier[i]) {
            let i = choose|i: int|
                0 <= i < earlier.len() && state.handled.contains(#[trigger] earlier[i]);
            assert(requests[i] == earlier[i]);
        }
        if state.handled.contains(requests.last()) {
            assert(requests[requests.len() - 1] == requests.last());
        }
        if exists|i: int|
            0 <= i < requests.len() && state.handled.contains(#[trigger] requests[i]) {
            let i = choose|i: int|
                0 <= i < requests.len() && state.handled.contains(#[trigger] requests[i]);
            if i < earlier.len() {
                assert(earlier[i] == requests[i]);
            }
        }
    }
}

} // verus!
