//! One turn of the loop that owns the service state.
//!
//! The loop takes one command at a time and handles it to completion before
//! it asks for the next. It stops when the shutdown handle has fired or when
//! the command path has ended; from then on it takes no command.

use vstd::prelude::*;
use crate::channel::{ChannelState, CommandChannel, CommandReceiver, Envelope, Received};
use crate::lifecycle::Event;
use crate::shutdown::ShutdownHandle;

verus! {

/// Why the loop stops.
#[derive(Clone, Copy, Debug, PartialEq, Eq, Structural)]
pub enum StopReason {
    /// The shutdown handle fired.
    ShutdownRequested,
    /// Every sender is gone and nothing is pending.
    CommandsExhausted,
}

/// What the loop does next.
#[derive(Debug, PartialEq, Eq)]
pub enum LoopStep<C> {
    /// Handle this command to completion.
    Handle(Envelope<C>),
    /// Wait for a command or for the shutdown handle.
    Wait,
    /// Take no more commands and leave.
    Stop(StopReason),
}

/// The next step of the loop, for a command path in state `channel` and a
/// shutdown handle that has fired or not. A fired handle comes first:
/// commands that are still pending are not taken.
pub open spec fn step_of<C>(channel: ChannelState<C>, fired: bool) -> LoopStep<C> {
    if fired {
        LoopStep::Stop(StopReason::ShutdownRequested)
    } else {
        match channel.received() {
            Received::Command(envelope) => LoopStep::Handle(envelope),
            Received::Empty => LoopStep::Wait,
            Received::Closed => LoopStep::Stop(StopReason::CommandsExhausted),
        }
    }
}

/// The command path after the step: a command that is handed out has left
/// it.
pub open spec fn channel_after<C>(channel: ChannelState<C>, fired: bool) -> ChannelState<C> {
    if fired {
        channel
    } else {
        channel.recv()
    }
}

/// What a step means for the lifecycle: a command counts once it is
/// handled, waiting changes nothing, and a stop says why.
pub open spec fn event_of<C>(step: LoopStep<C>) -> Option<Event> {
    match step {
        LoopStep::Handle(_) => Some(Event::CommandHandled),
        LoopStep::Wait => None,
        LoopStep::Stop(StopReason::ShutdownRequested) => Some(Event::ShutdownRequested),
        LoopStep::Stop(StopReason::CommandsExhausted) => Some(Event::CommandsExhausted),
    }
}

/// Decides the next step of the loop and takes the command to handle, if
/// there is one, out of the command path.
pub fn poll<C>(
    channel: &mut CommandChannel<C>,
    receiver: &CommandReceiver,
    shutdown: &ShutdownHandle,
) -> (step: LoopStep<C>)
    requires
        old(channel).wf(),
    ensures
        final(channel).wf(),
        step == step_of(old(channel)@, shutdown@),
        final(channel)@ == channel_after(old(channel)@, shutdown@),
{
    if shutdown.is_fired() {
        return LoopStep::Stop(StopReason::ShutdownRequested);
    }
    match channel.recv(receiver) {
        Received::Command(envelope) => LoopStep::Handle(envelope),
        Received::Empty => LoopStep::Wait,
        Received::Closed => LoopStep::Stop(StopReason::CommandsExhausted),
    }
}

/// The event to report to the lifecycle after a step: for a command, once
/// it has been handled.
pub fn lifecycle_event<C>(step: &LoopStep<C>) -> (event: Option<Event>)
    ensures
        event == event_of(*step),
{
    match step {
        LoopStep::Handle(_) => Some(Event::CommandHandled),
        LoopStep::Wait => None,
        LoopStep::Stop(StopReason::ShutdownRequested) => Some(Event::ShutdownRequested),
        LoopStep::Stop(StopReason::CommandsExhausted) => Some(Event::CommandsExhausted),
    }
}

} // verus!
