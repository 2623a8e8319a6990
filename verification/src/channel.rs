//! The command path: many producers, one consumer, one queue.
//!
//! The channel is a hub that its owner shares between the producers and the
//! consumer. A producer holds a `CommandSender`, which names it; the
//! consumer holds the `CommandReceiver`, of which there is one. Commands
//! leave in the order in which they were accepted, so the commands of one
//! sender arrive in the order in which it sent them.

use std::collections::VecDeque;
use vstd::prelude::*;
use crate::error::ErrorKind;

verus! {

/// A command on its way, with the sender that produced it.
#[derive(Debug, PartialEq, Eq)]
pub struct Envelope<C> {
    pub sender: u64,
    pub command: C,
}

/// What the consumer gets when it asks for the next command.
#[derive(Debug, PartialEq, Eq)]
pub enum Received<C> {
    /// The oldest pending command.
    Command(Envelope<C>),
    /// Nothing is pending, but a sender is alive: wait for the next send.
    Empty,
    /// Nothing is pending and nothing will come: the end of the stream.
    Closed,
}

/// The producing end. It cannot be copied: a second producer registers
/// through `clone_sender` and gets an identity of its own.
#[derive(Debug)]
pub struct CommandSender {
    id: u64,
}

impl View for CommandSender {
    type V = u64;

    /// The identity of the sender.
    closed spec fn view(&self) -> u64 {
        self.id
    }
}

impl CommandSender {
    /// The identity of the sender.
    pub fn id(&self) -> (id: u64)
        ensures
            id == self@,
    {
        self.id
    }
}

/// The receiving end. There is one for each channel, made with it; it
/// cannot be copied, and closing the channel uses it up.
#[derive(Debug)]
pub struct CommandReceiver {
    unique: (),
}

/// The channel as a mathematical value.
pub ghost struct ChannelState<C> {
    /// The commands accepted and not yet received, oldest first.
    pub pending: Seq<Envelope<C>>,
    /// The identities of the senders that are alive.
    pub senders: Set<u64>,
    /// The identity that the next sender gets.
    pub next_id: nat,
    /// Whether the receiving end is still there.
    pub open: bool,
}

impl<C> ChannelState<C> {
    /// A new channel: nothing pending, one sender, whose identity is 0.
    pub open spec fn fresh() -> Self {
        ChannelState { pending: Seq::empty(), senders: set![0u64], next_id: 1, open: true }
    }

    /// Whether a command from `sender` is queued: the receiving end is
    /// there and the sender is alive.
    pub open spec fn accepts(self, sender: u64) -> bool {
        self.open && self.senders.contains(sender)
    }

    /// The channel after `sender` sent `command`.
    pub open spec fn send(self, sender: u64, command: C) -> Self {
        if self.accepts(sender) {
            ChannelState { pending: self.pending.push(Envelope { sender, command }), ..self }
        } else {
            self
        }
    }

    /// Whether `sender` can be cloned: it is alive and an identity is left.
    pub open spec fn can_clone(self, sender: u64) -> bool {
        self.senders.contains(sender) && self.next_id <= u64::MAX
    }

    /// The channel after `sender` was cloned.
    pub open spec fn clone_sender(self, sender: u64) -> Self {
        if self.can_clone(sender) {
            ChannelState {
                senders: self.senders.insert(self.next_id as u64),
                next_id: self.next_id + 1,
                ..self
            }
        } else {
            self
        }
    }

    /// The channel after `sender` was dropped.
    pub open spec fn release(self, sender: u64) -> Self {
        ChannelState { senders: self.senders.remove(sender), ..self }
    }

    /// The channel after every sender of `senders` was dropped.
    pub open spec fn release_all(self, senders: Set<u64>) -> Self {
        ChannelState { senders: self.senders.difference(senders), ..self }
    }

    /// What the consumer gets next.
    pub open spec fn received(self) -> Received<C> {
        if self.pending.len() > 0 {
            Received::Command(self.pending[0])
        } else if self.open && !self.senders.is_empty() {
            Received::Empty
        } else {
            Received::Closed
        }
    }

    /// The channel after the consumer asked for the next command.
    pub open spec fn recv(self) -> Self {
        if self.pending.len() > 0 {
            ChannelState { pending: self.pending.skip(1), ..self }
        } else {
            self
        }
    }

    /// The channel after the receiving end was dropped. What was pending is
    /// discarded.
    pub open spec fn close(self) -> Self {
        ChannelState { pending: Seq::empty(), open: false, ..self }
    }
}

/// The shared state of the command path.
pub struct CommandChannel<C> {
    queue: VecDeque<Envelope<C>>,
    senders: Vec<u64>,
    next_id: u64,
    exhausted: bool,
    open: bool,
}

impl<C> View for CommandChannel<C> {
    type V = ChannelState<C>;

    closed spec fn view(&self) -> ChannelState<C> {
        ChannelState {
            pending: self.queue@,
            senders: self.senders@.to_set(),
            next_id: if self.exhausted {
                u64::MAX as nat + 1
            } else {
                self.next_id as nat
            },
            open: self.open,
        }
    }
}

/// Position of `id` in `ids`, if it occurs.
fn position(ids: &Vec<u64>, id: u64) -> (found: Option<usize>)
    ensures
        match found {
            Some(i) => i < ids@.len() && ids@[i as int] == id,
            None => !ids@.contains(id),
        },
{
    let mut i: usize = 0;
    while i < ids.len()
        invariant
            i <= ids@.len(),
            forall|j: int| 0 <= j < i ==> ids@[j] != id,
        decreases ids@.len() - i,
    {
        if ids[i] == id {
            return Some(i);
        }
        i += 1;
    }
    None
}

/// Removing the element at `i` from a sequence without duplicates removes
/// that element from its set.
proof fn lemma_remove_to_set(ids: Seq<u64>, i: int)
    requires
        ids.no_duplicates(),
        0 <= i < ids.len(),
    ensures
        ids.remove(i).no_duplicates(),
        ids.remove(i).to_set() == ids.to_set().remove(ids[i]),
{
    let rest = ids.remove(i);
    assert forall|x: u64| rest.to_set().contains(x) <==> ids.to_set().remove(ids[i]).contains(
        x,
    ) by {
        if rest.contains(x) {
            let j = choose|j: int| 0 <= j < rest.len() && rest[j] == x;
            if j < i {
                assert(ids[j] == x);
            } else {
                assert(ids[j + 1] == x);
            }
        }
        if ids.contains(x) && x != ids[i] {
            let j = choose|j: int| 0 <= j < ids.len() && ids[j] == x;
            if j < i {
                assert(rest[j] == x);
            } else {
                assert(rest[j - 1] == x);
            }
        }
    }
    assert(rest.to_set() =~= ids.to_set().remove(ids[i]));
}

/// Creates a channel with its first sender and its receiver.
pub fn new_channel<C>() -> (ends: (CommandChannel<C>, CommandSender, CommandReceiver))
    ensures
        ends.0.wf(),
        ends.0@ == ChannelState::<C>::fresh(),
        ends.1@ == 0,
{
    let mut senders: Vec<u64> = Vec::new();
    senders.push(0);
    let channel = CommandChannel {
        queue: VecDeque::new(),
        senders,
        next_id: 1,
        exhausted: false,
        open: true,
    };
    proof {
        assert(channel.senders@ =~= seq![0u64]);
        assert(channel.senders@.to_set() =~= set![0u64]) by {
            assert forall|x: u64| channel.senders@.to_set().contains(x) <==> set![0u64].contains(
                x,
            ) by {
                if x == 0 {
                    assert(channel.senders@[0] == x);
                }
            }
        }
    }
    (channel, CommandSender { id: 0 }, CommandReceiver { unique: () })
}

impl<C> CommandChannel<C> {
    /// What holds of every channel: no identity is registered twice, each
    /// was handed out by this channel, and a closed channel holds no
    /// command.
    pub closed spec fn wf(&self) -> bool {
        &&& self.senders@.no_duplicates()
        &&& forall|i: int| 0 <= i < self.senders@.len() ==> self.senders@[i] < self@.next_id
        &&& !self.open ==> self.queue@.len() == 0
    }

    /// Queues `command` for the consumer, or fails with `ChannelClosed`
    /// when the receiving end is gone. A sender that was released, or that
    /// belongs to another channel, finds the channel closed as well. The
    /// call never waits.
    pub fn send(&mut self, sender: &CommandSender, command: C) -> (sent: Result<(), ErrorKind>)
        requires
            old(self).wf(),
        ensures
            final(self).wf(),
            final(self)@ == old(self)@.send(sender@, command),
            old(self)@.accepts(sender@) <==> sent == Ok::<(), ErrorKind>(()),
            !old(self)@.accepts(sender@) <==> sent == Err::<(), ErrorKind>(
                ErrorKind::ChannelClosed,
            ),
    {
        if !self.open {
            return Err(ErrorKind::ChannelClosed);
        }
        match position(&self.senders, sender.id) {
            None => Err(ErrorKind::ChannelClosed),
            Some(_) => {
                self.queue.push_back(Envelope { sender: sender.id, command });
                Ok(())
            },
        }
    }

    /// Registers one more producer, next to a live one. Returns nothing
    /// when `sender` is not alive on this channel or when the identities
    /// have run out. The new sender's identity was never in use before.
    pub fn clone_sender(&mut self, sender: &CommandSender) -> (cloned: Option<CommandSender>)
        requires
            old(self).wf(),
        ensures
            final(self).wf(),
            final(self)@ == old(self)@.clone_sender(sender@),
            old(self)@.can_clone(sender@) <==> cloned.is_some(),
            cloned.is_some() ==> cloned.unwrap()@ == old(self)@.next_id,
            cloned.is_some() ==> !old(self)@.senders.contains(cloned.unwrap()@),
    {
        if self.exhausted {
            return None;
        }
        match position(&self.senders, sender.id) {
            None => None,
            Some(_) => {
                let id: u64 = self.next_id;
                let ghost before = self.senders@;
                assert(!before.contains(id)) by {
                    if before.contains(id) {
                        let j = choose|j: int| 0 <= j < before.len() && before[j] == id;
                        assert(before[j] < id);
                    }
                }
                if id == u64::MAX {
                    self.exhausted = true;
                } else {
                    self.next_id = id + 1;
                }
                self.senders.push(id);
                proof {
                    before.lemma_push_to_set_commute(id);
                    assert(self.senders@.no_duplicates()) by {
                        assert forall|i: int, j: int|
                            0 <= i < self.senders@.len() && 0 <= j < self.senders@.len() && i
                                != j implies self.senders@[i] != self.senders@[j] by {
                            if i < before.len() {
                                assert(before[i] == self.senders@[i]);
                            }
                            if j < before.len() {
                                assert(before[j] == self.senders@[j]);
                            }
                        }
                    }
                }
                Some(CommandSender { id })
            },
        }
    }

    /// Drops a producer. Commands that it sent stay pending.
    pub fn release(&mut self, sender: CommandSender)
        requires
            old(self).wf(),
        ensures
            final(self).wf(),
            final(self)@ == old(self)@.release(sender@),
    {
        match position(&self.senders, sender.id) {
            None => {
                assert(self@.senders.remove(sender@) =~= self@.senders);
            },
            Some(i) => {
                proof {
                    lemma_remove_to_set(self.senders@, i as int);
                }
                self.senders.remove(i);
            },
        }
    }

    /// Hands out the oldest pending command. Without one it says whether
    /// to wait, because a sender is alive, or that the stream has ended.
    pub fn recv(&mut self, receiver: &CommandReceiver) -> (next: Received<C>)
        requires
            old(self).wf(),
        ensures
            final(self).wf(),
            next == old(self)@.received(),
            final(self)@ == old(self)@.recv(),
    {
        match self.queue.pop_front() {
            Some(envelope) => {
                assert(self.queue@ =~= old(self).queue@.skip(1));
                Received::Command(envelope)
            },
            None => {
                proof {
                    if self.senders@.len() > 0 {
                        assert(self.senders@.to_set().contains(self.senders@[0]));
                    }
                }
                if self.open && self.senders.len() > 0 {
                    Received::Empty
                } else {
                    Received::Closed
                }
            },
        }
    }

    /// Drops the receiving end. Pending commands are discarded and every
    /// later send fails.
    pub fn close(&mut self, receiver: CommandReceiver)
        requires
            old(self).wf(),
        ensures
            final(self).wf(),
            final(self)@ == old(self)@.close(),
    {
        self.queue.clear();
        self.open = false;
    }

    /// Number of pending commands.
    pub fn pending(&self) -> (count: usize)
        ensures
            count == self@.pending.len(),
    {
        self.queue.len()
    }

    /// Number of live senders.
    pub fn sender_count(&self) -> (count: usize)
        requires
            self.wf(),
        ensures
            count == self@.senders.len(),
    {
        proof {
            self.senders@.unique_seq_to_set();
        }
        self.senders.len()
    }

    /// Whether the receiving end is still there.
    pub fn is_open(&self) -> (open: bool)
        ensures
            open == self@.open,
    {
        self.open
    }
}

/// One operation on a channel.
pub ghost enum ChannelOp<C> {
    Send { sender: u64, command: C },
    CloneSender { sender: u64 },
    Release { sender: u64 },
    Recv,
    Close,
}

impl<C> ChannelState<C> {
    /// The channel after `op`.
    pub open spec fn apply(self, op: ChannelOp<C>) -> Self {
        match op {
            ChannelOp::Send { sender, command } => self.send(sender, command),
            ChannelOp::CloneSender { sender } => self.clone_sender(sender),
            ChannelOp::Release { sender } => self.release(sender),
            ChannelOp::Recv => self.recv(),
            ChannelOp::Close => self.close(),
        }
    }

    /// What `op` adds to the commands accepted so far.
    pub open spec fn accepted_by(self, op: ChannelOp<C>) -> Seq<Envelope<C>> {
        match op {
            ChannelOp::Send { sender, command } => if self.accepts(sender) {
                seq![Envelope { sender, command }]
            } else {
                Seq::empty()
            },
            _ => Seq::empty(),
        }
    }

    /// What `op` hands to the consumer.
    pub open spec fn delivered_by(self, op: ChannelOp<C>) -> Seq<Envelope<C>> {
        match op {
            ChannelOp::Recv => if self.pending.len() > 0 {
                seq![self.pending[0]]
            } else {
                Seq::empty()
            },
            _ => Seq::empty(),
        }
    }

    /// The channel after the consumer asked `count` times.
    pub open spec fn drain(self, count: nat) -> Self
        decreases count,
    {
        if count == 0 {
            self
        } else {
            self.recv().drain((count - 1) as nat)
        }
    }
}

/// The channel that a new one becomes under `ops`.
pub open spec fn state_after<C>(ops: Seq<ChannelOp<C>>) -> ChannelState<C>
    decreases ops.len(),
{
    if ops.len() == 0 {
        ChannelState::fresh()
    } else {
        state_after(ops.drop_last()).apply(ops.last())
    }
}

/// The commands that a new channel accepts under `ops`, in order.
pub open spec fn accepted<C>(ops: Seq<ChannelOp<C>>) -> Seq<Envelope<C>>
    decreases ops.len(),
{
    if ops.len() == 0 {
        Seq::empty()
    } else {
        accepted(ops.drop_last()) + state_after(ops.drop_last()).accepted_by(ops.last())
    }
}

/// The commands that a new channel hands to the consumer under `ops`, in
/// order.
pub open spec fn delivered<C>(ops: Seq<ChannelOp<C>>) -> Seq<Envelope<C>>
    decreases ops.len(),
{
    if ops.len() == 0 {
        Seq::empty()
    } else {
        delivered(ops.drop_last()) + state_after(ops.drop_last()).delivered_by(ops.last())
    }
}

/// The part of `commands` that `sender` produced, in order.
pub open spec fn from_sender<C>(commands: Seq<Envelope<C>>, sender: u64) -> Seq<Envelope<C>> {
    commands.filter(|envelope: Envelope<C>| envelope.sender == sender)
}

/// Under any operations, the consumer gets the accepted commands in the
/// order of their acceptance, each at most once: what was delivered is a
/// prefix of what was accepted. While the receiving end is there, the rest
/// is exactly what is pending.
pub proof fn lemma_delivery_in_acceptance_order<C>(ops: Seq<ChannelOp<C>>)
    ensures
        delivered(ops).is_prefix_of(accepted(ops)),
        state_after(ops).open ==> accepted(ops) == delivered(ops) + state_after(ops).pending,
        !state_after(ops).open ==> state_after(ops).pending.len() == 0,
    decreases ops.len(),
{
    if ops.len() > 0 {
        let before = ops.drop_last();
        lemma_delivery_in_acceptance_order(before);
        let state = state_after(before);
        let op = ops.last();
        if state.open {
            assert(accepted(before) =~= delivered(before) + state.pending);
            match op {
                ChannelOp::Recv => {
                    if state.pending.len() > 0 {
                        assert(accepted(ops) =~= (delivered(before) + seq![state.pending[0]])
                            + state.pending.skip(1));
                    } else {
                        assert(accepted(ops) =~= delivered(ops) + state.pending);
                    }
                },
                ChannelOp::Send { sender, command } => {
                    assert(accepted(ops) =~= delivered(ops) + state_after(ops).pending);
                },
                ChannelOp::Close => {
                    assert(delivered(ops) =~= delivered(before));
                    assert(accepted(ops) =~= accepted(before));
                },
                _ => {
                    assert(accepted(ops) =~= delivered(ops) + state.pending);
                },
            }
        } else {
            assert(delivered(ops) =~= delivered(before));
            assert(accepted(ops) =~= accepted(before));
        }
    }
}

/// The consumer sees the commands of one sender in the order in which that
/// sender sent them: under any operations, what it got from the sender is
/// a prefix of what the channel accepted from the sender.
pub proof fn lemma_per_sender_order<C>(ops: Seq<ChannelOp<C>>, sender: u64)
    ensures
        from_sender(delivered(ops), sender).is_prefix_of(from_sender(accepted(ops), sender)),
{
    lemma_delivery_in_acceptance_order(ops);
    let got = delivered(ops);
    let all = accepted(ops);
    let rest = all.skip(got.len() as int);
    let by_sender = |envelope: Envelope<C>| envelope.sender == sender;
    assert(all =~= got + rest);
    Seq::filter_distributes_over_add(got, rest, by_sender);
    assert(from_sender(all, sender) =~= from_sender(got, sender) + from_sender(rest, sender));
}

/// Once every sender is gone, none comes back: a sender is only made from
/// a live one.
pub proof fn lemma_senders_never_return<C>(state: ChannelState<C>, op: ChannelOp<C>)
    requires
        state.senders.is_empty(),
    ensures
        state.apply(op).senders.is_empty(),
{
    assert(state.apply(op).senders =~= state.senders);
}

/// Once every sender is gone, the consumer never has to wait: it gets each
/// pending command, in order, and then the end of the stream.
pub proof fn lemma_stream_ends<C>(state: ChannelState<C>, asked: nat)
    requires
        state.senders.is_empty(),
    ensures
        state.drain(asked).senders.is_empty(),
        asked < state.pending.len() ==> state.drain(asked).received() == Received::Command(
            state.pending[asked as int],
        ),
        asked >= state.pending.len() ==> state.drain(asked).received() == Received::<
            C,
        >::Closed,
        state.drain(asked).received() != Received::<C>::Empty,
    decreases asked,
{
    if asked > 0 {
        let next = state.recv();
        lemma_stream_ends(next, (asked - 1) as nat);
        if state.pending.len() > 0 && asked < state.pending.len() {
            assert(next.pending[asked - 1] == state.pending[asked as int]);
        }
    }
}

} // verus!
