//! The control-plane server: the table of client connections between the
//! command path and the event path.
//!
//! Each accepted client gets a command sender of its own and a subscription
//! to the events. The transport is not here: the program around the server
//! binds the endpoint, reads requests and writes events, and calls the
//! server for what to do with them.

use vstd::prelude::*;
use crate::broadcast::{BroadcasterState, Delivery, EventBroadcaster, EventReceiver};
use crate::channel::{CommandChannel, CommandSender};
use crate::error::ErrorKind;
use crate::registry::{
    as_map, distinct, lemma_at, lemma_empty, lemma_push, lemma_remove, listed, slot,
};

verus! {

/// What happened when the endpoint was bound.
#[derive(Clone, Copy, Debug, PartialEq, Eq, Structural)]
pub enum BindOutcome {
    Bound,
    PermissionDenied,
    AddressInUse,
    Failed,
}

/// A server that could not start. It hands back the sender it was given.
#[derive(Debug)]
pub struct BindError {
    pub kind: ErrorKind,
    pub sender: CommandSender,
}

/// One client: the sender that carries its commands and the receiver that
/// holds its place among the subscribers.
struct Connection {
    sender: CommandSender,
    receiver: EventReceiver,
}

/// The clients of `connections`, each with its sender.
spec fn links(connections: Seq<Connection>) -> Seq<(u64, u64)> {
    connections.map_values(|connection: Connection| (connection.receiver@, connection.sender@))
}

/// The server as a mathematical value.
pub ghost struct ServerState<E> {
    /// The address of the endpoint.
    pub endpoint: Seq<char>,
    /// The sender that the server was started with.
    pub sender: u64,
    /// For each connected client, the sender that carries its commands.
    pub clients: Map<u64, u64>,
    /// The event path.
    pub events: BroadcasterState<E>,
}

impl<E> ServerState<E> {
    /// The server after it accepted a client whose commands `sender`
    /// carries. The client is subscribed to the events.
    pub open spec fn accept(self, sender: u64) -> Self {
        ServerState {
            clients: self.clients.insert(self.events.next_id as u64, sender),
            events: self.events.subscribe(),
            ..self
        }
    }

    /// The server after `client` disconnected.
    pub open spec fn disconnect(self, client: u64) -> Self {
        ServerState {
            clients: self.clients.remove(client),
            events: self.events.unsubscribe(client),
            ..self
        }
    }

    /// The server after `event` was published: the clients that fell too
    /// far behind are disconnected.
    pub open spec fn publish(self, event: E) -> Self {
        ServerState {
            clients: self.clients.restrict(Set::new(|client: u64| self.events.has_room(client))),
            events: self.events.publish(event),
            ..self
        }
    }

    /// The server after `client` asked for its next event.
    pub open spec fn take(self, client: u64) -> Self {
        ServerState { events: self.events.take(client), ..self }
    }

    /// The senders of those of the clients `who` that are connected.
    pub open spec fn senders_of(self, who: Set<u64>) -> Set<u64> {
        Set::new(
            |sender: u64|
                exists|client: u64|
                    who.contains(client) && self.clients.contains_key(client)
                        && #[trigger] self.clients[client] == sender,
        )
    }

    /// The clients that the next event finds with a full queue.
    pub open spec fn lagging(self) -> Set<u64> {
        Set::new(|client: u64| self.events.overflows(client))
    }

    /// The senders of the clients that the next event finds with a full
    /// queue.
    pub open spec fn lagging_senders(self) -> Set<u64> {
        self.senders_of(self.lagging())
    }

    /// The senders that the server holds: its own and those of its clients.
    pub open spec fn held_senders(self) -> Set<u64> {
        self.clients.values().insert(self.sender)
    }
}

/// The control-plane server.
pub struct ControlPlaneServer<E> {
    endpoint: String,
    sender: CommandSender,
    broadcaster: EventBroadcaster<E>,
    connections: Vec<Connection>,
}

impl<E> View for ControlPlaneServer<E> {
    type V = ServerState<E>;

    closed spec fn view(&self) -> ServerState<E> {
        ServerState {
            endpoint: self.endpoint@,
            sender: self.sender@,
            clients: as_map(links(self.connections@)),
            events: self.broadcaster@,
        }
    }
}

/// Position of `client` among `connections`, if it is connected.
fn find(connections: &Vec<Connection>, client: u64) -> (found: Option<usize>)
    ensures
        match found {
            Some(i) => i < connections@.len() && connections@[i as int].receiver@ == client
                && listed(links(connections@), client),
            None => !listed(links(connections@), client),
        },
{
    let mut i: usize = 0;
    while i < connections.len()
        invariant
            i <= connections@.len(),
            forall|j: int| 0 <= j < i ==> links(connections@)[j].0 != client,
        decreases connections@.len() - i,
    {
        if connections[i].receiver.id() == client {
            assert(links(connections@)[i as int].0 == client);
            return Some(i);
        }
        i += 1;
    }
    None
}

impl<E> ControlPlaneServer<E> {
    /// What holds of every server: its event path is well formed, no
    /// client is connected twice, and the connected clients are the
    /// subscribers.
    pub closed spec fn wf(&self) -> bool {
        &&& self.broadcaster.wf()
        &&& distinct(links(self.connections@))
        &&& self@.clients.dom() =~= self@.events.queues.dom()
    }

    /// The connected clients are exactly the subscribers of the event
    /// path.
    pub proof fn lemma_clients_are_subscribers(&self)
        requires
            self.wf(),
        ensures
            self@.clients.dom() == self@.events.queues.dom(),
            self@.events.valid(),
    {
        self.broadcaster.lemma_view_valid();
    }

    /// Starts the server on an endpoint that was bound, with the sender
    /// that its clients' senders are cloned from and the number of events
    /// that may wait for one client. An endpoint that could not be bound
    /// is a `BindFailure`.
    pub fn start(
        endpoint: String,
        bind: BindOutcome,
        sender: CommandSender,
        capacity: usize,
    ) -> (started: Result<Self, BindError>)
        ensures
            bind == BindOutcome::Bound <==> started.is_ok(),
            started matches Ok(server) ==> server.wf() && server@ == (ServerState {
                endpoint: endpoint@,
                sender: sender@,
                clients: Map::<u64, u64>::empty(),
                events: BroadcasterState::<E>::fresh(capacity as nat),
            }),
            started matches Err(error) ==> error.kind == ErrorKind::BindFailure && error.sender@
                == sender@,
    {
        match bind {
            BindOutcome::Bound => {
                let server = ControlPlaneServer {
                    endpoint,
                    sender,
                    broadcaster: EventBroadcaster::new(capacity),
                    connections: Vec::new(),
                };
                proof {
                    lemma_empty(links(server.connections@));
                }
                Ok(server)
            },
            _ => Err(BindError { kind: ErrorKind::BindFailure, sender }),
        }
    }

    /// The address of the endpoint.
    pub fn socket_path(&self) -> (path: &String)
        ensures
            path@ == self@.endpoint,
    {
        &self.endpoint
    }

    /// The event path of the server.
    pub fn event_broadcaster(&self) -> (broadcaster: &EventBroadcaster<E>)
        requires
            self.wf(),
        ensures
            broadcaster.wf(),
            broadcaster@ == self@.events,
    {
        &self.broadcaster
    }

    /// Number of connected clients.
    pub fn client_count(&self) -> (count: usize)
        requires
            self.wf(),
        ensures
            count == self@.clients.dom().len(),
    {
        proof {
            crate::registry::lemma_size(links(self.connections@));
        }
        self.connections.len()
    }

    /// Whether `client` is connected.
    pub fn is_connected(&self, client: u64) -> (connected: bool)
        ensures
            connected == self@.clients.contains_key(client),
    {
        find(&self.connections, client).is_some()
    }

    /// Accepts a client: clones the server's sender for it and subscribes
    /// it to the events. Returns the client's identity, or nothing when
    /// the server's sender is not alive on `channel` or the identities of
    /// senders or subscribers have run out; then nothing changes.
    pub fn accept<C>(&mut self, channel: &mut CommandChannel<C>) -> (client: Option<u64>)
        requires
            old(self).wf(),
            old(channel).wf(),
        ensures
            final(self).wf(),
            final(channel).wf(),
            client.is_some() <==> old(self)@.events.can_subscribe() && old(channel)@.can_clone(
                old(self)@.sender,
            ),
            client.is_some() ==> client == Some(old(self)@.events.next_id as u64),
            client.is_some() ==> final(channel)@ == old(channel)@.clone_sender(old(self)@.sender),
            client.is_some() ==> final(self)@ == old(self)@.accept(old(channel)@.next_id as u64),
            client.is_none() ==> final(self)@ == old(self)@ && final(channel)@ == old(channel)@,
    {
        if !self.broadcaster.can_subscribe() {
            return None;
        }
        match channel.clone_sender(&self.sender) {
            None => None,
            Some(sender) => {
                let ghost before = self.connections@;
                let receiver = self.broadcaster.subscribe().unwrap();
                let client = receiver.id();
                proof {
                    assert(!listed(links(before), client)) by {
                        if listed(links(before), client) {
                            lemma_at(links(before), slot(links(before), client));
                            assert(old(self)@.clients.contains_key(client));
                            assert(old(self)@.events.queues.contains_key(client));
                        }
                    }
                    let connection = Connection { sender, receiver };
                    assert(links(before.push(connection)) =~= links(before).push(
                        (connection.receiver@, connection.sender@),
                    ));
                    lemma_push(links(before), (client, sender@));
                }
                self.connections.push(Connection { sender, receiver });
                Some(client)
            },
        }
    }

    /// Passes a command of `client` on to the command path. A client that
    /// is not connected gets `ClientDisconnected`; when the receiving end
    /// of the command path is gone, the command fails with
    /// `ChannelClosed`.
    pub fn submit<C>(&self, channel: &mut CommandChannel<C>, client: u64, command: C) -> (sent:
        Result<(), ErrorKind>)
        requires
            self.wf(),
            old(channel).wf(),
        ensures
            final(channel).wf(),
            !self@.clients.contains_key(client) ==> sent == Err::<(), ErrorKind>(
                ErrorKind::ClientDisconnected,
            ) && final(channel)@ == old(channel)@,
            self@.clients.contains_key(client) ==> final(channel)@ == old(channel)@.send(
                self@.clients[client],
                command,
            ),
            self@.clients.contains_key(client) && old(channel)@.accepts(self@.clients[client])
                <==> sent == Ok::<(), ErrorKind>(()),
            self@.clients.contains_key(client) && !old(channel)@.accepts(self@.clients[client])
                <==> sent == Err::<(), ErrorKind>(ErrorKind::ChannelClosed),
    {
        match find(&self.connections, client) {
            None => Err(ErrorKind::ClientDisconnected),
            Some(i) => {
                proof {
                    lemma_at(links(self.connections@), i as int);
                }
                channel.send(&self.connections[i].sender, command)
            },
        }
    }

    /// Hands `client` the oldest event that it has not seen, if there is
    /// one, and says otherwise whether it is still connected.
    pub fn next_event(&mut self, client: u64) -> (next: Delivery<E>)
        requires
            old(self).wf(),
        ensures
            final(self).wf(),
            next == old(self)@.events.delivery(client),
            final(self)@ == old(self)@.take(client),
    {
        match find(&self.connections, client) {
            None => Delivery::Disconnected,
            Some(i) => {
                proof {
                    lemma_at(links(self.connections@), i as int);
                }
                let next = self.broadcaster.next_event(&self.connections[i].receiver);
                assert(self@.events.queues.dom() =~= old(self)@.events.queues.dom());
                next
            },
        }
    }

    /// Closes the connection of `client`: its subscription ends and its
    /// sender is dropped. Returns whether it was connected.
    pub fn disconnect<C>(&mut self, channel: &mut CommandChannel<C>, client: u64) -> (connected:
        bool)
        requires
            old(self).wf(),
            old(channel).wf(),
        ensures
            final(self).wf(),
            final(channel).wf(),
            connected == old(self)@.clients.contains_key(client),
            connected ==> final(self)@ == old(self)@.disconnect(client),
            connected ==> final(channel)@ == old(channel)@.release(old(self)@.clients[client]),
            !connected ==> final(self)@ == old(self)@ && final(channel)@ == old(channel)@,
    {
        match find(&self.connections, client) {
            None => false,
            Some(i) => {
                let ghost before = self.connections@;
                proof {
                    lemma_at(links(before), i as int);
                    assert(links(before.remove(i as int)) =~= links(before).remove(i as int));
                    lemma_remove(links(before), i as int);
                }
                let connection = self.connections.remove(i);
                self.broadcaster.unsubscribe(connection.receiver);
                channel.release(connection.sender);
                true
            },
        }
    }
}

impl<E: Copy> ControlPlaneServer<E> {
    /// Publishes `event` to every connected client, without waiting for
    /// any. A client whose queue is full is disconnected: its subscription
    /// ends and its sender is dropped. Returns the identities of the
    /// clients that were disconnected, each once.
    pub fn publish<C>(&mut self, channel: &mut CommandChannel<C>, event: E) -> (dropped: Vec<u64>)
        requires
            old(self).wf(),
            old(channel).wf(),
        ensures
            final(self).wf(),
            final(channel).wf(),
            final(self)@ == old(self)@.publish(event),
            final(channel)@ == old(channel)@.release_all(old(self)@.lagging_senders()),
            dropped@.no_duplicates(),
            forall|client: u64| #[trigger]
                dropped@.contains(client) <==> old(self)@.events.overflows(client),
    {
        let ghost server = self@;
        let ghost commands = channel@;
        let dropped = self.broadcaster.publish(event);
        let mut k: usize = 0;
        proof {
            assert(server.clients.remove_keys(dropped@.take(0).to_set()) =~= server.clients);
            assert(commands.senders.difference(server.senders_of(dropped@.take(0).to_set()))
                =~= commands.senders);
        }
        while k < dropped.len()
            invariant
                k <= dropped@.len(),
                old(self).wf(),
                server == old(self)@,
                channel.wf(),
                self.broadcaster.wf(),
                self.broadcaster@ == server.events.publish(event),
                self.endpoint == old(self).endpoint,
                self.sender == old(self).sender,
                distinct(links(self.connections@)),
                dropped@.no_duplicates(),
                forall|client: u64| #[trigger]
                    dropped@.contains(client) <==> server.events.overflows(client),
                as_map(links(self.connections@)) == server.clients.remove_keys(
                    dropped@.take(k as int).to_set(),
                ),
                channel@ == commands.release_all(
                    server.senders_of(dropped@.take(k as int).to_set()),
                ),
            decreases dropped@.len() - k,
        {
            let client = dropped[k];
            let ghost done = dropped@.take(k as int);
            let ghost more = dropped@.take(k as int + 1);
            let ghost before = self.connections@;
            proof {
                assert(dropped@.contains(client));
                assert(server.clients.contains_key(client));
                assert(!done.contains(client)) by {
                    if done.contains(client) {
                        let j = choose|j: int| 0 <= j < done.len() && done[j] == client;
                        assert(dropped@[j] == dropped@[k as int]);
                    }
                }
                assert(more =~= done.push(client));
                assert(more.to_set() =~= done.to_set().insert(client)) by {
                    done.lemma_push_to_set_commute(client);
                }
                assert(as_map(links(before)).contains_key(client));
            }
            let i = find(&self.connections, client).unwrap();
            proof {
                lemma_at(links(before), i as int);
                assert(links(before.remove(i as int)) =~= links(before).remove(i as int));
                lemma_remove(links(before), i as int);
            }
            let connection = self.connections.remove(i);
            let ghost sender = connection.sender@;
            channel.release(connection.sender);
            proof {
                assert(server.clients[client] == sender);
                assert(as_map(links(self.connections@)) =~= server.clients.remove_keys(
                    more.to_set(),
                ));
                assert(server.senders_of(more.to_set()) =~= server.senders_of(
                    done.to_set(),
                ).insert(sender)) by {
                    assert forall|s: u64|
                        server.senders_of(more.to_set()).contains(s)
                            <==> server.senders_of(done.to_set()).insert(sender).contains(
                            s,
                        ) by {
                        if server.senders_of(more.to_set()).contains(s) {
                            let c = choose|c: u64|
                                more.to_set().contains(c) && server.clients.contains_key(c)
                                    && #[trigger] server.clients[c] == s;
                            if c != client {
                                assert(done.to_set().contains(c));
                            }
                        }
                        if s == sender {
                            assert(more.to_set().contains(client));
                            assert(server.clients[client] == s);
                        }
                        if server.senders_of(done.to_set()).contains(s) {
                            let c = choose|c: u64|
                                done.to_set().contains(c) && server.clients.contains_key(c)
                                    && #[trigger] server.clients[c] == s;
                            assert(more.to_set().contains(c));
                        }
                    }
                }
                assert(channel@.senders =~= commands.senders.difference(
                    server.senders_of(more.to_set()),
                ));
            }
            k += 1;
        }
        proof {
            assert(dropped@.take(dropped@.len() as int) =~= dropped@);
            assert(dropped@.to_set() =~= server.lagging());
            assert(self@.clients =~= server.publish(event).clients);
            assert(self@.clients.dom() =~= self@.events.queues.dom());
        }
        dropped
    }
}

impl<E> ControlPlaneServer<E> {
    /// Stops the server: every client is disconnected and every sender
    /// that the server holds is dropped, its own included.
    pub fn stop<C>(self, channel: &mut CommandChannel<C>)
        requires
            self.wf(),
            old(channel).wf(),
        ensures
            final(channel).wf(),
            final(channel)@ == old(channel)@.release_all(self@.held_senders()),
    {
        let ghost server = self@;
        let ghost commands = channel@;
        let ghost all = self.connections@;
        let ControlPlaneServer { endpoint: _, sender, broadcaster: _, connections } = self;
        let mut connections = connections;
        proof {
            assert(commands.senders.difference(Set::<u64>::empty()) =~= commands.senders);
        }
        let ghost mut released: Set<u64> = Set::empty();
        while connections.len() > 0
            invariant
                channel.wf(),
                connections@ == all.take(connections@.len() as int),
                connections@.len() <= all.len(),
                forall|s: u64|
                    released.contains(s) <==> exists|j: int|
                        connections@.len() <= j < all.len() && #[trigger] links(all)[j].1 == s,
                channel@ == commands.release_all(released),
            decreases connections@.len(),
        {
            let ghost n = connections@.len() as int;
            let connection = connections.pop().unwrap();
            let ghost gone = connection.sender@;
            channel.release(connection.sender);
            proof {
                assert(connection == all[n - 1]);
                assert(links(all)[n - 1].1 == gone);
                assert(connections@ =~= all.take(n - 1));
                let wider = released.insert(gone);
                assert forall|s: u64|
                    wider.contains(s) <==> exists|j: int|
                        n - 1 <= j < all.len() && #[trigger] links(all)[j].1 == s by {
                    if released.contains(s) {
                        let j = choose|j: int|
                            n <= j < all.len() && #[trigger] links(all)[j].1 == s;
                        assert(n - 1 <= j < all.len() && links(all)[j].1 == s);
                    }
                    if exists|j: int| n - 1 <= j < all.len() && #[trigger] links(all)[j].1 == s {
                        let j = choose|j: int|
                            n - 1 <= j < all.len() && #[trigger] links(all)[j].1 == s;
                        if j >= n {
                            assert(released.contains(s));
                        }
                    }
                }
                assert(channel@.senders =~= commands.senders.difference(wider));
                released = wider;
            }
        }
        channel.release(sender);
        proof {
            assert(released =~= server.clients.values()) by {
                assert forall|s: u64| released.contains(s) <==> server.clients.values().contains(
                    s,
                ) by {
                    if released.contains(s) {
                        let j = choose|j: int|
                            0 <= j < all.len() && #[trigger] links(all)[j].1 == s;
                        lemma_at(links(all), j);
                        assert(server.clients.contains_key(links(all)[j].0));
                    }
                    if server.clients.values().contains(s) {
                        let c = choose|c: u64|
                            server.clients.contains_key(c) && #[trigger] server.clients[c] == s;
                        let j = slot(links(all), c);
                        lemma_at(links(all), j);
                        assert(links(all)[j].1 == s);
                    }
                }
            }
            assert(channel@.senders =~= commands.senders.difference(server.held_senders()));
        }
    }
}

} // verus!
