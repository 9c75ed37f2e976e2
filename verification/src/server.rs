//! The reactor core: the client registry and the per-event dispatch
//! decisions of the readiness-driven loop. The surrounding process blocks on
//! the poller, performs the reads, writes and accepts, and feeds the
//! outcomes in as events; every state transition and every decision about
//! who receives which bytes is made here.

use crate::config::Config;
use crate::stream::Stream;
use vstd::prelude::*;

verus! {

/// The well-known handle of the serial device channel.
pub const SERIAL_TOKEN: u64 = 0;

/// The well-known handle of the TCP listener.
pub const TCP_TOKEN: u64 = 1;

/// The well-known handle of the Unix-domain listener.
pub const UNIX_TOKEN: u64 = 2;

/// The fixed size of one device read.
pub const CHUNK_SIZE: usize = 1024;

/// A handle is a client handle when it is above every well-known handle, so
/// each live handle maps to exactly one resource.
pub open spec fn is_client_fd(fd: u64) -> bool {
    fd > UNIX_TOKEN
}

/// The handles of the registered clients, in registry order.
pub open spec fn fds_of(clients: Seq<Stream>) -> Seq<u64> {
    clients.map_values(|client: Stream| client.spec_fd())
}

/// Whether some registered client has this handle.
pub open spec fn has_fd(clients: Seq<Stream>, fd: u64) -> bool {
    fds_of(clients).contains(fd)
}

/// No two registered clients share a handle.
pub open spec fn unique_fds(clients: Seq<Stream>) -> bool {
    forall|i: int, j: int|
        #![trigger clients[i].spec_fd(), clients[j].spec_fd()]
        0 <= i < clients.len() && 0 <= j < clients.len() && i != j
            ==> clients[i].spec_fd() != clients[j].spec_fd()
}

/// Every registered handle is a client handle.
pub open spec fn client_fds_valid(clients: Seq<Stream>) -> bool {
    forall|i: int|
        0 <= i < clients.len() ==> is_client_fd(#[trigger] clients[i].spec_fd())
}

/// The registry with the client that holds this handle removed; the
/// registry unchanged when no client holds it.
pub open spec fn spec_remove_fd(clients: Seq<Stream>, fd: u64) -> Seq<Stream> {
    match fds_of(clients).index_of_first(fd) {
        Some(i) => clients.remove(i),
        None => clients,
    }
}

/// The reactor: it owns the configuration snapshot and the client registry,
/// and makes every dispatch decision of the event loop.
pub struct Server {
    pub config: Config,
    pub clients: Vec<Stream>,
}

impl Server {
    /// The registry invariant: handles are unique, and none collides with a
    /// well-known handle.
    pub open spec fn wf(self) -> bool {
        &&& unique_fds(self.clients@)
        &&& client_fds_valid(self.clients@)
    }

    /// The handles of the registered clients, in registry order.
    pub open spec fn client_fds(self) -> Seq<u64> {
        fds_of(self.clients@)
    }

    /// A fresh reactor with an empty registry.
    pub fn new(config: Config) -> (server: Server)
        ensures
            server.config == config,
            server.clients@ == Seq::<Stream>::empty(),
            server.wf(),
    {
        Server { config, clients: Vec::new() }
    }

    /// The index of the client holding this handle, when one does; when it
    /// does, every earlier client misses the handle.
    fn find_client_index(&self, fd: u64) -> (idx: Option<usize>)
        ensures
            match idx {
                Some(i) => {
                    &&& i < self.clients@.len()
                    &&& self.clients@[i as int].spec_fd() == fd
                    &&& forall|j: int|
                        0 <= j < i ==> (#[trigger] self.clients@[j].spec_fd()) != fd
                },
                None => !has_fd(self.clients@, fd),
            },
    {
        let n = self.clients.len();
        let mut i: usize = 0;
        while i < n
            invariant
                i <= n,
                n == self.clients@.len(),
                forall|j: int| 0 <= j < i ==> (#[trigger] self.clients@[j].spec_fd()) != fd,
            decreases n - i,
        {
            let client = &self.clients[i];
            if client.as_raw_fd() == fd {
                return Some(i);
            }
            i += 1;
        }
        proof {
            assert forall|k: int| 0 <= k < self.clients@.len()
                implies fds_of(self.clients@)[k] != fd by {
                assert(fds_of(self.clients@)[k] == self.clients@[k].spec_fd());
            }
            assert(!has_fd(self.clients@, fd));
        }
        None
    }

    /// Whether a client with this handle is registered.
    pub fn contains_client(&self, fd: u64) -> (present: bool)
        ensures
            present == has_fd(self.clients@, fd),
    {
        match self.find_client_index(fd) {
            Some(i) => {
                proof {
                    assert(fds_of(self.clients@)[i as int] == fd);
                    assert(has_fd(self.clients@, fd));
                }
                true
            },
            None => false,
        }
    }

    /// How many clients are registered.
    pub fn client_count(&self) -> (n: usize)
        ensures
            n == self.clients@.len(),
    {
        self.clients.len()
    }

    /// Registers a newly accepted client. The client is added exactly when
    /// its handle is a fresh client handle; otherwise the registry is left
    /// as it is, preserving the one-resource-per-handle invariant.
    pub fn add_client(&mut self, client: Stream) -> (added: bool)
        requires
            old(self).wf(),
        ensures
            final(self).wf(),
            final(self).config == old(self).config,
            added == (is_client_fd(client.spec_fd()) && !has_fd(
                old(self).clients@,
                client.spec_fd(),
            )),
            added ==> final(self).clients@ == old(self).clients@.push(client),
            !added ==> final(self).clients@ == old(self).clients@,
    {
        let fd = client.as_raw_fd();
        if fd <= UNIX_TOKEN {
            return false;
        }
        if self.contains_client(fd) {
            return false;
        }
        let ghost s = self.clients@;
        self.clients.push(client);
        proof {
            assert forall|i: int, j: int|
                0 <= i < self.clients@.len() && 0 <= j < self.clients@.len() && i != j
                implies self.clients@[i].spec_fd() != self.clients@[j].spec_fd() by {
                if i == s.len() {
                    if self.clients@[j].spec_fd() == client.spec_fd() {
                        assert(fds_of(s)[j] == s[j].spec_fd());
                        assert(has_fd(s, client.spec_fd()));
                    }
                } else if j == s.len() {
                    if self.clients@[i].spec_fd() == client.spec_fd() {
                        assert(fds_of(s)[i] == s[i].spec_fd());
                        assert(has_fd(s, client.spec_fd()));
                    }
                }
            }
        }
        true
    }

    /// Removes the client holding this handle, when one does. Removing an
    /// absent handle is a safe no-op, never a fault.
    pub fn remove_client(&mut self, fd: u64) -> (removed: bool)
        requires
            old(self).wf(),
        ensures
            final(self).wf(),
            final(self).config == old(self).config,
            removed == has_fd(old(self).clients@, fd),
            final(self).clients@ == spec_remove_fd(old(self).clients@, fd),
    {
        match self.find_client_index(fd) {
            Some(i) => {
                let ghost s = self.clients@;
                self.clients.remove(i);
                proof {
                    assert(fds_of(s)[i as int] == fd);
                    assert(has_fd(s, fd));
                    lemma_first_fd_match(s, fd, i as int);
                    s.remove_ensures(i as int);
                    lemma_remove_index_preserves_wf(s, i as int);
                }
                true
            },
            None => {
                proof {
                    fds_of(self.clients@).index_of_first_ensures(fd);
                }
                false
            },
        }
    }

    /// The handles a device chunk is fanned out to: every client registered
    /// at the moment of the read, in registry order.
    pub fn broadcast_targets(&self) -> (targets: Vec<u64>)
        ensures
            targets@ == fds_of(self.clients@),
    {
        let n = self.clients.len();
        let mut targets: Vec<u64> = Vec::new();
        let mut i: usize = 0;
        while i < n
            invariant
                i <= n,
                n == self.clients@.len(),
                targets@.len() == i,
                forall|j: int|
                    0 <= j < i ==> targets@[j] == (#[trigger] self.clients@[j].spec_fd()),
            decreases n - i,
        {
            let client = &self.clients[i];
            targets.push(client.as_raw_fd());
            i += 1;
        }
        proof {
            assert(targets@ =~= fds_of(self.clients@));
        }
        targets
    }
}

/// Which resource a reported handle belongs to.
#[derive(Clone, Copy, Debug, PartialEq, Eq, Structural)]
pub enum TokenClass {
    /// The device channel.
    Device,
    /// The TCP listener.
    TcpListener,
    /// The Unix-domain listener.
    UnixListener,
    /// A registered client.
    Client,
}

/// Handles are dispatched by identity: the three well-known handles name
/// the device and the two listeners, everything above them is a client.
pub open spec fn spec_classify_token(token: u64) -> TokenClass {
    if token == SERIAL_TOKEN {
        TokenClass::Device
    } else if token == TCP_TOKEN {
        TokenClass::TcpListener
    } else if token == UNIX_TOKEN {
        TokenClass::UnixListener
    } else {
        TokenClass::Client
    }
}

/// Decides which resource a reported handle belongs to.
pub fn classify_token(token: u64) -> (class: TokenClass)
    ensures
        class == spec_classify_token(token),
        class is Client <==> is_client_fd(token),
{
    if token == SERIAL_TOKEN {
        TokenClass::Device
    } else if token == TCP_TOKEN {
        TokenClass::TcpListener
    } else if token == UNIX_TOKEN {
        TokenClass::UnixListener
    } else {
        TokenClass::Client
    }
}

/// What a client's readiness flags call for.
#[derive(Clone, Copy, Debug, PartialEq, Eq, Structural)]
pub enum ClientEventClass {
    /// Error, read-closed or write-closed: remove the client.
    Close,
    /// Readable: read the available bytes.
    Read,
    /// Neither: nothing to do this wake-up.
    Skip,
}

/// A client event that signals error or a closed side removes the client;
/// otherwise a readable event is read; anything else is ignored.
pub open spec fn spec_classify_client_event(
    error: bool,
    read_closed: bool,
    write_closed: bool,
    readable: bool,
) -> ClientEventClass {
    if error || read_closed || write_closed {
        ClientEventClass::Close
    } else if readable {
        ClientEventClass::Read
    } else {
        ClientEventClass::Skip
    }
}

/// Decides what a client's readiness flags call for.
pub fn classify_client_event(
    error: bool,
    read_closed: bool,
    write_closed: bool,
    readable: bool,
) -> (class: ClientEventClass)
    ensures
        class == spec_classify_client_event(error, read_closed, write_closed, readable),
{
    if error || read_closed || write_closed {
        ClientEventClass::Close
    } else if readable {
        ClientEventClass::Read
    } else {
        ClientEventClass::Skip
    }
}

/// What one poller wake-up reports about a source, after the surrounding
/// process has performed the read or accept the readiness called for: the
/// bytes read from the device, a freshly accepted connection, a client whose
/// event flags say it is gone, or the bytes read from a client.
#[derive(Debug, PartialEq, Eq)]
pub enum Event {
    /// The device channel was readable and this chunk was read from it; an
    /// empty chunk means "no data yet", not end-of-stream.
    DeviceData { data: Vec<u8> },
    /// A listener was ready and this connection was accepted.
    Accepted { client: Stream },
    /// A client's event flags signalled error, read-closed or write-closed.
    ClientClosed { fd: u64 },
    /// A client was readable and this chunk was read from it; an empty
    /// chunk means the peer closed.
    ClientData { fd: u64, data: Vec<u8> },
}

/// What the surrounding process must do after one dispatch decision.
#[derive(Debug, PartialEq, Eq)]
pub enum Action {
    /// Nothing to do.
    Ignore,
    /// Write `data`, verbatim and in full, to every handle in `targets`.
    Broadcast { data: Vec<u8>, targets: Vec<u64> },
    /// Register readable interest for the newly admitted client.
    Register { fd: u64 },
    /// Deregister interest for the removed client and close its connection.
    Deregister { fd: u64 },
    /// Write `data`, verbatim and in full, to the device channel.
    ForwardToDevice { data: Vec<u8> },
}

/// The registry after one event is dispatched against it: a device chunk
/// leaves it unchanged; an accepted connection is admitted exactly when its
/// handle is a fresh client handle; a closed client, and a client whose
/// read returned no bytes, is removed; anything else leaves it unchanged.
pub open spec fn spec_step_clients(clients: Seq<Stream>, event: Event) -> Seq<Stream> {
    match event {
        Event::DeviceData { .. } => clients,
        Event::Accepted { client } => {
            if is_client_fd(client.spec_fd()) && !has_fd(clients, client.spec_fd()) {
                clients.push(client)
            } else {
                clients
            }
        },
        Event::ClientClosed { fd } => spec_remove_fd(clients, fd),
        Event::ClientData { fd, data } => {
            if has_fd(clients, fd) && data@.len() == 0 {
                spec_remove_fd(clients, fd)
            } else {
                clients
            }
        },
    }
}

/// The one action a dispatch decision must answer an event with, given the
/// registry the decision was made against: a non-empty device chunk is
/// broadcast, verbatim and in full, to exactly the handles registered at
/// the moment of the read; an empty one is ignored, since the serial link
/// does not signal end-of-stream; a fresh connection is registered and a
/// stale one ignored; a removed client is deregistered; a non-empty client
/// chunk is forwarded, verbatim and in full, to the device.
pub open spec fn step_action_ok(clients: Seq<Stream>, event: Event, action: Action) -> bool {
    match event {
        Event::DeviceData { data } => {
            if data@.len() == 0 {
                action is Ignore
            } else {
                action matches Action::Broadcast { data: out, targets } && out@ == data@
                    && targets@ == fds_of(clients)
            }
        },
        Event::Accepted { client } => {
            if is_client_fd(client.spec_fd()) && !has_fd(clients, client.spec_fd()) {
                action matches Action::Register { fd } && fd == client.spec_fd()
            } else {
                action is Ignore
            }
        },
        Event::ClientClosed { fd } => {
            if has_fd(clients, fd) {
                action matches Action::Deregister { fd: gone } && gone == fd
            } else {
                action is Ignore
            }
        },
        Event::ClientData { fd, data } => {
            if !has_fd(clients, fd) {
                action is Ignore
            } else if data@.len() == 0 {
                action matches Action::Deregister { fd: gone } && gone == fd
            } else {
                action matches Action::ForwardToDevice { data: out } && out@ == data@
            }
        },
    }
}

impl Server {
    /// Makes the decision for one reported event: the registry becomes
    /// `spec_step_clients` of it, and the returned action is the one
    /// `step_action_ok` admits for the registry the event found.
    pub fn dispatch(&mut self, event: Event) -> (action: Action)
        requires
            old(self).wf(),
        ensures
            final(self).wf(),
            final(self).config == old(self).config,
            final(self).clients@ == spec_step_clients(old(self).clients@, event),
            step_action_ok(old(self).clients@, event, action),
    {
        match event {
            Event::DeviceData { data } => {
                if data.len() == 0 {
                    Action::Ignore
                } else {
                    let targets = self.broadcast_targets();
                    Action::Broadcast { data, targets }
                }
            },
            Event::Accepted { client } => {
                let fd = client.as_raw_fd();
                let added = self.add_client(client);
                if added {
                    Action::Register { fd }
                } else {
                    Action::Ignore
                }
            },
            Event::ClientClosed { fd } => {
                let removed = self.remove_client(fd);
                if removed {
                    Action::Deregister { fd }
                } else {
                    Action::Ignore
                }
            },
            Event::ClientData { fd, data } => {
                let present = self.contains_client(fd);
                if !present {
                    Action::Ignore
                } else if data.len() == 0 {
                    self.remove_client(fd);
                    Action::Deregister { fd }
                } else {
                    Action::ForwardToDevice { data }
                }
            },
        }
    }
}

/// The registry after a whole wake-up batch, event by event in
/// poller-reported order.
pub open spec fn spec_run_clients(clients: Seq<Stream>, events: Seq<Event>) -> Seq<Stream>
    decreases events.len(),
{
    if events.len() == 0 {
        clients
    } else {
        spec_run_clients(spec_step_clients(clients, events[0]), events.drop_first())
    }
}

/// Running a batch one event further steps the registry once more.
proof fn lemma_run_clients_take_step(clients: Seq<Stream>, events: Seq<Event>, k: int)
    requires
        0 <= k < events.len(),
    ensures
        spec_run_clients(clients, events.take(k + 1)) == spec_step_clients(
            spec_run_clients(clients, events.take(k)),
            events[k],
        ),
    decreases k,
{
    let stepped = spec_step_clients(clients, events[0]);
    if k == 0 {
        assert(events.take(0) =~= Seq::<Event>::empty());
        assert(events.take(1).drop_first() =~= Seq::<Event>::empty());
        assert(events.take(1)[0] == events[0]);
        assert(spec_run_clients(clients, events.take(1)) == spec_run_clients(
            stepped,
            Seq::<Event>::empty(),
        ));
        assert(spec_run_clients(stepped, Seq::<Event>::empty()) == stepped);
        assert(spec_run_clients(clients, events.take(0)) == clients);
    } else {
        let rest = events.drop_first();
        assert(events.take(k + 1)[0] == events[0]);
        assert(events.take(k + 1).drop_first() =~= rest.take(k));
        assert(spec_run_clients(clients, events.take(k + 1)) == spec_run_clients(
            stepped,
            rest.take(k),
        ));
        assert(events.take(k)[0] == events[0]);
        assert(events.take(k).drop_first() =~= rest.take(k - 1));
        assert(spec_run_clients(clients, events.take(k)) == spec_run_clients(
            stepped,
            rest.take(k - 1),
        ));
        lemma_run_clients_take_step(stepped, rest, k - 1);
        assert(rest[k - 1] == events[k]);
    }
}

impl Server {
    /// Dispatches one wake-up batch, in poller-reported order: one decision
    /// per event, each made against the registry as the previous decisions
    /// in the same batch left it, so no event observes a half-removed
    /// client, and every relayed chunk is one event's bytes, whole, never
    /// interleaved with another's.
    pub fn handle_events(&mut self, events: Vec<Event>) -> (actions: Vec<Action>)
        requires
            old(self).wf(),
        ensures
            final(self).wf(),
            final(self).config == old(self).config,
            actions@.len() == events@.len(),
            final(self).clients@ == spec_run_clients(old(self).clients@, events@),
            forall|k: int|
                0 <= k < events@.len() ==> step_action_ok(
                    spec_run_clients(old(self).clients@, events@.take(k)),
                    events@[k],
                    #[trigger] actions@[k],
                ),
    {
        let ghost all = events@;
        let ghost orig_config = self.config;
        let ghost orig_clients = self.clients@;
        let mut remaining = events;
        let mut actions: Vec<Action> = Vec::new();
        proof {
            assert(all.take(0) =~= Seq::<Event>::empty());
        }
        while remaining.len() > 0
            invariant
                self.wf(),
                self.config == orig_config,
                actions@.len() + remaining@.len() == all.len(),
                remaining@ == all.subrange(actions@.len() as int, all.len() as int),
                self.clients@ == spec_run_clients(orig_clients, all.take(actions@.len() as int)),
                forall|k: int|
                    0 <= k < actions@.len() ==> step_action_ok(
                        spec_run_clients(orig_clients, all.take(k)),
                        all[k],
                        #[trigger] actions@[k],
                    ),
            decreases remaining@.len(),
        {
            let ghost done = actions@.len() as int;
            let event = remaining.remove(0);
            proof {
                assert(event == all[done]);
                assert(remaining@ =~= all.subrange(done + 1, all.len() as int));
            }
            let action = self.dispatch(event);
            proof {
                lemma_run_clients_take_step(orig_clients, all, done);
            }
            actions.push(action);
        }
        proof {
            assert(all.take(all.len() as int) =~= all);
        }
        actions
    }
}

/// Fan-out covers the registry: the broadcast targets for a device chunk
/// are exactly the registered handles, in registry order, so every client
/// registered at read time is offered the chunk.
pub proof fn lemma_fanout_covers_registry(clients: Seq<Stream>)
    ensures
        fds_of(clients).len() == clients.len(),
        forall|i: int|
            0 <= i < clients.len() ==> fds_of(clients)[i] == (
            #[trigger] clients[i].spec_fd()),
        forall|i: int|
            0 <= i < clients.len() ==> fds_of(clients).contains(
                #[trigger] clients[i].spec_fd(),
            ),
{
    assert forall|i: int| 0 <= i < clients.len() implies fds_of(clients).contains(
        #[trigger] clients[i].spec_fd(),
    ) by {
        assert(fds_of(clients)[i] == clients[i].spec_fd());
    }
}

/// A client is removed exactly once: after its removal its handle is no
/// longer registered, so no broadcast targets it; removing it again changes
/// nothing; and every other client is unaffected.
pub proof fn lemma_remove_exactly_once(clients: Seq<Stream>, fd: u64)
    requires
        unique_fds(clients),
    ensures
        !has_fd(spec_remove_fd(clients, fd), fd),
        spec_remove_fd(spec_remove_fd(clients, fd), fd) == spec_remove_fd(clients, fd),
        forall|other: u64|
            other != fd ==> #[trigger] has_fd(spec_remove_fd(clients, fd), other)
                == has_fd(clients, other),
{
    let names = fds_of(clients);
    names.index_of_first_ensures(fd);
    let after = spec_remove_fd(clients, fd);
    if has_fd(clients, fd) {
        let i = names.index_of_first(fd)->0;
        assert(clients[i].spec_fd() == fd);
        clients.remove_ensures(i);
        assert(after == clients.remove(i));
        assert forall|k: int| 0 <= k < after.len() implies fds_of(after)[k] != fd by {
            let k0 = if k < i {
                k
            } else {
                k + 1
            };
            assert(after[k] == clients[k0]);
            assert(fds_of(after)[k] == clients[k0].spec_fd());
            assert(clients[k0].spec_fd() != clients[i].spec_fd());
        }
        assert(!has_fd(after, fd));
        fds_of(after).index_of_first_ensures(fd);
        assert(spec_remove_fd(after, fd) == after);
        assert forall|other: u64|
            other != fd implies #[trigger] has_fd(after, other) == has_fd(clients, other) by {
            if has_fd(clients, other) {
                let k = choose|k: int| 0 <= k < names.len() && names[k] == other;
                assert(clients[k].spec_fd() == other);
                let moved = if k < i {
                    k
                } else {
                    k - 1
                };
                assert(after[moved] == clients[k]);
                assert(fds_of(after)[moved] == other);
                assert(has_fd(after, other));
            }
            if has_fd(after, other) {
                let k = choose|k: int|
                    0 <= k < fds_of(after).len() && fds_of(after)[k] == other;
                let k0 = if k < i {
                    k
                } else {
                    k + 1
                };
                assert(fds_of(after)[k] == after[k].spec_fd());
                assert(after[k] == clients[k0]);
                assert(fds_of(clients)[k0] == other);
                assert(has_fd(clients, other));
            }
        }
    } else {
        assert(after == clients);
        fds_of(after).index_of_first_ensures(fd);
    }
}

/// Removing an absent handle is a safe no-op: the registry is unchanged.
pub proof fn lemma_remove_absent_is_noop(clients: Seq<Stream>, fd: u64)
    requires
        !has_fd(clients, fd),
    ensures
        spec_remove_fd(clients, fd) == clients,
{
    fds_of(clients).index_of_first_ensures(fd);
}

/// If the clients before index `i` all miss the handle and the one at `i`
/// holds it, then `i` is the first match.
proof fn lemma_first_fd_match(clients: Seq<Stream>, fd: u64, i: int)
    requires
        0 <= i < clients.len(),
        clients[i].spec_fd() == fd,
        forall|j: int| 0 <= j < i ==> (#[trigger] clients[j].spec_fd()) != fd,
    ensures
        fds_of(clients).index_of_first(fd) == Some(i),
{
    let names = fds_of(clients);
    assert(names[i] == fd);
    names.index_of_first_ensures(fd);
    let found = names.index_of_first(fd)->0;
    if found < i {
        assert(names[found] == fd);
        assert(clients[found].spec_fd() == fd);
    }
}

/// Removing one client keeps the registry invariant.
proof fn lemma_remove_index_preserves_wf(clients: Seq<Stream>, i: int)
    requires
        0 <= i < clients.len(),
        unique_fds(clients),
        client_fds_valid(clients),
    ensures
        unique_fds(clients.remove(i)),
        client_fds_valid(clients.remove(i)),
{
    clients.remove_ensures(i);
    let after = clients.remove(i);
    assert forall|a: int, b: int|
        0 <= a < after.len() && 0 <= b < after.len() && a != b
        implies after[a].spec_fd() != after[b].spec_fd() by {
        let a0 = if a < i { a } else { a + 1 };
        let b0 = if b < i { b } else { b + 1 };
        assert(after[a] == clients[a0]);
        assert(after[b] == clients[b0]);
        assert(clients[a0].spec_fd() != clients[b0].spec_fd());
    }
    assert forall|a: int| 0 <= a < after.len()
        implies is_client_fd(after[a].spec_fd()) by {
        let a0 = if a < i { a } else { a + 1 };
        assert(after[a] == clients[a0]);
        assert(is_client_fd(clients[a0].spec_fd()));
    }
}

} // verus!
