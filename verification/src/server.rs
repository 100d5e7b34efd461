use vstd::prelude::*;
use crate::net::{SockAddr, text_is};

verus! {

/// Number of servers in the cluster.
pub const SERVER_COUNT: usize = 3;

/// Index of this server in the cluster tables.
pub const SERVER_ID: usize = 0;

/// CPU loads are kept as order keys: a key compares like the load it stands
/// for, and this key stands for a load of zero ("nothing reported").
pub const ZERO_LOAD: u32 = 0x8000_0000;

/// A message between servers: `content` says what it is ("shutdown",
/// "wakeup" or "update_load"), `id` which server sent it.
pub struct ServerMessage {
    pub load_update: u32,
    pub ip: String,
    pub id: usize,
    pub content: String,
}

/// A client known to this server and whether it is online.
#[derive(Clone, Copy, PartialEq, Eq, Structural, Debug)]
pub struct ClientEntry {
    pub addr: SockAddr,
    pub online: bool,
}

/// A change of view allowance that could not be delivered because the
/// client at `addr` was offline.
pub struct PendingRequest {
    pub image_name: String,
    pub addr: SockAddr,
    pub views: usize,
}

impl PendingRequest {
    /// A copy of this request.
    pub fn duplicate(&self) -> (r: PendingRequest)
        ensures
            r == *self,
    {
        PendingRequest { image_name: self.image_name.clone(), addr: self.addr, views: self.views }
    }
}

/// A message to be sent to each of `targets`.
pub struct Broadcast {
    pub message: ServerMessage,
    pub targets: Vec<String>,
}

/// What a message from another server was.
#[derive(Clone, Copy, PartialEq, Eq, Structural, Debug)]
pub enum ServerEvent {
    Shutdown,
    Wakeup,
    LoadUpdate,
    Other,
}

/// Everything a server remembers.
pub struct ServerState {
    /// Which servers are up.
    pub flags: Vec<bool>,
    /// This server's own CPU load.
    pub cpu_load: u32,
    /// The last load reported by each server.
    pub cpu_loads: Vec<u32>,
    /// Where each server listens for other servers.
    pub server_addresses: Vec<String>,
    /// Clients that announced themselves, with their online state.
    pub clients: Vec<ClientEntry>,
    /// View changes waiting for their client to come back online.
    pub pending: Vec<PendingRequest>,
    /// The (receive, send, peer) addresses of the known clients.
    pub client_addresses: Vec<(SockAddr, SockAddr, SockAddr)>,
    /// Whether an acknowledgement arrived.
    pub ack: bool,
}

/// Server `i` may take work: it is up and has reported a load.
pub open spec fn load_eligible(loads: Seq<u32>, flags: Seq<bool>, i: int) -> bool {
    0 <= i < loads.len() && i < flags.len() && flags[i] && loads[i] != ZERO_LOAD
}

/// Server `i` is the first of the eligible servers with the smallest load.
pub open spec fn is_least_loaded(loads: Seq<u32>, flags: Seq<bool>, i: int) -> bool {
    &&& load_eligible(loads, flags, i)
    &&& forall|j: int| load_eligible(loads, flags, j) ==> loads[i] <= loads[j]
    &&& forall|j: int| 0 <= j < i && load_eligible(loads, flags, j) ==> loads[i] < loads[j]
}

/// The addresses of the first `n` servers other than this one, in index
/// order; with `only_up`, only those whose flag is set.
pub open spec fn peer_targets(addrs: Seq<String>, flags: Seq<bool>, n: nat, only_up: bool) -> Seq<String>
    decreases n,
{
    if n == 0 {
        Seq::empty()
    } else {
        let i = n - 1;
        let rest = peer_targets(addrs, flags, i as nat, only_up);
        if i != SERVER_ID && (!only_up || flags[i]) {
            rest.push(addrs[i])
        } else {
            rest
        }
    }
}

/// The entry for `addr` gets flag `online`; other entries stay.
pub open spec fn with_flag(e: ClientEntry, addr: SockAddr, online: bool) -> ClientEntry {
    if e.addr == addr {
        ClientEntry { addr: e.addr, online }
    } else {
        e
    }
}

impl ServerState {
    /// The per-server tables have one entry per server.
    pub open spec fn wf(&self) -> bool {
        &&& self.flags@.len() == SERVER_COUNT
        &&& self.cpu_loads@.len() == SERVER_COUNT
        &&& self.server_addresses@.len() == SERVER_COUNT
    }

    /// Sets the up-flag of server `index`; an index past the table changes nothing.
    pub fn update_server_flag(&mut self, index: usize, value: bool)
        ensures
            final(self).flags@ == (if index < old(self).flags@.len() {
                old(self).flags@.update(index as int, value)
            } else {
                old(self).flags@
            }),
            final(self).cpu_load == old(self).cpu_load,
            final(self).cpu_loads == old(self).cpu_loads,
            final(self).server_addresses == old(self).server_addresses,
            final(self).clients == old(self).clients,
            final(self).pending == old(self).pending,
            final(self).client_addresses == old(self).client_addresses,
            final(self).ack == old(self).ack,
    {
        if index < self.flags.len() {
            self.flags.set(index, value);
        }
    }

    /// Whether server `index` is up.
    pub fn get_flag(&self, index: usize) -> (r: bool)
        requires
            index < self.flags@.len(),
        ensures
            r == self.flags@[index as int],
    {
        self.flags[index]
    }

    /// Records this server's own CPU load.
    pub fn set_cpu_load(&mut self, load: u32)
        ensures
            final(self).cpu_load == load,
            final(self).flags == old(self).flags,
            final(self).cpu_loads == old(self).cpu_loads,
            final(self).server_addresses == old(self).server_addresses,
            final(self).clients == old(self).clients,
            final(self).pending == old(self).pending,
            final(self).client_addresses == old(self).client_addresses,
            final(self).ack == old(self).ack,
    {
        self.cpu_load = load;
    }

    /// Records the load reported by server `id`; an id past the table changes nothing.
    #[allow(non_snake_case)]
    pub fn update_CPU(&mut self, id: usize, load: u32)
        ensures
            final(self).cpu_loads@ == (if id < old(self).cpu_loads@.len() {
                old(self).cpu_loads@.update(id as int, load)
            } else {
                old(self).cpu_loads@
            }),
            final(self).flags == old(self).flags,
            final(self).cpu_load == old(self).cpu_load,
            final(self).server_addresses == old(self).server_addresses,
            final(self).clients == old(self).clients,
            final(self).pending == old(self).pending,
            final(self).client_addresses == old(self).client_addresses,
            final(self).ack == old(self).ack,
    {
        if id < self.cpu_loads.len() {
            self.cpu_loads.set(id, load);
        }
    }

    /// The first of the servers that are up and have reported a load whose
    /// load is smallest; `None` when no server qualifies.
    pub fn find_least_load_index(&self) -> (r: Option<usize>)
        ensures
            match r {
                Some(i) => is_least_loaded(self.cpu_loads@, self.flags@, i as int),
                None => forall|i: int| !load_eligible(self.cpu_loads@, self.flags@, i),
            },
    {
        let loads = &self.cpu_loads;
        let flags = &self.flags;
        let n = if loads.len() < flags.len() { loads.len() } else { flags.len() };
        let mut best: Option<usize> = None;
        let mut i: usize = 0;
        while i < n
            invariant
                n <= loads@.len(),
                n <= flags@.len(),
                n == loads@.len() || n == flags@.len(),
                i <= n,
                match best {
                    Some(b) => {
                        &&& b < i
                        &&& load_eligible(loads@, flags@, b as int)
                        &&& forall|j: int| 0 <= j < i && load_eligible(loads@, flags@, j) ==> loads@[b as int] <= loads@[j]
                        &&& forall|j: int| 0 <= j < b && load_eligible(loads@, flags@, j) ==> loads@[b as int] < loads@[j]
                    },
                    None => forall|j: int| 0 <= j < i ==> !load_eligible(loads@, flags@, j),
                },
            decreases n - i,
        {
            if flags[i] && loads[i] != ZERO_LOAD {
                match best {
                    Some(b) => {
                        if loads[i] < loads[b] {
                            best = Some(i);
                        }
                    },
                    None => {
                        best = Some(i);
                    },
                }
            }
            i = i + 1;
        }
        best
    }

    /// The addresses of the servers other than this one, in index order;
    /// with `only_up`, only the servers that are up.
    fn peers(&self, only_up: bool) -> (r: Vec<String>)
        requires
            self.wf(),
        ensures
            r@ == peer_targets(self.server_addresses@, self.flags@, SERVER_COUNT as nat, only_up),
    {
        let mut out: Vec<String> = Vec::new();
        let mut i: usize = 0;
        while i < SERVER_COUNT
            invariant
                self.wf(),
                i <= SERVER_COUNT,
                out@ == peer_targets(self.server_addresses@, self.flags@, i as nat, only_up),
            decreases SERVER_COUNT - i,
        {
            if i != SERVER_ID && (!only_up || self.get_flag(i)) {
                out.push(self.server_addresses[i].clone());
            }
            i = i + 1;
        }
        out
    }

    /// The targets of a message sent to the servers that are up
    /// (every server but this one whose flag is set).
    pub fn connect_to_servers(&self) -> (r: Vec<String>)
        requires
            self.wf(),
        ensures
            r@ == peer_targets(self.server_addresses@, self.flags@, SERVER_COUNT as nat, true),
    {
        self.peers(true)
    }

    /// The targets of a message sent to every other server.
    pub fn notify_servers(&self) -> (r: Vec<String>)
        requires
            self.wf(),
        ensures
            r@ == peer_targets(self.server_addresses@, self.flags@, SERVER_COUNT as nat, false),
    {
        self.peers(false)
    }
}

/// What a message from another server with this content is.
pub open spec fn event_of(content: Seq<char>) -> ServerEvent {
    if content == "shutdown"@ {
        ServerEvent::Shutdown
    } else if content == "wakeup"@ {
        ServerEvent::Wakeup
    } else if content == "update_load"@ {
        ServerEvent::LoadUpdate
    } else {
        ServerEvent::Other
    }
}

/// The up-flags after a message from server `id` with this content:
/// "shutdown" clears and "wakeup" sets that server's flag (an unknown
/// server changes nothing).
pub open spec fn flags_after(flags: Seq<bool>, content: Seq<char>, id: usize) -> Seq<bool> {
    let e = event_of(content);
    if (e == ServerEvent::Shutdown || e == ServerEvent::Wakeup) && id < flags.len() {
        flags.update(id as int, e == ServerEvent::Wakeup)
    } else {
        flags
    }
}

/// The reported loads after a message from server `id` with this content:
/// "update_load" records `load` for that server.
pub open spec fn loads_after(loads: Seq<u32>, content: Seq<char>, id: usize, load: u32) -> Seq<u32> {
    if event_of(content) == ServerEvent::LoadUpdate && id < loads.len() {
        loads.update(id as int, load)
    } else {
        loads
    }
}

impl ServerState {
    /// Announces this server's own load to the servers that are up.
    pub fn send_load(&self) -> (r: Broadcast)
        requires
            self.wf(),
        ensures
            r.message.load_update == self.cpu_load,
            r.message.ip@ == "127.0.0.0:8090"@,
            r.message.id == SERVER_ID,
            r.message.content@ == "update_load"@,
            r.targets@ == peer_targets(self.server_addresses@, self.flags@, SERVER_COUNT as nat, true),
    {
        let message = ServerMessage {
            load_update: self.cpu_load,
            ip: server_send_address(),
            id: SERVER_ID,
            content: "update_load".to_owned(),
        };
        Broadcast { message, targets: self.connect_to_servers() }
    }

    /// Marks this server as up or down and tells every other server.
    fn announce_state(&mut self, up: bool, content: &str) -> (r: Broadcast)
        requires
            old(self).wf(),
        ensures
            final(self).wf(),
            final(self).flags@ == old(self).flags@.update(SERVER_ID as int, up),
            final(self).cpu_load == old(self).cpu_load,
            final(self).cpu_loads == old(self).cpu_loads,
            final(self).server_addresses == old(self).server_addresses,
            final(self).clients == old(self).clients,
            final(self).pending == old(self).pending,
            final(self).client_addresses == old(self).client_addresses,
            final(self).ack == old(self).ack,
            r.message.load_update == ZERO_LOAD,
            r.message.ip@ == "127.0.0.0:8090"@,
            r.message.id == SERVER_ID,
            r.message.content@ == content@,
            r.targets@ == peer_targets(final(self).server_addresses@, final(self).flags@, SERVER_COUNT as nat, false),
    {
        self.update_server_flag(SERVER_ID, up);
        let message = ServerMessage {
            load_update: ZERO_LOAD,
            ip: server_send_address(),
            id: SERVER_ID,
            content: content.to_owned(),
        };
        Broadcast { message, targets: self.notify_servers() }
    }

    /// Marks this server as down and builds the "shutdown" notice for every
    /// other server.
    pub fn notify_server_shutdown(&mut self) -> (r: Broadcast)
        requires
            old(self).wf(),
        ensures
            final(self).wf(),
            final(self).flags@ == old(self).flags@.update(SERVER_ID as int, false),
            final(self).cpu_load == old(self).cpu_load,
            final(self).cpu_loads == old(self).cpu_loads,
            final(self).server_addresses == old(self).server_addresses,
            final(self).clients == old(self).clients,
            final(self).pending == old(self).pending,
            final(self).client_addresses == old(self).client_addresses,
            final(self).ack == old(self).ack,
            r.message.load_update == ZERO_LOAD,
            r.message.ip@ == "127.0.0.0:8090"@,
            r.message.id == SERVER_ID,
            r.message.content@ == "shutdown"@,
            r.targets@ == peer_targets(final(self).server_addresses@, final(self).flags@, SERVER_COUNT as nat, false),
    {
        self.announce_state(false, "shutdown")
    }

    /// Marks this server as up and builds the "wakeup" notice for every other
    /// server.
    pub fn notify_server_wakeup(&mut self) -> (r: Broadcast)
        requires
            old(self).wf(),
        ensures
            final(self).wf(),
            final(self).flags@ == old(self).flags@.update(SERVER_ID as int, true),
            final(self).cpu_load == old(self).cpu_load,
            final(self).cpu_loads == old(self).cpu_loads,
            final(self).server_addresses == old(self).server_addresses,
            final(self).clients == old(self).clients,
            final(self).pending == old(self).pending,
            final(self).client_addresses == old(self).client_addresses,
            final(self).ack == old(self).ack,
            r.message.load_update == ZERO_LOAD,
            r.message.ip@ == "127.0.0.0:8090"@,
            r.message.id == SERVER_ID,
            r.message.content@ == "wakeup"@,
            r.targets@ == peer_targets(final(self).server_addresses@, final(self).flags@, SERVER_COUNT as nat, false),
    {
        self.announce_state(true, "wakeup")
    }

    /// Acts on a message from another server: "shutdown" and "wakeup" set the
    /// sender's up-flag, "update_load" records its load; anything else is
    /// only reported.
    pub fn handle_server_connections(&mut self, message: &ServerMessage) -> (r: ServerEvent)
        ensures
            r == event_of(message.content@),
            final(self).flags@ == flags_after(old(self).flags@, message.content@, message.id),
            final(self).cpu_loads@ == loads_after(old(self).cpu_loads@, message.content@, message.id, message.load_update),
            final(self).cpu_load == old(self).cpu_load,
            final(self).server_addresses == old(self).server_addresses,
            final(self).clients == old(self).clients,
            final(self).pending == old(self).pending,
            final(self).client_addresses == old(self).client_addresses,
            final(self).ack == old(self).ack,
    {
        if text_is(&message.content, "shutdown") {
            self.update_server_flag(message.id, false);
            ServerEvent::Shutdown
        } else if text_is(&message.content, "wakeup") {
            self.update_server_flag(message.id, true);
            ServerEvent::Wakeup
        } else if text_is(&message.content, "update_load") {
            self.update_CPU(message.id, message.load_update);
            ServerEvent::LoadUpdate
        } else {
            ServerEvent::Other
        }
    }
}

/// The entries of `s` whose address is `addr`.
pub open spec fn pending_for(s: Seq<PendingRequest>, addr: SockAddr) -> Seq<PendingRequest> {
    s.filter(|p: PendingRequest| p.addr == addr)
}

/// The entries of `s` whose address is not `addr`.
pub open spec fn pending_not_for(s: Seq<PendingRequest>, addr: SockAddr) -> Seq<PendingRequest> {
    s.filter(|p: PendingRequest| p.addr != addr)
}

/// The addresses of the clients that are online, other than `sender`, in table order.
pub open spec fn online_peers(clients: Seq<ClientEntry>, sender: SockAddr) -> Seq<SockAddr> {
    clients.filter(|e: ClientEntry| e.online && e.addr != sender).map_values(|e: ClientEntry| e.addr)
}

impl ServerState {
    /// Records a client and its online state at the end of the table.
    pub fn add_client_entry(&mut self, ip: SockAddr, flag: bool)
        ensures
            final(self).clients@ == old(self).clients@.push(ClientEntry { addr: ip, online: flag }),
            final(self).flags == old(self).flags,
            final(self).cpu_load == old(self).cpu_load,
            final(self).cpu_loads == old(self).cpu_loads,
            final(self).server_addresses == old(self).server_addresses,
            final(self).pending == old(self).pending,
            final(self).client_addresses == old(self).client_addresses,
            final(self).ack == old(self).ack,
    {
        self.clients.push(ClientEntry { addr: ip, online: flag });
    }

    /// Forgets every entry of the client at `ip`.
    pub fn delete_client_by_ip(&mut self, ip: SockAddr)
        ensures
            final(self).clients@ == old(self).clients@.filter(|e: ClientEntry| e.addr != ip),
            final(self).flags == old(self).flags,
            final(self).cpu_load == old(self).cpu_load,
            final(self).cpu_loads == old(self).cpu_loads,
            final(self).server_addresses == old(self).server_addresses,
            final(self).pending == old(self).pending,
            final(self).client_addresses == old(self).client_addresses,
            final(self).ack == old(self).ack,
    {
        let ghost pred = |e: ClientEntry| e.addr != ip;
        let ghost s = self.clients@;
        let mut kept: Vec<ClientEntry> = Vec::new();
        let mut i: usize = 0;
        while i < self.clients.len()
            invariant
                s == self.clients@,
                pred == (|e: ClientEntry| e.addr != ip),
                i <= s.len(),
                kept@ == s.take(i as int).filter(pred),
            decreases s.len() - i,
        {
            proof {
                reveal(Seq::filter);
                assert(s.take(i + 1).drop_last() =~= s.take(i as int));
            }
            let e = self.clients[i];
            if e.addr != ip {
                kept.push(e);
            }
            i = i + 1;
        }
        assert(s.take(i as int) =~= s);
        self.clients = kept;
    }

    /// Sets the online state of every entry of the client at `ip`.
    pub fn update_client_flag_by_ip(&mut self, ip: SockAddr, new_flag: bool)
        ensures
            final(self).clients@ == old(self).clients@.map_values(|e: ClientEntry| with_flag(e, ip, new_flag)),
            final(self).flags == old(self).flags,
            final(self).cpu_load == old(self).cpu_load,
            final(self).cpu_loads == old(self).cpu_loads,
            final(self).server_addresses == old(self).server_addresses,
            final(self).pending == old(self).pending,
            final(self).client_addresses == old(self).client_addresses,
            final(self).ack == old(self).ack,
    {
        let ghost s = self.clients@;
        let mut i: usize = 0;
        while i < self.clients.len()
            invariant
                s == old(self).clients@,
                self.clients@.len() == s.len(),
                i <= s.len(),
                forall|k: int| 0 <= k < i ==> #[trigger] self.clients@[k] == with_flag(s[k], ip, new_flag),
                forall|k: int| i <= k < s.len() ==> #[trigger] self.clients@[k] == s[k],
                self.flags == old(self).flags,
                self.cpu_load == old(self).cpu_load,
                self.cpu_loads == old(self).cpu_loads,
                self.server_addresses == old(self).server_addresses,
                self.pending == old(self).pending,
                self.client_addresses == old(self).client_addresses,
                self.ack == old(self).ack,
            decreases s.len() - i,
        {
            let e = self.clients[i];
            if e.addr == ip {
                self.clients.set(i, ClientEntry { addr: e.addr, online: new_flag });
            }
            i = i + 1;
        }
        assert(self.clients@ =~= s.map_values(|e: ClientEntry| with_flag(e, ip, new_flag)));
    }

    /// The addresses of the clients that are online, other than `sender_address`.
    pub fn get_clients_with_positive_flags(&self, sender_address: SockAddr) -> (r: Vec<SockAddr>)
        ensures
            r@ == online_peers(self.clients@, sender_address),
    {
        let ghost pred = |e: ClientEntry| e.online && e.addr != sender_address;
        let ghost addr_of = |e: ClientEntry| e.addr;
        let ghost s = self.clients@;
        let mut out: Vec<SockAddr> = Vec::new();
        let mut i: usize = 0;
        while i < self.clients.len()
            invariant
                s == self.clients@,
                pred == (|e: ClientEntry| e.online && e.addr != sender_address),
                addr_of == (|e: ClientEntry| e.addr),
                i <= s.len(),
                out@ == s.take(i as int).filter(pred).map_values(addr_of),
            decreases s.len() - i,
        {
            proof {
                reveal(Seq::filter);
                assert(s.take(i + 1).drop_last() =~= s.take(i as int));
            }
            let e = self.clients[i];
            if e.online && e.addr != sender_address {
                proof {
                    let f = s.take(i as int).filter(pred);
                    assert(f.push(e).map_values(addr_of) =~= f.map_values(addr_of).push(e.addr));
                }
                out.push(e.addr);
            }
            i = i + 1;
        }
        assert(s.take(i as int) =~= s);
        out
    }

    /// Sets the acknowledgement flag.
    pub fn set_ack(&mut self, value: bool)
        ensures
            final(self).ack == value,
            final(self).flags == old(self).flags,
            final(self).cpu_load == old(self).cpu_load,
            final(self).cpu_loads == old(self).cpu_loads,
            final(self).server_addresses == old(self).server_addresses,
            final(self).clients == old(self).clients,
            final(self).pending == old(self).pending,
            final(self).client_addresses == old(self).client_addresses,
    {
        self.ack = value;
    }

    /// Whether an acknowledgement arrived.
    pub fn get_ack(&self) -> (r: bool)
        ensures
            r == self.ack,
    {
        self.ack
    }

    /// Queues a view change for a client that is offline.
    pub fn add_to_pending(&mut self, name: String, addr: SockAddr, views: usize)
        ensures
            final(self).pending@ == old(self).pending@.push(PendingRequest { image_name: name, addr, views }),
            final(self).flags == old(self).flags,
            final(self).cpu_load == old(self).cpu_load,
            final(self).cpu_loads == old(self).cpu_loads,
            final(self).server_addresses == old(self).server_addresses,
            final(self).clients == old(self).clients,
            final(self).client_addresses == old(self).client_addresses,
            final(self).ack == old(self).ack,
    {
        self.pending.push(PendingRequest { image_name: name, addr, views });
    }

    /// Splits the queue: the entries for `addr` and the others, both in queue order.
    fn split_pending(&self, addr: SockAddr) -> (r: (Vec<PendingRequest>, Vec<PendingRequest>))
        ensures
            r.0@ == pending_for(self.pending@, addr),
            r.1@ == pending_not_for(self.pending@, addr),
    {
        let ghost s = self.pending@;
        let ghost is_for = |p: PendingRequest| p.addr == addr;
        let ghost not_for = |p: PendingRequest| p.addr != addr;
        let mut matched: Vec<PendingRequest> = Vec::new();
        let mut kept: Vec<PendingRequest> = Vec::new();
        let mut i: usize = 0;
        while i < self.pending.len()
            invariant
                s == self.pending@,
                is_for == (|p: PendingRequest| p.addr == addr),
                not_for == (|p: PendingRequest| p.addr != addr),
                i <= s.len(),
                matched@ == s.take(i as int).filter(is_for),
                kept@ == s.take(i as int).filter(not_for),
            decreases s.len() - i,
        {
            proof {
                reveal(Seq::filter);
                assert(s.take(i + 1).drop_last() =~= s.take(i as int));
            }
            let p = self.pending[i].duplicate();
            if p.addr == addr {
                matched.push(p);
            } else {
                kept.push(p);
            }
            i = i + 1;
        }
        assert(s.take(i as int) =~= s);
        (matched, kept)
    }

    /// Drops every queued change for `addr`.
    pub fn remove_from_pending(&mut self, addr: SockAddr)
        ensures
            final(self).pending@ == pending_not_for(old(self).pending@, addr),
            final(self).flags == old(self).flags,
            final(self).cpu_load == old(self).cpu_load,
            final(self).cpu_loads == old(self).cpu_loads,
            final(self).server_addresses == old(self).server_addresses,
            final(self).clients == old(self).clients,
            final(self).client_addresses == old(self).client_addresses,
            final(self).ack == old(self).ack,
    {
        let (_matched, kept) = self.split_pending(addr);
        self.pending = kept;
    }

    /// Takes every queued change for `addr` out of the queue and returns them
    /// in queue order.
    pub fn search_and_remove_pending(&mut self, addr: SockAddr) -> (r: Vec<PendingRequest>)
        ensures
            r@ == pending_for(old(self).pending@, addr),
            final(self).pending@ == pending_not_for(old(self).pending@, addr),
            final(self).flags == old(self).flags,
            final(self).cpu_load == old(self).cpu_load,
            final(self).cpu_loads == old(self).cpu_loads,
            final(self).server_addresses == old(self).server_addresses,
            final(self).clients == old(self).clients,
            final(self).client_addresses == old(self).client_addresses,
            final(self).ack == old(self).ack,
    {
        let (matched, kept) = self.split_pending(addr);
        self.pending = kept;
        matched
    }

    /// The send address of the known client whose receive address is `recv_addr`.
    pub fn find_send_addr_by_recv_addr(&self, recv_addr: SockAddr) -> (r: Option<SockAddr>)
        ensures
            match r {
                Some(a) => exists|i: int|
                    0 <= i < self.client_addresses@.len() && #[trigger] self.client_addresses@[i].0 == recv_addr
                        && self.client_addresses@[i].1 == a
                        && forall|j: int| 0 <= j < i ==> #[trigger] self.client_addresses@[j].0 != recv_addr,
                None => forall|i: int| 0 <= i < self.client_addresses@.len() ==> #[trigger] self.client_addresses@[i].0 != recv_addr,
            },
    {
        let mut i: usize = 0;
        while i < self.client_addresses.len()
            invariant
                i <= self.client_addresses@.len(),
                forall|j: int| 0 <= j < i ==> #[trigger] self.client_addresses@[j].0 != recv_addr,
            decreases self.client_addresses@.len() - i,
        {
            let t = self.client_addresses[i];
            if t.0 == recv_addr {
                return Some(t.1);
            }
            i = i + 1;
        }
        None
    }
}

impl ServerState {
    /// The state a server starts in: all servers up, no loads reported, no
    /// clients, nothing pending.
    pub fn new() -> (r: ServerState)
        ensures
            r.wf(),
            r.flags@ == seq![true, true, true],
            r.cpu_load == ZERO_LOAD,
            r.cpu_loads@ == seq![ZERO_LOAD, ZERO_LOAD, ZERO_LOAD],
            r.server_addresses@[0]@ == "127.0.0.0:8080"@,
            r.server_addresses@[1]@ == "127.0.0.0:8081"@,
            r.server_addresses@[2]@ == "127.0.0.0:8082"@,
            r.clients@.len() == 0,
            r.pending@.len() == 0,
            r.client_addresses@.len() == 3,
            forall|i: int| 0 <= i < 3 ==> #[trigger] r.client_addresses@[i] == (
                SockAddr::v4_spec(0x7F00_0000, (8000 + i) as u16),
                SockAddr::v4_spec(0x7F00_0000, (9000 + i) as u16),
                SockAddr::v4_spec(0x7F00_0000, (6000 + i) as u16),
            ),
            !r.ack,
    {
        let mut flags: Vec<bool> = Vec::new();
        flags.push(true);
        flags.push(true);
        flags.push(true);
        let mut cpu_loads: Vec<u32> = Vec::new();
        cpu_loads.push(ZERO_LOAD);
        cpu_loads.push(ZERO_LOAD);
        cpu_loads.push(ZERO_LOAD);
        let mut server_addresses: Vec<String> = Vec::new();
        server_addresses.push("127.0.0.0:8080".to_owned());
        server_addresses.push("127.0.0.0:8081".to_owned());
        server_addresses.push("127.0.0.0:8082".to_owned());
        let mut client_addresses: Vec<(SockAddr, SockAddr, SockAddr)> = Vec::new();
        let mut i: u16 = 0;
        while i < 3
            invariant
                i <= 3,
                client_addresses@.len() == i,
                forall|k: int| 0 <= k < i ==> #[trigger] client_addresses@[k] == (
                    SockAddr::v4_spec(0x7F00_0000, (8000 + k) as u16),
                    SockAddr::v4_spec(0x7F00_0000, (9000 + k) as u16),
                    SockAddr::v4_spec(0x7F00_0000, (6000 + k) as u16),
                ),
            decreases 3 - i,
        {
            client_addresses.push((
                SockAddr::v4(0x7F00_0000, 8000 + i),
                SockAddr::v4(0x7F00_0000, 9000 + i),
                SockAddr::v4(0x7F00_0000, 6000 + i),
            ));
            i = i + 1;
        }
        let r = ServerState {
            flags,
            cpu_load: ZERO_LOAD,
            cpu_loads,
            server_addresses,
            clients: Vec::new(),
            pending: Vec::new(),
            client_addresses,
            ack: false,
        };
        assert(r.flags@ =~= seq![true, true, true]);
        assert(r.cpu_loads@ =~= seq![ZERO_LOAD, ZERO_LOAD, ZERO_LOAD]);
        r
    }
}

/// Reading a flag after setting it gives the value set; the other flags stay.
pub proof fn lemma_flag_read_after_write(flags: Seq<bool>, index: int, value: bool)
    requires
        0 <= index < flags.len(),
    ensures
        flags.update(index, value)[index] == value,
        forall|j: int| 0 <= j < flags.len() && j != index ==> #[trigger] flags.update(index, value)[j] == flags[j],
{
}

/// At most one server is the least loaded.
pub proof fn lemma_least_loaded_unique(loads: Seq<u32>, flags: Seq<bool>, i: int, j: int)
    requires
        is_least_loaded(loads, flags, i),
        is_least_loaded(loads, flags, j),
    ensures
        i == j,
{
    if i < j {
        assert(loads[j] < loads[i]);
    } else if j < i {
        assert(loads[i] < loads[j]);
    }
}

/// A server that is up and reports a load below that of every other
/// eligible server becomes the least loaded one.
pub proof fn lemma_lowest_report_wins(loads: Seq<u32>, flags: Seq<bool>, id: int, load: u32)
    requires
        0 <= id < loads.len(),
        id < flags.len(),
        flags[id],
        load != ZERO_LOAD,
        forall|j: int| j != id && load_eligible(loads, flags, j) ==> load < loads[j],
    ensures
        is_least_loaded(loads.update(id, load), flags, id),
{
    let l2 = loads.update(id, load);
    assert forall|j: int| load_eligible(l2, flags, j) implies l2[id] <= l2[j] by {
        if j != id {
            assert(load_eligible(loads, flags, j));
        }
    }
    assert forall|j: int| 0 <= j < id && load_eligible(l2, flags, j) implies l2[id] < l2[j] by {
        assert(load_eligible(loads, flags, j));
    }
}

/// Every address offered as a peer is in the client table.
proof fn lemma_peer_from_table(clients: Seq<ClientEntry>, sender: SockAddr, x: SockAddr)
    requires
        online_peers(clients, sender).contains(x),
    ensures
        exists|i: int| 0 <= i < clients.len() && #[trigger] clients[i].addr == x,
    decreases clients.len(),
{
    reveal(Seq::filter);
    let pred = |e: ClientEntry| e.online && e.addr != sender;
    let addr_of = |e: ClientEntry| e.addr;
    if clients.len() > 0 {
        let init = clients.drop_last();
        let f0 = init.filter(pred);
        let last = clients.last();
        if pred(last) {
            assert(clients.filter(pred) == f0.push(last));
            assert(f0.push(last).map_values(addr_of) =~= f0.map_values(addr_of).push(last.addr));
            if x == last.addr {
                assert(clients[clients.len() - 1].addr == x);
            } else {
                let j = choose|j: int| 0 <= j < online_peers(clients, sender).len() && online_peers(clients, sender)[j] == x;
                assert(online_peers(init, sender)[j] == x);
                lemma_peer_from_table(init, sender, x);
                let i = choose|i: int| 0 <= i < init.len() && #[trigger] init[i].addr == x;
                assert(clients[i].addr == x);
            }
        } else {
            assert(clients.filter(pred) == f0);
            lemma_peer_from_table(init, sender, x);
            let i = choose|i: int| 0 <= i < init.len() && #[trigger] init[i].addr == x;
            assert(clients[i].addr == x);
        }
    }
}

/// Queuing a change for a client and then taking that client's changes
/// hands out its earlier changes followed by the new one, and leaves the
/// other clients' changes as they were.
pub proof fn lemma_queued_change_delivered(s: Seq<PendingRequest>, req: PendingRequest)
    ensures
        pending_for(s.push(req), req.addr) == pending_for(s, req.addr).push(req),
        pending_not_for(s.push(req), req.addr) == pending_not_for(s, req.addr),
{
    reveal(Seq::filter);
    assert(s.push(req).drop_last() =~= s);
}

/// Taking a client's changes splits the queue: every change goes to exactly
/// one side, and nothing for that client is left behind.
pub proof fn lemma_pending_partition(s: Seq<PendingRequest>, addr: SockAddr)
    ensures
        pending_for(s, addr).len() + pending_not_for(s, addr).len() == s.len(),
        pending_for(pending_not_for(s, addr), addr).len() == 0,
    decreases s.len(),
{
    reveal(Seq::filter);
    if s.len() > 0 {
        lemma_pending_partition(s.drop_last(), addr);
        let rest = pending_not_for(s.drop_last(), addr);
        if s.last().addr != addr {
            lemma_queued_change_delivered(rest, s.last());
            assert(pending_for(rest.push(s.last()), addr) =~= pending_for(rest, addr)) by {
                assert(rest.push(s.last()).drop_last() =~= rest);
            }
        }
    }
}

/// A client that announced itself online is offered to every other client;
/// a deleted client is offered to nobody.
pub proof fn lemma_online_peers(clients: Seq<ClientEntry>, a: SockAddr, sender: SockAddr)
    ensures
        a != sender ==> online_peers(clients.push(ClientEntry { addr: a, online: true }), sender).contains(a),
        !online_peers(clients.filter(|e: ClientEntry| e.addr != a), sender).contains(a),
{
    let pred = |e: ClientEntry| e.online && e.addr != sender;
    let addr_of = |e: ClientEntry| e.addr;
    let e = ClientEntry { addr: a, online: true };
    if a != sender {
        reveal(Seq::filter);
        assert(clients.push(e).drop_last() =~= clients);
        let f = clients.push(e).filter(pred);
        assert(f == clients.filter(pred).push(e));
        assert(f.map_values(addr_of)[f.len() - 1] == a);
    }
    let not_a = |e: ClientEntry| e.addr != a;
    let kept = clients.filter(not_a);
    if online_peers(kept, sender).contains(a) {
        lemma_peer_from_table(kept, sender, a);
        let i = choose|i: int| 0 <= i < kept.len() && #[trigger] kept[i].addr == a;
        clients.lemma_filter_pred(not_a, i);
    }
}

/// A server that handles another server's shutdown notice marks the sender
/// down; one that handles its wakeup notice marks it up again. Its other
/// flags stay.
pub proof fn lemma_notices_mark_sender(flags: Seq<bool>, id: usize)
    requires
        id < flags.len(),
    ensures
        !flags_after(flags, "shutdown"@, id)[id as int],
        flags_after(flags, "wakeup"@, id)[id as int],
        forall|j: int| 0 <= j < flags.len() && j != id ==> #[trigger] flags_after(flags, "shutdown"@, id)[j] == flags[j],
        forall|j: int| 0 <= j < flags.len() && j != id ==> #[trigger] flags_after(flags, "wakeup"@, id)[j] == flags[j],
{
    reveal_strlit("shutdown");
    reveal_strlit("wakeup");
    assert("shutdown"@[0] != "wakeup"@[0]);
}

/// Only "shutdown" and "wakeup" notices touch the up-flags: handling any
/// other message, a load report among them, leaves every flag as it was.
pub proof fn lemma_only_notices_touch_flags(flags: Seq<bool>, content: Seq<char>, id: usize)
    requires
        content != "shutdown"@,
        content != "wakeup"@,
    ensures
        flags_after(flags, content, id) == flags,
{
}

/// Only "update_load" reports touch the loads: handling any other message
/// leaves every recorded load as it was.
pub proof fn lemma_only_reports_touch_loads(loads: Seq<u32>, content: Seq<char>, id: usize, load: u32)
    requires
        content != "update_load"@,
    ensures
        loads_after(loads, content, id, load) == loads,
{
}

/// A load report from a known server is recorded whatever was recorded
/// before, higher or lower; the other servers' loads stay. So of two reports
/// from one server the later one counts.
pub proof fn lemma_latest_report_counts(loads: Seq<u32>, id: usize, first: u32, second: u32)
    requires
        id < loads.len(),
    ensures
        loads_after(loads, "update_load"@, id, first)[id as int] == first,
        loads_after(loads, "update_load"@, id, first).len() == loads.len(),
        forall|j: int| 0 <= j < loads.len() && j != id ==> #[trigger] loads_after(loads, "update_load"@, id, first)[j] == loads[j],
        loads_after(loads_after(loads, "update_load"@, id, first), "update_load"@, id, second)
            == loads_after(loads, "update_load"@, id, second),
{
    reveal_strlit("update_load");
    reveal_strlit("shutdown");
    reveal_strlit("wakeup");
    assert("update_load"@.len() != "shutdown"@.len());
    assert("update_load"@.len() != "wakeup"@.len());
    assert(event_of("update_load"@) == ServerEvent::LoadUpdate);
    assert(loads.update(id as int, first).update(id as int, second) =~= loads.update(id as int, second));
}

/// Queued changes for other clients keep their queue order: a change queued
/// for another client lands at the end of what is left after taking `addr`'s
/// changes, one for `addr` itself lands at the end of what `addr` is handed,
/// and an empty queue splits into two empty ones. Together these fix both
/// sides of the split for every queue: each is the queue's own entries for
/// that side, in queue order.
pub proof fn lemma_split_keeps_queue_order(s: Seq<PendingRequest>, x: PendingRequest, addr: SockAddr)
    ensures
        pending_for(Seq::<PendingRequest>::empty(), addr) == Seq::<PendingRequest>::empty(),
        pending_not_for(Seq::<PendingRequest>::empty(), addr) == Seq::<PendingRequest>::empty(),
        x.addr != addr ==> pending_not_for(s.push(x), addr) == pending_not_for(s, addr).push(x),
        x.addr != addr ==> pending_for(s.push(x), addr) == pending_for(s, addr),
        x.addr == addr ==> pending_for(s.push(x), addr) == pending_for(s, addr).push(x),
        x.addr == addr ==> pending_not_for(s.push(x), addr) == pending_not_for(s, addr),
{
    reveal(Seq::filter);
    assert(s.push(x).drop_last() =~= s);
    assert(Seq::<PendingRequest>::empty().filter(|p: PendingRequest| p.addr == addr) =~= Seq::<PendingRequest>::empty());
    assert(Seq::<PendingRequest>::empty().filter(|p: PendingRequest| p.addr != addr) =~= Seq::<PendingRequest>::empty());
}

/// The address this server sends from, as it names itself in messages.
pub fn server_send_address() -> (r: String)
    ensures
        r@ == "127.0.0.0:8090"@,
{
    "127.0.0.0:8090".to_owned()
}

} // verus!
