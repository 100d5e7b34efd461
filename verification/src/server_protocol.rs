use vstd::prelude::*;
use crate::net::{SockAddr, text_is};
use crate::messages::ClientServerIp;
use crate::server::{ServerState, ClientEntry, PendingRequest, pending_for, pending_not_for, online_peers};
use crate::fragments::{FragmentAssembler, SLOT_COUNT};

verus! {

/// A message for a client.
pub enum Outgoing {
    /// Send `message` to `to`.
    Message { to: SockAddr, message: ClientServerIp },
    /// Send `message` to `to`, its `req_ip` set to the text of `peers`.
    PeerList { to: SockAddr, message: ClientServerIp, peers: Vec<SockAddr> },
}

/// What handling a client's request decided.
pub struct ClientRequestOutcome {
    /// The server now expects the client's image fragments.
    pub busy: bool,
    /// Where the client receives server traffic.
    pub reply_addr: SockAddr,
    /// Messages to send, in order.
    pub outgoing: Vec<Outgoing>,
    /// A request was parked: report whether an acknowledgement arrives in time.
    pub watch_ack: bool,
}

/// `m` is `orig` with purpose `purpose` and the given pending image and views.
pub open spec fn relabeled(m: ClientServerIp, orig: ClientServerIp, purpose: Seq<char>, name: String, views: usize) -> bool {
    &&& m.ip_rcv_clients == orig.ip_rcv_clients
    &&& m.ip_rcv_servers == orig.ip_rcv_servers
    &&& m.id == orig.id
    &&& m.purpose@ == purpose
    &&& m.req_ip@ == orig.req_ip@
    &&& m.req_id@ == orig.req_id@
    &&& m.pending_ip == orig.pending_ip
    &&& m.pending_views == views
    &&& m.pending_img_name == name
}

/// `o` sends a copy of `orig`, relabeled as given, to `to`.
pub open spec fn sends(o: Outgoing, to: SockAddr, orig: ClientServerIp, purpose: Seq<char>, name: String, views: usize) -> bool {
    &&& o matches Outgoing::Message { to: t, message: m }
    &&& t == to
    &&& relabeled(m, orig, purpose, name, views)
}

/// The client's request needs the address it receives client traffic on.
pub open spec fn needs_client_addr(purpose: Seq<char>) -> bool {
    purpose == "wakeup_client"@ || purpose == "request_for_IP"@
}

/// Whether a request with this purpose needs the client's address.
pub fn needs_client_addr_text(purpose: &String) -> (r: bool)
    ensures
        r == needs_client_addr(purpose@),
{
    text_is(purpose, "wakeup_client") || text_is(purpose, "request_for_IP")
}

/// The pending image named in the "finished" reply: that of the last
/// delivered change, or the request's own when none was pending.
pub open spec fn last_pending_name(p: Seq<PendingRequest>, orig: ClientServerIp) -> String {
    if p.len() > 0 { p.last().image_name } else { orig.pending_img_name }
}

/// The views named in the "finished" reply.
pub open spec fn last_pending_views(p: Seq<PendingRequest>, orig: ClientServerIp) -> usize {
    if p.len() > 0 { p.last().views } else { orig.pending_views }
}

impl ServerState {
    /// A client came back online: record it, hand it every change that waited
    /// for it, then tell it that nothing more is pending.
    fn welcome_client(&mut self, message: &ClientServerIp, client_addr: SockAddr, servers_addr: SockAddr) -> (r: Vec<Outgoing>)
        ensures
            final(self).clients@ == old(self).clients@.push(ClientEntry { addr: client_addr, online: true }),
            final(self).pending@ == pending_not_for(old(self).pending@, client_addr),
            final(self).flags == old(self).flags,
            final(self).cpu_load == old(self).cpu_load,
            final(self).cpu_loads == old(self).cpu_loads,
            final(self).server_addresses == old(self).server_addresses,
            final(self).client_addresses == old(self).client_addresses,
            final(self).ack == old(self).ack,
            ({
                let p = pending_for(old(self).pending@, client_addr);
                &&& r@.len() == p.len() + 1
                &&& forall|k: int| 0 <= k < p.len() ==> sends(#[trigger] r@[k], servers_addr, *message, "Pending req"@, p[k].image_name, p[k].views)
                &&& sends(r@[p.len() as int], servers_addr, *message, "finished"@, last_pending_name(p, *message), last_pending_views(p, *message))
            }),
    {
        self.add_client_entry(client_addr, true);
        let pend = self.search_and_remove_pending(client_addr);
        let ghost p = pend@;
        let mut out: Vec<Outgoing> = Vec::new();
        let mut name = message.pending_img_name.clone();
        let mut views = message.pending_views;
        let mut i: usize = 0;
        while i < pend.len()
            invariant
                p == pend@,
                i <= p.len(),
                out@.len() == i,
                forall|k: int| 0 <= k < i ==> sends(#[trigger] out@[k], servers_addr, *message, "Pending req"@, p[k].image_name, p[k].views),
                name == (if i > 0 { p[i - 1].image_name } else { message.pending_img_name }),
                views == (if i > 0 { p[i - 1].views } else { message.pending_views }),
            decreases p.len() - i,
        {
            name = pend[i].image_name.clone();
            views = pend[i].views;
            let mut m = message.duplicate();
            m.purpose = "Pending req".to_owned();
            m.pending_img_name = name.clone();
            m.pending_views = views;
            out.push(Outgoing::Message { to: servers_addr, message: m });
            i = i + 1;
        }
        let mut m = message.duplicate();
        m.purpose = "finished".to_owned();
        m.pending_img_name = name;
        m.pending_views = views;
        out.push(Outgoing::Message { to: servers_addr, message: m });
        out
    }

    /// Acts on a client's request. `client_addr` is where the client receives
    /// client traffic (needed for "wakeup_client" and "request_for_IP"),
    /// `servers_addr` where it receives server traffic.
    /// - "wakeup_client": the client is recorded as online; each change that
    ///   waited for it is sent as a "Pending req", then a "finished" reply.
    /// - "request_for_IP": the client gets the online clients other than itself.
    /// - "req_for_encrypt": the server becomes busy and answers "send_fragments".
    /// - "save_in_buffer": the change the message carries waits for its client.
    pub fn handle_client_connections(
        &mut self,
        message: &ClientServerIp,
        client_addr: Option<SockAddr>,
        servers_addr: SockAddr,
    ) -> (r: ClientRequestOutcome)
        requires
            needs_client_addr(message.purpose@) ==> client_addr is Some,
        ensures
            r.reply_addr == servers_addr,
            r.busy == (message.purpose@ == "req_for_encrypt"@),
            r.watch_ack == (message.purpose@ == "save_in_buffer"@),
            final(self).flags == old(self).flags,
            final(self).cpu_load == old(self).cpu_load,
            final(self).cpu_loads == old(self).cpu_loads,
            final(self).server_addresses == old(self).server_addresses,
            final(self).client_addresses == old(self).client_addresses,
            final(self).ack == old(self).ack,
            message.purpose@ == "wakeup_client"@ ==> {
                let ca = client_addr->Some_0;
                let p = pending_for(old(self).pending@, ca);
                &&& final(self).clients@ == old(self).clients@.push(ClientEntry { addr: ca, online: true })
                &&& final(self).pending@ == pending_not_for(old(self).pending@, ca)
                &&& r.outgoing@.len() == p.len() + 1
                &&& forall|k: int| 0 <= k < p.len() ==> sends(#[trigger] r.outgoing@[k], servers_addr, *message, "Pending req"@, p[k].image_name, p[k].views)
                &&& sends(r.outgoing@[p.len() as int], servers_addr, *message, "finished"@, last_pending_name(p, *message), last_pending_views(p, *message))
            },
            message.purpose@ != "wakeup_client"@ && message.purpose@ == "request_for_IP"@ ==> {
                &&& final(self).clients == old(self).clients
                &&& final(self).pending == old(self).pending
                &&& r.outgoing@.len() == 1
                &&& r.outgoing@[0] matches Outgoing::PeerList { to, message: m, peers }
                &&& to == servers_addr
                &&& m.same_as(message)
                &&& peers@ == online_peers(old(self).clients@, client_addr->Some_0)
            },
            message.purpose@ == "req_for_encrypt"@ ==> {
                &&& final(self).clients == old(self).clients
                &&& final(self).pending == old(self).pending
                &&& r.outgoing@.len() == 1
                &&& sends(r.outgoing@[0], servers_addr, *message, "send_fragments"@, message.pending_img_name, message.pending_views)
            },
            message.purpose@ == "save_in_buffer"@ ==> {
                &&& final(self).clients == old(self).clients
                &&& final(self).pending@ == old(self).pending@.push(PendingRequest {
                    image_name: message.pending_img_name,
                    addr: message.pending_ip,
                    views: message.pending_views,
                })
                &&& r.outgoing@.len() == 0
            },
            !needs_client_addr(message.purpose@) && message.purpose@ != "req_for_encrypt"@ && message.purpose@ != "save_in_buffer"@ ==> {
                &&& final(self).clients == old(self).clients
                &&& final(self).pending == old(self).pending
                &&& r.outgoing@.len() == 0
            },
    {
        proof {
            lemma_request_purposes_distinct();
        }
        if text_is(&message.purpose, "wakeup_client") {
            let ca = client_addr.unwrap();
            let outgoing = self.welcome_client(message, ca, servers_addr);
            ClientRequestOutcome { busy: false, reply_addr: servers_addr, outgoing, watch_ack: false }
        } else if text_is(&message.purpose, "request_for_IP") {
            let ca = client_addr.unwrap();
            let peers = self.get_clients_with_positive_flags(ca);
            let mut outgoing: Vec<Outgoing> = Vec::new();
            outgoing.push(Outgoing::PeerList { to: servers_addr, message: message.duplicate(), peers });
            ClientRequestOutcome { busy: false, reply_addr: servers_addr, outgoing, watch_ack: false }
        } else if text_is(&message.purpose, "req_for_encrypt") {
            let mut m = message.duplicate();
            m.purpose = "send_fragments".to_owned();
            let mut outgoing: Vec<Outgoing> = Vec::new();
            outgoing.push(Outgoing::Message { to: servers_addr, message: m });
            ClientRequestOutcome { busy: true, reply_addr: servers_addr, outgoing, watch_ack: false }
        } else if text_is(&message.purpose, "save_in_buffer") {
            self.add_to_pending(message.pending_img_name.clone(), message.pending_ip, message.pending_views);
            ClientRequestOutcome { busy: false, reply_addr: servers_addr, outgoing: Vec::new(), watch_ack: true }
        } else {
            ClientRequestOutcome { busy: false, reply_addr: servers_addr, outgoing: Vec::new(), watch_ack: false }
        }
    }
}

/// The request purposes a server acts on are four different texts.
proof fn lemma_request_purposes_distinct()
    ensures
        "wakeup_client"@ != "request_for_IP"@,
        "wakeup_client"@ != "req_for_encrypt"@,
        "wakeup_client"@ != "save_in_buffer"@,
        "request_for_IP"@ != "req_for_encrypt"@,
        "request_for_IP"@ != "save_in_buffer"@,
        "req_for_encrypt"@ != "save_in_buffer"@,
{
    reveal_strlit("wakeup_client");
    reveal_strlit("request_for_IP");
    reveal_strlit("req_for_encrypt");
    reveal_strlit("save_in_buffer");
    assert("wakeup_client"@[0] != "request_for_IP"@[0]);
    assert("wakeup_client"@[0] != "req_for_encrypt"@[0]);
    assert("wakeup_client"@[0] != "save_in_buffer"@[0]);
    assert("request_for_IP"@[3] != "req_for_encrypt"@[3]);
    assert("request_for_IP"@[0] != "save_in_buffer"@[0]);
    assert("req_for_encrypt"@[0] != "save_in_buffer"@[0]);
}

/// Ports other servers send from.
pub open spec fn is_server_port_spec(port: u16) -> bool {
    port == 8090 || port == 8091 || port == 8092
}

/// Whether a datagram from `port` comes from another server.
pub fn is_server_port(port: u16) -> (r: bool)
    ensures
        r == is_server_port_spec(port),
{
    port == 8090 || port == 8091 || port == 8092
}

/// The datagrams routed to the server handler are exactly those sent from
/// the three cluster servers' send ports, 8090, 8091 and 8092: each of these
/// is a server port, and no port below or above them is.
pub proof fn lemma_cluster_send_ports(port: u16)
    ensures
        is_server_port_spec(8090),
        is_server_port_spec(8091),
        is_server_port_spec(8092),
        (port < 8090 || port > 8092) ==> !is_server_port_spec(port),
{
}

/// Where an incoming datagram goes.
#[derive(Clone, Copy, PartialEq, Eq, Structural, Debug)]
pub enum Route {
    /// A message from another server.
    Server,
    /// A request from a client.
    Client,
    /// A fragment of the image the server is waiting for.
    Fragment,
}

/// A server's listening loop: whether it is waiting for a client's image,
/// which client that is, and the fragments received so far.
pub struct ServerSession {
    pub busy: bool,
    pub client_addr: SockAddr,
    pub assembler: FragmentAssembler,
}

impl ServerSession {
    /// The assembler is consistent and has room for the next fragment.
    pub open spec fn wf(&self) -> bool {
        self.assembler.wf() && self.assembler.count < SLOT_COUNT
    }

    /// A session waiting for requests.
    pub fn new() -> (r: ServerSession)
        ensures
            r.wf(),
            !r.busy,
            r.client_addr == SockAddr::v4_spec(0, 5000),
            r.assembler.received().len() == 0,
    {
        ServerSession { busy: false, client_addr: SockAddr::v4(0, 5000), assembler: FragmentAssembler::new() }
    }

    /// Where a datagram from `port` goes: server ports to the server handler;
    /// otherwise a request while idle, a fragment while busy.
    pub fn route(&self, port: u16) -> (r: Route)
        ensures
            r == (if is_server_port_spec(port) {
                Route::Server
            } else if !self.busy {
                Route::Client
            } else {
                Route::Fragment
            }),
    {
        if is_server_port(port) {
            Route::Server
        } else if !self.busy {
            Route::Client
        } else {
            Route::Fragment
        }
    }

    /// Takes in what handling a client's request decided.
    pub fn client_handled(&mut self, busy: bool, client_addr: SockAddr)
        ensures
            old(self).wf() ==> final(self).wf(),
            final(self).busy == busy,
            final(self).client_addr == client_addr,
            final(self).assembler == old(self).assembler,
    {
        self.busy = busy;
        self.client_addr = client_addr;
    }

    /// Stores a fragment of the awaited image. Once all `SLOT_COUNT` have
    /// arrived they are handed out, in arrival order, with the client they
    /// came from, and the session waits for requests again.
    pub fn push_fragment(&mut self, data: &[u8]) -> (r: Option<(Vec<Vec<u8>>, SockAddr)>)
        requires
            old(self).wf(),
        ensures
            final(self).wf(),
            final(self).client_addr == old(self).client_addr,
            old(self).assembler.count + 1 < SLOT_COUNT ==> {
                &&& r is None
                &&& final(self).busy == old(self).busy
                &&& final(self).assembler.received() == old(self).assembler.received().push(data@)
            },
            old(self).assembler.count + 1 == SLOT_COUNT ==> {
                &&& r matches Some(t)
                &&& t.0@.map_values(|v: Vec<u8>| v@) == old(self).assembler.received().push(data@)
                &&& t.1 == old(self).client_addr
                &&& !final(self).busy
                &&& final(self).assembler.received().len() == 0
            },
    {
        self.assembler.store(data);
        if self.assembler.is_full() {
            let ghost got = self.assembler.received();
            let frags = self.assembler.take_all();
            assert(frags@.take(SLOT_COUNT as int) =~= frags@);
            self.busy = false;
            Some((frags, self.client_addr))
        } else {
            None
        }
    }
}

} // verus!
