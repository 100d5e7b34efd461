use vstd::prelude::*;
use crate::net::SockAddr;

verus! {

/// A message between a client and a server. `purpose` names the request or
/// reply; `req_ip` carries peer addresses, the `pending_*` fields a view
/// change waiting for an offline client.
pub struct ClientServerIp {
    pub ip_rcv_clients: String,
    pub ip_rcv_servers: String,
    pub id: usize,
    pub purpose: String,
    pub req_ip: Vec<String>,
    pub req_id: Vec<String>,
    pub pending_ip: SockAddr,
    pub pending_views: usize,
    pub pending_img_name: String,
}

/// A message from a client to the servers (status report).
pub struct ClientMessage {
    pub ip: String,
    pub id: usize,
    pub purpose: String,
    pub req_ip: String,
    pub req_id: usize,
    pub status: bool,
}

/// A message between two clients. `purpose` names it; the catalogue
/// fields list offered images, `views` a view allowance.
pub struct ClientClient {
    pub ip_sender: SockAddr,
    pub ip_reciever: SockAddr,
    pub img_id: usize,
    pub img_name: String,
    pub purpose: String,
    pub size: usize,
    pub imgs_height: Vec<u32>,
    pub imgs_width: Vec<u32>,
    pub imgs_size: Vec<u32>,
    pub imgs_names: Vec<String>,
    pub views: usize,
}

/// Index of this client.
pub const CLIENT_ID: usize = 0;

/// A copy of a list of strings.
pub fn copy_strings(v: &Vec<String>) -> (r: Vec<String>)
    ensures
        r@ == v@,
{
    let mut r: Vec<String> = Vec::new();
    let mut i: usize = 0;
    while i < v.len()
        invariant
            i <= v@.len(),
            r@ == v@.subrange(0, i as int),
        decreases v@.len() - i,
    {
        r.push(v[i].clone());
        i = i + 1;
        assert(r@ =~= v@.subrange(0, i as int));
    }
    assert(r@ =~= v@);
    r
}

impl ClientServerIp {
    /// The two messages carry the same content.
    pub open spec fn same_as(&self, other: &ClientServerIp) -> bool {
        &&& self.ip_rcv_clients == other.ip_rcv_clients
        &&& self.ip_rcv_servers == other.ip_rcv_servers
        &&& self.id == other.id
        &&& self.purpose == other.purpose
        &&& self.req_ip@ == other.req_ip@
        &&& self.req_id@ == other.req_id@
        &&& self.pending_ip == other.pending_ip
        &&& self.pending_views == other.pending_views
        &&& self.pending_img_name == other.pending_img_name
    }

    /// A copy of this message.
    pub fn duplicate(&self) -> (r: ClientServerIp)
        ensures
            r.same_as(self),
    {
        ClientServerIp {
            ip_rcv_clients: self.ip_rcv_clients.clone(),
            ip_rcv_servers: self.ip_rcv_servers.clone(),
            id: self.id,
            purpose: self.purpose.clone(),
            req_ip: copy_strings(&self.req_ip),
            req_id: copy_strings(&self.req_id),
            pending_ip: self.pending_ip,
            pending_views: self.pending_views,
            pending_img_name: self.pending_img_name.clone(),
        }
    }

    /// A request from this client with the given purpose, naming where it
    /// receives client and server traffic; no peers and nothing pending.
    pub fn request(ip_rcv_clients: String, ip_rcv_servers: String, purpose: &str) -> (r: ClientServerIp)
        ensures
            r.ip_rcv_clients == ip_rcv_clients,
            r.ip_rcv_servers == ip_rcv_servers,
            r.id == CLIENT_ID,
            r.purpose@ == purpose@,
            r.req_ip@.len() == 0,
            r.req_id@.len() == 0,
            r.pending_ip == SockAddr::v4_spec(0, 0),
            r.pending_views == 0,
            r.pending_img_name@ == ""@,
    {
        ClientServerIp {
            ip_rcv_clients,
            ip_rcv_servers,
            id: CLIENT_ID,
            purpose: purpose.to_owned(),
            req_ip: Vec::new(),
            req_id: Vec::new(),
            pending_ip: SockAddr::unspecified(),
            pending_views: 0,
            pending_img_name: "".to_owned(),
        }
    }

    /// Asks the servers to hold a view change for the offline client `pend_ip`.
    pub fn save_in_buffer(
        ip_rcv_clients: String,
        ip_rcv_servers: String,
        pend_ip: SockAddr,
        img_name: String,
        views: usize,
    ) -> (r: ClientServerIp)
        ensures
            r.ip_rcv_clients == ip_rcv_clients,
            r.ip_rcv_servers == ip_rcv_servers,
            r.id == CLIENT_ID,
            r.purpose@ == "save_in_buffer"@,
            r.req_ip@.len() == 0,
            r.req_id@.len() == 0,
            r.pending_ip == pend_ip,
            r.pending_views == views,
            r.pending_img_name == img_name,
    {
        ClientServerIp {
            ip_rcv_clients,
            ip_rcv_servers,
            id: CLIENT_ID,
            purpose: "save_in_buffer".to_owned(),
            req_ip: Vec::new(),
            req_id: Vec::new(),
            pending_ip: pend_ip,
            pending_views: views,
            pending_img_name: img_name,
        }
    }

    /// What a client takes as the reply when no server answered.
    pub fn no_reply() -> (r: ClientServerIp)
        ensures
            r.ip_rcv_clients@ == "0"@,
            r.ip_rcv_servers@ == "0"@,
            r.id == CLIENT_ID,
            r.purpose@ == "request_for_IP"@,
            r.req_ip@.len() == 0,
            r.req_id@.len() == 0,
            r.pending_ip == SockAddr::v4_spec(0, 0),
            r.pending_views == 0,
            r.pending_img_name@ == ""@,
    {
        Self::request("0".to_owned(), "0".to_owned(), "request_for_IP")
    }
}

impl ClientMessage {
    /// What a client takes as the reply when no server answered.
    pub fn no_reply() -> (r: ClientMessage)
        ensures
            r.ip@ == "0"@,
            r.id == CLIENT_ID,
            r.purpose@ == "request_for_IP"@,
            r.req_ip@ == "0"@,
            r.req_id == 0,
            !r.status,
    {
        ClientMessage {
            ip: "0".to_owned(),
            id: CLIENT_ID,
            purpose: "request_for_IP".to_owned(),
            req_ip: "0".to_owned(),
            req_id: 0,
            status: false,
        }
    }
}

impl ClientClient {
    /// A message from `sender` to `receiver` with the given purpose, image
    /// name, image id and views; no catalogue.
    pub fn to_peer(sender: SockAddr, receiver: SockAddr, img_id: usize, img_name: String, purpose: &str, views: usize) -> (r: ClientClient)
        ensures
            r.ip_sender == sender,
            r.ip_reciever == receiver,
            r.img_id == img_id,
            r.img_name == img_name,
            r.purpose@ == purpose@,
            r.size == 0,
            r.imgs_height@.len() == 0,
            r.imgs_width@.len() == 0,
            r.imgs_size@.len() == 0,
            r.imgs_names@.len() == 0,
            r.views == views,
    {
        ClientClient {
            ip_sender: sender,
            ip_reciever: receiver,
            img_id,
            img_name,
            purpose: purpose.to_owned(),
            size: 0,
            imgs_height: Vec::new(),
            imgs_width: Vec::new(),
            imgs_size: Vec::new(),
            imgs_names: Vec::new(),
            views,
        }
    }

    /// A blank message from `sender` to `receiver`: no purpose, no image.
    pub fn client_msg_to_client(sender: SockAddr, receiver: SockAddr) -> (r: ClientClient)
        ensures
            r.ip_sender == sender,
            r.ip_reciever == receiver,
            r.img_id == 0,
            r.img_name@ == ""@,
            r.purpose@ == ""@,
            r.size == 0,
            r.imgs_height@.len() == 0,
            r.imgs_width@.len() == 0,
            r.imgs_size@.len() == 0,
            r.imgs_names@.len() == 0,
            r.views == 0,
    {
        Self::to_peer(sender, receiver, 0, "".to_owned(), "", 0)
    }

    /// The catalogue offered to `receiver`: the names of the images this
    /// client shares.
    pub fn approved(sender: SockAddr, receiver: SockAddr, names: Vec<String>) -> (r: ClientClient)
        ensures
            r.ip_sender == sender,
            r.ip_reciever == receiver,
            r.img_id == 0,
            r.img_name@ == ""@,
            r.purpose@ == "approved"@,
            r.size == names@.len(),
            r.imgs_height@.len() == 0,
            r.imgs_width@.len() == 0,
            r.imgs_size@.len() == 0,
            r.imgs_names == names,
            r.views == 0,
    {
        let size = names.len();
        let mut m = Self::client_msg_to_client(sender, receiver);
        m.purpose = "approved".to_owned();
        m.size = size;
        m.imgs_names = names;
        m
    }
}

} // verus!
