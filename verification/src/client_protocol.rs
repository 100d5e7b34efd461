use vstd::prelude::*;
use crate::net::{SockAddr, text_is};
use crate::messages::{ClientServerIp, ClientClient, CLIENT_ID, copy_strings};
use crate::client::{ClientState, ReceivedImage, first_named, none_named};
use crate::fragments::{FragmentAssembler, SLOT_COUNT};
use crate::codec::{receive_views, le_u64};

verus! {

/// How many views the owner of an image grants with each copy it sends.
pub const VIEW_ALLOWANCE: usize = 3;

/// How many times a request to the servers is tried before giving up.
pub const MAX_RETRIES: usize = 3;

/// The retry count after one more failed attempt, or `None` when the
/// attempts are used up.
pub fn next_retry(retries: usize) -> (r: Option<usize>)
    requires
        retries < MAX_RETRIES,
    ensures
        r == (if retries + 1 >= MAX_RETRIES { None::<usize> } else { Some((retries + 1) as usize) }),
{
    let n = retries + 1;
    if n >= MAX_RETRIES {
        None
    } else {
        Some(n)
    }
}

/// Whether a reply is the placeholder taken when no server answered.
pub fn is_no_reply(reply: &ClientServerIp) -> (r: bool)
    ensures
        r == (reply.ip_rcv_clients@ == "0"@),
{
    text_is(&reply.ip_rcv_clients, "0")
}

/// Whether the server agreed to encrypt an image.
pub fn is_send_fragments(reply: &ClientServerIp) -> (r: bool)
    ensures
        r == (reply.purpose@ == "send_fragments"@),
{
    text_is(&reply.purpose, "send_fragments")
}

impl ClientState {
    /// The request for the addresses of the clients that are online.
    pub fn request_for_ip_message(&self) -> (r: ClientServerIp)
        ensures
            r.ip_rcv_clients == self.rcv_client_text,
            r.ip_rcv_servers == self.rcv_server_text,
            r.id == CLIENT_ID,
            r.purpose@ == "request_for_IP"@,
            r.req_ip@.len() == 0,
            r.req_id@.len() == 0,
            r.pending_ip == SockAddr::v4_spec(0, 0),
            r.pending_views == 0,
            r.pending_img_name@ == ""@,
    {
        ClientServerIp::request(self.rcv_client_text.clone(), self.rcv_server_text.clone(), "request_for_IP")
    }

    /// Goes online and builds the "wakeup_client" announcement for the servers.
    pub fn notify_server_wakeup(&mut self) -> (r: ClientServerIp)
        ensures
            *final(self) == (ClientState { status: true, ..*old(self) }),
            r.ip_rcv_clients == old(self).rcv_client_text,
            r.ip_rcv_servers == old(self).rcv_server_text,
            r.id == CLIENT_ID,
            r.purpose@ == "wakeup_client"@,
            r.req_ip@.len() == 0,
            r.req_id@.len() == 0,
            r.pending_ip == SockAddr::v4_spec(0, 0),
            r.pending_views == 0,
            r.pending_img_name@ == ""@,
    {
        self.set_status(true);
        ClientServerIp::request(self.rcv_client_text.clone(), self.rcv_server_text.clone(), "wakeup_client")
    }

    /// The request asking a server to encrypt an image for this client.
    pub fn encrypt_request_message(&self) -> (r: ClientServerIp)
        ensures
            r.ip_rcv_clients == self.rcv_client_text,
            r.ip_rcv_servers == self.rcv_server_text,
            r.id == CLIENT_ID,
            r.purpose@ == "req_for_encrypt"@,
            r.req_ip@.len() == 0,
            r.req_id@.len() == 0,
            r.pending_ip == SockAddr::v4_spec(0, 0),
            r.pending_views == 0,
            r.pending_img_name@ == ""@,
    {
        ClientServerIp::request(self.rcv_client_text.clone(), self.rcv_server_text.clone(), "req_for_encrypt")
    }

    /// Asks the servers to hold a view change for an offline peer.
    pub fn send_server_to_buffer(&self, pend_ip: SockAddr, img_name: String, views: usize) -> (r: ClientServerIp)
        ensures
            r.ip_rcv_clients == self.rcv_client_text,
            r.ip_rcv_servers == self.rcv_server_text,
            r.id == CLIENT_ID,
            r.purpose@ == "save_in_buffer"@,
            r.req_ip@.len() == 0,
            r.req_id@.len() == 0,
            r.pending_ip == pend_ip,
            r.pending_views == views,
            r.pending_img_name == img_name,
    {
        ClientServerIp::save_in_buffer(self.rcv_client_text.clone(), self.rcv_server_text.clone(), pend_ip, img_name, views)
    }

    /// When the peer did not acknowledge the last view change, the request
    /// that parks it at the servers; `None` when it was acknowledged.
    pub fn ack_timeout_request(&self) -> (r: Option<ClientServerIp>)
        requires
            !self.ack ==> self.pending_ip is Some && self.img_name is Some && self.views is Some,
        ensures
            r is None <==> self.ack,
            r matches Some(m) ==> {
                &&& m.ip_rcv_clients == self.rcv_client_text
                &&& m.ip_rcv_servers == self.rcv_server_text
                &&& m.purpose@ == "save_in_buffer"@
                &&& m.pending_ip == self.pending_ip->Some_0
                &&& m.pending_img_name == self.img_name->Some_0
                &&& m.pending_views == self.views->Some_0
            },
    {
        if self.get_ack() {
            None
        } else {
            let ip = self.get_pending_ip().unwrap();
            let image = self.get_img_name().unwrap();
            let views = self.get_views().unwrap();
            Some(self.send_server_to_buffer(ip, image, views))
        }
    }

    /// Asks the peer at `send_addr` for its catalogue.
    pub fn send_req_for_img(&self, send_addr: SockAddr) -> (r: ClientClient)
        ensures
            r.ip_sender == self.rcv_client,
            r.ip_reciever == send_addr,
            r.img_id == CLIENT_ID,
            r.img_name@ == ""@,
            r.purpose@ == "req_for_imgs"@,
            r.size == 0,
            r.imgs_height@.len() == 0,
            r.imgs_width@.len() == 0,
            r.imgs_size@.len() == 0,
            r.imgs_names@.len() == 0,
            r.views == 0,
    {
        ClientClient::to_peer(self.rcv_client, send_addr, CLIENT_ID, "".to_owned(), "req_for_imgs", 0)
    }

    /// Asks the peer at `send_addr` for the image called `path`.
    pub fn send_req_for_choosen_img(&self, path: String, send_addr: SockAddr) -> (r: ClientClient)
        ensures
            r.ip_sender == self.rcv_client,
            r.ip_reciever == send_addr,
            r.img_id == CLIENT_ID,
            r.img_name == path,
            r.purpose@ == "req_for_choosen_img"@,
            r.size == 0,
            r.imgs_height@.len() == 0,
            r.imgs_width@.len() == 0,
            r.imgs_size@.len() == 0,
            r.imgs_names@.len() == 0,
            r.views == 0,
    {
        ClientClient::to_peer(self.rcv_client, send_addr, CLIENT_ID, path, "req_for_choosen_img", 0)
    }

    /// The catalogue of this client's shared images for `receiver`.
    pub fn send_all_images_low_quality(&self, receiver: SockAddr, names: &Vec<String>) -> (r: ClientClient)
        ensures
            r.ip_sender == self.rcv_client,
            r.ip_reciever == receiver,
            r.img_id == 0,
            r.img_name@ == ""@,
            r.purpose@ == "approved"@,
            r.size == names@.len(),
            r.imgs_height@.len() == 0,
            r.imgs_width@.len() == 0,
            r.imgs_size@.len() == 0,
            r.imgs_names@ == names@,
            r.views == 0,
    {
        ClientClient::approved(self.rcv_client, receiver, copy_strings(names))
    }

    /// Asks the peer at `send_addr` for an image (an open request, no name).
    pub fn send_to_client(&self, send_addr: SockAddr) -> (r: ClientClient)
        ensures
            r.ip_sender == self.rcv_client,
            r.ip_reciever == send_addr,
            r.img_id == 0,
            r.purpose@ == "request for image"@,
            r.img_name@ == ""@,
            r.size == 0,
            r.imgs_height@.len() == 0,
            r.imgs_width@.len() == 0,
            r.imgs_size@.len() == 0,
            r.imgs_names@.len() == 0,
            r.views == 0,
    {
        let mut m = ClientClient::client_msg_to_client(self.rcv_client, send_addr);
        m.purpose = "request for image".to_owned();
        m
    }

    /// Acknowledges a view change to `send_addr`.
    pub fn send_ack_client(&self, send_addr: SockAddr) -> (r: ClientClient)
        ensures
            r.ip_sender == self.rcv_client,
            r.ip_reciever == send_addr,
            r.img_id == 0,
            r.purpose@ == "ACK"@,
            r.img_name@ == ""@,
            r.size == 0,
            r.imgs_height@.len() == 0,
            r.imgs_width@.len() == 0,
            r.imgs_size@.len() == 0,
            r.imgs_names@.len() == 0,
            r.views == 0,
    {
        let mut m = ClientClient::client_msg_to_client(self.rcv_client, send_addr);
        m.purpose = "ACK".to_owned();
        m
    }

    /// Tells the peer at `send_addr` that `image_name` now has `views` views,
    /// and remembers the change until it is acknowledged.
    pub fn send_modify_views_for_client(&mut self, image_name: String, send_addr: SockAddr, views: usize) -> (r: ClientClient)
        ensures
            r.ip_sender == old(self).rcv_client,
            r.ip_reciever == send_addr,
            r.img_id == 0,
            r.img_name == image_name,
            r.purpose@ == "modify_views"@,
            r.size == 0,
            r.imgs_height@.len() == 0,
            r.imgs_width@.len() == 0,
            r.imgs_size@.len() == 0,
            r.imgs_names@.len() == 0,
            r.views == views,
            *final(self) == (ClientState {
                pending_ip: Some(send_addr),
                img_name: Some(image_name),
                views: Some(views),
                ..*old(self)
            }),
    {
        let mut m = ClientClient::client_msg_to_client(self.rcv_client, send_addr);
        m.img_name = image_name.clone();
        m.purpose = "modify_views".to_owned();
        m.views = views;
        self.change_pending(send_addr, image_name, views);
        m
    }

    /// Acts on a server reply while coming back online: "Pending req" sets
    /// the views of the image it names; returns whether the reply was
    /// "finished" (nothing more pending).
    pub fn listen_for_pending_step(&mut self, message: &ClientServerIp) -> (r: bool)
        ensures
            r == (message.purpose@ == "finished"@),
            *final(self) == (ClientState { rcv_imgs: final(self).rcv_imgs, ..*old(self) }),
            (r || message.purpose@ != "Pending req"@) ==> final(self).rcv_imgs@ == old(self).rcv_imgs@,
            !r && message.purpose@ == "Pending req"@ ==> {
                &&& none_named(old(self).rcv_imgs@, message.pending_img_name@) ==> final(self).rcv_imgs@ == old(self).rcv_imgs@
                &&& forall|i: int| first_named(old(self).rcv_imgs@, message.pending_img_name@, i) ==> final(self).rcv_imgs@
                    == old(self).rcv_imgs@.update(i, ReceivedImage { name: old(self).rcv_imgs@[i].name, views: message.pending_views })
            },
    {
        if text_is(&message.purpose, "finished") {
            true
        } else {
            if text_is(&message.purpose, "Pending req") {
                self.change_views_for_rcv_image(&message.pending_img_name, message.pending_views);
            }
            false
        }
    }

    /// Uses one view of the received image at `index`: the image is shown,
    /// and forgotten when that was its last view. Returns its name and
    /// whether it was the last view; `None` for an index past the list.
    pub fn use_one_view(&mut self, index: usize) -> (r: Option<(String, bool)>)
        requires
            index < old(self).rcv_imgs@.len() ==> forall|i: int|
                first_named(old(self).rcv_imgs@, old(self).rcv_imgs@[index as int].name@, i) ==> #[trigger] old(self).rcv_imgs@[i].views > 0,
        ensures
            *final(self) == (ClientState { rcv_imgs: final(self).rcv_imgs, ..*old(self) }),
            index >= old(self).rcv_imgs@.len() ==> r is None && final(self).rcv_imgs@ == old(self).rcv_imgs@,
            index < old(self).rcv_imgs@.len() ==> {
                let s = old(self).rcv_imgs@;
                let name = s[index as int].name;
                exists|i: int| {
                    &&& #[trigger] first_named(s, name@, i)
                    &&& r == Some((name, s[i].views == 1))
                    &&& s[i].views == 1 ==> final(self).rcv_imgs@ == s.filter(|e: ReceivedImage| e.name@ != name@)
                    &&& s[i].views != 1 ==> final(self).rcv_imgs@ == s.update(
                        i,
                        ReceivedImage { name: s[i].name, views: (s[i].views - 1) as usize },
                    )
                }
            },
    {
        let ghost s = self.rcv_imgs@;
        match self.get_image_name_by_index(index) {
            None => None,
            Some(name) => {
                proof {
                    assert(!none_named(s, name@)) by {
                        assert(s[index as int].name@ == name@);
                    }
                }
                let views = self.get_views_for_rcv_image(&name).unwrap();
                let ghost i = choose|i: int| first_named(s, name@, i) && s[i].views == views;
                let v = views - 1;
                if v == 0 {
                    self.remove_image_by_name(&name);
                    Some((name, true))
                } else {
                    self.change_views_for_rcv_image(&name, v);
                    Some((name, false))
                }
            },
        }
    }
}

/// What a message from another client asks this client to do.
pub enum PeerAction {
    /// Nothing to send.
    Nothing,
    /// Send the catalogue of shared images, with their previews, to `to`.
    SendCatalog { to: SockAddr },
    /// Have the image called `image_name` encrypted and send it to `to`.
    SendChosen { image_name: String, to: SockAddr },
    /// The image called `image_name` has no views left: delete its file.
    DeleteImage { image_name: String },
    /// Acknowledge a view change to `to`.
    SendAck { to: SockAddr },
}

/// A client's listening loop: whether it waits for image datagrams, the
/// catalogue it was offered (how many previews, their names, who offers
/// them), how many previews it has shown, which image it chose, and the
/// datagrams of the image in transit.
pub struct ClientSession {
    pub wait_img: bool,
    pub img_count: usize,
    pub imgs_names: Vec<String>,
    pub sender_addr: SockAddr,
    pub wait_ack: bool,
    pub shown: usize,
    pub choosen_img: String,
    pub received_num: usize,
    pub assembler: FragmentAssembler,
}

/// Where a datagram that reached the client's listening loop goes.
pub enum Delivery {
    /// The client is offline: the datagram is ignored.
    Dropped,
    /// A message from a peer.
    Peer,
    /// A datagram of the image (or preview) being received.
    Image,
}

/// What an image datagram completed.
pub enum ImageStep {
    /// The datagram was stored.
    Stored,
    /// All datagrams of a preview arrived (show it); `ask_choice` when it
    /// was the last preview and the user now picks an image.
    Preview { fragments: Vec<Vec<u8>>, ask_choice: bool },
    /// The chosen image arrived with its view allowance.
    Received { fragments: Vec<Vec<u8>>, name: String, views: usize },
    /// The datagram after the image held no view allowance.
    BadViews,
}

impl ClientSession {
    /// Where a datagram received now goes: nowhere while the client is
    /// offline; to the image in transit while one is awaited; otherwise it is
    /// a peer's message.
    pub fn route(&self, state: &ClientState) -> (r: Delivery)
        ensures
            !state.status ==> r is Dropped,
            state.status && self.wait_img ==> r is Image,
            state.status && !self.wait_img ==> r is Peer,
    {
        if !state.get_status() {
            Delivery::Dropped
        } else if self.wait_img {
            Delivery::Image
        } else {
            Delivery::Peer
        }
    }

    /// The assembler is consistent; while no image is awaited nothing is
    /// collected and no preview counted; while previews remain, a preview's
    /// datagrams are still being collected.
    pub open spec fn wf(&self) -> bool {
        &&& self.assembler.wf()
        &&& !self.wait_img ==> self.assembler.count == 0 && self.shown == 0
        &&& self.shown < self.img_count ==> self.assembler.count < SLOT_COUNT
    }

    /// A session waiting for messages from other clients.
    pub fn new() -> (r: ClientSession)
        ensures
            r.wf(),
            !r.wait_img,
            r.img_count == 0,
            r.imgs_names@.len() == 1,
            r.imgs_names@[0]@ == ""@,
            r.sender_addr == SockAddr::v4_spec(0, 0),
            !r.wait_ack,
            r.shown == 0,
            r.choosen_img@ == ""@,
            r.received_num == 0,
            r.assembler.wf(),
            r.assembler.count == 0,
    {
        let mut names: Vec<String> = Vec::new();
        names.push("".to_owned());
        ClientSession {
            wait_img: false,
            img_count: 0,
            imgs_names: names,
            sender_addr: SockAddr::unspecified(),
            wait_ack: false,
            shown: 0,
            choosen_img: "".to_owned(),
            received_num: 0,
            assembler: FragmentAssembler::new(),
        }
    }

    /// Acts on a message from another client:
    /// - "req_for_imgs": send the catalogue to the sender;
    /// - "approved": wait for the offered previews (`size` of them, named
    ///   `imgs_names`) from the sender;
    /// - "req_for_choosen_img": record the image as given to the sender and
    ///   send it;
    /// - "modify_views": zero views forgets the image (and its file); other
    ///   counts set its views and are acknowledged;
    /// - "ACK": note the acknowledgement.
    /// Except after "approved", the session goes back to waiting for
    /// messages with an empty catalogue.
    pub fn handle_client_connections(&mut self, state: &mut ClientState, message: ClientClient) -> (r: PeerAction)
        requires
            old(self).wf(),
            !old(self).wait_img,
        ensures
            final(self).wf(),
            final(self).shown == old(self).shown,
            final(self).choosen_img == old(self).choosen_img,
            final(self).received_num == old(self).received_num,
            final(self).assembler == old(self).assembler,
            !final(self).wait_ack,
            message.purpose@ == "approved"@ ==> {
                &&& final(self).wait_img
                &&& final(self).img_count == message.size
                &&& final(self).imgs_names == message.imgs_names
                &&& final(self).sender_addr == message.ip_sender
            },
            message.purpose@ != "approved"@ ==> {
                &&& !final(self).wait_img
                &&& final(self).img_count == 0
                &&& final(self).imgs_names@.len() == 1
                &&& final(self).imgs_names@[0]@ == ""@
                &&& final(self).sender_addr == SockAddr::v4_spec(0, 0)
            },
            message.purpose@ == "req_for_imgs"@ ==> {
                &&& r matches PeerAction::SendCatalog { to }
                &&& to == message.ip_sender
                &&& *final(state) == *old(state)
            },
            message.purpose@ != "req_for_imgs"@ && message.purpose@ == "approved"@ ==> {
                &&& r is Nothing
                &&& *final(state) == *old(state)
            },
            message.purpose@ != "req_for_imgs"@ && message.purpose@ != "approved"@ && message.purpose@ == "req_for_choosen_img"@ ==> {
                &&& r matches PeerAction::SendChosen { image_name, to }
                &&& image_name == message.img_name
                &&& to == message.ip_sender
                &&& final(state).snd_imgs@ == old(state).snd_imgs@.push(crate::client::SentImage { name: message.img_name, client: message.ip_sender })
                &&& *final(state) == (ClientState { snd_imgs: final(state).snd_imgs, ..*old(state) })
            },
            message.purpose@ != "req_for_imgs"@ && message.purpose@ != "approved"@ && message.purpose@ != "req_for_choosen_img"@
                && message.purpose@ == "modify_views"@ ==> {
                &&& *final(state) == (ClientState { rcv_imgs: final(state).rcv_imgs, ..*old(state) })
                &&& message.views == 0 ==> {
                    &&& r matches PeerAction::DeleteImage { image_name }
                    &&& image_name == message.img_name
                    &&& final(state).rcv_imgs@ == old(state).rcv_imgs@.filter(|e: ReceivedImage| e.name@ != message.img_name@)
                }
                &&& message.views != 0 ==> {
                    &&& r matches PeerAction::SendAck { to }
                    &&& to == message.ip_sender
                    &&& none_named(old(state).rcv_imgs@, message.img_name@) ==> final(state).rcv_imgs@ == old(state).rcv_imgs@
                    &&& forall|i: int| first_named(old(state).rcv_imgs@, message.img_name@, i) ==> final(state).rcv_imgs@
                        == old(state).rcv_imgs@.update(i, ReceivedImage { name: old(state).rcv_imgs@[i].name, views: message.views })
                }
            },
            message.purpose@ != "req_for_imgs"@ && message.purpose@ != "approved"@ && message.purpose@ != "req_for_choosen_img"@
                && message.purpose@ != "modify_views"@ && message.purpose@ == "ACK"@ ==> {
                &&& r is Nothing
                &&& *final(state) == (ClientState { ack: true, ..*old(state) })
            },
            message.purpose@ != "req_for_imgs"@ && message.purpose@ != "approved"@ && message.purpose@ != "req_for_choosen_img"@
                && message.purpose@ != "modify_views"@ && message.purpose@ != "ACK"@ ==> {
                &&& r is Nothing
                &&& *final(state) == *old(state)
            },
    {
        proof {
            reveal_strlit("req_for_imgs");
            reveal_strlit("approved");
            assert("req_for_imgs"@[0] != "approved"@[0]);
        }
        let mut wait_img = false;
        let mut size: usize = 0;
        let mut names: Vec<String> = Vec::new();
        names.push("".to_owned());
        let mut reciever = SockAddr::unspecified();
        let action;
        if text_is(&message.purpose, "req_for_imgs") {
            action = PeerAction::SendCatalog { to: message.ip_sender };
        } else if text_is(&message.purpose, "approved") {
            wait_img = true;
            size = message.size;
            names = message.imgs_names;
            reciever = message.ip_sender;
            action = PeerAction::Nothing;
        } else if text_is(&message.purpose, "req_for_choosen_img") {
            state.add_snd_image(message.img_name.clone(), message.ip_sender);
            action = PeerAction::SendChosen { image_name: message.img_name, to: message.ip_sender };
        } else if text_is(&message.purpose, "modify_views") {
            if message.views == 0 {
                state.remove_image_by_name(&message.img_name);
                action = PeerAction::DeleteImage { image_name: message.img_name };
            } else {
                state.change_views_for_rcv_image(&message.img_name, message.views);
                action = PeerAction::SendAck { to: message.ip_sender };
            }
        } else if text_is(&message.purpose, "ACK") {
            state.set_ack(true);
            action = PeerAction::Nothing;
        } else {
            action = PeerAction::Nothing;
        }
        self.wait_img = wait_img;
        self.img_count = size;
        self.imgs_names = names;
        self.sender_addr = reciever;
        self.wait_ack = false;
        action
    }

    /// Takes the datagram after a preview or while the chosen image arrives.
    /// Previews: `SLOT_COUNT` datagrams each, `img_count` of them; after the
    /// last one the user picks an image. Then the chosen image: `SLOT_COUNT`
    /// datagrams and one more with its view allowance, after which the image
    /// is recorded with that many views and the session waits for messages again.
    pub fn on_image_datagram(&mut self, state: &mut ClientState, data: &[u8]) -> (r: ImageStep)
        requires
            old(self).wf(),
            old(self).wait_img,
            old(self).received_num < usize::MAX,
        ensures
            final(self).wf(),
            final(self).img_count == old(self).img_count,
            final(self).imgs_names == old(self).imgs_names,
            final(self).sender_addr == old(self).sender_addr,
            final(self).choosen_img == old(self).choosen_img,
            final(self).wait_ack == old(self).wait_ack,
            old(self).shown < old(self).img_count ==> {
                &&& *final(state) == *old(state)
                &&& final(self).wait_img
                &&& final(self).received_num == old(self).received_num
                &&& old(self).assembler.count + 1 < SLOT_COUNT ==> {
                    &&& r is Stored
                    &&& final(self).shown == old(self).shown
                    &&& final(self).assembler.received() == old(self).assembler.received().push(data@)
                }
                &&& old(self).assembler.count + 1 == SLOT_COUNT ==> {
                    &&& r matches ImageStep::Preview { fragments, ask_choice }
                    &&& fragments@.map_values(|v: Vec<u8>| v@) == old(self).assembler.received().push(data@)
                    &&& final(self).shown == old(self).shown + 1
                    &&& ask_choice == (final(self).shown == old(self).img_count)
                    &&& final(self).assembler.count == 0
                }
            },
            old(self).shown >= old(self).img_count && old(self).assembler.count < SLOT_COUNT ==> {
                &&& r is Stored
                &&& *final(state) == *old(state)
                &&& final(self).wait_img
                &&& final(self).shown == old(self).shown
                &&& final(self).received_num == old(self).received_num
                &&& final(self).assembler.received() == old(self).assembler.received().push(data@)
            },
            old(self).shown >= old(self).img_count && old(self).assembler.count == SLOT_COUNT
                && !(data@.len() >= 8 && le_u64(data@) <= usize::MAX) ==> {
                &&& r is BadViews
                &&& *final(state) == *old(state)
                &&& final(self).wait_img
                &&& final(self).shown == old(self).shown
                &&& final(self).received_num == old(self).received_num
                &&& final(self).assembler == old(self).assembler
            },
            old(self).shown >= old(self).img_count && old(self).assembler.count == SLOT_COUNT
                && data@.len() >= 8 && le_u64(data@) <= usize::MAX ==> {
                &&& r matches ImageStep::Received { fragments, name, views }
                &&& fragments@.map_values(|v: Vec<u8>| v@) == old(self).assembler.received()
                &&& name == old(self).choosen_img
                &&& views == le_u64(data@)
                &&& !final(self).wait_img
                &&& final(self).shown == 0
                &&& final(self).received_num == old(self).received_num + 1
                &&& final(self).assembler.count == 0
                &&& final(state).rcv_imgs@ == old(state).rcv_imgs@.push(ReceivedImage { name: old(self).choosen_img, views })
                &&& *final(state) == (ClientState { rcv_imgs: final(state).rcv_imgs, ..*old(state) })
            },
    {
        if self.shown < self.img_count {
            if !self.assembler.is_full() {
                self.assembler.store(data);
            }
            if self.assembler.is_full() {
                let frags = self.assembler.take_all();
                assert(frags@.take(SLOT_COUNT as int) =~= frags@);
                self.shown = self.shown + 1;
                let ask_choice = self.shown == self.img_count;
                ImageStep::Preview { fragments: frags, ask_choice }
            } else {
                ImageStep::Stored
            }
        } else {
            if !self.assembler.is_full() {
                self.assembler.store(data);
                ImageStep::Stored
            } else {
                match receive_views(data) {
                    None => ImageStep::BadViews,
                    Some(views) => {
                        let frags = self.assembler.take_all();
                        assert(frags@.take(SLOT_COUNT as int) =~= frags@);
                        self.received_num = self.received_num + 1;
                        self.wait_img = false;
                        self.shown = 0;
                        let name = self.choosen_img.clone();
                        state.add_rcv_image_data(name, views);
                        ImageStep::Received { fragments: frags, name: self.choosen_img.clone(), views }
                    },
                }
            }
        }
    }

    /// The user picked preview `idx`: when it exists, it becomes the chosen
    /// image, and the name and the peer to ask for it are returned.
    pub fn choose_preview(&mut self, idx: usize) -> (r: Option<(String, SockAddr)>)
        requires
            idx < old(self).img_count ==> idx < old(self).imgs_names@.len(),
        ensures
            old(self).wf() ==> final(self).wf(),
            idx >= old(self).img_count ==> r is None && *final(self) == *old(self),
            idx < old(self).img_count ==> {
                &&& r == Some((old(self).imgs_names@[idx as int], old(self).sender_addr))
                &&& *final(self) == (ClientSession { choosen_img: old(self).imgs_names@[idx as int], ..*old(self) })
            },
    {
        if idx < self.img_count {
            let name = self.imgs_names[idx].clone();
            self.choosen_img = name.clone();
            Some((name, self.sender_addr))
        } else {
            None
        }
    }
}

} // verus!
