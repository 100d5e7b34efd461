use vstd::prelude::*;
use crate::net::{SockAddr, text_is};
use crate::messages::{ClientServerIp, ClientClient, CLIENT_ID};

verus! {

/// An image this client received, with the views it has left.
pub struct ReceivedImage {
    pub name: String,
    pub views: usize,
}

/// An image this client gave away, and to whom.
pub struct SentImage {
    pub name: String,
    pub client: SockAddr,
}

/// Everything a client remembers.
pub struct ClientState {
    /// Whether the client is online.
    pub status: bool,
    /// Whether the peer acknowledged the last view change.
    pub ack: bool,
    /// The last view change sent to a peer: its address, image and views.
    pub pending_ip: Option<SockAddr>,
    pub img_name: Option<String>,
    pub views: Option<usize>,
    /// (address requests go to, address replies come from) of each server.
    pub server_addresses: Vec<(String, String)>,
    /// Images received, with their remaining views.
    pub rcv_imgs: Vec<ReceivedImage>,
    /// Images given away.
    pub snd_imgs: Vec<SentImage>,
    /// Where this client receives peer traffic, as an address and as text.
    pub rcv_client: SockAddr,
    pub rcv_client_text: String,
    /// Where this client receives server replies, as text.
    pub rcv_server_text: String,
}

/// The position of the first received image called `name`.
pub open spec fn first_named(s: Seq<ReceivedImage>, name: Seq<char>, i: int) -> bool {
    &&& 0 <= i < s.len()
    &&& s[i].name@ == name
    &&& forall|j: int| 0 <= j < i ==> (#[trigger] s[j]).name@ != name
}

/// No received image is called `name`.
pub open spec fn none_named(s: Seq<ReceivedImage>, name: Seq<char>) -> bool {
    forall|j: int| 0 <= j < s.len() ==> (#[trigger] s[j]).name@ != name
}

/// The position of the first sent image called `name`.
pub open spec fn first_sent_named(s: Seq<SentImage>, name: Seq<char>, i: int) -> bool {
    &&& 0 <= i < s.len()
    &&& s[i].name@ == name
    &&& forall|j: int| 0 <= j < i ==> (#[trigger] s[j]).name@ != name
}

impl ClientState {
    /// The state a client starts in: offline, nothing received or sent.
    pub fn new() -> (r: ClientState)
        ensures
            !r.status,
            !r.ack,
            r.pending_ip is None,
            r.img_name is None,
            r.views is None,
            r.server_addresses@.len() == 3,
            r.server_addresses@[0].0@ == "127.0.0.0:8070"@,
            r.server_addresses@[0].1@ == "127.0.0.0:8060"@,
            r.server_addresses@[1].0@ == "127.0.0.0:8071"@,
            r.server_addresses@[1].1@ == "127.0.0.0:8061"@,
            r.server_addresses@[2].0@ == "127.0.0.0:8072"@,
            r.server_addresses@[2].1@ == "127.0.0.0:8062"@,
            r.rcv_imgs@.len() == 0,
            r.snd_imgs@.len() == 0,
            r.rcv_client == SockAddr::v4_spec(0x7F00_0000, 6000),
            r.rcv_client_text@ == "127.0.0.0:6000"@,
            r.rcv_server_text@ == "127.0.0.0:9000"@,
    {
        let mut server_addresses: Vec<(String, String)> = Vec::new();
        server_addresses.push(("127.0.0.0:8070".to_owned(), "127.0.0.0:8060".to_owned()));
        server_addresses.push(("127.0.0.0:8071".to_owned(), "127.0.0.0:8061".to_owned()));
        server_addresses.push(("127.0.0.0:8072".to_owned(), "127.0.0.0:8062".to_owned()));
        ClientState {
            status: false,
            ack: false,
            pending_ip: None,
            img_name: None,
            views: None,
            server_addresses,
            rcv_imgs: Vec::new(),
            snd_imgs: Vec::new(),
            rcv_client: SockAddr::v4(0x7F00_0000, 6000),
            rcv_client_text: "127.0.0.0:6000".to_owned(),
            rcv_server_text: "127.0.0.0:9000".to_owned(),
        }
    }

    /// Sets the online status.
    pub fn set_status(&mut self, value: bool)
        ensures
            *final(self) == (ClientState { status: value, ..*old(self) }),
    {
        self.status = value;
    }

    /// Whether the client is online.
    pub fn get_status(&self) -> (r: bool)
        ensures
            r == self.status,
    {
        self.status
    }

    /// Goes offline.
    pub fn go_down(&mut self)
        ensures
            *final(self) == (ClientState { status: false, ..*old(self) }),
    {
        self.set_status(false);
    }

    /// Sets the acknowledgement flag.
    pub fn set_ack(&mut self, value: bool)
        ensures
            *final(self) == (ClientState { ack: value, ..*old(self) }),
    {
        self.ack = value;
    }

    /// Whether the peer acknowledged.
    pub fn get_ack(&self) -> (r: bool)
        ensures
            r == self.ack,
    {
        self.ack
    }

    /// Remembers the view change just sent to a peer.
    pub fn change_pending(&mut self, ip: SockAddr, name: String, views: usize)
        ensures
            *final(self) == (ClientState {
                pending_ip: Some(ip),
                img_name: Some(name),
                views: Some(views),
                ..*old(self)
            }),
    {
        self.pending_ip = Some(ip);
        self.img_name = Some(name);
        self.views = Some(views);
    }

    /// The peer of the last view change.
    pub fn get_pending_ip(&self) -> (r: Option<SockAddr>)
        ensures
            r == self.pending_ip,
    {
        self.pending_ip
    }

    /// The image of the last view change.
    pub fn get_img_name(&self) -> (r: Option<String>)
        ensures
            r == self.img_name,
    {
        match &self.img_name {
            Some(n) => Some(n.clone()),
            None => None,
        }
    }

    /// The views of the last view change.
    pub fn get_views(&self) -> (r: Option<usize>)
        ensures
            r == self.views,
    {
        self.views
    }

    /// Records a received image and its views at the end of the list.
    pub fn add_rcv_image_data(&mut self, image_name: String, image_number: usize)
        ensures
            *final(self) == (ClientState { rcv_imgs: final(self).rcv_imgs, ..*old(self) }),
            final(self).rcv_imgs@ == old(self).rcv_imgs@.push(ReceivedImage { name: image_name, views: image_number }),
    {
        self.rcv_imgs.push(ReceivedImage { name: image_name, views: image_number });
    }

    /// The names of the received images, in list order.
    pub fn get_all_rcv_image_names(&self) -> (r: Vec<String>)
        ensures
            r@ == self.rcv_imgs@.map_values(|e: ReceivedImage| e.name),
    {
        let mut out: Vec<String> = Vec::new();
        let mut i: usize = 0;
        while i < self.rcv_imgs.len()
            invariant
                i <= self.rcv_imgs@.len(),
                out@ == self.rcv_imgs@.take(i as int).map_values(|e: ReceivedImage| e.name),
            decreases self.rcv_imgs@.len() - i,
        {
            out.push(self.rcv_imgs[i].name.clone());
            i = i + 1;
            assert(out@ =~= self.rcv_imgs@.take(i as int).map_values(|e: ReceivedImage| e.name));
        }
        assert(self.rcv_imgs@.take(i as int) =~= self.rcv_imgs@);
        out
    }

    /// The position of the first received image called `image_name`.
    fn rcv_position(&self, image_name: &String) -> (r: Option<usize>)
        ensures
            match r {
                Some(i) => first_named(self.rcv_imgs@, image_name@, i as int),
                None => none_named(self.rcv_imgs@, image_name@),
            },
    {
        let mut i: usize = 0;
        while i < self.rcv_imgs.len()
            invariant
                i <= self.rcv_imgs@.len(),
                forall|j: int| 0 <= j < i ==> (#[trigger] self.rcv_imgs@[j]).name@ != image_name@,
            decreases self.rcv_imgs@.len() - i,
        {
            if self.rcv_imgs[i].name == *image_name {
                return Some(i);
            }
            i = i + 1;
        }
        None
    }

    /// The views left on the first received image called `image_name`.
    pub fn get_views_for_rcv_image(&self, image_name: &String) -> (r: Option<usize>)
        ensures
            match r {
                Some(v) => exists|i: int| first_named(self.rcv_imgs@, image_name@, i) && self.rcv_imgs@[i].views == v,
                None => none_named(self.rcv_imgs@, image_name@),
            },
    {
        match self.rcv_position(image_name) {
            Some(i) => Some(self.rcv_imgs[i].views),
            None => None,
        }
    }

    /// Forgets every received image called `image_name`.
    pub fn remove_image_by_name(&mut self, image_name: &String)
        ensures
            *final(self) == (ClientState { rcv_imgs: final(self).rcv_imgs, ..*old(self) }),
            final(self).rcv_imgs@ == old(self).rcv_imgs@.filter(|e: ReceivedImage| e.name@ != image_name@),
    {
        let ghost pred = |e: ReceivedImage| e.name@ != image_name@;
        let ghost s = self.rcv_imgs@;
        let mut kept: Vec<ReceivedImage> = Vec::new();
        let mut i: usize = 0;
        while i < self.rcv_imgs.len()
            invariant
                s == self.rcv_imgs@,
                pred == (|e: ReceivedImage| e.name@ != image_name@),
                i <= s.len(),
                kept@ == s.take(i as int).filter(pred),
            decreases s.len() - i,
        {
            proof {
                reveal(Seq::filter);
                assert(s.take(i + 1).drop_last() =~= s.take(i as int));
            }
            if self.rcv_imgs[i].name != *image_name {
                kept.push(ReceivedImage { name: self.rcv_imgs[i].name.clone(), views: self.rcv_imgs[i].views });
            }
            i = i + 1;
        }
        assert(s.take(i as int) =~= s);
        self.rcv_imgs = kept;
    }

    /// Sets the views of the first received image called `image_name`;
    /// nothing changes when there is none.
    pub fn change_views_for_rcv_image(&mut self, image_name: &String, new_number: usize)
        ensures
            *final(self) == (ClientState { rcv_imgs: final(self).rcv_imgs, ..*old(self) }),
            none_named(old(self).rcv_imgs@, image_name@) ==> final(self).rcv_imgs@ == old(self).rcv_imgs@,
            forall|i: int| first_named(old(self).rcv_imgs@, image_name@, i) ==> final(self).rcv_imgs@ == old(self).rcv_imgs@.update(
                i,
                ReceivedImage { name: old(self).rcv_imgs@[i].name, views: new_number },
            ),
    {
        match self.rcv_position(image_name) {
            Some(i) => {
                let name = self.rcv_imgs[i].name.clone();
                self.rcv_imgs.set(i, ReceivedImage { name, views: new_number });
                assert forall|j: int| first_named(old(self).rcv_imgs@, image_name@, j) implies j == i as int by {
                    if j < i {
                        assert(old(self).rcv_imgs@[j].name@ != image_name@);
                    } else if j > i {
                        assert(old(self).rcv_imgs@[i as int].name@ != image_name@);
                    }
                }
            },
            None => {},
        }
    }

    /// The name of the received image at `index`.
    pub fn get_image_name_by_index(&self, index: usize) -> (r: Option<String>)
        ensures
            r == (if index < self.rcv_imgs@.len() { Some(self.rcv_imgs@[index as int].name) } else { None::<String> }),
    {
        if index < self.rcv_imgs.len() {
            Some(self.rcv_imgs[index].name.clone())
        } else {
            None
        }
    }

    /// Records an image given to `socket_address`.
    pub fn add_snd_image(&mut self, image_name: String, socket_address: SockAddr)
        ensures
            *final(self) == (ClientState { snd_imgs: final(self).snd_imgs, ..*old(self) }),
            final(self).snd_imgs@ == old(self).snd_imgs@.push(SentImage { name: image_name, client: socket_address }),
    {
        self.snd_imgs.push(SentImage { name: image_name, client: socket_address });
    }

    /// The client the first image called `image_name` was given to.
    pub fn get_client_by_snd_image_name(&self, image_name: &String) -> (r: Option<SockAddr>)
        ensures
            match r {
                Some(a) => exists|i: int| first_sent_named(self.snd_imgs@, image_name@, i) && self.snd_imgs@[i].client == a,
                None => forall|j: int| 0 <= j < self.snd_imgs@.len() ==> (#[trigger] self.snd_imgs@[j]).name@ != image_name@,
            },
    {
        let mut i: usize = 0;
        while i < self.snd_imgs.len()
            invariant
                i <= self.snd_imgs@.len(),
                forall|j: int| 0 <= j < i ==> (#[trigger] self.snd_imgs@[j]).name@ != image_name@,
            decreases self.snd_imgs@.len() - i,
        {
            if self.snd_imgs[i].name == *image_name {
                assert(first_sent_named(self.snd_imgs@, image_name@, i as int));
                return Some(self.snd_imgs[i].client);
            }
            i = i + 1;
        }
        None
    }

    /// The name of the image given away at `index`.
    pub fn get_snd_img_by_index(&self, index: usize) -> (r: Option<String>)
        ensures
            r == (if index < self.snd_imgs@.len() { Some(self.snd_imgs@[index as int].name) } else { None::<String> }),
    {
        if index < self.snd_imgs.len() {
            Some(self.snd_imgs[index].name.clone())
        } else {
            None
        }
    }

    /// The client the image at `index` was given to.
    pub fn get_snd_client_by_index(&self, index: usize) -> (r: Option<SockAddr>)
        ensures
            r == (if index < self.snd_imgs@.len() { Some(self.snd_imgs@[index as int].client) } else { None::<SockAddr> }),
    {
        if index < self.snd_imgs.len() {
            Some(self.snd_imgs[index].client)
        } else {
            None
        }
    }

    /// How many images were given away.
    pub fn get_snd_size(&self) -> (r: usize)
        ensures
            r == self.snd_imgs@.len(),
    {
        self.snd_imgs.len()
    }

    /// The address requests go to for the server whose replies come from
    /// `second_str` (the first such server).
    pub fn get_send_server(&self, second_str: &String) -> (r: Option<String>)
        ensures
            match r {
                Some(s) => exists|i: int|
                    0 <= i < self.server_addresses@.len() && (#[trigger] self.server_addresses@[i]).1@ == second_str@
                        && self.server_addresses@[i].0 == s
                        && forall|j: int| 0 <= j < i ==> (#[trigger] self.server_addresses@[j]).1@ != second_str@,
                None => forall|j: int| 0 <= j < self.server_addresses@.len() ==> (#[trigger] self.server_addresses@[j]).1@ != second_str@,
            },
    {
        let mut i: usize = 0;
        while i < self.server_addresses.len()
            invariant
                i <= self.server_addresses@.len(),
                forall|j: int| 0 <= j < i ==> (#[trigger] self.server_addresses@[j]).1@ != second_str@,
            decreases self.server_addresses@.len() - i,
        {
            if self.server_addresses[i].1 == *second_str {
                return Some(self.server_addresses[i].0.clone());
            }
            i = i + 1;
        }
        None
    }
}

} // verus!
