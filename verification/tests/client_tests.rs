use stego_share::net::SockAddr;
use stego_share::messages::{ClientServerIp, ClientClient, ClientMessage};
use stego_share::client::ClientState;
use stego_share::client_protocol::{ClientSession, Delivery, ImageStep, PeerAction, next_retry, is_no_reply, is_send_fragments, MAX_RETRIES, VIEW_ALLOWANCE};
use stego_share::chance::{get_random_index, pick_peer};

fn addr(port: u16) -> SockAddr {
    SockAddr::v4(0x7F00_0000, port)
}

fn peer_msg(purpose: &str, name: &str, views: usize) -> ClientClient {
    ClientClient::to_peer(addr(6005), addr(6000), 0, name.to_string(), purpose, views)
}

#[test]
fn new_client_state() {
    let c = ClientState::new();
    assert!(!c.get_status());
    assert_eq!(c.rcv_client, addr(6000));
    assert_eq!(c.get_send_server(&"127.0.0.0:8061".to_string()), Some("127.0.0.0:8071".to_string()));
    assert_eq!(c.get_send_server(&"127.0.0.0:9999".to_string()), None);
}

#[test]
fn status_and_ack() {
    let mut c = ClientState::new();
    let m = c.notify_server_wakeup();
    assert!(c.get_status());
    assert_eq!(m.purpose, "wakeup_client");
    assert_eq!(m.ip_rcv_clients, "127.0.0.0:6000");
    assert_eq!(m.ip_rcv_servers, "127.0.0.0:9000");
    c.go_down();
    assert!(!c.get_status());
    c.set_ack(true);
    assert!(c.get_ack());
}

#[test]
fn received_images_table() {
    let mut c = ClientState::new();
    c.add_rcv_image_data("a.png".to_string(), 2);
    c.add_rcv_image_data("b.png".to_string(), 5);
    c.add_rcv_image_data("a.png".to_string(), 9);
    assert_eq!(c.get_all_rcv_image_names(), vec!["a.png", "b.png", "a.png"]);
    assert_eq!(c.get_views_for_rcv_image(&"a.png".to_string()), Some(2));
    assert_eq!(c.get_views_for_rcv_image(&"c.png".to_string()), None);
    c.change_views_for_rcv_image(&"a.png".to_string(), 4);
    assert_eq!(c.rcv_imgs[0].views, 4);
    assert_eq!(c.rcv_imgs[2].views, 9);
    assert_eq!(c.get_image_name_by_index(1), Some("b.png".to_string()));
    assert_eq!(c.get_image_name_by_index(3), None);
    c.remove_image_by_name(&"a.png".to_string());
    assert_eq!(c.get_all_rcv_image_names(), vec!["b.png"]);
}

#[test]
fn viewing_uses_up_views_and_forgets_the_image() {
    let mut c = ClientState::new();
    c.add_rcv_image_data("a.png".to_string(), 2);
    assert_eq!(c.use_one_view(0), Some(("a.png".to_string(), false)));
    assert_eq!(c.rcv_imgs[0].views, 1);
    assert_eq!(c.use_one_view(0), Some(("a.png".to_string(), true)));
    assert!(c.rcv_imgs.is_empty());
    assert_eq!(c.use_one_view(0), None);
}

#[test]
fn sent_images_table() {
    let mut c = ClientState::new();
    c.add_snd_image("p.png".to_string(), addr(6007));
    assert_eq!(c.get_snd_size(), 1);
    assert_eq!(c.get_snd_img_by_index(0), Some("p.png".to_string()));
    assert_eq!(c.get_snd_client_by_index(0), Some(addr(6007)));
    assert_eq!(c.get_snd_client_by_index(1), None);
    assert_eq!(c.get_client_by_snd_image_name(&"p.png".to_string()), Some(addr(6007)));
    assert_eq!(c.get_client_by_snd_image_name(&"q.png".to_string()), None);
}

#[test]
fn modify_views_remembers_change_until_acknowledged() {
    let mut c = ClientState::new();
    let m = c.send_modify_views_for_client("p.png".to_string(), addr(6007), 3);
    assert_eq!(m.purpose, "modify_views");
    assert_eq!(m.views, 3);
    assert_eq!(m.ip_reciever, addr(6007));
    assert_eq!(c.get_pending_ip(), Some(addr(6007)));
    assert_eq!(c.get_img_name(), Some("p.png".to_string()));
    assert_eq!(c.get_views(), Some(3));
    let parked = c.ack_timeout_request().expect("no ack yet");
    assert_eq!(parked.purpose, "save_in_buffer");
    assert_eq!(parked.pending_ip, addr(6007));
    assert_eq!(parked.pending_img_name, "p.png");
    assert_eq!(parked.pending_views, 3);
    c.set_ack(true);
    assert!(c.ack_timeout_request().is_none());
}

#[test]
fn pending_replies_set_views_until_finished() {
    let mut c = ClientState::new();
    c.add_rcv_image_data("a.png".to_string(), 2);
    let mut m = ClientServerIp::request("x".to_string(), "y".to_string(), "Pending req");
    m.pending_img_name = "a.png".to_string();
    m.pending_views = 8;
    assert!(!c.listen_for_pending_step(&m));
    assert_eq!(c.rcv_imgs[0].views, 8);
    m.purpose = "finished".to_string();
    m.pending_views = 1;
    assert!(c.listen_for_pending_step(&m));
    assert_eq!(c.rcv_imgs[0].views, 8);
}

#[test]
fn message_builders() {
    let c = ClientState::new();
    assert_eq!(c.request_for_ip_message().purpose, "request_for_IP");
    assert_eq!(c.encrypt_request_message().purpose, "req_for_encrypt");
    let r = c.send_req_for_img(addr(6003));
    assert_eq!((r.purpose.as_str(), r.ip_sender, r.ip_reciever), ("req_for_imgs", addr(6000), addr(6003)));
    let r = c.send_req_for_choosen_img("k.png".to_string(), addr(6003));
    assert_eq!((r.purpose.as_str(), r.img_name.as_str()), ("req_for_choosen_img", "k.png"));
    let r = c.send_all_images_low_quality(addr(6003), &vec!["a".to_string(), "b".to_string()]);
    assert_eq!((r.purpose.as_str(), r.size), ("approved", 2));
    assert_eq!(r.imgs_names, vec!["a", "b"]);
    assert_eq!(c.send_ack_client(addr(6003)).purpose, "ACK");
    assert_eq!(c.send_to_client(addr(6003)).purpose, "request for image");
    let none = ClientServerIp::no_reply();
    assert!(is_no_reply(&none));
    assert!(!is_send_fragments(&none));
    let none = ClientMessage::no_reply();
    assert_eq!((none.ip.as_str(), none.req_ip.as_str(), none.status), ("0", "0", false));
}

#[test]
fn retries_stop_after_three_attempts() {
    assert_eq!(MAX_RETRIES, 3);
    assert_eq!(next_retry(0), Some(1));
    assert_eq!(next_retry(1), Some(2));
    assert_eq!(next_retry(2), None);
}

#[test]
fn random_choices_stay_in_range() {
    for n in 1..20 {
        assert!(get_random_index(n) < n);
    }
    assert_eq!(pick_peer(&vec![]), None);
    let peers = vec!["a".to_string(), "b".to_string()];
    let p = pick_peer(&peers).unwrap();
    assert!(peers.contains(&p));
}

#[test]
fn peer_messages() {
    let mut c = ClientState::new();
    let mut s = ClientSession::new();
    match s.handle_client_connections(&mut c, peer_msg("req_for_imgs", "", 0)) {
        PeerAction::SendCatalog { to } => assert_eq!(to, addr(6005)),
        _ => panic!("expected catalogue"),
    }
    assert!(!s.wait_img);
    let approved = ClientClient::approved(addr(6005), addr(6000), vec!["a.png".to_string(), "b.png".to_string()]);
    assert!(matches!(s.handle_client_connections(&mut c, approved), PeerAction::Nothing));
    assert!(s.wait_img);
    assert_eq!(s.img_count, 2);
    assert_eq!(s.sender_addr, addr(6005));
    match s.handle_client_connections(&mut c, peer_msg("req_for_choosen_img", "k.png", 0)) {
        PeerAction::SendChosen { image_name, to } => {
            assert_eq!(image_name, "k.png");
            assert_eq!(to, addr(6005));
        }
        _ => panic!("expected chosen image"),
    }
    assert_eq!(c.get_client_by_snd_image_name(&"k.png".to_string()), Some(addr(6005)));
    assert!(!s.wait_img);
    assert_eq!(s.imgs_names, vec![""]);
    c.add_rcv_image_data("k.png".to_string(), 3);
    assert!(matches!(s.handle_client_connections(&mut c, peer_msg("modify_views", "k.png", 5)), PeerAction::SendAck { .. }));
    assert_eq!(c.rcv_imgs[0].views, 5);
    match s.handle_client_connections(&mut c, peer_msg("modify_views", "k.png", 0)) {
        PeerAction::DeleteImage { image_name } => assert_eq!(image_name, "k.png"),
        _ => panic!("expected deletion"),
    }
    assert!(c.rcv_imgs.is_empty());
    assert!(matches!(s.handle_client_connections(&mut c, peer_msg("ACK", "", 0)), PeerAction::Nothing));
    assert!(c.get_ack());
}

#[test]
fn previews_then_chosen_image_with_views() {
    let mut c = ClientState::new();
    let mut s = ClientSession::new();
    let approved = ClientClient::approved(addr(6005), addr(6000), vec!["a.png".to_string(), "b.png".to_string()]);
    s.handle_client_connections(&mut c, approved);
    for preview in 0..2 {
        for i in 0..39u8 {
            assert!(matches!(s.on_image_datagram(&mut c, &[i]), ImageStep::Stored));
        }
        match s.on_image_datagram(&mut c, &[39]) {
            ImageStep::Preview { fragments, ask_choice } => {
                assert_eq!(fragments.len(), 40);
                assert_eq!(fragments[5], vec![5]);
                assert_eq!(ask_choice, preview == 1);
            }
            _ => panic!("expected a preview"),
        }
    }
    assert_eq!(s.choose_preview(2), None);
    assert_eq!(s.choose_preview(1), Some(("b.png".to_string(), addr(6005))));
    for i in 0..40u8 {
        assert!(matches!(s.on_image_datagram(&mut c, &[i, 1]), ImageStep::Stored));
    }
    assert!(matches!(s.on_image_datagram(&mut c, &[1, 2]), ImageStep::BadViews));
    match s.on_image_datagram(&mut c, &[3, 0, 0, 0, 0, 0, 0, 0]) {
        ImageStep::Received { fragments, name, views } => {
            assert_eq!(fragments.len(), 40);
            assert_eq!(fragments[39], vec![39, 1]);
            assert_eq!(name, "b.png");
            assert_eq!(views, 3);
        }
        _ => panic!("expected the image"),
    }
    assert!(!s.wait_img);
    assert_eq!(s.received_num, 1);
    assert_eq!(c.get_views_for_rcv_image(&"b.png".to_string()), Some(3));
}

fn no_catalogue(m: &ClientClient) -> bool {
    m.imgs_height.is_empty() && m.imgs_width.is_empty() && m.imgs_size.is_empty()
}

#[test]
fn peer_requests_carry_no_catalogue() {
    let mut c = ClientState::new();
    let r = c.send_req_for_img(addr(6003));
    assert!(no_catalogue(&r) && r.imgs_names.is_empty() && r.size == 0 && r.views == 0);
    let r = c.send_req_for_choosen_img("k.png".to_string(), addr(6003));
    assert!(no_catalogue(&r) && r.imgs_names.is_empty() && r.size == 0);
    let r = c.send_all_images_low_quality(addr(6003), &vec!["a".to_string()]);
    assert!(no_catalogue(&r) && r.img_id == 0 && r.img_name.is_empty());
    let r = c.send_to_client(addr(6003));
    assert!(no_catalogue(&r) && r.imgs_names.is_empty() && r.size == 0 && r.img_id == 0);
    let r = c.send_ack_client(addr(6003));
    assert!(no_catalogue(&r) && r.imgs_names.is_empty() && r.size == 0 && r.img_id == 0);
    let r = c.send_modify_views_for_client("k.png".to_string(), addr(6003), 2);
    assert!(no_catalogue(&r) && r.imgs_names.is_empty() && r.size == 0 && r.img_id == 0);
    assert_eq!((r.purpose.as_str(), r.img_name.as_str(), r.views), ("modify_views", "k.png", 2));
}

#[test]
fn datagrams_are_dropped_while_offline() {
    let mut c = ClientState::new();
    let mut s = ClientSession::new();
    c.set_status(false);
    assert!(matches!(s.route(&c), Delivery::Dropped));
    c.set_status(true);
    assert!(matches!(s.route(&c), Delivery::Peer));
    s.wait_img = true;
    assert!(matches!(s.route(&c), Delivery::Image));
    c.set_status(false);
    assert!(matches!(s.route(&c), Delivery::Dropped));
}

#[test]
fn three_views_are_granted() {
    assert_eq!(VIEW_ALLOWANCE, 3);
}
