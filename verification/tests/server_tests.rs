use stego_share::net::SockAddr;
use stego_share::messages::ClientServerIp;
use stego_share::server::{ServerState, ServerMessage, ServerEvent, ClientEntry, ZERO_LOAD, SERVER_ID};
use stego_share::server_protocol::{Outgoing, ServerSession, Route, is_server_port};

fn addr(port: u16) -> SockAddr {
    SockAddr::v4(0x7F00_0000, port)
}

fn msg(content: &str, id: usize, load: u32) -> ServerMessage {
    ServerMessage { load_update: load, ip: "127.0.0.0:8091".to_string(), id, content: content.to_string() }
}

fn request(purpose: &str) -> ClientServerIp {
    let mut m = ClientServerIp::request("127.0.0.0:6001".to_string(), "127.0.0.0:9001".to_string(), purpose);
    m.pending_img_name = "cat.png".to_string();
    m.pending_views = 4;
    m.pending_ip = addr(6002);
    m
}

#[test]
fn new_state_matches_cluster_layout() {
    let s = ServerState::new();
    assert_eq!(s.flags, vec![true, true, true]);
    assert_eq!(s.cpu_loads, vec![ZERO_LOAD; 3]);
    assert_eq!(s.server_addresses, vec!["127.0.0.0:8080", "127.0.0.0:8081", "127.0.0.0:8082"]);
    assert_eq!(s.client_addresses[1], (addr(8001), addr(9001), addr(6001)));
    assert!(!s.get_ack());
}

#[test]
fn flag_write_then_read() {
    let mut s = ServerState::new();
    s.update_server_flag(2, false);
    assert!(!s.get_flag(2));
    assert!(s.get_flag(1));
    s.update_server_flag(7, false);
    assert_eq!(s.flags, vec![true, true, false]);
}

#[test]
fn cpu_update_ignores_unknown_server() {
    let mut s = ServerState::new();
    s.update_CPU(1, 0x8000_0100);
    s.update_CPU(3, 0x8000_0001);
    assert_eq!(s.cpu_loads, vec![ZERO_LOAD, 0x8000_0100, ZERO_LOAD]);
}

#[test]
fn no_least_loaded_before_any_report() {
    let s = ServerState::new();
    assert_eq!(s.find_least_load_index(), None);
}

#[test]
fn least_loaded_skips_down_servers_and_takes_first_of_ties() {
    let mut s = ServerState::new();
    s.update_CPU(0, 0x8000_0500);
    s.update_CPU(1, 0x8000_0200);
    s.update_CPU(2, 0x8000_0200);
    assert_eq!(s.find_least_load_index(), Some(1));
    s.update_server_flag(1, false);
    assert_eq!(s.find_least_load_index(), Some(2));
    s.update_CPU(0, 0x8000_0100);
    assert_eq!(s.find_least_load_index(), Some(0));
}

#[test]
fn send_load_goes_to_servers_that_are_up() {
    let mut s = ServerState::new();
    s.set_cpu_load(0x8000_0042);
    s.update_server_flag(1, false);
    let b = s.send_load();
    assert_eq!(b.message.content, "update_load");
    assert_eq!(b.message.load_update, 0x8000_0042);
    assert_eq!(b.message.id, SERVER_ID);
    assert_eq!(b.message.ip, "127.0.0.0:8090");
    assert_eq!(b.targets, vec!["127.0.0.0:8082"]);
}

#[test]
fn shutdown_marks_self_down_and_notifies_all_others() {
    let mut s = ServerState::new();
    s.update_server_flag(2, false);
    let b = s.notify_server_shutdown();
    assert_eq!(s.flags, vec![false, true, false]);
    assert_eq!(b.message.content, "shutdown");
    assert_eq!(b.message.load_update, ZERO_LOAD);
    assert_eq!(b.targets, vec!["127.0.0.0:8081", "127.0.0.0:8082"]);
    let w = s.notify_server_wakeup();
    assert_eq!(w.message.content, "wakeup");
    assert_eq!(s.flags, vec![true, true, false]);
}

#[test]
fn server_messages_update_flags_and_loads() {
    let mut s = ServerState::new();
    assert_eq!(s.handle_server_connections(&msg("shutdown", 2, 0)), ServerEvent::Shutdown);
    assert_eq!(s.flags, vec![true, true, false]);
    assert_eq!(s.handle_server_connections(&msg("wakeup", 2, 0)), ServerEvent::Wakeup);
    assert_eq!(s.flags, vec![true, true, true]);
    assert_eq!(s.handle_server_connections(&msg("update_load", 1, 0x8000_0777)), ServerEvent::LoadUpdate);
    assert_eq!(s.cpu_loads[1], 0x8000_0777);
    assert_eq!(s.handle_server_connections(&msg("hello", 1, 5)), ServerEvent::Other);
    assert_eq!(s.cpu_loads[1], 0x8000_0777);
}

#[test]
fn shutdown_notice_from_one_server_marks_it_down_at_another() {
    let mut a = ServerState::new();
    let notice = a.notify_server_shutdown();
    let mut b = ServerState::new();
    b.handle_server_connections(&notice.message);
    assert!(!b.get_flag(SERVER_ID));
}

#[test]
fn client_table_operations() {
    let mut s = ServerState::new();
    s.add_client_entry(addr(6000), true);
    s.add_client_entry(addr(6001), true);
    s.add_client_entry(addr(6002), false);
    assert_eq!(s.get_clients_with_positive_flags(addr(6000)), vec![addr(6001)]);
    s.update_client_flag_by_ip(addr(6002), true);
    assert_eq!(s.get_clients_with_positive_flags(addr(6000)), vec![addr(6001), addr(6002)]);
    s.delete_client_by_ip(addr(6001));
    assert_eq!(s.clients, vec![ClientEntry { addr: addr(6000), online: true }, ClientEntry { addr: addr(6002), online: true }]);
    assert_eq!(s.get_clients_with_positive_flags(addr(9999)), vec![addr(6000), addr(6002)]);
}

#[test]
fn pending_changes_are_taken_per_client_in_order() {
    let mut s = ServerState::new();
    s.add_to_pending("a.png".to_string(), addr(6001), 1);
    s.add_to_pending("b.png".to_string(), addr(6002), 2);
    s.add_to_pending("c.png".to_string(), addr(6001), 3);
    let got = s.search_and_remove_pending(addr(6001));
    let names: Vec<(String, usize)> = got.iter().map(|p| (p.image_name.clone(), p.views)).collect();
    assert_eq!(names, vec![("a.png".to_string(), 1), ("c.png".to_string(), 3)]);
    assert_eq!(s.pending.len(), 1);
    assert_eq!(s.pending[0].image_name, "b.png");
    assert!(s.search_and_remove_pending(addr(6001)).is_empty());
    s.remove_from_pending(addr(6002));
    assert!(s.pending.is_empty());
}

#[test]
fn send_addr_lookup() {
    let s = ServerState::new();
    assert_eq!(s.find_send_addr_by_recv_addr(addr(8002)), Some(addr(9002)));
    assert_eq!(s.find_send_addr_by_recv_addr(addr(9002)), None);
}

#[test]
fn ack_flag() {
    let mut s = ServerState::new();
    s.set_ack(true);
    assert!(s.get_ack());
}

#[test]
fn wakeup_client_gets_its_pending_changes_then_finished() {
    let mut s = ServerState::new();
    s.add_to_pending("x.png".to_string(), addr(6001), 5);
    s.add_to_pending("y.png".to_string(), addr(6003), 6);
    s.add_to_pending("z.png".to_string(), addr(6001), 7);
    let m = request("wakeup_client");
    let out = s.handle_client_connections(&m, Some(addr(6001)), addr(9001));
    assert!(!out.busy);
    assert_eq!(out.reply_addr, addr(9001));
    assert_eq!(s.clients, vec![ClientEntry { addr: addr(6001), online: true }]);
    assert_eq!(s.pending.len(), 1);
    let sent: Vec<(String, String, usize)> = out
        .outgoing
        .iter()
        .map(|o| match o {
            Outgoing::Message { to, message } => {
                assert_eq!(*to, addr(9001));
                (message.purpose.clone(), message.pending_img_name.clone(), message.pending_views)
            }
            Outgoing::PeerList { .. } => panic!("unexpected peer list"),
        })
        .collect();
    assert_eq!(
        sent,
        vec![
            ("Pending req".to_string(), "x.png".to_string(), 5),
            ("Pending req".to_string(), "z.png".to_string(), 7),
            ("finished".to_string(), "z.png".to_string(), 7),
        ]
    );
}

#[test]
fn request_for_ip_lists_online_peers() {
    let mut s = ServerState::new();
    s.add_client_entry(addr(6001), true);
    s.add_client_entry(addr(6002), true);
    let out = s.handle_client_connections(&request("request_for_IP"), Some(addr(6001)), addr(9001));
    assert_eq!(out.outgoing.len(), 1);
    match &out.outgoing[0] {
        Outgoing::PeerList { to, message, peers } => {
            assert_eq!(*to, addr(9001));
            assert_eq!(message.purpose, "request_for_IP");
            assert_eq!(peers, &vec![addr(6002)]);
        }
        _ => panic!("expected a peer list"),
    }
}

#[test]
fn encrypt_request_makes_server_busy() {
    let mut s = ServerState::new();
    let out = s.handle_client_connections(&request("req_for_encrypt"), None, addr(9001));
    assert!(out.busy);
    match &out.outgoing[0] {
        Outgoing::Message { to, message } => {
            assert_eq!(*to, addr(9001));
            assert_eq!(message.purpose, "send_fragments");
        }
        _ => panic!("expected a message"),
    }
}

#[test]
fn save_in_buffer_parks_the_change() {
    let mut s = ServerState::new();
    let out = s.handle_client_connections(&request("save_in_buffer"), None, addr(9001));
    assert!(out.watch_ack);
    assert!(out.outgoing.is_empty());
    assert_eq!(s.pending.len(), 1);
    assert_eq!(s.pending[0].image_name, "cat.png");
    assert_eq!(s.pending[0].addr, addr(6002));
    assert_eq!(s.pending[0].views, 4);
}

#[test]
fn unknown_request_changes_nothing() {
    let mut s = ServerState::new();
    let out = s.handle_client_connections(&request("something"), None, addr(9001));
    assert!(!out.busy && !out.watch_ack && out.outgoing.is_empty());
}

#[test]
fn session_routes_and_collects_forty_fragments() {
    assert!(is_server_port(8091));
    assert!(!is_server_port(8093));
    let mut session = ServerSession::new();
    assert_eq!(session.route(8090), Route::Server);
    assert_eq!(session.route(9001), Route::Client);
    session.client_handled(true, addr(9001));
    assert_eq!(session.route(9001), Route::Fragment);
    for i in 0..39u8 {
        assert!(session.push_fragment(&[i, i]).is_none());
    }
    let (frags, client) = session.push_fragment(&[39, 39]).expect("complete");
    assert_eq!(client, addr(9001));
    assert_eq!(frags.len(), 40);
    for (i, f) in frags.iter().enumerate() {
        assert_eq!(f, &vec![i as u8, i as u8]);
    }
    assert!(!session.busy);
    assert_eq!(session.route(9001), Route::Client);
}
