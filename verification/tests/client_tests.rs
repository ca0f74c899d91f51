use std::collections::hash_map::DefaultHasher;
use std::hash::{Hash, Hasher};

use familyline_server::client::{ChatReceiver, ClientState, FClient, FServer};
use familyline_server::config::ServerConfiguration;
use familyline_server::gamemsg::{Packet, PacketMessage};

fn packet(source: u64, dest: u64, id: u64) -> Packet {
    Packet::new(0, source, dest, 100, id, PacketMessage::GameStartRequest)
}

fn expected_token(id: u64, name: &str) -> String {
    let base = format!("{}%{}", id, name);
    let mut h = DefaultHasher::new();
    base.hash(&mut h);
    format!("{:016x}", h.finish())
}

#[test]
fn new_client_token_is_the_hash_of_its_id_and_name() {
    let c = FClient::new("alice".to_string());
    assert_eq!(c.name_str(), "alice");
    assert_eq!(c.token_str(), expected_token(c.id(), "alice"));
    assert_eq!(c.token_str().len(), 16);
    assert!(c.get_state() == ClientState::InGameSetup);
    assert!(c.peek_game_packet().is_none());
    assert!(c.get_received_messages().is_empty());
}

#[test]
fn ready_toggles() {
    let mut c = FClient::new("bob".to_string());
    assert!(c.unset_ready());
    assert!(c.get_state() == ClientState::InGameSetup);
    assert!(c.set_ready());
    assert!(c.get_state() == ClientState::InReady);
    assert!(c.set_ready());
    assert!(c.get_state() == ClientState::InReady);
    assert!(c.unset_ready());
    assert!(c.get_state() == ClientState::InGameSetup);
}

#[test]
fn connect_needs_ready() {
    let mut c = FClient::new("carol".to_string());
    assert!(!c.set_connect());
    assert!(c.get_state() == ClientState::InGameSetup);
    assert!(c.set_ready());
    assert!(c.set_connect());
    assert!(c.get_state() == ClientState::InGameConnect);
    assert!(c.set_connect());
    assert!(!c.set_ready());
    assert!(!c.unset_ready());
    assert!(c.get_state() == ClientState::InGameConnect);
}

#[test]
fn starting_and_in_game() {
    let mut c = FClient::new("dave".to_string());
    assert!(!c.set_starting());
    assert!(!c.set_in_game());
    c.set_ready();
    c.set_connect();
    assert!(c.set_starting());
    assert!(c.get_state() == ClientState::InGameStart);
    assert!(c.set_in_game());
    assert!(c.get_state() == ClientState::InGame);
    assert!(c.set_in_game());
    assert!(!c.set_starting());
}

#[test]
fn packet_queue_is_first_in_first_out() {
    let mut c = FClient::new("erin".to_string());
    c.push_game_packet(packet(1, 2, 10));
    c.push_game_packet(packet(1, 2, 11));
    assert_eq!(c.peek_game_packet().map(|p| p.message_id), Some(10));
    assert_eq!(c.pop_game_packet().map(|p| p.message_id), Some(10));
    assert_eq!(c.pop_game_packet().map(|p| p.message_id), Some(11));
    assert!(c.pop_game_packet().is_none());
}

#[test]
fn sent_messages_do_not_reach_received() {
    let mut c = FClient::new("frank".to_string());
    c.send_message(3, ChatReceiver::All, "hi".to_string());
    c.register_message_receiving();
    assert!(c.get_received_messages().is_empty());
}

fn server_with(names: &[&str]) -> FServer {
    let mut s = FServer::new(&ServerConfiguration::load());
    for n in names {
        s.add_client(FClient::new(n.to_string()));
    }
    s
}

#[test]
fn server_finds_clients_by_id_and_token() {
    let s = server_with(&["a", "b"]);
    assert_eq!(s.name, "A test server");
    let id_b = s.clients[1].id();
    let token_b = s.clients[1].token_str().to_string();
    assert_eq!(s.get_client(id_b).map(|c| c.name_str()), Some("b"));
    assert_eq!(s.validate_token(&token_b).map(|c| c.id()), Some(id_b));
    assert_eq!(s.get_client_id_from_token(&token_b), Some(id_b));
    assert!(s.validate_token("nope").is_none());
    assert!(s.get_client_id_from_token("nope").is_none());
}

#[test]
fn removing_a_client() {
    let mut s = server_with(&["a", "b", "c"]);
    let id_b = s.clients[1].id();
    let token_b = s.clients[1].token_str().to_string();
    assert_eq!(s.remove_client(id_b), Some(id_b));
    assert_eq!(s.clients.len(), 2);
    assert!(s.validate_token(&token_b).is_none());
    assert_eq!(s.clients[1].name_str(), "c");
}

#[test]
fn removing_an_unknown_client() {
    let mut s = server_with(&["a"]);
    let unknown = s.clients[0].id().wrapping_add(1);
    assert_eq!(s.remove_client(unknown), None);
    assert_eq!(s.clients.len(), 1);
}

#[test]
fn ready_to_connect_needs_two_ready_clients() {
    let mut s = server_with(&["a"]);
    let a = s.clients[0].id();
    assert!(s.set_client_ready(a));
    assert!(!s.is_ready_to_connect());
    s.add_client(FClient::new("b".to_string()));
    let b = s.clients[1].id();
    assert!(!s.is_ready_to_connect());
    assert!(s.set_client_ready(b));
    assert!(s.is_ready_to_connect());
    assert!(s.unset_client_ready(b));
    assert!(!s.is_ready_to_connect());
}

#[test]
fn all_connected() {
    let mut s = server_with(&["a", "b"]);
    assert!(!s.all_clients_connected());
    let a = s.clients[0].id();
    let b = s.clients[1].id();
    s.set_client_ready(a);
    s.set_client_ready(b);
    assert!(s.set_client_connect(a));
    assert!(!s.all_clients_connected());
    assert!(s.set_client_connect(b));
    assert!(s.all_clients_connected());
    assert!(s.set_client_starting(a));
    assert!(s.set_client_start_to_receive_inputs(a));
    assert!(s.all_clients_connected());
    let empty = server_with(&[]);
    assert!(empty.all_clients_connected());
}

#[test]
fn unknown_client_state_changes_fail() {
    let mut s = server_with(&["a"]);
    let unknown = s.clients[0].id().wrapping_add(1);
    assert!(!s.set_client_ready(unknown));
    assert!(!s.unset_client_ready(unknown));
    assert!(!s.set_client_connect(unknown));
    assert!(!s.set_client_starting(unknown));
    assert!(!s.set_client_start_to_receive_inputs(unknown));
}

#[test]
fn broadcast_skips_the_exceptions() {
    let mut s = server_with(&["a", "b", "c"]);
    let a = s.clients[0].id();
    let b = s.clients[1].id();
    let c = s.clients[2].id();
    s.broadcast_game_packet(packet(a, 0, 5), vec![a]);
    assert!(s.pop_game_packet(a).is_none());
    let pb = s.pop_game_packet(b).unwrap();
    assert_eq!(pb.dest_client, b);
    assert_eq!(pb.message_id, 5);
    assert_eq!(s.pop_game_packet(c).unwrap().dest_client, c);
    assert!(s.pop_game_packet(c).is_none());
}

#[test]
fn push_then_pop_through_the_server() {
    let mut s = server_with(&["a", "b"]);
    let b = s.clients[1].id();
    s.push_game_packet(b, packet(1, b, 1));
    s.push_game_packet(b, packet(1, b, 2));
    assert_eq!(s.pop_game_packet(b).map(|p| p.message_id), Some(1));
    assert_eq!(s.pop_game_packet(b).map(|p| p.message_id), Some(2));
    assert!(s.pop_game_packet(b).is_none());
}

#[test]
fn message_to_all_is_queued_for_everybody() {
    let mut s = server_with(&["a", "b"]);
    s.send_message_to_all(9, "hello".to_string());
    assert_eq!(s.clients.len(), 2);
    let mut c = s.get_client_mut(s.clients[0].id());
    assert!(c.is_some());
    assert!(c.take().unwrap().get_received_messages().is_empty());
}
