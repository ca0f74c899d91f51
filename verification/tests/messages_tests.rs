use familyline_server::client::{ChatReceiver, FServer};
use familyline_server::config::ServerConfiguration;
use familyline_server::gamemsg::{Packet, PacketMessage};
use familyline_server::messages::{
    process_request, send_check_all_clients_connected_message, send_client_count_message,
    send_connect_confirm_message, send_connect_message, send_get_client_message,
    send_info_message, send_login_message, send_logout_message, send_pop_game_packet_message,
    send_push_game_packet_message, send_set_ready_message, send_unset_ready_message,
    send_validate_login_message, FRequestMessage, FResponseMessage, LoginInfo, QueryError,
};

fn server() -> FServer {
    FServer::new(&ServerConfiguration::load())
}

fn login(s: &mut FServer, name: &str) -> (u64, String) {
    let r = send_login_message(s, name).ok().unwrap();
    (r.user_id, r.token)
}

#[test]
fn login_adds_a_client_in_setup() {
    let mut s = server();
    let r = send_login_message(&mut s, "ana").ok().unwrap();
    assert_eq!(r.name, "ana");
    assert_eq!(s.clients.len(), 1);
    assert_eq!(s.clients[0].id(), r.user_id);
    assert_eq!(s.clients[0].token_str(), r.token);
    let info = send_get_client_message(&mut s, &r.token, r.user_id).unwrap();
    assert_eq!(info.name, "ana");
    assert!(!info.ready && !info.connecting && !info.ingame);
}

#[test]
fn login_then_validate_finds_the_client() {
    let mut s = server();
    let (id, token) = login(&mut s, "bo");
    let v = send_validate_login_message(&mut s, &token).ok().unwrap();
    assert_eq!(v.user_id, id);
    assert_eq!(v.name, "bo");
    assert_eq!(v.token, token);
}

#[test]
fn logout_then_validate_fails() {
    let mut s = server();
    let (id, token) = login(&mut s, "cy");
    let (_, other) = login(&mut s, "di");
    assert_eq!(send_logout_message(&mut s, &token).ok(), Some(id));
    assert!(matches!(send_validate_login_message(&mut s, &token), Err(QueryError::InvalidToken)));
    assert!(send_validate_login_message(&mut s, &other).is_ok());
    assert_eq!(send_client_count_message(&mut s).ok(), Some(1));
}

#[test]
fn unknown_token_is_refused_everywhere() {
    let mut s = server();
    login(&mut s, "ed");
    let t = "0000000000000000";
    assert!(matches!(send_info_message(&mut s, t), Err(QueryError::InvalidToken)));
    assert!(matches!(send_logout_message(&mut s, t), Err(QueryError::InvalidToken)));
    assert!(matches!(send_get_client_message(&mut s, t, 1), Err(QueryError::InvalidToken)));
    assert!(matches!(send_set_ready_message(&mut s, t), Err(QueryError::InvalidToken)));
    assert!(matches!(send_unset_ready_message(&mut s, t), Err(QueryError::InvalidToken)));
    assert!(matches!(send_connect_message(&mut s, t), Err(QueryError::InvalidToken)));
    assert!(matches!(send_connect_confirm_message(&mut s, t), Err(QueryError::InvalidToken)));
    assert!(matches!(send_pop_game_packet_message(&mut s, t), Err(QueryError::InvalidToken)));
    assert!(matches!(
        send_check_all_clients_connected_message(&mut s, t),
        Err(QueryError::InvalidToken)
    ));
    let p = Packet::new(0, 1, 2, 0, 1, PacketMessage::GameStartResponse);
    assert!(matches!(send_push_game_packet_message(&mut s, t, p), Err(QueryError::InvalidToken)));
    assert_eq!(s.clients.len(), 1);
}

#[test]
fn unknown_client_is_not_found() {
    let mut s = server();
    let (id, token) = login(&mut s, "fi");
    assert!(matches!(
        send_get_client_message(&mut s, &token, id.wrapping_add(1)),
        Err(QueryError::ClientNotFound)
    ));
}

#[test]
fn server_info_lists_every_client() {
    let mut s = server();
    let (_, token) = login(&mut s, "gu");
    login(&mut s, "ha");
    let info = send_info_message(&mut s, &token).ok().unwrap();
    assert_eq!(info.name, "A test server");
    assert_eq!(info.max_clients, 8);
    let names: Vec<&str> = info.clients.iter().map(|c| c.name.as_str()).collect();
    assert_eq!(names, vec!["gu", "ha"]);
}

#[test]
fn connect_waits_for_everybody_ready() {
    let mut s = server();
    let (_, t1) = login(&mut s, "io");
    assert!(matches!(send_connect_message(&mut s, &t1), Err(QueryError::NotAllClientsReady)));
    let (_, t2) = login(&mut s, "ju");
    assert_eq!(send_set_ready_message(&mut s, &t1).ok(), Some(true));
    assert!(matches!(send_connect_message(&mut s, &t1), Err(QueryError::NotAllClientsReady)));
    assert_eq!(send_set_ready_message(&mut s, &t2).ok(), Some(true));
    let ci = send_connect_message(&mut s, &t2).ok().unwrap();
    assert_eq!(ci.address, "");
    assert_eq!(ci.port, 0);
    assert_eq!(send_unset_ready_message(&mut s, &t2).ok(), Some(true));
    assert!(matches!(send_connect_message(&mut s, &t1), Err(QueryError::NotAllClientsReady)));
}

#[test]
fn connect_confirmation_tells_everybody() {
    let mut s = server();
    let (id1, t1) = login(&mut s, "ka");
    let (_, t2) = login(&mut s, "lu");
    send_set_ready_message(&mut s, &t1).unwrap();
    send_set_ready_message(&mut s, &t2).unwrap();
    assert!(send_connect_confirm_message(&mut s, &t1).is_ok());
    assert_eq!(send_check_all_clients_connected_message(&mut s, &t1).ok(), Some(false));
    let p = send_pop_game_packet_message(&mut s, &t2).ok().unwrap().unwrap();
    assert_eq!(p.source_client, 0);
    assert_eq!(p.message_id, 1);
    assert!(matches!(p.message, PacketMessage::StartResponse(x, false) if x == id1));
    assert!(send_connect_confirm_message(&mut s, &t2).is_ok());
    assert_eq!(send_check_all_clients_connected_message(&mut s, &t2).ok(), Some(true));
    let p = send_pop_game_packet_message(&mut s, &t1).ok().unwrap().unwrap();
    assert!(matches!(p.message, PacketMessage::StartResponse(x, false) if x == id1));
    let p = send_pop_game_packet_message(&mut s, &t1).ok().unwrap().unwrap();
    assert!(matches!(p.message, PacketMessage::StartResponse(_, true)));
}

#[test]
fn ready_state_cannot_change_once_connected() {
    let mut s = server();
    let (_, t1) = login(&mut s, "mo");
    send_set_ready_message(&mut s, &t1).unwrap();
    send_connect_confirm_message(&mut s, &t1).unwrap();
    assert_eq!(send_set_ready_message(&mut s, &t1).ok(), Some(false));
    assert_eq!(send_unset_ready_message(&mut s, &t1).ok(), Some(false));
}

#[test]
fn packets_go_to_their_destination() {
    let mut s = server();
    let (id1, t1) = login(&mut s, "na");
    let (id2, t2) = login(&mut s, "ol");
    let p = Packet::new(3, id1, id2, 9, 4, PacketMessage::StartResponse(id1, true));
    assert_eq!(send_push_game_packet_message(&mut s, &t1, p).ok(), Some(true));
    let got = send_pop_game_packet_message(&mut s, &t2).ok().unwrap().unwrap();
    assert_eq!(got.tick, 3);
    assert_eq!(got.message_id, 4);
    assert!(send_pop_game_packet_message(&mut s, &t1).ok().unwrap().is_none());
}

#[test]
fn packet_to_oneself_is_refused() {
    let mut s = server();
    let (id1, t1) = login(&mut s, "pi");
    let p = Packet::new(0, id1, id1, 0, 1, PacketMessage::GameStartResponse);
    assert_eq!(send_push_game_packet_message(&mut s, &t1, p).ok(), Some(false));
    assert!(send_pop_game_packet_message(&mut s, &t1).ok().unwrap().is_none());
}

#[test]
fn loading_request_needs_a_connected_client() {
    let mut s = server();
    let (id1, t1) = login(&mut s, "qu");
    let (_, t2) = login(&mut s, "ra");
    let p = Packet::new(0, id1, 0, 0, 1, PacketMessage::LoadingRequest(10));
    assert_eq!(send_push_game_packet_message(&mut s, &t1, p).ok(), Some(false));
    assert!(send_pop_game_packet_message(&mut s, &t2).ok().unwrap().is_none());
}

#[test]
fn process_request_answers_each_kind() {
    let mut s = server();
    let r = process_request(&mut s, FRequestMessage::Login("sa".to_string()));
    let token = match r {
        FResponseMessage::Login(Ok(lr)) => lr.token,
        _ => panic!("login must succeed"),
    };
    match process_request(&mut s, FRequestMessage::GetClientCount) {
        FResponseMessage::GetClientCount(n) => assert_eq!(n, 1),
        _ => panic!("wrong answer"),
    }
    match process_request(&mut s, FRequestMessage::ValidateLogin(LoginInfo { token: token.clone() })) {
        FResponseMessage::ValidateLogin(Ok(lr)) => assert_eq!(lr.name, "sa"),
        _ => panic!("wrong answer"),
    }
    match process_request(&mut s, FRequestMessage::CheckAllClientsConnected("x".to_string())) {
        FResponseMessage::CheckAllClientsConnected(b) => assert!(!b),
        _ => panic!("wrong answer"),
    }
    match process_request(&mut s, FRequestMessage::ReceiveMessages(token.clone())) {
        FResponseMessage::ReceiveMessages(m) => assert!(m.is_empty()),
        _ => panic!("wrong answer"),
    }
    let id = s.clients[0].id();
    match process_request(
        &mut s,
        FRequestMessage::SendMessage(token.clone(), ChatReceiver::Client(id), "hi".to_string()),
    ) {
        FResponseMessage::SendMessage => {},
        _ => panic!("wrong answer"),
    }
    match process_request(&mut s, FRequestMessage::LogOff("x".to_string())) {
        FResponseMessage::LogOff(r) => assert!(r.is_none()),
        _ => panic!("wrong answer"),
    }
    match process_request(&mut s, FRequestMessage::LogOff(token)) {
        FResponseMessage::LogOff(r) => assert_eq!(r, Some(id)),
        _ => panic!("wrong answer"),
    }
    assert!(s.clients.is_empty());
}
