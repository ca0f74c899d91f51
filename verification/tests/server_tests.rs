use flatbuffers::{FlatBufferBuilder, Follow, ForwardsUOffset, Table};

use familyline_server::clock::{format_rfc2616_date, unix_timestamp, UtcInstant};
use familyline_server::flatbuf::new_builder;

use familyline_server::api::{
    login_failure_reply, query_error_reply, ready_change_reply, AuthBody, ChatMessageBody, ChatSession,
};
use familyline_server::broadcast::{
    create_discovery_response, parse_discover_message, send_multiple_outcome, DiscoveryResponse,
};
use familyline_server::config::ServerConfiguration;
use familyline_server::input::{
    create_command_input, create_command_input_a, create_object_move, create_select_action,
    create_select_action_objects, CommandInputAArgs, CommandInputArgs, ObjectMoveArgs,
    SelectActionArgs, SelectActionObjectsArgs,
};
use familyline_server::messages::QueryError;
use familyline_server::network::{
    create_start_response, create_string, create_vector_u64, enum_name_message, message_to_u8, Message, NetPacketArgs,
    StartRequestArgs, StartResponseArgs,
};
use familyline_server::server::{Client, GameStatus, ServerDiscoveryInfo, ServerInfo};

#[test]
fn configuration() {
    let c = ServerConfiguration::load();
    assert_eq!(c.port, 8100);
    assert_eq!(c.name, "A test server");
    assert_eq!(c.max_clients, 6);
}

#[test]
fn server_info_clients() {
    let mut s = ServerInfo::new("n", "d", 2, "secret");
    assert!(!s.is_client_list_full());
    s.add_client(Client { id: 1, name: "a".to_string() });
    s.add_client(Client { id: 2, name: "b".to_string() });
    s.add_client(Client { id: 1, name: "c".to_string() });
    assert!(s.is_client_list_full());
    s.remove_client(1);
    let names: Vec<&str> = s.get_clients().iter().map(|c| c.name.as_str()).collect();
    assert_eq!(names, vec!["b"]);
    s.update_client(0, Client { id: 5, name: "e".to_string() });
    assert_eq!(s.get_clients()[0].id(), 5);
    assert!(!s.is_client_list_full());
}

#[test]
fn add_then_remove_leaves_the_others() {
    let mut s = ServerInfo::new("n", "d", 8, "");
    s.add_client(Client { id: 1, name: "a".to_string() });
    s.add_client(Client { id: 2, name: "b".to_string() });
    s.remove_client(2);
    let ids: Vec<usize> = s.get_clients().iter().map(|c| c.id).collect();
    assert_eq!(ids, vec![1]);
}

#[test]
fn passwords() {
    let s = ServerInfo::new("n", "d", 2, "secret");
    assert!(s.check_password("secret"));
    assert!(!s.check_password("Secret"));
    assert!(!s.check_password(""));
}

#[test]
fn discovery_info_of_a_server() {
    let mut s = ServerInfo::new("name", "desc", 3, "p");
    s.add_client(Client { id: 1, name: "a".to_string() });
    let d = ServerDiscoveryInfo::from(&s);
    assert_eq!(d.name, "name");
    assert_eq!(d.version, "0.1.99");
    assert_eq!(d.description, "desc");
    assert_eq!(d.client_count, 1);
    assert_eq!(d.max_clients, 3);
    assert!(d.status == GameStatus::InLobby);
}

#[test]
fn discovery_response_of_the_configuration() {
    let r = create_discovery_response(&ServerConfiguration::load(), 3);
    assert_eq!(r.name, "A test server");
    assert_eq!(r.port, 8100);
    assert_eq!(r.max_clients, 6);
    assert_eq!(r.num_clients, 3);
}

#[test]
fn discovery_answer_names_the_port() {
    let sres = DiscoveryResponse { name: "x".to_string(), port: 9001, max_clients: 2, num_clients: 0 };
    let msg = "M-SEARCH * HTTP/1.1\r\nMAN: \"ssdp:discover\"\r\nST: game_server:familyline1\r\n\r\n";
    let r = parse_discover_message(msg.to_string(), &sres, |s: &DiscoveryResponse| s.name.clone()).unwrap();
    assert!(r.contains(":9001\r\nContent-Length: 1\r\n"));
    assert!(r.ends_with("\r\n\r\nx"));
    let bad = parse_discover_message("MAN: \"ssdp:discover\"".to_string(), &sres, |s: &DiscoveryResponse| s.name.clone());
    assert!(bad.is_none());
}

#[test]
fn repeated_sends() {
    assert_eq!(send_multiple_outcome(&vec![Ok(3), Ok(5), Ok(4)]), Ok(5));
    assert_eq!(send_multiple_outcome(&vec![Ok(1)]), Ok(1));
    assert_eq!(send_multiple_outcome(&vec![Ok(3), Err(11), Err(12)]), Err(11));
    assert_eq!(send_multiple_outcome(&vec![Err(4), Ok(9)]), Err(4));
    assert_eq!(send_multiple_outcome(&vec![Ok(0), Ok(0)]), Ok(0));
}

#[test]
fn api_replies() {
    let (code, body) = query_error_reply(QueryError::InvalidToken);
    assert_eq!((code, body.message.as_str()), (401, "Invalid token"));
    let (code, body) = query_error_reply(QueryError::ClientNotFound);
    assert_eq!((code, body.message.as_str()), (404, "Client not found"));
    let (code, body) = login_failure_reply();
    assert_eq!((code, body.message.as_str()), (400, "Login failure"));
    let (code, body) = ready_change_reply(true);
    assert_eq!((code, body.message.as_str()), (200, ""));
    let (code, body) = ready_change_reply(false);
    assert_eq!((code, body.message.as_str()), (500, "Invalid state change"));
}

#[test]
fn message_kinds() {
    assert_eq!(enum_name_message(Message::NONE), "NONE");
    assert_eq!(enum_name_message(Message::lres), "lres");
    assert_eq!(enum_name_message(Message::gres), "gres");
    assert_eq!(message_to_u8(Message::sreq), 1);
    assert_eq!(message_to_u8(Message::gres), 6);
}

#[test]
fn tables_written_with_the_builder() {
    let mut b = new_builder();
    let off = create_start_response(&mut b, &StartResponseArgs { client_ack: 12, all_clients_ack: true });
    b.finish(flatbuffers::WIPOffset::<flatbuffers::TableFinishedWIPOffset>::new(off), None);
    let t = <ForwardsUOffset<Table>>::follow(b.finished_data(), 0);
    assert_eq!(t.get::<u64>(4, Some(0)), Some(12));
    assert_eq!(t.get::<bool>(6, Some(false)), Some(true));

    let mut b = FlatBufferBuilder::new();
    let args = ObjectMoveArgs { x_pos: 3, ..ObjectMoveArgs::default() };
    let off = create_object_move(&mut b, &args);
    b.finish(flatbuffers::WIPOffset::<flatbuffers::TableFinishedWIPOffset>::new(off), None);
    let t = <ForwardsUOffset<Table>>::follow(b.finished_data(), 0);
    assert_eq!(t.get::<u32>(4, Some(0)), Some(3));
    assert_eq!(t.get::<u32>(6, Some(0)), Some(0));
}

#[test]
fn chat_session_authenticates_first() {
    let body = || ChatMessageBody { receiver: "all".to_string(), content: "hi".to_string() };
    let mut s = ChatSession::new();
    assert!(!s.is_authenticated());
    assert!(s.receive(None, Some(body())).is_none());
    assert!(!s.is_authenticated());
    assert!(s.receive(Some(AuthBody { token: "tk".to_string() }), Some(body())).is_none());
    assert!(s.is_authenticated());
    let (b, t) = s.receive(None, Some(body())).unwrap();
    assert_eq!((b.content.as_str(), t.as_str()), ("hi", "tk"));
    assert!(s.receive(Some(AuthBody { token: "other".to_string() }), None).is_none());
    let (_, t) = s.receive(None, Some(body())).unwrap();
    assert_eq!(t, "tk");
}

#[test]
fn table_argument_defaults() {
    let n = NetPacketArgs::default();
    assert_eq!((n.tick, n.source_client, n.dest_client, n.timestamp, n.id), (0, 0, 0, 0, 0));
    assert!(n.message_type == Message::NONE);
    assert!(n.message.is_none());
    let s = StartRequestArgs::default();
    assert_eq!((s.client_id, s.token), (0, None));
    let r = StartResponseArgs::default();
    assert_eq!((r.client_ack, r.all_clients_ack), (0, false));
    let o = ObjectMoveArgs::default();
    assert_eq!((o.x_pos, o.y_pos), (0, 0));
}

#[test]
fn rfc2616_dates() {
    let d = format_rfc2616_date(UtcInstant { secs: 784111777, nanos: 0 });
    assert_eq!(d, "Sun, 06 Nov 1994 08:49:37 GMT");
    assert_eq!(format_rfc2616_date(UtcInstant { secs: 0, nanos: 5 }), "Thu, 01 Jan 1970 00:00:00 GMT");
    assert_eq!(format_rfc2616_date(UtcInstant { secs: i64::MAX, nanos: 0 }), "");
    assert!(unix_timestamp() > 1_600_000_000);
}

#[test]
fn input_tables_written_with_the_builder() {
    use_input_tables();
}

fn use_input_tables() {
    let mut b = new_builder();
    let v = create_vector_u64(&mut b, &[7, 8, 9]);
    let objs = create_select_action_objects(&mut b, &SelectActionObjectsArgs { values: Some(v) });
    let sa = create_select_action(&mut b, &SelectActionArgs { objects: Some(objs) });
    b.finish(flatbuffers::WIPOffset::<flatbuffers::TableFinishedWIPOffset>::new(sa), None);
    let t = <ForwardsUOffset<Table>>::follow(b.finished_data(), 0);
    let o = t.get::<ForwardsUOffset<Table>>(4, None).unwrap();
    let ids = o.get::<ForwardsUOffset<flatbuffers::Vector<u64>>>(4, None).unwrap();
    assert_eq!(ids.iter().collect::<Vec<u64>>(), vec![7, 8, 9]);

    let mut c = new_builder();
    let name = create_string(&mut c, "build");
    let args = create_vector_u64(&mut c, &[1, 2]);
    let a = create_command_input_a(&mut c, &CommandInputAArgs { args: Some(args) });
    let ci = create_command_input(&mut c, &CommandInputArgs { command: Some(name), args: Some(a) });
    c.finish(flatbuffers::WIPOffset::<flatbuffers::TableFinishedWIPOffset>::new(ci), None);
    let t = <ForwardsUOffset<Table>>::follow(c.finished_data(), 0);
    assert_eq!(t.get::<ForwardsUOffset<&str>>(4, None), Some("build"));
    let inner = t.get::<ForwardsUOffset<Table>>(6, None).unwrap();
    let nums = inner.get::<ForwardsUOffset<flatbuffers::Vector<u64>>>(4, None).unwrap();
    assert_eq!(nums.iter().collect::<Vec<u64>>(), vec![1, 2]);
    let d = CommandInputArgs::default();
    assert!(d.command.is_none() && d.args.is_none());
}
