use flatbuffers::{Follow, ForwardsUOffset, Table};

use familyline_server::client::{FClient, FServer};
use familyline_server::config::ServerConfiguration;
use familyline_server::gamemsg::{
    create_packet, decode_packet, handle_packet, identification_token,
    InputType, Packet, PacketHandling, PacketMessage,
};
use familyline_server::crc::checksum;
use familyline_server::network::{NetMessage, NetPacket};
use familyline_server::packet_reader::read_net_packet;

fn net_packet(message: NetMessage) -> NetPacket {
    NetPacket { tick: 1, source_client: 2, dest_client: 3, timestamp: 4, id: 5, message }
}

fn frame(sum: u8, psize: u8, total: usize) -> Vec<u8> {
    let mut v = vec![b'F', b'A', b'M', b'I', 0, 0, 0, 0, sum, 0, 0, 0, psize, 0, 0, 0];
    v.resize(total, 0xaa);
    v
}

fn reference_crc32(bytes: &[u8]) -> u32 {
    let mut c: u32 = 0xffff_ffff;
    for b in bytes {
        c ^= *b as u32;
        for _ in 0..8 {
            c = if c & 1 == 1 { (c >> 1) ^ 0xedb8_8320 } else { c >> 1 };
        }
    }
    !c
}

#[test]
fn checksum_of_the_standard_check_string() {
    assert_eq!(checksum(b"123456789"), 0xcbf4_3926);
    assert_eq!(checksum(b""), 0);
    assert_eq!(checksum(b"a"), reference_crc32(b"a"));
}

#[test]
fn packet_frame_header_and_payload() {
    let p = Packet::new(7, 1, 2, 99, 3, PacketMessage::LoadingRequest(42));
    let f = create_packet(p);
    assert_eq!(&f[..4], b"FAMI");
    assert_eq!(&f[4..8], &[0u8; 4]);
    let psize = f.len() - 16;
    assert_eq!(u32::from_le_bytes([f[12], f[13], f[14], f[15]]) as usize, psize);
    let mut zeroed = f.clone();
    zeroed[8..12].copy_from_slice(&[0, 0, 0, 0]);
    assert_eq!(u32::from_le_bytes([f[8], f[9], f[10], f[11]]), reference_crc32(&zeroed));
    let payload = &f[16..];
    let root = <ForwardsUOffset<Table>>::follow(payload, 0);
    assert_eq!(root.get::<u64>(4, Some(0)), Some(7));
    assert_eq!(root.get::<u64>(6, Some(0)), Some(1));
    assert_eq!(root.get::<u64>(8, Some(0)), Some(2));
    assert_eq!(root.get::<u64>(10, Some(0)), Some(99));
    assert_eq!(root.get::<u64>(12, Some(0)), Some(3));
    assert_eq!(root.get::<u8>(14, Some(0)), Some(3));
    let message = root.get::<ForwardsUOffset<Table>>(16, None).unwrap();
    assert_eq!(message.get::<u16>(4, Some(0)), Some(42));
}

#[test]
fn start_request_carries_the_token() {
    let p = Packet::new(0, 8, 0, 0, 1, PacketMessage::StartRequest(8, "tok".to_string()));
    assert!(p.is_encodable());
    let f = create_packet(p);
    let root = <ForwardsUOffset<Table>>::follow(&f[16..], 0);
    assert_eq!(root.get::<u8>(14, Some(0)), Some(1));
    let message = root.get::<ForwardsUOffset<Table>>(16, None).unwrap();
    assert_eq!(message.get::<u64>(4, Some(0)), Some(8));
    assert_eq!(message.get::<ForwardsUOffset<&str>>(6, None), Some("tok"));
}

#[test]
fn encodable_messages() {
    assert!(Packet::new(0, 0, 0, 0, 0, PacketMessage::GameStartResponse).is_encodable());
    assert!(!Packet::new(0, 0, 0, 0, 0, PacketMessage::Invalid).is_encodable());
    assert!(!Packet::new(0, 0, 0, 0, 0, PacketMessage::DisconnectRequest(1)).is_encodable());
    let input = PacketMessage::SendInputRequest(1, InputType::ObjectMove(2, 3));
    assert!(!Packet::new(0, 0, 0, 0, 0, input).is_encodable());
}

#[test]
fn created_frames_decode_back() {
    let f = create_packet(Packet::new(4, 1, 2, 3, 9, PacketMessage::LoadingRequest(77)));
    let p = decode_packet(&f).unwrap();
    assert_eq!((p.tick, p.source_client, p.dest_client, p.timestamp, p.message_id), (4, 1, 2, 3, 9));
    assert!(matches!(p.message, PacketMessage::LoadingRequest(77)));
    let g = create_packet(Packet::new(0, 5, 0, 0, 1, PacketMessage::GameStartRequest));
    assert!(matches!(decode_packet(&g).unwrap().message, PacketMessage::GameStartRequest));
    let h = create_packet(Packet::new(0, 5, 0, 0, 1, PacketMessage::StartRequest(5, "tok".to_string())));
    assert!(matches!(decode_packet(&h).unwrap().message, PacketMessage::StartRequest(5, ref t) if t == "tok"));
    let k = create_packet(Packet::new(0, 0, 5, 0, 1, PacketMessage::StartResponse(7, true)));
    assert!(matches!(decode_packet(&k).unwrap().message, PacketMessage::StartResponse(7, true)));
    let l = create_packet(Packet::new(0, 0, 5, 0, 1, PacketMessage::LoadingResponse(100)));
    assert!(matches!(decode_packet(&l).unwrap().message, PacketMessage::LoadingResponse(100)));
    let m = create_packet(Packet::new(0, 0, 5, 0, 1, PacketMessage::GameStartResponse));
    assert!(matches!(decode_packet(&m).unwrap().message, PacketMessage::GameStartResponse));
}

#[test]
fn payload_ends_where_its_size_says() {
    let f = create_packet(Packet::new(4, 1, 2, 3, 9, PacketMessage::LoadingResponse(5)));
    let mut longer = f.clone();
    longer.extend_from_slice(&[0xaa; 20]);
    let p = decode_packet(&longer).unwrap();
    assert!(matches!(p.message, PacketMessage::LoadingResponse(5)));
    let shorter = &f[..f.len() - 1];
    assert!(decode_packet(shorter).is_none());
}

#[test]
fn malformed_payloads_read_as_nothing() {
    assert!(decode_packet(&frame(1, 24, 40)).is_none());
    assert!(read_net_packet(&[]).is_none());
    assert!(read_net_packet(&[8, 0, 0, 0]).is_none());
    let f = create_packet(Packet::new(4, 1, 2, 3, 9, PacketMessage::LoadingResponse(5)));
    let payload = f[16..].to_vec();
    let good = read_net_packet(&payload).unwrap();
    assert_eq!((good.tick, good.id), (4, 9));
    for cut in 0..payload.len() {
        let _ = read_net_packet(&payload[..cut]);
    }
    for i in 0..payload.len() {
        let mut bad = payload.clone();
        bad[i] = bad[i].wrapping_add(0x80);
        let _ = read_net_packet(&bad);
    }
}

#[test]
fn decoding_checks_the_header() {
    let good = create_packet(Packet::new(1, 2, 3, 4, 5, PacketMessage::GameStartResponse));
    assert!(decode_packet(&good).is_some());
    assert!(decode_packet(&good[..16]).is_none());
    let mut zero_sum = good.clone();
    zero_sum[8..12].copy_from_slice(&[0, 0, 0, 0]);
    assert!(decode_packet(&zero_sum).is_none());
    let mut bad_magic = good.clone();
    bad_magic[0] = b'f';
    assert!(decode_packet(&bad_magic).is_none());
    let mut flags = good.clone();
    flags[6] = 1;
    assert!(decode_packet(&flags).is_none());
    let mut low_flag = good.clone();
    low_flag[4] = 9;
    assert!(decode_packet(&low_flag).is_none());
    let mut too_long = good.clone();
    let announced = (good.len() - 16 + 1) as u32;
    too_long[12..16].copy_from_slice(&announced.to_le_bytes());
    assert!(decode_packet(&too_long).is_none());
    let empty = vec![0x46u8, 0x41, 0x4D, 0x49, 0, 0, 0, 0, 1, 0, 0, 0, 0, 0, 0, 0, 0];
    assert!(decode_packet(&empty).is_none());
}

#[test]
fn invalid_message_kind_reads_as_invalid() {
    let p = Packet::from_flatbuffers(net_packet(NetMessage::NONE));
    assert!(matches!(p.message, PacketMessage::Invalid));
    let q = Packet::from_flatbuffers(net_packet(NetMessage::sreq { client_id: 4, token: None }));
    assert!(matches!(q.message, PacketMessage::StartRequest(4, ref t) if t.is_empty()));
}

#[test]
fn packet_copies() {
    let p = Packet::new(1, 2, 3, 4, 5, PacketMessage::LoadingRequest(7));
    let q = p.to_new_client(9);
    assert_eq!((q.tick, q.source_client, q.dest_client, q.timestamp, q.message_id), (1, 2, 9, 4, 5));
    let r = p.to_new_message(PacketMessage::GameStartResponse);
    assert_eq!(r.dest_client, 3);
    assert!(matches!(r.message, PacketMessage::GameStartResponse));
    let s = p.make_server_own_at(77);
    assert_eq!((s.source_client, s.timestamp, s.dest_client), (0, 77, 3));
    let t = p.make_server_own();
    assert_eq!(t.source_client, 0);
    assert!(t.timestamp > 1_600_000_000);
}

#[test]
fn identification_by_the_first_packet() {
    let ok = Packet::new(0, 5, 0, 0, 1, PacketMessage::StartRequest(5, "tk".to_string()));
    assert_eq!(identification_token(Some(ok)), Some("tk".to_string()));
    let late = Packet::new(1, 5, 0, 0, 1, PacketMessage::StartRequest(5, "tk".to_string()));
    assert_eq!(identification_token(Some(late)), None);
    let other = Packet::new(0, 6, 0, 0, 1, PacketMessage::StartRequest(5, "tk".to_string()));
    assert_eq!(identification_token(Some(other)), None);
    let wrong = Packet::new(0, 5, 0, 0, 1, PacketMessage::GameStartRequest);
    assert_eq!(identification_token(Some(wrong)), None);
    assert_eq!(identification_token(None), None);
}

fn connected_pair() -> (FServer, u64, String, u64, String) {
    let mut s = FServer::new(&ServerConfiguration::load());
    s.add_client(FClient::new("a".to_string()));
    s.add_client(FClient::new("b".to_string()));
    let (a, b) = (s.clients[0].id(), s.clients[1].id());
    let (ta, tb) = (s.clients[0].token_str().to_string(), s.clients[1].token_str().to_string());
    (s, a, ta, b, tb)
}

#[test]
fn loading_request_is_answered_and_shared() {
    let (mut s, a, ta, b, _) = connected_pair();
    for id in [a, b] {
        s.set_client_ready(id);
        s.set_client_connect(id);
    }
    let p = Packet::new(0, a, 0, 10, 3, PacketMessage::LoadingRequest(30));
    assert_eq!(handle_packet(&mut s, p, &ta), PacketHandling::Handled);
    let own = s.pop_game_packet(a).unwrap();
    assert_eq!((own.source_client, own.dest_client), (0, a));
    assert!(matches!(own.message, PacketMessage::LoadingResponse(30)));
    assert!(s.pop_game_packet(a).is_none());
    let first = s.pop_game_packet(b).unwrap();
    assert!(matches!(first.message, PacketMessage::LoadingRequest(30)));
    assert_eq!(first.dest_client, b);
    let second = s.pop_game_packet(b).unwrap();
    assert!(matches!(second.message, PacketMessage::LoadingResponse(30)));
    assert_eq!(second.source_client, a);
    assert!(s.pop_game_packet(b).is_none());
}

#[test]
fn packets_before_everybody_connected_are_dropped() {
    let (mut s, a, ta, b, _) = connected_pair();
    s.set_client_ready(a);
    s.set_client_connect(a);
    let p = Packet::new(0, a, b, 10, 3, PacketMessage::GameStartResponse);
    assert_eq!(handle_packet(&mut s, p, &ta), PacketHandling::TooEarly);
    assert!(s.pop_game_packet(b).is_none());
}

#[test]
fn refused_and_unknown_packets() {
    let (mut s, a, ta, b, _) = connected_pair();
    for id in [a, b] {
        s.set_client_ready(id);
        s.set_client_connect(id);
    }
    let to_self = Packet::new(0, a, a, 0, 1, PacketMessage::GameStartResponse);
    assert_eq!(handle_packet(&mut s, to_self, &ta), PacketHandling::Refused);
    let input = Packet::new(0, a, b, 0, 1, PacketMessage::SendInputRequest(a, InputType::ObjectMove(1, 2)));
    assert_eq!(handle_packet(&mut s, input, &ta), PacketHandling::Refused);
    let any = Packet::new(0, a, b, 0, 1, PacketMessage::GameStartResponse);
    assert_eq!(handle_packet(&mut s, any, "unknown token"), PacketHandling::UnknownToken);
    assert!(s.pop_game_packet(b).is_none());
}

#[test]
fn game_start_is_answered_when_everybody_asked() {
    let (mut s, a, ta, b, tb) = connected_pair();
    for id in [a, b] {
        s.set_client_ready(id);
        s.set_client_connect(id);
        s.set_client_starting(id);
    }
    let pa = Packet::new(0, a, 0, 10, 3, PacketMessage::GameStartRequest);
    assert_eq!(handle_packet(&mut s, pa, &ta), PacketHandling::Handled);
    assert!(s.pop_game_packet(a).is_none());
    let request = s.pop_game_packet(b).unwrap();
    assert!(matches!(request.message, PacketMessage::GameStartRequest));
    assert!(s.pop_game_packet(b).is_none());
    let pb = Packet::new(0, b, 0, 11, 4, PacketMessage::GameStartRequest);
    assert_eq!(handle_packet(&mut s, pb, &tb), PacketHandling::Handled);
    let own = s.pop_game_packet(b).unwrap();
    assert_eq!((own.source_client, own.dest_client), (0, b));
    assert!(matches!(own.message, PacketMessage::GameStartResponse));
    let first = s.pop_game_packet(a).unwrap();
    assert!(matches!(first.message, PacketMessage::GameStartRequest));
    let second = s.pop_game_packet(a).unwrap();
    assert!(matches!(second.message, PacketMessage::GameStartResponse));
    assert_eq!(second.source_client, b);
}
