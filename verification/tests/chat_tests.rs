use std::collections::HashMap;
use std::collections::VecDeque;

use familyline_server::chat::{
    build_websocket_message, handle_chat_conversation, parse_websocket_message, push_message,
    send_pending_chat_messages, ChatMessage,
};
use familyline_server::server::ServerInfo;
use familyline_server::state::ServerState;

fn state() -> ServerState {
    ServerState {
        info: ServerInfo::new("test", "a test server", 4, "pw"),
        chats: HashMap::new(),
    }
}

fn message(sender: usize, text: &str) -> ChatMessage {
    ChatMessage { tick: 0, sender, timestamp: 10, message: text.to_string() }
}

fn mask_built(data: &str, key: [u8; 4]) -> Vec<u8> {
    let f = build_websocket_message(data);
    let h = f.len() - data.len();
    let mut v = vec![f[0], f[1] | 0x80];
    v.extend_from_slice(&f[2..h]);
    v.extend_from_slice(&key);
    for (i, b) in f[h..].iter().enumerate() {
        v.push(b ^ key[i % 4]);
    }
    v
}

fn masked(payload: &[u8], mask: [u8; 4]) -> Vec<u8> {
    let mut v = vec![0x81u8, 0x80 | payload.len() as u8];
    v.extend_from_slice(&mask);
    for (i, b) in payload.iter().enumerate() {
        v.push(b ^ mask[i % 4]);
    }
    v
}

fn list_json(v: &Vec<ChatMessage>) -> String {
    let parts: Vec<String> = v.iter().map(|m| format!("{}:{}", m.sender, m.message)).collect();
    format!("[{}]", parts.join(","))
}

fn read_message(s: &str) -> Option<ChatMessage> {
    let (sender, text) = s.split_once(':')?;
    Some(message(sender.parse().ok()?, text))
}

#[test]
fn short_frame() {
    assert_eq!(build_websocket_message("hi"), vec![0x81, 2, b'h', b'i']);
    assert_eq!(build_websocket_message(""), vec![0x81, 0]);
}

#[test]
fn frame_of_126_bytes_uses_the_16_bit_length() {
    let data = "a".repeat(126);
    let mut expected = vec![0x81u8, 126, 0, 126];
    expected.extend_from_slice(data.as_bytes());
    assert_eq!(build_websocket_message(&data), expected);
}

#[test]
fn frame_of_200_bytes() {
    let data = "b".repeat(200);
    let f = build_websocket_message(&data);
    assert_eq!(&f[..4], &[0x81u8, 126, 0, 200]);
    assert_eq!(f.len(), 204);
}

#[test]
fn frame_of_70000_bytes_uses_the_32_bit_length() {
    let data = "c".repeat(70000);
    let f = build_websocket_message(&data);
    assert_eq!(&f[..10], &[0x81u8, 127, 0, 0, 0, 0, 0, 1, 0x11, 0x70]);
    assert_eq!(f.len(), 70010);
}

#[test]
fn frame_length_counts_bytes() {
    assert_eq!(build_websocket_message("é"), vec![0x81, 2, 0xc3, 0xa9]);
}

#[test]
fn masked_text_frame_is_read() {
    let f = masked(b"hello", [1, 2, 3, 4]);
    assert_eq!(f[6], 105);
    assert_eq!(parse_websocket_message(&f), Some("hello".to_string()));
}

#[test]
fn unmasked_and_binary_frames_are_refused() {
    assert_eq!(parse_websocket_message(&vec![0x81, 2, b'h', b'i']), None);
    assert_eq!(parse_websocket_message(&vec![0x82]), None);
    assert_eq!(parse_websocket_message(&build_websocket_message("own frame")), None);
}

#[test]
fn announced_length_limits_the_text() {
    let f = vec![0x81u8, 0x82, 0, 0, 0, 0, b'a', b'b', b'c'];
    assert_eq!(parse_websocket_message(&f), Some("ab".to_string()));
    let g = vec![0x81u8, 0x85, 0, 0, 0, 0, b'a'];
    assert_eq!(parse_websocket_message(&g), Some("a".to_string()));
}

#[test]
fn extended_length_frame() {
    let f = vec![0x81u8, 0x80 | 126, 0, 3, 0, 0, 0, 0, b'x', b'y', b'z', b'w'];
    assert_eq!(parse_websocket_message(&f), Some("xyz".to_string()));
}

#[test]
fn invalid_utf8_is_refused() {
    let f = vec![0x81u8, 0x81, 0, 0, 0, 0, 0xff];
    assert_eq!(parse_websocket_message(&f), None);
}

#[test]
fn pushing_creates_and_extends_queues() {
    let mut s = state();
    push_message(&mut s, &message(1, "a"), 3);
    push_message(&mut s, &message(2, "b"), 3);
    push_message(&mut s, &message(1, "c"), 4);
    let q3: Vec<&str> = s.chats[&3].iter().map(|m| m.message.as_str()).collect();
    assert_eq!(q3, vec!["a", "b"]);
    assert_eq!(s.chats[&4].len(), 1);
}

#[test]
fn pending_messages_are_the_clients_own() {
    let mut s = state();
    let mut q = VecDeque::new();
    q.push_back(message(7, "one"));
    q.push_back(message(8, "other"));
    q.push_back(message(7, "two"));
    s.chats.insert(7, q);
    let answer = send_pending_chat_messages(&mut s, 7, list_json);
    assert_eq!(answer, build_websocket_message("[7:one,7:two]"));
    let left: Vec<&str> = s.chats[&7].iter().map(|m| m.message.as_str()).collect();
    assert_eq!(left, vec!["other"]);
}

#[test]
fn no_pending_messages_no_frame() {
    let mut s = state();
    assert_eq!(send_pending_chat_messages(&mut s, 5, list_json), Vec::<u8>::new());
    assert!(s.chats.is_empty());
    let mut q = VecDeque::new();
    q.push_back(message(8, "other"));
    s.chats.insert(5, q);
    assert_eq!(send_pending_chat_messages(&mut s, 5, list_json), Vec::<u8>::new());
    assert_eq!(s.chats[&5].len(), 1);
}

#[test]
fn conversation_answers_own_message() {
    let mut s = state();
    let frame = masked(b"7:hey", [9, 8, 7, 6]);
    let answer = handle_chat_conversation(&mut s, &frame, 7, read_message, list_json);
    assert_eq!(answer, build_websocket_message("[7:hey]"));
    assert!(s.chats[&7].is_empty());
}

#[test]
fn conversation_keeps_messages_of_others() {
    let mut s = state();
    let frame = masked(b"8:hello", [0, 0, 0, 0]);
    let answer = handle_chat_conversation(&mut s, &frame, 7, read_message, list_json);
    assert!(answer.is_empty());
    assert_eq!(s.chats[&7].len(), 1);
    assert_eq!(s.chats[&7][0].sender, 8);
}

#[test]
fn unreadable_message_gets_error() {
    let mut s = state();
    let frame = masked(b"garbage", [1, 1, 1, 1]);
    let answer = handle_chat_conversation(&mut s, &frame, 7, read_message, list_json);
    assert_eq!(answer, vec![0x81, 5, b'E', b'R', b'R', b'O', b'R']);
    assert!(s.chats.is_empty());
    let unmasked = vec![0x81u8, 1, b'x'];
    let answer = handle_chat_conversation(&mut s, &unmasked, 7, read_message, list_json);
    assert_eq!(answer, build_websocket_message("ERROR"));
}

#[test]
fn built_frames_read_back_once_masked() {
    for n in [0usize, 5, 125, 126, 256, 65535, 65536, 70000] {
        let data = "x".repeat(n);
        let frame = mask_built(&data, [7, 1, 200, 33]);
        assert_eq!(parse_websocket_message(&frame), Some(data));
    }
    let text = "héllo wörld";
    assert_eq!(parse_websocket_message(&mask_built(text, [1, 2, 3, 4])), Some(text.to_string()));
}

#[test]
fn short_frames_read_as_nothing() {
    assert_eq!(parse_websocket_message(&Vec::new()), None);
    assert_eq!(parse_websocket_message(&vec![0x81]), None);
    assert_eq!(parse_websocket_message(&vec![0x81, 0x85, 1, 2]), None);
    assert_eq!(parse_websocket_message(&vec![0x81, 0x80 | 126, 0, 1, 0, 0, 0]), None);
    assert_eq!(parse_websocket_message(&vec![0x81, 0x80 | 127, 0, 0, 0, 0, 0, 0, 0, 1, 0, 0, 0]), None);
}
