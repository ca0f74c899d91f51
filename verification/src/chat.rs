//! The lobby chat: its WebSocket frames and the per-client message queues.
use std::collections::VecDeque;
use vstd::prelude::*;
use vstd::utf8::{decode_utf8, encode_utf8, valid_utf8};

use crate::state::ServerState;
use crate::text::string_from_utf8;

verus! {

broadcast use {vstd::std_specs::vecdeque::group_vec_dequeue_axioms, vstd::std_specs::hash::group_hash_axioms};


/// The 7-bit length field of a masked frame.
pub open spec fn ws_len_field(b: Seq<u8>) -> int {
    b[1] - 128
}

/// Where the masking key of a masked frame starts: after the 64-bit
/// extended length for field 127, after the 16-bit one for field 126, right
/// after the length field otherwise.
pub open spec fn ws_mask_offset(b: Seq<u8>) -> int {
    if ws_len_field(b) == 127 {
        10
    } else if ws_len_field(b) == 126 {
        4
    } else {
        2
    }
}

/// The big-endian number held by `b[i..j]`.
pub open spec fn be_value(b: Seq<u8>, i: int, j: int) -> nat
    decreases j - i,
{
    if j <= i {
        0
    } else {
        (be_value(b, i, j - 1) * 256 + b[j - 1]) as nat
    }
}

/// The message length a masked frame announces: the 64-bit number at bytes
/// 2..10 for field 127, the 16-bit one at bytes 2..4 for field 126, both in
/// network byte order; the field itself otherwise.
pub open spec fn ws_msglen(b: Seq<u8>) -> int {
    if ws_len_field(b) == 127 {
        be_value(b, 2, 10) as int
    } else if ws_len_field(b) == 126 {
        be_value(b, 2, 4) as int
    } else {
        ws_len_field(b)
    }
}

/// The unmasked content of a masked frame: the bytes after the masking key,
/// each XORed with the key byte at its position modulo 4, as many as the
/// frame announces or as there are.
pub open spec fn ws_unmasked(b: Seq<u8>) -> Seq<u8> {
    let co = ws_mask_offset(b) + 4;
    let n = if ws_msglen(b) < b.len() - co {
        ws_msglen(b)
    } else {
        b.len() - co
    };
    Seq::new(n as nat, |i: int| b[co + i] ^ b[ws_mask_offset(b) + i % 4])
}

/// The frames that hold all that `parse_websocket_message` reads: a first
/// byte; a second unless the opcode is 2; and, for a masked frame, the
/// extended length and the masking key.
pub open spec fn ws_readable(b: Seq<u8>) -> bool {
    &&& b.len() >= 1
    &&& b[0] % 16 != 2 ==> b.len() >= 2
    &&& (b[0] % 16 != 2 && b[1] >= 128) ==> b.len() >= ws_mask_offset(b) + 4
}

/// The text of a frame: none for a frame too short to hold its header, a
/// binary frame (opcode 2) or an unmasked one, else the unmasked content
/// when it is valid UTF-8.
pub open spec fn ws_text(b: Seq<u8>) -> Option<Seq<char>> {
    if !ws_readable(b) {
        None
    } else if b[0] % 16 == 2 || b[1] < 128 {
        None
    } else if valid_utf8(ws_unmasked(b)) {
        Some(decode_utf8(ws_unmasked(b)))
    } else {
        None
    }
}

/// The `k` lowest bytes of `n`, most significant first.
pub open spec fn be_bytes(n: nat, k: nat) -> Seq<u8>
    decreases k,
{
    if k == 0 {
        Seq::<u8>::empty()
    } else {
        be_bytes(n / 256, (k - 1) as nat).push((n % 256) as u8)
    }
}

/// The length field and extended length of a frame of `n` bytes, in
/// network byte order: up to 125 bytes the field is the length; up to
/// 65535, field 126 and the length in two bytes; beyond, field 127 and the
/// length in eight bytes.
pub open spec fn ws_length_bytes(n: nat) -> Seq<u8> {
    if n > 65535 {
        seq![127u8] + be_bytes(n, 8)
    } else if n > 125 {
        seq![126u8] + be_bytes(n, 2)
    } else {
        seq![n as u8]
    }
}

/// A final, unmasked text frame carrying `data`.
pub open spec fn ws_frame(data: Seq<u8>) -> Seq<u8> {
    seq![0x81u8] + ws_length_bytes(data.len()) + data
}

/// The frame a client sends for `data`: the text frame of `data` with the
/// mask bit set, the masking key `key` after the length, and each byte of
/// `data` XORed with the key byte at its position modulo 4.
pub open spec fn ws_masked_frame(data: Seq<u8>, key: Seq<u8>) -> Seq<u8> {
    let lb = ws_length_bytes(data.len());
    seq![0x81u8, (lb[0] + 128) as u8] + lb.drop_first() + key + Seq::new(
        data.len(),
        |i: int| data[i] ^ key[i % 4],
    )
}

/// `be_value` reads only the bytes of its range.
proof fn lemma_be_value_range(b: Seq<u8>, i: int, j: int)
    requires
        0 <= i <= j <= b.len(),
    ensures
        be_value(b, i, j) == be_value(b.subrange(i, j), 0, j - i),
    decreases j - i,
{
    if i < j {
        lemma_be_value_range(b, i, j - 1);
        lemma_be_value_prefix(b.subrange(i, j), j - 1 - i);
        assert(b.subrange(i, j).subrange(0, j - 1 - i) =~= b.subrange(i, j - 1));
        lemma_be_value_range(b.subrange(i, j), 0, j - 1 - i);
        assert(b.subrange(i, j - 1).subrange(0, j - 1 - i) =~= b.subrange(i, j - 1));
    }
}

/// `be_value` of a prefix reads the same as on the prefix alone.
proof fn lemma_be_value_prefix(b: Seq<u8>, j: int)
    requires
        0 <= j <= b.len(),
    ensures
        be_value(b, 0, j) == be_value(b.subrange(0, j), 0, j),
    decreases j,
{
    if j > 0 {
        lemma_be_value_prefix(b, j - 1);
        lemma_be_value_prefix(b.subrange(0, j), j - 1);
        assert(b.subrange(0, j).subrange(0, j - 1) =~= b.subrange(0, j - 1));
    }
}

/// `be_bytes` writes the low bytes of `n` so that `be_value` reads them
/// back.
proof fn lemma_be_bytes(n: nat, k: nat)
    ensures
        be_bytes(n, k).len() == k,
        be_value(be_bytes(n, k), 0, k as int) == n % pow256(k),
    decreases k,
{
    if k > 0 {
        let km = (k - 1) as nat;
        lemma_be_bytes(n / 256, km);
        let x = be_bytes(n / 256, km);
        let y = be_bytes(n, k);
        assert(y == x.push((n % 256) as u8));
        lemma_be_value_prefix(y, km as int);
        assert(y.subrange(0, km as int) =~= x);
        lemma_be_value_prefix(x, km as int);
        assert(x.subrange(0, km as int) =~= x);
        assert(be_value(y, 0, k as int) == be_value(y, 0, km as int) * 256 + y[km as int]);
        assert(pow256(k) == 256 * pow256(km));
        lemma_pow256_mono(0, km);
        assert(pow256(0) == 1);
        vstd::arithmetic::div_mod::lemma_mod_breakdown(n as int, 256, pow256(km) as int);
    } else {
        assert(pow256(0) == 1);
    }
}

/// XORing a byte twice with the same key gives it back.
proof fn lemma_xor_twice(a: u8, k: u8)
    ensures
        (a ^ k) ^ k == a,
{
    assert((a ^ k) ^ k == a) by (bit_vector);
}

/// A client's masked frame of a text reads back as that text: the length
/// it announces is the text's, and unmasking gives the text's bytes.
pub proof fn lemma_masked_frame_reads_back(s: Seq<char>, key: Seq<u8>)
    requires
        key.len() == 4,
        encode_utf8(s).len() < 0x1_0000_0000_0000_0000,
    ensures
        ws_text(ws_masked_frame(encode_utf8(s), key)) == Some(s),
{
    let d = encode_utf8(s);
    let n = d.len();
    let lb = ws_length_bytes(n);
    let f = ws_masked_frame(d, key);
    let m: int = lb.len() - 1;
    reveal_with_fuel(pow256, 9);
    if n > 65535 {
        lemma_be_bytes(n, 8);
    } else if n > 125 {
        lemma_be_bytes(n, 2);
    }
    assert(lb[0] <= 127);
    assert(f[1] == lb[0] + 128);
    assert(ws_len_field(f) == lb[0]);
    assert(ws_mask_offset(f) == 2 + m);
    assert(f.subrange(2, 2 + m) =~= lb.drop_first());
    if m > 0 {
        lemma_be_value_range(f, 2, 2 + m);
        assert(lb.drop_first() =~= be_bytes(n, m as nat));
        assert(be_value(f, 2, 2 + m) == n % pow256(m as nat));
        if n > 65535 {
            assert(m == 8);
            assert(pow256(8) == 0x1_0000_0000_0000_0000);
        } else {
            assert(m == 2);
            assert(pow256(2) == 65536);
        }
        assert(n < pow256(m as nat));
        vstd::arithmetic::div_mod::lemma_small_mod(n, pow256(m as nat));
    }
    assert(ws_msglen(f) == n);
    let co = 2 + m + 4;
    assert(f.len() == co + n);
    assert forall|i: int| 0 <= i < n implies #[trigger] ws_unmasked(f)[i] == d[i] by {
        assert(f[co + i] == d[i] ^ key[i % 4]);
        assert(f[2 + m + i % 4] == key[i % 4]);
        lemma_xor_twice(d[i], key[i % 4]);
    }
    assert(ws_unmasked(f) =~= d);
    vstd::utf8::encode_utf8_valid_utf8(s);
    vstd::utf8::encode_utf8_decode_utf8(s);
}

/// Decode a websocket message, return the string, or None
pub fn parse_websocket_message(buf: &Vec<u8>) -> (r: Option<String>)
    ensures
        match r {
            Some(s) => ws_text(buf@) == Some(s@),
            None => ws_text(buf@) is None,
        },
{
    if buf.len() < 1 {
        return None;
    }
    let b0 = buf[0];
    let opcode = b0 & 0xf;
    assert(opcode == b0 % 16) by (bit_vector)
        requires
            opcode == b0 & 0xf,
    ;
    if opcode == 0x2 {
        return None;
    }
    if buf.len() < 2 {
        return None;
    }
    let b1 = buf[1];
    let masked = (b1 >> 7u8) > 0;
    assert(masked == (b1 >= 128)) by (bit_vector)
        requires
            masked == ((b1 >> 7u8) > 0),
    ;
    if !masked {
        return None;
    }
    let lenfield = b1 ^ 0x80;
    assert(lenfield == b1 - 128) by (bit_vector)
        requires
            lenfield == b1 ^ 0x80,
            b1 >= 128,
    ;
    let mask_offset: usize = if lenfield == 127 {
        10
    } else if lenfield == 126 {
        4
    } else {
        2
    };
    if buf.len() < mask_offset + 4 {
        return None;
    }
    let mut msglen: u128 = 0;
    let end: usize = if lenfield == 127 {
        10
    } else if lenfield == 126 {
        4
    } else {
        2
    };
    let mut k: usize = 2;
    while k < end
        invariant
            2 <= k <= end <= 10,
            end <= buf@.len(),
            msglen == be_value(buf@, 2, k as int),
            msglen < pow256((k - 2) as nat),
        decreases end - k,
    {
        proof {
            lemma_pow256_step((k - 2) as nat);
        }
        msglen = msglen * 256 + buf[k] as u128;
        k = k + 1;
    }
    let msglen: u128 = if lenfield >= 126 {
        msglen
    } else {
        lenfield as u128
    };
    let content_offset = mask_offset + 4;
    let avail: usize = buf.len() - content_offset;
    let n: usize = if msglen < avail as u128 {
        msglen as usize
    } else {
        avail
    };
    let mut decoded: Vec<u8> = Vec::new();
    let mut i: usize = 0;
    let ghost full = ws_unmasked(buf@);
    assert(full.len() == n);
    while i < n
        invariant
            content_offset == mask_offset + 4,
            mask_offset == ws_mask_offset(buf@),
            content_offset <= buf@.len(),
            content_offset + n <= buf.len(),
            n == full.len(),
            full == ws_unmasked(buf@),
            i <= n,
            decoded@ == full.take(i as int),
        decreases n - i,
    {
        let x = buf[content_offset + i] ^ buf[mask_offset + i % 4];
        decoded.push(x);
        i = i + 1;
        assert(decoded@ =~= full.take(i as int));
    }
    assert(decoded@ =~= full);
    string_from_utf8(decoded)
}

/// 256 to the power `k`.
pub open spec fn pow256(k: nat) -> nat
    decreases k,
{
    if k == 0 {
        1
    } else {
        256 * pow256((k - 1) as nat)
    }
}

proof fn lemma_pow256_mono(k: nat, m: nat)
    requires
        k <= m,
    ensures
        pow256(k) <= pow256(m),
    decreases m - k,
{
    if k < m {
        lemma_pow256_mono(k, (m - 1) as nat);
        assert(pow256(m) == 256 * pow256((m - 1) as nat));
    }
}

proof fn lemma_pow256_step(k: nat)
    ensures
        pow256(k + 1) == 256 * pow256(k),
        k <= 7 ==> pow256(k) <= 0x100_0000_0000_0000,
{
    if k <= 7 {
        lemma_pow256_mono(k, 7);
        reveal_with_fuel(pow256, 8);
    }
}

/// Appends the `k` lowest bytes of `n`, most significant first.
fn push_be_bytes(v: &mut Vec<u8>, n: u64, k: usize)
    requires
        k <= 8,
    ensures
        final(v)@ == old(v)@ + be_bytes(n as nat, k as nat),
    decreases k,
{
    if k > 0 {
        push_be_bytes(v, n / 256, k - 1);
        v.push((n % 256) as u8);
    }
    assert(final(v)@ =~= old(v)@ + be_bytes(n as nat, k as nat));
}

/// Frames `data` as a final text message.
pub fn build_websocket_message(data: &str) -> (r: Vec<u8>)
    ensures
        r@ == ws_frame(encode_utf8(data@)),
{
    let mut v: Vec<u8> = Vec::new();
    let bdata = data.as_bytes();
    let reallen = bdata.len();
    v.push(0x81);
    if reallen > 65535 {
        v.push(127);
        push_be_bytes(&mut v, reallen as u64, 8);
    } else if reallen > 125 {
        v.push(126);
        push_be_bytes(&mut v, reallen as u64, 2);
    } else {
        v.push(reallen as u8);
    }
    assert(v@ =~= seq![0x81u8] + ws_length_bytes(reallen as nat));
    let ghost head = v@;
    let mut i: usize = 0;
    while i < bdata.len()
        invariant
            i <= bdata@.len(),
            v@ == head + bdata@.take(i as int),
        decreases bdata@.len() - i,
    {
        v.push(bdata[i]);
        i = i + 1;
        assert(v@ =~= head + bdata@.take(i as int));
    }
    assert(bdata@.take(i as int) =~= bdata@);
    v
}

#[derive(Clone, Debug)]
pub struct ChatMessage {
    /// Tick number that the message was sent
    /// For pre-match messages, this value is 0
    pub tick: usize,
    /// The ID of the user who sent the message
    pub sender: usize,
    /// Message timestamp
    pub timestamp: usize,
    /// The chat message itself
    pub message: String,
}

impl ChatMessage {
    /// A copy of this message.
    pub fn duplicate(&self) -> (r: ChatMessage)
        ensures
            r == *self,
    {
        ChatMessage {
            tick: self.tick,
            sender: self.sender,
            timestamp: self.timestamp,
            message: self.message.clone(),
        }
    }
}


/// The chat queue of `client_id` in `chats`, empty if it has none.
pub open spec fn chat_queue(chats: Map<usize, VecDeque<ChatMessage>>, client_id: usize) -> Seq<
    ChatMessage,
> {
    if chats.contains_key(client_id) {
        chats[client_id]@
    } else {
        Seq::<ChatMessage>::empty()
    }
}

/// `new` equals `old` at every client but `client_id`, which has a queue in
/// `new`.
pub open spec fn other_queues_kept(
    old: Map<usize, VecDeque<ChatMessage>>,
    new: Map<usize, VecDeque<ChatMessage>>,
    client_id: usize,
) -> bool {
    &&& new.dom() == old.dom().insert(client_id)
    &&& forall|k: usize| k != client_id && old.contains_key(k) ==> new[k] == old[k]
}

/// Appends a copy of `cm` to the chat queue of `client_id`, creating the
/// queue if needed.
pub fn push_message(state: &mut ServerState, cm: &ChatMessage, client_id: usize)
    ensures
        final(state).info == old(state).info,
        other_queues_kept(old(state).chats@, final(state).chats@, client_id),
        chat_queue(final(state).chats@, client_id) == chat_queue(old(state).chats@, client_id).push(
            *cm,
        ),
{
    let mut queue = match state.chats.remove(&client_id) {
        Some(q) => q,
        None => VecDeque::new(),
    };
    queue.push_back(cm.duplicate());
    state.chats.insert(client_id, queue);
    assert(state.chats@.dom() =~= old(state).chats@.dom().insert(client_id));
}

/// The messages of `q` sent by `client_id`, in order.
pub open spec fn sent_by(q: Seq<ChatMessage>, client_id: usize) -> Seq<ChatMessage> {
    q.filter(|c: ChatMessage| c.sender == client_id)
}

/// The messages of `q` not sent by `client_id`, in order.
pub open spec fn not_sent_by(q: Seq<ChatMessage>, client_id: usize) -> Seq<ChatMessage> {
    q.filter(|c: ChatMessage| c.sender != client_id)
}

/// Splits `q` into the messages sent by `client_id` and the others.
fn split_by_sender(q: &VecDeque<ChatMessage>, client_id: usize) -> (r: (
    Vec<ChatMessage>,
    VecDeque<ChatMessage>,
))
    ensures
        r.0@ == sent_by(q@, client_id),
        r.1@ == not_sent_by(q@, client_id),
{
    let mut mine: Vec<ChatMessage> = Vec::new();
    let mut rest: VecDeque<ChatMessage> = VecDeque::new();
    let mut i: usize = 0;
    let ghost p1 = |c: ChatMessage| c.sender == client_id;
    let ghost p2 = |c: ChatMessage| c.sender != client_id;
    while i < q.len()
        invariant
            i <= q@.len(),
            p1 == (|c: ChatMessage| c.sender == client_id),
            p2 == (|c: ChatMessage| c.sender != client_id),
            mine@ == q@.take(i as int).filter(p1),
            rest@ == q@.take(i as int).filter(p2),
        decreases q@.len() - i,
    {
        proof {
            reveal_with_fuel(Seq::<_>::filter, 1);
            assert(q@.take(i + 1).drop_last() =~= q@.take(i as int));
        }
        let c = &q[i];
        if c.sender == client_id {
            mine.push(c.duplicate());
        } else {
            rest.push_back(c.duplicate());
        }
        i = i + 1;
    }
    assert(q@.take(i as int) =~= q@);
    (mine, rest)
}

/// Takes the messages that `client_id` sent out of its chat queue and sends
/// them back as one text frame holding their JSON list, which `to_json`
/// writes; no frame at all (an empty answer) when there are none.
pub fn send_pending_chat_messages<F: Fn(&Vec<ChatMessage>) -> String>(
    state: &mut ServerState,
    client_id: usize,
    to_json: F,
) -> (r: Vec<u8>)
    requires
        forall|v: &Vec<ChatMessage>| #[trigger] to_json.requires((v,)),
    ensures
        final(state).info == old(state).info,
        pending_taken(old(state).chats@, final(state).chats@, client_id),
        pending_answer(to_json, chat_queue(old(state).chats@, client_id), client_id, r@),
{
    let messagelist = match state.chats.remove(&client_id) {
        Some(q) => {
            let (mine, rest) = split_by_sender(&q, client_id);
            state.chats.insert(client_id, rest);
            assert(state.chats@.dom() =~= old(state).chats@.dom().insert(client_id));
            mine
        },
        None => {
            let v: Vec<ChatMessage> = Vec::new();
            assert(sent_by(Seq::<ChatMessage>::empty(), client_id) =~= Seq::<ChatMessage>::empty());
            assert(state.chats@ =~= old(state).chats@);
            v
        },
    };
    assert(pending_taken(old(state).chats@, state.chats@, client_id));
    if messagelist.len() == 0 {
        return Vec::new();
    }
    let messagestr = to_json(&messagelist);
    build_websocket_message(messagestr.as_str())
}

/// The chat queues went from `old` to `new` when the messages that
/// `client_id` sent left its queue: nothing changes when it has no queue;
/// otherwise its queue keeps the other messages, in order, and the other
/// queues stay as they were.
pub open spec fn pending_taken(
    old: Map<usize, VecDeque<ChatMessage>>,
    new: Map<usize, VecDeque<ChatMessage>>,
    client_id: usize,
) -> bool {
    &&& !old.contains_key(client_id) ==> new == old
    &&& old.contains_key(client_id) ==> {
        &&& other_queues_kept(old, new, client_id)
        &&& new[client_id]@ == not_sent_by(old[client_id]@, client_id)
    }
}

/// What `send_pending_chat_messages` answers for queue `q` of `client_id`:
/// nothing when `client_id` sent none of its messages, else one text frame
/// holding what `to_json` wrote of the list of those it sent.
pub open spec fn pending_answer<F: Fn(&Vec<ChatMessage>) -> String>(
    to_json: F,
    q: Seq<ChatMessage>,
    client_id: usize,
    r: Seq<u8>,
) -> bool {
    if sent_by(q, client_id).len() == 0 {
        r == Seq::<u8>::empty()
    } else {
        exists|v: &Vec<ChatMessage>, json: String|
            v@ == sent_by(q, client_id) && #[trigger] to_json.ensures((v,), json) && r == ws_frame(
                encode_utf8(json@),
            )
    }
}

/// The text a chat frame carries, empty when it carries none.
pub open spec fn chat_text(b: Seq<u8>) -> Seq<char> {
    match ws_text(b) {
        Some(t) => t,
        None => Seq::<char>::empty(),
    }
}

/// What `handle_chat_conversation` does once `from_json` has read `parsed`
/// from the frame's text: nothing but an "ERROR" frame when it read no
/// message; else the message joins the queue of `client_id`, whose own
/// messages leave it and are answered as `send_pending_chat_messages` does.
pub open spec fn chat_handled<F: Fn(&Vec<ChatMessage>) -> String>(
    to_json: F,
    old_chats: Map<usize, VecDeque<ChatMessage>>,
    new_chats: Map<usize, VecDeque<ChatMessage>>,
    client_id: usize,
    parsed: Option<ChatMessage>,
    r: Seq<u8>,
) -> bool {
    match parsed {
        None => r == ws_frame(encode_utf8("ERROR"@)) && new_chats == old_chats,
        Some(cm) => {
            &&& other_queues_kept(old_chats, new_chats, client_id)
            &&& new_chats[client_id]@ == not_sent_by(
                chat_queue(old_chats, client_id).push(cm),
                client_id,
            )
            &&& pending_answer(to_json, chat_queue(old_chats, client_id).push(cm), client_id, r)
        },
    }
}

/// Answers a chat frame: the message it carries (read by `from_json` from
/// the frame's text, or from an empty text when the frame has none) is
/// queued for `client_id`, and the answer is what
/// `send_pending_chat_messages` sends back; a text that `from_json` cannot
/// read is answered with a text frame saying "ERROR".
pub fn handle_chat_conversation<
    P: Fn(&str) -> Option<ChatMessage>,
    F: Fn(&Vec<ChatMessage>) -> String,
>(state: &mut ServerState, buf: &Vec<u8>, client_id: usize, from_json: P, to_json: F) -> (r:
    Vec<u8>)
    requires
        forall|s: &str| #[trigger] from_json.requires((s,)),
        forall|v: &Vec<ChatMessage>| #[trigger] to_json.requires((v,)),
    ensures
        final(state).info == old(state).info,
        exists|s: &str, parsed: Option<ChatMessage>|
            s@ == chat_text(buf@) && #[trigger] from_json.ensures((s,), parsed) && chat_handled(
                to_json,
                old(state).chats@,
                final(state).chats@,
                client_id,
                parsed,
                r@,
            ),
{
    let s = match parse_websocket_message(buf) {
        Some(s) => s,
        None => String::new(),
    };
    let text = s.as_str();
    assert(text@ == chat_text(buf@));
    let parsed = from_json(text);
    match parsed {
        Some(chat_msg) => {
            push_message(state, &chat_msg, client_id);
            let ghost mid = state.chats@;
            let r = send_pending_chat_messages(state, client_id, to_json);
            assert(chat_queue(mid, client_id) == chat_queue(old(state).chats@, client_id).push(
                chat_msg,
            ));
            let ghost q = chat_queue(mid, client_id);
            assert(mid.contains_key(client_id));
            assert(state.chats@[client_id]@ == not_sent_by(q, client_id));
            assert(state.chats@.dom() =~= old(state).chats@.dom().insert(client_id));
            assert(pending_answer(to_json, q, client_id, r@));
            r
        },
        None => {
            let r = build_websocket_message("ERROR");
            assert(chat_handled(to_json, old(state).chats@, state.chats@, client_id, None, r@));
            r
        },
    }
}

/// Splitting a chat queue by sender loses nothing: the messages that
/// `client_id` sent and the others together number as many as the queue;
/// each of the first was sent by `client_id`, none of the second was.
pub proof fn lemma_split_by_sender(q: Seq<ChatMessage>, client_id: usize)
    ensures
        sent_by(q, client_id).len() + not_sent_by(q, client_id).len() == q.len(),
        forall|i: int|
            0 <= i < sent_by(q, client_id).len() ==> #[trigger] sent_by(q, client_id)[i].sender
                == client_id,
        forall|i: int|
            0 <= i < not_sent_by(q, client_id).len() ==> #[trigger] not_sent_by(
                q,
                client_id,
            )[i].sender != client_id,
    decreases q.len(),
{
    let p1 = |c: ChatMessage| c.sender == client_id;
    let p2 = |c: ChatMessage| c.sender != client_id;
    q.filter_lemma(p1);
    q.filter_lemma(p2);
    if q.len() > 0 {
        lemma_split_by_sender(q.drop_last(), client_id);
        reveal_with_fuel(Seq::<_>::filter, 1);
    }
}

/// After a chat conversation that read a message, no message that
/// `client_id` sent stays in its queue, and every other message of the
/// queue, the new one included, stays in it.
pub proof fn lemma_conversation_clears_own_messages<F: Fn(&Vec<ChatMessage>) -> String>(
    to_json: F,
    old_chats: Map<usize, VecDeque<ChatMessage>>,
    new_chats: Map<usize, VecDeque<ChatMessage>>,
    client_id: usize,
    cm: ChatMessage,
    r: Seq<u8>,
)
    requires
        chat_handled(to_json, old_chats, new_chats, client_id, Some(cm), r),
    ensures
        new_chats.contains_key(client_id),
        forall|i: int|
            0 <= i < new_chats[client_id]@.len() ==> #[trigger] new_chats[client_id]@[i].sender
                != client_id,
        new_chats[client_id]@.len() + sent_by(chat_queue(old_chats, client_id).push(cm), client_id).len()
            == chat_queue(old_chats, client_id).len() + 1,
{
    lemma_split_by_sender(chat_queue(old_chats, client_id).push(cm), client_id);
}

/// Sending the pending messages of `client_id` a second time, with no
/// other change in between, finds none: it answers nothing and leaves
/// every queue with the messages it had.
pub proof fn lemma_pending_twice<F: Fn(&Vec<ChatMessage>) -> String>(
    to_json: F,
    a: Map<usize, VecDeque<ChatMessage>>,
    b: Map<usize, VecDeque<ChatMessage>>,
    c: Map<usize, VecDeque<ChatMessage>>,
    client_id: usize,
    r: Seq<u8>,
)
    requires
        pending_taken(a, b, client_id),
        pending_taken(b, c, client_id),
        pending_answer(to_json, chat_queue(b, client_id), client_id, r),
    ensures
        r == Seq::<u8>::empty(),
        c.dom() == b.dom(),
        forall|k: usize| #[trigger] c.contains_key(k) ==> c[k]@ == b[k]@,
{
    if a.contains_key(client_id) {
        let q = b[client_id]@;
        lemma_split_by_sender(a[client_id]@, client_id);
        lemma_split_by_sender(q, client_id);
        lemma_filter_all(q, client_id);
        assert(c.dom() =~= b.dom());
    }
}

/// Filtering out `client_id`'s messages from a queue that holds none of
/// them keeps the queue as it is.
proof fn lemma_filter_all(q: Seq<ChatMessage>, client_id: usize)
    requires
        forall|i: int| 0 <= i < q.len() ==> #[trigger] q[i].sender != client_id,
    ensures
        not_sent_by(q, client_id) == q,
    decreases q.len(),
{
    reveal_with_fuel(Seq::<_>::filter, 1);
    if q.len() > 0 {
        lemma_filter_all(q.drop_last(), client_id);
        assert(q.drop_last().push(q.last()) =~= q);
    }
}

} // verus!
