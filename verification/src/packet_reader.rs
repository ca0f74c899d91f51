//! Reading a received `NetPacket` from its FlatBuffers bytes, with every
//! offset checked against the buffer.
//!
//! A FlatBuffers buffer starts with the little-endian offset of its root
//! table. A table starts with a signed offset back to its vtable; the vtable
//! holds its own length in bytes, the table's size, then one 16-bit entry
//! per field slot (slot 4 first): the field's position from the table's
//! start, 0 when the field is absent. A table or string field holds the
//! offset, from the field itself, of the table or string; a string is a
//! 32-bit length followed by its UTF-8 bytes.
use vstd::prelude::*;
use vstd::utf8::{decode_utf8, valid_utf8};

use crate::network::{NetMessage, NetMessageValue, NetPacket, NetPacketValue};
use crate::text::string_from_utf8;

verus! {

/// Positions computed while reading stay far inside this bound.
pub open spec fn pos_bound() -> int {
    0x4_0000_0000_0000_0000
}

/// `n` bytes from `i` lie in `b`.
pub open spec fn in_bounds(b: Seq<u8>, i: int, n: int) -> bool {
    0 <= i && i + n <= b.len()
}

/// The little-endian 16-bit number at `i`.
pub open spec fn le16(b: Seq<u8>, i: int) -> int {
    b[i] + b[i + 1] * 256
}

/// The little-endian 32-bit number at `i`.
pub open spec fn le32u(b: Seq<u8>, i: int) -> int {
    le16(b, i) + le16(b, i + 2) * 65536
}

/// The little-endian 64-bit number at `i`.
pub open spec fn le64(b: Seq<u8>, i: int) -> int {
    le32u(b, i) + le32u(b, i + 4) * 0x1_0000_0000
}

/// The signed 32-bit number at `i`.
pub open spec fn le32s(b: Seq<u8>, i: int) -> int {
    if le32u(b, i) >= 0x8000_0000 {
        le32u(b, i) - 0x1_0000_0000
    } else {
        le32u(b, i)
    }
}

/// Where the vtable of the table at `loc` starts, when the table's header
/// and the vtable's header lie in `b`.
pub open spec fn vtable_of(b: Seq<u8>, loc: int) -> Option<int> {
    if in_bounds(b, loc, 4) && in_bounds(b, loc - le32s(b, loc), 4) {
        Some(loc - le32s(b, loc))
    } else {
        None
    }
}

/// Where field `slot` of the table at `loc` is: `None` when the table or
/// its vtable entry cannot be read, `Some(None)` when the field is absent
/// (its slot past the vtable, or its entry 0), else its position.
pub open spec fn field_at(b: Seq<u8>, loc: int, slot: int) -> Option<Option<int>> {
    match vtable_of(b, loc) {
        None => None,
        Some(vt) => if slot >= le16(b, vt) {
            Some(None)
        } else if !in_bounds(b, vt + slot, 2) {
            None
        } else if le16(b, vt + slot) == 0 {
            Some(None)
        } else {
            Some(Some(loc + le16(b, vt + slot)))
        },
    }
}

/// The 64-bit field `slot` of the table at `loc`, 0 when absent.
pub open spec fn u64_field(b: Seq<u8>, loc: int, slot: int) -> Option<u64> {
    match field_at(b, loc, slot) {
        None => None,
        Some(None) => Some(0),
        Some(Some(p)) => if in_bounds(b, p, 8) {
            Some(le64(b, p) as u64)
        } else {
            None
        },
    }
}

/// The 16-bit field `slot` of the table at `loc`, 0 when absent.
pub open spec fn u16_field(b: Seq<u8>, loc: int, slot: int) -> Option<u16> {
    match field_at(b, loc, slot) {
        None => None,
        Some(None) => Some(0),
        Some(Some(p)) => if in_bounds(b, p, 2) {
            Some(le16(b, p) as u16)
        } else {
            None
        },
    }
}

/// The byte field `slot` of the table at `loc`, 0 when absent.
pub open spec fn u8_field(b: Seq<u8>, loc: int, slot: int) -> Option<u8> {
    match field_at(b, loc, slot) {
        None => None,
        Some(None) => Some(0),
        Some(Some(p)) => if in_bounds(b, p, 1) {
            Some(b[p])
        } else {
            None
        },
    }
}

/// The boolean field `slot` of the table at `loc` (a non-zero byte),
/// false when absent.
pub open spec fn bool_field(b: Seq<u8>, loc: int, slot: int) -> Option<bool> {
    match u8_field(b, loc, slot) {
        None => None,
        Some(x) => Some(x != 0),
    }
}

/// The position of the table that field `slot` of the table at `loc`
/// refers to, `Some(None)` when the field is absent.
pub open spec fn table_field(b: Seq<u8>, loc: int, slot: int) -> Option<Option<int>> {
    match field_at(b, loc, slot) {
        None => None,
        Some(None) => Some(None),
        Some(Some(p)) => if in_bounds(b, p, 4) {
            Some(Some(p + le32u(b, p)))
        } else {
            None
        },
    }
}

/// The text of the string that field `slot` of the table at `loc` refers
/// to, `Some(None)` when the field is absent; `None` when the string does
/// not lie in `b` or is not UTF-8.
pub open spec fn string_field(b: Seq<u8>, loc: int, slot: int) -> Option<Option<Seq<char>>> {
    match field_at(b, loc, slot) {
        None => None,
        Some(None) => Some(None),
        Some(Some(p)) => if !in_bounds(b, p, 4) || !in_bounds(b, p + le32u(b, p), 4) {
            None
        } else {
            let s = p + le32u(b, p);
            if !in_bounds(b, s + 4, le32u(b, s)) {
                None
            } else if valid_utf8(b.subrange(s + 4, s + 4 + le32u(b, s))) {
                Some(Some(decode_utf8(b.subrange(s + 4, s + 4 + le32u(b, s)))))
            } else {
                None
            }
        },
    }
}

/// The message of the `NetPacket` table at `loc`: its kind in slot 14 and
/// its table in slot 16. Kind 0 carries no message; kinds 5 and 6 carry an
/// empty table that is not read; kinds 1 to 4 need their table; any other
/// kind is malformed.
pub open spec fn net_message_of(b: Seq<u8>, loc: int) -> Option<NetMessageValue> {
    match u8_field(b, loc, 14) {
        None => None,
        Some(tag) => if tag == 0 {
            Some(NetMessageValue::NONE)
        } else if tag == 5 {
            Some(NetMessageValue::greq)
        } else if tag == 6 {
            Some(NetMessageValue::gres)
        } else if tag > 6 {
            None
        } else {
            match table_field(b, loc, 16) {
                Some(Some(t)) => if tag == 1 {
                    match (u64_field(b, t, 4), string_field(b, t, 6)) {
                        (Some(id), Some(tok)) => Some(
                            NetMessageValue::sreq { client_id: id, token: tok },
                        ),
                        _ => None,
                    }
                } else if tag == 2 {
                    match (u64_field(b, t, 4), bool_field(b, t, 6)) {
                        (Some(ack), Some(all)) => Some(
                            NetMessageValue::sres { client_ack: ack, all_clients_ack: all },
                        ),
                        _ => None,
                    }
                } else if tag == 3 {
                    match u16_field(b, t, 4) {
                        Some(p) => Some(NetMessageValue::lreq { percent: p }),
                        None => None,
                    }
                } else {
                    match u16_field(b, t, 4) {
                        Some(p) => Some(NetMessageValue::lres { percent: p }),
                        None => None,
                    }
                },
                _ => None,
            }
        },
    }
}

/// The `NetPacket` that the FlatBuffers buffer `b` holds: its root table's
/// tick (slot 4), source (6), destination (8), timestamp (10), id (12) and
/// message; `None` when any of them cannot be read from `b`.
pub open spec fn net_packet_of(b: Seq<u8>) -> Option<NetPacketValue> {
    if !in_bounds(b, 0, 4) {
        None
    } else {
        let loc = le32u(b, 0);
        match (
            u64_field(b, loc, 4),
            u64_field(b, loc, 6),
            u64_field(b, loc, 8),
            u64_field(b, loc, 10),
            u64_field(b, loc, 12),
            net_message_of(b, loc),
        ) {
            (Some(tick), Some(src), Some(dst), Some(ts), Some(id), Some(m)) => Some(
                NetPacketValue {
                    tick,
                    source_client: src,
                    dest_client: dst,
                    timestamp: ts,
                    id,
                    message: m,
                },
            ),
            _ => None,
        }
    }
}

/// The view of an optional `NetPacket`.
pub open spec fn opt_net_packet(r: Option<NetPacket>) -> Option<NetPacketValue> {
    match r {
        Some(np) => Some(np@),
        None => None,
    }
}

/// A field position as `field_at` gives it.
pub open spec fn pos_view(r: Option<Option<i128>>) -> Option<Option<int>> {
    match r {
        None => None,
        Some(None) => Some(None),
        Some(Some(p)) => Some(Some(p as int)),
    }
}

/// The little-endian 16-bit number at `i`, when it lies in `b`.
fn get16(b: &[u8], i: i128) -> (r: Option<u16>)
    requires
        -pos_bound() < i < pos_bound(),
    ensures
        r is Some <==> in_bounds(b@, i as int, 2),
        r matches Some(v) ==> v as int == le16(b@, i as int),
{
    if i < 0 || i + 2 > b.len() as i128 {
        return None;
    }
    let k = i as usize;
    Some(b[k] as u16 + (b[k + 1] as u16) * 256)
}

/// The little-endian 32-bit number at `i`, when it lies in `b`.
fn get32(b: &[u8], i: i128) -> (r: Option<u32>)
    requires
        -pos_bound() < i < pos_bound(),
    ensures
        r is Some <==> in_bounds(b@, i as int, 4),
        r matches Some(v) ==> v as int == le32u(b@, i as int),
{
    if i < 0 || i + 4 > b.len() as i128 {
        return None;
    }
    let k = i as usize;
    Some(
        b[k] as u32 + (b[k + 1] as u32) * 256 + (b[k + 2] as u32) * 65536 + (b[k + 3] as u32)
            * 16777216,
    )
}

/// The little-endian 64-bit number at `i`, when it lies in `b`.
fn get64(b: &[u8], i: i128) -> (r: Option<u64>)
    requires
        -pos_bound() < i < pos_bound(),
    ensures
        r is Some <==> in_bounds(b@, i as int, 8),
        r matches Some(v) ==> v as int == le64(b@, i as int),
{
    let blen = b.len();
    let lo = match get32(b, i) {
        Some(v) => v,
        None => return None,
    };
    assert(i + 4 <= blen);
    let hi = match get32(b, i + 4) {
        Some(v) => v,
        None => return None,
    };
    Some(lo as u64 + (hi as u64) * 0x1_0000_0000)
}

/// Where field `slot` of the table at `loc` is, as `field_at` says.
fn field_pos(b: &[u8], loc: i128, slot: u16) -> (r: Option<Option<i128>>)
    requires
        -pos_bound() < loc < pos_bound(),
    ensures
        pos_view(r) == field_at(b@, loc as int, slot as int),
        r matches Some(Some(p)) ==> 0 <= p < 0x2_0000_0000_0000_0000,
{
    let blen = b.len();
    let soff = match get32(b, loc) {
        Some(v) => if v >= 0x8000_0000 {
            v as i128 - 0x1_0000_0000
        } else {
            v as i128
        },
        None => return None,
    };
    assert(0 <= loc && loc + 4 <= blen);
    let vt = loc - soff;
    let vlen = match get16(b, vt) {
        Some(v) => v,
        None => return None,
    };
    if get16(b, vt + 2).is_none() {
        return None;
    }
    if slot >= vlen {
        return Some(None);
    }
    let entry = match get16(b, vt + slot as i128) {
        Some(v) => v,
        None => return None,
    };
    if entry == 0 {
        Some(None)
    } else {
        Some(Some(loc + entry as i128))
    }
}

/// The 64-bit field `slot` of the table at `loc`.
fn read_u64(b: &[u8], loc: i128, slot: u16) -> (r: Option<u64>)
    requires
        -pos_bound() < loc < pos_bound(),
    ensures
        r == u64_field(b@, loc as int, slot as int),
{
    match field_pos(b, loc, slot) {
        None => None,
        Some(None) => Some(0),
        Some(Some(p)) => get64(b, p),
    }
}

/// The 16-bit field `slot` of the table at `loc`.
fn read_u16(b: &[u8], loc: i128, slot: u16) -> (r: Option<u16>)
    requires
        -pos_bound() < loc < pos_bound(),
    ensures
        r == u16_field(b@, loc as int, slot as int),
{
    match field_pos(b, loc, slot) {
        None => None,
        Some(None) => Some(0),
        Some(Some(p)) => get16(b, p),
    }
}

/// The byte field `slot` of the table at `loc`.
fn read_u8(b: &[u8], loc: i128, slot: u16) -> (r: Option<u8>)
    requires
        -pos_bound() < loc < pos_bound(),
    ensures
        r == u8_field(b@, loc as int, slot as int),
{
    match field_pos(b, loc, slot) {
        None => None,
        Some(None) => Some(0),
        Some(Some(p)) => if p < b.len() as i128 {
            Some(b[p as usize])
        } else {
            None
        },
    }
}

/// The table field `slot` of the table at `loc`.
fn read_table(b: &[u8], loc: i128, slot: u16) -> (r: Option<Option<i128>>)
    requires
        -pos_bound() < loc < pos_bound(),
    ensures
        pos_view(r) == table_field(b@, loc as int, slot as int),
        r matches Some(Some(t)) ==> 0 <= t < 0x3_0000_0000_0000_0000,
{
    match field_pos(b, loc, slot) {
        None => None,
        Some(None) => Some(None),
        Some(Some(p)) => match get32(b, p) {
            Some(off) => Some(Some(p + off as i128)),
            None => None,
        },
    }
}

/// The string field `slot` of the table at `loc`.
fn read_string(b: &[u8], loc: i128, slot: u16) -> (r: Option<Option<String>>)
    requires
        -pos_bound() < loc < pos_bound(),
    ensures
        match r {
            None => string_field(b@, loc as int, slot as int) is None,
            Some(None) => string_field(b@, loc as int, slot as int) == Some(None::<Seq<char>>),
            Some(Some(s)) => string_field(b@, loc as int, slot as int) == Some(Some(s@)),
        },
{
    let p = match field_pos(b, loc, slot) {
        None => return None,
        Some(None) => return Some(None),
        Some(Some(p)) => p,
    };
    let off = match get32(b, p) {
        Some(v) => v,
        None => return None,
    };
    let s = p + off as i128;
    let n = match get32(b, s) {
        Some(v) => v,
        None => return None,
    };
    if s + 4 + n as i128 > b.len() as i128 {
        return None;
    }
    let start = (s + 4) as usize;
    let end = start + n as usize;
    let mut bytes: Vec<u8> = Vec::new();
    let mut k: usize = start;
    while k < end
        invariant
            start <= k <= end <= b@.len(),
            bytes@ == b@.subrange(start as int, k as int),
        decreases end - k,
    {
        bytes.push(b[k]);
        k = k + 1;
        assert(bytes@ =~= b@.subrange(start as int, k as int));
    }
    match string_from_utf8(bytes) {
        Some(t) => Some(Some(t)),
        None => None,
    }
}

/// The message of the `NetPacket` table at `loc`, as `net_message_of` says.
fn read_message(b: &[u8], loc: i128) -> (r: Option<NetMessage>)
    requires
        -pos_bound() < loc < pos_bound(),
    ensures
        match r {
            None => net_message_of(b@, loc as int) is None,
            Some(m) => net_message_of(b@, loc as int) == Some(m@),
        },
{
    let tag = match read_u8(b, loc, 14) {
        Some(t) => t,
        None => return None,
    };
    if tag == 0 {
        return Some(NetMessage::NONE);
    } else if tag == 5 {
        return Some(NetMessage::greq);
    } else if tag == 6 {
        return Some(NetMessage::gres);
    } else if tag > 6 {
        return None;
    }
    let t = match read_table(b, loc, 16) {
        Some(Some(t)) => t,
        _ => return None,
    };
    if tag == 1 {
        let id = match read_u64(b, t, 4) {
            Some(v) => v,
            None => return None,
        };
        match read_string(b, t, 6) {
            Some(tok) => Some(NetMessage::sreq { client_id: id, token: tok }),
            None => None,
        }
    } else if tag == 2 {
        let ack = match read_u64(b, t, 4) {
            Some(v) => v,
            None => return None,
        };
        match read_u8(b, t, 6) {
            Some(x) => Some(NetMessage::sres { client_ack: ack, all_clients_ack: x != 0 }),
            None => None,
        }
    } else if tag == 3 {
        match read_u16(b, t, 4) {
            Some(p) => Some(NetMessage::lreq { percent: p }),
            None => None,
        }
    } else {
        match read_u16(b, t, 4) {
            Some(p) => Some(NetMessage::lres { percent: p }),
            None => None,
        }
    }
}

/// Reads the `NetPacket` that a FlatBuffers buffer holds; `None` when the
/// buffer does not hold one, every offset being checked against it.
pub fn read_net_packet(buf: &[u8]) -> (r: Option<NetPacket>)
    ensures
        opt_net_packet(r) == net_packet_of(buf@),
{
    let loc = match get32(buf, 0) {
        Some(v) => v as i128,
        None => return None,
    };
    let tick = read_u64(buf, loc, 4);
    let source_client = read_u64(buf, loc, 6);
    let dest_client = read_u64(buf, loc, 8);
    let timestamp = read_u64(buf, loc, 10);
    let id = read_u64(buf, loc, 12);
    let message = read_message(buf, loc);
    match (tick, source_client, dest_client, timestamp, id, message) {
        (Some(tick), Some(source_client), Some(dest_client), Some(timestamp), Some(id), Some(
            message,
        )) => Some(NetPacket { tick, source_client, dest_client, timestamp, id, message }),
        _ => None,
    }
}

/// A field that the table's vtable does not list (its slot lies past the
/// vtable, or its entry is zero, as the builder leaves a field equal to its
/// default) reads as that default: 0, false, or no table or string.
pub proof fn lemma_absent_field_reads_default(b: Seq<u8>, loc: int, slot: int)
    requires
        in_bounds(b, loc, 4),
        in_bounds(b, loc - le32s(b, loc), 4),
        ({
            let vt = loc - le32s(b, loc);
            slot >= b[vt] + b[vt + 1] * 256 || (in_bounds(b, vt + slot, 2) && b[vt + slot] == 0 && b[vt
                + slot + 1] == 0)
        }),
    ensures
        u64_field(b, loc, slot) == Some(0u64),
        u16_field(b, loc, slot) == Some(0u16),
        u8_field(b, loc, slot) == Some(0u8),
        bool_field(b, loc, slot) == Some(false),
        table_field(b, loc, slot) == Some(None::<int>),
        string_field(b, loc, slot) == Some(None::<Seq<char>>),
{
}

/// A field that the vtable lists at a non-zero entry `o` reads the
/// little-endian bytes at the table's start plus `o`.
pub proof fn lemma_present_field_reads_bytes(b: Seq<u8>, loc: int, slot: int)
    requires
        in_bounds(b, loc, 4),
        in_bounds(b, loc - le32s(b, loc), 4),
        ({
            let vt = loc - le32s(b, loc);
            &&& slot < b[vt] + b[vt + 1] * 256
            &&& in_bounds(b, vt + slot, 2)
            &&& b[vt + slot] + b[vt + slot + 1] * 256 != 0
            &&& in_bounds(b, loc + b[vt + slot] + b[vt + slot + 1] * 256, 8)
        }),
    ensures
        ({
            let vt = loc - le32s(b, loc);
            let p = loc + b[vt + slot] + b[vt + slot + 1] * 256;
            &&& u8_field(b, loc, slot) == Some(b[p])
            &&& bool_field(b, loc, slot) == Some(b[p] != 0)
            &&& u16_field(b, loc, slot) == Some((b[p] + b[p + 1] * 256) as u16)
            &&& u64_field(b, loc, slot) == Some(
                (b[p] + b[p + 1] * 0x100 + b[p + 2] * 0x1_0000 + b[p + 3] * 0x100_0000 + b[p + 4]
                    * 0x1_0000_0000 + b[p + 5] * 0x100_0000_0000 + b[p + 6] * 0x1_0000_0000_0000
                    + b[p + 7] * 0x100_0000_0000_0000) as u64,
            )
        }),
{
}

} // verus!
