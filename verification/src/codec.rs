//! The wire format of packets.
//!
//! A packet is one tag byte followed by its fields in order. Integers are
//! big-endian (`u64` in eight bytes, `u32` and `i32` in four, the latter in two's
//! complement); a `bool` is one byte, 0 or 1; strings (as UTF-8) and byte
//! payloads are preceded by their length in bytes as a `u32`.

use crate::protocol::{PacketType, PacketView};
use vstd::prelude::*;
use vstd::utf8::{decode_utf8, encode_utf8, valid_utf8};

verus! {

broadcast use {vstd::utf8::encode_utf8_valid_utf8, vstd::utf8::encode_utf8_decode_utf8};

/// `256` to the power `w`.
pub open spec fn pow256(w: nat) -> nat
    decreases w,
{
    if w == 0 {
        1
    } else {
        256 * pow256((w - 1) as nat)
    }
}

/// The last `w` bytes of `n` in base 256, most significant first.
pub open spec fn be_bytes(n: nat, w: nat) -> Seq<u8>
    decreases w,
{
    if w == 0 {
        Seq::empty()
    } else {
        be_bytes(n / 256, (w - 1) as nat).push((n % 256) as u8)
    }
}

/// The number that bytes spell in base 256, most significant first.
pub open spec fn be_value(b: Seq<u8>) -> nat
    decreases b.len(),
{
    if b.len() == 0 {
        0
    } else {
        be_value(b.drop_last()) * 256 + b.last() as nat
    }
}

/// Kinds of fields.
#[derive(Clone, Copy, Debug, PartialEq, Eq, Structural)]
pub enum FieldKind {
    Str,
    Bytes,
    U64,
    I32,
    U32,
    Bool,
}

/// A field of a packet.
pub enum FieldView {
    Str(Seq<char>),
    Bytes(Seq<u8>),
    U64(u64),
    I32(i32),
    U32(u32),
    Bool(bool),
}

/// The kind of a field.
pub open spec fn kind_of(f: FieldView) -> FieldKind {
    match f {
        FieldView::Str(_) => FieldKind::Str,
        FieldView::Bytes(_) => FieldKind::Bytes,
        FieldView::U64(_) => FieldKind::U64,
        FieldView::I32(_) => FieldKind::I32,
        FieldView::U32(_) => FieldKind::U32,
        FieldView::Bool(_) => FieldKind::Bool,
    }
}

/// Whether a field's length fits its `u32` length prefix.
pub open spec fn field_fits(f: FieldView) -> bool {
    match f {
        FieldView::Str(s) => encode_utf8(s).len() <= u32::MAX,
        FieldView::Bytes(d) => d.len() <= u32::MAX,
        _ => true,
    }
}

/// The bytes of a field.
pub open spec fn enc_field(f: FieldView) -> Seq<u8> {
    match f {
        FieldView::Str(s) => be_bytes(encode_utf8(s).len(), 4) + encode_utf8(s),
        FieldView::Bytes(d) => be_bytes(d.len(), 4) + d,
        FieldView::U64(n) => be_bytes(n as nat, 8),
        FieldView::I32(n) => be_bytes((n as u32) as nat, 4),
        FieldView::U32(n) => be_bytes(n as nat, 4),
        FieldView::Bool(b) => seq![if b { 1u8 } else { 0u8 }],
    }
}

/// The bytes of fields, one after the other.
pub open spec fn enc_fields(fs: Seq<FieldView>) -> Seq<u8>
    decreases fs.len(),
{
    if fs.len() == 0 {
        Seq::empty()
    } else {
        enc_fields(fs.drop_last()) + enc_field(fs.last())
    }
}

/// The tag byte of a packet.
pub open spec fn packet_tag(p: PacketView) -> u8 {
    match p {
        PacketView::Authenticate { .. } => 0,
        PacketView::ClientAuthenticated => 1,
        PacketView::CreateRoom { .. } => 2,
        PacketView::ReqJoin { .. } => 3,
        PacketView::ReqRooms => 4,
        PacketView::UpdateRoom { .. } => 5,
        PacketView::JoinRes { .. } => 6,
        PacketView::GameData { .. } => 7,
        PacketView::PeerLeftRoom { .. } => 8,
        PacketView::ForceDisconnect => 9,
        PacketView::Error { .. } => 10,
    }
}

/// The fields of a packet, in wire order.
pub open spec fn packet_fields(p: PacketView) -> Seq<FieldView> {
    match p {
        PacketView::Authenticate { app_id, version } => seq![FieldView::Str(app_id), FieldView::Str(version)],
        PacketView::ClientAuthenticated => Seq::empty(),
        PacketView::CreateRoom { is_public, metadata } => seq![FieldView::Bool(is_public), FieldView::Str(metadata)],
        PacketView::ReqJoin { room_id, metadata } => seq![FieldView::Str(room_id), FieldView::Str(metadata)],
        PacketView::ReqRooms => Seq::empty(),
        PacketView::UpdateRoom { room_id, metadata } => seq![FieldView::Str(room_id), FieldView::Str(metadata)],
        PacketView::JoinRes { room_id, target_id, allowed } => seq![
            FieldView::Str(room_id),
            FieldView::U64(target_id),
            FieldView::Bool(allowed),
        ],
        PacketView::GameData { from_peer, data } => seq![FieldView::I32(from_peer), FieldView::Bytes(data)],
        PacketView::PeerLeftRoom { peer_id } => seq![FieldView::I32(peer_id)],
        PacketView::ForceDisconnect => Seq::empty(),
        PacketView::Error { error_code, error_message } => seq![
            FieldView::U32(error_code),
            FieldView::Str(error_message),
        ],
    }
}

/// The bytes of a packet: its tag, then its fields.
pub open spec fn encode_packet(p: PacketView) -> Seq<u8> {
    seq![packet_tag(p)] + enc_fields(packet_fields(p))
}

/// Whether every length in a packet fits its `u32` length prefix.
pub open spec fn packet_fits(p: PacketView) -> bool {
    forall|i: int| 0 <= i < packet_fields(p).len() ==> field_fits(#[trigger] packet_fields(p)[i])
}

/// The kinds of the fields a tag announces.
pub open spec fn layout(tag: u8) -> Option<Seq<FieldKind>> {
    if tag == 0 {
        Some(seq![FieldKind::Str, FieldKind::Str])
    } else if tag == 1 {
        Some(Seq::empty())
    } else if tag == 2 {
        Some(seq![FieldKind::Bool, FieldKind::Str])
    } else if tag == 3 {
        Some(seq![FieldKind::Str, FieldKind::Str])
    } else if tag == 4 {
        Some(Seq::empty())
    } else if tag == 5 {
        Some(seq![FieldKind::Str, FieldKind::Str])
    } else if tag == 6 {
        Some(seq![FieldKind::Str, FieldKind::U64, FieldKind::Bool])
    } else if tag == 7 {
        Some(seq![FieldKind::I32, FieldKind::Bytes])
    } else if tag == 8 {
        Some(seq![FieldKind::I32])
    } else if tag == 9 {
        Some(Seq::empty())
    } else if tag == 10 {
        Some(seq![FieldKind::U32, FieldKind::Str])
    } else {
        None
    }
}

/// The kinds of fields.
pub open spec fn kinds(fs: Seq<FieldView>) -> Seq<FieldKind> {
    fs.map_values(|f: FieldView| kind_of(f))
}

/// Whether `x` is a prefix of `y`.
pub open spec fn is_prefix(x: Seq<u8>, y: Seq<u8>) -> bool {
    x.len() <= y.len() && y.take(x.len() as int) == x
}

// ---------------------------------------------------------------------------
// Facts about the encodings

proof fn lemma_be_len(n: nat, w: nat)
    ensures
        be_bytes(n, w).len() == w,
    decreases w,
{
    if w > 0 {
        lemma_be_len(n / 256, (w - 1) as nat);
    }
}

proof fn lemma_be_roundtrip(n: nat, w: nat)
    requires
        n < pow256(w),
    ensures
        be_value(be_bytes(n, w)) == n,
    decreases w,
{
    if w > 0 {
        assert(n / 256 < pow256((w - 1) as nat));
        lemma_be_roundtrip(n / 256, (w - 1) as nat);
        let b = be_bytes(n, w);
        assert(b.drop_last() =~= be_bytes(n / 256, (w - 1) as nat));
    }
}

proof fn lemma_be_canonical(b: Seq<u8>)
    ensures
        be_bytes(be_value(b), b.len()) == b,
    decreases b.len(),
{
    if b.len() > 0 {
        lemma_be_canonical(b.drop_last());
        let v = be_value(b);
        assert(v / 256 == be_value(b.drop_last()));
        assert(v % 256 == b.last() as nat);
        assert(be_bytes(v, b.len()) =~= b.drop_last().push(b.last()));
        assert(b.drop_last().push(b.last()) =~= b);
    }
}

proof fn lemma_be_bound(b: Seq<u8>)
    ensures
        be_value(b) < pow256(b.len()),
    decreases b.len(),
{
    if b.len() > 0 {
        lemma_be_bound(b.drop_last());
    }
}

proof fn lemma_pow256_values()
    ensures
        pow256(4) == 0x1_0000_0000,
        pow256(8) == 0x1_0000_0000_0000_0000,
{
    reveal_with_fuel(pow256, 9);
}

/// Fixed-width integers are told apart by their bytes.
proof fn lemma_be_injective(n1: nat, n2: nat, w: nat)
    requires
        n1 < pow256(w),
        n2 < pow256(w),
        be_bytes(n1, w) == be_bytes(n2, w),
    ensures
        n1 == n2,
{
    lemma_be_roundtrip(n1, w);
    lemma_be_roundtrip(n2, w);
}

proof fn lemma_enc_field_len(f: FieldView)
    ensures
        enc_field(f).len() == match f {
            FieldView::Str(s) => 4 + encode_utf8(s).len(),
            FieldView::Bytes(d) => 4 + d.len(),
            FieldView::U64(_) => 8,
            FieldView::Bool(_) => 1,
            _ => 4,
        },
{
    match f {
        FieldView::Str(s) => lemma_be_len(encode_utf8(s).len(), 4),
        FieldView::Bytes(d) => lemma_be_len(d.len(), 4),
        FieldView::U64(n) => lemma_be_len(n as nat, 8),
        FieldView::I32(n) => lemma_be_len((n as u32) as nat, 4),
        FieldView::U32(n) => lemma_be_len(n as nat, 4),
        FieldView::Bool(_) => {},
    }
}

/// Two fitting fields of one kind whose bytes both start a byte string are the
/// same field.
proof fn lemma_field_unique(f1: FieldView, f2: FieldView, t: Seq<u8>)
    requires
        kind_of(f1) == kind_of(f2),
        field_fits(f1),
        field_fits(f2),
        is_prefix(enc_field(f1), t),
        is_prefix(enc_field(f2), t),
    ensures
        f1 == f2,
{
    lemma_enc_field_len(f1);
    lemma_enc_field_len(f2);
    lemma_pow256_values();
    match (f1, f2) {
        (FieldView::Str(s1), FieldView::Str(s2)) => {
            let e1 = encode_utf8(s1);
            let e2 = encode_utf8(s2);
            lemma_be_len(e1.len(), 4);
            lemma_be_len(e2.len(), 4);
            assert(be_bytes(e1.len(), 4) =~= t.take(4));
            assert(be_bytes(e2.len(), 4) =~= t.take(4));
            lemma_be_injective(e1.len(), e2.len(), 4);
            let x1 = enc_field(f1);
            let x2 = enc_field(f2);
            assert(x1 == be_bytes(e1.len(), 4) + e1);
            assert(x2 == be_bytes(e2.len(), 4) + e2);
            assert(x1 == t.take(x1.len() as int));
            assert(x2 == t.take(x2.len() as int));
            assert(x1.subrange(4, x1.len() as int) =~= e1);
            assert(x2.subrange(4, x2.len() as int) =~= e2);
            assert(e1 =~= t.subrange(4, 4 + e1.len() as int));
            assert(e2 =~= t.subrange(4, 4 + e2.len() as int));
            assert(decode_utf8(e1) == s1);
            assert(decode_utf8(e2) == s2);
        },
        (FieldView::Bytes(d1), FieldView::Bytes(d2)) => {
            lemma_be_len(d1.len(), 4);
            lemma_be_len(d2.len(), 4);
            assert(be_bytes(d1.len(), 4) =~= t.take(4));
            assert(be_bytes(d2.len(), 4) =~= t.take(4));
            lemma_be_injective(d1.len(), d2.len(), 4);
            let x1 = enc_field(f1);
            let x2 = enc_field(f2);
            assert(x1 == be_bytes(d1.len(), 4) + d1);
            assert(x2 == be_bytes(d2.len(), 4) + d2);
            assert(x1 == t.take(x1.len() as int));
            assert(x2 == t.take(x2.len() as int));
            assert(x1.subrange(4, x1.len() as int) =~= d1);
            assert(x2.subrange(4, x2.len() as int) =~= d2);
            assert(d1 =~= t.subrange(4, 4 + d1.len() as int));
            assert(d2 =~= t.subrange(4, 4 + d2.len() as int));
        },
        (FieldView::U64(n1), FieldView::U64(n2)) => {
            assert(enc_field(f1) =~= t.take(8));
            assert(enc_field(f2) =~= t.take(8));
            lemma_be_injective(n1 as nat, n2 as nat, 8);
        },
        (FieldView::U32(n1), FieldView::U32(n2)) => {
            assert(enc_field(f1) =~= t.take(4));
            assert(enc_field(f2) =~= t.take(4));
            lemma_be_injective(n1 as nat, n2 as nat, 4);
        },
        (FieldView::I32(n1), FieldView::I32(n2)) => {
            assert(enc_field(f1) =~= t.take(4));
            assert(enc_field(f2) =~= t.take(4));
            lemma_be_injective((n1 as u32) as nat, (n2 as u32) as nat, 4);
            assert((n1 as u32) == (n2 as u32) ==> n1 == n2) by (bit_vector);
        },
        (FieldView::Bool(b1), FieldView::Bool(b2)) => {
            assert(enc_field(f1)[0] == t[0]);
            assert(enc_field(f2)[0] == t[0]);
        },
        _ => {},
    }
}

/// Fields of a concatenation encode as the concatenation of their encodings.
proof fn lemma_enc_fields_concat(a: Seq<FieldView>, c: Seq<FieldView>)
    ensures
        enc_fields(a + c) == enc_fields(a) + enc_fields(c),
    decreases c.len(),
{
    if c.len() == 0 {
        assert(a + c =~= a);
        assert(enc_fields(a) + enc_fields(c) =~= enc_fields(a));
    } else {
        lemma_enc_fields_concat(a, c.drop_last());
        assert((a + c).drop_last() =~= a + c.drop_last());
        assert((a + c).last() == c.last());
        assert(enc_fields(a + c) =~= enc_fields(a) + enc_fields(c));
    }
}

/// The fields of a packet are of the kinds its tag announces, and they give
/// the packet back.
proof fn lemma_packet_layout(p: PacketView)
    ensures
        layout(packet_tag(p)) == Some(kinds(packet_fields(p))),
        packet_from(packet_tag(p), packet_fields(p)) == p,
{
    assert(layout(packet_tag(p)) matches Some(k) && k =~= kinds(packet_fields(p)));
}

/// Fields of the kinds a tag announces make a packet with that tag and those
/// fields.
proof fn lemma_packet_from(tag: u8, fs: Seq<FieldView>)
    requires
        layout(tag) == Some(kinds(fs)),
    ensures
        packet_tag(packet_from(tag, fs)) == tag,
        packet_fields(packet_from(tag, fs)) == fs,
{
    let k = kinds(fs);
    assert(k.len() == fs.len());
    assert forall|i: int| 0 <= i < fs.len() implies kind_of(fs[i]) == k[i] by {}
    let p = packet_from(tag, fs);
    assert(packet_fields(p) =~= fs);
}

/// The packet with a tag and fields of the kinds the tag announces.
pub open spec fn packet_from(tag: u8, fs: Seq<FieldView>) -> PacketView {
    if tag == 0 {
        match (fs[0], fs[1]) {
            (FieldView::Str(app_id), FieldView::Str(version)) => PacketView::Authenticate { app_id, version },
            _ => PacketView::ReqRooms,
        }
    } else if tag == 1 {
        PacketView::ClientAuthenticated
    } else if tag == 2 {
        match (fs[0], fs[1]) {
            (FieldView::Bool(is_public), FieldView::Str(metadata)) => PacketView::CreateRoom { is_public, metadata },
            _ => PacketView::ReqRooms,
        }
    } else if tag == 3 {
        match (fs[0], fs[1]) {
            (FieldView::Str(room_id), FieldView::Str(metadata)) => PacketView::ReqJoin { room_id, metadata },
            _ => PacketView::ReqRooms,
        }
    } else if tag == 4 {
        PacketView::ReqRooms
    } else if tag == 5 {
        match (fs[0], fs[1]) {
            (FieldView::Str(room_id), FieldView::Str(metadata)) => PacketView::UpdateRoom { room_id, metadata },
            _ => PacketView::ReqRooms,
        }
    } else if tag == 6 {
        match (fs[0], fs[1], fs[2]) {
            (FieldView::Str(room_id), FieldView::U64(target_id), FieldView::Bool(allowed)) => PacketView::JoinRes {
                room_id,
                target_id,
                allowed,
            },
            _ => PacketView::ReqRooms,
        }
    } else if tag == 7 {
        match (fs[0], fs[1]) {
            (FieldView::I32(from_peer), FieldView::Bytes(data)) => PacketView::GameData { from_peer, data },
            _ => PacketView::ReqRooms,
        }
    } else if tag == 8 {
        match fs[0] {
            FieldView::I32(peer_id) => PacketView::PeerLeftRoom { peer_id },
            _ => PacketView::ReqRooms,
        }
    } else if tag == 9 {
        PacketView::ForceDisconnect
    } else {
        match (fs[0], fs[1]) {
            (FieldView::U32(error_code), FieldView::Str(error_message)) => PacketView::Error {
                error_code,
                error_message,
            },
            _ => PacketView::ReqRooms,
        }
    }
}

// ---------------------------------------------------------------------------
// Writing

/// Appends the last `w` bytes of `n`, most significant first.
fn push_be(out: &mut Vec<u8>, n: u64, w: usize)
    ensures
        final(out)@ == old(out)@ + be_bytes(n as nat, w as nat),
    decreases w,
{
    if w > 0 {
        push_be(out, n / 256, w - 1);
        out.push((n % 256) as u8);
        assert(final(out)@ =~= old(out)@ + be_bytes(n as nat, w as nat));
    } else {
        assert(final(out)@ =~= old(out)@ + be_bytes(n as nat, w as nat));
    }
}

/// Appends bytes.
fn push_all(out: &mut Vec<u8>, data: &[u8])
    ensures
        final(out)@ == old(out)@ + data@,
{
    let ghost start = out@;
    let mut i: usize = 0;
    while i < data.len()
        invariant
            i <= data@.len(),
            out@ == start + data@.take(i as int),
        decreases data@.len() - i,
    {
        out.push(data[i]);
        i = i + 1;
        assert(out@ =~= start + data@.take(i as int));
    }
    assert(data@.take(i as int) =~= data@);
}

fn write_str(out: &mut Vec<u8>, s: &String)
    requires
        encode_utf8(s@).len() <= u32::MAX,
    ensures
        final(out)@ == old(out)@ + enc_field(FieldView::Str(s@)),
{
    let bytes = s.as_str().as_bytes();
    push_be(out, bytes.len() as u64, 4);
    push_all(out, bytes);
    assert(final(out)@ =~= old(out)@ + enc_field(FieldView::Str(s@)));
}

fn write_bytes(out: &mut Vec<u8>, d: &Vec<u8>)
    requires
        d@.len() <= u32::MAX,
    ensures
        final(out)@ == old(out)@ + enc_field(FieldView::Bytes(d@)),
{
    push_be(out, d.len() as u64, 4);
    push_all(out, d.as_slice());
    assert(final(out)@ =~= old(out)@ + enc_field(FieldView::Bytes(d@)));
}

fn write_bool(out: &mut Vec<u8>, b: bool)
    ensures
        final(out)@ == old(out)@ + enc_field(FieldView::Bool(b)),
{
    out.push(if b { 1u8 } else { 0u8 });
    assert(final(out)@ =~= old(out)@ + enc_field(FieldView::Bool(b)));
}

fn write_i32(out: &mut Vec<u8>, n: i32)
    ensures
        final(out)@ == old(out)@ + enc_field(FieldView::I32(n)),
{
    push_be(out, (n as u32) as u64, 4);
}

fn write_u32(out: &mut Vec<u8>, n: u32)
    ensures
        final(out)@ == old(out)@ + enc_field(FieldView::U32(n)),
{
    push_be(out, n as u64, 4);
}

fn write_u64(out: &mut Vec<u8>, n: u64)
    ensures
        final(out)@ == old(out)@ + enc_field(FieldView::U64(n)),
{
    push_be(out, n, 8);
}

proof fn lemma_enc_fields_small(a: FieldView, b: FieldView, c: FieldView)
    ensures
        enc_fields(Seq::<FieldView>::empty()) == Seq::<u8>::empty(),
        enc_fields(seq![a]) == enc_field(a),
        enc_fields(seq![a, b]) == enc_field(a) + enc_field(b),
        enc_fields(seq![a, b, c]) == enc_field(a) + enc_field(b) + enc_field(c),
{
    let s1 = seq![a];
    let s2 = seq![a, b];
    let s3 = seq![a, b, c];
    assert(s1.drop_last() =~= Seq::<FieldView>::empty());
    assert(s2.drop_last() =~= s1);
    assert(s3.drop_last() =~= s2);
    assert(enc_fields(s1) == enc_fields(s1.drop_last()) + enc_field(s1.last()));
    assert(enc_fields(s1) =~= enc_field(a));
    assert(enc_fields(s2) == enc_fields(s2.drop_last()) + enc_field(s2.last()));
    assert(enc_fields(s2) =~= enc_field(a) + enc_field(b));
    assert(enc_fields(s3) == enc_fields(s3.drop_last()) + enc_field(s3.last()));
    assert(enc_fields(s3) =~= enc_field(a) + enc_field(b) + enc_field(c));
}

impl PacketType {
    /// The packet's bytes; see `encode_packet`.
    pub fn to_bytes(&self) -> (res: Vec<u8>)
        requires
            packet_fits(self@),
        ensures
            res@ == encode_packet(self@),
    {
        let mut out: Vec<u8> = Vec::new();
        let ghost fs = packet_fields(self@);
        proof {
            assert forall|i: int| 0 <= i < fs.len() implies field_fits(fs[i]) by {
                assert(field_fits(packet_fields(self@)[i]));
            }
        }
        match self {
            PacketType::Authenticate { app_id, version } => {
                out.push(0);
                assert(field_fits(fs[0]) && field_fits(fs[1]));
                write_str(&mut out, app_id);
                write_str(&mut out, version);
                proof { lemma_enc_fields_small(fs[0], fs[1], fs[1]); }
            },
            PacketType::ClientAuthenticated => {
                out.push(1);
                proof { lemma_enc_fields_small(FieldView::Bool(true), FieldView::Bool(true), FieldView::Bool(true)); }
            },
            PacketType::CreateRoom { is_public, metadata } => {
                out.push(2);
                assert(field_fits(fs[1]));
                write_bool(&mut out, *is_public);
                write_str(&mut out, metadata);
                proof { lemma_enc_fields_small(fs[0], fs[1], fs[1]); }
            },
            PacketType::ReqJoin { room_id, metadata } => {
                out.push(3);
                assert(field_fits(fs[0]) && field_fits(fs[1]));
                write_str(&mut out, room_id);
                write_str(&mut out, metadata);
                proof { lemma_enc_fields_small(fs[0], fs[1], fs[1]); }
            },
            PacketType::ReqRooms => {
                out.push(4);
                proof { lemma_enc_fields_small(FieldView::Bool(true), FieldView::Bool(true), FieldView::Bool(true)); }
            },
            PacketType::UpdateRoom { room_id, metadata } => {
                out.push(5);
                assert(field_fits(fs[0]) && field_fits(fs[1]));
                write_str(&mut out, room_id);
                write_str(&mut out, metadata);
                proof { lemma_enc_fields_small(fs[0], fs[1], fs[1]); }
            },
            PacketType::JoinRes { room_id, target_id, allowed } => {
                out.push(6);
                assert(field_fits(fs[0]));
                write_str(&mut out, room_id);
                write_u64(&mut out, *target_id);
                write_bool(&mut out, *allowed);
                proof { lemma_enc_fields_small(fs[0], fs[1], fs[2]); }
            },
            PacketType::GameData { from_peer, data } => {
                out.push(7);
                assert(field_fits(fs[1]));
                write_i32(&mut out, *from_peer);
                write_bytes(&mut out, data);
                proof { lemma_enc_fields_small(fs[0], fs[1], fs[1]); }
            },
            PacketType::PeerLeftRoom { peer_id } => {
                out.push(8);
                write_i32(&mut out, *peer_id);
                proof { lemma_enc_fields_small(fs[0], fs[0], fs[0]); }
            },
            PacketType::ForceDisconnect => {
                out.push(9);
                proof { lemma_enc_fields_small(FieldView::Bool(true), FieldView::Bool(true), FieldView::Bool(true)); }
            },
            PacketType::Error { error_code, error_message } => {
                out.push(10);
                assert(field_fits(fs[1]));
                write_u32(&mut out, *error_code);
                write_str(&mut out, error_message);
                proof { lemma_enc_fields_small(fs[0], fs[1], fs[1]); }
            },
        }
        assert(out@ =~= encode_packet(self@));
        out
    }
}

// ---------------------------------------------------------------------------
// Reading

/// A decoded field.
enum Field {
    Str(String),
    Bytes(Vec<u8>),
    U64(u64),
    I32(i32),
    U32(u32),
    Bool(bool),
}

impl View for Field {
    type V = FieldView;

    closed spec fn view(&self) -> FieldView {
        match self {
            Field::Str(s) => FieldView::Str(s@),
            Field::Bytes(d) => FieldView::Bytes(d@),
            Field::U64(n) => FieldView::U64(*n),
            Field::I32(n) => FieldView::I32(*n),
            Field::U32(n) => FieldView::U32(*n),
            Field::Bool(b) => FieldView::Bool(*b),
        }
    }
}

/// `String::from_utf8`: the string the bytes spell, when they are valid UTF-8.
#[verifier::external_body]
fn utf8_to_string(bytes: Vec<u8>) -> (res: Option<String>)
    ensures
        match res {
            Some(s) => valid_utf8(bytes@) && s@ == decode_utf8(bytes@),
            None => !valid_utf8(bytes@),
        },
{
    String::from_utf8(bytes).ok()
}

proof fn lemma_pow256_small(k: nat)
    requires
        k <= 8,
    ensures
        pow256(k) <= 0x1_0000_0000_0000_0000,
        k <= 7 ==> pow256(k) <= 0x100_0000_0000_0000,
        k <= 4 ==> pow256(k) <= 0x1_0000_0000,
{
    reveal_with_fuel(pow256, 9);
    if k == 0 {} else if k == 1 {} else if k == 2 {} else if k == 3 {} else if k == 4 {} else if k == 5 {} else if k == 6 {} else if k == 7 {} else {}
}

/// The number spelt by `w` bytes starting at `pos`.
fn read_be(b: &[u8], pos: usize, w: usize) -> (res: u64)
    requires
        pos + w <= b@.len(),
        w <= 8,
    ensures
        res as nat == be_value(b@.subrange(pos as int, pos + w)),
{
    let blen = b.len();
    let mut v: u64 = 0;
    let mut k: usize = 0;
    while k < w
        invariant
            blen == b@.len(),
            pos + w <= b@.len(),
            w <= 8,
            k <= w,
            v as nat == be_value(b@.subrange(pos as int, pos + k)),
            (v as nat) < pow256(k as nat),
        decreases w - k,
    {
        proof {
            lemma_pow256_small(k as nat);
            lemma_be_bound(b@.subrange(pos as int, pos + k));
        }
        let byte = b[pos + k];
        assert((v as nat) * 256 + (byte as nat) < pow256((k + 1) as nat)) by (nonlinear_arith)
            requires
                (v as nat) < pow256(k as nat),
                pow256((k + 1) as nat) == 256 * pow256(k as nat),
                byte < 256,
        ;
        proof { lemma_pow256_small((k + 1) as nat); }
        v = v * 256 + byte as u64;
        let ghost next = b@.subrange(pos as int, pos + k + 1);
        assert(next.drop_last() =~= b@.subrange(pos as int, pos + k));
        k = k + 1;
    }
    v
}

/// Copies `n` bytes starting at `start`.
fn copy_range(b: &[u8], start: usize, n: usize) -> (res: Vec<u8>)
    requires
        start + n <= b@.len(),
    ensures
        res@ == b@.subrange(start as int, start + n),
{
    let blen = b.len();
    let mut out: Vec<u8> = Vec::new();
    let mut i: usize = 0;
    while i < n
        invariant
            blen == b@.len(),
            start + n <= b@.len(),
            i <= n,
            out@ == b@.subrange(start as int, start + i),
        decreases n - i,
    {
        out.push(b[start + i]);
        i = i + 1;
        assert(out@ =~= b@.subrange(start as int, start + i));
    }
    out
}

/// Facts about a byte string that starts with a length-prefixed payload.
proof fn lemma_prefixed(t: Seq<u8>, payload: Seq<u8>)
    requires
        payload.len() <= u32::MAX,
        is_prefix(be_bytes(payload.len(), 4) + payload, t),
    ensures
        t.len() >= 4 + payload.len(),
        be_value(t.take(4)) == payload.len(),
        t.subrange(4, 4 + payload.len() as int) == payload,
{
    lemma_be_len(payload.len(), 4);
    lemma_pow256_values();
    let x = be_bytes(payload.len(), 4) + payload;
    assert(x == t.take(x.len() as int));
    assert(t.take(4) =~= be_bytes(payload.len(), 4)) by {
        assert forall|i: int| 0 <= i < 4 implies t.take(4)[i] == be_bytes(payload.len(), 4)[i] by {
            assert(x[i] == t[i]);
        }
    }
    lemma_be_roundtrip(payload.len(), 4);
    assert(t.subrange(4, 4 + payload.len() as int) =~= payload) by {
        assert forall|i: int| 0 <= i < payload.len() implies t.subrange(4, 4 + payload.len() as int)[i] == payload[i] by {
            assert(x[4 + i] == t[4 + i]);
        }
    }
}

/// The bytes of a length-prefixed payload taken from where it starts.
proof fn lemma_prefixed_back(b: Seq<u8>, pos: int, n: nat)
    requires
        0 <= pos,
        pos + 4 + n <= b.len(),
        be_value(b.subrange(pos, pos + 4)) == n,
    ensures
        b.subrange(pos, pos + 4 + n) == be_bytes(n, 4) + b.subrange(pos + 4, pos + 4 + n),
{
    lemma_be_canonical(b.subrange(pos, pos + 4));
    assert(b.subrange(pos, pos + 4 + n) =~= b.subrange(pos, pos + 4) + b.subrange(pos + 4, pos + 4 + n));
}

/// Reads a field of the given kind at `pos`: the field and where it ends, or
/// `None` when no fitting field of that kind starts there.
fn read_field(b: &[u8], pos: usize, kind: FieldKind) -> (res: Option<(Field, usize)>)
    requires
        pos <= b@.len(),
    ensures
        match res {
            Some((f, np)) => {
                &&& pos <= np <= b@.len()
                &&& kind_of(f@) == kind
                &&& field_fits(f@)
                &&& b@.subrange(pos as int, np as int) == enc_field(f@)
            },
            None => forall|g: FieldView|
                kind_of(g) == kind && field_fits(g) ==> !is_prefix(#[trigger] enc_field(g), b@.skip(pos as int)),
        },
{
    let ghost t = b@.skip(pos as int);
    let remaining = b.len() - pos;
    proof {
        lemma_pow256_small(4);
        lemma_pow256_small(8);
        assert forall|g: FieldView| kind_of(g) == kind implies #[trigger] enc_field(g).len() >= match kind {
            FieldKind::Str => 4nat,
            FieldKind::Bytes => 4nat,
            FieldKind::U64 => 8nat,
            FieldKind::Bool => 1nat,
            _ => 4nat,
        } by {
            lemma_enc_field_len(g);
        }
    }
    match kind {
        FieldKind::Bool => {
            if remaining < 1 {
                return None;
            }
            let x = b[pos];
            if x == 0 || x == 1 {
                let f = Field::Bool(x == 1);
                assert(b@.subrange(pos as int, pos + 1) =~= enc_field(f@));
                Some((f, pos + 1))
            } else {
                assert forall|g: FieldView| kind_of(g) == kind && field_fits(g) implies !is_prefix(#[trigger] enc_field(g), t) by {
                    if is_prefix(enc_field(g), t) {
                        assert(enc_field(g)[0] == t[0]);
                    }
                }
                None
            }
        },
        FieldKind::U64 => {
            if remaining < 8 {
                return None;
            }
            let v = read_be(b, pos, 8);
            proof {
                lemma_be_canonical(b@.subrange(pos as int, pos + 8));
            }
            Some((Field::U64(v), pos + 8))
        },
        FieldKind::U32 => {
            if remaining < 4 {
                return None;
            }
            let v = read_be(b, pos, 4);
            proof {
                lemma_be_bound(b@.subrange(pos as int, pos + 4));
                lemma_be_canonical(b@.subrange(pos as int, pos + 4));
            }
            Some((Field::U32(v as u32), pos + 4))
        },
        FieldKind::I32 => {
            if remaining < 4 {
                return None;
            }
            let v = read_be(b, pos, 4);
            proof {
                lemma_be_bound(b@.subrange(pos as int, pos + 4));
                lemma_be_canonical(b@.subrange(pos as int, pos + 4));
            }
            let u = v as u32;
            let n = u as i32;
            assert((n as u32) == u) by (bit_vector)
                requires
                    n == u as i32,
            ;
            Some((Field::I32(n), pos + 4))
        },
        FieldKind::Bytes | FieldKind::Str => {
            if remaining < 4 {
                return None;
            }
            let len = read_be(b, pos, 4);
            proof {
                lemma_be_bound(b@.subrange(pos as int, pos + 4));
                assert(b@.subrange(pos as int, pos + 4) =~= t.take(4));
            }
            if remaining - 4 < len as usize {
                proof {
                    assert forall|g: FieldView| kind_of(g) == kind && field_fits(g) implies !is_prefix(#[trigger] enc_field(g), t) by {
                        if is_prefix(enc_field(g), t) {
                            match g {
                                FieldView::Str(s) => lemma_prefixed(t, encode_utf8(s)),
                                FieldView::Bytes(d) => lemma_prefixed(t, d),
                                _ => {},
                            }
                        }
                    }
                }
                return None;
            }
            let start = pos + 4;
            let end = start + len as usize;
            let seg = copy_range(b, start, len as usize);
            proof {
                lemma_prefixed_back(b@, pos as int, len as nat);
                assert(t.subrange(4, 4 + len as int) =~= seg@);
            }
            match kind {
                FieldKind::Bytes => Some((Field::Bytes(seg), end)),
                _ => {
                    let ghost seg_view = seg@;
                    match utf8_to_string(seg) {
                        Some(s) => {
                            proof {
                                vstd::utf8::decode_utf8_encode_utf8(seg_view);
                            }
                            Some((Field::Str(s), end))
                        },
                        None => {
                            proof {
                                assert forall|g: FieldView| kind_of(g) == kind && field_fits(g) implies !is_prefix(#[trigger] enc_field(g), t) by {
                                    if is_prefix(enc_field(g), t) {
                                        match g {
                                            FieldView::Str(s) => {
                                                lemma_prefixed(t, encode_utf8(s));
                                                assert(encode_utf8(s) == seg_view);
                                            },
                                            _ => {},
                                        }
                                    }
                                }
                            }
                            None
                        },
                    }
                },
            }
        },
    }
}

/// Abstract content of decoded fields.
spec fn field_views(s: Seq<Field>) -> Seq<FieldView> {
    s.map_values(|f: Field| f@)
}

/// Why bytes are not a packet: no packet encodes to them.
#[derive(Debug, Clone, Copy, PartialEq, Eq, Structural)]
pub struct DecodeError;

/// The kinds of the fields a tag announces.
fn layout_of(tag: u8) -> (res: Option<Vec<FieldKind>>)
    ensures
        match layout(tag) {
            Some(k) => res matches Some(v) && v@ == k,
            None => res is None,
        },
{
    let mut v: Vec<FieldKind> = Vec::new();
    if tag == 0 || tag == 3 || tag == 5 {
        v.push(FieldKind::Str);
        v.push(FieldKind::Str);
    } else if tag == 1 || tag == 4 || tag == 9 {
    } else if tag == 2 {
        v.push(FieldKind::Bool);
        v.push(FieldKind::Str);
    } else if tag == 6 {
        v.push(FieldKind::Str);
        v.push(FieldKind::U64);
        v.push(FieldKind::Bool);
    } else if tag == 7 {
        v.push(FieldKind::I32);
        v.push(FieldKind::Bytes);
    } else if tag == 8 {
        v.push(FieldKind::I32);
    } else if tag == 10 {
        v.push(FieldKind::U32);
        v.push(FieldKind::Str);
    } else {
        return None;
    }
    assert(layout(tag) matches Some(k) && v@ =~= k);
    Some(v)
}

/// The packet with a tag and fields of the kinds the tag announces.
fn build_packet(tag: u8, fields: Vec<Field>) -> (res: PacketType)
    requires
        layout(tag) == Some(kinds(field_views(fields@))),
    ensures
        res@ == packet_from(tag, field_views(fields@)),
{
    let ghost fs = field_views(fields@);
    let ghost ks = kinds(fs);
    assert(ks.len() == fs.len());
    assert forall|i: int| 0 <= i < fs.len() implies kind_of(fs[i]) == ks[i] && fs[i] == fields@[i]@ by {}
    let mut fields = fields;
    if tag == 1 {
        return PacketType::ClientAuthenticated;
    } else if tag == 4 {
        return PacketType::ReqRooms;
    } else if tag == 9 {
        return PacketType::ForceDisconnect;
    }
    if tag == 8 {
        let f0 = fields.pop();
        return match f0 {
            Some(Field::I32(peer_id)) => PacketType::PeerLeftRoom { peer_id },
            _ => PacketType::ReqRooms,
        };
    }
    if tag == 6 {
        let f2 = fields.pop();
        let f1 = fields.pop();
        let f0 = fields.pop();
        return match (f0, f1, f2) {
            (Some(Field::Str(room_id)), Some(Field::U64(target_id)), Some(Field::Bool(allowed))) => PacketType::JoinRes {
                room_id,
                target_id,
                allowed,
            },
            _ => PacketType::ReqRooms,
        };
    }
    let f1 = fields.pop();
    let f0 = fields.pop();
    match (f0, f1) {
        (Some(Field::Str(a)), Some(Field::Str(b))) => {
            if tag == 0 {
                PacketType::Authenticate { app_id: a, version: b }
            } else if tag == 3 {
                PacketType::ReqJoin { room_id: a, metadata: b }
            } else {
                PacketType::UpdateRoom { room_id: a, metadata: b }
            }
        },
        (Some(Field::Bool(is_public)), Some(Field::Str(metadata))) => PacketType::CreateRoom { is_public, metadata },
        (Some(Field::I32(from_peer)), Some(Field::Bytes(data))) => PacketType::GameData { from_peer, data },
        (Some(Field::U32(error_code)), Some(Field::Str(error_message))) => PacketType::Error {
            error_code,
            error_message,
        },
        _ => PacketType::ReqRooms,
    }
}

/// Where a field stands in the bytes of a packet.
proof fn lemma_field_at(b: Seq<u8>, tag: u8, fs: Seq<FieldView>, i: int)
    requires
        b == seq![tag] + enc_fields(fs),
        0 <= i < fs.len(),
    ensures
        ({
            let pos: int = 1 + enc_fields(fs.take(i)).len() as int;
            &&& b.subrange(1, pos) == enc_fields(fs.take(i))
            &&& is_prefix(enc_field(fs[i]), b.skip(pos))
        }),
{
    assert(fs =~= fs.take(i) + fs.skip(i));
    lemma_enc_fields_concat(fs.take(i), fs.skip(i));
    assert(fs.skip(i) =~= seq![fs[i]] + fs.skip(i + 1));
    lemma_enc_fields_concat(seq![fs[i]], fs.skip(i + 1));
    lemma_enc_fields_small(fs[i], fs[i], fs[i]);
    let pos: int = 1 + enc_fields(fs.take(i)).len() as int;
    let pre = enc_fields(fs.take(i));
    let x = enc_field(fs[i]);
    let rest = enc_fields(fs.skip(i + 1));
    assert(b =~= seq![tag] + pre + x + rest);
    assert(b.subrange(1, pos) =~= pre);
    assert(b.skip(pos) =~= x + rest);
    assert(b.skip(pos).take(x.len() as int) =~= x);
}

impl PacketType {
    /// The packet that bytes encode. Exactly one packet encodes to any bytes
    /// that some packet encodes to; for all other bytes the result is an error.
    pub fn from_bytes(bytes: &[u8]) -> (res: Result<PacketType, DecodeError>)
        ensures
            match res {
                Ok(p) => packet_fits(p@) && encode_packet(p@) == bytes@,
                Err(_) => forall|p: PacketView| packet_fits(p) ==> encode_packet(p) != bytes@,
            },
    {
        let blen = bytes.len();
        if blen == 0 {
            return Err(DecodeError);
        }
        let tag = bytes[0];
        let ks = match layout_of(tag) {
            Some(ks) => ks,
            None => {
                proof {
                    assert forall|p: PacketView| packet_fits(p) implies encode_packet(p) != bytes@ by {
                        lemma_packet_layout(p);
                        if encode_packet(p) == bytes@ {
                            assert(encode_packet(p)[0] == packet_tag(p));
                        }
                    }
                }
                return Err(DecodeError);
            },
        };
        let mut fields: Vec<Field> = Vec::new();
        let mut pos: usize = 1;
        let mut i: usize = 0;
        assert(bytes@.subrange(1, 1) =~= enc_fields(field_views(fields@)));
        while i < ks.len()
            invariant
                blen == bytes@.len(),
                blen > 0,
                bytes@[0] == tag,
                layout(tag) == Some(ks@),
                1 <= pos <= bytes@.len(),
                i <= ks@.len(),
                fields@.len() == i,
                kinds(field_views(fields@)) == ks@.take(i as int),
                forall|j: int| 0 <= j < i ==> field_fits(#[trigger] field_views(fields@)[j]),
                bytes@.subrange(1, pos as int) == enc_fields(field_views(fields@)),
                forall|p: PacketView|
                    packet_fits(p) && encode_packet(p) == bytes@ ==> field_views(fields@) == packet_fields(p).take(
                        i as int,
                    ),
            decreases ks@.len() - i,
        {
            let ghost before = field_views(fields@);
            match read_field(bytes, pos, ks[i]) {
                None => {
                    proof {
                        assert forall|p: PacketView| packet_fits(p) implies encode_packet(p) != bytes@ by {
                            if encode_packet(p) == bytes@ {
                                lemma_packet_layout(p);
                                let fs = packet_fields(p);
                                assert(encode_packet(p)[0] == packet_tag(p));
                                assert(kinds(fs) == ks@);
                                assert(kinds(fs)[i as int] == kind_of(fs[i as int]));
                                assert(fs.take(i as int) == before);
                                lemma_field_at(bytes@, tag, fs, i as int);
                                assert(field_fits(fs[i as int]));
                            }
                        }
                    }
                    return Err(DecodeError);
                },
                Some((f, np)) => {
                    let ghost fv = f@;
                    proof {
                        assert forall|p: PacketView|
                            packet_fits(p) && encode_packet(p) == bytes@ implies before.push(fv) == packet_fields(
                                p,
                            ).take(i + 1) by {
                            lemma_packet_layout(p);
                            let fs = packet_fields(p);
                            assert(encode_packet(p)[0] == packet_tag(p));
                            assert(kinds(fs) == ks@);
                            assert(kinds(fs)[i as int] == kind_of(fs[i as int]));
                            assert(fs.take(i as int) == before);
                            lemma_field_at(bytes@, tag, fs, i as int);
                            assert(field_fits(fs[i as int]));
                            assert(bytes@.subrange(pos as int, np as int) == enc_field(fv));
                            assert(bytes@.skip(pos as int).take(np - pos) =~= bytes@.subrange(pos as int, np as int));
                            assert(is_prefix(enc_field(fv), bytes@.skip(pos as int)));
                            lemma_field_unique(fv, fs[i as int], bytes@.skip(pos as int));
                            assert(fs.take(i + 1) =~= fs.take(i as int).push(fs[i as int]));
                        }
                    }
                    fields.push(f);
                    proof {
                        assert(field_views(fields@) =~= before.push(fv));
                        assert(ks@.take(i + 1) =~= ks@.take(i as int).push(ks@[i as int]));
                        assert(kinds(field_views(fields@)) =~= ks@.take(i + 1));
                        assert(before.push(fv).drop_last() =~= before);
                        assert(bytes@.subrange(1, np as int) =~= bytes@.subrange(1, pos as int) + bytes@.subrange(pos as int, np as int));
                    }
                    pos = np;
                    i = i + 1;
                },
            }
        }
        let ghost fsv = field_views(fields@);
        assert(ks@.take(i as int) =~= ks@);
        if pos != blen {
            proof {
                assert forall|p: PacketView| packet_fits(p) implies encode_packet(p) != bytes@ by {
                    if encode_packet(p) == bytes@ {
                        lemma_packet_layout(p);
                        let fs = packet_fields(p);
                        assert(encode_packet(p)[0] == packet_tag(p));
                        assert(kinds(fs) == ks@);
                        assert(fs.len() == ks@.len());
                        assert(fs.take(i as int) =~= fs);
                        assert(fsv == fs);
                        assert(encode_packet(p).len() == 1 + enc_fields(fs).len());
                    }
                }
            }
            return Err(DecodeError);
        }
        let packet = build_packet(tag, fields);
        proof {
            lemma_packet_from(tag, fsv);
            assert(bytes@ =~= seq![tag] + bytes@.subrange(1, pos as int));
            assert forall|j: int| 0 <= j < packet_fields(packet@).len() implies field_fits(#[trigger] packet_fields(packet@)[j]) by {
                assert(field_fits(fsv[j]));
            }
        }
        Ok(packet)
    }
}

/// Decoding inverts encoding: distinct fitting packets have distinct bytes, so
/// the packet `from_bytes` finds in the bytes of a packet is that packet.
pub proof fn lemma_encode_injective(p: PacketView, q: PacketView)
    requires
        packet_fits(p),
        packet_fits(q),
        encode_packet(p) == encode_packet(q),
    ensures
        p == q,
    decreases packet_fields(p).len(),
{
    lemma_packet_layout(p);
    lemma_packet_layout(q);
    let b = encode_packet(p);
    assert(b[0] == packet_tag(p));
    assert(encode_packet(q)[0] == packet_tag(q));
    let fp = packet_fields(p);
    let fq = packet_fields(q);
    assert(kinds(fp) == kinds(fq));
    assert(fp.len() == fq.len());
    assert forall|i: int| 0 <= i < fp.len() implies fp[i] == fq[i] by {
        lemma_fields_agree(b, packet_tag(p), fp, fq, i);
        assert(fp.take(i + 1)[i] == fp[i]);
        assert(fq.take(i + 1)[i] == fq[i]);
    }
    assert(fp =~= fq);
}

/// Two field lists of the same kinds that encode to the same bytes agree up to
/// any position.
proof fn lemma_fields_agree(b: Seq<u8>, tag: u8, fp: Seq<FieldView>, fq: Seq<FieldView>, i: int)
    requires
        b == seq![tag] + enc_fields(fp),
        b == seq![tag] + enc_fields(fq),
        kinds(fp) == kinds(fq),
        fp.len() == fq.len(),
        forall|j: int| 0 <= j < fp.len() ==> field_fits(#[trigger] fp[j]),
        forall|j: int| 0 <= j < fq.len() ==> field_fits(#[trigger] fq[j]),
        0 <= i < fp.len(),
    ensures
        fp.take(i + 1) == fq.take(i + 1),
    decreases i,
{
    if i > 0 {
        lemma_fields_agree(b, tag, fp, fq, i - 1);
    }
    assert(fp.take(i) =~= fq.take(i)) by {
        if i > 0 {
            assert(fp.take(i) =~= fp.take(i - 1 + 1));
            assert(fq.take(i) =~= fq.take(i - 1 + 1));
        }
    }
    lemma_field_at(b, tag, fp, i);
    lemma_field_at(b, tag, fq, i);
    assert(kinds(fp)[i] == kinds(fq)[i]);
    assert(kinds(fp)[i] == kind_of(fp[i]));
    assert(kinds(fq)[i] == kind_of(fq[i]));
    lemma_field_unique(fp[i], fq[i], b.skip(1 + enc_fields(fp.take(i)).len() as int));
    assert(fp.take(i + 1) =~= fp.take(i).push(fp[i]));
    assert(fq.take(i + 1) =~= fq.take(i).push(fq[i]));
}

/// The packet that bytes encode, if any.
pub open spec fn decode_spec(b: Seq<u8>) -> Option<PacketView> {
    if exists|p: PacketView| packet_fits(p) && encode_packet(p) == b {
        Some(choose|p: PacketView| packet_fits(p) && encode_packet(p) == b)
    } else {
        None
    }
}

/// Reading back what was written: the bytes of a packet decode to that packet.
pub proof fn lemma_decode_encode(p: PacketView)
    requires
        packet_fits(p),
    ensures
        decode_spec(encode_packet(p)) == Some(p),
{
    let b = encode_packet(p);
    assert(packet_fits(p) && encode_packet(p) == b);
    let q = choose|q: PacketView| packet_fits(q) && encode_packet(q) == b;
    lemma_encode_injective(p, q);
}

/// The packet that bytes encode, if any; see `decode_spec`.
pub fn decode(bytes: &[u8]) -> (res: Option<PacketType>)
    ensures
        match res {
            Some(p) => decode_spec(bytes@) == Some(p@),
            None => decode_spec(bytes@) is None,
        },
{
    match PacketType::from_bytes(bytes) {
        Ok(p) => {
            proof {
                let q = choose|q: PacketView| packet_fits(q) && encode_packet(q) == bytes@;
                lemma_encode_injective(p@, q);
            }
            Some(p)
        },
        Err(_) => None,
    }
}

/// Whether a string's UTF-8 bytes fit a `u32` length prefix.
fn str_fits(s: &String) -> (res: bool)
    ensures
        res == (encode_utf8(s@).len() <= u32::MAX),
{
    s.as_str().as_bytes().len() <= 0xFFFF_FFFFusize
}

impl PacketType {
    /// Whether every length in the packet fits its `u32` length prefix, so that
    /// it can be encoded.
    pub fn fits(&self) -> (res: bool)
        ensures
            res == packet_fits(self@),
    {
        let ghost fs = packet_fields(self@);
        let res = match self {
            PacketType::Authenticate { app_id, version } => str_fits(app_id) && str_fits(version),
            PacketType::CreateRoom { metadata, .. } => str_fits(metadata),
            PacketType::ReqJoin { room_id, metadata } => str_fits(room_id) && str_fits(metadata),
            PacketType::UpdateRoom { room_id, metadata } => str_fits(room_id) && str_fits(metadata),
            PacketType::JoinRes { room_id, .. } => str_fits(room_id),
            PacketType::GameData { data, .. } => data.len() <= 0xFFFF_FFFFusize,
            PacketType::Error { error_message, .. } => str_fits(error_message),
            _ => true,
        };
        proof {
            if res {
                assert forall|i: int| 0 <= i < fs.len() implies field_fits(#[trigger] fs[i]) by {}
            } else {
                assert(exists|i: int| 0 <= i < fs.len() && !field_fits(#[trigger] fs[i])) by {
                    match self@ {
                        PacketView::Authenticate { app_id, .. } => {
                            if !field_fits(fs[0]) {} else { assert(!field_fits(fs[1])); }
                        },
                        PacketView::CreateRoom { .. } => { assert(!field_fits(fs[1])); },
                        PacketView::ReqJoin { .. } => {
                            if !field_fits(fs[0]) {} else { assert(!field_fits(fs[1])); }
                        },
                        PacketView::UpdateRoom { .. } => {
                            if !field_fits(fs[0]) {} else { assert(!field_fits(fs[1])); }
                        },
                        PacketView::JoinRes { .. } => { assert(!field_fits(fs[0])); },
                        PacketView::GameData { .. } => { assert(!field_fits(fs[1])); },
                        PacketView::Error { .. } => { assert(!field_fits(fs[1])); },
                        _ => {},
                    }
                }
            }
        }
        res
    }
}

} // verus!
