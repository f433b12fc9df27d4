//! Byte layout of the session map shared with the packet classifier.
//!
//! A key is ten bytes, `dest_ip[4] | src_ip[4] | dest_port[2]`, every field
//! in network byte order. A value is sixteen bytes,
//! `created_at_ns[8] | last_seen_ns[8]`, in the byte order of the host.
//! Integers held by [`SessionKey`] and [`SessionValue`] are plain numbers
//! (the order in which an address is written, `10.0.0.9` being `0x0A000009`);
//! the byte order belongs to the encoding alone.
use vstd::prelude::*;

verus! {

/// Size in bytes of an encoded session key.
pub const KEY_SIZE: usize = 10;

/// Size in bytes of an encoded session value.
pub const VALUE_SIZE: usize = 16;

/// Order in which a multi-byte integer lies in memory.
#[derive(Clone, Copy, Debug, PartialEq, Eq, Structural)]
pub enum ByteOrder {
    Little,
    Big,
}

/// The lookup tuple of one pin-hole.
#[derive(Clone, Copy, Debug, PartialEq, Eq, Structural)]
pub struct SessionKey {
    pub dest_ip: u32,
    pub src_ip: u32,
    pub dest_port: u16,
}

/// The timestamps stored for one pin-hole, in nanoseconds of the monotonic clock.
#[derive(Clone, Copy, Debug, PartialEq, Eq, Structural)]
pub struct SessionValue {
    pub created_at_ns: u64,
    pub last_seen_ns: u64,
}

/// The integer whose big-endian bytes are `b0 b1`.
pub open spec fn be_u16(b0: u8, b1: u8) -> u16 {
    (b0 as u16) << 8 | (b1 as u16)
}

/// The integer whose big-endian bytes are `b0 .. b3`.
pub open spec fn be_u32(b0: u8, b1: u8, b2: u8, b3: u8) -> u32 {
    (b0 as u32) << 24 | (b1 as u32) << 16 | (b2 as u32) << 8 | (b3 as u32)
}

/// The integer whose big-endian bytes are `b0 .. b7`.
pub open spec fn be_u64(b0: u8, b1: u8, b2: u8, b3: u8, b4: u8, b5: u8, b6: u8, b7: u8) -> u64 {
    (b0 as u64) << 56 | (b1 as u64) << 48 | (b2 as u64) << 40 | (b3 as u64) << 32 | (b4 as u64)
        << 24 | (b5 as u64) << 16 | (b6 as u64) << 8 | (b7 as u64)
}

/// The `i`-th byte of `x` counted from the least significant one.
pub open spec fn byte_of_u64(x: u64, i: u64) -> u8 {
    ((x >> (8 * i)) & 0xff) as u8
}

pub open spec fn byte_of_u32(x: u32, i: u32) -> u8 {
    ((x >> (8 * i)) & 0xff) as u8
}

pub open spec fn byte_of_u16(x: u16, i: u16) -> u8 {
    ((x >> (8 * i)) & 0xff) as u8
}

/// Big-endian bytes of a `u32`.
pub open spec fn u32_be_bytes(x: u32) -> Seq<u8> {
    seq![byte_of_u32(x, 3), byte_of_u32(x, 2), byte_of_u32(x, 1), byte_of_u32(x, 0)]
}

/// Big-endian bytes of a `u16`.
pub open spec fn u16_be_bytes(x: u16) -> Seq<u8> {
    seq![byte_of_u16(x, 1), byte_of_u16(x, 0)]
}

/// Bytes of a `u64` in the given order.
pub open spec fn u64_bytes(x: u64, order: ByteOrder) -> Seq<u8> {
    let be = seq![
        byte_of_u64(x, 7),
        byte_of_u64(x, 6),
        byte_of_u64(x, 5),
        byte_of_u64(x, 4),
        byte_of_u64(x, 3),
        byte_of_u64(x, 2),
        byte_of_u64(x, 1),
        byte_of_u64(x, 0),
    ];
    match order {
        ByteOrder::Big => be,
        ByteOrder::Little => be.reverse(),
    }
}

/// The `u64` held by the eight bytes of `b` that start at `at`, read in the given order.
pub open spec fn u64_from(b: Seq<u8>, at: int, order: ByteOrder) -> u64 {
    match order {
        ByteOrder::Big => be_u64(
            b[at],
            b[at + 1],
            b[at + 2],
            b[at + 3],
            b[at + 4],
            b[at + 5],
            b[at + 6],
            b[at + 7],
        ),
        ByteOrder::Little => be_u64(
            b[at + 7],
            b[at + 6],
            b[at + 5],
            b[at + 4],
            b[at + 3],
            b[at + 2],
            b[at + 1],
            b[at],
        ),
    }
}

/// The ten bytes that stand for `k` in the session map.
pub open spec fn key_bytes(k: SessionKey) -> Seq<u8> {
    u32_be_bytes(k.dest_ip) + u32_be_bytes(k.src_ip) + u16_be_bytes(k.dest_port)
}

/// The sixteen bytes that stand for `v` in the session map on a host of the given order.
pub open spec fn value_bytes(v: SessionValue, order: ByteOrder) -> Seq<u8> {
    u64_bytes(v.created_at_ns, order) + u64_bytes(v.last_seen_ns, order)
}

/// The key that `b` stands for, if it has the size of one.
pub open spec fn key_of(b: Seq<u8>) -> Option<SessionKey> {
    if b.len() == KEY_SIZE {
        Some(
            SessionKey {
                dest_ip: be_u32(b[0], b[1], b[2], b[3]),
                src_ip: be_u32(b[4], b[5], b[6], b[7]),
                dest_port: be_u16(b[8], b[9]),
            },
        )
    } else {
        None
    }
}

/// The value that `b` stands for on a host of the given order, if it has the size of one.
pub open spec fn value_of(b: Seq<u8>, order: ByteOrder) -> Option<SessionValue> {
    if b.len() == VALUE_SIZE {
        Some(
            SessionValue {
                created_at_ns: u64_from(b, 0, order),
                last_seen_ns: u64_from(b, 8, order),
            },
        )
    } else {
        None
    }
}

proof fn lemma_u32_round_trip(x: u32)
    ensures
        be_u32(byte_of_u32(x, 3), byte_of_u32(x, 2), byte_of_u32(x, 1), byte_of_u32(x, 0)) == x,
{
    assert(((x >> 24u32) & 0xff) < 256 && ((x >> 16u32) & 0xff) < 256 && ((x >> 8u32) & 0xff)
        < 256 && ((x >> 0u32) & 0xff) < 256) by (bit_vector);
    assert(x == (((x >> 24u32) & 0xff) << 24 | ((x >> 16u32) & 0xff) << 16 | ((x >> 8u32) & 0xff)
        << 8 | ((x >> 0u32) & 0xff))) by (bit_vector);
}

proof fn lemma_u16_round_trip(x: u16)
    ensures
        be_u16(byte_of_u16(x, 1), byte_of_u16(x, 0)) == x,
{
    assert(((x >> 8u16) & 0xff) < 256 && ((x >> 0u16) & 0xff) < 256) by (bit_vector);
    assert(x == (((x >> 8u16) & 0xff) << 8 | ((x >> 0u16) & 0xff))) by (bit_vector);
}

proof fn lemma_u64_round_trip(x: u64)
    ensures
        be_u64(
            byte_of_u64(x, 7),
            byte_of_u64(x, 6),
            byte_of_u64(x, 5),
            byte_of_u64(x, 4),
            byte_of_u64(x, 3),
            byte_of_u64(x, 2),
            byte_of_u64(x, 1),
            byte_of_u64(x, 0),
        ) == x,
{
    assert(((x >> 56u64) & 0xff) < 256 && ((x >> 48u64) & 0xff) < 256 && ((x >> 40u64) & 0xff)
        < 256 && ((x >> 32u64) & 0xff) < 256 && ((x >> 24u64) & 0xff) < 256 && ((x >> 16u64)
        & 0xff) < 256 && ((x >> 8u64) & 0xff) < 256 && ((x >> 0u64) & 0xff) < 256)
        by (bit_vector);
    assert(x == (((x >> 56u64) & 0xff) << 56 | ((x >> 48u64) & 0xff) << 48 | ((x >> 40u64) & 0xff)
        << 40 | ((x >> 32u64) & 0xff) << 32 | ((x >> 24u64) & 0xff) << 24 | ((x >> 16u64) & 0xff)
        << 16 | ((x >> 8u64) & 0xff) << 8 | ((x >> 0u64) & 0xff))) by (bit_vector);
}

/// Decoding the bytes of a key gives the key back.
pub proof fn lemma_key_round_trip(k: SessionKey)
    ensures
        key_bytes(k).len() == KEY_SIZE,
        key_of(key_bytes(k)) == Some(k),
{
    lemma_u32_round_trip(k.dest_ip);
    lemma_u32_round_trip(k.src_ip);
    lemma_u16_round_trip(k.dest_port);
    let b = key_bytes(k);
    assert(b[0] == byte_of_u32(k.dest_ip, 3) && b[3] == byte_of_u32(k.dest_ip, 0));
    assert(b[4] == byte_of_u32(k.src_ip, 3) && b[7] == byte_of_u32(k.src_ip, 0));
    assert(b[8] == byte_of_u16(k.dest_port, 1) && b[9] == byte_of_u16(k.dest_port, 0));
}

/// Ten bytes are the encoding of the key they decode to.
pub proof fn lemma_key_bytes_of(b: Seq<u8>)
    requires
        b.len() == KEY_SIZE,
    ensures
        key_bytes(key_of(b)->0) == b,
{
    let k = key_of(b)->0;
    let (b0, b1, b2, b3) = (b[0] as u32, b[1] as u32, b[2] as u32, b[3] as u32);
    let (b4, b5, b6, b7) = (b[4] as u32, b[5] as u32, b[6] as u32, b[7] as u32);
    let (b8, b9) = (b[8] as u16, b[9] as u16);
    assert(b0 < 256 && b1 < 256 && b2 < 256 && b3 < 256 ==> {
        let x = b0 << 24 | b1 << 16 | b2 << 8 | b3;
        &&& (x >> 24u32) & 0xff == b0
        &&& (x >> 16u32) & 0xff == b1
        &&& (x >> 8u32) & 0xff == b2
        &&& (x >> 0u32) & 0xff == b3
    }) by (bit_vector);
    assert(b4 < 256 && b5 < 256 && b6 < 256 && b7 < 256 ==> {
        let x = b4 << 24 | b5 << 16 | b6 << 8 | b7;
        &&& (x >> 24u32) & 0xff == b4
        &&& (x >> 16u32) & 0xff == b5
        &&& (x >> 8u32) & 0xff == b6
        &&& (x >> 0u32) & 0xff == b7
    }) by (bit_vector);
    assert(b8 < 256 && b9 < 256 ==> {
        let x = b8 << 8 | b9;
        &&& (x >> 8u16) & 0xff == b8
        &&& (x >> 0u16) & 0xff == b9
    }) by (bit_vector);
    assert(key_bytes(k) =~= b);
}

/// Two keys with the same bytes are the same key.
pub proof fn lemma_key_bytes_injective(a: SessionKey, b: SessionKey)
    ensures
        key_bytes(a) == key_bytes(b) <==> a == b,
{
    lemma_key_round_trip(a);
    lemma_key_round_trip(b);
}

/// Decoding the bytes of a value gives the value back, in either byte order.
pub proof fn lemma_value_round_trip(v: SessionValue, order: ByteOrder)
    ensures
        value_bytes(v, order).len() == VALUE_SIZE,
        value_of(value_bytes(v, order), order) == Some(v),
{
    lemma_u64_round_trip(v.created_at_ns);
    lemma_u64_round_trip(v.last_seen_ns);
    let b = value_bytes(v, order);
    let c = u64_bytes(v.created_at_ns, order);
    let l = u64_bytes(v.last_seen_ns, order);
    assert(forall|i: int| 0 <= i < 8 ==> b[i] == c[i]);
    assert(forall|i: int| 0 <= i < 8 ==> b[8 + i] == l[i]);
}

/// Pushes the big-endian bytes of `x` onto `out`.
pub(crate) fn push_u32_be(out: &mut Vec<u8>, x: u32)
    ensures
        final(out)@ == old(out)@ + u32_be_bytes(x),
{
    out.push(((x >> 24u32) & 0xff) as u8);
    out.push(((x >> 16u32) & 0xff) as u8);
    out.push(((x >> 8u32) & 0xff) as u8);
    out.push(((x >> 0u32) & 0xff) as u8);
    assert(out@ =~= old(out)@ + u32_be_bytes(x));
}

pub(crate) fn push_u16_be(out: &mut Vec<u8>, x: u16)
    ensures
        final(out)@ == old(out)@ + u16_be_bytes(x),
{
    out.push(((x >> 8u16) & 0xff) as u8);
    out.push(((x >> 0u16) & 0xff) as u8);
    assert(out@ =~= old(out)@ + u16_be_bytes(x));
}

pub(crate) fn push_u64(out: &mut Vec<u8>, x: u64, order: ByteOrder)
    ensures
        final(out)@ == old(out)@ + u64_bytes(x, order),
{
    match order {
        ByteOrder::Big => {
            out.push(((x >> 56u64) & 0xff) as u8);
            out.push(((x >> 48u64) & 0xff) as u8);
            out.push(((x >> 40u64) & 0xff) as u8);
            out.push(((x >> 32u64) & 0xff) as u8);
            out.push(((x >> 24u64) & 0xff) as u8);
            out.push(((x >> 16u64) & 0xff) as u8);
            out.push(((x >> 8u64) & 0xff) as u8);
            out.push(((x >> 0u64) & 0xff) as u8);
        },
        ByteOrder::Little => {
            out.push(((x >> 0u64) & 0xff) as u8);
            out.push(((x >> 8u64) & 0xff) as u8);
            out.push(((x >> 16u64) & 0xff) as u8);
            out.push(((x >> 24u64) & 0xff) as u8);
            out.push(((x >> 32u64) & 0xff) as u8);
            out.push(((x >> 40u64) & 0xff) as u8);
            out.push(((x >> 48u64) & 0xff) as u8);
            out.push(((x >> 56u64) & 0xff) as u8);
        },
    }
    assert(out@ =~= old(out)@ + u64_bytes(x, order));
}

fn read_u64(b: &Vec<u8>, at: usize, order: ByteOrder) -> (r: u64)
    requires
        at + 8 <= b.len(),
    ensures
        r == u64_from(b@, at as int, order),
{
    let (b0, b1, b2, b3, b4, b5, b6, b7) = match order {
        ByteOrder::Big => (
            b[at],
            b[at + 1],
            b[at + 2],
            b[at + 3],
            b[at + 4],
            b[at + 5],
            b[at + 6],
            b[at + 7],
        ),
        ByteOrder::Little => (
            b[at + 7],
            b[at + 6],
            b[at + 5],
            b[at + 4],
            b[at + 3],
            b[at + 2],
            b[at + 1],
            b[at],
        ),
    };
    (b0 as u64) << 56u64 | (b1 as u64) << 48u64 | (b2 as u64) << 40u64 | (b3 as u64) << 32u64 | (
    b4 as u64) << 24u64 | (b5 as u64) << 16u64 | (b6 as u64) << 8u64 | (b7 as u64)
}

impl SessionKey {
    /// The ten bytes under which this key stands in the session map.
    pub fn to_bytes(&self) -> (r: Vec<u8>)
        ensures
            r@ == key_bytes(*self),
            r@.len() == KEY_SIZE,
    {
        let mut out: Vec<u8> = Vec::with_capacity(KEY_SIZE);
        push_u32_be(&mut out, self.dest_ip);
        push_u32_be(&mut out, self.src_ip);
        push_u16_be(&mut out, self.dest_port);
        out
    }

    /// Reads a key from raw map bytes; `None` unless there are exactly ten of them.
    pub fn from_bytes(b: &Vec<u8>) -> (r: Option<SessionKey>)
        ensures
            r == key_of(b@),
    {
        if b.len() != KEY_SIZE {
            return None;
        }
        let dest_ip = (b[0] as u32) << 24u32 | (b[1] as u32) << 16u32 | (b[2] as u32) << 8u32 | (
        b[3] as u32);
        let src_ip = (b[4] as u32) << 24u32 | (b[5] as u32) << 16u32 | (b[6] as u32) << 8u32 | (
        b[7] as u32);
        let dest_port = (b[8] as u16) << 8u16 | (b[9] as u16);
        Some(SessionKey { dest_ip, src_ip, dest_port })
    }
}

impl SessionValue {
    /// The sixteen bytes that store this value on a host of the given order.
    pub fn to_bytes(&self, order: ByteOrder) -> (r: Vec<u8>)
        ensures
            r@ == value_bytes(*self, order),
            r@.len() == VALUE_SIZE,
    {
        let mut out: Vec<u8> = Vec::with_capacity(VALUE_SIZE);
        push_u64(&mut out, self.created_at_ns, order);
        push_u64(&mut out, self.last_seen_ns, order);
        out
    }

    /// Reads a value from raw map bytes; `None` unless there are exactly sixteen of them.
    pub fn from_bytes(b: &Vec<u8>, order: ByteOrder) -> (r: Option<SessionValue>)
        ensures
            r == value_of(b@, order),
    {
        if b.len() != VALUE_SIZE {
            return None;
        }
        let created_at_ns = read_u64(b, 0, order);
        let last_seen_ns = read_u64(b, 8, order);
        Some(SessionValue { created_at_ns, last_seen_ns })
    }
}

/// Relies on `bytemuck::cast`, which reinterprets the memory of a `u16` as two
/// bytes: they are the value's bytes in this machine's order, one of the two orders.
#[verifier::external_body]
fn memory_bytes_of_u16(x: u16) -> (r: [u8; 2])
    ensures
        r@ == seq![byte_of_u16(x, 0), byte_of_u16(x, 1)] || r@ == seq![
            byte_of_u16(x, 1),
            byte_of_u16(x, 0),
        ],
{
    bytemuck::cast::<u16, [u8; 2]>(x)
}

/// The byte order of the machine this runs on, the one in which the packet
/// classifier stores its timestamps.
pub fn native_byte_order() -> ByteOrder {
    let probe = memory_bytes_of_u16(1);
    if probe[0] == 1 {
        ByteOrder::Little
    } else {
        ByteOrder::Big
    }
}

} // verus!
