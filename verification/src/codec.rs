use vstd::prelude::*;

verus! {

/// The unsigned 32-bit value of four bytes read most significant first.
pub open spec fn be_u32(b: Seq<u8>) -> int
    recommends
        b.len() == 4,
{
    b[0] * 0x100_0000 + b[1] * 0x1_0000 + b[2] * 0x100 + b[3]
}

/// Reinterprets an unsigned 32-bit quantity as a two's complement `i32`.
pub open spec fn wrap_i32(x: int) -> int {
    if x >= 0x8000_0000 {
        x - 0x1_0000_0000
    } else {
        x
    }
}

/// The two's complement bit pattern of `v` as an unsigned 32-bit quantity.
pub open spec fn unsigned_i32(v: i32) -> int {
    if v < 0 {
        v + 0x1_0000_0000
    } else {
        v as int
    }
}

/// The four bytes of `v`, most significant first.
pub open spec fn be_bytes(v: i32) -> Seq<u8> {
    let u = unsigned_i32(v);
    seq![
        (u / 0x100_0000) as u8,
        ((u / 0x1_0000) % 0x100) as u8,
        ((u / 0x100) % 0x100) as u8,
        (u % 0x100) as u8,
    ]
}

/// The four bytes of `v`, least significant first.
pub open spec fn le_bytes(v: i32) -> Seq<u8> {
    let b = be_bytes(v);
    seq![b[3], b[2], b[1], b[0]]
}

/// Decodes a big-endian `i32` (the length prefix of the TCP protocol and
/// the id counter stored at the head of the data file).
pub fn u8toi32(src: [u8; 4]) -> (r: i32)
    ensures
        r == wrap_i32(be_u32(src@)),
{
    let b0 = src[0];
    let b1 = src[1];
    let b2 = src[2];
    let b3 = src[3];
    let u: u32 = ((b0 as u32) << 24u32) | ((b1 as u32) << 16u32) | ((b2 as u32) << 8u32) | (b3
        as u32);
    assert(u == b0 * 0x100_0000 + b1 * 0x1_0000 + b2 * 0x100 + b3) by (bit_vector)
        requires
            u == ((b0 as u32) << 24u32) | ((b1 as u32) << 16u32) | ((b2 as u32) << 8u32) | (
            b3 as u32),
    ;
    let r = u as i32;
    assert(r == (if u >= 0x8000_0000 {
        u - 0x1_0000_0000
    } else {
        u as int
    })) by (bit_vector)
        requires
            r == u as i32,
    ;
    r
}

/// Encodes an `i32` as four big-endian bytes.
pub fn i32tou8(value: i32) -> (r: [u8; 4])
    ensures
        r@ == be_bytes(value),
{
    let u: u32 = value as u32;
    assert(u == unsigned_i32(value)) by (bit_vector)
        requires
            u == value as u32,
    ;
    let mut src = [0u8; 4];
    src[0] = ((u >> 24u32) & 0xFF) as u8;
    src[1] = ((u >> 16u32) & 0xFF) as u8;
    src[2] = ((u >> 8u32) & 0xFF) as u8;
    src[3] = (u & 0xFF) as u8;
    assert(((u >> 24u32) & 0xFF) == u / 0x100_0000 && ((u >> 16u32) & 0xFF) == (u / 0x1_0000)
        % 0x100 && ((u >> 8u32) & 0xFF) == (u / 0x100) % 0x100 && (u & 0xFF) == u % 0x100)
        by (bit_vector);
    assert(src@ =~= be_bytes(value));
    src
}

/// Decoding the big-endian bytes of a value gives the value back:
/// `u8toi32(i32tou8(v)) == v`.
pub proof fn law_decode_encode(v: i32)
    ensures
        wrap_i32(be_u32(be_bytes(v))) == v,
{
    let u = unsigned_i32(v);
    assert(0 <= u < 0x1_0000_0000);
    let q3 = u / 0x100_0000;
    let q2 = (u / 0x1_0000) % 0x100;
    let q1 = (u / 0x100) % 0x100;
    let q0 = u % 0x100;
    assert(q3 * 0x100_0000 + q2 * 0x1_0000 + q1 * 0x100 + q0 == u) by (nonlinear_arith)
        requires
            0 <= u < 0x1_0000_0000,
            q3 == u / 0x100_0000,
            q2 == (u / 0x1_0000) % 0x100,
            q1 == (u / 0x100) % 0x100,
            q0 == u % 0x100,
    ;
    assert(0 <= q3 < 0x100) by (nonlinear_arith)
        requires
            0 <= u < 0x1_0000_0000,
            q3 == u / 0x100_0000,
    ;
}

/// Encoding the decoded value of four bytes gives the same bytes back:
/// `i32tou8(u8toi32(b)) == b`.
pub proof fn law_encode_decode(b: Seq<u8>)
    requires
        b.len() == 4,
    ensures
        be_bytes(wrap_i32(be_u32(b)) as i32) =~= b,
{
    let u = be_u32(b);
    let (b0, b1, b2, b3) = (b[0] as int, b[1] as int, b[2] as int, b[3] as int);
    assert(0 <= u < 0x1_0000_0000);
    assert(unsigned_i32(wrap_i32(u) as i32) == u);
    assert(u / 0x100_0000 == b0 && (u / 0x1_0000) % 0x100 == b1 && (u / 0x100) % 0x100 == b2
        && u % 0x100 == b3) by (nonlinear_arith)
        requires
            u == b0 * 0x100_0000 + b1 * 0x1_0000 + b2 * 0x100 + b3,
            0 <= b0 < 0x100,
            0 <= b1 < 0x100,
            0 <= b2 < 0x100,
            0 <= b3 < 0x100,
    ;
}

} // verus!
