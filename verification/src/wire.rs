//! Byte-level vocabulary shared by the framing and record layers: the
//! opaque frame payload, and the 4-byte big-endian length prefix that
//! delimits frames on the wire.

use vstd::prelude::*;

verus! {

/// An opaque length-delimited byte payload: the unit of exchange
/// between the framer and the record layer above it.
#[derive(Clone, PartialEq, Eq, Debug)]
pub struct Frame(pub Vec<u8>);

impl View for Frame {
    type V = Seq<u8>;

    open spec fn view(&self) -> Seq<u8> {
        self.0@
    }
}

/// The four big-endian bytes of a 32-bit length.
pub open spec fn be4(x: u32) -> Seq<u8> {
    seq![
        (x >> 24) as u8,
        ((x >> 16) & 0xff) as u8,
        ((x >> 8) & 0xff) as u8,
        (x & 0xff) as u8,
    ]
}

/// The 32-bit value read from four big-endian bytes.
pub open spec fn from_be4(b: Seq<u8>) -> u32
    recommends
        b.len() == 4,
{
    ((b[0] as u32) << 24) | ((b[1] as u32) << 16) | ((b[2] as u32) << 8) | (b[3] as u32)
}

/// Reading back the four big-endian bytes of `x` yields `x` again.
pub proof fn lemma_be4_from_be4(x: u32)
    ensures
        from_be4(be4(x)) == x,
{
    let b = be4(x);
    assert(((x >> 24) as u8 as u32) << 24 | (((x >> 16) & 0xff) as u8 as u32) << 16 | (((x >> 8)
        & 0xff) as u8 as u32) << 8 | ((x & 0xff) as u8 as u32) == x) by (bit_vector);
}

/// Writes `x` as four big-endian bytes.
pub fn u32_to_be(x: u32) -> (r: Vec<u8>)
    ensures
        r@ == be4(x),
{
    let mut r: Vec<u8> = Vec::new();
    r.push((x >> 24) as u8);
    r.push(((x >> 16) & 0xff) as u8);
    r.push(((x >> 8) & 0xff) as u8);
    r.push((x & 0xff) as u8);
    assert(r@ =~= be4(x));
    r
}

/// Reads a 32-bit value from four big-endian bytes.
pub fn u32_from_be(b0: u8, b1: u8, b2: u8, b3: u8) -> (r: u32)
    ensures
        r == from_be4(seq![b0, b1, b2, b3]),
{
    ((b0 as u32) << 24) | ((b1 as u32) << 16) | ((b2 as u32) << 8) | (b3 as u32)
}

/// The wire form of a frame: the payload's length as four big-endian
/// bytes, then the payload itself.
pub open spec fn frame_bytes(payload: Seq<u8>) -> Seq<u8>
    recommends
        payload.len() <= u32::MAX,
{
    be4(payload.len() as u32) + payload
}

/// Prepends the 4-byte big-endian length to a frame's payload, giving
/// the exact byte sequence to put on the wire.
pub fn frame_data(frame: Frame) -> (r: Vec<u8>)
    requires
        frame@.len() <= u32::MAX,
    ensures
        r@ == frame_bytes(frame@),
{
    let ghost orig = frame@;
    let len: u32 = frame.0.len() as u32;
    let mut r = u32_to_be(len);
    let mut payload = frame.0;
    r.append(&mut payload);
    assert(r@ =~= frame_bytes(orig));
    r
}

} // verus!
