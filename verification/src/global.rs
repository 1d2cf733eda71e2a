//! Byte obfuscation, big-endian integer codec, counters and the clock.
use vstd::prelude::*;

verus! {

/// Byte substitution used to obfuscate traffic: bytes strictly between 45
/// and 210 are mirrored (`b -> 255 - b`), the others are left alone.
pub open spec fn spec_u8r(input: u8) -> u8 {
    if 45 < input && input < 255 - 45 {
        (255 - input) as u8
    } else {
        input
    }
}

/// The obfuscation of a whole byte sequence, byte by byte.
pub open spec fn spec_reverse(s: Seq<u8>) -> Seq<u8> {
    Seq::new(s.len(), |i: int| spec_u8r(s[i]))
}

pub fn u8r(input: u8) -> (r: u8)
    ensures
        r == spec_u8r(input),
{
    if input > 45 && input < 255 - 45 {
        255 - input
    } else {
        input
    }
}

pub fn reverse(buf: &mut [u8])
    ensures
        final(buf)@ == spec_reverse(old(buf)@),
{
    let n = buf.len();
    for i in 0..n
        invariant
            n == buf@.len(),
            old(buf)@.len() == n,
            forall|j: int| 0 <= j < i ==> buf@[j] == spec_u8r(old(buf)@[j]),
            forall|j: int| i <= j < n ==> buf@[j] == old(buf)@[j],
    {
        let b = u8r(buf[i]);
        buf[i] = b;
    }
    assert(buf@ =~= spec_reverse(old(buf)@));
}

/// Law: the byte substitution is its own inverse.
pub proof fn lemma_u8r_involution(x: u8)
    ensures
        spec_u8r(spec_u8r(x)) == x,
{
}

/// Law: obfuscating a buffer twice gives the buffer back.
pub proof fn lemma_reverse_involution(s: Seq<u8>)
    ensures
        spec_reverse(spec_reverse(s)) == s,
{
    assert forall|i: int| 0 <= i < s.len() implies #[trigger] spec_reverse(spec_reverse(s))[i] == s[i] by {
        lemma_u8r_involution(s[i]);
    }
    assert(spec_reverse(spec_reverse(s)) =~= s);
}


/// The bytes of an optional vector.
pub open spec fn opt_bytes(r: Option<Vec<u8>>) -> Option<Seq<u8>> {
    match r {
        Some(v) => Some(v@),
        None => None,
    }
}

/// Big-endian encoding of a `u64` (most significant byte first).
pub open spec fn spec_be_bytes(x: u64) -> Seq<u8> {
    seq![
        (x >> 56u64) as u8,
        (x >> 48u64) as u8,
        (x >> 40u64) as u8,
        (x >> 32u64) as u8,
        (x >> 24u64) as u8,
        (x >> 16u64) as u8,
        (x >> 8u64) as u8,
        x as u8,
    ]
}

/// Big-endian decoding of eight bytes into a `u64`.
pub open spec fn spec_from_be_bytes(s: Seq<u8>) -> u64
    recommends
        s.len() == 8,
{
    ((s[0] as u64) << 56u64) | ((s[1] as u64) << 48u64) | ((s[2] as u64) << 40u64) | ((
    s[3] as u64) << 32u64) | ((s[4] as u64) << 24u64) | ((s[5] as u64) << 16u64) | ((
    s[6] as u64) << 8u64) | (s[7] as u64)
}

/// `x.to_be_bytes()`, as a vector.
pub fn be_bytes(x: u64) -> (r: Vec<u8>)
    ensures
        r@ == spec_be_bytes(x),
{
    let mut v: Vec<u8> = Vec::new();
    v.push((x >> 56u64) as u8);
    v.push((x >> 48u64) as u8);
    v.push((x >> 40u64) as u8);
    v.push((x >> 32u64) as u8);
    v.push((x >> 24u64) as u8);
    v.push((x >> 16u64) as u8);
    v.push((x >> 8u64) as u8);
    v.push(x as u8);
    assert(v@ =~= spec_be_bytes(x));
    v
}

/// `u64::from_be_bytes` on a buffer of exactly eight bytes.
pub fn from_be_bytes(buf: &[u8]) -> (r: u64)
    requires
        buf@.len() == 8,
    ensures
        r == spec_from_be_bytes(buf@),
{
    ((buf[0] as u64) << 56u64) | ((buf[1] as u64) << 48u64) | ((buf[2] as u64) << 40u64) | ((
    buf[3] as u64) << 32u64) | ((buf[4] as u64) << 24u64) | ((buf[5] as u64) << 16u64) | ((
    buf[6] as u64) << 8u64) | (buf[7] as u64)
}

/// Law: decoding the big-endian bytes of `x` gives `x` back.
pub proof fn lemma_be_bytes_roundtrip(x: u64)
    ensures
        spec_be_bytes(x).len() == 8,
        spec_from_be_bytes(spec_be_bytes(x)) == x,
{
    let s = spec_be_bytes(x);
    assert(s[0] == (x >> 56u64) as u8);
    assert(s[7] == x as u8);
    assert((((x >> 56u64) as u8 as u64) << 56u64) | (((x >> 48u64) as u8 as u64) << 48u64) | ((
    (x >> 40u64) as u8 as u64) << 40u64) | (((x >> 32u64) as u8 as u64) << 32u64) | (((x
        >> 24u64) as u8 as u64) << 24u64) | (((x >> 16u64) as u8 as u64) << 16u64) | (((x
        >> 8u64) as u8 as u64) << 8u64) | (x as u8 as u64) == x) by (bit_vector);
}

/// The frame counter and the line-id generator of a gateway.
pub struct Global {
    frame: i32,
    id: u64,
}

impl Global {
    pub closed spec fn frame_spec(&self) -> i32 {
        self.frame
    }

    /// The last id handed out (ids handed out start at 11).
    pub closed spec fn last_id(&self) -> u64 {
        self.id
    }

    pub fn new() -> (r: Global)
        ensures
            r.frame_spec() == 0,
            r.last_id() == 10,
    {
        Global { frame: 0, id: 10 }
    }

    pub fn frame(&self) -> (r: i32)
        ensures
            r == self.frame_spec(),
    {
        self.frame
    }

    /// The last id handed out.
    pub fn id(&self) -> (r: u64)
        ensures
            r == self.last_id(),
    {
        self.id
    }

    pub fn next_frame(&mut self)
        requires
            old(self).frame_spec() < i32::MAX,
        ensures
            final(self).frame_spec() == old(self).frame_spec() + 1,
            final(self).last_id() == old(self).last_id(),
    {
        self.frame = self.frame + 1;
    }

    pub fn next_id(&mut self) -> (r: u64)
        requires
            old(self).last_id() < u64::MAX,
        ensures
            r == old(self).last_id() + 1,
            final(self).last_id() == r,
            final(self).frame_spec() == old(self).frame_spec(),
    {
        self.id = self.id + 1;
        self.id
    }
}

} // verus!
