//! Wire codec for the relay protocol: a 4-byte big-endian length prefix
//! followed by the payload whitened with a running XOR chain seeded by a
//! fixed one-byte key, in which each output byte becomes the key for the
//! next input byte.

use vstd::prelude::*;

verus! {

/// Seed byte of the whitening cipher, fixed by the relay hardware.
pub const CIPHER_KEY: u8 = 171;

/// The `i`-th byte of the whitened payload: the previous cipher byte
/// (the seed for the first byte) XORed with the `i`-th plain byte.
pub open spec fn whiten_byte(p: Seq<u8>, i: int) -> u8
    recommends
        0 <= i < p.len(),
    decreases i,
{
    if i <= 0 {
        CIPHER_KEY ^ p[0]
    } else {
        whiten_byte(p, i - 1) ^ p[i]
    }
}

/// The whitened form of a payload.
pub open spec fn whiten(p: Seq<u8>) -> Seq<u8> {
    Seq::new(p.len(), |i: int| whiten_byte(p, i))
}

/// The plain form of a whitened payload: each cipher byte un-whitens
/// with the previous cipher byte (the seed for the first byte).
pub open spec fn unwhiten(c: Seq<u8>) -> Seq<u8> {
    Seq::new(c.len(), |i: int| (if i == 0 { CIPHER_KEY } else { c[i - 1] }) ^ c[i])
}

/// A `u32` written as four big-endian bytes.
pub open spec fn spec_u32_to_be_bytes(x: u32) -> Seq<u8> {
    seq![
        ((x >> 24) & 0xff) as u8,
        ((x >> 16) & 0xff) as u8,
        ((x >> 8) & 0xff) as u8,
        (x & 0xff) as u8,
    ]
}

/// Four big-endian bytes read back as a `u32`.
pub open spec fn spec_u32_from_be_bytes(s: Seq<u8>) -> u32
    recommends
        s.len() == 4,
{
    ((s[0] as u32) << 24) | ((s[1] as u32) << 16) | ((s[2] as u32) << 8) | (s[3] as u32)
}

proof fn lemma_u32_be_bytes_round_trip(x: u32)
    ensures
        spec_u32_to_be_bytes(x).len() == 4,
        spec_u32_from_be_bytes(spec_u32_to_be_bytes(x)) == x,
{
    assert(((((x >> 24) & 0xff) as u8) as u32) << 24 | ((((x >> 16) & 0xff) as u8) as u32) << 16
        | ((((x >> 8) & 0xff) as u8) as u32) << 8 | (((x & 0xff) as u8) as u32) == x)
        by (bit_vector);
}

/// The complete frame for a payload: big-endian length (reduced to 32
/// bits, as the hardware's header holds no more), then the whitened
/// payload.
pub open spec fn frame(p: Seq<u8>) -> Seq<u8> {
    spec_u32_to_be_bytes(p.len() as u32) + whiten(p)
}

/// The payload recovered from raw frame bytes, if the framing is sound:
/// at least four bytes, and the announced length fits in what follows.
/// Bytes past the announced length are ignored, as the hardware pads
/// its reads.
pub open spec fn frame_payload(data: Seq<u8>) -> Option<Seq<u8>> {
    if data.len() < 4 {
        None
    } else {
        let n = spec_u32_from_be_bytes(data.take(4)) as int;
        if 4 + n <= data.len() {
            Some(unwhiten(data.subrange(4, 4 + n)))
        } else {
            None
        }
    }
}

/// Un-whitening inverts whitening: the codec round-trips every payload,
/// and the frame's prefix is exactly the payload length.
pub proof fn lemma_codec_round_trip(p: Seq<u8>)
    requires
        p.len() <= u32::MAX,
    ensures
        frame(p).len() == 4 + p.len(),
        frame(p).take(4) == spec_u32_to_be_bytes(p.len() as u32),
        frame_payload(frame(p)) == Some(p),
{
    let f = frame(p);
    lemma_u32_be_bytes_round_trip(p.len() as u32);
    assert(f.take(4) =~= spec_u32_to_be_bytes(p.len() as u32));
    assert(f.subrange(4, 4 + p.len() as int) =~= whiten(p));
    assert forall|i: int| 0 <= i < p.len() implies unwhiten(whiten(p))[i] == p[i] by {
        let k: u8 = if i == 0 {
            CIPHER_KEY
        } else {
            whiten_byte(p, i - 1)
        };
        let b = p[i];
        assert(k ^ (k ^ b) == b) by (bit_vector);
    }
    assert(unwhiten(whiten(p)) =~= p);
}

/// Applies the whitening chain and prefixes the payload's length as
/// four big-endian bytes, producing the bytes sent on the wire.
pub fn encrypt(payload: &Vec<u8>) -> (r: Vec<u8>)
    ensures
        r@ == frame(payload@),
{
    let len32: u32 = #[verifier::truncate] (payload.len() as u32);
    let mut result: Vec<u8> = u32_to_be_bytes(len32);
    assert(result@.take(4) =~= result@);
    let mut key: u8 = CIPHER_KEY;
    let mut idx: usize = 0;
    while idx < payload.len()
        invariant
            idx <= payload@.len(),
            result@.len() == 4 + idx,
            result@.take(4) == spec_u32_to_be_bytes(payload@.len() as u32),
            forall|j: int| 0 <= j < idx ==> result@[4 + j] == whiten_byte(payload@, j),
            key == if idx == 0 {
                CIPHER_KEY
            } else {
                whiten_byte(payload@, idx - 1)
            },
        decreases payload@.len() - idx,
    {
        let a = key ^ payload[idx];
        key = a;
        result.push(a);
        assert(result@.take(4) =~= result@.subrange(0, 4));
        idx += 1;
    }
    assert(result@ =~= frame(payload@));
    result
}

/// Undoes the whitening chain on a ciphertext (without a length
/// prefix), recovering the plain payload.
pub fn decrypt(data: Vec<u8>) -> (r: Vec<u8>)
    ensures
        r@ == unwhiten(data@),
{
    let mut result: Vec<u8> = Vec::new();
    let mut prev: u8 = CIPHER_KEY;
    let mut idx: usize = 0;
    while idx < data.len()
        invariant
            idx <= data@.len(),
            result@.len() == idx,
            forall|j: int| 0 <= j < idx ==> result@[j] == unwhiten(data@)[j],
            prev == if idx == 0 {
                CIPHER_KEY
            } else {
                data@[idx - 1]
            },
        decreases data@.len() - idx,
    {
        let b = data[idx];
        result.push(prev ^ b);
        prev = b;
        idx += 1;
    }
    assert(result@ =~= unwhiten(data@));
    result
}

/// Checks the framing of raw bytes read from the wire and recovers the
/// plain payload; framing that does not parse is malformed.
pub fn decode_frame(data: &Vec<u8>) -> (r: Option<Vec<u8>>)
    ensures
        match r {
            Some(p) => frame_payload(data@) == Some(p@),
            None => frame_payload(data@) is None,
        },
{
    if data.len() < 4 {
        return None;
    }
    let n = u32_from_be_bytes(data[0], data[1], data[2], data[3]);
    assert(data@.take(4) =~= seq![data@[0], data@[1], data@[2], data@[3]]);
    if n as usize > data.len() - 4 {
        return None;
    }
    let end: usize = 4 + n as usize;
    let mut cipher: Vec<u8> = Vec::new();
    let mut idx: usize = 4;
    while idx < end
        invariant
            4 <= idx <= end,
            end <= data@.len(),
            cipher@ =~= data@.subrange(4, idx as int),
        decreases end - idx,
    {
        cipher.push(data[idx]);
        idx += 1;
    }
    assert(cipher@ =~= data@.subrange(4, 4 + n as int));
    Some(decrypt(cipher))
}

/// Writes a `u32` as four big-endian bytes.
pub fn u32_to_be_bytes(x: u32) -> (r: Vec<u8>)
    ensures
        r@ == spec_u32_to_be_bytes(x),
{
    let mut r: Vec<u8> = Vec::new();
    r.push(((x >> 24) & 0xff) as u8);
    r.push(((x >> 16) & 0xff) as u8);
    r.push(((x >> 8) & 0xff) as u8);
    r.push((x & 0xff) as u8);
    assert(r@ =~= spec_u32_to_be_bytes(x));
    r
}

/// Reads a `u32` from four big-endian bytes.
pub fn u32_from_be_bytes(b0: u8, b1: u8, b2: u8, b3: u8) -> (r: u32)
    ensures
        r == spec_u32_from_be_bytes(seq![b0, b1, b2, b3]),
{
    ((b0 as u32) << 24) | ((b1 as u32) << 16) | ((b2 as u32) << 8) | (b3 as u32)
}

} // verus!
