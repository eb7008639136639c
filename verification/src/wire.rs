//! Length-prefixed framing: `u16 (big endian) length` + payload.
//!
//! 64 KiB max frame fits the Noise message size limit; input events are a few bytes
//! so this never fragments in practice.
use vstd::prelude::*;

verus! {

/// Appends some bytes.
pub(crate) fn push_all(m: &mut Vec<u8>, data: &[u8])
    ensures
        final(m)@ == old(m)@ + data@,
{
    for i in 0..data.len()
        invariant
            m@ == old(m)@ + data@.take(i as int),
    {
        m.push(data[i]);
        assert(m@ =~= old(m)@ + data@.take(i + 1));
    }
    assert(data@.take(data@.len() as int) =~= data@);
}

/// The longest payload.
pub const MAX_FRAME: usize = 65535;

/// The two length bytes of a payload of this length.
pub open spec fn length_bytes(n: int) -> Seq<u8> {
    seq![(n / 256) as u8, (n % 256) as u8]
}

/// A payload as it goes over the wire.
pub open spec fn framed(data: Seq<u8>) -> Seq<u8> {
    length_bytes(data.len() as int) + data
}

/// The length that two length bytes give.
pub fn frame_len(header: [u8; 2]) -> (r: usize)
    ensures
        r == header@[0] * 256 + header@[1],
{
    header[0] as usize * 256 + header[1] as usize
}

/// A payload as it goes over the wire.
pub fn write_frame(data: &[u8]) -> (r: Vec<u8>)
    requires
        data@.len() <= MAX_FRAME,
    ensures
        r@ == framed(data@),
{
    let mut out: Vec<u8> = Vec::new();
    out.push((data.len() / 256) as u8);
    out.push((data.len() % 256) as u8);
    assert(out@ =~= length_bytes(data@.len() as int));
    for i in 0..data.len()
        invariant
            out@ =~= length_bytes(data@.len() as int) + data@.take(i as int),
    {
        out.push(data[i]);
    }
    assert(data@.take(data@.len() as int) =~= data@);
    out
}

/// The first frame of some received bytes: its payload, and how many bytes it took.
/// `None` while it is not complete.
pub open spec fn first_frame(bytes: Seq<u8>) -> Option<(Seq<u8>, int)> {
    if bytes.len() < 2 {
        None
    } else {
        let n = bytes[0] * 256 + bytes[1];
        if bytes.len() < 2 + n {
            None
        } else {
            Some((bytes.subrange(2, 2 + n), 2 + n))
        }
    }
}

/// The first frame of some received bytes.
pub fn read_frame(bytes: &[u8]) -> (r: Option<(Vec<u8>, usize)>)
    ensures
        match r {
            Some((data, used)) => first_frame(bytes@) == Some((data@, used as int)),
            None => first_frame(bytes@) is None,
        },
{
    if bytes.len() < 2 {
        return None;
    }
    let n: usize = bytes[0] as usize * 256 + bytes[1] as usize;
    if bytes.len() - 2 < n {
        return None;
    }
    let mut data: Vec<u8> = Vec::new();
    for i in 0..n
        invariant
            n + 2 <= bytes@.len(),
            n <= 65535,
            data@ =~= bytes@.subrange(2, 2 + i),
    {
        data.push(bytes[i + 2]);
    }
    Some((data, n + 2))
}

/// A frame that was written is read back, whatever follows it.
pub proof fn law_frame_is_read_back(data: Seq<u8>, rest: Seq<u8>)
    requires
        data.len() <= MAX_FRAME,
    ensures
        first_frame(framed(data) + rest) == Some((data, data.len() as int + 2)),
{
    let bytes = framed(data) + rest;
    let n = data.len() as int;
    assert(bytes[0] == (n / 256) as u8);
    assert(bytes[1] == (n % 256) as u8);
    assert(bytes.subrange(2, 2 + n) =~= data);
}

/// A frame that has not arrived completely is not read.
pub proof fn law_partial_frame_is_not_read(data: Seq<u8>, have: int)
    requires
        data.len() <= MAX_FRAME,
        0 <= have < framed(data).len(),
    ensures
        first_frame(framed(data).take(have)) is None,
{
    let n = data.len() as int;
    let part = framed(data).take(have);
    if have >= 2 {
        assert(part[0] == (n / 256) as u8);
        assert(part[1] == (n % 256) as u8);
    }
}

} // verus!
