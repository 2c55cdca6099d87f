//! Which way traffic flows, and the dump file that records it: each record
//! is a direction byte, a little-endian u16 length and that many bytes of
//! raw frame.
use vstd::prelude::*;

use crate::protocol::wire::{le_u16_at, lemma_u16_roundtrip, u16_le_bytes};

verus! {

/// The side a client speaks for.
#[derive(Debug, Clone, Copy, PartialEq, Eq, PartialOrd, Ord, Hash)]
pub enum ClientDirection {
    Radio,
    Host,
}

impl ClientDirection {
    /// The number the direction is recorded as in a dump.
    pub open spec fn spec_code(&self) -> u8 {
        match self {
            ClientDirection::Radio => 0,
            ClientDirection::Host => 1,
        }
    }

    /// The number the direction is recorded as in a dump.
    pub fn code(&self) -> (c: u8)
        ensures
            c == self.spec_code(),
    {
        match self {
            ClientDirection::Radio => 0,
            ClientDirection::Host => 1,
        }
    }

    /// The other direction.
    pub fn flip(&self) -> (d: Self)
        ensures
            d == match self {
                ClientDirection::Host => ClientDirection::Radio,
                ClientDirection::Radio => ClientDirection::Host,
            },
    {
        match self {
            ClientDirection::Host => ClientDirection::Radio,
            ClientDirection::Radio => ClientDirection::Host,
        }
    }
}

/// The dump record of `raw` sent in direction `dir`; the length is
/// recorded in 16 bits.
pub open spec fn spec_dump_record(dir: u8, raw: Seq<u8>) -> Seq<u8> {
    seq![dir] + u16_le_bytes(raw.len() as u16) + raw
}

/// Encode one dump record.
pub fn dump_record(dir: u8, raw: &[u8]) -> (r: Vec<u8>)
    ensures
        r@ == spec_dump_record(dir, raw@),
{
    let mut out: Vec<u8> = Vec::new();
    out.push(dir);
    let len = raw.len() as u16;
    out.push((len & 0xff) as u8);
    out.push((len >> 8u16) as u8);
    let ghost head = out@;
    let mut i: usize = 0;
    while i < raw.len()
        invariant
            i <= raw@.len(),
            out@ == head + raw@.subrange(0, i as int),
        decreases raw@.len() - i,
    {
        out.push(raw[i]);
        i += 1;
        assert(out@ =~= head + raw@.subrange(0, i as int));
    }
    assert(raw@.subrange(0, i as int) =~= raw@);
    assert(out@ =~= spec_dump_record(dir, raw@));
    out
}

/// The first record of a dump, and the rest of the dump; none when fewer
/// than three bytes are left.
pub open spec fn spec_split_record(raw: Seq<u8>) -> Option<(u8, Seq<u8>, Seq<u8>)> {
    if raw.len() < 3 {
        None
    } else {
        let len = le_u16_at(raw, 1) as int;
        Some((raw[0], raw.subrange(3, 3 + len), raw.subrange(3 + len, raw.len() as int)))
    }
}

/// The length that the record at the start of `raw` states, when it has
/// a header.
pub open spec fn record_fits(raw: Seq<u8>) -> bool {
    raw.len() >= 3 ==> 3 + le_u16_at(raw, 1) <= raw.len()
}

/// Split the first record off a dump. A record longer than what is left
/// of the dump is not accepted.
pub fn split_record(raw: &[u8]) -> (r: Option<(u8, &[u8], &[u8])>)
    requires
        record_fits(raw@),
    ensures
        match spec_split_record(raw@) {
            None => r is None,
            Some((d, f, rest)) => r matches Some((d2, f2, rest2)) && d2 == d && f2@ == f && rest2@
                == rest,
        },
{
    if raw.len() < 3 {
        return None;
    }
    let dir = raw[0];
    let len = crate::protocol::wire::get_le_u16(raw, 1) as usize;
    let frame = vstd::slice::slice_subrange(raw, 3, 3 + len);
    let rest = vstd::slice::slice_subrange(raw, 3 + len, raw.len());
    Some((dir, frame, rest))
}

/// Splitting a dump record off the front of a dump gives back the
/// direction and the frame, and leaves the rest of the dump, for frames
/// whose length fits in 16 bits.
pub proof fn law_dump_record_roundtrip(dir: u8, raw: Seq<u8>, rest: Seq<u8>)
    requires
        raw.len() <= u16::MAX,
    ensures
        record_fits(spec_dump_record(dir, raw) + rest),
        spec_split_record(spec_dump_record(dir, raw) + rest) == Some((dir, raw, rest)),
{
    let all = spec_dump_record(dir, raw) + rest;
    assert(all.subrange(1, 3) =~= u16_le_bytes(raw.len() as u16));
    lemma_u16_roundtrip(raw.len() as u16, all, 1);
    assert(all.subrange(3, 3 + raw.len() as int) =~= raw);
    assert(all.subrange(3 + raw.len() as int, all.len() as int) =~= rest);
}

} // verus!
