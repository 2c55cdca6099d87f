//! General parsing and serializing utilities for messages.
use vstd::prelude::*;

use crate::protocol::serialize::Serializer;
use crate::protocol::wire::{get_le_u32, le_u32_at};
use crate::version::{Version, VERSION_LEN};

verus! {

/// Byte data carried inside a message: a borrowed slice or an owned vector.
pub trait Bytes: View<V = Seq<u8>> {
    /// The bytes.
    fn bytes(&self) -> (s: &[u8])
        ensures
            s@ == self@,
    ;
}

impl<'a> Bytes for &'a [u8] {
    fn bytes(&self) -> (s: &[u8]) {
        *self
    }
}

impl Bytes for Vec<u8> {
    fn bytes(&self) -> (s: &[u8]) {
        self.as_slice()
    }
}

/// Padding, in a struct.
#[derive(Clone, Copy, Debug, PartialEq, Eq, PartialOrd, Ord, Hash)]
pub struct Padding<const LEN: usize>([u8; LEN]);

impl<const LEN: usize> View for Padding<LEN> {
    type V = Seq<u8>;

    closed spec fn view(&self) -> Seq<u8> {
        self.0@
    }
}

/// One byte of padding holding `a`.
pub closed spec fn pad1(a: u8) -> Padding<1> {
    Padding([a])
}

/// Two bytes of padding holding `a`, `b`.
pub closed spec fn pad2(a: u8, b: u8) -> Padding<2> {
    Padding([a, b])
}

/// Padding is determined by its bytes.
pub proof fn lemma_pad1(p: Padding<1>)
    ensures
        p@.len() == 1,
        pad1(p@[0]) == p,
{
    assert(pad1(p@[0]).0 =~= p.0);
}

/// Padding is determined by its bytes.
pub proof fn lemma_pad2(p: Padding<2>)
    ensures
        p@.len() == 2,
        pad2(p@[0], p@[1]) == p,
{
    assert(pad2(p@[0], p@[1]).0 =~= p.0);
}

/// The bytes of built padding.
pub proof fn lemma_pad_bytes(a: u8, b: u8)
    ensures
        pad1(a)@ == seq![a],
        pad2(a, b)@ == seq![a, b],
{
    assert(pad1(a)@ =~= seq![a]);
    assert(pad2(a, b)@ =~= seq![a, b]);
}

impl<const LEN: usize> Padding<LEN> {
    /// All-zero padding.
    pub fn new() -> (p: Self)
        ensures
            p@ == Seq::new(LEN as nat, |i: int| 0u8),
    {
        let data = vstd::array::array_fill_for_copy_types::<u8, LEN>(0);
        let p = Self::new_data(data);
        assert(p@ =~= Seq::new(LEN as nat, |i: int| 0u8));
        p
    }

    /// Padding holding these bytes.
    pub fn new_data(data: [u8; LEN]) -> (p: Self)
        ensures
            p@ == data@,
    {
        Self(data)
    }

    /// The padding bytes.
    pub fn data(&self) -> (r: &[u8; LEN])
        ensures
            r@ == self@,
    {
        &self.0
    }

    /// The padding bytes, mutably.
    pub fn data_mut(&mut self) -> (r: &mut [u8; LEN])
        ensures
            r@ == old(self)@,
            final(self)@ == final(r)@,
    {
        &mut self.0
    }

    /// Split `LEN` bytes of padding off the front of `input`.
    pub fn parse<'a>(input: &'a [u8]) -> (r: Option<(&'a [u8], Self)>)
        ensures
            input@.len() < LEN ==> r is None,
            input@.len() >= LEN ==> (r matches Some((rest, p)) && rest@ == input@.subrange(
                LEN as int,
                input@.len() as int,
            ) && p@ == input@.subrange(0, LEN as int)),
    {
        if input.len() < LEN {
            return None;
        }
        let mut data = vstd::array::array_fill_for_copy_types::<u8, LEN>(0);
        let mut i: usize = 0;
        while i < LEN
            invariant
                i <= LEN <= input@.len(),
                data@.len() == LEN,
                forall|j: int| 0 <= j < i ==> data@[j] == input@[j],
            decreases LEN - i,
        {
            data[i] = input[i];
            i += 1;
        }
        let p = Self(data);
        assert(p@ =~= input@.subrange(0, LEN as int));
        Some((vstd::slice::slice_subrange(input, LEN, input.len()), p))
    }

    /// Write the padding bytes.
    pub fn serialize<S: Serializer>(&self, ser: &mut S) -> (r: Result<(), S::Error>)
        requires
            old(ser).inv(),
        ensures
            old(ser).infallible() ==> r is Ok,
            r is Ok ==> final(ser).inv() && final(ser).infallible() == old(ser).infallible()
                && final(ser).written() == old(ser).written() + self@,
    {
        ser.write_bytes(self.0.as_slice())
    }
}

impl<const LEN: usize> Default for Padding<LEN> {
    fn default() -> (p: Self)
        ensures
            p@ == Seq::new(LEN as nat, |i: int| 0u8),
    {
        Self::new()
    }
}

/// Read one byte of padding at `pos`.
pub fn read_pad1(s: &[u8], pos: usize) -> (p: Padding<1>)
    requires
        pos + 1 <= s@.len(),
    ensures
        p == pad1(s@[pos as int]),
{
    let p = Padding([s[pos]]);
    proof {
        lemma_pad1(p);
    }
    assert(p@[0] == s@[pos as int]);
    p
}

/// Read two bytes of padding at `pos`.
pub fn read_pad2(s: &[u8], pos: usize) -> (p: Padding<2>)
    requires
        pos + 2 <= s@.len(),
    ensures
        p == pad2(s@[pos as int], s@[pos + 1]),
{
    let p = Padding([s[pos], s[pos + 1]]);
    proof {
        lemma_pad2(p);
    }
    assert(p@[0] == s@[pos as int]);
    assert(p@[1] == s@[pos + 1]);
    p
}

/// Read a version at `pos`.
pub fn read_version(s: &[u8], pos: usize) -> (v: Version)
    requires
        pos + VERSION_LEN <= s@.len(),
    ensures
        v == Version::from_seq(s@.subrange(pos as int, pos + VERSION_LEN)),
{
    let n = s.len();
    let mut data = [0u8; VERSION_LEN];
    let mut i: usize = 0;
    while i < VERSION_LEN
        invariant
            i <= VERSION_LEN,
            pos + VERSION_LEN <= s@.len() == n,
            data@.len() == VERSION_LEN,
            forall|j: int| 0 <= j < i ==> data@[j] == s@[pos + j],
        decreases VERSION_LEN - i,
    {
        data[i] = s[pos + i];
        i += 1;
    }
    let v = Version::new(data);
    proof {
        assert(v@ =~= s@.subrange(pos as int, pos + VERSION_LEN));
        Version::lemma_view(v);
    }
    v
}

/// The four little-endian u32s starting at `pos`.
pub open spec fn u32x4_at(s: Seq<u8>, pos: int) -> [u32; 4] {
    [le_u32_at(s, pos), le_u32_at(s, pos + 4), le_u32_at(s, pos + 8), le_u32_at(s, pos + 12)]
}

/// Read four little-endian u32s at `pos`.
pub fn read_u32x4(s: &[u8], pos: usize) -> (r: [u32; 4])
    requires
        pos + 16 <= s@.len(),
    ensures
        r == u32x4_at(s@, pos as int),
{
    let _n = s.len();
    [get_le_u32(s, pos), get_le_u32(s, pos + 4), get_le_u32(s, pos + 8), get_le_u32(s, pos + 12)]
}

/// Parse a [Version] off the front of `input`.
pub fn parse_version<'a>(input: &'a [u8]) -> (r: Option<(&'a [u8], Version)>)
    ensures
        input@.len() < VERSION_LEN ==> r is None,
        input@.len() >= VERSION_LEN ==> (r matches Some((rest, v)) && rest@ == input@.subrange(
            VERSION_LEN as int,
            input@.len() as int,
        ) && v@ == input@.subrange(0, VERSION_LEN as int)),
{
    if input.len() < VERSION_LEN {
        return None;
    }
    let v = read_version(input, 0);
    proof {
        Version::lemma_from_seq(input@.subrange(0, VERSION_LEN as int));
    }
    Some((vstd::slice::slice_subrange(input, VERSION_LEN, input.len()), v))
}

} // verus!
