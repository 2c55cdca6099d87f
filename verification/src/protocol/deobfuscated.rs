//! Obfuscated input read as its deobfuscated bytes.
use vstd::prelude::*;

use super::crc::CrcStyle;
use super::obfuscation::{obfuscate, Key};
use super::parse::{check_crc, spec_check_crc};

verus! {

/// Wraps obfuscated input to read it deobfuscated, the key stream starting
/// at the start of the input.
#[derive(Debug, Clone, PartialEq, Eq, PartialOrd, Ord, Hash)]
pub struct Deobfuscated<I> {
    inner: I,
    key: Key,
}

impl<I: View<V = Seq<u8>>> View for Deobfuscated<I> {
    type V = Seq<u8>;

    /// The deobfuscated bytes.
    closed spec fn view(&self) -> Seq<u8> {
        obfuscate(self.inner@, self.key.pos() as int)
    }
}

impl<I: View<V = Seq<u8>>> Deobfuscated<I> {
    /// The key stream is in step.
    pub closed spec fn wf(&self) -> bool {
        self.key.wf()
    }

    /// Read `inner` deobfuscated.
    pub fn new(inner: I) -> (d: Self)
        ensures
            d.wf(),
            d@ == obfuscate(inner@, 0),
    {
        Deobfuscated { inner, key: Key::new() }
    }
}

impl<'a> Deobfuscated<&'a [u8]> {
    /// The deobfuscated bytes.
    pub fn to_vec(&self) -> (v: Vec<u8>)
        requires
            self.wf(),
        ensures
            v@ == self@,
    {
        let mut key = self.key.advance(0);
        let mut out: Vec<u8> = Vec::new();
        let mut i: usize = 0;
        while i < self.inner.len()
            invariant
                i <= self.inner@.len(),
                key.wf(),
                key.pos() == (self.key.pos() + i) % 16,
                out@ == obfuscate(self.inner@, self.key.pos() as int).subrange(0, i as int),
            decreases self.inner@.len() - i,
        {
            let b = key.apply(self.inner[i]);
            out.push(b);
            proof {
                assert((self.key.pos() + i) % 16 == (self.key.pos() + i) as int % 16);
            }
            i = i + 1;
            assert(out@ =~= obfuscate(self.inner@, self.key.pos() as int).subrange(0, i as int));
        }
        assert(obfuscate(self.inner@, self.key.pos() as int).subrange(0, i as int) =~= self@);
        out
    }

    /// The number of bytes.
    pub fn len(&self) -> (n: usize)
        ensures
            n == self@.len(),
    {
        self.inner.len()
    }

    /// Check the little-endian u16 CRC at the end of the deobfuscated
    /// bytes. Returns None if the check fails, and the deobfuscated body
    /// before the CRC if it succeeds.
    pub fn check_crc<C: CrcStyle>(&self, crc: C) -> (r: Option<Self>)
        requires
            self.wf(),
        ensures
            match spec_check_crc(crc, self@) {
                None => r is None,
                Some(body) => r matches Some(d) && d.wf() && d@ == body,
            },
    {
        let plain = self.to_vec();
        match check_crc(&crc, plain.as_slice()) {
            Some(body) => {
                let n = body.len();
                let inner = vstd::slice::slice_subrange(self.inner, 0, n);
                let d = Deobfuscated { inner, key: self.key.advance(0) };
                assert(d@ =~= body@);
                Some(d)
            },
            None => None,
        }
    }
}

} // verus!
