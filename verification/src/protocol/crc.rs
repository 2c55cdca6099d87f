//! Checksums used to protect frame bodies.
use vstd::prelude::*;

verus! {

/// One shift step of the CRC-16/XMODEM register (polynomial 0x1021, no reflection).
pub open spec fn crc_shift(c: u16) -> u16 {
    if c & 0x8000u16 != 0 {
        (c << 1u16) ^ 0x1021u16
    } else {
        c << 1u16
    }
}

/// `n` shift steps of the CRC register.
pub open spec fn crc_shifts(c: u16, n: nat) -> u16
    decreases n,
{
    if n == 0 {
        c
    } else {
        crc_shifts(crc_shift(c), (n - 1) as nat)
    }
}

/// Feed one byte into the CRC-16/XMODEM register.
pub open spec fn crc_byte(c: u16, b: u8) -> u16 {
    crc_shifts(c ^ ((b as u16) << 8u16), 8)
}

/// Feed a sequence of bytes into the CRC-16/XMODEM register, starting at `c`.
pub open spec fn xmodem_from(c: u16, data: Seq<u8>) -> u16
    decreases data.len(),
{
    if data.len() == 0 {
        c
    } else {
        crc_byte(xmodem_from(c, data.drop_last()), data.last())
    }
}

/// CRC-16/XMODEM: initial value 0, no reflection, no final XOR.
pub open spec fn crc16_xmodem(data: Seq<u8>) -> u16 {
    xmodem_from(0, data)
}

/// Feeding `a` then `b` is feeding `a + b`.
pub proof fn lemma_xmodem_concat(c: u16, a: Seq<u8>, b: Seq<u8>)
    ensures
        xmodem_from(xmodem_from(c, a), b) == xmodem_from(c, a + b),
    decreases b.len(),
{
    if b.len() == 0 {
        assert(a + b =~= a);
    } else {
        lemma_xmodem_concat(c, a, b.drop_last());
        assert((a + b).drop_last() =~= a + b.drop_last());
        assert((a + b).last() == b.last());
    }
}

/// Interface for a CRC digest.
pub trait CrcDigest: Sized {
    /// The value [CrcDigest::finalize] would return after `more` is fed in.
    spec fn result_after(&self, more: Seq<u8>) -> u16;

    /// Feed bytes into the digest.
    fn update(&mut self, bytes: &[u8])
        ensures
            forall|more: Seq<u8>| #[trigger]
                final(self).result_after(more) == old(self).result_after(bytes@ + more),
    ;

    /// The checksum of everything fed in so far.
    fn finalize(self) -> (r: u16)
        ensures
            r == self.result_after(Seq::empty()),
    ;
}

/// Generic CRC style, for encoding and decoding frames.
pub trait CrcStyle: Sized {
    /// The digest this style produces.
    type Digest: CrcDigest;

    /// The checksum this style computes over `data`.
    spec fn spec_crc(&self, data: Seq<u8>) -> u16;

    /// Whether a `calculated` checksum accepts a `provided` one.
    spec fn spec_validate(&self, calculated: u16, provided: u16) -> bool;

    /// Start a fresh digest.
    fn digest(&self) -> (d: Self::Digest)
        ensures
            forall|data: Seq<u8>| #[trigger] d.result_after(data) == self.spec_crc(data),
    ;

    /// Compare a calculated checksum with the one provided in a frame.
    fn validate(&self, calculated: u16, provided: u16) -> (b: bool)
        ensures
            b == self.spec_validate(calculated, provided),
    ;
}

/// A CRC that is one of two possible implementations.
#[derive(Debug, Clone, PartialEq, Eq, PartialOrd, Ord, Hash)]
pub enum CrcEither<A, B> {
    Left(A),
    Right(B),
}

impl<A: CrcStyle, B: CrcStyle> CrcStyle for CrcEither<A, B> {
    type Digest = CrcEither<A::Digest, B::Digest>;

    open spec fn spec_crc(&self, data: Seq<u8>) -> u16 {
        match self {
            CrcEither::Left(a) => a.spec_crc(data),
            CrcEither::Right(b) => b.spec_crc(data),
        }
    }

    open spec fn spec_validate(&self, calculated: u16, provided: u16) -> bool {
        match self {
            CrcEither::Left(a) => a.spec_validate(calculated, provided),
            CrcEither::Right(b) => b.spec_validate(calculated, provided),
        }
    }

    fn digest(&self) -> (d: Self::Digest) {
        match self {
            CrcEither::Left(a) => CrcEither::Left(a.digest()),
            CrcEither::Right(b) => CrcEither::Right(b.digest()),
        }
    }

    fn validate(&self, calculated: u16, provided: u16) -> (r: bool) {
        match self {
            CrcEither::Left(a) => a.validate(calculated, provided),
            CrcEither::Right(b) => b.validate(calculated, provided),
        }
    }
}

impl<A: CrcDigest, B: CrcDigest> CrcDigest for CrcEither<A, B> {
    open spec fn result_after(&self, more: Seq<u8>) -> u16 {
        match self {
            CrcEither::Left(a) => a.result_after(more),
            CrcEither::Right(b) => b.result_after(more),
        }
    }

    fn update(&mut self, bytes: &[u8]) {
        match self {
            CrcEither::Left(a) => a.update(bytes),
            CrcEither::Right(b) => b.update(bytes),
        }
    }

    fn finalize(self) -> (r: u16) {
        match self {
            CrcEither::Left(a) => a.finalize(),
            CrcEither::Right(b) => b.finalize(),
        }
    }
}

/// A CRC that is always a specific given value.
#[derive(Debug, Clone, Copy, PartialEq, Eq, PartialOrd, Ord, Hash)]
pub struct CrcConstant(pub u16);

impl CrcStyle for CrcConstant {
    type Digest = CrcConstant;

    open spec fn spec_crc(&self, data: Seq<u8>) -> u16 {
        self.0
    }

    open spec fn spec_validate(&self, calculated: u16, provided: u16) -> bool {
        calculated == provided
    }

    fn digest(&self) -> (d: Self::Digest) {
        CrcConstant(self.0)
    }

    fn validate(&self, calculated: u16, provided: u16) -> (b: bool) {
        calculated == provided
    }
}

impl CrcDigest for CrcConstant {
    open spec fn result_after(&self, more: Seq<u8>) -> u16 {
        self.0
    }

    fn update(&mut self, bytes: &[u8]) {
    }

    fn finalize(self) -> (r: u16) {
        self.0
    }
}

/// A CRC that is always a specific given value, and always validates.
#[derive(Debug, Clone, Copy, PartialEq, Eq, PartialOrd, Ord, Hash)]
pub struct CrcConstantIgnore(pub u16);

impl CrcStyle for CrcConstantIgnore {
    type Digest = CrcConstant;

    open spec fn spec_crc(&self, data: Seq<u8>) -> u16 {
        self.0
    }

    open spec fn spec_validate(&self, calculated: u16, provided: u16) -> bool {
        true
    }

    fn digest(&self) -> (d: Self::Digest) {
        CrcConstant(self.0)
    }

    fn validate(&self, calculated: u16, provided: u16) -> (b: bool) {
        true
    }
}

/// A 16-bit XModem CRC, used for host to radio frames.
#[derive(Debug, Clone, Copy, PartialEq, Eq, PartialOrd, Ord, Hash)]
pub struct CrcXModem {
    _priv: (),
}

/// A 16-bit XModem CRC digest: the running CRC register.
#[derive(Debug, Clone, Copy, PartialEq, Eq, PartialOrd, Ord, Hash)]
pub struct CrcXModemDigest {
    register: u16,
}

/// Feed one byte into the CRC register.
fn xmodem_byte(c: u16, b: u8) -> (r: u16)
    ensures
        r == crc_byte(c, b),
{
    let mut reg: u16 = c ^ ((b as u16) << 8u16);
    let mut i: u32 = 0;
    while i < 8
        invariant
            i <= 8,
            crc_shifts(reg, (8 - i) as nat) == crc_byte(c, b),
        decreases 8 - i,
    {
        if reg & 0x8000u16 != 0 {
            reg = (reg << 1u16) ^ 0x1021u16;
        } else {
            reg = reg << 1u16;
        }
        i = i + 1;
    }
    reg
}

impl CrcXModem {
    /// The CRC-16/XMODEM checksum style.
    pub fn new() -> (c: Self) {
        CrcXModem { _priv: () }
    }
}

impl CrcStyle for CrcXModem {
    type Digest = CrcXModemDigest;

    open spec fn spec_crc(&self, data: Seq<u8>) -> u16 {
        crc16_xmodem(data)
    }

    open spec fn spec_validate(&self, calculated: u16, provided: u16) -> bool {
        calculated == provided
    }

    fn digest(&self) -> (d: Self::Digest) {
        CrcXModemDigest { register: 0 }
    }

    fn validate(&self, calculated: u16, provided: u16) -> (b: bool) {
        calculated == provided
    }
}

impl CrcDigest for CrcXModemDigest {
    closed spec fn result_after(&self, more: Seq<u8>) -> u16 {
        xmodem_from(self.register, more)
    }

    fn update(&mut self, bytes: &[u8]) {
        let ghost start = self.register;
        let mut i: usize = 0;
        while i < bytes.len()
            invariant
                i <= bytes@.len(),
                self.register == xmodem_from(start, bytes@.take(i as int)),
            decreases bytes@.len() - i,
        {
            assert(bytes@.take(i + 1).drop_last() =~= bytes@.take(i as int));
            self.register = xmodem_byte(self.register, bytes[i]);
            i = i + 1;
        }
        assert(bytes@.take(i as int) =~= bytes@);
        assert forall|more: Seq<u8>| #[trigger]
            xmodem_from(self.register, more) == xmodem_from(start, bytes@ + more) by {
            lemma_xmodem_concat(start, bytes@, more);
        }
    }

    fn finalize(self) -> (r: u16) {
        self.register
    }
}

/// The CRC-16/XMODEM checksum of a whole byte slice.
pub fn crc16_xmodem_bytes(data: &[u8]) -> (r: u16)
    ensures
        r == crc16_xmodem(data@),
{
    let mut d = CrcXModem::new().digest();
    d.update(data);
    assert(data@ + Seq::<u8>::empty() =~= data@);
    d.finalize()
}

} // verus!
