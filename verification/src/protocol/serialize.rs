//! Writing messages into frames.
use vstd::prelude::*;

use super::crc::{CrcDigest, CrcStyle};
use super::obfuscation::{key_byte, obfuscate, Key};
use super::parse::{frame_end_seq, frame_start_seq};
use super::wire::{u16_le_bytes, u32_le_bytes};
use super::{FRAME_END, FRAME_START};

verus! {

/// Pushing one more byte onto obfuscated data extends the obfuscated data by one byte.
pub proof fn lemma_obfuscate_push(data: Seq<u8>, val: u8)
    ensures
        obfuscate(data.push(val), 0) == obfuscate(data, 0).push(val ^ key_byte(data.len() as int)),
{
    assert(obfuscate(data.push(val), 0) =~= obfuscate(data, 0).push(
        val ^ key_byte(data.len() as int),
    ));
}

/// A trait for serializing messages.
///
/// [Serializer::written] is everything handed to the serializer so far.
pub trait Serializer: Sized {
    /// What a failed write reports.
    type Error;

    /// Every byte accepted so far, in order.
    spec fn written(&self) -> Seq<u8>;

    /// Internal consistency of the serializer.
    spec fn inv(&self) -> bool;

    /// Writes to this serializer never fail.
    spec fn infallible(&self) -> bool;

    /// Write one byte.
    fn write_u8(&mut self, val: u8) -> (r: Result<(), Self::Error>)
        requires
            old(self).inv(),
        ensures
            old(self).infallible() ==> r is Ok,
            r is Ok ==> final(self).inv() && final(self).infallible() == old(self).infallible()
                && final(self).written() == old(self).written().push(val),
    ;

    /// Write a run of bytes.
    fn write_bytes(&mut self, val: &[u8]) -> (r: Result<(), Self::Error>)
        requires
            old(self).inv(),
        ensures
            old(self).infallible() ==> r is Ok,
            r is Ok ==> final(self).inv() && final(self).infallible() == old(self).infallible()
                && final(self).written() == old(self).written() + val@,
    {
        let mut i: usize = 0;
        while i < val.len()
            invariant
                i <= val@.len(),
                self.inv(),
                self.infallible() == old(self).infallible(),
                self.written() == old(self).written() + val@.take(i as int),
            decreases val@.len() - i,
        {
            self.write_u8(val[i])?;
            assert(val@.take(i + 1) =~= val@.take(i as int).push(val@[i as int]));
            i += 1;
        }
        assert(val@.take(i as int) =~= val@);
        Ok(())
    }

    /// Write a little-endian u16.
    fn write_le_u16(&mut self, val: u16) -> (r: Result<(), Self::Error>)
        requires
            old(self).inv(),
        ensures
            old(self).infallible() ==> r is Ok,
            r is Ok ==> final(self).inv() && final(self).infallible() == old(self).infallible()
                && final(self).written() == old(self).written() + u16_le_bytes(val),
    {
        let bytes: [u8; 2] = [(val & 0xff) as u8, (val >> 8u16) as u8];
        assert(bytes@ =~= u16_le_bytes(val));
        self.write_bytes(&bytes)
    }

    /// Write a little-endian i16.
    fn write_le_i16(&mut self, val: i16) -> (r: Result<(), Self::Error>)
        requires
            old(self).inv(),
        ensures
            old(self).infallible() ==> r is Ok,
            r is Ok ==> final(self).inv() && final(self).infallible() == old(self).infallible()
                && final(self).written() == old(self).written() + u16_le_bytes(val as u16),
    {
        self.write_le_u16(val as u16)
    }

    /// Write a little-endian u32.
    fn write_le_u32(&mut self, val: u32) -> (r: Result<(), Self::Error>)
        requires
            old(self).inv(),
        ensures
            old(self).infallible() ==> r is Ok,
            r is Ok ==> final(self).inv() && final(self).infallible() == old(self).infallible()
                && final(self).written() == old(self).written() + u32_le_bytes(val),
    {
        let bytes: [u8; 4] = [
            (val & 0xff) as u8,
            ((val >> 8u32) & 0xff) as u8,
            ((val >> 16u32) & 0xff) as u8,
            ((val >> 24u32) & 0xff) as u8,
        ];
        assert(bytes@ =~= u32_le_bytes(val));
        self.write_bytes(&bytes)
    }

    /// Write a little-endian i32.
    fn write_le_i32(&mut self, val: i32) -> (r: Result<(), Self::Error>)
        requires
            old(self).inv(),
        ensures
            old(self).infallible() ==> r is Ok,
            r is Ok ==> final(self).inv() && final(self).infallible() == old(self).infallible()
                && final(self).written() == old(self).written() + u32_le_bytes(val as u32),
    {
        self.write_le_u32(val as u32)
    }
}

/// A [Serializer] on top of an output sink; on a `Vec<u8>` it appends.
#[derive(Debug, Clone, PartialEq, Eq, PartialOrd, Ord, Hash)]
pub struct SerializerWrap<T> {
    inner: T,
}

impl<T> SerializerWrap<T> {
    /// The wrapped sink.
    pub closed spec fn sink(&self) -> T {
        self.inner
    }

    /// Wrap a sink.
    pub fn new(inner: T) -> (s: Self)
        ensures
            s.sink() == inner,
    {
        Self { inner }
    }

    /// Recover the sink.
    pub fn done(self) -> (t: T)
        ensures
            t == self.sink(),
    {
        self.inner
    }
}

impl Serializer for SerializerWrap<Vec<u8>> {
    type Error = core::convert::Infallible;

    closed spec fn written(&self) -> Seq<u8> {
        self.inner@
    }

    closed spec fn inv(&self) -> bool {
        true
    }

    closed spec fn infallible(&self) -> bool {
        true
    }

    fn write_u8(&mut self, val: u8) -> (r: Result<(), Self::Error>) {
        self.inner.push(val);
        Ok(())
    }

    fn write_bytes(&mut self, val: &[u8]) -> (r: Result<(), Self::Error>) {
        self.inner.extend_from_slice(val);
        assert(self.inner@ =~= old(self).inner@ + val@);
        Ok(())
    }
}

impl SerializerWrap<Vec<u8>> {
    /// What a vector-backed serializer has collected is its vector.
    pub proof fn lemma_vec_written(&self)
        ensures
            self.written() == self.sink()@,
            self.inv(),
            self.infallible(),
    {
    }
}

/// The length a [SerializerLength] reports after `n` bytes.
pub open spec fn saturating_len(n: nat) -> usize {
    if n <= usize::MAX {
        n as usize
    } else {
        usize::MAX
    }
}

/// A serializer that only counts bytes written.
pub struct SerializerLength {
    len: usize,
    log: Ghost<Seq<u8>>,
}

impl SerializerLength {
    /// A fresh counter.
    pub fn new() -> (s: Self)
        ensures
            s.inv(),
            s.infallible(),
            s.written() == Seq::<u8>::empty(),
    {
        SerializerLength { len: 0, log: Ghost(Seq::empty()) }
    }

    /// Number of bytes written (saturating at `usize::MAX`).
    pub fn len(&self) -> (n: usize)
        requires
            self.inv(),
        ensures
            n == saturating_len(self.written().len()),
    {
        self.len
    }

    fn add(&mut self, n: usize, bytes: Ghost<Seq<u8>>)
        requires
            old(self).inv(),
            bytes@.len() == n,
        ensures
            final(self).inv(),
            final(self).written() == old(self).written() + bytes@,
    {
        self.len = self.len.saturating_add(n);
        self.log = Ghost(self.log@ + bytes@);
    }

    /// A counter's length follows its writes: a fresh counter reports no
    /// bytes, and a run of writes that adds `bytes` to what a counter has
    /// seen raises its length by the run's length, saturating at
    /// `usize::MAX`, so that its length is the number of bytes written
    /// whenever that number fits.
    pub proof fn law_length_counts_writes(before: Self, after: Self, bytes: Seq<u8>)
        requires
            before.inv(),
            after.inv(),
            after.written() == before.written() + bytes,
        ensures
            saturating_len(Seq::<u8>::empty().len()) == 0,
            saturating_len(after.written().len()) == if saturating_len(before.written().len())
                + bytes.len() <= usize::MAX {
                (saturating_len(before.written().len()) + bytes.len()) as usize
            } else {
                usize::MAX
            },
            after.written().len() <= usize::MAX ==> saturating_len(after.written().len())
                == after.written().len(),
    {
    }

    /// Counting agrees with collecting: a counter and a vector-backed
    /// serializer that were handed the same bytes (as the same run of
    /// writes on fresh ones hands them) report, as the counter's length,
    /// the length of the collected vector.
    pub proof fn law_length_matches_collected(s: Self, w: SerializerWrap<Vec<u8>>)
        requires
            s.inv(),
            s.written() == w.written(),
        ensures
            saturating_len(s.written().len()) == w.sink()@.len(),
    {
        w.lemma_vec_written();
        assert(w.sink()@.len() == w.sink().len());
    }
}

impl Serializer for SerializerLength {
    type Error = core::convert::Infallible;

    closed spec fn written(&self) -> Seq<u8> {
        self.log@
    }

    closed spec fn inv(&self) -> bool {
        self.len == saturating_len(self.log@.len())
    }

    closed spec fn infallible(&self) -> bool {
        true
    }

    fn write_u8(&mut self, val: u8) -> (r: Result<(), Self::Error>) {
        self.add(1, Ghost(Seq::empty().push(val)));
        Ok(())
    }

    fn write_bytes(&mut self, val: &[u8]) -> (r: Result<(), Self::Error>) {
        self.add(val.len(), Ghost(val@));
        Ok(())
    }

    fn write_le_u16(&mut self, val: u16) -> (r: Result<(), Self::Error>) {
        self.add(2, Ghost(u16_le_bytes(val)));
        Ok(())
    }

    fn write_le_i16(&mut self, val: i16) -> (r: Result<(), Self::Error>) {
        self.add(2, Ghost(u16_le_bytes(val as u16)));
        Ok(())
    }

    fn write_le_u32(&mut self, val: u32) -> (r: Result<(), Self::Error>) {
        self.add(4, Ghost(u32_le_bytes(val)));
        Ok(())
    }

    fn write_le_i32(&mut self, val: i32) -> (r: Result<(), Self::Error>) {
        self.add(4, Ghost(u32_le_bytes(val as u32)));
        Ok(())
    }
}

/// A serializer that also computes a CRC on the side.
pub struct SerializerCrc<C: CrcStyle, T> {
    digest: C::Digest,
    inner: T,
    crc: Ghost<C>,
    base: Ghost<Seq<u8>>,
    accepted: Ghost<Seq<u8>>,
}

impl<C: CrcStyle, T: Serializer> SerializerCrc<C, T> {
    /// The checksum style in use.
    pub closed spec fn crc(&self) -> C {
        self.crc@
    }

    /// What the inner serializer held before this one was stacked on it.
    pub closed spec fn base(&self) -> Seq<u8> {
        self.base@
    }

    /// Stack a CRC computation onto `inner`.
    pub fn new(crc: &C, inner: T) -> (s: Self)
        requires
            inner.inv(),
        ensures
            s.inv(),
            s.written() == Seq::<u8>::empty(),
            s.crc() == *crc,
            s.base() == inner.written(),
            s.infallible() == inner.infallible(),
    {
        let digest = crc.digest();
        let ghost c = *crc;
        let ghost b = inner.written();
        let s = Self { digest, inner, crc: Ghost(c), base: Ghost(b), accepted: Ghost(Seq::empty()) };
        assert forall|more: Seq<u8>| #[trigger]
            s.digest.result_after(more) == c.spec_crc(Seq::<u8>::empty() + more) by {
            assert(Seq::<u8>::empty() + more =~= more);
        }
        assert(b + Seq::<u8>::empty() =~= b);
        s
    }

    /// The CRC of everything written, and the inner serializer.
    pub fn finalize(self) -> (r: (u16, T))
        ensures
            self.inv() ==> {
                &&& r.0 == self.crc().spec_crc(self.written())
                &&& r.1.inv()
                &&& r.1.written() == self.base() + self.written()
                &&& r.1.infallible() == self.infallible()
            },
    {
        proof {
            if self.inv() {
                assert(self.accepted@ + Seq::<u8>::empty() =~= self.accepted@);
            }
        }
        (self.digest.finalize(), self.inner)
    }
}

impl<C: CrcStyle, T: Serializer> Serializer for SerializerCrc<C, T> {
    type Error = T::Error;

    closed spec fn written(&self) -> Seq<u8> {
        self.accepted@
    }

    closed spec fn inv(&self) -> bool {
        &&& self.inner.inv()
        &&& self.inner.written() == self.base@ + self.accepted@
        &&& forall|more: Seq<u8>| #[trigger]
            self.digest.result_after(more) == self.crc@.spec_crc(self.accepted@ + more)
    }

    closed spec fn infallible(&self) -> bool {
        self.inner.infallible()
    }

    fn write_u8(&mut self, val: u8) -> (r: Result<(), Self::Error>)
        ensures
            final(self).base() == old(self).base(),
            final(self).crc() == old(self).crc(),
    {
        let one: [u8; 1] = [val];
        self.write_bytes(&one)
    }

    fn write_bytes(&mut self, val: &[u8]) -> (r: Result<(), Self::Error>)
        ensures
            final(self).base() == old(self).base(),
            final(self).crc() == old(self).crc(),
    {
        self.digest.update(val);
        let r = self.inner.write_bytes(val);
        if r.is_ok() {
            let ghost acc = self.accepted@;
            self.accepted = Ghost(acc + val@);
            assert forall|more: Seq<u8>| #[trigger]
                self.digest.result_after(more) == self.crc@.spec_crc(self.accepted@ + more) by {
                assert(acc + (val@ + more) =~= (acc + val@) + more);
            }
            assert(self.inner.written() =~= self.base@ + self.accepted@);
        }
        r
    }
}

/// A serializer that obfuscates everything it passes on.
pub struct SerializerObfuscated<T> {
    key: Key,
    inner: T,
    base: Ghost<Seq<u8>>,
    accepted: Ghost<Seq<u8>>,
}

impl<T: Serializer> SerializerObfuscated<T> {
    /// What the inner serializer held before this one was stacked on it.
    pub closed spec fn base(&self) -> Seq<u8> {
        self.base@
    }

    /// Stack obfuscation onto `inner`, starting the key stream afresh.
    pub fn new(inner: T) -> (s: Self)
        requires
            inner.inv(),
        ensures
            s.inv(),
            s.written() == Seq::<u8>::empty(),
            s.base() == inner.written(),
            s.infallible() == inner.infallible(),
    {
        let ghost b = inner.written();
        let s = Self { key: Key::new(), inner, base: Ghost(b), accepted: Ghost(Seq::empty()) };
        assert(obfuscate(Seq::<u8>::empty(), 0) =~= Seq::<u8>::empty());
        assert(b + Seq::<u8>::empty() =~= b);
        s
    }

    /// Recover the inner serializer, which holds the obfuscated bytes.
    pub fn done(self) -> (t: T)
        ensures
            self.inv() ==> {
                &&& t.inv()
                &&& t.written() == self.base() + obfuscate(self.written(), 0)
                &&& t.infallible() == self.infallible()
            },
    {
        self.inner
    }
}

impl<T: Serializer> Serializer for SerializerObfuscated<T> {
    type Error = T::Error;

    closed spec fn written(&self) -> Seq<u8> {
        self.accepted@
    }

    closed spec fn inv(&self) -> bool {
        &&& self.key.wf()
        &&& self.key.pos() == self.accepted@.len() % 16
        &&& self.inner.inv()
        &&& self.inner.written() == self.base@ + obfuscate(self.accepted@, 0)
    }

    closed spec fn infallible(&self) -> bool {
        self.inner.infallible()
    }

    fn write_u8(&mut self, val: u8) -> (r: Result<(), Self::Error>)
        ensures
            final(self).base() == old(self).base(),
    {
        let ghost acc = self.accepted@;
        let b = self.key.apply(val);
        let r = self.inner.write_u8(b);
        if r.is_ok() {
            self.accepted = Ghost(acc.push(val));
            proof {
                lemma_obfuscate_push(acc, val);
                assert(key_byte((acc.len() % 16) as int) == key_byte(acc.len() as int));
                assert(self.inner.written() =~= self.base@ + obfuscate(self.accepted@, 0));
            }
        }
        r
    }

    fn write_bytes(&mut self, val: &[u8]) -> (r: Result<(), Self::Error>)
        ensures
            final(self).base() == old(self).base(),
    {
        let mut i: usize = 0;
        while i < val.len()
            invariant
                i <= val@.len(),
                self.inv(),
                self.base() == old(self).base(),
                self.infallible() == old(self).infallible(),
                self.written() == old(self).written() + val@.take(i as int),
            decreases val@.len() - i,
        {
            self.write_u8(val[i])?;
            assert(val@.take(i + 1) =~= val@.take(i as int).push(val@[i as int]));
            i += 1;
        }
        assert(val@.take(i as int) =~= val@);
        Ok(())
    }
}

/// The body of a frame holding a message: type, length, message body.
pub open spec fn frame_body_bytes(typ: u16, body: Seq<u8>) -> Seq<u8> {
    u16_le_bytes(typ) + u16_le_bytes(body.len() as u16) + body
}

/// A whole frame around frame body `fb`: start marker, length, the
/// obfuscated body and CRC, end marker.
pub open spec fn frame_bytes<C: CrcStyle>(crc: C, fb: Seq<u8>) -> Seq<u8> {
    frame_start_seq() + u16_le_bytes(fb.len() as u16) + obfuscate(fb + u16_le_bytes(crc.spec_crc(fb)), 0)
        + frame_end_seq()
}

/// A trait for serializing messages.
pub trait MessageSerialize: Sized {
    /// The message type number.
    spec fn spec_message_type(&self) -> u16;

    /// The bytes of the message body.
    spec fn spec_body(&self) -> Seq<u8>;

    /// What writing this message asks of it.
    spec fn serializable(&self) -> bool;

    /// The message type for this message.
    fn message_type(&self) -> (t: u16)
        ensures
            t == self.spec_message_type(),
    ;

    /// Serialize just the message body.
    fn message_body<S: Serializer>(&self, ser: &mut S) -> (r: Result<(), S::Error>)
        requires
            old(ser).inv(),
            self.serializable(),
        ensures
            old(ser).infallible() ==> r is Ok,
            r is Ok ==> final(ser).inv() && final(ser).infallible() == old(ser).infallible()
                && final(ser).written() == old(ser).written() + self.spec_body(),
    ;

    /// Serialize the message into a frame body, with type and length header.
    fn frame_body<S: Serializer>(&self, ser: &mut S) -> (r: Result<(), S::Error>)
        requires
            old(ser).inv(),
            self.serializable(),
            self.spec_body().len() <= usize::MAX,
        ensures
            old(ser).infallible() ==> r is Ok,
            r is Ok ==> final(ser).inv() && final(ser).infallible() == old(ser).infallible()
                && final(ser).written() == old(ser).written() + frame_body_bytes(self.spec_message_type(), self.spec_body()),
    {
        // run it once to get a length
        let mut len_ser = SerializerLength::new();
        let r0 = self.message_body(&mut len_ser);
        assert(r0 is Ok);
        assert(Seq::<u8>::empty() + self.spec_body() =~= self.spec_body());
        let len = len_ser.len() as u16;
        assert(len == self.spec_body().len() as u16);
        // frame is type, length, body
        ser.write_le_u16(self.message_type())?;
        let ghost after_type = ser.written();
        ser.write_le_u16(len)?;
        let ghost after_len = ser.written();
        let r = self.message_body(ser);
        proof {
            if r is Ok {
                assert(after_type == old(ser).written() + u16_le_bytes(self.spec_message_type()));
                assert(after_len == after_type + u16_le_bytes(len));
                assert(ser.written() =~= old(ser).written() + frame_body_bytes(self.spec_message_type(), self.spec_body()));
            }
        }
        r
    }

    /// Serialize the message into a full frame, with obfuscation,
    /// CRC, and start/end markers.
    fn frame<C: CrcStyle, S: Serializer>(&self, crc: &C, ser: &mut S) -> (r: Result<(), S::Error>)
        requires
            old(ser).inv(),
            self.serializable(),
            frame_body_bytes(self.spec_message_type(), self.spec_body()).len() <= usize::MAX,
        ensures
            old(ser).infallible() ==> r is Ok,
            r is Ok ==> final(ser).inv() && final(ser).infallible() == old(ser).infallible()
                && final(ser).written() == old(ser).written() + frame_bytes(*crc, frame_body_bytes(self.spec_message_type(), self.spec_body())),
    {
        let ghost fb = frame_body_bytes(self.spec_message_type(), self.spec_body());
        assert(fb.len() == 4 + self.spec_body().len());
        // build the frame body first
        let mut body_ser = SerializerWrap::new(Vec::new());
        proof {
            body_ser.lemma_vec_written();
        }
        let r0 = self.frame_body(&mut body_ser);
        assert(r0 is Ok);
        proof {
            body_ser.lemma_vec_written();
        }
        let frame_body = body_ser.done();
        assert(frame_body@ =~= fb);
        let len = frame_body.len() as u16;
        // frame is start, len, obfuscated(body, crc), end
        ser.write_bytes(&FRAME_START)?;
        ser.write_le_u16(len)?;
        // checksum the frame body
        let mut digest = crc.digest();
        digest.update(frame_body.as_slice());
        let crc_val = digest.finalize();
        assert(fb + Seq::<u8>::empty() =~= fb);
        // obfuscate body and checksum together
        let sink = SerializerWrap::new(Vec::new());
        proof {
            sink.lemma_vec_written();
        }
        let mut obfuscate_ser = SerializerObfuscated::new(sink);
        let r1 = obfuscate_ser.write_bytes(frame_body.as_slice());
        assert(r1 is Ok);
        assert(obfuscate_ser.written() =~= fb);
        let crc_bytes: [u8; 2] = [(crc_val & 0xff) as u8, (crc_val >> 8u16) as u8];
        assert(crc_bytes@ =~= u16_le_bytes(crc_val));
        let r2 = obfuscate_ser.write_bytes(&crc_bytes);
        assert(r2 is Ok);
        assert(obfuscate_ser.written() =~= fb + u16_le_bytes(crc.spec_crc(fb)));
        let sink = obfuscate_ser.done();
        proof {
            sink.lemma_vec_written();
        }
        let body = sink.done();
        assert(body@ =~= obfuscate(fb + u16_le_bytes(crc.spec_crc(fb)), 0));
        ser.write_bytes(body.as_slice())?;
        let r = ser.write_bytes(&FRAME_END);
        proof {
            if r is Ok {
                assert(FRAME_START@ =~= frame_start_seq());
                assert(FRAME_END@ =~= frame_end_seq());
                assert(ser.written() =~= old(ser).written() + frame_bytes(*crc, frame_body_bytes(self.spec_message_type(), self.spec_body())));
            }
        }
        r
    }
}

} // verus!
