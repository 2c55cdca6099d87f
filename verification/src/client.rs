//! A client for the UV-K5 serial protocol.
//!
//! The client keeps the receive buffer and decides what happens to it;
//! whoever holds the port moves the bytes. A read is two steps:
//! [Client::prepare_read] makes room and says whether new data is
//! needed, and [Client::finish_read] takes the data that was read (if
//! any) and looks for a frame, which [Client::parse] then parses.
use core::ops::Range;
use vstd::prelude::*;

use crate::protocol::crc::{CrcConstantIgnore, CrcStyle, CrcXModem};
use crate::protocol::parse::{
    deobfuscated_range, frame_search, lemma_frame_search_bounds, parse_outcome, FoundFrame,
    MessageParse, ParseResult,
};
use crate::protocol::serialize::{
    frame_body_bytes, frame_bytes, MessageSerialize, Serializer, SerializerWrap,
};
use crate::protocol::messages::util::Bytes;
use crate::protocol::messages::Message;
use crate::protocol::{law_message_frame_roundtrip, MAX_BODY_LEN, MAX_FRAME_SIZE};

verus! {

/// An error type for [Client].
#[derive(Debug, Clone, PartialEq, Eq, PartialOrd, Ord, Hash)]
pub enum ClientError<E> {
    /// EOF in underlying stream.
    UnexpectedEof,
    /// Other IO error in underlying stream.
    Io(E),
}

impl<E> From<E> for ClientError<E> {
    fn from(other: E) -> (r: Self) {
        ClientError::Io(other)
    }
}

impl<E> vstd::std_specs::convert::FromSpecImpl<E> for ClientError<E> {
    open spec fn obeys_from_spec() -> bool {
        true
    }

    open spec fn from_spec(v: E) -> Self {
        ClientError::Io(v)
    }
}

/// A receive buffer whose filled part holds at most `SIZE` bytes.
#[derive(Debug, PartialEq, Eq, PartialOrd, Ord, Hash)]
pub struct ArrayBuffer<const SIZE: usize> {
    data: Vec<u8>,
}

impl<const SIZE: usize> View for ArrayBuffer<SIZE> {
    type V = Seq<u8>;

    /// The filled part of the buffer.
    closed spec fn view(&self) -> Seq<u8> {
        self.data@
    }
}

impl<const SIZE: usize> ArrayBuffer<SIZE> {
    #[verifier::type_invariant]
    spec fn fits(&self) -> bool {
        self.data.len() <= SIZE
    }

    /// An empty buffer.
    pub fn new() -> (b: Self)
        ensures
            b@ == Seq::<u8>::empty(),
    {
        ArrayBuffer { data: Vec::new() }
    }

    /// Remove the first `n` bytes of the filled part.
    pub fn skip(&mut self, n: usize)
        requires
            n <= old(self)@.len(),
        ensures
            final(self)@ == old(self)@.subrange(n as int, old(self)@.len() as int),
    {
        proof {
            use_type_invariant(&*self);
        }
        let mut rest: Vec<u8> = Vec::new();
        let mut i: usize = n;
        while i < self.data.len()
            invariant
                n <= i <= self.data.len(),
                self.data@ == old(self).data@,
                rest@ == self.data@.subrange(n as int, i as int),
            decreases self.data.len() - i,
        {
            rest.push(self.data[i]);
            i = i + 1;
            assert(rest@ =~= self.data@.subrange(n as int, i as int));
        }
        self.data = rest;
    }

    /// Returns true if the buffer is full.
    pub fn is_full(&self) -> (r: bool)
        ensures
            r == (self@.len() >= SIZE),
    {
        self.data.len() >= SIZE
    }

    /// How many bytes can still be read into the buffer.
    pub fn space(&self) -> (n: usize)
        ensures
            self@.len() <= SIZE,
            n == SIZE - self@.len(),
    {
        proof {
            use_type_invariant(self);
        }
        SIZE - self.data.len()
    }

    /// Append bytes that were read to the filled part.
    pub fn fill(&mut self, bytes: &[u8])
        requires
            old(self)@.len() + bytes@.len() <= SIZE,
        ensures
            final(self)@ == old(self)@ + bytes@,
    {
        let mut data: Vec<u8> = Vec::new();
        let mut i: usize = 0;
        while i < self.data.len()
            invariant
                i <= self.data.len(),
                self.data@ == old(self).data@,
                data@ == self.data@.subrange(0, i as int),
            decreases self.data.len() - i,
        {
            data.push(self.data[i]);
            i = i + 1;
            assert(data@ =~= self.data@.subrange(0, i as int));
        }
        let mut j: usize = 0;
        while j < bytes.len()
            invariant
                j <= bytes@.len(),
                data@ == old(self).data@ + bytes@.subrange(0, j as int),
                old(self).data@.len() + bytes@.len() <= SIZE,
            decreases bytes@.len() - j,
        {
            data.push(bytes[j]);
            j = j + 1;
            assert(data@ =~= old(self).data@ + bytes@.subrange(0, j as int));
        }
        assert(bytes@.subrange(0, bytes@.len() as int) =~= bytes@);
        self.data = data;
    }

    /// The accumulated data.
    pub fn data(&self) -> (s: &[u8])
        ensures
            s@ == self@,
    {
        self.data.as_slice()
    }

    /// Clear the buffer.
    pub fn clear(&mut self)
        ensures
            final(self)@ == Seq::<u8>::empty(),
    {
        self.data = Vec::new();
    }
}

impl<const SIZE: usize> Default for ArrayBuffer<SIZE> {
    fn default() -> (b: Self)
        ensures
            b@ == Seq::<u8>::empty(),
    {
        Self::new()
    }
}

/// The frame that a frame search over `data` finds, as a [FoundFrame]:
/// the whole frame from `s` to the end of its end marker, the contents
/// between the length field and the end marker.
pub open spec fn found_from(f: Option<(int, int)>) -> Option<FoundFrame> {
    match f {
        None => None,
        Some((s, e)) => Some(
            FoundFrame {
                full_frame: Range { start: s as usize, end: (e + 2) as usize },
                frame_contents: Range { start: (s + 4) as usize, end: e as usize },
            },
        ),
    }
}

/// A client for the UV-K5 serial protocol.
#[derive(Debug, PartialEq, Eq, Hash)]
pub struct Client<F, InC, OutC> {
    port: F,
    buffer: ArrayBuffer<MAX_FRAME_SIZE>,
    skip: usize,
    found: Option<FoundFrame>,
    needs_read: bool,
    in_crc: InC,
    out_crc: OutC,
}

/// A host-sided client.
pub type ClientHost<F> = Client<F, CrcConstantIgnore, CrcXModem>;

/// A radio-sided client.
pub type ClientRadio<F> = Client<F, CrcXModem, CrcConstantIgnore>;

impl<F> ClientHost<F> {
    /// Create a new host client.
    pub fn new(port: F) -> (c: Self)
        ensures
            c.wf(),
            c.spec_buffer()@ == Seq::<u8>::empty(),
            c.fresh(),
            c.spec_in_crc() == CrcConstantIgnore(0xffff),
            c.spec_port() == port,
    {
        Self::new_with(ArrayBuffer::new(), port)
    }

    /// Create a new host client with the provided internal buffer.
    pub fn new_with(buffer: ArrayBuffer<MAX_FRAME_SIZE>, port: F) -> (c: Self)
        ensures
            c.wf(),
            c.spec_buffer() == buffer,
            c.fresh(),
            c.spec_in_crc() == CrcConstantIgnore(0xffff),
            c.spec_port() == port,
    {
        Client::new_crc_with(buffer, CrcConstantIgnore(0xffff), CrcXModem::new(), port)
    }
}

impl<F> ClientRadio<F> {
    /// Create a new radio client.
    pub fn new(port: F) -> (c: Self)
        ensures
            c.wf(),
            c.spec_buffer()@ == Seq::<u8>::empty(),
            c.fresh(),
            c.spec_out_crc() == CrcConstantIgnore(0xffff),
            c.spec_port() == port,
    {
        Self::new_with(ArrayBuffer::new(), port)
    }

    /// Create a new radio client with the provided internal buffer.
    pub fn new_with(buffer: ArrayBuffer<MAX_FRAME_SIZE>, port: F) -> (c: Self)
        ensures
            c.wf(),
            c.spec_buffer() == buffer,
            c.fresh(),
            c.spec_out_crc() == CrcConstantIgnore(0xffff),
            c.spec_port() == port,
    {
        Client::new_crc_with(buffer, CrcXModem::new(), CrcConstantIgnore(0xffff), port)
    }
}

impl<F, InC, OutC> Client<F, InC, OutC> {
    /// The port.
    pub closed spec fn spec_port(&self) -> F {
        self.port
    }

    /// The receive buffer.
    pub closed spec fn spec_buffer(&self) -> ArrayBuffer<MAX_FRAME_SIZE> {
        self.buffer
    }

    /// How many bytes at the front of the buffer the last search consumed.
    pub closed spec fn spec_skip(&self) -> usize {
        self.skip
    }

    /// The frame the last search found, if any.
    pub closed spec fn spec_found(&self) -> Option<FoundFrame> {
        self.found
    }

    /// Whether the next read needs new data from the port.
    pub closed spec fn spec_needs_read(&self) -> bool {
        self.needs_read
    }

    /// The incoming CRC style.
    pub closed spec fn spec_in_crc(&self) -> InC {
        self.in_crc
    }

    /// The outgoing CRC style.
    pub closed spec fn spec_out_crc(&self) -> OutC {
        self.out_crc
    }

    /// The state of a client that has not read anything yet.
    pub open spec fn fresh(&self) -> bool {
        &&& self.spec_skip() == 0
        &&& self.spec_found() is None
        &&& self.spec_needs_read()
    }

    /// The consumed count and the found frame lie within the buffer.
    pub open spec fn wf(&self) -> bool {
        &&& self.spec_skip() <= self.spec_buffer()@.len()
        &&& self.spec_found() matches Some(f) ==> f.full_frame.start <= f.frame_contents.start
            <= f.frame_contents.end <= self.spec_buffer()@.len()
    }

    /// The same client but for its buffer.
    pub open spec fn same_but_buffer(&self, other: &Self) -> bool {
        &&& self.spec_port() == other.spec_port()
        &&& self.spec_skip() == other.spec_skip()
        &&& self.spec_found() == other.spec_found()
        &&& self.spec_needs_read() == other.spec_needs_read()
        &&& self.spec_in_crc() == other.spec_in_crc()
        &&& self.spec_out_crc() == other.spec_out_crc()
    }

    /// The buffer once the data consumed by the last search is dropped.
    pub open spec fn remaining(&self) -> Seq<u8> {
        self.spec_buffer()@.subrange(self.spec_skip() as int, self.spec_buffer()@.len() as int)
    }

    /// What [Self::prepare_read] makes of this client: `next` has forgotten
    /// the frame found last, dropped the bytes the last search consumed
    /// (all of them, when what is left still fills the buffer), and needs
    /// the port when this one did or when its buffer was cleared.
    pub open spec fn read_prepared(&self, next: Self) -> bool {
        let rest = self.remaining();
        let full = rest.len() >= MAX_FRAME_SIZE;
        &&& next.wf()
        &&& next.spec_buffer()@ == if full {
            Seq::<u8>::empty()
        } else {
            rest
        }
        &&& next.spec_needs_read() == (self.spec_needs_read() || full)
        &&& next.spec_skip() == 0
        &&& next.spec_found() is None
        &&& next.spec_port() == self.spec_port()
        &&& next.spec_in_crc() == self.spec_in_crc()
        &&& next.spec_out_crc() == self.spec_out_crc()
    }

    /// The data a [Self::finish_read] searches: the buffer, then the bytes
    /// read from the port, if any.
    pub open spec fn read_data(&self, incoming: Option<Seq<u8>>) -> Seq<u8> {
        match incoming {
            Some(b) => self.spec_buffer()@ + b,
            None => self.spec_buffer()@,
        }
    }

    /// What [Self::finish_read] with the bytes `incoming` makes of this
    /// client, and returns as `r`. Reading nothing from the port is an
    /// unexpected end of file, and leaves the client as it was. Otherwise
    /// the client has searched its data: it keeps the count consumed and
    /// the frame found, deobfuscated in place, and needs the port when no
    /// frame was found.
    pub open spec fn read_finished<E>(
        &self,
        incoming: Option<Seq<u8>>,
        r: Result<(), ClientError<E>>,
        next: Self,
    ) -> bool {
        match incoming {
            Some(b) if b.len() == 0 => r == Err::<(), ClientError<E>>(ClientError::UnexpectedEof)
                && next == *self,
            _ => {
                let data = self.read_data(incoming);
                let (n, f) = frame_search(data, 0);
                &&& r is Ok
                &&& next.wf()
                &&& next.spec_skip() == n
                &&& next.spec_found() == found_from(f)
                &&& next.spec_buffer()@ == match f {
                    Some((s, e)) => deobfuscated_range(data, s + 4, e),
                    None => data,
                }
                &&& next.spec_needs_read() == f is None
                &&& next.spec_port() == self.spec_port()
                &&& next.spec_in_crc() == self.spec_in_crc()
                &&& next.spec_out_crc() == self.spec_out_crc()
            },
        }
    }

    /// Create a new client with the provided buffer and CRCs.
    pub fn new_crc_with(buffer: ArrayBuffer<MAX_FRAME_SIZE>, in_crc: InC, out_crc: OutC, port: F) -> (c: Self)
        ensures
            c.wf(),
            c.spec_buffer() == buffer,
            c.fresh(),
            c.spec_in_crc() == in_crc,
            c.spec_out_crc() == out_crc,
            c.spec_port() == port,
    {
        Client { port, buffer, skip: 0, found: None, needs_read: true, in_crc, out_crc }
    }

    /// Create a new client with the provided incoming and outgoing CRC
    /// styles.
    pub fn new_crc(in_crc: InC, out_crc: OutC, port: F) -> (c: Self)
        ensures
            c.wf(),
            c.spec_buffer()@ == Seq::<u8>::empty(),
            c.fresh(),
            c.spec_in_crc() == in_crc,
            c.spec_out_crc() == out_crc,
            c.spec_port() == port,
    {
        Self::new_crc_with(ArrayBuffer::new(), in_crc, out_crc, port)
    }

    /// Release the components used to create this client.
    pub fn free(self) -> (r: (ArrayBuffer<MAX_FRAME_SIZE>, InC, OutC, F))
        ensures
            r == (self.spec_buffer(), self.spec_in_crc(), self.spec_out_crc(), self.spec_port()),
    {
        (self.buffer, self.in_crc, self.out_crc, self.port)
    }

    /// Get the underlying buffer.
    pub fn buffer(&self) -> (b: &ArrayBuffer<MAX_FRAME_SIZE>)
        ensures
            *b == self.spec_buffer(),
    {
        &self.buffer
    }

    /// Get the underlying buffer, mutably.
    ///
    /// Be careful mutating this, as it may cause the client to become
    /// confused: reads need [Self::wf] again.
    pub fn buffer_mut(&mut self) -> (b: &mut ArrayBuffer<MAX_FRAME_SIZE>)
        ensures
            *b == old(self).spec_buffer(),
            final(self).spec_buffer() == *final(b),
            final(self).same_but_buffer(old(self)),
    {
        &mut self.buffer
    }

    /// Get the underlying port.
    pub fn port(&self) -> (p: &F)
        ensures
            *p == self.spec_port(),
    {
        &self.port
    }

    /// Get the underlying port, mutably.
    ///
    /// Using this won't confuse the client, but it might cause you to miss
    /// messages if you are not careful.
    pub fn port_mut(&mut self) -> (p: &mut F)
        ensures
            *p == old(self).spec_port(),
            final(self).spec_port() == *final(p),
            final(self).spec_buffer() == old(self).spec_buffer(),
            final(self).spec_skip() == old(self).spec_skip(),
            final(self).spec_found() == old(self).spec_found(),
            final(self).spec_needs_read() == old(self).spec_needs_read(),
            final(self).spec_in_crc() == old(self).spec_in_crc(),
            final(self).spec_out_crc() == old(self).spec_out_crc(),
    {
        &mut self.port
    }

    /// Get the incoming CRC style.
    pub fn in_crc(&self) -> (c: &InC)
        ensures
            *c == self.spec_in_crc(),
    {
        &self.in_crc
    }

    /// Get the outgoing CRC style.
    pub fn out_crc(&self) -> (c: &OutC)
        ensures
            *c == self.spec_out_crc(),
    {
        &self.out_crc
    }

    /// Get the number of bytes consumed by the last parse.
    pub fn skipped(&self) -> (n: usize)
        ensures
            n == self.spec_skip(),
    {
        self.skip
    }

    /// Get the bounds of the frame found in the last parse, if any.
    pub fn found(&self) -> (f: &Option<FoundFrame>)
        ensures
            *f == self.spec_found(),
    {
        &self.found
    }

    /// Whether the next read needs new data from the port.
    pub fn needs_read(&self) -> (r: bool)
        ensures
            r == self.spec_needs_read(),
    {
        self.needs_read
    }

    /// First step of a read: forget the last frame, drop the data the
    /// last search consumed, clear the buffer if it is still full, and
    /// say whether new data must be read from the port before
    /// [Self::finish_read]. When it must, read at most
    /// `self.buffer().space()` bytes.
    pub fn prepare_read(&mut self) -> (needs: bool)
        requires
            old(self).wf(),
        ensures
            old(self).read_prepared(*final(self)),
            needs == final(self).spec_needs_read(),
    {
        // clear any previously found frame
        self.found = None;
        // apply skip from last read cycle
        if self.skip > 0 {
            self.buffer.skip(self.skip);
            self.skip = 0;
        } else {
            assert(self.buffer@.subrange(0, self.buffer@.len() as int) =~= self.buffer@);
        }
        // if the buffer is full, even now, clear it and restart
        if self.buffer.is_full() {
            self.buffer.clear();
            self.needs_read = true;
        }
        self.needs_read
    }

    /// Second step of a read: take the data read from the port, if
    /// [Self::prepare_read] asked for some, and look for a frame in the
    /// buffer.
    ///
    /// Reading nothing when data was needed is an unexpected end of file,
    /// and leaves the client as it was. Otherwise a found frame is
    /// deobfuscated in place; with none found, the next read needs new
    /// data.
    pub fn finish_read<E>(&mut self, incoming: Option<&[u8]>) -> (r: Result<(), ClientError<E>>)
        requires
            old(self).wf(),
            incoming is Some == old(self).spec_needs_read(),
            incoming matches Some(b) ==> old(self).spec_buffer()@.len() + b@.len()
                <= MAX_FRAME_SIZE,
        ensures
            old(self).read_finished(
                match incoming {
                    Some(b) => Some(b@),
                    None => None,
                },
                r,
                *final(self),
            ),
    {
        match incoming {
            Some(b) => {
                if b.len() == 0 {
                    // end of file is an error
                    return Err(ClientError::UnexpectedEof);
                }
                self.buffer.fill(b);
                self.needs_read = false;
            },
            None => {},
        }
        // attempt to find a frame
        let ghost data = self.buffer@;
        proof {
            lemma_frame_search_bounds(data, 0);
        }
        let mut buf = ArrayBuffer::new();
        core::mem::swap(&mut buf, &mut self.buffer);
        proof {
            use_type_invariant(&buf);
        }
        let ArrayBuffer { data: mut d } = buf;
        let (skip, found) = crate::protocol::find_frame(d.as_mut_slice());
        self.buffer = ArrayBuffer { data: d };
        self.skip = skip;
        self.found = found;
        if self.found.is_none() {
            // we found no frames, so we need more data
            self.needs_read = true;
        }
        Ok(())
    }

    /// The buffered bytes that the last read found to be outside any frame:
    /// those before the frame it found, or, when it found none, those its
    /// search consumed.
    pub fn extra(&self) -> (r: &[u8])
        requires
            self.wf(),
        ensures
            r@ == self.spec_buffer()@.subrange(
                0,
                match self.spec_found() {
                    Some(f) => f.full_frame.start as int,
                    None => self.spec_skip() as int,
                },
            ),
    {
        let data = self.buffer.data();
        let end = match &self.found {
            Some(f) => f.full_frame.start,
            None => self.skip,
        };
        vstd::slice::slice_subrange(data, 0, end)
    }

    /// Across a read cycle: a [Self::finish_read] that succeeded leaves as
    /// skipped the count that its search over its data consumed, and a
    /// frame it found ends exactly there. The next [Self::prepare_read]
    /// forgets that frame and keeps exactly the bytes of that data after
    /// the skipped ones (none, when those still fill the buffer).
    pub proof fn law_read_cycle<E>(
        before: Self,
        incoming: Option<Seq<u8>>,
        r: Result<(), ClientError<E>>,
        read: Self,
        next: Self,
    )
        requires
            before.read_finished(incoming, r, read),
            r is Ok,
            read.read_prepared(next),
        ensures
            ({
                let data = before.read_data(incoming);
                &&& read.spec_skip() == frame_search(data, 0).0 <= data.len()
                &&& read.spec_found() matches Some(fr) ==> fr.full_frame.end == read.spec_skip()
                &&& next.spec_found() is None
                &&& next.spec_skip() == 0
                &&& next.spec_buffer()@ == if data.len() - read.spec_skip() >= MAX_FRAME_SIZE {
                    Seq::<u8>::empty()
                } else {
                    data.subrange(read.spec_skip() as int, data.len() as int)
                }
            }),
    {
        let data = before.read_data(incoming);
        lemma_frame_search_bounds(data, 0);
        let (n, f) = frame_search(data, 0);
        assert(read.remaining() =~= data.subrange(n, data.len() as int));
    }

    /// One read, [Self::prepare_read] then [Self::finish_read]: the data it
    /// searches is what the last read left after its skipped bytes (nothing,
    /// when that still filled the buffer), then the bytes from the port.
    /// When it succeeds, the skipped count and the found frame are those of
    /// the frame search over that data, and with no frame found the next
    /// read needs the port. When it fails, which is only on reading nothing
    /// from the port, no frame is found.
    pub proof fn law_read_call<E>(
        before: Self,
        mid: Self,
        incoming: Option<Seq<u8>>,
        r: Result<(), ClientError<E>>,
        after: Self,
    )
        requires
            before.wf(),
            before.read_prepared(mid),
            mid.read_finished(incoming, r, after),
        ensures
            ({
                let rest = before.remaining();
                let kept = if rest.len() >= MAX_FRAME_SIZE {
                    Seq::<u8>::empty()
                } else {
                    rest
                };
                let data = match incoming {
                    Some(b) => kept + b,
                    None => kept,
                };
                let (n, f) = frame_search(data, 0);
                &&& r is Ok ==> after.spec_skip() == n && after.spec_found() == found_from(f) && (
                after.spec_found() is None ==> after.spec_needs_read())
                &&& r is Err ==> r == Err::<(), ClientError<E>>(ClientError::UnexpectedEof)
                    && after.spec_found() is None && incoming == Some(Seq::<u8>::empty())
            }),
    {
        match incoming {
            Some(b) => {
                if b.len() == 0 {
                    assert(b =~= Seq::<u8>::empty());
                }
            },
            None => {},
        }
    }

    /// Parse the frame found by the last read, if any.
    pub fn parse<'a, M: MessageParse<'a>>(&'a self) -> (r: ParseResult<&'a [u8], M>)
        where
            InC: CrcStyle,
        requires
            self.wf(),
        ensures
            parse_outcome(self.spec_in_crc(), self.spec_buffer()@, self.spec_found(), r),
    {
        crate::protocol::parse(&self.in_crc, self.buffer.data(), &self.found)
    }

    /// The bytes to send to write a message to the port: the whole frame,
    /// with obfuscation, the outgoing CRC, and start and end markers.
    pub fn encode<M: MessageSerialize>(&self, msg: &M) -> (r: Vec<u8>)
        where
            OutC: CrcStyle,
        requires
            msg.serializable(),
            frame_body_bytes(msg.spec_message_type(), msg.spec_body()).len() <= usize::MAX,
        ensures
            r@ == frame_bytes(
                self.spec_out_crc(),
                frame_body_bytes(msg.spec_message_type(), msg.spec_body()),
            ),
    {
        let mut ser = SerializerWrap::new(Vec::new());
        proof {
            ser.lemma_vec_written();
        }
        let _ = crate::protocol::serialize(&self.out_crc, &mut ser, msg);
        proof {
            ser.lemma_vec_written();
        }
        ser.done()
    }
}

/// What a read gives back of a write: a client whose buffer is empty
/// reads the bytes that [Client::encode] makes of a message, written with
/// the CRC style the reading client checks (one that accepts its own
/// checksums). The frame search of [Client::finish_read] then takes all of
/// them and finds the whole frame, and whatever [Client::parse] returns
/// for the buffer and frame it leaves is the message, parsed as any
/// [Message].
pub proof fn law_client_reads_what_was_written<C: CrcStyle, I: Bytes>(
    crc: C,
    m: Message<I>,
    r: ParseResult<&[u8], Message<&[u8]>>,
)
    requires
        forall|c: u16| #[trigger] crc.spec_validate(c, c),
        m.serializable(),
        m.lengths_agree(),
        m.spec_body().len() + 4 <= MAX_BODY_LEN,
        ({
            let data = Seq::<u8>::empty() + frame_bytes(
                crc,
                frame_body_bytes(m.spec_message_type(), m.spec_body()),
            );
            let (n, f) = frame_search(data, 0);
            parse_outcome(
                crc,
                match f {
                    Some((s, e)) => deobfuscated_range(data, s + 4, e),
                    None => data,
                },
                found_from(f),
                r,
            )
        }),
    ensures
        ({
            let data = frame_bytes(crc, frame_body_bytes(m.spec_message_type(), m.spec_body()));
            &&& frame_search(data, 0) == (data.len() as int, Some((0int, data.len() - 2)))
            &&& r matches ParseResult::Parsed(range, msg) && range.start == 0 && range.end
                == data.len() && msg@ == m@
        }),
{
    let data = frame_bytes(crc, frame_body_bytes(m.spec_message_type(), m.spec_body()));
    assert(Seq::<u8>::empty() + data =~= data);
    law_message_frame_roundtrip(crc, m);
}

} // verus!
