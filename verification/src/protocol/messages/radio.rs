//! Messages used in the stock radio firmware.
use vstd::prelude::*;

use super::util::{lemma_pad1, lemma_pad2, lemma_pad_bytes, pad1, pad2, read_pad1, read_pad2, read_u32x4, read_version, u32x4_at, Bytes, Padding};
use super::MessageType;
use crate::protocol::parse::{opt_view, MessageParse};
use crate::protocol::serialize::{MessageSerialize, Serializer};
use crate::protocol::wire::{get_le_u16, get_le_u32, le_u16_at, le_u32_at, lemma_u16_roundtrip, lemma_u32_roundtrip, u16_le_bytes, u32_le_bytes};
use crate::version::{Version, VERSION_LEN};

verus! {

/// Known good session ID for host messages. Introduced by [Hello].
pub const HELLO_SESSION_ID: u32 = 0x6457396a;

/// 0x0514 Hello, host message.
#[derive(Debug, Clone, Copy, PartialEq, Eq, PartialOrd, Ord, Hash)]
pub struct Hello {
    /// Session ID on all host messages. All further messages must use
    /// this same ID or they will be ignored.
    ///
    /// If unsure, use [HELLO_SESSION_ID].
    pub session_id: u32,
}

impl MessageType for Hello {
    const TYPE: u16 = 0x0514;
}

impl View for Hello {
    type V = Hello;

    open spec fn view(&self) -> Hello {
        *self
    }
}

impl MessageSerialize for Hello {
    open spec fn spec_message_type(&self) -> u16 {
        0x0514
    }

    open spec fn spec_body(&self) -> Seq<u8> {
        u32_le_bytes(self.session_id)
    }

    open spec fn serializable(&self) -> bool {
        true
    }

    fn message_type(&self) -> (t: u16) {
        Self::TYPE
    }

    fn message_body<S: Serializer>(&self, ser: &mut S) -> (r: Result<(), S::Error>) {
        ser.write_le_u32(self.session_id)
    }
}

impl<'a> MessageParse<'a> for Hello {
    open spec fn spec_parse_body(typ: u16, body: Seq<u8>) -> Option<Hello> {
        if typ == 0x0514 && body.len() == 4 {
            Some(Hello { session_id: le_u32_at(body, 0) })
        } else {
            None
        }
    }

    fn parse_body(typ: u16, body: &'a [u8]) -> (r: Option<Self>) {
        if typ != Self::TYPE || body.len() != 4 {
            return None;
        }
        Some(Hello { session_id: get_le_u32(body, 0) })
    }
}

/// Parsing the body of a [Hello] gives it back.
pub proof fn lemma_hello_roundtrip(m: Hello)
    ensures
        <Hello as MessageParse>::spec_parse_body(m.spec_message_type(), m.spec_body()) == Some(m),
{
    let b = m.spec_body();
    assert(b.subrange(0, 4) =~= u32_le_bytes(m.session_id));
    lemma_u32_roundtrip(m.session_id, b, 0);
}


/// The byte a flag is written as.
pub open spec fn flag_byte(b: bool) -> u8 {
    if b {
        1
    } else {
        0
    }
}

/// Write a flag as one byte.
pub fn write_flag<S: Serializer>(ser: &mut S, b: bool) -> (r: Result<(), S::Error>)
    requires
        old(ser).inv(),
    ensures
        old(ser).infallible() ==> r is Ok,
        r is Ok ==> final(ser).inv() && final(ser).infallible() == old(ser).infallible()
            && final(ser).written() == old(ser).written().push(flag_byte(b)),
{
    ser.write_u8(if b {
        1
    } else {
        0
    })
}

/// The bytes of four little-endian u32s.
pub open spec fn u32x4_bytes(c: [u32; 4]) -> Seq<u8> {
    u32_le_bytes(c[0]) + u32_le_bytes(c[1]) + u32_le_bytes(c[2]) + u32_le_bytes(c[3])
}

/// Write four little-endian u32s.
pub fn write_u32x4<S: Serializer>(ser: &mut S, c: &[u32; 4]) -> (r: Result<(), S::Error>)
    requires
        old(ser).inv(),
    ensures
        old(ser).infallible() ==> r is Ok,
        r is Ok ==> final(ser).inv() && final(ser).infallible() == old(ser).infallible()
            && final(ser).written() == old(ser).written() + u32x4_bytes(*c),
{
    ser.write_le_u32(c[0])?;
    ser.write_le_u32(c[1])?;
    ser.write_le_u32(c[2])?;
    let r = ser.write_le_u32(c[3]);
    assert(r is Ok ==> ser.written() =~= old(ser).written() + u32x4_bytes(*c));
    r
}

/// Decoding the bytes of four u32s gives them back.
pub proof fn lemma_u32x4_roundtrip(c: [u32; 4], s: Seq<u8>, pos: int)
    requires
        0 <= pos,
        pos + 16 <= s.len(),
        s.subrange(pos, pos + 16) == u32x4_bytes(c),
    ensures
        u32x4_at(s, pos) == c,
{
    let b = u32x4_bytes(c);
    assert(s.subrange(pos, pos + 4) =~= b.subrange(0, 4));
    assert(b.subrange(0, 4) =~= u32_le_bytes(c[0]));
    assert(s.subrange(pos + 4, pos + 8) =~= b.subrange(4, 8));
    assert(b.subrange(4, 8) =~= u32_le_bytes(c[1]));
    assert(s.subrange(pos + 8, pos + 12) =~= b.subrange(8, 12));
    assert(b.subrange(8, 12) =~= u32_le_bytes(c[2]));
    assert(s.subrange(pos + 12, pos + 16) =~= b.subrange(12, 16));
    assert(b.subrange(12, 16) =~= u32_le_bytes(c[3]));
    lemma_u32_roundtrip(c[0], s, pos);
    lemma_u32_roundtrip(c[1], s, pos + 4);
    lemma_u32_roundtrip(c[2], s, pos + 8);
    lemma_u32_roundtrip(c[3], s, pos + 12);
    assert(u32x4_at(s, pos) =~= c);
}

/// 0x0515 HelloReply, radio message.
#[derive(Debug, Clone, Copy, PartialEq, Eq, PartialOrd, Ord, Hash)]
pub struct HelloReply {
    /// Version provided by the radio.
    /// Assume UTF-8, or at least, ASCII, padded by zeros.
    pub version: Version,
    /// Radio is using custom AES key.
    pub has_custom_aes_key: bool,
    /// Radio is in the lock screen.
    pub is_in_lock_screen: bool,
    /// Alignment padding.
    pub _pad: Padding<2>,
    /// AES challenge. See 0x052D.
    pub challenge: [u32; 4],
}

impl MessageType for HelloReply {
    const TYPE: u16 = 0x0515;
}

impl View for HelloReply {
    type V = HelloReply;

    open spec fn view(&self) -> HelloReply {
        *self
    }
}

impl MessageSerialize for HelloReply {
    open spec fn spec_message_type(&self) -> u16 {
        0x0515
    }

    open spec fn spec_body(&self) -> Seq<u8> {
        self.version@ + seq![flag_byte(self.has_custom_aes_key), flag_byte(self.is_in_lock_screen)]
            + self._pad@ + u32x4_bytes(self.challenge)
    }

    open spec fn serializable(&self) -> bool {
        true
    }

    fn message_type(&self) -> (t: u16) {
        Self::TYPE
    }

    fn message_body<S: Serializer>(&self, ser: &mut S) -> (r: Result<(), S::Error>) {
        ser.write_bytes(self.version.as_bytes())?;
        write_flag(ser, self.has_custom_aes_key)?;
        write_flag(ser, self.is_in_lock_screen)?;
        self._pad.serialize(ser)?;
        let r = write_u32x4(ser, &self.challenge);
        assert(r is Ok ==> ser.written() =~= old(ser).written() + self.spec_body());
        r
    }
}

impl<'a> MessageParse<'a> for HelloReply {
    open spec fn spec_parse_body(typ: u16, body: Seq<u8>) -> Option<HelloReply> {
        if typ == 0x0515 && body.len() == 36 {
            Some(
                HelloReply {
                    version: Version::from_seq(body.subrange(0, 16)),
                    has_custom_aes_key: body[16] > 0,
                    is_in_lock_screen: body[17] > 0,
                    _pad: pad2(body[18], body[19]),
                    challenge: u32x4_at(body, 20),
                },
            )
        } else {
            None
        }
    }

    fn parse_body(typ: u16, body: &'a [u8]) -> (r: Option<Self>) {
        if typ != Self::TYPE || body.len() != 36 {
            return None;
        }
        Some(
            HelloReply {
                version: read_version(body, 0),
                has_custom_aes_key: body[16] > 0,
                is_in_lock_screen: body[17] > 0,
                _pad: read_pad2(body, 18),
                challenge: read_u32x4(body, 20),
            },
        )
    }
}

/// The wire layout of a hello reply's body, 36 bytes: the 16 version
/// bytes; the custom-AES-key flag at byte 16 and the lock-screen flag at
/// byte 17, each 1 when set and 0 when not; 2 padding bytes; and the four
/// challenge words as little-endian u32s from byte 20. A body is read
/// back by the same layout, a flag being set when its byte is not zero;
/// any other length or message type does not parse.
pub proof fn law_hello_reply_wire_layout(m: HelloReply, typ: u16, body: Seq<u8>)
    ensures
        ({
            let b = m.spec_body();
            &&& m.spec_message_type() == 0x0515
            &&& b.len() == 36
            &&& b.subrange(0, 16) == m.version@
            &&& b[16] == (if m.has_custom_aes_key {
                1u8
            } else {
                0u8
            })
            &&& b[17] == (if m.is_in_lock_screen {
                1u8
            } else {
                0u8
            })
            &&& b.subrange(18, 20) == m._pad@
            &&& forall|k: int|
                0 <= k < 4 ==> #[trigger] b.subrange(20 + 4 * k, 24 + 4 * k) == u32_le_bytes(
                    m.challenge[k],
                )
        }),
        (<HelloReply as MessageParse>::spec_parse_body(typ, body) is Some) == (typ == 0x0515
            && body.len() == 36),
        <HelloReply as MessageParse>::spec_parse_body(typ, body) matches Some(r) ==> {
            &&& r.version@ == body.subrange(0, 16)
            &&& r.has_custom_aes_key == (body[16] != 0)
            &&& r.is_in_lock_screen == (body[17] != 0)
            &&& r._pad@ == body.subrange(18, 20)
            &&& forall|k: int| 0 <= k < 4 ==> #[trigger] r.challenge[k] == le_u32_at(body, 20 + 4 * k)
        },
{
    let b = m.spec_body();
    Version::lemma_view(m.version);
    assert(b.subrange(0, 16) =~= m.version@);
    lemma_pad2(m._pad);
    assert(b.subrange(18, 20) =~= m._pad@);
    assert forall|k: int| 0 <= k < 4 implies #[trigger] b.subrange(20 + 4 * k, 24 + 4 * k)
        == u32_le_bytes(m.challenge[k]) by {
        assert(b.subrange(20, 36) =~= u32x4_bytes(m.challenge));
        assert(b.subrange(20 + 4 * k, 24 + 4 * k) =~= u32x4_bytes(m.challenge).subrange(
            4 * k,
            4 * k + 4,
        ));
        assert(u32x4_bytes(m.challenge).subrange(0, 4) =~= u32_le_bytes(m.challenge[0]));
        assert(u32x4_bytes(m.challenge).subrange(4, 8) =~= u32_le_bytes(m.challenge[1]));
        assert(u32x4_bytes(m.challenge).subrange(8, 12) =~= u32_le_bytes(m.challenge[2]));
        assert(u32x4_bytes(m.challenge).subrange(12, 16) =~= u32_le_bytes(m.challenge[3]));
    }
    if typ == 0x0515 && body.len() == 36 {
        let r = <HelloReply as MessageParse>::spec_parse_body(typ, body)->Some_0;
        Version::lemma_from_seq(body.subrange(0, 16));
        lemma_pad_bytes(body[18], body[19]);
        assert(r._pad@ =~= body.subrange(18, 20));
    }
}

/// Parsing the body of a [HelloReply] gives it back.
pub proof fn lemma_hello_reply_roundtrip(m: HelloReply)
    ensures
        <HelloReply as MessageParse>::spec_parse_body(m.spec_message_type(), m.spec_body())
            == Some(m),
{
    let b = m.spec_body();
    Version::lemma_view(m.version);
    lemma_pad2(m._pad);
    assert(b.subrange(0, 16) =~= m.version@);
    assert(b.subrange(20, 36) =~= u32x4_bytes(m.challenge));
    lemma_u32x4_roundtrip(m.challenge, b, 20);
    assert(b[18] == m._pad@[0]);
    assert(b[19] == m._pad@[1]);
}

/// 0x051b Read EEPROM, host message.
#[derive(Debug, Clone, Copy, PartialEq, Eq, PartialOrd, Ord, Hash)]
pub struct ReadEeprom {
    /// Address to read.
    pub address: u16,
    /// Number of bytes to read from address, usually 0x80.
    pub len: u8,
    /// Alignment padding.
    pub _pad: Padding<1>,
    /// Session ID, must match the one provided by initial [Hello].
    pub session_id: u32,
}

impl MessageType for ReadEeprom {
    const TYPE: u16 = 0x051b;
}

impl View for ReadEeprom {
    type V = ReadEeprom;

    open spec fn view(&self) -> ReadEeprom {
        *self
    }
}

impl MessageSerialize for ReadEeprom {
    open spec fn spec_message_type(&self) -> u16 {
        0x051b
    }

    open spec fn spec_body(&self) -> Seq<u8> {
        u16_le_bytes(self.address) + seq![self.len] + self._pad@ + u32_le_bytes(self.session_id)
    }

    open spec fn serializable(&self) -> bool {
        true
    }

    fn message_type(&self) -> (t: u16) {
        Self::TYPE
    }

    fn message_body<S: Serializer>(&self, ser: &mut S) -> (r: Result<(), S::Error>) {
        ser.write_le_u16(self.address)?;
        ser.write_u8(self.len)?;
        self._pad.serialize(ser)?;
        let r = ser.write_le_u32(self.session_id);
        assert(r is Ok ==> ser.written() =~= old(ser).written() + self.spec_body());
        r
    }
}

impl<'a> MessageParse<'a> for ReadEeprom {
    open spec fn spec_parse_body(typ: u16, body: Seq<u8>) -> Option<ReadEeprom> {
        if typ == 0x051b && body.len() == 8 {
            Some(
                ReadEeprom {
                    address: le_u16_at(body, 0),
                    len: body[2],
                    _pad: pad1(body[3]),
                    session_id: le_u32_at(body, 4),
                },
            )
        } else {
            None
        }
    }

    fn parse_body(typ: u16, body: &'a [u8]) -> (r: Option<Self>) {
        if typ != Self::TYPE || body.len() != 8 {
            return None;
        }
        Some(
            ReadEeprom {
                address: get_le_u16(body, 0),
                len: body[2],
                _pad: read_pad1(body, 3),
                session_id: get_le_u32(body, 4),
            },
        )
    }
}

/// The wire layout of an EEPROM read request's body, 8 bytes: the
/// address as a little-endian u16, the number of bytes to read, 1 padding
/// byte, and the session id as a little-endian u32. A body is read back by
/// the same layout; any other length or message type does not parse.
pub proof fn law_read_eeprom_wire_layout(m: ReadEeprom, typ: u16, body: Seq<u8>)
    ensures
        ({
            let b = m.spec_body();
            &&& m.spec_message_type() == 0x051b
            &&& b.len() == 8
            &&& b.subrange(0, 2) == u16_le_bytes(m.address)
            &&& b[2] == m.len
            &&& b.subrange(3, 4) == m._pad@
            &&& b.subrange(4, 8) == u32_le_bytes(m.session_id)
        }),
        (<ReadEeprom as MessageParse>::spec_parse_body(typ, body) is Some) == (typ == 0x051b
            && body.len() == 8),
        <ReadEeprom as MessageParse>::spec_parse_body(typ, body) matches Some(r) ==> {
            &&& r.address == le_u16_at(body, 0)
            &&& r.len == body[2]
            &&& r._pad@ == body.subrange(3, 4)
            &&& r.session_id == le_u32_at(body, 4)
        },
{
    let b = m.spec_body();
    lemma_pad1(m._pad);
    assert(b.subrange(0, 2) =~= u16_le_bytes(m.address));
    assert(b.subrange(3, 4) =~= m._pad@);
    assert(b.subrange(4, 8) =~= u32_le_bytes(m.session_id));
    if typ == 0x051b && body.len() == 8 {
        lemma_pad_bytes(body[3], body[3]);
        assert(pad1(body[3])@ =~= body.subrange(3, 4));
    }
}

/// Parsing the body of a [ReadEeprom] gives it back.
pub proof fn lemma_read_eeprom_roundtrip(m: ReadEeprom)
    ensures
        <ReadEeprom as MessageParse>::spec_parse_body(m.spec_message_type(), m.spec_body())
            == Some(m),
{
    let b = m.spec_body();
    lemma_pad1(m._pad);
    assert(b.subrange(0, 2) =~= u16_le_bytes(m.address));
    assert(b.subrange(4, 8) =~= u32_le_bytes(m.session_id));
    lemma_u16_roundtrip(m.address, b, 0);
    lemma_u32_roundtrip(m.session_id, b, 4);
    assert(b[3] == m._pad@[0]);
}

/// 0x051c Read Eeprom Reply, radio message.
#[derive(Debug, Clone, PartialEq, Eq, PartialOrd, Ord, Hash)]
pub struct ReadEepromReply<I> {
    /// Address of data read.
    pub address: u16,
    /// Number of bytes of data read.
    pub len: u8,
    /// Alignment padding.
    pub _pad: Padding<1>,
    /// Data read from EEPROM.
    pub data: I,
}

impl<I> MessageType for ReadEepromReply<I> {
    const TYPE: u16 = 0x051c;
}

impl<I: View<V = Seq<u8>>> View for ReadEepromReply<I> {
    type V = ReadEepromReply<Seq<u8>>;

    open spec fn view(&self) -> ReadEepromReply<Seq<u8>> {
        ReadEepromReply { address: self.address, len: self.len, _pad: self._pad, data: self.data@ }
    }
}

impl<I> ReadEepromReply<I> {
    /// Apply `f` to the data.
    pub fn map<F, J>(self, f: F) -> (r: ReadEepromReply<J>)
        where
            F: FnOnce(I) -> J,
        requires
            call_requires(f, (self.data,)),
        ensures
            r.address == self.address,
            r.len == self.len,
            r._pad == self._pad,
            call_ensures(f, (self.data,), r.data),
    {
        ReadEepromReply { address: self.address, len: self.len, _pad: self._pad, data: f(self.data) }
    }

    /// Apply `f` to a reference to the data.
    pub fn map_ref<'b, F, J>(&'b self, f: F) -> (r: ReadEepromReply<J>)
        where
            F: FnOnce(&'b I) -> J,
        requires
            call_requires(f, (&self.data,)),
        ensures
            r.address == self.address,
            r.len == self.len,
            r._pad == self._pad,
            call_ensures(f, (&self.data,), r.data),
    {
        ReadEepromReply {
            address: self.address,
            len: self.len,
            _pad: self._pad,
            data: f(&self.data),
        }
    }
}

impl<'b> ReadEepromReply<&'b [u8]> {
    /// A copy that owns its data.
    pub fn to_owned(&self) -> (r: ReadEepromReply<Vec<u8>>)
        ensures
            r@ == self@,
    {
        ReadEepromReply {
            address: self.address,
            len: self.len,
            _pad: self._pad,
            data: vstd::slice::slice_to_vec(self.data),
        }
    }
}

impl ReadEepromReply<Vec<u8>> {
    /// A view that borrows the data.
    pub fn borrow(&self) -> (r: ReadEepromReply<&[u8]>)
        ensures
            r@ == self@,
    {
        ReadEepromReply {
            address: self.address,
            len: self.len,
            _pad: self._pad,
            data: self.data.as_slice(),
        }
    }
}

impl<I: Bytes> MessageSerialize for ReadEepromReply<I> {
    open spec fn spec_message_type(&self) -> u16 {
        0x051c
    }

    open spec fn spec_body(&self) -> Seq<u8> {
        u16_le_bytes(self.address) + seq![self.len] + self._pad@ + self.data@
    }

    open spec fn serializable(&self) -> bool {
        true
    }

    fn message_type(&self) -> (t: u16) {
        Self::TYPE
    }

    fn message_body<S: Serializer>(&self, ser: &mut S) -> (r: Result<(), S::Error>) {
        ser.write_le_u16(self.address)?;
        ser.write_u8(self.len)?;
        self._pad.serialize(ser)?;
        let r = ser.write_bytes(self.data.bytes());
        assert(r is Ok ==> ser.written() =~= old(ser).written() + self.spec_body());
        r
    }
}

impl<'a> MessageParse<'a> for ReadEepromReply<&'a [u8]> {
    open spec fn spec_parse_body(typ: u16, body: Seq<u8>) -> Option<ReadEepromReply<Seq<u8>>> {
        if typ == 0x051c && body.len() >= 4 && body.len() - 4 == body[2] {
            Some(
                ReadEepromReply {
                    address: le_u16_at(body, 0),
                    len: body[2],
                    _pad: pad1(body[3]),
                    data: body.subrange(4, body.len() as int),
                },
            )
        } else {
            None
        }
    }

    fn parse_body(typ: u16, body: &'a [u8]) -> (r: Option<Self>) {
        if typ != Self::TYPE || body.len() < 4 || body.len() - 4 != body[2] as usize {
            return None;
        }
        Some(
            ReadEepromReply {
                address: get_le_u16(body, 0),
                len: body[2],
                _pad: read_pad1(body, 3),
                data: vstd::slice::slice_subrange(body, 4, body.len()),
            },
        )
    }
}

/// The wire layout of an EEPROM read reply's body: the address as a
/// little-endian u16, the data length, 1 padding byte, then the data. A
/// body parses when its length byte is the length of the data after the
/// header, and is read back by the same layout.
pub proof fn law_read_eeprom_reply_wire_layout<I: Bytes>(
    m: ReadEepromReply<I>,
    typ: u16,
    body: Seq<u8>,
)
    ensures
        ({
            let b = m.spec_body();
            &&& m.spec_message_type() == 0x051c
            &&& b.len() == 4 + m.data@.len()
            &&& b.subrange(0, 2) == u16_le_bytes(m.address)
            &&& b[2] == m.len
            &&& b.subrange(3, 4) == m._pad@
            &&& b.subrange(4, b.len() as int) == m.data@
        }),
        (<ReadEepromReply<&[u8]> as MessageParse>::spec_parse_body(typ, body) is Some) == (typ
            == 0x051c && body.len() >= 4 && body.len() == 4 + body[2]),
        <ReadEepromReply<&[u8]> as MessageParse>::spec_parse_body(typ, body) matches Some(r) ==> {
            &&& r.address == le_u16_at(body, 0)
            &&& r.len == body[2]
            &&& r._pad@ == body.subrange(3, 4)
            &&& r.data == body.subrange(4, body.len() as int)
        },
{
    let b = m.spec_body();
    lemma_pad1(m._pad);
    assert(b.subrange(0, 2) =~= u16_le_bytes(m.address));
    assert(b.subrange(3, 4) =~= m._pad@);
    assert(b.subrange(4, b.len() as int) =~= m.data@);
    if typ == 0x051c && body.len() >= 4 && body.len() == 4 + body[2] {
        lemma_pad_bytes(body[3], body[3]);
        assert(pad1(body[3])@ =~= body.subrange(3, 4));
    }
}

/// Parsing the body of a [ReadEepromReply] whose data is as long as its
/// `len` field gives it back.
pub proof fn lemma_read_eeprom_reply_roundtrip<I: Bytes>(m: ReadEepromReply<I>)
    requires
        m.data@.len() == m.len,
    ensures
        <ReadEepromReply<&[u8]> as MessageParse>::spec_parse_body(
            m.spec_message_type(),
            m.spec_body(),
        ) == Some(m@),
{
    let b = m.spec_body();
    lemma_pad1(m._pad);
    assert(b.subrange(0, 2) =~= u16_le_bytes(m.address));
    lemma_u16_roundtrip(m.address, b, 0);
    assert(b[3] == m._pad@[0]);
    assert(b.subrange(4, b.len() as int) =~= m.data@);
}

} // verus!
