//! Messages used in the stock bootloader.
use vstd::prelude::*;

use super::radio::{lemma_u32x4_roundtrip, u32x4_bytes, write_u32x4};
use super::util::{lemma_pad2, lemma_pad_bytes, pad2, read_pad2, read_u32x4, read_version, u32x4_at, Bytes, Padding};
use super::MessageType;
use crate::protocol::parse::MessageParse;
use crate::protocol::serialize::{MessageSerialize, Serializer};
use crate::protocol::wire::{get_le_u16, get_le_u32, le_u16_at, le_u32_at, lemma_u16_roundtrip, lemma_u32_roundtrip, u16_le_bytes, u32_le_bytes};
use crate::version::Version;

verus! {

/// 0x0518 Bootloader Ready, radio message (bootloader mode).
#[derive(Debug, Clone, Copy, PartialEq, Eq, PartialOrd, Ord, Hash)]
pub struct BootloaderReady {
    /// Chip ID for the radio's CPU.
    pub chip_id: [u32; 4],
    /// Bootloader version.
    pub version: Version,
}

impl MessageType for BootloaderReady {
    const TYPE: u16 = 0x0518;
}

impl View for BootloaderReady {
    type V = BootloaderReady;

    open spec fn view(&self) -> BootloaderReady {
        *self
    }
}

impl MessageSerialize for BootloaderReady {
    open spec fn spec_message_type(&self) -> u16 {
        0x0518
    }

    open spec fn spec_body(&self) -> Seq<u8> {
        u32x4_bytes(self.chip_id) + self.version@
    }

    open spec fn serializable(&self) -> bool {
        true
    }

    fn message_type(&self) -> (t: u16) {
        Self::TYPE
    }

    fn message_body<S: Serializer>(&self, ser: &mut S) -> (r: Result<(), S::Error>) {
        write_u32x4(ser, &self.chip_id)?;
        ser.write_bytes(self.version.as_bytes())
    }
}

impl<'a> MessageParse<'a> for BootloaderReady {
    open spec fn spec_parse_body(typ: u16, body: Seq<u8>) -> Option<BootloaderReady> {
        if typ == 0x0518 && body.len() == 32 {
            Some(
                BootloaderReady {
                    chip_id: u32x4_at(body, 0),
                    version: Version::from_seq(body.subrange(16, 32)),
                },
            )
        } else {
            None
        }
    }

    fn parse_body(typ: u16, body: &'a [u8]) -> (r: Option<Self>) {
        if typ != Self::TYPE || body.len() != 32 {
            return None;
        }
        Some(BootloaderReady { chip_id: read_u32x4(body, 0), version: read_version(body, 16) })
    }
}

/// The wire layout of a bootloader-ready message's body, 32 bytes: the
/// four chip id words as little-endian u32s, then the 16 version bytes. A
/// body is read back by the same layout; any other length or message type
/// does not parse.
pub proof fn law_bootloader_ready_wire_layout(m: BootloaderReady, typ: u16, body: Seq<u8>)
    ensures
        ({
            let b = m.spec_body();
            &&& m.spec_message_type() == 0x0518
            &&& b.len() == 32
            &&& forall|k: int|
                0 <= k < 4 ==> #[trigger] b.subrange(4 * k, 4 * k + 4) == u32_le_bytes(
                    m.chip_id[k],
                )
            &&& b.subrange(16, 32) == m.version@
        }),
        (<BootloaderReady as MessageParse>::spec_parse_body(typ, body) is Some) == (typ == 0x0518
            && body.len() == 32),
        <BootloaderReady as MessageParse>::spec_parse_body(typ, body) matches Some(r) ==> {
            &&& forall|k: int| 0 <= k < 4 ==> #[trigger] r.chip_id[k] == le_u32_at(body, 4 * k)
            &&& r.version@ == body.subrange(16, 32)
        },
{
    let b = m.spec_body();
    Version::lemma_view(m.version);
    assert(b.subrange(16, 32) =~= m.version@);
    assert forall|k: int| 0 <= k < 4 implies #[trigger] b.subrange(4 * k, 4 * k + 4)
        == u32_le_bytes(m.chip_id[k]) by {
        assert(b.subrange(0, 4) =~= u32_le_bytes(m.chip_id[0]));
        assert(b.subrange(4, 8) =~= u32_le_bytes(m.chip_id[1]));
        assert(b.subrange(8, 12) =~= u32_le_bytes(m.chip_id[2]));
        assert(b.subrange(12, 16) =~= u32_le_bytes(m.chip_id[3]));
    }
    if typ == 0x0518 && body.len() == 32 {
        Version::lemma_from_seq(body.subrange(16, 32));
    }
}

/// Parsing the body of a [BootloaderReady] gives it back.
pub proof fn lemma_bootloader_ready_roundtrip(m: BootloaderReady)
    ensures
        <BootloaderReady as MessageParse>::spec_parse_body(m.spec_message_type(), m.spec_body())
            == Some(m),
{
    let b = m.spec_body();
    Version::lemma_view(m.version);
    assert(b.subrange(0, 16) =~= u32x4_bytes(m.chip_id));
    lemma_u32x4_roundtrip(m.chip_id, b, 0);
    assert(b.subrange(16, 32) =~= m.version@);
}

/// Known good session ID for flash messages. Used in [WriteFlash].
pub const WRITE_FLASH_SESSION_ID: u32 = 0x1d9f8d8a;

/// Size of the data in a [WriteFlash] message.
pub const WRITE_FLASH_LEN: usize = 0x100;

/// 0x0519 Write Flash, host message (bootloader mode).
#[derive(Debug, Clone, PartialEq, Eq, PartialOrd, Ord, Hash)]
pub struct WriteFlash<I> {
    /// Session ID unique to this flash sequence. Use
    /// [WRITE_FLASH_SESSION_ID] if unsure. This must be the same
    /// for all writes in a given session.
    pub session_id: u32,
    /// Which 0x100 byte page to write. Increments by 1 each message.
    pub page: u16,
    /// Maximum flash page, exclusive. Device boots after writing when
    /// `page + 1 == max_page`.
    pub max_page: u16,
    /// Length of data. Note the data is always 0x100 bytes; this
    /// field instead indicates how much data inside is used.
    ///
    /// This seems to be ignored by the bootloader.
    pub len: u16,
    /// Alignment padding.
    pub _pad: Padding<2>,
    /// Data to write to flash. Must be 0x100 / [WRITE_FLASH_LEN] bytes!
    pub data: I,
}

impl<I> MessageType for WriteFlash<I> {
    const TYPE: u16 = 0x0519;
}

impl<I: View<V = Seq<u8>>> View for WriteFlash<I> {
    type V = WriteFlash<Seq<u8>>;

    open spec fn view(&self) -> WriteFlash<Seq<u8>> {
        WriteFlash {
            session_id: self.session_id,
            page: self.page,
            max_page: self.max_page,
            len: self.len,
            _pad: self._pad,
            data: self.data@,
        }
    }
}

impl<I> WriteFlash<I> {
    /// Apply `f` to the data.
    pub fn map<F, J>(self, f: F) -> (r: WriteFlash<J>)
        where
            F: FnOnce(I) -> J,
        requires
            call_requires(f, (self.data,)),
        ensures
            r.session_id == self.session_id,
            r.page == self.page,
            r.max_page == self.max_page,
            r.len == self.len,
            r._pad == self._pad,
            call_ensures(f, (self.data,), r.data),
    {
        WriteFlash {
            session_id: self.session_id,
            page: self.page,
            max_page: self.max_page,
            len: self.len,
            _pad: self._pad,
            data: f(self.data),
        }
    }

    /// Apply `f` to a reference to the data.
    pub fn map_ref<'b, F, J>(&'b self, f: F) -> (r: WriteFlash<J>)
        where
            F: FnOnce(&'b I) -> J,
        requires
            call_requires(f, (&self.data,)),
        ensures
            r.session_id == self.session_id,
            r.page == self.page,
            r.max_page == self.max_page,
            r.len == self.len,
            r._pad == self._pad,
            call_ensures(f, (&self.data,), r.data),
    {
        WriteFlash {
            session_id: self.session_id,
            page: self.page,
            max_page: self.max_page,
            len: self.len,
            _pad: self._pad,
            data: f(&self.data),
        }
    }
}

impl<'b> WriteFlash<&'b [u8]> {
    /// A copy that owns its data.
    pub fn to_owned(&self) -> (r: WriteFlash<Vec<u8>>)
        ensures
            r@ == self@,
    {
        WriteFlash {
            session_id: self.session_id,
            page: self.page,
            max_page: self.max_page,
            len: self.len,
            _pad: self._pad,
            data: vstd::slice::slice_to_vec(self.data),
        }
    }
}

impl WriteFlash<Vec<u8>> {
    /// A view that borrows the data.
    pub fn borrow(&self) -> (r: WriteFlash<&[u8]>)
        ensures
            r@ == self@,
    {
        WriteFlash {
            session_id: self.session_id,
            page: self.page,
            max_page: self.max_page,
            len: self.len,
            _pad: self._pad,
            data: self.data.as_slice(),
        }
    }
}

impl<I: Bytes> MessageSerialize for WriteFlash<I> {
    open spec fn spec_message_type(&self) -> u16 {
        0x0519
    }

    open spec fn spec_body(&self) -> Seq<u8> {
        u32_le_bytes(self.session_id) + u16_le_bytes(self.page) + u16_le_bytes(self.max_page)
            + u16_le_bytes(self.len) + self._pad@ + self.data@
    }

    /// A malformed page is never sent to the bootloader: the data must
    /// be exactly [WRITE_FLASH_LEN] bytes.
    open spec fn serializable(&self) -> bool {
        self.data@.len() == WRITE_FLASH_LEN
    }

    fn message_type(&self) -> (t: u16) {
        Self::TYPE
    }

    fn message_body<S: Serializer>(&self, ser: &mut S) -> (r: Result<(), S::Error>) {
        ser.write_le_u32(self.session_id)?;
        ser.write_le_u16(self.page)?;
        ser.write_le_u16(self.max_page)?;
        ser.write_le_u16(self.len)?;
        self._pad.serialize(ser)?;
        let r = ser.write_bytes(self.data.bytes());
        assert(r is Ok ==> ser.written() =~= old(ser).written() + self.spec_body());
        r
    }
}

impl<'a> MessageParse<'a> for WriteFlash<&'a [u8]> {
    open spec fn spec_parse_body(typ: u16, body: Seq<u8>) -> Option<WriteFlash<Seq<u8>>> {
        if typ == 0x0519 && body.len() == 12 + WRITE_FLASH_LEN {
            Some(
                WriteFlash {
                    session_id: le_u32_at(body, 0),
                    page: le_u16_at(body, 4),
                    max_page: le_u16_at(body, 6),
                    len: le_u16_at(body, 8),
                    _pad: pad2(body[10], body[11]),
                    data: body.subrange(12, body.len() as int),
                },
            )
        } else {
            None
        }
    }

    fn parse_body(typ: u16, body: &'a [u8]) -> (r: Option<Self>) {
        if typ != Self::TYPE || body.len() != 12 + WRITE_FLASH_LEN {
            return None;
        }
        // message always has 0x100 bytes of data, regardless of len
        Some(
            WriteFlash {
                session_id: get_le_u32(body, 0),
                page: get_le_u16(body, 4),
                max_page: get_le_u16(body, 6),
                len: get_le_u16(body, 8),
                _pad: read_pad2(body, 10),
                data: vstd::slice::slice_subrange(body, 12, body.len()),
            },
        )
    }
}

/// The wire layout of a flash write's body: the session id as a
/// little-endian u32 in bytes 0..4, the page number as a little-endian u16
/// in bytes 4..6, the number of pages in bytes 6..8, the length of the
/// data in bytes 8..10, 2 padding bytes, and the data from byte 12. A body
/// of 12 + [WRITE_FLASH_LEN] bytes is read back by the same layout; any
/// other length or message type does not parse.
pub proof fn law_write_flash_wire_layout<I: Bytes>(m: WriteFlash<I>, typ: u16, body: Seq<u8>)
    ensures
        ({
            let b = m.spec_body();
            &&& m.spec_message_type() == 0x0519
            &&& b.len() == 12 + m.data@.len()
            &&& b.subrange(0, 4) == u32_le_bytes(m.session_id)
            &&& b.subrange(4, 6) == u16_le_bytes(m.page)
            &&& b.subrange(6, 8) == u16_le_bytes(m.max_page)
            &&& b.subrange(8, 10) == u16_le_bytes(m.len)
            &&& b.subrange(10, 12) == m._pad@
            &&& b.subrange(12, b.len() as int) == m.data@
        }),
        (<WriteFlash<&[u8]> as MessageParse>::spec_parse_body(typ, body) is Some) == (typ == 0x0519
            && body.len() == 12 + WRITE_FLASH_LEN),
        <WriteFlash<&[u8]> as MessageParse>::spec_parse_body(typ, body) matches Some(r) ==> {
            &&& r.session_id == le_u32_at(body, 0)
            &&& r.page == le_u16_at(body, 4)
            &&& r.max_page == le_u16_at(body, 6)
            &&& r.len == le_u16_at(body, 8)
            &&& r._pad@ == body.subrange(10, 12)
            &&& r.data == body.subrange(12, body.len() as int)
        },
{
    let b = m.spec_body();
    lemma_pad2(m._pad);
    assert(b.subrange(0, 4) =~= u32_le_bytes(m.session_id));
    assert(b.subrange(4, 6) =~= u16_le_bytes(m.page));
    assert(b.subrange(6, 8) =~= u16_le_bytes(m.max_page));
    assert(b.subrange(8, 10) =~= u16_le_bytes(m.len));
    assert(b.subrange(10, 12) =~= m._pad@);
    assert(b.subrange(12, b.len() as int) =~= m.data@);
    if typ == 0x0519 && body.len() == 12 + WRITE_FLASH_LEN {
        let r = <WriteFlash<&[u8]> as MessageParse>::spec_parse_body(typ, body)->Some_0;
        lemma_pad_bytes(body[10], body[11]);
        assert(r._pad@ =~= body.subrange(10, 12));
    }
}

/// Parsing the body of a well-formed [WriteFlash] gives it back.
pub proof fn lemma_write_flash_roundtrip<I: Bytes>(m: WriteFlash<I>)
    requires
        m.serializable(),
    ensures
        <WriteFlash<&[u8]> as MessageParse>::spec_parse_body(m.spec_message_type(), m.spec_body())
            == Some(m@),
{
    let b = m.spec_body();
    lemma_pad2(m._pad);
    assert(b.subrange(0, 4) =~= u32_le_bytes(m.session_id));
    assert(b.subrange(4, 6) =~= u16_le_bytes(m.page));
    assert(b.subrange(6, 8) =~= u16_le_bytes(m.max_page));
    assert(b.subrange(8, 10) =~= u16_le_bytes(m.len));
    lemma_u32_roundtrip(m.session_id, b, 0);
    lemma_u16_roundtrip(m.page, b, 4);
    lemma_u16_roundtrip(m.max_page, b, 6);
    lemma_u16_roundtrip(m.len, b, 8);
    assert(b[10] == m._pad@[0]);
    assert(b[11] == m._pad@[1]);
    assert(b.subrange(12, b.len() as int) =~= m.data@);
}

/// 0x051a Write Flash Reply, radio message (bootloader mode).
#[derive(Debug, Clone, Copy, PartialEq, Eq, PartialOrd, Ord, Hash)]
pub struct WriteFlashReply {
    /// Session ID, matches the session id sent in the [WriteFlash] message.
    pub session_id: u32,
    /// Page number, matches the page sent in the [WriteFlash] message.
    pub page: u16,
    /// Error, 0 indicates success and non-zero indiates error.
    pub error: u16,
}

impl MessageType for WriteFlashReply {
    const TYPE: u16 = 0x051a;
}

impl View for WriteFlashReply {
    type V = WriteFlashReply;

    open spec fn view(&self) -> WriteFlashReply {
        *self
    }
}

impl MessageSerialize for WriteFlashReply {
    open spec fn spec_message_type(&self) -> u16 {
        0x051a
    }

    open spec fn spec_body(&self) -> Seq<u8> {
        u32_le_bytes(self.session_id) + u16_le_bytes(self.page) + u16_le_bytes(self.error)
    }

    open spec fn serializable(&self) -> bool {
        true
    }

    fn message_type(&self) -> (t: u16) {
        Self::TYPE
    }

    fn message_body<S: Serializer>(&self, ser: &mut S) -> (r: Result<(), S::Error>) {
        ser.write_le_u32(self.session_id)?;
        ser.write_le_u16(self.page)?;
        let r = ser.write_le_u16(self.error);
        assert(r is Ok ==> ser.written() =~= old(ser).written() + self.spec_body());
        r
    }
}

impl<'a> MessageParse<'a> for WriteFlashReply {
    open spec fn spec_parse_body(typ: u16, body: Seq<u8>) -> Option<WriteFlashReply> {
        if typ == 0x051a && body.len() == 8 {
            Some(
                WriteFlashReply {
                    session_id: le_u32_at(body, 0),
                    page: le_u16_at(body, 4),
                    error: le_u16_at(body, 6),
                },
            )
        } else {
            None
        }
    }

    fn parse_body(typ: u16, body: &'a [u8]) -> (r: Option<Self>) {
        if typ != Self::TYPE || body.len() != 8 {
            return None;
        }
        Some(
            WriteFlashReply {
                session_id: get_le_u32(body, 0),
                page: get_le_u16(body, 4),
                error: get_le_u16(body, 6),
            },
        )
    }
}

/// The wire layout of a flash write reply's body, 8 bytes: the session id
/// as a little-endian u32, the page number as a little-endian u16, and the
/// error code as a little-endian u16. A body is read back by the same
/// layout; any other length or message type does not parse.
pub proof fn law_write_flash_reply_wire_layout(m: WriteFlashReply, typ: u16, body: Seq<u8>)
    ensures
        ({
            let b = m.spec_body();
            &&& m.spec_message_type() == 0x051a
            &&& b.len() == 8
            &&& b.subrange(0, 4) == u32_le_bytes(m.session_id)
            &&& b.subrange(4, 6) == u16_le_bytes(m.page)
            &&& b.subrange(6, 8) == u16_le_bytes(m.error)
        }),
        (<WriteFlashReply as MessageParse>::spec_parse_body(typ, body) is Some) == (typ == 0x051a
            && body.len() == 8),
        <WriteFlashReply as MessageParse>::spec_parse_body(typ, body) matches Some(r) ==> {
            &&& r.session_id == le_u32_at(body, 0)
            &&& r.page == le_u16_at(body, 4)
            &&& r.error == le_u16_at(body, 6)
        },
{
    let b = m.spec_body();
    assert(b.subrange(0, 4) =~= u32_le_bytes(m.session_id));
    assert(b.subrange(4, 6) =~= u16_le_bytes(m.page));
    assert(b.subrange(6, 8) =~= u16_le_bytes(m.error));
}

/// Parsing the body of a [WriteFlashReply] gives it back.
pub proof fn lemma_write_flash_reply_roundtrip(m: WriteFlashReply)
    ensures
        <WriteFlashReply as MessageParse>::spec_parse_body(m.spec_message_type(), m.spec_body())
            == Some(m),
{
    let b = m.spec_body();
    assert(b.subrange(0, 4) =~= u32_le_bytes(m.session_id));
    assert(b.subrange(4, 6) =~= u16_le_bytes(m.page));
    assert(b.subrange(6, 8) =~= u16_le_bytes(m.error));
    lemma_u32_roundtrip(m.session_id, b, 0);
    lemma_u16_roundtrip(m.page, b, 4);
    lemma_u16_roundtrip(m.error, b, 6);
}

/// 0x0530 Bootloader Ready Reply, host message (bootloader mode).
#[derive(Debug, Clone, Copy, PartialEq, Eq, PartialOrd, Ord, Hash)]
pub struct BootloaderReadyReply {
    /// Incoming firmware version.
    pub version: Version,
}

impl MessageType for BootloaderReadyReply {
    const TYPE: u16 = 0x0530;
}

impl View for BootloaderReadyReply {
    type V = BootloaderReadyReply;

    open spec fn view(&self) -> BootloaderReadyReply {
        *self
    }
}

impl MessageSerialize for BootloaderReadyReply {
    open spec fn spec_message_type(&self) -> u16 {
        0x0530
    }

    open spec fn spec_body(&self) -> Seq<u8> {
        self.version@
    }

    open spec fn serializable(&self) -> bool {
        true
    }

    fn message_type(&self) -> (t: u16) {
        Self::TYPE
    }

    fn message_body<S: Serializer>(&self, ser: &mut S) -> (r: Result<(), S::Error>) {
        ser.write_bytes(self.version.as_bytes())
    }
}

impl<'a> MessageParse<'a> for BootloaderReadyReply {
    open spec fn spec_parse_body(typ: u16, body: Seq<u8>) -> Option<BootloaderReadyReply> {
        if typ == 0x0530 && body.len() == 16 {
            Some(BootloaderReadyReply { version: Version::from_seq(body) })
        } else {
            None
        }
    }

    fn parse_body(typ: u16, body: &'a [u8]) -> (r: Option<Self>) {
        if typ != Self::TYPE || body.len() != 16 {
            return None;
        }
        let version = read_version(body, 0);
        assert(body@.subrange(0, 16) =~= body@);
        Some(BootloaderReadyReply { version })
    }
}

/// Parsing the body of a [BootloaderReadyReply] gives it back.
pub proof fn lemma_bootloader_ready_reply_roundtrip(m: BootloaderReadyReply)
    ensures
        <BootloaderReadyReply as MessageParse>::spec_parse_body(
            m.spec_message_type(),
            m.spec_body(),
        ) == Some(m),
{
    Version::lemma_view(m.version);
}

} // verus!
