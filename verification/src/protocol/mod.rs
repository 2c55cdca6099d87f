//! The UV-K5 serial protocol: framing, obfuscation, checksums and messages.
use vstd::prelude::*;

pub use messages::{HostMessage, Message, MessageType, RadioMessage};
pub use parse::{FoundFrame, MessageParse, ParseResult};
pub use serialize::{MessageSerialize, Serializer};

use crc::CrcStyle;
use obfuscation::{key_byte, obfuscate};
use parse::{
    anchored, deobfuscated_range, frame_end_seq, frame_search, frame_start_seq, opt_view, parse_outcome, scan,
    spec_check_crc, spec_parse_frame_body, MatchResult,
};
use serialize::{frame_body_bytes, frame_bytes};
use messages::{bootloader, custom, law_message_body_roundtrip, radio, util::Bytes};
use wire::{le_u16_at, lemma_u16_roundtrip, u16_le_bytes};

pub mod crc;
pub mod deobfuscated;
pub mod messages;
pub mod obfuscation;
pub mod parse;
pub mod serialize;
pub mod wire;

verus! {

/// Frame start sequence.
pub const FRAME_START: [u8; 2] = [0xab, 0xcd];

/// Frame end sequence.
pub const FRAME_END: [u8; 2] = [0xdc, 0xba];

/// Largest size for an entire frame.
///
/// This is an educated guess. A write-flash payload is at most 0x100
/// bytes, so this gives a little bit of wiggle room on top of that.
pub const MAX_FRAME_SIZE: usize = 0x200;

/// Largest frame body length that is not rejected as a false frame:
/// the frame also holds the start marker, the u16 length, the u16 CRC
/// and the end marker.
pub const MAX_BODY_LEN: usize = 0x1f8;

/// Default baud rate for radio UART.
pub const BAUD_RATE: u32 = 38400;

/// Find a frame, skipping data before the frame. If no frame is
/// found, return None but still consume the input.
///
/// Regardless of whether a frame is found, the result of this
/// function can be passed to [parse()] to parse any found frame into
/// a message.
pub fn find_frame(input: &mut [u8]) -> (r: (usize, Option<FoundFrame>))
    ensures
        ({
            let (n, f) = frame_search(old(input)@, 0);
            &&& r.0 == n
            &&& match f {
                None => r.1 is None && final(input)@ == old(input)@,
                Some((s, e)) => {
                    &&& r.1 == Some(
                        FoundFrame {
                            full_frame: core::ops::Range { start: s as usize, end: (e + 2) as usize },
                            frame_contents: core::ops::Range {
                                start: (s + 4) as usize,
                                end: e as usize,
                            },
                        },
                    )
                    &&& final(input)@ == deobfuscated_range(old(input)@, s + 4, e)
                },
            }
        }),
{
    parse::find_frame(input)
}

/// Parse an entire frame containing a message, checking the CRC. If
/// the frame doesn't parse as this message, or the CRC fails, it will
/// return that error.
///
/// Call this with the result of [find_frame()].
pub fn parse<'a, C: CrcStyle, M: MessageParse<'a>>(
    crc: &C,
    input: &'a [u8],
    found: &Option<FoundFrame>,
) -> (r: ParseResult<&'a [u8], M>)
    requires
        found matches Some(f) ==> f.frame_contents.start <= f.frame_contents.end <= input@.len(),
    ensures
        parse_outcome(*crc, input@, *found, r),
{
    parse::parse_frame_with(crc, input, found)
}

/// Serialize a message into a full frame, with obfuscation, CRC, and
/// start/end markers.
pub fn serialize<C: CrcStyle, S: Serializer, M: MessageSerialize>(
    crc: &C,
    serializer: &mut S,
    message: &M,
) -> (r: Result<(), S::Error>)
    requires
        old(serializer).inv(),
        message.serializable(),
        frame_body_bytes(message.spec_message_type(), message.spec_body()).len() <= usize::MAX,
    ensures
        old(serializer).infallible() ==> r is Ok,
        r is Ok ==> final(serializer).inv() && final(serializer).infallible() == old(
            serializer,
        ).infallible() && final(serializer).written() == old(serializer).written() + frame_bytes(
            *crc,
            frame_body_bytes(message.spec_message_type(), message.spec_body()),
        ),
{
    message.frame(crc, serializer)
}

/// XOR with the same key byte twice gives the byte back.
pub proof fn lemma_xor_twice(a: u8, k: u8)
    ensures
        (a ^ k) ^ k == a,
{
    assert((a ^ k) ^ k == a) by (bit_vector);
}

/// Deobfuscating obfuscated data gives the data back.
pub proof fn law_obfuscation_involution(data: Seq<u8>, start: int)
    ensures
        obfuscate(obfuscate(data, start), start) == data,
{
    assert forall|i: int| 0 <= i < data.len() implies #[trigger] obfuscate(
        obfuscate(data, start),
        start,
    )[i] == data[i] by {
        lemma_xor_twice(data[i], key_byte(start + i));
    }
    assert(obfuscate(obfuscate(data, start), start) =~= data);
}

/// A frame built around a frame body of acceptable length is found in
/// full at the start of the data, and once its contents are
/// deobfuscated, the CRC check accepts them and yields the frame body
/// back, for any CRC style that accepts its own checksums.
pub proof fn law_frame_roundtrip<C: CrcStyle>(crc: C, fb: Seq<u8>)
    requires
        fb.len() <= MAX_BODY_LEN,
        forall|c: u16| #[trigger] crc.spec_validate(c, c),
    ensures
        ({
            let f = frame_bytes(crc, fb);
            let e = f.len() - 2;
            &&& frame_search(f, 0) == (f.len() as int, Some((0int, e)))
            &&& spec_check_crc(crc, deobfuscated_range(f, 4, e).subrange(4, e)) == Some(fb)
        }),
{
    let f = frame_bytes(crc, fb);
    let crc_bytes = u16_le_bytes(crc.spec_crc(fb));
    let inner = fb + crc_bytes;
    let e = f.len() - 2;
    assert(f.len() == 4 + fb.len() + 2 + 2);
    // the start marker is found right away
    reveal_with_fuel(scan, 3);
    assert(f[0] == 0xab && f[1] == 0xcd);
    assert(scan(f, frame_start_seq(), 0, 0) == MatchResult::Matched(
        core::ops::Range { start: 0usize, end: 2usize },
    ));
    // the length field is the body length
    assert(f.subrange(2, 4) =~= u16_le_bytes(fb.len() as u16));
    lemma_u16_roundtrip(fb.len() as u16, f, 2);
    assert(le_u16_at(f, 2) == fb.len());
    // the end marker follows the CRC
    reveal_with_fuel(anchored, 3);
    assert(f[e] == 0xdc && f[e + 1] == 0xba);
    assert(anchored(f, frame_end_seq(), e, 0, e) matches MatchResult::Matched(_));
    assert(frame_search(f, 0) == (f.len() as int, Some((0int, e))));
    // deobfuscating the contents undoes the obfuscation
    let contents = deobfuscated_range(f, 4, e).subrange(4, e);
    assert forall|i: int| 0 <= i < inner.len() implies #[trigger] contents[i] == inner[i] by {
        assert(f[4 + i] == inner[i] ^ key_byte(i));
        lemma_xor_twice(inner[i], key_byte(i));
    }
    assert(contents =~= inner);
    // and the CRC check accepts them
    assert(inner.subrange(0, inner.len() - 2) =~= fb);
    assert(inner.subrange(inner.len() - 2, inner.len() as int) =~= crc_bytes);
    lemma_u16_roundtrip(crc.spec_crc(fb), inner, inner.len() - 2);
}

/// The frame body that a message type and body serialize to parses as
/// whatever the body parses as under that type.
pub proof fn lemma_frame_body_header<'a, M: MessageParse<'a>>(typ: u16, body: Seq<u8>)
    requires
        body.len() <= u16::MAX,
    ensures
        spec_parse_frame_body::<M>(frame_body_bytes(typ, body)) == M::spec_parse_body(typ, body),
{
    let fb = frame_body_bytes(typ, body);
    assert(fb.subrange(0, 2) =~= u16_le_bytes(typ));
    lemma_u16_roundtrip(typ, fb, 0);
    assert(fb.subrange(2, 4) =~= u16_le_bytes(body.len() as u16));
    lemma_u16_roundtrip(body.len() as u16, fb, 2);
    assert(fb.subrange(4, 4 + body.len() as int) =~= body);
}

/// What a write gives a read: the frame that a message serializes to is
/// found in full at the start of the data, its checksum is accepted and
/// its body parses as the message again, for any CRC style that accepts
/// its own checksums, any message that can be serialized and whose
/// length fields agree with its data, and any body that fits in a frame.
pub proof fn law_message_frame_roundtrip<C: CrcStyle, I: Bytes>(crc: C, m: Message<I>)
    requires
        forall|c: u16| #[trigger] crc.spec_validate(c, c),
        m.serializable(),
        m.lengths_agree(),
        m.spec_body().len() + 4 <= MAX_BODY_LEN,
    ensures
        ({
            let fb = frame_body_bytes(m.spec_message_type(), m.spec_body());
            let f = frame_bytes(crc, fb);
            let e = f.len() - 2;
            &&& frame_search(f, 0) == (f.len() as int, Some((0int, e)))
            &&& spec_check_crc(crc, deobfuscated_range(f, 4, e).subrange(4, e)) == Some(fb)
            &&& spec_parse_frame_body::<Message<&[u8]>>(fb) == Some(m@)
        }),
{
    let typ = m.spec_message_type();
    let body = m.spec_body();
    let fb = frame_body_bytes(typ, body);
    assert(fb.len() <= MAX_BODY_LEN);
    law_frame_roundtrip(crc, fb);
    assert(spec_parse_frame_body::<Message<&[u8]>>(fb) == Some(m@)) by {
        lemma_frame_body_header::<Message<&[u8]>>(typ, body);
        law_message_body_roundtrip(m);
    }
}

/// What a read gives of a frame that carries a message of type `typ` with
/// body `body`: the frame is found in full at the start of the data, its
/// checksum is accepted, and its frame body parses as `P` to `v`.
pub open spec fn frame_reads_back<'a, C: CrcStyle, P: MessageParse<'a>>(
    crc: C,
    typ: u16,
    body: Seq<u8>,
    v: P::V,
) -> bool {
    let fb = frame_body_bytes(typ, body);
    let f = frame_bytes(crc, fb);
    let e = f.len() - 2;
    &&& frame_search(f, 0) == (f.len() as int, Some((0int, e)))
    &&& spec_check_crc(crc, deobfuscated_range(f, 4, e).subrange(4, e)) == Some(fb)
    &&& spec_parse_frame_body::<P>(fb) == Some(v)
}

/// A message whose body parses back as `P` reads back from its frame.
proof fn lemma_typed_frame_roundtrip<'a, C: CrcStyle, P: MessageParse<'a>>(
    crc: C,
    typ: u16,
    body: Seq<u8>,
    v: P::V,
)
    requires
        forall|c: u16| #[trigger] crc.spec_validate(c, c),
        body.len() + 4 <= MAX_BODY_LEN,
        P::spec_parse_body(typ, body) == Some(v),
    ensures
        frame_reads_back::<C, P>(crc, typ, body, v),
{
    let fb = frame_body_bytes(typ, body);
    law_frame_roundtrip(crc, fb);
    lemma_frame_body_header::<P>(typ, body);
}

/// What a write gives a read, for a hello message: the frame it serializes to is
/// found in full, its checksum accepted, and its frame body parsed as that
/// type gives it back, for any CRC style that accepts its own checksums
/// and any body that fits in a frame.
pub proof fn law_hello_frame_roundtrip<C: CrcStyle>(crc: C, m: radio::Hello)
    requires
        forall|c: u16| #[trigger] crc.spec_validate(c, c),
        m.spec_body().len() + 4 <= MAX_BODY_LEN,
    ensures
        frame_reads_back::<C, radio::Hello>(crc, m.spec_message_type(), m.spec_body(), m),
{
    radio::lemma_hello_roundtrip(m);
    lemma_typed_frame_roundtrip::<C, radio::Hello>(crc, m.spec_message_type(), m.spec_body(), m);
}

/// What a write gives a read, for a hello reply: the frame it serializes to is
/// found in full, its checksum accepted, and its frame body parsed as that
/// type gives it back, for any CRC style that accepts its own checksums
/// and any body that fits in a frame.
pub proof fn law_hello_reply_frame_roundtrip<C: CrcStyle>(crc: C, m: radio::HelloReply)
    requires
        forall|c: u16| #[trigger] crc.spec_validate(c, c),
        m.spec_body().len() + 4 <= MAX_BODY_LEN,
    ensures
        frame_reads_back::<C, radio::HelloReply>(crc, m.spec_message_type(), m.spec_body(), m),
{
    radio::lemma_hello_reply_roundtrip(m);
    lemma_typed_frame_roundtrip::<C, radio::HelloReply>(crc, m.spec_message_type(), m.spec_body(), m);
}

/// What a write gives a read, for an EEPROM read request: the frame it serializes to is
/// found in full, its checksum accepted, and its frame body parsed as that
/// type gives it back, for any CRC style that accepts its own checksums
/// and any body that fits in a frame.
pub proof fn law_read_eeprom_frame_roundtrip<C: CrcStyle>(crc: C, m: radio::ReadEeprom)
    requires
        forall|c: u16| #[trigger] crc.spec_validate(c, c),
        m.spec_body().len() + 4 <= MAX_BODY_LEN,
    ensures
        frame_reads_back::<C, radio::ReadEeprom>(crc, m.spec_message_type(), m.spec_body(), m),
{
    radio::lemma_read_eeprom_roundtrip(m);
    lemma_typed_frame_roundtrip::<C, radio::ReadEeprom>(crc, m.spec_message_type(), m.spec_body(), m);
}

/// What a write gives a read, for an EEPROM read reply whose length field is its data's length: the frame it serializes to is
/// found in full, its checksum accepted, and its frame body parsed as that
/// type gives it back, for any CRC style that accepts its own checksums
/// and any body that fits in a frame.
pub proof fn law_read_eeprom_reply_frame_roundtrip<C: CrcStyle, I: Bytes>(crc: C, m: radio::ReadEepromReply<I>)
    requires
        forall|c: u16| #[trigger] crc.spec_validate(c, c),
        m.data@.len() == m.len,
        m.spec_body().len() + 4 <= MAX_BODY_LEN,
    ensures
        frame_reads_back::<C, radio::ReadEepromReply<&[u8]>>(crc, m.spec_message_type(), m.spec_body(), m@),
{
    radio::lemma_read_eeprom_reply_roundtrip(m);
    lemma_typed_frame_roundtrip::<C, radio::ReadEepromReply<&[u8]>>(crc, m.spec_message_type(), m.spec_body(), m@);
}

/// What a write gives a read, for a bootloader-ready message: the frame it serializes to is
/// found in full, its checksum accepted, and its frame body parsed as that
/// type gives it back, for any CRC style that accepts its own checksums
/// and any body that fits in a frame.
pub proof fn law_bootloader_ready_frame_roundtrip<C: CrcStyle>(crc: C, m: bootloader::BootloaderReady)
    requires
        forall|c: u16| #[trigger] crc.spec_validate(c, c),
        m.spec_body().len() + 4 <= MAX_BODY_LEN,
    ensures
        frame_reads_back::<C, bootloader::BootloaderReady>(crc, m.spec_message_type(), m.spec_body(), m),
{
    bootloader::lemma_bootloader_ready_roundtrip(m);
    lemma_typed_frame_roundtrip::<C, bootloader::BootloaderReady>(crc, m.spec_message_type(), m.spec_body(), m);
}

/// What a write gives a read, for a flash write of a full page: the frame it serializes to is
/// found in full, its checksum accepted, and its frame body parsed as that
/// type gives it back, for any CRC style that accepts its own checksums
/// and any body that fits in a frame.
pub proof fn law_write_flash_frame_roundtrip<C: CrcStyle, I: Bytes>(crc: C, m: bootloader::WriteFlash<I>)
    requires
        forall|c: u16| #[trigger] crc.spec_validate(c, c),
        m.serializable(),
        m.spec_body().len() + 4 <= MAX_BODY_LEN,
    ensures
        frame_reads_back::<C, bootloader::WriteFlash<&[u8]>>(crc, m.spec_message_type(), m.spec_body(), m@),
{
    bootloader::lemma_write_flash_roundtrip(m);
    lemma_typed_frame_roundtrip::<C, bootloader::WriteFlash<&[u8]>>(crc, m.spec_message_type(), m.spec_body(), m@);
}

/// What a write gives a read, for a flash write reply: the frame it serializes to is
/// found in full, its checksum accepted, and its frame body parsed as that
/// type gives it back, for any CRC style that accepts its own checksums
/// and any body that fits in a frame.
pub proof fn law_write_flash_reply_frame_roundtrip<C: CrcStyle>(crc: C, m: bootloader::WriteFlashReply)
    requires
        forall|c: u16| #[trigger] crc.spec_validate(c, c),
        m.spec_body().len() + 4 <= MAX_BODY_LEN,
    ensures
        frame_reads_back::<C, bootloader::WriteFlashReply>(crc, m.spec_message_type(), m.spec_body(), m),
{
    bootloader::lemma_write_flash_reply_roundtrip(m);
    lemma_typed_frame_roundtrip::<C, bootloader::WriteFlashReply>(crc, m.spec_message_type(), m.spec_body(), m);
}

/// What a write gives a read, for a bootloader-ready reply: the frame it serializes to is
/// found in full, its checksum accepted, and its frame body parsed as that
/// type gives it back, for any CRC style that accepts its own checksums
/// and any body that fits in a frame.
pub proof fn law_bootloader_ready_reply_frame_roundtrip<C: CrcStyle>(crc: C, m: bootloader::BootloaderReadyReply)
    requires
        forall|c: u16| #[trigger] crc.spec_validate(c, c),
        m.spec_body().len() + 4 <= MAX_BODY_LEN,
    ensures
        frame_reads_back::<C, bootloader::BootloaderReadyReply>(crc, m.spec_message_type(), m.spec_body(), m),
{
    bootloader::lemma_bootloader_ready_reply_roundtrip(m);
    lemma_typed_frame_roundtrip::<C, bootloader::BootloaderReadyReply>(crc, m.spec_message_type(), m.spec_body(), m);
}

/// What a write gives a read, for a debug input line: the frame it serializes to is
/// found in full, its checksum accepted, and its frame body parsed as that
/// type gives it back, for any CRC style that accepts its own checksums
/// and any body that fits in a frame.
pub proof fn law_debug_input_frame_roundtrip<C: CrcStyle, I: Bytes>(crc: C, m: custom::DebugInput<I>)
    requires
        forall|c: u16| #[trigger] crc.spec_validate(c, c),
        m.spec_body().len() + 4 <= MAX_BODY_LEN,
    ensures
        frame_reads_back::<C, custom::DebugInput<&[u8]>>(crc, m.spec_message_type(), m.spec_body(), m@),
{
    custom::lemma_debug_input_roundtrip(m);
    lemma_typed_frame_roundtrip::<C, custom::DebugInput<&[u8]>>(crc, m.spec_message_type(), m.spec_body(), m@);
}

/// What a write gives a read, for a debug output message: the frame it serializes to is
/// found in full, its checksum accepted, and its frame body parsed as that
/// type gives it back, for any CRC style that accepts its own checksums
/// and any body that fits in a frame.
pub proof fn law_debug_output_frame_roundtrip<C: CrcStyle, I: Bytes>(crc: C, m: custom::DebugOutput<I>)
    requires
        forall|c: u16| #[trigger] crc.spec_validate(c, c),
        m.spec_body().len() + 4 <= MAX_BODY_LEN,
    ensures
        frame_reads_back::<C, custom::DebugOutput<&[u8]>>(crc, m.spec_message_type(), m.spec_body(), m@),
{
    custom::lemma_debug_output_roundtrip(m);
    lemma_typed_frame_roundtrip::<C, custom::DebugOutput<&[u8]>>(crc, m.spec_message_type(), m.spec_body(), m@);
}

} // verus!
