use k5::client::{ArrayBuffer, ClientError, ClientHost, ClientRadio};
use k5::protocol::crc::{crc16_xmodem_bytes, CrcConstant, CrcDigest, CrcStyle, CrcXModem};
use k5::protocol::deobfuscated::Deobfuscated;
use k5::protocol::messages::bootloader::{WriteFlash, WriteFlashReply, WRITE_FLASH_SESSION_ID};
use k5::protocol::messages::custom::DebugOutput;
use k5::protocol::messages::radio::{Hello, HelloReply, ReadEepromReply, HELLO_SESSION_ID};
use k5::protocol::messages::util::Padding;
use k5::protocol::obfuscation::{Key, OBFUSCATION};
use k5::protocol::parse::{deobfuscate_range, find_frame, ParseResult};
use k5::protocol::serialize::{Serializer, SerializerLength, SerializerWrap};
use k5::protocol::{HostMessage, Message, RadioMessage};
use k5::{Version, VersionError};

fn frame_of<M: k5::protocol::MessageSerialize>(msg: &M) -> Vec<u8> {
    let mut ser = SerializerWrap::new(Vec::new());
    k5::protocol::serialize(&CrcXModem::new(), &mut ser, msg).unwrap();
    ser.done()
}

#[test]
fn crc_xmodem_check_value() {
    assert_eq!(crc16_xmodem_bytes(b"123456789"), 0x31c3);
    assert_eq!(crc16_xmodem_bytes(b""), 0);
    let crc = CrcXModem::new();
    let mut d = crc.digest();
    d.update(b"1234");
    d.update(b"56789");
    assert_eq!(d.finalize(), 0x31c3);
    assert!(crc.validate(0x31c3, 0x31c3));
    assert!(!crc.validate(0x31c3, 0x31c4));
}

#[test]
fn crc_constant_styles() {
    let c = CrcConstant(0xcafe);
    let mut d = c.digest();
    d.update(b"anything");
    assert_eq!(d.finalize(), 0xcafe);
    assert!(c.validate(0xcafe, 0xcafe));
    assert!(!c.validate(0xcafe, 0xcaff));
}

#[test]
fn key_stream_repeats() {
    let mut k = Key::new();
    for i in 0..32 {
        assert_eq!(k.next(), OBFUSCATION[i % 16]);
    }
    let mut k = Key::new();
    assert_eq!(k.apply(0x66), 0x70);
    assert_eq!(k.apply(0x6f), 0x03);
    let k3 = Key::new().advance(19);
    let mut k4 = Key::new();
    for _ in 0..3 {
        k4.next();
    }
    assert_eq!(k3, k4);
}

#[test]
fn deobfuscate_twice_is_identity() {
    let mut data = b"hello, radio world".to_vec();
    deobfuscate_range(&mut data, 2, 12);
    assert_ne!(&data[..], b"hello, radio world");
    deobfuscate_range(&mut data, 2, 12);
    assert_eq!(&data[..], b"hello, radio world");
}

#[test]
fn deobfuscated_reads_plain_bytes() {
    let obf = b"\x70\x03\x7b\x18\xe4";
    let d = Deobfuscated::new(&obf[..]);
    assert_eq!(d.len(), 5);
    assert_eq!(d.to_vec(), b"foo\xfe\xca".to_vec());
    let body = d.check_crc(CrcConstant(0xcafe)).unwrap();
    assert_eq!(body.to_vec(), b"foo".to_vec());
    assert!(d.check_crc(CrcConstant(0xcaff)).is_none());
}

#[test]
fn version_from_str_and_back() {
    let v = Version::new_from_str("2.01.26").unwrap();
    assert_eq!(v.as_str().unwrap(), "2.01.26");
    assert_eq!(&v.as_bytes()[..7], b"2.01.26");
    assert!(v.as_bytes()[7..].iter().all(|b| *b == 0));
    assert_eq!(
        Version::new_from_str("this is far too long"),
        Err(VersionError::TooLong)
    );
    assert_eq!(Version::new_empty().as_str().unwrap(), "");
    let bad = Version::new([0xff; 16]);
    assert!(bad.as_str().is_err());
}

#[test]
fn hello_frame_roundtrip() {
    let hello = Hello {
        session_id: HELLO_SESSION_ID,
    };
    let mut frame = frame_of(&hello);
    assert_eq!(&frame[..2], b"\xab\xcd");
    assert_eq!(&frame[frame.len() - 2..], b"\xdc\xba");
    let (skip, found) = find_frame(&mut frame);
    assert_eq!(skip, frame.len());
    let res = k5::protocol::parse::<_, HostMessage<&[u8]>>(&CrcXModem::new(), &frame, &found);
    assert_eq!(res.ok(), Some(HostMessage::Hello(hello)));
}

#[test]
fn read_eeprom_reply_roundtrip_through_message() {
    let data = [1u8, 2, 3, 4, 5];
    let reply = RadioMessage::ReadEepromReply(ReadEepromReply {
        address: 0x1234,
        len: 5,
        _pad: Padding::new(),
        data: &data[..],
    });
    let mut frame = frame_of(&reply);
    let (_, found) = find_frame(&mut frame);
    let res = k5::protocol::parse::<_, Message<&[u8]>>(&CrcXModem::new(), &frame, &found);
    assert_eq!(res.ok(), Some(Message::Radio(reply.clone())));
}

#[test]
fn write_flash_roundtrip_and_wrong_crc() {
    let page = vec![0x5a; 0x100];
    let msg = WriteFlash {
        session_id: WRITE_FLASH_SESSION_ID,
        page: 3,
        max_page: 10,
        len: 0x100,
        _pad: Padding::default(),
        data: &page[..],
    };
    let mut frame = frame_of(&msg);
    let (_, found) = find_frame(&mut frame);
    let res = k5::protocol::parse::<_, HostMessage<&[u8]>>(&CrcXModem::new(), &frame, &found);
    assert_eq!(res.ok(), Some(HostMessage::WriteFlash(msg.clone())));
    // the same frame checked against a constant CRC is refused
    let res = k5::protocol::parse::<_, HostMessage<&[u8]>>(&CrcConstant(0), &frame, &found);
    assert!(matches!(res, ParseResult::CrcErr(_, _)));
    assert_eq!(res.range(), found.as_ref().map(|f| &f.full_frame));
}

#[test]
fn unknown_message_type_is_parse_error() {
    // a reply message does not parse as a host message
    let reply = WriteFlashReply {
        session_id: 1,
        page: 2,
        error: 0,
    };
    let mut frame = frame_of(&reply);
    let (_, found) = find_frame(&mut frame);
    let res = k5::protocol::parse::<_, HostMessage<&[u8]>>(&CrcXModem::new(), &frame, &found);
    assert!(matches!(res, ParseResult::ParseErr(_, _)));
    let res = k5::protocol::parse::<_, HostMessage<&[u8]>>(&CrcXModem::new(), &frame, &None);
    assert!(matches!(res, ParseResult::NoFrame));
}

#[test]
fn parse_result_map() {
    let r: ParseResult<&[u8], u32> = ParseResult::Parsed(1..4, 7);
    let m = r.map(|x| x * 2);
    assert_eq!(m.ok(), Some(14));
}

#[test]
fn array_buffer_fill_skip_clear() {
    let mut b: ArrayBuffer<8> = ArrayBuffer::new();
    assert_eq!(b.space(), 8);
    b.fill(b"abcde");
    assert_eq!(b.data(), b"abcde");
    assert!(!b.is_full());
    b.skip(2);
    assert_eq!(b.data(), b"cde");
    b.fill(b"fghij");
    assert!(b.is_full());
    assert_eq!(b.space(), 0);
    b.clear();
    assert_eq!(b.data(), b"");
}

#[test]
fn client_reads_a_frame() {
    let radio = ClientRadio::new(());
    let reply = HelloReply {
        version: Version::new_from_str("k5test").unwrap(),
        has_custom_aes_key: true,
        is_in_lock_screen: false,
        _pad: Padding::default(),
        challenge: [1, 2, 3, 4],
    };
    let bytes = radio.encode(&reply);

    let mut host = ClientHost::new(());
    assert!(host.needs_read());
    assert!(host.prepare_read());
    let mut incoming = b"noise".to_vec();
    incoming.extend_from_slice(&bytes);
    host.finish_read::<()>(Some(incoming.as_slice())).unwrap();
    assert_eq!(host.skipped(), incoming.len());
    assert!(host.found().is_some());
    let res = host.parse::<RadioMessage<&[u8]>>();
    assert_eq!(res.ok(), Some(RadioMessage::HelloReply(reply)));

    // the next read drops the consumed data and looks again, without
    // the port; finding nothing, it needs the port after that
    assert!(!host.prepare_read());
    assert_eq!(host.buffer().data(), b"");
    host.finish_read::<()>(None).unwrap();
    assert!(host.found().is_none());
    assert!(host.prepare_read());
    assert_eq!(
        host.finish_read::<()>(Some(&[][..])),
        Err(ClientError::UnexpectedEof)
    );
}

#[test]
fn client_keeps_partial_frames() {
    let host = ClientHost::new(());
    let bytes = host.encode(&Hello { session_id: 7 });
    let mut radio = ClientRadio::new(());
    assert!(radio.prepare_read());
    radio.finish_read::<()>(Some(&bytes[..5])).unwrap();
    assert!(radio.found().is_none());
    assert!(radio.prepare_read());
    radio.finish_read::<()>(Some(&bytes[5..])).unwrap();
    let res = radio.parse::<HostMessage<&[u8]>>();
    assert_eq!(res.ok(), Some(HostMessage::Hello(Hello { session_id: 7 })));
    // with a frame found, the next read does not need the port
    assert!(!radio.prepare_read());
    radio.finish_read::<()>(None).unwrap();
    assert!(radio.found().is_none());
}

#[test]
fn message_map_and_owned() {
    let data = b"printf".to_vec();
    let m: Message<Vec<u8>> = Message::Radio(RadioMessage::DebugOutput(DebugOutput {
        defmt: false,
        data: data.clone(),
    }));
    let b = m.borrow();
    let o = b.to_owned();
    assert_eq!(o, m);
    let lens = m.map(|d| d.len());
    assert_eq!(
        lens,
        Message::Radio(RadioMessage::DebugOutput(DebugOutput {
            defmt: false,
            data: 6
        }))
    );
}

#[test]
fn client_reads_back_to_back_frames_in_order() {
    let host = ClientHost::new(());
    let mut bytes = host.encode(&Hello { session_id: 1 });
    bytes.extend_from_slice(&host.encode(&Hello { session_id: 2 }));
    let mut radio = ClientRadio::new(());
    assert!(radio.prepare_read());
    radio.finish_read::<()>(Some(bytes.as_slice())).unwrap();
    assert_eq!(radio.parse::<HostMessage<&[u8]>>().ok(), Some(HostMessage::Hello(Hello { session_id: 1 })));
    // the second frame is already buffered
    assert!(!radio.prepare_read());
    radio.finish_read::<()>(None).unwrap();
    assert_eq!(radio.parse::<HostMessage<&[u8]>>().ok(), Some(HostMessage::Hello(Hello { session_id: 2 })));
    assert!(!radio.prepare_read());
    radio.finish_read::<()>(None).unwrap();
    assert_eq!(radio.parse::<HostMessage<&[u8]>>().ok(), None);
    assert!(radio.prepare_read());
}

#[test]
fn client_extra_is_what_lies_outside_frames() {
    let radio = ClientRadio::new(());
    let frame = radio.encode(&HelloReply {
        version: Version::new_from_str("x").unwrap(),
        has_custom_aes_key: false,
        is_in_lock_screen: false,
        _pad: Padding::default(),
        challenge: [0, 0, 0, 0],
    });
    let mut host = ClientHost::new(());
    assert!(host.prepare_read());
    let mut incoming = b"junk".to_vec();
    incoming.extend_from_slice(&frame);
    incoming.extend_from_slice(b"zz");
    host.finish_read::<()>(Some(incoming.as_slice())).unwrap();
    // the bytes before the frame are extra; the frame ends where the skip ends
    assert_eq!(host.extra(), b"junk");
    assert_eq!(host.skipped(), 4 + frame.len());
    assert_eq!(host.found().as_ref().unwrap().full_frame.end, host.skipped());
    // the next read keeps only what followed the frame
    assert!(!host.prepare_read());
    assert_eq!(host.buffer().data(), b"zz");
    host.finish_read::<()>(None).unwrap();
    assert!(host.found().is_none());
    assert_eq!(host.extra(), b"zz");
}

#[test]
fn version_derefs_to_its_sixteen_bytes() {
    let d: [u8; 16] = *b"0123456789abcdef";
    let v = Version::new(d);
    assert_eq!(v.as_bytes(), &d[..]);
    assert_eq!(&*v, &d[..]);
    assert_eq!(v.len(), 16);
    let ab = Version::new_from_str("ab").unwrap();
    assert_eq!(
        ab.as_bytes(),
        &[b'a', b'b', 0, 0, 0, 0, 0, 0, 0, 0, 0, 0, 0, 0, 0, 0][..]
    );
    assert_eq!(ab.as_str().unwrap(), "ab");
}

#[test]
fn message_map_identity_and_composition() {
    let m: Message<Vec<u8>> = Message::Radio(RadioMessage::DebugOutput(DebugOutput {
        defmt: true,
        data: b"abc".to_vec(),
    }));
    assert_eq!(m.clone().map(|x| x), m);
    let twice = m.clone().map(|d| d.len()).map(|n| n * 2);
    let once = m.clone().map(|d| d.len() * 2);
    assert_eq!(twice, once);
    assert_eq!(m.map_ref(|d| d.clone()), m);
    let h: Message<Vec<u8>> = Message::Host(HostMessage::Hello(Hello { session_id: 3 }));
    assert!(matches!(h.clone().map(|d| d.len()), Message::Host(_)));
    assert_eq!(h.map_ref(|d| d.clone()), h);
}

#[test]
fn serializer_length_counts_every_write() {
    let mut s = SerializerLength::new();
    assert_eq!(s.len(), 0);
    s.write_u8(1).unwrap();
    s.write_bytes(b"abcd").unwrap();
    s.write_le_u16(7).unwrap();
    s.write_le_i32(-1).unwrap();
    assert_eq!(s.len(), 1 + 4 + 2 + 4);
    let mut w = SerializerWrap::new(Vec::new());
    w.write_u8(1).unwrap();
    w.write_bytes(b"abcd").unwrap();
    w.write_le_u16(7).unwrap();
    w.write_le_i32(-1).unwrap();
    assert_eq!(w.done().len(), s.len());
}

#[test]
fn version_as_str_reports_where_utf8_stops() {
    let mut d = [0u8; 16];
    d[..5].copy_from_slice(b"ab\xffcd");
    let e = Version::new(d).as_str().unwrap_err();
    assert_eq!(e.valid_up_to(), 2);
    assert_eq!(Version::new([0xff; 16]).as_str().unwrap_err().valid_up_to(), 0);
}
