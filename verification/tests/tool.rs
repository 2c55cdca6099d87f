use k5::protocol::messages::bootloader::{
    BootloaderReadyReply, WriteFlash, WriteFlashReply, WRITE_FLASH_LEN,
};
use k5::protocol::messages::custom::DebugOutput;
use k5::protocol::messages::radio::{Hello, ReadEeprom, ReadEepromReply, HELLO_SESSION_ID};
use k5::protocol::messages::util::Padding;
use k5::protocol::parse::ParseResult;
use k5::protocol::{HostMessage, Message, RadioMessage};
use k5::tool::binformat::{read_firmware_from, BinaryFormat, BinaryInfo, FirmwareError, ImageError};
use k5::tool::common::{read_le_u32, RAM_START};
use k5::tool::console::{console_item, ConsoleItem};
use k5::tool::debug::{dump_record, split_record, ClientDirection};
use k5::tool::elfimage::{
    extract_version, flatten_elf, flatten_segments, ram_and_stack, version_symbol, ElfError,
    ElfSegment, ElfSymbol, PT_LOAD,
};
use k5::tool::flash::{
    check, check_write_reply, flash_page, lint, page_count, CheckError, FlashError, Flasher, Ignores,
};
use k5::tool::read_eeprom::{EepromError, EepromReader, CHUNK_SIZE};
use k5::tool::simulate::{sized_memory, Simulator, SIM_CHIP_ID};
use k5::Version;

fn image(stack_top: u32, entry: u32, len: usize) -> Vec<u8> {
    let mut d = Vec::new();
    d.extend_from_slice(&stack_top.to_le_bytes());
    d.extend_from_slice(&entry.to_le_bytes());
    d.resize(len, 0xee);
    d
}

#[test]
fn read_le_u32_needs_four_bytes() {
    assert_eq!(read_le_u32(b"\x01\x02\x03\x04\x05"), Some(0x04030201));
    assert_eq!(read_le_u32(b"\x01\x02\x03"), None);
}

#[test]
fn binary_info_from_vector_table() {
    let d = image(0x2000_1000, 0xd5, 0x100);
    let v = Version::new_from_str("1.0").unwrap();
    let info = BinaryInfo::from_image(&d, Some(v)).unwrap();
    assert_eq!(info.version, Some(v));
    assert_eq!(info.flash_len, 0x100);
    assert_eq!(info.stack_top, 0x2000_1000);
    assert_eq!(info.entry_point, 0xd5);
    assert_eq!(info.stack_bottom, None);
    assert_eq!(info.ram_len, None);
    assert_eq!(BinaryInfo::from_image(b"abc", None), Err(ImageError::NoStackPointer));
    assert_eq!(BinaryInfo::from_image(b"abcdef", None), Err(ImageError::NoEntryPoint));
}

#[test]
fn override_version_only_when_given() {
    let d = image(0x2000_1000, 0xd5, 8);
    let v1 = Version::new_from_str("a").unwrap();
    let v2 = Version::new_from_str("b").unwrap();
    let mut info = BinaryInfo::from_image(&d, Some(v1)).unwrap();
    info.override_version(None);
    assert_eq!(info.version, Some(v1));
    info.override_version(Some(v2));
    assert_eq!(info.version, Some(v2));
}

#[test]
fn flash_checks_in_order() {
    let good = BinaryInfo::from_image(&image(0x2000_1000, 0xd5, 8), None).unwrap();
    assert_eq!(check(0x100, &good, &[]), Ok(()));
    let bad_stack = BinaryInfo::from_image(&image(0x1000, 0xd5, 8), None).unwrap();
    assert_eq!(check(0x100, &bad_stack, &[]), Err(CheckError::StackOutsideRam));
    assert_eq!(check(0x100, &bad_stack, &[Ignores::Stack]), Ok(()));
    let top_of_ram = BinaryInfo::from_image(&image(0x2000_4000, 0xd5, 8), None).unwrap();
    assert_eq!(check(0x100, &top_of_ram, &[]), Ok(()));
    let bad_entry = BinaryInfo::from_image(&image(0x2000_1000, 0xf000, 8), None).unwrap();
    assert_eq!(check(0x100, &bad_entry, &[]), Err(CheckError::EntryOutsideFlash));
    assert_eq!(check(0xf001, &good, &[]), Err(CheckError::TooLarge));
    assert_eq!(check(0xf001, &good, &[Ignores::Size]), Ok(()));
    let report = lint(0xf001, &bad_entry, &[Ignores::Stack]);
    assert!(!report.stack_fail);
    assert!(report.entry_fail);
    assert!(report.size_fail);
    assert!(report.failed());
    assert!(!lint(0x100, &good, &[]).failed());
}

#[test]
fn pages_cover_the_image() {
    assert_eq!(page_count(0), 0);
    assert_eq!(page_count(1), 1);
    assert_eq!(page_count(0x100), 1);
    assert_eq!(page_count(0x101), 2);
    let data: Vec<u8> = (0..0x150u32).map(|i| i as u8).collect();
    let n = page_count(data.len());
    let p0 = flash_page(&data, 0, n, 7);
    assert_eq!((p0.session_id, p0.page, p0.max_page, p0.len), (7, 0, 2, 0x100));
    assert_eq!(p0.data, data[..0x100].to_vec());
    let p1 = flash_page(&data, 1, n, 7);
    assert_eq!(p1.len, 0x50);
    assert_eq!(p1.data.len(), WRITE_FLASH_LEN);
    assert_eq!(&p1.data[..0x50], &data[0x100..]);
    assert!(p1.data[0x50..].iter().all(|b| *b == 0));
}

#[test]
fn write_replies_are_checked() {
    let ok = WriteFlashReply { session_id: 7, page: 3, error: 0 };
    assert_eq!(check_write_reply(&ok, 7, 3), Ok(()));
    assert_eq!(check_write_reply(&ok, 7, 4), Err(FlashError::NotConfirmed));
    assert_eq!(check_write_reply(&ok, 8, 3), Err(FlashError::NotConfirmed));
    let err = WriteFlashReply { session_id: 7, page: 3, error: 1 };
    assert_eq!(check_write_reply(&err, 7, 3), Err(FlashError::BootloaderError));
}

#[test]
fn dump_records_roundtrip() {
    let rec = dump_record(ClientDirection::Host.code(), b"frame!");
    assert_eq!(rec, b"\x01\x06\x00frame!".to_vec());
    let mut all = rec.clone();
    all.extend_from_slice(&dump_record(ClientDirection::Radio.code(), b"xy"));
    let (d, f, rest) = split_record(&all).unwrap();
    assert_eq!((d, f), (1, &b"frame!"[..]));
    let (d, f, rest) = split_record(rest).unwrap();
    assert_eq!((d, f), (0, &b"xy"[..]));
    assert_eq!(split_record(rest), None);
    assert_eq!(ClientDirection::Host.flip(), ClientDirection::Radio);
    assert_eq!(ClientDirection::Radio.flip(), ClientDirection::Host);
}

#[test]
fn eeprom_reader_walks_chunks() {
    let mut r = EepromReader::new(0x100);
    let req = r.request();
    assert_eq!((req.address, req.len), (0, CHUNK_SIZE));
    let chunk = [0xaa; 0x80];
    let wrong = ReadEepromReply { address: 0x80, len: 0x80, _pad: Padding::new(), data: &chunk[..] };
    assert_eq!(r.on_reply(&wrong), Err(EepromError::AddressMismatch));
    let first = ReadEepromReply { address: 0, len: 0x80, _pad: Padding::new(), data: &chunk[..] };
    assert_eq!(r.on_reply(&first), Ok(false));
    assert_eq!(r.request().address, 0x80);
    let second = ReadEepromReply { address: 0x80, len: 0x80, _pad: Padding::new(), data: &chunk[..] };
    assert_eq!(r.on_reply(&second), Ok(true));
    assert_eq!(r.data().len(), 0x100);
    let mut short = EepromReader::new(0x2000);
    let tail = ReadEepromReply { address: 0, len: 4, _pad: Padding::new(), data: &chunk[..4] };
    assert_eq!(short.on_reply(&tail), Ok(true));
}

#[test]
fn simulator_answers_hello_and_eeprom_reads() {
    let v = Version::new_from_str("k5sim").unwrap();
    let eeprom = sized_memory(b"\x01\x02\x03", 8);
    assert_eq!(eeprom, vec![1, 2, 3, 0, 0, 0, 0, 0]);
    let mut sim = Simulator::new(v, false, eeprom, vec![0; 16]);
    let reply = sim.handle_message(&HostMessage::Hello(Hello { session_id: 42 }));
    match reply {
        Some(RadioMessage::HelloReply(h)) => {
            assert_eq!(h.version, v);
            assert_eq!(h.challenge, [0; 4]);
        }
        other => panic!("unexpected {:?}", other),
    }
    let read = HostMessage::ReadEeprom(ReadEeprom { address: 6, len: 0x80, _pad: Padding::new(), session_id: 42 });
    match sim.handle_message(&read) {
        Some(RadioMessage::ReadEepromReply(r)) => {
            assert_eq!((r.address, r.len), (6, 2));
            assert_eq!(r.data, vec![0, 0]);
        }
        other => panic!("unexpected {:?}", other),
    }
    let other_session = HostMessage::ReadEeprom(ReadEeprom { address: 0, len: 1, _pad: Padding::new(), session_id: 1 });
    assert_eq!(sim.handle_message(&other_session), None);
}

#[test]
fn simulator_bootloader_flashes_pages() {
    let v = Version::new_from_str("boot").unwrap();
    let fw = Version::new_from_str("fw").unwrap();
    let mut sim = Simulator::new(v, true, vec![], vec![0xff; 0x200]);
    assert!(sim.wants_boot_ready());
    assert_eq!(sim.send_boot_ready().chip_id, SIM_CHIP_ID);
    // writing before the version is announced is refused
    let page = |n: u16, fill: u8| HostMessage::WriteFlash(WriteFlash {
        session_id: 9,
        page: n,
        max_page: 2,
        len: 0x100,
        _pad: Padding::default(),
        data: vec![fill; 0x100],
    });
    assert_eq!(
        sim.handle_boot_message(&page(0, 1)),
        Some(RadioMessage::WriteFlashReply(WriteFlashReply { session_id: 0, page: 0, error: 1 }))
    );
    let ready = sim.handle_boot_message(&HostMessage::BootloaderReadyReply(BootloaderReadyReply { version: fw }));
    assert!(matches!(ready, Some(RadioMessage::BootloaderReady(_))));
    assert!(!sim.wants_boot_ready());
    assert!(!sim.write_flash_unsafe(&page(0, 1)));
    assert_eq!(
        sim.handle_boot_message(&page(0, 1)),
        Some(RadioMessage::WriteFlashReply(WriteFlashReply { session_id: 9, page: 0, error: 0 }))
    );
    assert_eq!(&sim.flash()[..0x100], &[1u8; 0x100][..]);
    assert_eq!(&sim.flash()[0x100..], &[0u8; 0x100][..]);
    assert_eq!(
        sim.handle_boot_message(&page(1, 2)),
        Some(RadioMessage::WriteFlashReply(WriteFlashReply { session_id: 9, page: 1, error: 0 }))
    );
    assert_eq!(&sim.flash()[0x100..], &[2u8; 0x100][..]);
    // the last page ends the session
    assert!(sim.wants_boot_ready());
    // a page out of sequence, with no session, is ignored once announced again
    sim.handle_boot_message(&HostMessage::BootloaderReadyReply(BootloaderReadyReply { version: fw }));
    assert_eq!(sim.handle_boot_message(&page(1, 3)), None);
    // a page that does not fit in flash would not be handled
    let far = HostMessage::WriteFlash(WriteFlash {
        session_id: 9, page: 0, max_page: 2, len: 0x100, _pad: Padding::default(), data: vec![0; 0x300],
    });
    assert!(sim.write_flash_unsafe(&far));
}

#[test]
fn console_items() {
    let text = DebugOutput { defmt: false, data: &b"hello"[..] };
    let r = ParseResult::Parsed(0..1, Message::Radio(RadioMessage::DebugOutput(text)));
    assert_eq!(console_item(&r), ConsoleItem::Text("hello"));
    let bin = DebugOutput { defmt: false, data: &b"\xff\xfe"[..] };
    let r = ParseResult::Parsed(0..1, Message::Radio(RadioMessage::DebugOutput(bin)));
    assert_eq!(console_item(&r), ConsoleItem::Binary(&b"\xff\xfe"[..]));
    let dm = DebugOutput { defmt: true, data: &b"\x01"[..] };
    let r = ParseResult::Parsed(0..1, Message::Radio(RadioMessage::DebugOutput(dm)));
    assert_eq!(console_item(&r), ConsoleItem::Defmt(&b"\x01"[..]));
    let hello = ParseResult::Parsed(0..1, Message::Host(HostMessage::Hello(Hello { session_id: 1 })));
    assert_eq!(console_item(&hello), ConsoleItem::Other);
    let e: ParseResult<&[u8], Message<&[u8]>> = ParseResult::CrcErr(0..1, &b""[..]);
    assert_eq!(console_item(&e), ConsoleItem::CrcError);
    let e: ParseResult<&[u8], Message<&[u8]>> = ParseResult::ParseErr(0..1, &b""[..]);
    assert_eq!(console_item(&e), ConsoleItem::ParseError);
    let e: ParseResult<&[u8], Message<&[u8]>> = ParseResult::NoFrame;
    assert_eq!(console_item(&e), ConsoleItem::Nothing);
}

fn seg(p_type: u32, vaddr: u64, paddr: u64, filesz: u64, memsz: u64) -> ElfSegment {
    ElfSegment { p_type, p_offset: 0, p_vaddr: vaddr, p_paddr: paddr, p_filesz: filesz, p_memsz: memsz, p_flags: 0, p_align: 4 }
}

#[test]
fn flatten_places_load_segments() {
    let text = b"\x00\x10\x00\x20\xd5\x00\x00\x00";
    let data = b"ab";
    let segs = [
        seg(PT_LOAD, 0, 0, 8, 8),
        seg(6, 0, 0x40, 4, 4),
        seg(PT_LOAD, 0x2000_0000, 0x10, 2, 4),
    ];
    let datas = [Some(&text[..]), None, Some(&data[..])];
    let flat = flatten_segments(&segs, &datas).unwrap();
    let mut expect = text.to_vec();
    expect.resize(0x14, 0);
    expect[0x10] = b'a';
    expect[0x11] = b'b';
    assert_eq!(flat, expect);
    assert_eq!(flatten_segments(&segs[..1], &[None]), Err(ElfError::SegmentData));
    let big = [seg(PT_LOAD, 0, 0x10000, 1, 1)];
    assert_eq!(flatten_segments(&big, &[Some(&b"x"[..])]), Err(ElfError::SegmentsTooLarge));
    let (ram, bottom) = ram_and_stack(&segs, 0x2000_1000).unwrap();
    assert_eq!((ram, bottom), (4, 0x2000_0004));
    assert_eq!(ram_and_stack(&[], 0x2000_1000).unwrap(), (0, RAM_START));
}

#[test]
fn version_pointer_is_followed() {
    let mut flat = vec![0u8; 0x40];
    flat[0x20..0x24].copy_from_slice(&0x30u32.to_le_bytes());
    flat[0x30..0x34].copy_from_slice(b"v1.2");
    let v = extract_version(&flat, 0x20).unwrap().unwrap();
    assert_eq!(v.as_str().unwrap(), "v1.2");
    assert_eq!(extract_version(&flat, 0x41), Err(ElfError::BadVersionPointer));
    assert_eq!(extract_version(&flat, 0x3e), Ok(None));
    // an empty version does not count
    assert_eq!(extract_version(&flat, 0x24), Ok(None));
    flat[0x20..0x24].copy_from_slice(&0x100u32.to_le_bytes());
    assert_eq!(extract_version(&flat, 0x20), Err(ElfError::BadVersionPointer));
}

/// A little-endian ELF32 file with the given program headers and data.
fn elf32(phdrs: &[[u32; 8]], data: &[u8]) -> Vec<u8> {
    let mut f = Vec::new();
    f.extend_from_slice(b"\x7fELF\x01\x01\x01\x00");
    f.extend_from_slice(&[0; 8]);
    f.extend_from_slice(&2u16.to_le_bytes()); // e_type
    f.extend_from_slice(&0x28u16.to_le_bytes()); // e_machine
    f.extend_from_slice(&1u32.to_le_bytes()); // e_version
    f.extend_from_slice(&0xd5u32.to_le_bytes()); // e_entry
    f.extend_from_slice(&52u32.to_le_bytes()); // e_phoff
    f.extend_from_slice(&0u32.to_le_bytes()); // e_shoff
    f.extend_from_slice(&0u32.to_le_bytes()); // e_flags
    f.extend_from_slice(&52u16.to_le_bytes()); // e_ehsize
    f.extend_from_slice(&32u16.to_le_bytes()); // e_phentsize
    f.extend_from_slice(&(phdrs.len() as u16).to_le_bytes()); // e_phnum
    f.extend_from_slice(&40u16.to_le_bytes()); // e_shentsize
    f.extend_from_slice(&0u16.to_le_bytes()); // e_shnum
    f.extend_from_slice(&0u16.to_le_bytes()); // e_shstrndx
    for p in phdrs {
        for v in p {
            f.extend_from_slice(&v.to_le_bytes());
        }
    }
    f.extend_from_slice(data);
    f
}

#[test]
fn flatten_elf_file() {
    let data_off = 52 + 2 * 32;
    let text = b"\x00\x10\x00\x20\xd5\x00\x00\x00more code";
    let file = elf32(
        &[
            [1, data_off, 0, 0, text.len() as u32, 0x20, 5, 4],
            [1, 0, 0x2000_0000, 0x2000_0000, 0, 0x100, 6, 4],
        ],
        text,
    );
    let (flat, info) = flatten_elf(&file).unwrap();
    let mut expect = text.to_vec();
    expect.resize(0x20, 0);
    assert_eq!(flat, expect);
    assert_eq!(info.flash_len, 0x20);
    assert_eq!(info.stack_top, 0x2000_1000);
    assert_eq!(info.entry_point, 0xd5);
    assert_eq!(info.ram_len, Some(0x100));
    assert_eq!(info.stack_bottom, Some(0x2000_0100));
    assert_eq!(info.version, None);
    assert_eq!(flatten_elf(b"not an elf file"), Err(ElfError::NotElf));
}

#[test]
fn read_firmware_formats() {
    let raw = image(0x2000_1000, 0xd5, 16);
    let v = Version::new_from_str("x").unwrap();
    let (flat, info) = read_firmware_from(&raw, BinaryFormat::Raw, Some(v)).unwrap();
    assert_eq!(flat, raw);
    assert_eq!(info.version, None);
    assert_eq!(read_firmware_from(&raw, BinaryFormat::Packed, None), Err(FirmwareError::PackedUnsupported));
    assert_eq!(read_firmware_from(&raw, BinaryFormat::Auto, None), Err(FirmwareError::UnknownFormat));
    assert_eq!(read_firmware_from(&raw, BinaryFormat::Elf, None), Err(FirmwareError::Elf(ElfError::NotElf)));
    assert_eq!(read_firmware_from(b"ab", BinaryFormat::Raw, None), Err(FirmwareError::Image(ImageError::NoStackPointer)));
    let text = b"\x00\x10\x00\x20\xd5\x00\x00\x00";
    let file = elf32(&[[1, 52 + 32, 0, 0, 8, 8, 5, 4]], text);
    let (flat, info) = read_firmware_from(&file, BinaryFormat::Auto, Some(v)).unwrap();
    assert_eq!(flat, text.to_vec());
    assert_eq!(info.version, Some(v));
}

#[test]
fn flasher_pages_land_in_simulated_flash() {
    let fw = Version::new_from_str("fw").unwrap();
    let mut sim = Simulator::new(Version::new_from_str("boot").unwrap(), true, vec![], vec![0xee; 0x400]);
    sim.handle_boot_message(&HostMessage::BootloaderReadyReply(BootloaderReadyReply { version: fw }));
    let data: Vec<u8> = (0..0x250u32).map(|i| (i * 7 % 251) as u8).collect();
    let n = page_count(data.len());
    assert_eq!(n, 3);
    for p in 0..n {
        let msg = HostMessage::WriteFlash(flash_page(&data, p, n, 0x1234));
        assert!(!sim.write_flash_unsafe(&msg));
        let reply = sim.handle_boot_message(&msg);
        assert_eq!(
            reply,
            Some(RadioMessage::WriteFlashReply(WriteFlashReply { session_id: 0x1234, page: p as u16, error: 0 }))
        );
    }
    assert_eq!(&sim.flash()[..data.len()], &data[..]);
    assert!(sim.flash()[data.len()..].iter().all(|b| *b == 0));
    // the session is over: the bootloader asks again
    assert!(sim.wants_boot_ready());
}

#[test]
fn eeprom_reader_gets_the_simulated_eeprom() {
    for size in [0usize, 5, 0x80, 0x100, 0x1a3] {
        let eeprom: Vec<u8> = (0..size).map(|i| (i * 13 % 256) as u8).collect();
        let mut sim = Simulator::new(Version::new_from_str("k5sim").unwrap(), false, eeprom.clone(), vec![]);
        sim.handle_message(&HostMessage::Hello(Hello { session_id: HELLO_SESSION_ID }));
        let mut reader = EepromReader::new(size);
        loop {
            let reply = sim.handle_message(&HostMessage::ReadEeprom(reader.request()));
            let done = match reply {
                Some(RadioMessage::ReadEepromReply(r)) => {
                    let borrowed = ReadEepromReply { address: r.address, len: r.len, _pad: r._pad, data: &r.data[..] };
                    reader.on_reply(&borrowed).unwrap()
                }
                other => panic!("unexpected {:?}", other),
            };
            if done {
                break;
            }
        }
        assert_eq!(reader.data(), &eeprom[..]);
    }
}

#[test]
fn flasher_walks_pages_and_stops_on_error() {
    let data: Vec<u8> = (0..0x180u32).map(|i| i as u8).collect();
    let mut f = Flasher::new(data.clone(), 77);
    assert_eq!(f.max_page(), 2);
    assert_eq!(f.written(), 0);
    let first = f.request();
    assert_eq!((first.session_id, first.page, first.max_page, first.len), (77, 0, 2, 0x100));
    assert_eq!(&first.data[..], &data[..0x100]);
    // a reply for another page changes nothing
    let wrong = WriteFlashReply { session_id: 77, page: 1, error: 0 };
    assert_eq!(f.on_reply(&wrong), Err(FlashError::NotConfirmed));
    assert_eq!(f.page(), 0);
    let failed = WriteFlashReply { session_id: 77, page: 0, error: 3 };
    assert_eq!(f.on_reply(&failed), Err(FlashError::BootloaderError));
    assert_eq!(f.on_reply(&WriteFlashReply { session_id: 77, page: 0, error: 0 }), Ok(()));
    assert_eq!(f.written(), 0x100);
    let second = f.request();
    assert_eq!((second.page, second.len), (1, 0x80));
    assert_eq!(&second.data[..0x80], &data[0x100..]);
    assert!(second.data[0x80..].iter().all(|b| *b == 0));
    assert!(!f.is_done());
    assert_eq!(f.on_reply(&WriteFlashReply { session_id: 77, page: 1, error: 0 }), Ok(()));
    assert!(f.is_done());
    assert_eq!(f.written(), 0x180);
    assert!(Flasher::new(vec![], 1).is_done());
}

#[test]
fn version_symbol_needs_name_and_section() {
    let symstr = elf::string_table::StringTable::new(b"\0VERSION\0OTHER\0");
    let secstr = elf::string_table::StringTable::new(b"\0.rodata\0.data\0.text\0");
    // section name offsets: none, .rodata, .data, .text
    let sections = [0u32, 1, 9, 15];
    let sym = |name: u32, shndx: u16, value: u64| ElfSymbol { st_name: name, st_shndx: shndx, st_value: value };
    // a VERSION in .data, an OTHER in .rodata, one with no section, then the real one in .text
    let symbols = [sym(1, 2, 0x10), sym(9, 1, 0x20), sym(1, 9, 0x30), sym(1, 3, 0x40), sym(1, 1, 0x50)];
    assert_eq!(version_symbol(&symbols, &symstr, &sections, &secstr), Some(0x40));
    assert_eq!(version_symbol(&symbols[..3], &symstr, &sections, &secstr), None);
    // a name offset past the table is passed over
    let symbols = [sym(40, 1, 0x10), sym(1, 1, 0x60)];
    assert_eq!(version_symbol(&symbols, &symstr, &sections, &secstr), Some(0x60));
}

#[test]
fn elf_errors_for_tiny_images_and_overflowing_segments() {
    // a load segment of two bytes leaves no vector table
    let data_off = 52 + 32;
    let file = elf32(&[[1, data_off, 0, 0, 2, 2, 5, 4]], b"\x01\x02");
    assert_eq!(
        flatten_elf(&file),
        Err(ElfError::Image(ImageError::NoStackPointer))
    );
    // a segment whose file data runs past the end of the file
    let short = elf32(&[[1, data_off, 0, 0, 16, 16, 5, 4]], b"\x01\x02");
    assert_eq!(flatten_elf(&short), Err(ElfError::SegmentData));
    // a RAM segment whose end does not fit in 64 bits
    let high = [seg(PT_LOAD, u64::MAX - 1, 0, 0, 16)];
    assert_eq!(ram_and_stack(&high, 0x2000_1000), Err(ElfError::Overflow));
}
