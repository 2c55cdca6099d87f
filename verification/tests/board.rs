use k5::board::eeprom::{write_chunks, Error as EepromError};
use k5::board::keypad::{self, row_bits, scan_state, Keypad, State, ALL_BITS};
use k5::board::logger::{log_frame, LogBuffer, BUFFER_LEN};
use k5::protocol::find_frame;
use k5::board::shared_i2c::{transaction, BusStep, Operation, ScriptedBus};

#[test]
fn number_picks_lowest() {
    let s = State::from_bits_truncate(keypad::N7 | keypad::N3 | keypad::MENU);
    assert_eq!(s.number(), Some(3));
    assert_eq!(State::from_bits_truncate(keypad::N0).number(), Some(0));
    assert_eq!(State::from_bits_truncate(keypad::MENU).number(), None);
    let all = State::all_numbers();
    assert_eq!(all[0].bits(), keypad::N0);
    assert_eq!(all[9].bits(), keypad::N9);
    assert!(s.is_menu());
    assert!(s.is_dtmf_a());
    assert!(s.is_7());
    assert!(!s.is_8());
}

#[test]
fn from_bits_truncates() {
    assert_eq!(State::from_bits_truncate(0xffff_ffff).bits(), ALL_BITS);
    assert_eq!(State::all().complement().bits(), 0);
    assert!(State::empty().is_empty());
}

#[test]
fn scan_reads_columns_and_sporadics() {
    // rows are pulled high unless a key pulls them low
    let idle = [true, true, true, true];
    assert_eq!(row_bits(idle, 0b1111), 0);
    assert_eq!(row_bits([false, true, true, true], 0b1111), 0b0001);
    // MENU is column 0 row 0, N2 column 1 row 1
    let s = scan_state(false, idle, [[false, true, true, true], [true, false, true, true], idle, idle]);
    assert_eq!(s.bits(), keypad::MENU | keypad::N2);
    // side button I pulls row 0 low all the time; that row is not read for columns
    let s = scan_state(true, [false, true, true, true], [[false, true, true, true], idle, idle, idle]);
    assert_eq!(s.bits(), keypad::PTT | keypad::SIDE1);
}

#[test]
fn debounce_needs_steady_scans() {
    let mut k: Keypad<4> = Keypad::new();
    let up = State::from_bits_truncate(keypad::UP);
    // the first scans with the key do not make it pressed
    for _ in 0..2 {
        assert!(k.debounce(up).is_empty());
        assert!(k.pressed().is_empty());
    }
    // the third scan makes every scan but the oldest hold it: it went down
    assert_eq!(k.debounce(up).bits(), keypad::UP);
    assert_eq!(k.pressed().bits(), keypad::UP);
    assert_eq!(k.down().bits(), keypad::UP);
    // holding it, it is no longer new
    assert!(k.debounce(up).is_empty());
    assert_eq!(k.pressed().bits(), keypad::UP);
    // letting go releases it at once
    assert!(k.debounce(State::empty()).is_empty());
    assert!(k.pressed().is_empty());
    assert_eq!(k.up().bits(), keypad::UP);
    assert_eq!(k.changed().bits(), keypad::UP);
    let k8 = keypad::new();
    assert!(k8.pressed().is_empty());
}

#[test]
fn eeprom_writes_stay_in_pages() {
    assert_eq!(write_chunks(0, 0).unwrap(), vec![]);
    assert_eq!(write_chunks(30, 40).unwrap(), vec![(30, 2), (32, 32), (64, 6)]);
    assert_eq!(write_chunks(64, 32).unwrap(), vec![(64, 32)]);
    assert_eq!(write_chunks(0x1ff0, 0x20), Err(EepromError::TooMuchData));
}

#[test]
fn transaction_sends_address_on_direction_change() {
    let mut bus = ScriptedBus::new(vec![1, 2]);
    let ops = [
        Operation::Write(vec![0x10]),
        Operation::Write(vec![0x11]),
        Operation::Read(2),
    ];
    let reads = transaction(&mut bus, 0x50, &ops).unwrap();
    assert_eq!(reads, vec![vec![1, 2]]);
    assert_eq!(
        bus.steps(),
        &[
            BusStep::Start,
            BusStep::Write(vec![0xa0]),
            BusStep::Write(vec![0x10]),
            BusStep::Write(vec![0x11]),
            BusStep::Start,
            BusStep::Write(vec![0xa1]),
            BusStep::Read(vec![1, 2]),
            BusStep::Stop,
        ][..]
    );
    // a read alone, with the script run out
    let reads = transaction(&mut bus, 0x50, &[Operation::Read(1)]).unwrap();
    assert_eq!(reads, vec![vec![0]]);
}

#[test]
fn debounce_presses_what_every_recent_scan_holds() {
    let mut k: Keypad<4> = Keypad::new();
    let noise = State::from_bits_truncate(ALL_BITS);
    for _ in 0..4 {
        k.debounce(noise);
    }
    assert_eq!(k.pressed().bits(), ALL_BITS);
    // three scans that share only UP leave only UP pressed
    k.debounce(State::from_bits_truncate(keypad::UP | keypad::DOWN));
    k.debounce(State::from_bits_truncate(keypad::UP));
    k.debounce(State::from_bits_truncate(keypad::UP | keypad::MENU));
    assert_eq!(k.pressed().bits(), keypad::UP);
}

#[test]
fn log_buffer_sends_full_buffers_in_order() {
    let mut log = LogBuffer::new();
    let bytes: Vec<u8> = (0..0x250u32).map(|i| i as u8).collect();
    assert!(log.write(&bytes[..0x10], true).is_empty());
    let sent = log.write(&bytes[0x10..], true);
    assert_eq!(sent.len(), 2);
    assert_eq!(&sent[0][..], &bytes[..0x100]);
    assert_eq!(&sent[1][..], &bytes[0x100..0x200]);
    assert_eq!(log.data(), &bytes[0x200..]);
    // nothing goes out while the port is taken
    assert!(log.write(b"xy", false).is_empty());
    assert_eq!(log.flush(false), None);
    let rest = log.flush(true).unwrap();
    assert_eq!(&rest[..0x50], &bytes[0x200..]);
    assert_eq!(&rest[0x50..], b"xy");
    assert_eq!(log.flush(true), None);
    // filling the buffer exactly while the port is taken keeps it all
    let fill = vec![7u8; BUFFER_LEN];
    assert!(log.write(&fill, false).is_empty());
    assert_eq!(log.data().len(), BUFFER_LEN);
    let sent = log.write(b"z", true);
    assert_eq!(sent, vec![fill]);
    assert_eq!(log.data(), b"z");
}

#[test]
fn log_frame_is_a_defmt_debug_output() {
    let frame = log_frame(b"hi");
    let mut radio_side = frame.clone();
    let (_, found) = find_frame(&mut radio_side);
    let found = found.unwrap();
    assert_eq!(found.full_frame, 0..frame.len());
    // type 0x8501, body length 3, the defmt flag, the data, and the constant checksum
    assert_eq!(&radio_side[found.frame_contents.clone()], &[0x01, 0x85, 0x03, 0x00, 0x01, b'h', b'i', 0xff, 0xff][..]);
}

#[test]
fn debounce_edges_follow_the_pressed_keys() {
    let mut k: Keypad<4> = Keypad::new();
    let scans = [
        keypad::UP,
        keypad::UP | keypad::MENU,
        keypad::UP | keypad::MENU,
        keypad::UP | keypad::MENU,
        keypad::MENU,
        keypad::MENU | keypad::N1,
        0,
        keypad::N1,
    ];
    for bits in scans {
        let before = k.pressed().bits();
        let down = k.debounce(State::from_bits_truncate(bits));
        let now = k.pressed().bits();
        assert_eq!(down.bits(), k.down().bits());
        assert_eq!(k.down().bits(), now & !before);
        assert_eq!(k.up().bits(), before & !now);
        assert_eq!(k.changed().bits(), now ^ before);
        assert_eq!(k.down().bits() & k.up().bits(), 0);
    }
}
