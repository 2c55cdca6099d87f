use k5::board::keypad::{self, State};
use k5::board::shared_i2c::{BusStep, ScriptedBus};
use k5::firmware::bk1080::{
    Bk1080, Error as FmError, RegBound, TuneAction, TuneStep, Tuner, REG_CHANNEL, REG_MAX, REG_RSSI,
};
use k5::firmware::demo::{
    on_keys, parse_command, pin_state, snake_point, split_command, status_text, Command,
    LineEditor, LineEvent, PinLevel,
};

#[test]
fn snake_runs_around_the_border() {
    // a 128 x 64 screen at the origin: a border of 2 * 127 + 2 * 63 steps
    assert_eq!(snake_point(0, 0, 128, 64, 0), (0, 0));
    assert_eq!(snake_point(0, 0, 128, 64, 126), (126, 0));
    assert_eq!(snake_point(0, 0, 128, 64, 127), (127, 0));
    assert_eq!(snake_point(0, 0, 128, 64, 130), (127, 3));
    assert_eq!(snake_point(0, 0, 128, 64, 190), (127, 63));
    assert_eq!(snake_point(0, 0, 128, 64, 200), (117, 63));
    assert_eq!(snake_point(0, 0, 128, 64, 317), (0, 63));
    assert_eq!(snake_point(0, 0, 128, 64, 379), (0, 1));
    assert_eq!(snake_point(0, 0, 128, 64, 380), (0, 0));
    // negative steps run off the top edge
    assert_eq!(snake_point(0, 0, 128, 64, -50), (-50, 0));
    assert_eq!(snake_point(10, 20, 5, 4, 3), (13, 20));
}

#[test]
fn commands_parse() {
    assert_eq!(parse_command(b"hello"), Some(Command::Hello));
    assert_eq!(parse_command(b"hello there"), Some(Command::Hello));
    assert_eq!(parse_command(b"reset"), Some(Command::Reset));
    assert_eq!(parse_command(b"speaker high"), Some(Command::Speaker(PinLevel::High)));
    assert_eq!(parse_command(b"speaker low"), Some(Command::Speaker(PinLevel::Low)));
    assert_eq!(parse_command(b"speaker loud"), None);
    assert_eq!(parse_command(b"fm enable"), Some(Command::FmEnable));
    assert_eq!(parse_command(b"fm disable"), Some(Command::FmDisable));
    assert_eq!(parse_command(b"fm init"), Some(Command::FmInit));
    assert_eq!(parse_command(b"fm"), Some(Command::FmDump));
    assert_eq!(parse_command(b"fm "), Some(Command::FmDump));
    assert_eq!(parse_command(b"fm  enable"), None);
    assert_eq!(parse_command(b"tune 123"), Some(Command::Tune(123)));
    assert_eq!(parse_command(b"tune +7"), Some(Command::Tune(7)));
    assert_eq!(parse_command(b"tune 65535"), Some(Command::Tune(65535)));
    assert_eq!(parse_command(b"tune 65536"), None);
    assert_eq!(parse_command(b"tune -1"), None);
    assert_eq!(parse_command(b"tune"), None);
    assert_eq!(parse_command(b"read 1F"), Some(Command::Read(0x1f)));
    assert_eq!(parse_command(b"read abc"), Some(Command::Read(0xabc)));
    assert_eq!(parse_command(b"read xyz"), None);
    assert_eq!(parse_command(b"read\t10"), Some(Command::Read(0x10)));
    assert_eq!(parse_command("tune\u{3000}5".as_bytes()), Some(Command::Tune(5)));
    assert_eq!(parse_command(b"\xff\xfe"), None);
    assert_eq!(parse_command(b"jump"), None);
    assert_eq!(pin_state(b"high"), Some(PinLevel::High));
    assert_eq!(pin_state(b"middle"), None);
    let (c, a) = split_command("a\u{a0}b c".as_bytes());
    assert_eq!((c, a), (&b"a"[..], &b"b c"[..]));
}

#[test]
fn line_editor_collects_lines() {
    let mut e = LineEditor::new();
    for c in b"fm" {
        assert_eq!(e.on_byte(*c), LineEvent::Stored { overrun: false });
    }
    assert_eq!(e.on_byte(b'\r'), LineEvent::Line(b"fm".to_vec()));
    assert_eq!(e.on_byte(b'\r'), LineEvent::Line(vec![]));
    for _ in 0..256 {
        assert_eq!(e.on_byte(b'x'), LineEvent::Stored { overrun: false });
    }
    assert_eq!(e.on_byte(b'y'), LineEvent::Stored { overrun: true });
    assert_eq!(e.on_byte(b'\r'), LineEvent::Line(b"y".to_vec()));
}

#[test]
fn keys_tune_and_toggle() {
    let keys = State::from_bits_truncate(keypad::UP | keypad::PTT);
    let a = on_keys(10, keys);
    assert!(a.toggle_flashlight);
    assert_eq!(a.tunes, vec![11]);
    assert_eq!(a.freq, 11);
    let both = State::from_bits_truncate(keypad::UP | keypad::DOWN);
    let a = on_keys(10, both);
    assert_eq!(a.tunes, vec![11, 10]);
    assert!(!a.toggle_flashlight);
    let a = on_keys(0, State::from_bits_truncate(keypad::DOWN));
    assert_eq!(a.freq, 65535);
    let a = on_keys(65535, State::from_bits_truncate(keypad::UP));
    assert_eq!(a.freq, 0);
}

#[test]
fn status_line() {
    assert_eq!(String::from_utf8(status_text(0, 0x411e)).unwrap(), "freq 875 rssi 411e");
    assert_eq!(String::from_utf8(status_text(10, 7)).unwrap(), "freq 895 rssi 0007");
    assert_eq!(String::from_utf8(status_text(40000, 0)).unwrap(), "freq 15339 rssi 0000");
}

#[test]
fn bk1080_reads_and_writes_registers() {
    // the chip's registers, then what the reads after it give
    let mut script: Vec<u8> = (0..REG_MAX).flat_map(|i| [i, i]).collect();
    script.extend_from_slice(&[0x12, 0x34]); // channel read back after the write
    script.extend_from_slice(&[0x41, 0x1e]); // rssi
    script.extend_from_slice(&[0xaa, 0x01, 0xbb, 0x02, 0xcc, 0x03]); // registers 2 to 4
    let mut fm = Bk1080::new(ScriptedBus::new(script)).unwrap();
    assert_eq!(fm.get(3), Some(0x303));
    assert_eq!(fm.get(REG_MAX), None);
    assert_eq!(fm.write(REG_CHANNEL, 0x1234), Ok(0x1234));
    assert_eq!(fm.get(REG_CHANNEL), Some(0x1234));
    assert_eq!(fm.read(REG_RSSI), Ok(0x411e));
    assert_eq!(fm.get(REG_RSSI), Some(0x411e));
    assert_eq!(fm.read(REG_MAX), Err(FmError::InvalidData));
    assert_eq!(fm.write(REG_MAX, 1), Err(FmError::InvalidData));
    assert_eq!(
        fm.update(RegBound::Included(2), RegBound::Included(4)).unwrap(),
        &[0xaa01, 0xbb02, 0xcc03][..]
    );
    assert_eq!(fm.update(RegBound::Included(5), RegBound::Excluded(5)).unwrap(), &[][..]);
    assert_eq!(fm.update(RegBound::Excluded(5), RegBound::Excluded(5)), Err(FmError::InvalidData));
    // the script has run out, so every register reads back as zero
    assert!(fm.enable().is_ok());
    assert_eq!(fm.get(2), Some(0));
}

#[test]
fn bk1080_bus_steps() {
    let mut fm = Bk1080::new(ScriptedBus::new(vec![])).unwrap();
    assert!(fm.write(REG_CHANNEL, 0xbeef).is_ok());
    let steps = fm.i2c().steps();
    // the first read of every register, then the write and its read back
    assert_eq!(steps.len(), 4 + 3 + 4);
    assert_eq!(steps[1], BusStep::Write(vec![0x80, 0x01]));
    assert_eq!(steps[5], BusStep::Write(vec![0x80, 0x06, 0xbe, 0xef]));
    assert_eq!(steps[8], BusStep::Write(vec![0x80, 0x07]));
    assert_eq!(steps[9], BusStep::Read(vec![0, 0]));
}

#[test]
fn tuner_waits_for_the_chip() {
    let (mut t, first) = Tuner::new(0x1403);
    assert_eq!(first, 0x003);
    assert_eq!(t.on_rssi(0x4000), TuneAction::ReadRssi);
    assert_eq!(t.on_rssi(0x0000), TuneAction::WriteChannel(0x8003));
    assert_eq!(t.step, TuneStep::WaitSet);
    assert_eq!(t.on_rssi(0x0000), TuneAction::ReadRssi);
    assert_eq!(t.on_rssi(0x4000), TuneAction::Done);
    assert_eq!(t.on_rssi(0x0000), TuneAction::Done);
}

#[test]
fn snake_point_at_large_sizes_and_negative_steps() {
    assert_eq!(
        snake_point(0, 0, 0x2000_0000, 0x2000_0000, 0x2000_0000),
        (0x1fff_ffff, 1)
    );
    assert_eq!(snake_point(10, 20, 128, 64, -5), (5, 20));
    assert_eq!(snake_point(0, 0, 128, 64, i32::MIN), (-288, 0));
}
