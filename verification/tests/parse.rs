use core::ops::Range;

use k5::protocol::crc::CrcConstant;
use k5::protocol::parse::{check_crc, find_frame, FoundFrame};
use k5::protocol::{FRAME_END, FRAME_START};

fn found(full: Range<usize>) -> FoundFrame {
    let contents_start = full.start + FRAME_START.len() + core::mem::size_of::<u16>();
    let contents_end = full.end - FRAME_END.len();
    FoundFrame {
        full_frame: full.clone(),
        frame_contents: contents_start..contents_end,
    }
}

#[test]
fn parse_frame_raw_empty() {
    let mut frame = b"".to_owned();
    assert_eq!(find_frame(frame.as_mut()), (0, None))
}

#[test]
fn find_frame_discard_garbage() {
    let mut frame = b"abcdef".to_owned();
    assert_eq!(find_frame(frame.as_mut()), (6, None));
}

#[test]
fn find_frame_incomplete_prefix_imm() {
    let mut frame = b"\xab".to_owned();
    assert_eq!(find_frame(frame.as_mut()), (0, None));
}

#[test]
fn find_frame_incomplete_imm() {
    let mut frame = b"\xab\xcd\x01\x00\x70\x03\x7b".to_owned();
    assert_eq!(find_frame(frame.as_mut()), (0, None));
}

#[test]
fn find_frame_complete_imm() {
    let mut frame = b"\xab\xcd\x01\x00\x70\x03\x7b\xdc\xbaafter".to_owned();
    assert_eq!(find_frame(frame.as_mut()), (9, Some(found(0..9))));
}

#[test]
fn find_frame_incomplete_prefix() {
    let mut frame = b"abc\xab".to_owned();
    assert_eq!(find_frame(frame.as_mut()), (3, None));
}

#[test]
fn find_frame_incomplete() {
    let mut frame = b"abc\xab\xcd\x01\x00\x70\x03\x7b".to_owned();
    assert_eq!(find_frame(frame.as_mut()), (3, None));
}

#[test]
fn find_frame_complete() {
    let mut frame = b"abc\xab\xcd\x01\x00\x70\x03\x7b\xdc\xbaafter".to_owned();
    assert_eq!(find_frame(frame.as_mut()), (12, Some(found(3..12))));
}

#[test]
fn find_frame_incomplete_prefix_2() {
    let mut frame = b"abc\xabdef\xab".to_owned();
    assert_eq!(find_frame(frame.as_mut()), (7, None));
}

#[test]
fn find_frame_incomplete_2() {
    let mut frame = b"abc\xabdef\xab\xcd\x01\x00\x70\x03\x7b".to_owned();
    assert_eq!(find_frame(frame.as_mut()), (7, None));
}

#[test]
fn find_frame_complete_2() {
    let mut frame = b"abc\xabdef\xab\xcd\x01\x00\x70\x03\x7b\xdc\xbaafter".to_owned();

    assert_eq!(find_frame(frame.as_mut()), (16, Some(found(7..16))));
}

#[test]
fn find_frame_bad_length() {
    let mut frame = b"abc\xab\xcd\x00\x02foo".to_owned();
    assert_eq!(find_frame(frame.as_mut()), (10, None));
}

#[test]
fn find_frame_bad_end() {
    let mut frame = b"abc\xab\xcd\x01\x00\x70\x03\x7b\xdc\xbbafter".to_owned();
    assert_eq!(find_frame(frame.as_mut()), (17, None));
}

/// Find a frame, then check its CRC: the frame body, if one was found
/// and its CRC passed.
fn frame_body(data: &mut [u8], crc: u16) -> (usize, Option<Option<Vec<u8>>>) {
    let (skip, found) = find_frame(data);
    let body = found.map(|f| {
        check_crc(&CrcConstant(crc), &data[f.frame_contents.clone()]).map(|b| b.to_vec())
    });
    (skip, body)
}

#[test]
fn frame_empty() {
    let mut data = b"".to_owned();
    assert_eq!(frame_body(data.as_mut(), 0xcafe), (0, None));
}

#[test]
fn frame_discard_garbage() {
    let mut data = b"abcdef".to_owned();
    assert_eq!(frame_body(data.as_mut(), 0xcafe), (6, None));
}

#[test]
fn frame_incomplete_prefix_imm() {
    let mut data = b"\xab".to_owned();
    assert_eq!(frame_body(data.as_mut(), 0xcafe), (0, None));
}

#[test]
fn frame_incomplete_imm() {
    let mut data = b"\xab\xcd\x03\x00\x70\x03\x7b\x18\xe4".to_owned();
    assert_eq!(frame_body(data.as_mut(), 0xcafe), (0, None));
}

#[test]
fn frame_complete_imm() {
    let mut data = b"\xab\xcd\x03\x00\x70\x03\x7b\x18\xe4\xdc\xbaafter".to_owned();
    assert_eq!(
        frame_body(data.as_mut(), 0xcafe),
        (11, Some(Some(b"foo".to_vec())))
    );
}

#[test]
fn frame_incomplete_prefix() {
    let mut data = b"abc\xab".to_owned();
    assert_eq!(frame_body(data.as_mut(), 0xcafe), (3, None));
}

#[test]
fn frame_incomplete() {
    let mut data = b"abc\xab\xcd\x03\x00\x70\x03\x7b\x18\xe4".to_owned();
    assert_eq!(frame_body(data.as_mut(), 0xcafe), (3, None));
}

#[test]
fn frame_complete() {
    let mut data = b"abc\xab\xcd\x03\x00\x70\x03\x7b\x18\xe4\xdc\xbaafter".to_owned();
    assert_eq!(
        frame_body(data.as_mut(), 0xcafe),
        (14, Some(Some(b"foo".to_vec())))
    );
}

#[test]
fn frame_incomplete_prefix_2() {
    let mut data = b"abc\xabdef\xab".to_owned();
    assert_eq!(frame_body(data.as_mut(), 0xcafe), (7, None));
}

#[test]
fn frame_incomplete_2() {
    let mut data = b"abc\xabdef\xab\xcd\x03\x00\x70\x03\x7b\x18\xe4".to_owned();
    assert_eq!(frame_body(data.as_mut(), 0xcafe), (7, None));
}

#[test]
fn frame_complete_2() {
    let mut data = b"abc\xabdef\xab\xcd\x03\x00\x70\x03\x7b\x18\xe4\xdc\xbaafter".to_owned();
    assert_eq!(
        frame_body(data.as_mut(), 0xcafe),
        (18, Some(Some(b"foo".to_vec())))
    );
}

#[test]
fn frame_crc_error() {
    let mut data = b"abc\xab\xcd\x03\x00\x70\x03\x7b\x18\xee\xdc\xbaafter".to_owned();
    let (skip, found) = find_frame(data.as_mut());
    assert_eq!(skip, 14);
    let f = found.unwrap();
    let contents = &data[f.frame_contents.clone()];
    assert_eq!(contents, b"foo\xfe\xc0");
    assert_eq!(check_crc(&CrcConstant(0xcafe), contents), None);
}

#[test]
fn find_frame_after_stray_start_byte() {
    let mut buf = *b"\xab\xab\xcd\x01\x00\x70\x03\x7b\xdc\xba";
    let (n, found) = find_frame(&mut buf[..]);
    assert_eq!(n, 10);
    let found = found.unwrap();
    assert_eq!(found.full_frame, 1..10);
    assert_eq!(found.frame_contents, 5..8);
    assert_eq!(&buf[5..8], b"foo");
}
