use k5::hexdump::{hexdump_iter, printable, DedupLine, DedupLineIter, LineIter};

fn text(bytes: Vec<u8>) -> String {
    String::from_utf8(bytes).unwrap()
}

#[test]
fn printable_ascii_only() {
    assert_eq!(printable(b'a'), Some('a'));
    assert_eq!(printable(b' '), Some(' '));
    assert_eq!(printable(b'~'), Some('~'));
    assert_eq!(printable(0x1f), None);
    assert_eq!(printable(0x7f), None);
    assert_eq!(printable(0xff), None);
}

#[test]
fn line_iter_splits_and_ends_with_address() {
    let data: Vec<u8> = (0u8..20).collect();
    let mut it: LineIter<'_, 16> = LineIter::new(&data);
    let l0 = it.next().unwrap();
    assert_eq!(*l0.address(), 0);
    assert_eq!(l0.data(), &data[..16]);
    let l1 = it.next().unwrap();
    assert_eq!(*l1.address(), 16);
    assert_eq!(l1.data(), &data[16..]);
    let end = it.next().unwrap();
    assert_eq!(*end.address(), 20);
    assert_eq!(end.data(), b"");
    assert!(it.next().is_none());
    assert!(it.next().is_none());
}

#[test]
fn line_render_full_and_partial() {
    let data = b"ABCDEFGHIJKLMNOPqr\x00\xff";
    let mut it: LineIter<'_, 16> = LineIter::new(data);
    let l0 = it.next().unwrap();
    assert_eq!(
        text(l0.render()),
        "0000  41 42 43 44 45 46 47 48  49 4a 4b 4c 4d 4e 4f 50  |ABCDEFGHIJKLMNOP|"
    );
    let l1 = it.next().unwrap();
    assert_eq!(
        text(l1.render()),
        "0010  71 72 00 ff                                       |qr..|"
    );
    let end = it.next().unwrap();
    assert_eq!(text(end.render()), "0014");
}

#[test]
fn dedup_collapses_repeated_lines() {
    let mut data = vec![0u8; 64];
    data.extend_from_slice(b"0123456789abcdef");
    let mut it: DedupLineIter<'_, 16> = DedupLineIter::new(&data);
    let mut lines = Vec::new();
    while let Some(l) = it.next() {
        lines.push(text(l.render()));
    }
    assert_eq!(
        lines,
        vec![
            "0000  00 00 00 00 00 00 00 00  00 00 00 00 00 00 00 00  |................|".to_string(),
            "*".to_string(),
            "0040  30 31 32 33 34 35 36 37  38 39 61 62 63 64 65 66  |0123456789abcdef|".to_string(),
            "0050".to_string(),
        ]
    );
}

#[test]
fn hexdump_iter_of_empty_data() {
    let data: [u8; 0] = [];
    let mut it = hexdump_iter(&data);
    let first = it.next().unwrap();
    assert!(matches!(first, DedupLine::Data(_)));
    assert_eq!(text(first.render()), "0000");
    assert!(it.next().is_none());
}

#[test]
fn dedup_duplicate_is_star() {
    let data = [7u8; 48];
    let mut it = hexdump_iter(&data);
    assert!(matches!(it.next(), Some(DedupLine::Data(_))));
    let dup = it.next().unwrap();
    assert_eq!(dup, DedupLine::Duplicate);
    assert_eq!(text(dup.render()), "*");
    // the end line differs from the data lines
    let end = it.next().unwrap();
    assert_eq!(text(end.render()), "0030");
    assert!(it.next().is_none());
}

#[test]
fn line_iter_lines_rebuild_the_data() {
    let data: Vec<u8> = (0..=255u8).cycle().take(1000).collect();
    let mut it: LineIter<'_, 7> = LineIter::new(&data);
    let mut joined: Vec<u8> = Vec::new();
    let mut expected_address: usize = 0;
    let mut count = 0;
    while let Some(line) = it.next() {
        assert_eq!(*line.address() as usize, expected_address);
        assert!(line.data().len() <= 7);
        expected_address += line.data().len();
        joined.extend_from_slice(line.data());
        count += 1;
    }
    assert_eq!(joined, data);
    // 142 full lines, one of 6 bytes, and the empty closing line
    assert_eq!(count, 144);
}
