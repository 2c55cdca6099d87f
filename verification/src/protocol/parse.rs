//! Finding frames in a byte stream, and checking and parsing their contents.
use core::ops::Range;
use vstd::prelude::*;

use super::crc::{CrcDigest, CrcStyle};
use super::obfuscation::{key_byte, Key};
use super::wire::{get_le_u16, le_u16_at};
use super::{FRAME_END, FRAME_START, MAX_BODY_LEN};

verus! {

/// The frame start marker as a sequence.
pub open spec fn frame_start_seq() -> Seq<u8> {
    seq![0xabu8, 0xcdu8]
}

/// The frame end marker as a sequence.
pub open spec fn frame_end_seq() -> Seq<u8> {
    seq![0xdcu8, 0xbau8]
}

/// Result of [Matcher::search] and [Matcher::match_].
#[derive(Debug, PartialEq, Eq, Hash)]
pub enum MatchResult {
    /// Match successful, with the matched range.
    Matched(Range<usize>),
    /// Match not successful.
    NotMatched,
    /// Match incomplete, with index of where match might start.
    Incomplete(usize),
}

/// Naive scan for `needle` in `data` from index `i`, with `pos` bytes of
/// the needle already matched just before `i`. A byte that breaks a
/// partial match is tried again as the start of a new match.
pub open spec fn scan(data: Seq<u8>, needle: Seq<u8>, i: int, pos: int) -> MatchResult
    decreases data.len() - i, pos,
{
    if i < 0 || i >= data.len() {
        if pos > 0 {
            MatchResult::Incomplete((i - pos) as usize)
        } else {
            MatchResult::NotMatched
        }
    } else if data[i] == needle[pos] {
        if pos + 1 == needle.len() {
            MatchResult::Matched(Range { start: (i + 1 - needle.len()) as usize, end: (i + 1) as usize })
        } else {
            scan(data, needle, i + 1, pos + 1)
        }
    } else if pos > 0 {
        scan(data, needle, i, 0)
    } else {
        scan(data, needle, i + 1, 0)
    }
}

/// Match `needle` exactly at index `i` (with `pos` bytes already matched):
/// not matched as soon as one byte differs, incomplete if the data ends first.
pub open spec fn anchored(data: Seq<u8>, needle: Seq<u8>, i: int, pos: int, start_i: int) -> MatchResult
    decreases data.len() - i,
{
    if i < 0 || i >= data.len() {
        if pos > 0 {
            MatchResult::Incomplete((i - pos) as usize)
        } else {
            MatchResult::Incomplete(start_i as usize)
        }
    } else if data[i] == needle[pos] {
        if pos + 1 == needle.len() {
            MatchResult::Matched(Range { start: (i + 1 - needle.len()) as usize, end: (i + 1) as usize })
        } else {
            anchored(data, needle, i + 1, pos + 1, start_i)
        }
    } else {
        MatchResult::NotMatched
    }
}

/// Where a scan can land.
pub proof fn lemma_scan_bounds(data: Seq<u8>, needle: Seq<u8>, i: int, pos: int)
    requires
        0 <= i <= data.len(),
        data.len() <= usize::MAX,
        0 <= pos < needle.len(),
        pos <= i,
    ensures
        scan(data, needle, i, pos) matches MatchResult::Matched(r) ==> i - pos <= r.start && r.start
            + needle.len() == r.end && r.end <= data.len(),
        scan(data, needle, i, pos) matches MatchResult::Incomplete(s) ==> i - pos <= s < data.len(),
    decreases data.len() - i, pos,
{
    if i < data.len() {
        if data[i] == needle[pos] {
            if pos + 1 != needle.len() {
                lemma_scan_bounds(data, needle, i + 1, pos + 1);
            }
        } else if pos > 0 {
            lemma_scan_bounds(data, needle, i, 0);
        } else {
            lemma_scan_bounds(data, needle, i + 1, 0);
        }
    }
}

/// Whether a two-byte `needle` occurs in `data` at index `j`.
pub open spec fn occurs_at(data: Seq<u8>, needle: Seq<u8>, j: int) -> bool {
    0 <= j && j + 1 < data.len() && data[j] == needle[0] && data[j + 1] == needle[1]
}

/// Where a scan's result says the needle (or the part of it at the end of
/// the data) begins; the end of the data when it is not found.
pub open spec fn scan_first(data: Seq<u8>, r: MatchResult) -> int {
    match r {
        MatchResult::Matched(range) => range.start as int,
        MatchResult::Incomplete(s) => s as int,
        MatchResult::NotMatched => data.len() as int,
    }
}

/// A scan for a marker of two different bytes finds its first occurrence:
/// where it says the marker is, it is (or its first byte ends the data),
/// and the marker occurs nowhere before that, counting from the partial
/// match it started with. In particular, when it is not matched, it
/// occurs nowhere at all.
pub proof fn law_marker_scan_finds_first(data: Seq<u8>, needle: Seq<u8>, i: int, pos: int)
    requires
        needle.len() == 2,
        needle[0] != needle[1],
        0 <= i <= data.len() <= usize::MAX,
        0 <= pos < 2,
        pos == 1 ==> i >= 1 && data[i - 1] == needle[0],
    ensures
        ({
            let r = scan(data, needle, i, pos);
            &&& forall|j: int|
                i - pos <= j < scan_first(data, r) ==> !#[trigger] occurs_at(data, needle, j)
            &&& r matches MatchResult::Matched(range) ==> occurs_at(data, needle, range.start as int)
                && range.end == range.start + 2
            &&& r matches MatchResult::Incomplete(st) ==> st == data.len() - 1 && data[st as int]
                == needle[0]
            &&& r is NotMatched ==> forall|j: int| i <= j ==> !#[trigger] occurs_at(data, needle, j)
        }),
    decreases data.len() - i, pos,
{
    if i < data.len() {
        if data[i] == needle[pos] {
            if pos == 0 {
                law_marker_scan_finds_first(data, needle, i + 1, 1);
            }
        } else if pos > 0 {
            law_marker_scan_finds_first(data, needle, i, 0);
        } else {
            law_marker_scan_finds_first(data, needle, i + 1, 0);
        }
    }
    let r = scan(data, needle, i, pos);
    assert forall|j: int| i - pos <= j < scan_first(data, r) implies !#[trigger] occurs_at(
        data,
        needle,
        j,
    ) by {
        if i < data.len() && data[i] != needle[pos] && pos > 0 {
            assert(r == scan(data, needle, i, 0));
        }
        if i < data.len() && data[i] != needle[pos] && pos == 0 {
            assert(r == scan(data, needle, i + 1, 0));
        }
        if i < data.len() && data[i] == needle[pos] && pos == 0 {
            assert(r == scan(data, needle, i + 1, 1));
        }
    }
    if r is NotMatched {
        assert forall|j: int| i <= j implies !#[trigger] occurs_at(data, needle, j) by {
            if j < scan_first(data, r) {
            }
        }
    }
}

/// A helper to match a sequence of bytes.
#[derive(Debug, Clone, PartialEq, Eq, Hash)]
struct Matcher<'a> {
    needle: &'a [u8],
    start: Option<usize>,
    pos: usize,
}

impl<'a> Matcher<'a> {
    /// The matcher is partway through the needle, and the next byte it
    /// will see is at index `next`.
    spec fn wf(&self, next: int) -> bool {
        &&& 0 < self.needle@.len()
        &&& self.pos < self.needle@.len()
        &&& (self.pos == 0 <==> self.start is None)
        &&& (self.start matches Some(s) ==> s + self.pos == next)
    }

    fn new(needle: &'a [u8]) -> (m: Self)
        ensures
            m.needle@ == needle@,
            m.pos == 0,
            m.start is None,
    {
        Self { needle, start: None, pos: 0 }
    }

    fn test(&mut self, i: usize, b: u8) -> (r: Option<Range<usize>>)
        requires
            old(self).wf(i as int),
            i < usize::MAX,
        ensures
            final(self).needle == old(self).needle,
            ({
                let needle = old(self).needle@;
                let pos = old(self).pos as int;
                &&& b == needle[pos] && pos + 1 == needle.len() ==> r == Some(
                    Range { start: (i + 1 - needle.len()) as usize, end: (i + 1) as usize },
                )
                &&& b == needle[pos] && pos + 1 < needle.len() ==> r is None && final(self).pos
                    == pos + 1 && final(self).wf(i + 1)
                &&& b != needle[pos] ==> r is None && final(self).pos == 0 && final(self).wf(
                    i + 1,
                )
            }),
    {
        if b == self.needle[self.pos] {
            if self.pos == 0 {
                self.start = Some(i);
            }
            self.pos += 1;
            if self.pos == self.needle.len() {
                let s = match self.start {
                    Some(s) => s,
                    None => i,
                };
                return Some(Range { start: s, end: s + self.needle.len() });
            }
        } else {
            self.start = None;
            self.pos = 0;
        }
        None
    }

    // search the data for our needle.
    // not matched means it was not found anywhere inside.
    // incomplete means we found a partial needle at the end
    fn search(&mut self, data: &[u8], from: usize) -> (r: MatchResult)
        requires
            old(self).wf(from as int),
            from <= data@.len(),
        ensures
            r == scan(data@, old(self).needle@, from as int, old(self).pos as int),
    {
        let ghost needle = self.needle@;
        let ghost pos0 = self.pos as int;
        let mut i = from;
        while i < data.len()
            invariant
                from <= i <= data@.len(),
                self.needle@ == needle,
                needle == old(self).needle@,
                pos0 == old(self).pos as int,
                self.wf(i as int),
                scan(data@, needle, i as int, self.pos as int) == scan(
                    data@,
                    needle,
                    from as int,
                    pos0,
                ),
            decreases data@.len() - i,
        {
            let ghost pos = self.pos as int;
            let b = data[i];
            let was_partial = self.pos > 0;
            if let Some(range) = self.test(i, b) {
                assert(b == needle[pos] && pos + 1 == needle.len());
                assert(scan(data@, needle, i as int, pos) == MatchResult::Matched(range));
                return MatchResult::Matched(range);
            }
            if was_partial && self.pos == 0 {
                // the byte that broke the partial match may begin a new one
                assert(scan(data@, needle, i as int, pos) == scan(data@, needle, i as int, 0));
                if let Some(range) = self.test(i, b) {
                    assert(scan(data@, needle, i as int, 0) == MatchResult::Matched(range));
                    return MatchResult::Matched(range);
                }
            }
            i += 1;
        }
        if let Some(start) = self.start {
            MatchResult::Incomplete(start)
        } else {
            MatchResult::NotMatched
        }
    }

    // match right at the given index.
    // not matched means it's definitely not here
    // incomplete means it might be here with more data
    fn match_(&mut self, start_i: usize, data: &[u8], from: usize) -> (r: MatchResult)
        requires
            old(self).wf(from as int),
            from <= data@.len(),
        ensures
            r == anchored(
                data@,
                old(self).needle@,
                from as int,
                old(self).pos as int,
                start_i as int,
            ),
    {
        let ghost needle = self.needle@;
        let ghost pos0 = self.pos as int;
        let mut i = from;
        while i < data.len()
            invariant
                from <= i <= data@.len(),
                self.needle@ == needle,
                needle == old(self).needle@,
                pos0 == old(self).pos as int,
                self.wf(i as int),
                anchored(data@, needle, i as int, self.pos as int, start_i as int) == anchored(
                    data@,
                    needle,
                    from as int,
                    pos0,
                    start_i as int,
                ),
            decreases data@.len() - i,
        {
            if let Some(range) = self.test(i, data[i]) {
                return MatchResult::Matched(range);
            }
            if self.start.is_none() {
                return MatchResult::NotMatched;
            }
            i += 1;
        }
        match self.start {
            Some(s) => MatchResult::Incomplete(s),
            None => MatchResult::Incomplete(start_i),
        }
    }
}

/// Helper to read a little-endian u16 at `pos`, if there is room.
fn read_le_u16(data: &[u8], pos: usize) -> (r: Option<u16>)
    requires
        pos <= data@.len(),
    ensures
        pos + 2 <= data@.len() ==> r == Some(le_u16_at(data@, pos as int)),
        pos + 2 > data@.len() ==> r is None,
{
    if data.len() - pos < 2 {
        None
    } else {
        Some(get_le_u16(data, pos))
    }
}

/// A possible result from [find_frame()].
#[derive(Debug, PartialEq, Eq, Hash)]
pub struct FoundFrame {
    pub full_frame: Range<usize>,
    pub frame_contents: Range<usize>,
}

impl Clone for FoundFrame {
    fn clone(&self) -> (r: Self)
        ensures
            r == *self,
    {
        FoundFrame {
            full_frame: Range { start: self.full_frame.start, end: self.full_frame.end },
            frame_contents: Range { start: self.frame_contents.start, end: self.frame_contents.end },
        }
    }
}

/// The bytes of `data` in `start..end` XORed with the key stream (the
/// stream starting at `start`); the rest unchanged.
pub open spec fn deobfuscated_range(data: Seq<u8>, start: int, end: int) -> Seq<u8> {
    Seq::new(
        data.len(),
        |i: int|
            if start <= i < end {
                data[i] ^ key_byte(i - start)
            } else {
                data[i]
            },
    )
}

/// Where a frame search starting at `p` ends: the number of bytes
/// consumed, and, when a frame was found, the index of its start marker
/// and the index just past its CRC.
///
/// A start marker whose length is too large, or that is not followed by
/// an end marker after the body and CRC, is a false start: the search
/// resumes just after that start marker. A frame that may still be
/// completed by more data consumes only the bytes before its start marker.
pub open spec fn frame_search(data: Seq<u8>, p: int) -> (int, Option<(int, int)>)
    decreases data.len() - p,
{
    if p < 0 || p > data.len() || data.len() > usize::MAX {
        (data.len() as int, None)
    } else {
        match scan(data, frame_start_seq(), p, 0) {
            MatchResult::NotMatched => (data.len() as int, None),
            MatchResult::Incomplete(s) => (s as int, None),
            MatchResult::Matched(r) => {
                let s = r.start as int;
                proof {
                    lemma_scan_bounds(data, frame_start_seq(), p, 0);
                }
                if s + 4 > data.len() {
                    (s, None)
                } else if le_u16_at(data, s + 2) > MAX_BODY_LEN {
                    frame_search(data, s + 2)
                } else {
                    let crc_end = s + 4 + le_u16_at(data, s + 2) + 2;
                    if crc_end > data.len() {
                        (s, None)
                    } else {
                        match anchored(data, frame_end_seq(), crc_end, 0, crc_end) {
                            MatchResult::Matched(_) => (crc_end + 2, Some((s, crc_end))),
                            MatchResult::NotMatched => frame_search(data, s + 2),
                            MatchResult::Incomplete(_) => (s, None),
                        }
                    }
                }
            },
        }
    }
}

/// Where a frame search lands: it consumes no more than the data, and a
/// frame it finds ends where the consumed data ends, with room for the
/// start marker and length before its contents.
pub proof fn lemma_frame_search_bounds(data: Seq<u8>, p: int)
    requires
        0 <= p,
    ensures
        ({
            let (n, f) = frame_search(data, p);
            &&& 0 <= n <= data.len()
            &&& f matches Some((s, e)) ==> 0 <= s && s + 4 <= e && e + 2 == n
        }),
    decreases data.len() - p,
{
    if p > data.len() || data.len() > usize::MAX {
    } else {
        lemma_scan_bounds(data, frame_start_seq(), p, 0);
        match scan(data, frame_start_seq(), p, 0) {
            MatchResult::Matched(r) => {
                let s = r.start as int;
                if s + 4 > data.len() {
                } else if le_u16_at(data, s + 2) > MAX_BODY_LEN {
                    lemma_frame_search_bounds(data, s + 2);
                } else {
                    let crc_end = s + 4 + le_u16_at(data, s + 2) + 2;
                    if crc_end <= data.len() {
                        reveal_with_fuel(anchored, 3);
                        match anchored(data, frame_end_seq(), crc_end, 0, crc_end) {
                            MatchResult::NotMatched => lemma_frame_search_bounds(data, s + 2),
                            _ => {},
                        }
                    }
                }
            },
            _ => {},
        }
    }
}

/// Whether a frame start marker (`ab cd`) stands at `i`.
pub open spec fn start_marker_at(data: Seq<u8>, i: int) -> bool {
    0 <= i && i + 1 < data.len() && data[i] == 0xab && data[i + 1] == 0xcd
}

/// The body length announced by a frame starting at `i`: the
/// little-endian 16-bit number after its start marker.
pub open spec fn announced_len(data: Seq<u8>, i: int) -> int {
    data[i + 2] as int + 256 * (data[i + 3] as int)
}

/// Where the end marker of a frame starting at `i` belongs: after the
/// start marker, the length, the announced body and the two CRC bytes.
pub open spec fn end_marker_index(data: Seq<u8>, i: int) -> int {
    i + 4 + announced_len(data, i) + 2
}

/// Whether a whole frame stands at `i`: a start marker, a length that is
/// not too large, the body and CRC, and the end marker (`dc ba`) right
/// after them.
pub open spec fn whole_frame_at(data: Seq<u8>, i: int) -> bool {
    let e = end_marker_index(data, i);
    &&& start_marker_at(data, i)
    &&& i + 4 <= data.len()
    &&& announced_len(data, i) <= MAX_BODY_LEN
    &&& e + 2 <= data.len()
    &&& data[e] == 0xdc
    &&& data[e + 1] == 0xba
}

/// Whether the start marker at `i` is one that the data already shows to
/// be false: the length it announces is too large, or a byte where its
/// end marker belongs is there and is not that byte of the end marker.
pub open spec fn false_start_at(data: Seq<u8>, i: int) -> bool {
    let e = end_marker_index(data, i);
    &&& start_marker_at(data, i)
    &&& i + 4 <= data.len()
    &&& (announced_len(data, i) > MAX_BODY_LEN || (e < data.len() && data[e] != 0xdc) || (e + 1
        < data.len() && data[e + 1] != 0xba))
}

proof fn lemma_le_u16_value(s: Seq<u8>, i: int)
    requires
        0 <= i,
        i + 1 < s.len(),
    ensures
        le_u16_at(s, i) as int == s[i] as int + 256 * (s[i + 1] as int),
{
    let a = s[i];
    let b = s[i + 1];
    assert(((a as u16) | ((b as u16) << 8u16)) == (a as u16) + 256u16 * (b as u16)) by (bit_vector);
    assert((a as u16) + 256u16 * (b as u16) == a as int + 256 * (b as int)) by (nonlinear_arith)
        requires
            a <= 255,
            b <= 255,
    ;
}

proof fn lemma_frame_search_reaches(data: Seq<u8>, p: int, j: int)
    requires
        data.len() <= usize::MAX,
        0 <= p <= j,
        whole_frame_at(data, j),
        forall|i: int| 0 <= i < j && start_marker_at(data, i) ==> false_start_at(data, i),
    ensures
        ({
            let e = end_marker_index(data, j);
            frame_search(data, p) == (e + 2, Some((j, e)))
        }),
    decreases j - p,
{
    let needle = frame_start_seq();
    law_marker_scan_finds_first(data, needle, p, 0);
    lemma_scan_bounds(data, needle, p, 0);
    assert(occurs_at(data, needle, j));
    let r = scan(data, needle, p, 0);
    let s = scan_first(data, r);
    assert(r is Matched);
    assert(s <= j);
    assert(start_marker_at(data, s));
    lemma_le_u16_value(data, s + 2);
    reveal_with_fuel(anchored, 3);
    if s < j {
        assert(false_start_at(data, s));
        assert(s + 2 <= j) by {
            if s + 1 == j {
                assert(data[s + 1] == 0xcd);
            }
        }
        lemma_frame_search_reaches(data, s + 2, j);
    }
}

/// The frame search finds the first whole frame: when a whole frame
/// starts at `j`, and every start marker before it is one that the data
/// already shows to be false, the search from the start consumes the data
/// up to the end of that frame and reports it. A false start thus costs
/// only its own start marker, never a frame that follows it.
pub proof fn law_frame_search_finds_first_whole_frame(data: Seq<u8>, j: int)
    requires
        data.len() <= usize::MAX,
        whole_frame_at(data, j),
        forall|i: int| 0 <= i < j && start_marker_at(data, i) ==> false_start_at(data, i),
    ensures
        ({
            let e = end_marker_index(data, j);
            frame_search(data, 0) == (e + 2, Some((j, e)))
        }),
{
    lemma_frame_search_reaches(data, 0, j);
}

proof fn lemma_frame_search_outcome(data: Seq<u8>, p: int)
    requires
        data.len() <= usize::MAX,
        0 <= p <= data.len(),
    ensures
        ({
            let (n, f) = frame_search(data, p);
            let first = match f {
                Some((s, e)) => s,
                None => n,
            };
            &&& p <= first
            &&& forall|i: int|
                p <= i < first && #[trigger] start_marker_at(data, i) ==> false_start_at(data, i)
            &&& f matches Some((s, e)) ==> whole_frame_at(data, s) && e == end_marker_index(data, s)
                && n == e + 2
            &&& f is None && n < data.len() ==> data[n] == 0xab && (n + 1 == data.len() || (
            start_marker_at(data, n) && !whole_frame_at(data, n) && !false_start_at(data, n)))
        }),
    decreases data.len() - p,
{
    let needle = frame_start_seq();
    law_marker_scan_finds_first(data, needle, p, 0);
    lemma_scan_bounds(data, needle, p, 0);
    let r = scan(data, needle, p, 0);
    assert forall|i: int| p <= i < scan_first(data, r) implies !start_marker_at(data, i) by {
        if start_marker_at(data, i) {
            assert(occurs_at(data, needle, i));
        }
    }
    if r is NotMatched {
        assert forall|i: int| p <= i implies !start_marker_at(data, i) by {
            if start_marker_at(data, i) {
                assert(occurs_at(data, needle, i));
            }
        }
    }
    match r {
        MatchResult::Matched(range) => {
            let s = range.start as int;
            assert(start_marker_at(data, s));
            if s + 4 <= data.len() {
                lemma_le_u16_value(data, s + 2);
                reveal_with_fuel(anchored, 3);
                let crc_end = s + 4 + le_u16_at(data, s + 2) + 2;
                if le_u16_at(data, s + 2) > MAX_BODY_LEN || (crc_end <= data.len() && anchored(
                    data,
                    frame_end_seq(),
                    crc_end,
                    0,
                    crc_end,
                ) is NotMatched) {
                    lemma_frame_search_outcome(data, s + 2);
                    assert(!start_marker_at(data, s + 1));
                }
            }
        },
        _ => {},
    }
}

/// What a frame search reports, in terms of the frames in the data. Every
/// start marker before what it reports is a false start that the data
/// already shows. When it finds a frame, a whole frame stands there and
/// the search consumes the data up to its end. When it finds none, it
/// consumes all the data but what may still begin a frame: a last byte
/// that is the first of a start marker, or a start marker whose frame is
/// neither whole nor shown false by the data so far.
pub proof fn law_frame_search_outcome(data: Seq<u8>)
    requires
        data.len() <= usize::MAX,
    ensures
        ({
            let (n, f) = frame_search(data, 0);
            let first = match f {
                Some((s, e)) => s,
                None => n,
            };
            &&& forall|i: int|
                0 <= i < first && #[trigger] start_marker_at(data, i) ==> false_start_at(data, i)
            &&& f matches Some((s, e)) ==> whole_frame_at(data, s) && e == end_marker_index(data, s)
                && n == e + 2
            &&& f is None && n < data.len() ==> data[n] == 0xab && (n + 1 == data.len() || (
            start_marker_at(data, n) && !whole_frame_at(data, n) && !false_start_at(data, n)))
        }),
{
    lemma_frame_search_outcome(data, 0);
}

/// XOR `data[start..end]` with the key stream, in place.
pub fn deobfuscate_range(data: &mut [u8], start: usize, end: usize)
    requires
        start <= end <= old(data)@.len(),
    ensures
        final(data)@ == deobfuscated_range(old(data)@, start as int, end as int),
{
    let ghost orig = data@;
    let mut key = Key::new();
    let mut i = start;
    while i < end
        invariant
            start <= i <= end <= data@.len(),
            data@.len() == orig.len(),
            key.wf(),
            key.pos() == (i - start) % 16,
            forall|j: int|
                0 <= j < data@.len() ==> #[trigger] data@[j] == (if start <= j < i {
                    orig[j] ^ key_byte(j - start)
                } else {
                    orig[j]
                }),
        decreases end - i,
    {
        let b = data[i];
        let v = key.apply(b);
        data[i] = v;
        assert(key_byte((i - start) % 16) == key_byte(i - start));
        i += 1;
    }
    assert(data@ =~= deobfuscated_range(orig, start as int, end as int));
}

/// Find a frame, and deobfuscate the contents.
///
/// Returns the number of consumed bytes and None if it only skipped
/// data and found no complete frames.
///
/// If a frame is found, return the range for the full frame, and a
/// range for the deobfuscated contents (body and CRC).
pub fn find_frame(input: &mut [u8]) -> (r: (usize, Option<FoundFrame>))
    ensures
        ({
            let (n, f) = frame_search(old(input)@, 0);
            &&& r.0 == n
            &&& match f {
                None => r.1 is None && final(input)@ == old(input)@,
                Some((s, e)) => {
                    &&& r.1 == Some(
                        FoundFrame {
                            full_frame: Range { start: s as usize, end: (e + 2) as usize },
                            frame_contents: Range { start: (s + 4) as usize, end: e as usize },
                        },
                    )
                    &&& final(input)@ == deobfuscated_range(old(input)@, s + 4, e)
                },
            }
        }),
{
    let ghost data = input@;
    let total = input.len();
    let mut p: usize = 0;
    loop
        invariant
            p <= input@.len(),
            total == data.len(),
            data == old(input)@,
            input@ == data,
            frame_search(data, p as int) == frame_search(data, 0),
        decreases input@.len() - p,
    {
        let mut start_matcher = Matcher::new(&FRAME_START);
        assert(start_matcher.needle@ == frame_start_seq());
        let res = start_matcher.search(input, p);
        proof {
            lemma_scan_bounds(data, frame_start_seq(), p as int, 0);
        }
        match res {
            MatchResult::NotMatched => {
                // there is no FRAME_START, anywhere
                return (input.len(), None);
            },
            MatchResult::Incomplete(i) => {
                // there might be a FRAME_START here later
                return (i, None);
            },
            MatchResult::Matched(start) => {
                let s = start.start;
                // now there is a little-endian u16 length
                let length = match read_le_u16(input, start.end) {
                    Some(l) => l,
                    None => {
                        // not enough data yet, consume up to FRAME_START
                        return (s, None);
                    },
                };
                // make sure our length makes sense
                if length as usize > MAX_BODY_LEN {
                    // this is too big, so this is a false frame
                    // skip past FRAME_START and try again.
                    p = s + 2;
                    continue ;
                }
                let body_start = start.end + 2;
                // now there is length bytes, then a 2-byte crc
                if input.len() - body_start < length as usize + 2 {
                    // not enough data yet, consume up to FRAME_START
                    return (s, None);
                }
                let crc_end = body_start + length as usize + 2;
                // search for FRAME_END
                let mut end_matcher = Matcher::new(&FRAME_END);
                assert(end_matcher.needle@ == frame_end_seq());
                let end_res = end_matcher.match_(crc_end, input, crc_end);
                proof {
                    reveal_with_fuel(anchored, 3);
                }
                match end_res {
                    MatchResult::Matched(end) => {
                        assert(end.end == crc_end + 2);
                        // we have a frame from start.start to end.end
                        // the body + crc is inside body_start to crc_end
                        deobfuscate_range(input, body_start, crc_end);
                        return (
                            end.end,
                            Some(
                                FoundFrame {
                                    full_frame: Range { start: s, end: end.end },
                                    frame_contents: Range { start: body_start, end: crc_end },
                                },
                            ),
                        );
                    },
                    MatchResult::NotMatched => {
                        // FRAME_END should be here but is not. This is a false start.
                        p = s + 2;
                        continue ;
                    },
                    MatchResult::Incomplete(_) => {
                        // not enough data yet, consume up to FRAME_START
                        return (s, None);
                    },
                }
            },
        }
    }
}

} // verus!

verus! {

/// A possible result from [parse_frame_with()].
#[derive(Debug, PartialEq, Eq, Hash)]
pub enum ParseResult<I, O> {
    /// Frame parse result, alongside range where whole frame was located.
    Parsed(Range<usize>, O),
    /// Range for full frame, and the frame body without CRC that did not parse.
    ParseErr(Range<usize>, I),
    /// CRC check failed, with range for full frame and the whole frame
    /// body as received, including CRC.
    CrcErr(Range<usize>, I),
    /// Only non-frame input was consumed.
    NoFrame,
}

impl<I, O> ParseResult<I, O> {
    /// The parsed message, if there is one.
    pub fn ok(self) -> (r: Option<O>)
        ensures
            r == (match self {
                ParseResult::Parsed(_, o) => Some(o),
                _ => None::<O>,
            }),
    {
        match self {
            ParseResult::Parsed(_, o) => Some(o),
            ParseResult::ParseErr(_, _) => None,
            ParseResult::CrcErr(_, _) => None,
            ParseResult::NoFrame => None,
        }
    }

    /// Where the frame was found, if one was.
    pub fn range(&self) -> (r: Option<&Range<usize>>)
        ensures
            r == (match self {
                ParseResult::Parsed(r, _) => Some(r),
                ParseResult::ParseErr(r, _) => Some(r),
                ParseResult::CrcErr(r, _) => Some(r),
                ParseResult::NoFrame => None::<&Range<usize>>,
            }),
    {
        match self {
            ParseResult::Parsed(r, _) => Some(r),
            ParseResult::ParseErr(r, _) => Some(r),
            ParseResult::CrcErr(r, _) => Some(r),
            ParseResult::NoFrame => None,
        }
    }

    /// Apply `f` to the parsed message, if there is one.
    pub fn map<F, Op>(self, f: F) -> (r: ParseResult<I, Op>)
        where
            F: FnOnce(O) -> Op,
        requires
            self matches ParseResult::Parsed(_, o) ==> call_requires(f, (o,)),
        ensures
            match self {
                ParseResult::Parsed(range, o) => r matches ParseResult::Parsed(range2, o2) && range2
                    == range && call_ensures(f, (o,), o2),
                ParseResult::ParseErr(range, i) => r == ParseResult::<I, Op>::ParseErr(range, i),
                ParseResult::CrcErr(range, i) => r == ParseResult::<I, Op>::CrcErr(range, i),
                ParseResult::NoFrame => r == ParseResult::<I, Op>::NoFrame,
            },
    {
        match self {
            ParseResult::Parsed(r, o) => ParseResult::Parsed(r, f(o)),
            ParseResult::ParseErr(r, frame) => ParseResult::ParseErr(r, frame),
            ParseResult::CrcErr(r, frame) => ParseResult::CrcErr(r, frame),
            ParseResult::NoFrame => ParseResult::NoFrame,
        }
    }
}

/// The body (without the trailing CRC) of a frame body whose
/// little-endian u16 CRC is accepted by `crc`, if it is.
pub open spec fn spec_check_crc<C: CrcStyle>(crc: C, data: Seq<u8>) -> Option<Seq<u8>> {
    if data.len() < 2 {
        None
    } else {
        let body = data.subrange(0, data.len() - 2);
        if crc.spec_validate(crc.spec_crc(body), le_u16_at(data, data.len() - 2)) {
            Some(body)
        } else {
            None
        }
    }
}

/// Check the little-endian u16 CRC at the end of a frame body.
///
/// Return the body (without CRC) on success.
pub fn check_crc<'a, C: CrcStyle>(crc: &C, input: &'a [u8]) -> (r: Option<&'a [u8]>)
    ensures
        match spec_check_crc(*crc, input@) {
            None => r is None,
            Some(body) => r matches Some(b) && b@ == body,
        },
{
    if input.len() < 2 {
        return None;
    }
    let n = input.len() - 2;
    let prefix = vstd::slice::slice_subrange(input, 0, n);
    let mut digest = crc.digest();
    digest.update(prefix);
    let calculated = digest.finalize();
    assert(prefix@ + Seq::<u8>::empty() =~= prefix@);
    let provided = get_le_u16(input, n);
    if crc.validate(calculated, provided) {
        Some(prefix)
    } else {
        None
    }
}

} // verus!

verus! {

/// The view of an optional value.
pub open spec fn opt_view<T: View>(o: Option<T>) -> Option<T::V> {
    match o {
        Some(t) => Some(t@),
        None => None,
    }
}

/// A trait for parseable messages.
pub trait MessageParse<'a>: Sized + View {
    /// The message that a body of type `typ` parses as, if any.
    spec fn spec_parse_body(typ: u16, body: Seq<u8>) -> Option<Self::V>;

    /// Parse the body of a message, given the message type. The whole
    /// body must be used.
    fn parse_body(typ: u16, body: &'a [u8]) -> (r: Option<Self>)
        ensures
            opt_view(r) == Self::spec_parse_body(typ, body@),
    ;
}

/// The message held in a frame body: a little-endian u16 type and u16
/// length, then a message body of that length. Bytes after the message
/// body are ignored.
pub open spec fn spec_parse_frame_body<'a, M: MessageParse<'a>>(input: Seq<u8>) -> Option<M::V> {
    if input.len() < 4 {
        None
    } else {
        let typ = le_u16_at(input, 0);
        let len = le_u16_at(input, 2);
        if len > input.len() - 4 {
            None
        } else {
            M::spec_parse_body(typ, input.subrange(4, 4 + len))
        }
    }
}

/// Parse an entire message, including type and length header.
pub fn parse_frame_body<'a, M: MessageParse<'a>>(input: &'a [u8]) -> (r: Option<M>)
    ensures
        opt_view(r) == spec_parse_frame_body::<M>(input@),
{
    if input.len() < 4 {
        return None;
    }
    let typ = get_le_u16(input, 0);
    let len = get_le_u16(input, 2) as usize;
    if len > input.len() - 4 {
        return None;
    }
    M::parse_body(typ, vstd::slice::slice_subrange(input, 4, 4 + len))
}

/// What parsing the frame `found` in `input`, checked by `crc`, gives:
/// [ParseResult::NoFrame] without a frame, [ParseResult::CrcErr] with the
/// frame contents when the checksum is refused, else [ParseResult::Parsed]
/// with the message when the frame body parses as one, or
/// [ParseResult::ParseErr] with the frame body when it does not.
pub open spec fn parse_outcome<'a, C: CrcStyle, M: MessageParse<'a>>(
    crc: C,
    input: Seq<u8>,
    found: Option<FoundFrame>,
    r: ParseResult<&'a [u8], M>,
) -> bool {
    match found {
        None => r == ParseResult::<&'a [u8], M>::NoFrame,
        Some(f) => {
            let content = input.subrange(f.frame_contents.start as int, f.frame_contents.end as int);
            match spec_check_crc(crc, content) {
                None => r matches ParseResult::CrcErr(range, c) && range == f.full_frame && c@
                    == content,
                Some(body) => match spec_parse_frame_body::<M>(body) {
                    Some(m) => r matches ParseResult::Parsed(range, msg) && range == f.full_frame
                        && msg@ == m,
                    None => r matches ParseResult::ParseErr(range, b) && range == f.full_frame
                        && b@ == body,
                },
            }
        },
    }
}

/// Parse a found frame as a message of type `M`.
///
/// Returns [ParseResult::Parsed] on successful parse,
/// [ParseResult::ParseErr] if the body did not parse,
/// [ParseResult::CrcErr] if the checksum was wrong, and
/// [ParseResult::NoFrame] if no frame was found.
pub fn parse_frame_with<'a, C: CrcStyle, M: MessageParse<'a>>(
    crc: &C,
    input: &'a [u8],
    found: &Option<FoundFrame>,
) -> (r: ParseResult<&'a [u8], M>)
    requires
        found matches Some(f) ==> f.frame_contents.start <= f.frame_contents.end <= input@.len(),
    ensures
        parse_outcome(*crc, input@, *found, r),
{
    let found = match found {
        Some(f) => f,
        None => return ParseResult::NoFrame,
    };
    let content = vstd::slice::slice_subrange(
        input,
        found.frame_contents.start,
        found.frame_contents.end,
    );
    let full = Range { start: found.full_frame.start, end: found.full_frame.end };
    match check_crc(crc, content) {
        Some(body) => match parse_frame_body::<M>(body) {
            Some(m) => ParseResult::Parsed(full, m),
            None => ParseResult::ParseErr(full, body),
        },
        None => ParseResult::CrcErr(full, content),
    }
}

} // verus!
