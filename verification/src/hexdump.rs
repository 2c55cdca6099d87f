//! Hex dumps: lines of bytes with their address, hex digits and printable
//! text, with runs of repeated lines collapsed into a `*`.
use vstd::prelude::*;

use crate::text::bytes_eq;

verus! {

/// The character a byte stands for when it is printable ASCII.
pub open spec fn spec_printable(chr: u8) -> Option<char> {
    if 0x20 <= chr && chr < 0x7f {
        Some(chr as char)
    } else {
        None
    }
}

/// The printable ASCII character of a byte, if it has one.
pub fn printable(chr: u8) -> (r: Option<char>)
    ensures
        r == spec_printable(chr),
{
    if 0x20 <= chr && chr < 0x7f {
        Some(chr as char)
    } else {
        None
    }
}

/// The lower-case hex digit for `n` (below 16), as an ASCII byte.
pub open spec fn hex_digit(n: int) -> u8 {
    if n < 10 {
        (0x30 + n) as u8
    } else {
        (0x61 + n - 10) as u8
    }
}

/// A byte as two lower-case hex digits.
pub open spec fn hex2(b: u8) -> Seq<u8> {
    seq![hex_digit((b / 16) as int), hex_digit((b % 16) as int)]
}

/// A 16-bit address as four lower-case hex digits.
pub open spec fn hex4(a: u16) -> Seq<u8> {
    seq![
        hex_digit(((a / 4096) % 16) as int),
        hex_digit(((a / 256) % 16) as int),
        hex_digit(((a / 16) % 16) as int),
        hex_digit((a % 16) as int),
    ]
}

/// How a byte shows in the text column: itself when printable, else `.`.
pub open spec fn text_byte(b: u8) -> u8 {
    if 0x20 <= b && b < 0x7f {
        b
    } else {
        0x2e
    }
}

/// The text column of a line.
pub open spec fn text_column(data: Seq<u8>) -> Seq<u8> {
    Seq::new(data.len(), |i: int| text_byte(data[i]))
}

/// Hex column `i` of a line: an extra space before each group of eight,
/// then the byte in hex after a space, or three spaces past the data.
pub open spec fn hex_cell(data: Seq<u8>, i: int) -> Seq<u8> {
    (if i % 8 == 0 {
        seq![0x20u8]
    } else {
        Seq::empty()
    }) + (if i < data.len() {
        seq![0x20u8] + hex2(data[i])
    } else {
        seq![0x20u8, 0x20u8, 0x20u8]
    })
}

/// The first `n` hex columns of a line.
pub open spec fn hex_cells(data: Seq<u8>, n: int) -> Seq<u8>
    decreases n,
{
    if n <= 0 {
        Seq::empty()
    } else {
        hex_cells(data, n - 1) + hex_cell(data, n - 1)
    }
}

/// A whole line of a hex dump `width` bytes wide, after its address: the
/// hex columns, then the text between bars; nothing for an empty line.
pub open spec fn line_text(addr: Seq<u8>, data: Seq<u8>, width: int) -> Seq<u8> {
    if data.len() == 0 {
        addr
    } else {
        addr + hex_cells(data, width) + seq![0x20u8, 0x20u8, 0x7cu8] + text_column(data) + seq![
            0x7cu8,
        ]
    }
}

/// The hex digit for `n`.
fn push_hex_digit(out: &mut Vec<u8>, n: u8)
    requires
        n < 16,
    ensures
        final(out)@ == old(out)@.push(hex_digit(n as int)),
{
    if n < 10 {
        out.push(0x30 + n);
    } else {
        out.push(0x61 + n - 10);
    }
}

/// Addresses that can be written at the start of a dump line.
pub trait FormatAddr {
    /// The text of the address.
    spec fn addr_text(&self) -> Seq<u8>;

    /// Append the text of the address.
    fn format_addr(&self, out: &mut Vec<u8>)
        ensures
            final(out)@ == old(out)@ + self.addr_text(),
    ;
}

impl FormatAddr for u16 {
    open spec fn addr_text(&self) -> Seq<u8> {
        hex4(*self)
    }

    fn format_addr(&self, out: &mut Vec<u8>) {
        let a = *self;
        push_hex_digit(out, ((a / 4096) % 16) as u8);
        push_hex_digit(out, ((a / 256) % 16) as u8);
        push_hex_digit(out, ((a / 16) % 16) as u8);
        push_hex_digit(out, (a % 16) as u8);
        assert(final(out)@ =~= old(out)@ + hex4(a));
    }
}

/// Append two hex digits for a byte.
fn push_hex2(out: &mut Vec<u8>, b: u8)
    ensures
        final(out)@ == old(out)@ + hex2(b),
{
    push_hex_digit(out, b / 16);
    push_hex_digit(out, b % 16);
    assert(final(out)@ =~= old(out)@ + hex2(b));
}

/// One line of a hex dump: an address and the bytes shown on it.
#[derive(Debug, Clone, PartialEq, Eq, PartialOrd, Ord, Hash)]
pub struct Line<'a, A, const WIDTH: usize> {
    address: A,
    data: &'a [u8],
}

impl<'a, A, const WIDTH: usize> View for Line<'a, A, WIDTH> {
    type V = (A, Seq<u8>);

    closed spec fn view(&self) -> (A, Seq<u8>) {
        (self.address, self.data@)
    }
}

impl<'a, A, const WIDTH: usize> Line<'a, A, WIDTH> {
    /// The address of the first byte on the line.
    pub fn address(&self) -> (a: &A)
        ensures
            *a == self@.0,
    {
        &self.address
    }

    /// The bytes on the line.
    pub fn data(&self) -> (d: &'a [u8])
        ensures
            d@ == self@.1,
    {
        self.data
    }

    /// The text of the line, as ASCII bytes.
    pub fn render(&self) -> (r: Vec<u8>)
        where
            A: FormatAddr,
        ensures
            r@ == line_text(self@.0.addr_text(), self@.1, WIDTH as int),
    {
        let mut out: Vec<u8> = Vec::new();
        self.address.format_addr(&mut out);
        if self.data.len() == 0 {
            return out;
        }
        let ghost head = out@;
        let mut i: usize = 0;
        while i < WIDTH
            invariant
                i <= WIDTH,
                out@ == head + hex_cells(self.data@, i as int),
            decreases WIDTH - i,
        {
            if i % 8 == 0 {
                out.push(0x20);
            }
            if i < self.data.len() {
                out.push(0x20);
                push_hex2(&mut out, self.data[i]);
            } else {
                out.push(0x20);
                out.push(0x20);
                out.push(0x20);
            }
            assert(out@ =~= head + hex_cells(self.data@, i + 1));
            i = i + 1;
        }
        out.push(0x20);
        out.push(0x20);
        out.push(0x7c);
        let ghost mid = out@;
        let mut j: usize = 0;
        while j < self.data.len()
            invariant
                j <= self.data@.len(),
                out@ == mid + text_column(self.data@.subrange(0, j as int)),
            decreases self.data@.len() - j,
        {
            let b = self.data[j];
            match printable(b) {
                Some(_) => out.push(b),
                None => out.push(0x2e),
            }
            assert(out@ =~= mid + text_column(self.data@.subrange(0, j + 1)));
            j = j + 1;
        }
        out.push(0x7c);
        assert(self.data@.subrange(0, self.data@.len() as int) =~= self.data@);
        assert(out@ =~= line_text(self.address.addr_text(), self.data@, WIDTH as int));
        out
    }
}

/// A line of a deduplicated hex dump.
#[derive(Debug, Clone, PartialEq, Eq, PartialOrd, Ord, Hash)]
pub enum DedupLine<'a, A, const WIDTH: usize> {
    /// A line to show.
    Data(Line<'a, A, WIDTH>),
    /// A run of lines equal to the last one shown.
    Duplicate,
}

impl<'a, A, const WIDTH: usize> View for DedupLine<'a, A, WIDTH> {
    /// The line shown, or `None` for a run of duplicates.
    type V = Option<(A, Seq<u8>)>;

    open spec fn view(&self) -> Option<(A, Seq<u8>)> {
        match self {
            DedupLine::Data(l) => Some(l@),
            DedupLine::Duplicate => None,
        }
    }
}

/// The text for a run of duplicate lines.
pub open spec fn duplicate_text() -> Seq<u8> {
    seq![0x2au8]
}

impl<'a, A, const WIDTH: usize> DedupLine<'a, A, WIDTH> {
    /// The text of the line, as ASCII bytes.
    pub fn render(&self) -> (r: Vec<u8>)
        where
            A: FormatAddr,
        ensures
            r@ == match self@ {
                Some((a, d)) => line_text(a.addr_text(), d, WIDTH as int),
                None => duplicate_text(),
            },
    {
        match self {
            DedupLine::Data(line) => line.render(),
            DedupLine::Duplicate => {
                let mut out: Vec<u8> = Vec::new();
                out.push(0x2a);
                assert(out@ =~= duplicate_text());
                out
            },
        }
    }
}

/// Where a line starting at `start` ends: `width` bytes on, or at the end
/// of the data.
pub open spec fn line_end(len: int, start: int, width: int) -> int {
    if start + width < len {
        start + width
    } else {
        len
    }
}

/// The next line of a dump of `data` from position `next`: the bytes from
/// there, up to `width` of them, and once the data is used up, a single
/// empty line whose address is the length of the data.
pub open spec fn next_line(data: Seq<u8>, next: int, endline: bool, width: int) -> Option<
    (u16, Seq<u8>),
> {
    if next >= data.len() {
        if endline {
            None
        } else {
            Some((next as u16, Seq::empty()))
        }
    } else {
        Some((next as u16, data.subrange(next, line_end(data.len() as int, next, width))))
    }
}

/// The position and end-line flag after taking the next line.
pub open spec fn after_line(data: Seq<u8>, next: int, endline: bool, width: int) -> (int, bool) {
    if next >= data.len() {
        (next, true)
    } else {
        (line_end(data.len() as int, next, width), endline)
    }
}

/// An iterator over the lines of a hex dump, `WIDTH` bytes each.
#[derive(Debug, PartialEq, Eq, PartialOrd, Ord, Hash)]
pub struct LineIter<'a, const WIDTH: usize> {
    data: &'a [u8],
    next: usize,
    endline: bool,
}

impl<'a, const WIDTH: usize> Clone for LineIter<'a, WIDTH> {
    fn clone(&self) -> (r: Self)
        ensures
            r == *self,
    {
        proof {
            use_type_invariant(self);
        }
        LineIter { data: self.data, next: self.next, endline: self.endline }
    }
}

impl<'a, const WIDTH: usize> LineIter<'a, WIDTH> {
    #[verifier::type_invariant]
    spec fn positioned(&self) -> bool {
        &&& self.next <= self.data@.len()
        &&& self.data@.len() <= u16::MAX
    }

    /// The data being dumped.
    pub closed spec fn spec_data(&self) -> Seq<u8> {
        self.data@
    }

    /// Where the next line starts.
    pub closed spec fn spec_next(&self) -> int {
        self.next as int
    }

    /// Whether the final empty line was given.
    pub closed spec fn spec_endline(&self) -> bool {
        self.endline
    }

    /// Lines of `data`, from its start. Every address, the length of the
    /// data included, must fit in 16 bits.
    pub fn new(data: &'a [u8]) -> (it: Self)
        requires
            data@.len() <= u16::MAX,
        ensures
            it.spec_data() == data@,
            it.spec_next() == 0,
            !it.spec_endline(),
    {
        LineIter { data, next: 0, endline: false }
    }

    /// The next line, if any.
    pub fn next(&mut self) -> (r: Option<Line<'a, u16, WIDTH>>)
        ensures
            match r {
                Some(l) => next_line(
                    old(self).spec_data(),
                    old(self).spec_next(),
                    old(self).spec_endline(),
                    WIDTH as int,
                ) == Some(l@),
                None => next_line(
                    old(self).spec_data(),
                    old(self).spec_next(),
                    old(self).spec_endline(),
                    WIDTH as int,
                ) is None,
            },
            final(self).spec_data() == old(self).spec_data(),
            (final(self).spec_next(), final(self).spec_endline()) == after_line(
                old(self).spec_data(),
                old(self).spec_next(),
                old(self).spec_endline(),
                WIDTH as int,
            ),
            final(self).spec_next() <= final(self).spec_data().len() <= u16::MAX,
    {
        proof {
            use_type_invariant(&*self);
        }
        let start = self.next;
        if start >= self.data.len() {
            if self.endline {
                None
            } else {
                self.endline = true;
                Some(Line { address: start as u16, data: vstd::slice::slice_subrange(self.data, 0, 0) })
            }
        } else {
            let end = if WIDTH < self.data.len() - start {
                start + WIDTH
            } else {
                self.data.len()
            };
            let part = vstd::slice::slice_subrange(self.data, start, end);
            self.next = end;
            Some(Line { address: start as u16, data: part })
        }
    }
}

/// Every line of a dump of `data` from position `next`, in order, as the
/// iterator gives them: the bytes in `width`-sized pieces, then the empty
/// line at the end.
pub open spec fn lines_from(data: Seq<u8>, width: int, next: int, endline: bool) -> Seq<
    (u16, Seq<u8>),
>
    decreases lines_left(data.len() as int, next, endline),
    when 0 <= next <= data.len() && width > 0
{
    match next_line(data, next, endline, width) {
        None => Seq::empty(),
        Some(line) => {
            let (n2, e2) = after_line(data, next, endline, width);
            seq![line] + lines_from(data, width, n2, e2)
        },
    }
}

/// The bytes of a run of lines, one after the other.
pub open spec fn line_bytes(lines: Seq<(u16, Seq<u8>)>) -> Seq<u8>
    decreases lines.len(),
{
    if lines.len() == 0 {
        Seq::empty()
    } else {
        lines[0].1 + line_bytes(lines.drop_first())
    }
}

proof fn lemma_lines_from_cover(data: Seq<u8>, width: int, next: int, endline: bool)
    requires
        0 <= next <= data.len() <= u16::MAX,
        width > 0,
        endline ==> next == data.len(),
    ensures
        ({
            let ls = lines_from(data, width, next, endline);
            &&& line_bytes(ls) == data.subrange(next, data.len() as int)
            &&& endline ==> ls.len() == 0
            &&& !endline ==> ls.len() > 0 && ls[0].0 == next && ls.last() == (
                data.len() as u16,
                Seq::<u8>::empty(),
            )
            &&& forall|i: int|
                0 <= i < ls.len() ==> #[trigger] ls[i].1.len() <= width
            &&& forall|i: int|
                0 <= i < ls.len() - 1 ==> #[trigger] ls[i + 1].0 == ls[i].0 + ls[i].1.len()
        }),
    decreases lines_left(data.len() as int, next, endline),
{
    let ls = lines_from(data, width, next, endline);
    if next >= data.len() {
        if !endline {
            let rest = lines_from(data, width, next, true);
            assert(rest.len() == 0);
            assert(ls =~= seq![(next as u16, Seq::<u8>::empty())]);
            assert(line_bytes(ls.drop_first()) == Seq::<u8>::empty());
            assert(line_bytes(ls) =~= data.subrange(next, data.len() as int));
        } else {
            assert(data.subrange(next, data.len() as int) =~= Seq::<u8>::empty());
        }
    } else {
        let end = line_end(data.len() as int, next, width);
        let line = (next as u16, data.subrange(next, end));
        let rest = lines_from(data, width, end, endline);
        lemma_lines_from_cover(data, width, end, endline);
        assert(ls =~= seq![line] + rest);
        assert(ls.drop_first() =~= rest);
        assert(line_bytes(ls) == line.1 + line_bytes(rest));
        assert(data.subrange(next, data.len() as int) =~= data.subrange(next, end) + data.subrange(
            end,
            data.len() as int,
        ));
        assert forall|i: int| 0 <= i < ls.len() implies #[trigger] ls[i].1.len() <= width by {
            if i > 0 {
                assert(ls[i] == rest[i - 1]);
            }
        }
        assert forall|i: int| 0 <= i < ls.len() - 1 implies #[trigger] ls[i + 1].0 == ls[i].0
            + ls[i].1.len() by {
            if i > 0 {
                assert(ls[i] == rest[i - 1]);
                assert(ls[i + 1] == rest[i]);
            } else {
                assert(ls[1] == rest[0]);
            }
        }
        if !endline {
            assert(ls.last() == rest.last());
        }
    }
}

/// A dump gives all of the data and nothing else: its lines, read one
/// after another, are the data; the first starts at address 0, each
/// starts where the one before it ended, none is longer than `width`, and
/// the last is an empty line at the address just past the data.
pub proof fn law_lines_cover_data(data: Seq<u8>, width: int)
    requires
        data.len() <= u16::MAX,
        width > 0,
    ensures
        ({
            let ls = lines_from(data, width, 0, false);
            &&& line_bytes(ls) == data
            &&& ls.len() > 0
            &&& ls[0].0 == 0
            &&& ls.last() == (data.len() as u16, Seq::<u8>::empty())
            &&& forall|i: int| 0 <= i < ls.len() ==> #[trigger] ls[i].1.len() <= width
            &&& forall|i: int|
                0 <= i < ls.len() - 1 ==> #[trigger] ls[i + 1].0 == ls[i].0 + ls[i].1.len()
        }),
{
    lemma_lines_from_cover(data, width, 0, false);
    assert(data.subrange(0, data.len() as int) =~= data);
}

/// Taking a line from the iterator gives the first of the lines still to
/// come, and leaves the rest of them.
pub proof fn law_next_line_is_first(data: Seq<u8>, width: int, next: int, endline: bool)
    requires
        0 <= next <= data.len(),
        width > 0,
    ensures
        ({
            let ls = lines_from(data, width, next, endline);
            let (n2, e2) = after_line(data, next, endline, width);
            match next_line(data, next, endline, width) {
                Some(line) => ls.len() > 0 && ls[0] == line && ls.drop_first()
                    == lines_from(data, width, n2, e2),
                None => ls.len() == 0,
            }
        }),
{
    let ls = lines_from(data, width, next, endline);
    let (n2, e2) = after_line(data, next, endline, width);
    match next_line(data, next, endline, width) {
        Some(line) => {
            assert(ls.drop_first() =~= lines_from(data, width, n2, e2));
        },
        None => {},
    }
}

/// A measure that every line taken from a dump makes smaller.
pub open spec fn lines_left(len: int, next: int, endline: bool) -> int {
    2 * (len - next) + if endline {
        0int
    } else {
        1int
    }
}

/// The next item of a deduplicated dump, and the state after it: the
/// dump position and end-line flag, the last line shown, and whether a
/// run of duplicates was announced. A line equal to the last one shown
/// starts a run, given once as a duplicate; further lines of the run are
/// passed over.
pub open spec fn dedup_next(
    data: Seq<u8>,
    width: int,
    next: int,
    endline: bool,
    last: Option<Seq<u8>>,
    in_dup: bool,
) -> (Option<Option<(u16, Seq<u8>)>>, int, bool, Option<Seq<u8>>, bool)
    decreases lines_left(data.len() as int, next, endline),
    when 0 <= next <= data.len() && width > 0
{
    match next_line(data, next, endline, width) {
        None => (None, next, endline, last, in_dup),
        Some(line) => {
            let (n2, e2) = after_line(data, next, endline, width);
            if last == Some(line.1) {
                if !in_dup {
                    (Some(None), n2, e2, last, true)
                } else {
                    dedup_next(data, width, n2, e2, last, in_dup)
                }
            } else {
                (Some(Some(line)), n2, e2, Some(line.1), false)
            }
        },
    }
}

/// Inside an announced run of duplicates, the dump passes over the lines
/// equal to the last one shown: what comes next is a line that differs
/// from it, or the end, never a second duplicate.
proof fn lemma_dedup_in_run(data: Seq<u8>, width: int, next: int, endline: bool, last: Option<Seq<u8>>)
    requires
        0 <= next <= data.len(),
        width > 0,
    ensures
        ({
            let (item, n2, e2, last2, dup2) = dedup_next(data, width, next, endline, last, true);
            match item {
                None => true,
                Some(None) => false,
                Some(Some(l)) => last != Some(l.1),
            }
        }),
    decreases lines_left(data.len() as int, next, endline),
{
    match next_line(data, next, endline, width) {
        None => {},
        Some(line) => {
            let (n2, e2) = after_line(data, next, endline, width);
            if last == Some(line.1) {
                lemma_dedup_in_run(data, width, n2, e2, last);
            }
        },
    }
}

/// How a deduplicated dump goes on, one item after another:
/// - a line it shows differs from the last line shown before it;
/// - right after a line is shown, a next line equal to it is announced as
///   a duplicate;
/// - right after a duplicate is announced, what comes is a line that
///   differs from the one repeated, or the end: each run of equal lines
///   after its first gives exactly one duplicate.
pub proof fn law_dedup_runs(
    data: Seq<u8>,
    width: int,
    next: int,
    endline: bool,
    last: Option<Seq<u8>>,
    in_dup: bool,
)
    requires
        0 <= next <= data.len(),
        width > 0,
    ensures
        ({
            let (item, n2, e2, last2, dup2) = dedup_next(data, width, next, endline, last, in_dup);
            let (item2, n3, e3, last3, dup3) = dedup_next(data, width, n2, e2, last2, dup2);
            &&& 0 <= n2 <= data.len()
            &&& item matches Some(Some(line)) ==> {
                &&& last != Some(line.1)
                &&& last2 == Some(line.1)
                &&& (next_line(data, n2, e2, width) matches Some(l2) && l2.1 == line.1
                    ==> item2 == Some(None::<(u16, Seq<u8>)>))
            }
            &&& item is Some && item->Some_0 is None ==> match item2 {
                None => true,
                Some(None) => false,
                Some(Some(l)) => last2 != Some(l.1) && last2 == last,
            }
        }),
    decreases lines_left(data.len() as int, next, endline),
{
    match next_line(data, next, endline, width) {
        None => {},
        Some(line) => {
            let (n2, e2) = after_line(data, next, endline, width);
            if last == Some(line.1) {
                if !in_dup {
                    lemma_dedup_in_run(data, width, n2, e2, last);
                } else {
                    law_dedup_runs(data, width, n2, e2, last, in_dup);
                }
            }
        },
    }
}

/// The view of an optional borrowed line.
pub open spec fn opt_bytes(o: Option<&[u8]>) -> Option<Seq<u8>> {
    match o {
        Some(d) => Some(d@),
        None => None,
    }
}

/// An iterator over the lines of a hex dump that collapses runs of equal
/// lines into one [DedupLine::Duplicate].
#[derive(Debug, Clone, PartialEq, Eq, PartialOrd, Ord, Hash)]
pub struct DedupLineIter<'a, const WIDTH: usize> {
    inner: LineIter<'a, WIDTH>,
    last: Option<&'a [u8]>,
    in_duplicate: bool,
}

impl<'a, const WIDTH: usize> DedupLineIter<'a, WIDTH> {
    /// The lines being deduplicated.
    pub closed spec fn spec_inner(&self) -> LineIter<'a, WIDTH> {
        self.inner
    }

    /// The last line shown.
    pub closed spec fn spec_last(&self) -> Option<Seq<u8>> {
        opt_bytes(self.last)
    }

    /// Whether a run of duplicates was announced.
    pub closed spec fn spec_in_duplicate(&self) -> bool {
        self.in_duplicate
    }

    /// Deduplicated lines of `data`, from its start. Every address, the
    /// length of the data included, must fit in 16 bits.
    pub fn new(data: &'a [u8]) -> (it: Self)
        requires
            data@.len() <= u16::MAX,
        ensures
            it.spec_inner().spec_data() == data@,
            it.spec_inner().spec_next() == 0,
            !it.spec_inner().spec_endline(),
            it.spec_last() is None,
            !it.spec_in_duplicate(),
    {
        DedupLineIter { inner: LineIter::new(data), last: None, in_duplicate: false }
    }

    /// The next line, if any. A dump of lines zero bytes wide would never
    /// end.
    pub fn next(&mut self) -> (r: Option<DedupLine<'a, u16, WIDTH>>)
        requires
            WIDTH > 0,
        ensures
            ({
                let i = old(self).spec_inner();
                let (item, n, e, last, dup) = dedup_next(
                    i.spec_data(),
                    WIDTH as int,
                    i.spec_next(),
                    i.spec_endline(),
                    old(self).spec_last(),
                    old(self).spec_in_duplicate(),
                );
                &&& match r {
                    Some(d) => item == Some(d@),
                    None => item is None,
                }
                &&& final(self).spec_inner().spec_data() == i.spec_data()
                &&& final(self).spec_inner().spec_next() == n
                &&& final(self).spec_inner().spec_endline() == e
                &&& final(self).spec_last() == last
                &&& final(self).spec_in_duplicate() == dup
            }),
    {
        let ghost data = self.inner.spec_data();
        let ghost goal = dedup_next(
            data,
            WIDTH as int,
            self.inner.spec_next(),
            self.inner.spec_endline(),
            opt_bytes(self.last),
            self.in_duplicate,
        );
        proof {
            use_type_invariant(&self.inner);
        }
        loop
            invariant
                WIDTH > 0,
                data == old(self).inner.spec_data(),
                goal == dedup_next(
                    data,
                    WIDTH as int,
                    old(self).inner.spec_next(),
                    old(self).inner.spec_endline(),
                    opt_bytes(old(self).last),
                    old(self).in_duplicate,
                ),
                self.inner.spec_data() == data,
                0 <= self.inner.spec_next() <= data.len(),
                self.in_duplicate == old(self).in_duplicate,
                self.last == old(self).last,
                dedup_next(
                    data,
                    WIDTH as int,
                    self.inner.spec_next(),
                    self.inner.spec_endline(),
                    opt_bytes(self.last),
                    self.in_duplicate,
                ) == goal,
            decreases lines_left(data.len() as int, self.inner.spec_next(), self.inner.spec_endline()),
        {
            let ghost cn = self.inner.spec_next();
            let ghost ce = self.inner.spec_endline();
            match self.inner.next() {
                Some(line) => {
                    assert(next_line(data, cn, ce, WIDTH as int) == Some(line@));
                    let same = match self.last {
                        Some(l) => bytes_eq(l, line.data),
                        None => false,
                    };
                    if same {
                        if !self.in_duplicate {
                            assert(opt_bytes(self.last) == Some(line@.1));
                            assert(goal == (
                                Some(None::<(u16, Seq<u8>)>),
                                self.inner.spec_next(),
                                self.inner.spec_endline(),
                                opt_bytes(self.last),
                                true,
                            ));
                            self.in_duplicate = true;
                            return Some(DedupLine::Duplicate);
                        }
                    } else {
                        self.last = Some(line.data);
                        self.in_duplicate = false;
                        return Some(DedupLine::Data(line));
                    }
                },
                None => {
                    return None;
                },
            }
        }
    }
}

/// A deduplicated hex dump of `data`, sixteen bytes to a line.
pub fn hexdump_iter(data: &[u8]) -> (it: DedupLineIter<'_, 16>)
    requires
        data@.len() <= u16::MAX,
    ensures
        it.spec_inner().spec_data() == data@,
        it.spec_inner().spec_next() == 0,
        !it.spec_inner().spec_endline(),
        it.spec_last() is None,
        !it.spec_in_duplicate(),
{
    DedupLineIter::new(data)
}

} // verus!
