//! Writing the on-board EEPROM, which stores configuration: a write is cut
//! into page writes that never cross a page boundary.
use vstd::prelude::*;

verus! {

/// The size of the EEPROM in bytes.
pub const SIZE: usize = 0x2000;

/// The page size of this EEPROM in bytes.
pub const PAGE_SIZE: usize = 32;

/// An EEPROM error.
#[derive(Debug, Clone, Copy, PartialEq, Eq, PartialOrd, Ord, Hash)]
pub enum Error {
    /// An error with the I2C bus.
    I2c,
    /// Too much data for a single page write.
    TooMuchData,
    /// Tried to read or write beyond the end of the EEPROM.
    InvalidAddr,
}

/// How many bytes of `remaining` go in the page write at `offset`: up to
/// the end of that page.
pub open spec fn chunk_len(offset: int, remaining: int) -> int {
    let room = PAGE_SIZE - offset % (PAGE_SIZE as int);
    if remaining < room {
        remaining
    } else {
        room
    }
}

/// The page writes, as offset and length, that write `len` bytes at
/// `offset`.
pub open spec fn spec_chunks(offset: int, len: int) -> Seq<(int, int)>
    decreases len,
{
    if len <= 0 {
        Seq::empty()
    } else {
        let c = chunk_len(offset, len);
        if c <= 0 {
            Seq::empty()
        } else {
            seq![(offset, c)] + spec_chunks(offset + c, len - c)
        }
    }
}

/// The view of a plan of page writes.
pub open spec fn chunks_view(v: Seq<(usize, usize)>) -> Seq<(int, int)> {
    Seq::new(v.len(), |i: int| (v[i].0 as int, v[i].1 as int))
}

/// The page writes, as offset and length, that write `len` bytes at
/// `offset`; too much data when the write runs past the end of the EEPROM.
pub fn write_chunks(offset: usize, len: usize) -> (r: Result<Vec<(usize, usize)>, Error>)
    requires
        offset + len <= usize::MAX,
    ensures
        offset + len > SIZE ==> r == Err::<Vec<(usize, usize)>, Error>(Error::TooMuchData),
        offset + len <= SIZE ==> (r matches Ok(v) && chunks_view(v@) == spec_chunks(
            offset as int,
            len as int,
        )),
{
    if offset + len > SIZE {
        return Err(Error::TooMuchData);
    }
    let mut chunks: Vec<(usize, usize)> = Vec::new();
    let mut at = offset;
    let mut remaining = len;
    while remaining > 0
        invariant
            at + remaining == offset + len <= SIZE,
            chunks_view(chunks@) + spec_chunks(at as int, remaining as int) == spec_chunks(
                offset as int,
                len as int,
            ),
        decreases remaining,
    {
        let this_page_offset = at % PAGE_SIZE;
        let this_page_remaining = PAGE_SIZE - this_page_offset;
        let chunk_size = if remaining < this_page_remaining {
            remaining
        } else {
            this_page_remaining
        };
        let ghost before = chunks_view(chunks@);
        chunks.push((at, chunk_size));
        assert(chunks_view(chunks@) =~= before + seq![(at as int, chunk_size as int)]);
        assert(spec_chunks(at as int, remaining as int) =~= seq![(at as int, chunk_size as int)]
            + spec_chunks(at + chunk_size, remaining - chunk_size));
        at = at + chunk_size;
        remaining = remaining - chunk_size;
    }
    Ok(chunks)
}

/// The page writes that write `len` bytes at `offset` follow one another
/// without gaps from `offset` to `offset + len`, each holds at least one
/// byte, and none crosses a page boundary.
pub proof fn law_chunks_cover_pages(offset: int, len: int)
    requires
        0 <= offset,
        0 <= len,
    ensures
        ({
            let c = spec_chunks(offset, len);
            &&& forall|i: int|
                0 <= i < c.len() ==> 0 < (#[trigger] c[i]).1 && c[i].0 % (PAGE_SIZE as int)
                    + c[i].1 <= PAGE_SIZE
            &&& forall|i: int| 0 <= i < c.len() - 1 ==> #[trigger] c[i].0 + c[i].1 == c[i + 1].0
            &&& c.len() > 0 ==> c[0].0 == offset && c.last().0 + c.last().1 == offset + len
            &&& c.len() == 0 <==> len == 0
        }),
    decreases len,
{
    if len > 0 {
        let ch = chunk_len(offset, len);
        law_chunks_cover_pages(offset + ch, len - ch);
        let rest = spec_chunks(offset + ch, len - ch);
        let c = spec_chunks(offset, len);
        assert(c == seq![(offset, ch)] + rest);
        assert forall|i: int| 0 <= i < c.len() implies 0 < (#[trigger] c[i]).1 && c[i].0 % (
        PAGE_SIZE as int) + c[i].1 <= PAGE_SIZE by {
            if i > 0 {
                assert(c[i] == rest[i - 1]);
            }
        }
        assert forall|i: int| 0 <= i < c.len() - 1 implies #[trigger] c[i].0 + c[i].1 == c[i
            + 1].0 by {
            if i > 0 {
                assert(c[i] == rest[i - 1]);
                assert(c[i + 1] == rest[i]);
            }
        }
        if rest.len() > 0 {
            assert(c.last() == rest.last());
        }
    }
}

} // verus!
