//! Checking a firmware image before flashing it, and cutting it into the
//! pages that the bootloader writes.
use vstd::prelude::*;

use crate::protocol::messages::bootloader::{WriteFlash, WriteFlashReply, WRITE_FLASH_LEN};
use crate::protocol::messages::util::Padding;
use crate::protocol::serialize::MessageSerialize;

use super::binformat::BinaryInfo;
use super::common::{FLASH_MAX, RAM_MAX, RAM_START};

verus! {

/// The page the bootloader starts on.
pub const BOOTLOADER_START_PAGE: usize = 0xf0;

/// Possible sanity checks the user can chose to ignore.
#[derive(Debug, Clone, Copy, PartialEq, Eq, PartialOrd, Ord, Hash)]
pub enum Ignores {
    /// Ignore the stack pointer check.
    Stack,
    /// Ignore the entry point check.
    Entry,
    /// Ignore the flash size.
    Size,
}

/// A sanity check that an image failed.
#[derive(Debug, Clone, Copy, PartialEq, Eq, PartialOrd, Ord, Hash)]
pub enum CheckError {
    /// Stack pointer is not inside RAM.
    StackOutsideRam,
    /// Entry point is not inside flash.
    EntryOutsideFlash,
    /// Image is larger than available flash.
    TooLarge,
}

/// The initial stack pointer lies inside RAM (it may point just past it).
pub open spec fn stack_ok(info: BinaryInfo) -> bool {
    RAM_START < info.stack_top <= RAM_START + RAM_MAX
}

/// The entry point lies inside flash.
pub open spec fn entry_ok(info: BinaryInfo) -> bool {
    info.entry_point < FLASH_MAX
}

/// The image fits in flash.
pub open spec fn size_ok(data_len: int) -> bool {
    data_len <= FLASH_MAX
}

/// Whether `which` is among the ignored checks.
pub fn is_ignored(ignores: &[Ignores], which: Ignores) -> (r: bool)
    ensures
        r == ignores@.contains(which),
{
    let mut i: usize = 0;
    while i < ignores.len()
        invariant
            i <= ignores@.len(),
            forall|j: int| 0 <= j < i ==> ignores@[j] != which,
        decreases ignores@.len() - i,
    {
        let same = match (ignores[i], which) {
            (Ignores::Stack, Ignores::Stack) => true,
            (Ignores::Entry, Ignores::Entry) => true,
            (Ignores::Size, Ignores::Size) => true,
            _ => false,
        };
        if same {
            assert(ignores@[i as int] == which);
            return true;
        }
        i += 1;
    }
    false
}

/// Check an image before flashing: the first failing check that is not
/// ignored, in the order stack pointer, entry point, size.
pub fn check(data_len: usize, info: &BinaryInfo, ignores: &[Ignores]) -> (r: Result<
    (),
    CheckError,
>)
    ensures
        r == (if !ignores@.contains(Ignores::Stack) && !stack_ok(*info) {
            Err(CheckError::StackOutsideRam)
        } else if !ignores@.contains(Ignores::Entry) && !entry_ok(*info) {
            Err(CheckError::EntryOutsideFlash)
        } else if !ignores@.contains(Ignores::Size) && !size_ok(data_len as int) {
            Err(CheckError::TooLarge)
        } else {
            Ok(())
        }),
{
    if !is_ignored(ignores, Ignores::Stack) && (info.stack_top <= RAM_START || info.stack_top
        > RAM_START + RAM_MAX) {
        return Err(CheckError::StackOutsideRam);
    }
    if !is_ignored(ignores, Ignores::Entry) && info.entry_point >= FLASH_MAX {
        return Err(CheckError::EntryOutsideFlash);
    }
    if !is_ignored(ignores, Ignores::Size) && data_len > FLASH_MAX {
        return Err(CheckError::TooLarge);
    }
    Ok(())
}

/// Every failed check of an image, not only the first.
#[derive(Debug, Clone, Copy, PartialEq, Eq, PartialOrd, Ord, Hash)]
pub struct LintReport {
    /// Stack pointer is not inside RAM.
    pub stack_fail: bool,
    /// Entry point is not inside flash.
    pub entry_fail: bool,
    /// Image is larger than available flash.
    pub size_fail: bool,
}

impl LintReport {
    /// Whether the image failed at least one lint.
    pub fn failed(&self) -> (r: bool)
        ensures
            r == (self.stack_fail || self.entry_fail || self.size_fail),
    {
        self.stack_fail || self.entry_fail || self.size_fail
    }
}

/// Lint an image: each check that is not ignored, all of them.
pub fn lint(data_len: usize, info: &BinaryInfo, ignores: &[Ignores]) -> (r: LintReport)
    ensures
        r.stack_fail == (!ignores@.contains(Ignores::Stack) && !stack_ok(*info)),
        r.entry_fail == (!ignores@.contains(Ignores::Entry) && !entry_ok(*info)),
        r.size_fail == (!ignores@.contains(Ignores::Size) && !size_ok(data_len as int)),
{
    LintReport {
        stack_fail: !is_ignored(ignores, Ignores::Stack) && (info.stack_top <= RAM_START
            || info.stack_top > RAM_START + RAM_MAX),
        entry_fail: !is_ignored(ignores, Ignores::Entry) && info.entry_point >= FLASH_MAX,
        size_fail: !is_ignored(ignores, Ignores::Size) && data_len > FLASH_MAX,
    }
}

/// Why flashing stopped.
#[derive(Debug, Clone, Copy, PartialEq, Eq, PartialOrd, Ord, Hash)]
pub enum FlashError {
    /// Bootloader reported error.
    BootloaderError,
    /// Bootloader did not confirm write.
    NotConfirmed,
}

/// The number of pages an image of `len` bytes takes: the fewest that
/// hold all of it.
pub fn page_count(len: usize) -> (n: usize)
    requires
        len + WRITE_FLASH_LEN <= usize::MAX,
    ensures
        n * WRITE_FLASH_LEN >= len,
        n * WRITE_FLASH_LEN - len < WRITE_FLASH_LEN,
{
    let n = (len + WRITE_FLASH_LEN - 1) / WRITE_FLASH_LEN;
    assert(n * WRITE_FLASH_LEN >= len && n * WRITE_FLASH_LEN - len < WRITE_FLASH_LEN) by (
        nonlinear_arith)
        requires
            n == (len + 0xff) / 0x100,
    ;
    n
}

/// The bytes of the image on page `page`, zero-padded to a whole page.
pub open spec fn page_bytes(data: Seq<u8>, page: int) -> Seq<u8> {
    let start = page * WRITE_FLASH_LEN;
    let end = if start + WRITE_FLASH_LEN < data.len() {
        start + WRITE_FLASH_LEN
    } else {
        data.len() as int
    };
    data.subrange(start, end) + Seq::new((WRITE_FLASH_LEN - (end - start)) as nat, |i: int| 0u8)
}

/// How many bytes of the image are on page `page`.
pub open spec fn page_len(data_len: int, page: int) -> int {
    let start = page * WRITE_FLASH_LEN;
    if start + WRITE_FLASH_LEN < data_len {
        WRITE_FLASH_LEN as int
    } else {
        data_len - start
    }
}

/// The write-flash message for page `page` of `max_page`.
pub fn flash_page(data: &[u8], page: usize, max_page: usize, session_id: u32) -> (m: WriteFlash<
    Vec<u8>,
>)
    requires
        page < max_page <= u16::MAX,
        page * WRITE_FLASH_LEN <= data@.len(),
    ensures
        m.session_id == session_id,
        m.page == page,
        m.max_page == max_page,
        m.len == page_len(data@.len() as int, page as int),
        m.data@ == page_bytes(data@, page as int),
        m.serializable(),
{
    let start = page * WRITE_FLASH_LEN;
    let end = if WRITE_FLASH_LEN < data.len() - start {
        start + WRITE_FLASH_LEN
    } else {
        data.len()
    };
    let chunkend = end - start;
    let mut chunk: Vec<u8> = Vec::new();
    let mut i: usize = start;
    while i < end
        invariant
            start <= i <= end <= data@.len(),
            chunk@ == data@.subrange(start as int, i as int),
        decreases end - i,
    {
        chunk.push(data[i]);
        i += 1;
        assert(chunk@ =~= data@.subrange(start as int, i as int));
    }
    let ghost body = chunk@;
    let mut j: usize = chunkend;
    while j < WRITE_FLASH_LEN
        invariant
            chunkend <= j <= WRITE_FLASH_LEN,
            chunk@ == body + Seq::new((j - chunkend) as nat, |k: int| 0u8),
        decreases WRITE_FLASH_LEN - j,
    {
        chunk.push(0);
        j += 1;
        assert(chunk@ =~= body + Seq::new((j - chunkend) as nat, |k: int| 0u8));
    }
    WriteFlash {
        session_id,
        page: page as u16,
        max_page: max_page as u16,
        len: chunkend as u16,
        _pad: Padding::default(),
        data: chunk,
    }
}

/// Check the bootloader's reply to the write of page `page`.
pub fn check_write_reply(reply: &WriteFlashReply, session_id: u32, page: u16) -> (r: Result<
    (),
    FlashError,
>)
    ensures
        r == (if reply.error > 0 {
            Err(FlashError::BootloaderError)
        } else if reply.session_id != session_id || reply.page != page {
            Err(FlashError::NotConfirmed)
        } else {
            Ok(())
        }),
{
    if reply.error > 0 {
        return Err(FlashError::BootloaderError);
    }
    if reply.session_id != session_id || reply.page != page {
        return Err(FlashError::NotConfirmed);
    }
    Ok(())
}

/// A flash session under way: the image, how many pages it takes, the
/// next page to write, and the session the pages go out in. The caller
/// sends [Flasher::request] and hands the bootloader's answer to
/// [Flasher::on_reply], until [Flasher::is_done].
#[derive(Debug, Clone, PartialEq, Eq, PartialOrd, Ord, Hash)]
pub struct Flasher {
    data: Vec<u8>,
    max_page: usize,
    page: usize,
    session_id: u32,
}

impl Flasher {
    /// The image being written.
    pub closed spec fn spec_data(&self) -> Seq<u8> {
        self.data@
    }

    /// The number of pages of the image.
    pub closed spec fn spec_max_page(&self) -> int {
        self.max_page as int
    }

    /// The next page to write.
    pub closed spec fn spec_page(&self) -> int {
        self.page as int
    }

    /// The session the pages go out in.
    pub closed spec fn spec_session_id(&self) -> u32 {
        self.session_id
    }

    /// The image takes exactly its pages, every page number fits the
    /// protocol, and the next page is one of them or just past them.
    pub open spec fn wf(&self) -> bool {
        &&& self.spec_max_page() * WRITE_FLASH_LEN >= self.spec_data().len()
        &&& self.spec_max_page() * WRITE_FLASH_LEN - self.spec_data().len() < WRITE_FLASH_LEN
        &&& self.spec_max_page() <= u16::MAX
        &&& 0 <= self.spec_page() <= self.spec_max_page()
    }

    /// Start writing `data` in session `session_id`, from its first page.
    /// Its pages must be countable in the protocol's 16 bits.
    pub fn new(data: Vec<u8>, session_id: u32) -> (f: Self)
        requires
            data@.len() <= u16::MAX * WRITE_FLASH_LEN,
        ensures
            f.wf(),
            f.spec_data() == data@,
            f.spec_page() == 0,
            f.spec_session_id() == session_id,
    {
        let max_page = page_count(data.len());
        assert(max_page <= u16::MAX) by (nonlinear_arith)
            requires
                max_page * 0x100 - data@.len() < 0x100,
                data@.len() <= u16::MAX * 0x100,
        ;
        Flasher { data, max_page, page: 0, session_id }
    }

    /// The number of pages of the image.
    pub fn max_page(&self) -> (n: usize)
        ensures
            n == self.spec_max_page(),
    {
        self.max_page
    }

    /// The next page to write.
    pub fn page(&self) -> (n: usize)
        ensures
            n == self.spec_page(),
    {
        self.page
    }

    /// Whether every page was written.
    pub fn is_done(&self) -> (r: bool)
        ensures
            r == (self.spec_page() >= self.spec_max_page()),
    {
        self.page >= self.max_page
    }

    /// How many bytes of the image the written pages hold.
    pub fn written(&self) -> (n: usize)
        requires
            self.wf(),
        ensures
            n == if self.spec_page() * WRITE_FLASH_LEN < self.spec_data().len() {
                self.spec_page() * WRITE_FLASH_LEN
            } else {
                self.spec_data().len() as int
            },
    {
        if self.page < self.max_page {
            assert(self.page * WRITE_FLASH_LEN < self.data@.len()) by (nonlinear_arith)
                requires
                    self.page < self.max_page,
                    self.max_page * 0x100 - self.data@.len() < 0x100,
            ;
            self.page * WRITE_FLASH_LEN
        } else {
            self.data.len()
        }
    }

    /// The write of the next page.
    pub fn request(&self) -> (m: WriteFlash<Vec<u8>>)
        requires
            self.wf(),
            self.spec_page() < self.spec_max_page(),
        ensures
            m.session_id == self.spec_session_id(),
            m.page == self.spec_page(),
            m.max_page == self.spec_max_page(),
            m.len == page_len(self.spec_data().len() as int, self.spec_page()),
            m.data@ == page_bytes(self.spec_data(), self.spec_page()),
            m.serializable(),
    {
        assert(self.page * WRITE_FLASH_LEN <= self.data@.len()) by (nonlinear_arith)
            requires
                self.page < self.max_page,
                self.max_page * 0x100 - self.data@.len() < 0x100,
        ;
        flash_page(self.data.as_slice(), self.page, self.max_page, self.session_id)
    }

    /// Take the bootloader's answer to the write of the next page: when it
    /// confirms that page of this session, the page after it is next;
    /// otherwise flashing stops with the error, and nothing changes.
    pub fn on_reply(&mut self, reply: &WriteFlashReply) -> (r: Result<(), FlashError>)
        requires
            old(self).wf(),
            old(self).spec_page() < old(self).spec_max_page(),
        ensures
            final(self).wf(),
            r == (if reply.error > 0 {
                Err(FlashError::BootloaderError)
            } else if reply.session_id != old(self).spec_session_id() || reply.page != old(
                self,
            ).spec_page() {
                Err(FlashError::NotConfirmed)
            } else {
                Ok(())
            }),
            final(self).spec_data() == old(self).spec_data(),
            final(self).spec_max_page() == old(self).spec_max_page(),
            final(self).spec_session_id() == old(self).spec_session_id(),
            final(self).spec_page() == if r is Ok {
                old(self).spec_page() + 1
            } else {
                old(self).spec_page()
            },
    {
        let r = check_write_reply(reply, self.session_id, self.page as u16);
        if r.is_ok() {
            self.page = self.page + 1;
        }
        r
    }
}

/// The image bytes that the first `k` pages carry, in order.
pub open spec fn pages_prefix(data: Seq<u8>, k: int) -> Seq<u8>
    decreases k,
{
    if k <= 0 {
        Seq::empty()
    } else {
        pages_prefix(data, k - 1) + page_bytes(data, k - 1).subrange(0, page_len(data.len() as int, k - 1))
    }
}

/// The first `k` pages carry the first `k` pages' worth of the image.
proof fn lemma_pages_prefix(data: Seq<u8>, k: int)
    requires
        0 <= k,
        (k - 1) * WRITE_FLASH_LEN < data.len() || k == 0,
    ensures
        pages_prefix(data, k) == data.subrange(
            0,
            if k * WRITE_FLASH_LEN < data.len() {
                k * WRITE_FLASH_LEN
            } else {
                data.len() as int
            },
        ),
    decreases k,
{
    if k > 0 {
        assert((k - 2) * WRITE_FLASH_LEN < data.len() || k - 1 == 0) by (nonlinear_arith)
            requires
                (k - 1) * WRITE_FLASH_LEN < data.len(),
                k >= 1,
        ;
        lemma_pages_prefix(data, k - 1);
        assert(k * WRITE_FLASH_LEN == (k - 1) * WRITE_FLASH_LEN + WRITE_FLASH_LEN) by (
            nonlinear_arith);
        assert((k - 1) * WRITE_FLASH_LEN >= 0) by (nonlinear_arith)
            requires
                k >= 1,
        ;
        let end = if k * WRITE_FLASH_LEN < data.len() {
            k * WRITE_FLASH_LEN
        } else {
            data.len() as int
        };
        assert(pages_prefix(data, k) =~= data.subrange(0, end));
    }
}

/// The pages that an image is cut into carry, in order and each without
/// its padding, exactly the image: every page holds between one and
/// [WRITE_FLASH_LEN] bytes of it, padded with zeros to a whole page.
pub proof fn law_pages_cover_image(data: Seq<u8>, n: int)
    requires
        n * WRITE_FLASH_LEN >= data.len(),
        n * WRITE_FLASH_LEN - data.len() < WRITE_FLASH_LEN,
    ensures
        pages_prefix(data, n) == data,
        forall|p: int|
            0 <= p < n ==> 0 < #[trigger] page_len(data.len() as int, p) <= WRITE_FLASH_LEN
                && page_bytes(data, p).len() == WRITE_FLASH_LEN,
{
    if n > 0 {
        assert((n - 1) * WRITE_FLASH_LEN < data.len()) by (nonlinear_arith)
            requires
                n * WRITE_FLASH_LEN - data.len() < WRITE_FLASH_LEN,
        ;
    } else {
        assert(data.len() == 0) by (nonlinear_arith)
            requires
                n * WRITE_FLASH_LEN >= data.len(),
                n * WRITE_FLASH_LEN - data.len() < WRITE_FLASH_LEN,
                n <= 0,
        ;
    }
    lemma_pages_prefix(data, n);
    assert(data.subrange(0, data.len() as int) =~= data);
    assert forall|p: int| 0 <= p < n implies 0 < #[trigger] page_len(data.len() as int, p)
        <= WRITE_FLASH_LEN && page_bytes(data, p).len() == WRITE_FLASH_LEN by {
        assert(p * WRITE_FLASH_LEN < data.len() && p * WRITE_FLASH_LEN >= 0) by (nonlinear_arith)
            requires
                0 <= p < n,
                n * WRITE_FLASH_LEN - data.len() < WRITE_FLASH_LEN,
        ;
    }
}

} // verus!
