//! A simulated radio: what it answers to each host message, in normal mode
//! and in bootloader mode, and how flashing changes its memory.
use vstd::prelude::*;

use crate::protocol::messages::bootloader::{
    BootloaderReady, WriteFlash, WriteFlashReply, WRITE_FLASH_LEN,
};
use crate::protocol::messages::radio::{HelloReply, ReadEepromReply};
use crate::protocol::messages::util::Padding;
use crate::protocol::messages::{HostMessage, RadioMessage};
use crate::tool::flash::page_bytes;
use crate::tool::read_eeprom::{chunk_done, CHUNK_SIZE};
use crate::version::Version;

verus! {

/// The chip ID the simulated bootloader reports.
pub const SIM_CHIP_ID: [u32; 4] = [0x01234567, 0x89abcdef, 0xfedcba98, 0x76543210];

/// The state of flashing in the simulated bootloader.
#[derive(Debug, Clone, Copy, PartialEq, Eq, PartialOrd, Ord, Hash)]
pub struct FlashState {
    /// The version the host announced for the firmware it will write.
    pub firmware_version: Option<Version>,
    /// Whether a flash session is under way.
    pub in_progress: bool,
    /// The last page written.
    pub page: u16,
    /// The number of pages of the firmware being written.
    pub max_page: u16,
    /// The session of the flash under way.
    pub session_id: u32,
}

/// `data` written over `flash` at page `page`.
pub open spec fn write_page(flash: Seq<u8>, page: u16, data: Seq<u8>) -> Seq<u8> {
    let addr = page * WRITE_FLASH_LEN;
    Seq::new(
        flash.len(),
        |i: int|
            if addr <= i < addr + data.len() {
                data[i - addr]
            } else {
                flash[i]
            },
    )
}

/// The reply to a write that the bootloader refuses.
pub open spec fn flash_error() -> WriteFlashReply {
    WriteFlashReply { session_id: 0, page: 0, error: 1 }
}

/// Whether a write-flash message is written: the first page starts a
/// session, and later pages must follow the last one in the same session.
pub open spec fn page_accepted(st: FlashState, m: WriteFlash<Seq<u8>>) -> bool {
    m.page == 0 || (st.in_progress && m.page == st.page + 1 && m.session_id == st.session_id)
}

/// The inputs on which the simulated bootloader has a write-flash message
/// it can handle: the page written lies inside flash, and no page number
/// it counts with is the largest one.
pub open spec fn write_flash_safe(st: FlashState, flash_len: int, m: WriteFlash<Seq<u8>>) -> bool {
    st.firmware_version is Some ==> {
        &&& (m.page != 0 && st.in_progress ==> st.page < u16::MAX)
        &&& (page_accepted(st, m) ==> m.page * WRITE_FLASH_LEN + m.data.len() <= flash_len
            && m.page < u16::MAX)
    }
}

/// What the bootloader does with a write-flash message: the new flash
/// state, the new flash contents, and its reply. Without an announced
/// firmware version, or out of sequence, it refuses; a page that arrives
/// when no session is under way is ignored. The first page clears flash.
/// After the last page, the session ends and the bootloader would run the
/// new firmware.
pub open spec fn write_flash_step(st: FlashState, flash: Seq<u8>, m: WriteFlash<Seq<u8>>) -> (
    FlashState,
    Seq<u8>,
    Option<RadioMessage<Seq<u8>>>,
) {
    if st.firmware_version is None {
        (st, flash, Some(RadioMessage::WriteFlashReply(flash_error())))
    } else if page_accepted(st, m) {
        let st1 = if m.page == 0 {
            FlashState {
                page: 0,
                max_page: m.max_page,
                session_id: m.session_id,
                in_progress: true,
                ..st
            }
        } else {
            st
        };
        let f1 = if m.page == 0 {
            Seq::new(flash.len(), |i: int| 0u8)
        } else {
            flash
        };
        let st2 = FlashState { page: m.page, ..st1 };
        let st3 = if m.page + 1 == st1.max_page {
            FlashState { in_progress: false, firmware_version: None, ..st2 }
        } else {
            st2
        };
        (
            st3,
            write_page(f1, m.page, m.data),
            Some(
                RadioMessage::WriteFlashReply(
                    WriteFlashReply { session_id: st1.session_id, page: m.page, error: 0 },
                ),
            ),
        )
    } else if !st.in_progress {
        (st, flash, None)
    } else {
        (
            FlashState { in_progress: false, ..st },
            flash,
            Some(RadioMessage::WriteFlashReply(flash_error())),
        )
    }
}

/// The bootloader after taking the write-flash messages `msgs` in turn:
/// its flash state, its flash, its replies, and whether it could handle
/// every one of them ([write_flash_safe]).
pub open spec fn boot_session(st: FlashState, flash: Seq<u8>, msgs: Seq<WriteFlash<Seq<u8>>>) -> (
    FlashState,
    Seq<u8>,
    Seq<Option<RadioMessage<Seq<u8>>>>,
    bool,
)
    decreases msgs.len(),
{
    if msgs.len() == 0 {
        (st, flash, Seq::empty(), true)
    } else {
        let (s1, f1, rs, ok) = boot_session(st, flash, msgs.drop_last());
        let m = msgs.last();
        let (s2, f2, r) = write_flash_step(s1, f1, m);
        (s2, f2, rs.push(r), ok && write_flash_safe(s1, f1.len() as int, m))
    }
}

/// The image `data`, zero-filled to `len` bytes.
pub open spec fn padded_image(data: Seq<u8>, len: int) -> Seq<u8> {
    Seq::new(len as nat, |i: int| if i < data.len() { data[i] } else { 0u8 })
}

proof fn lemma_page_bytes_at(data: Seq<u8>, p: int, j: int)
    requires
        0 <= p,
        p * WRITE_FLASH_LEN < data.len(),
        0 <= j < WRITE_FLASH_LEN,
    ensures
        page_bytes(data, p).len() == WRITE_FLASH_LEN,
        page_bytes(data, p)[j] == if p * WRITE_FLASH_LEN + j < data.len() {
            data[p * WRITE_FLASH_LEN + j]
        } else {
            0u8
        },
{
}

/// The pages that the flasher sends for an image of `n` pages.
pub open spec fn is_flash_session(msgs: Seq<WriteFlash<Seq<u8>>>, data: Seq<u8>, session_id: u32) -> bool {
    forall|p: int|
        0 <= p < msgs.len() ==> {
            &&& #[trigger] msgs[p].session_id == session_id
            &&& msgs[p].page == p
            &&& msgs[p].max_page == msgs.len()
            &&& msgs[p].data == page_bytes(data, p)
        }
}

proof fn lemma_boot_session_prefix(
    st: FlashState,
    flash: Seq<u8>,
    data: Seq<u8>,
    msgs: Seq<WriteFlash<Seq<u8>>>,
    session_id: u32,
    k: int,
)
    requires
        st.firmware_version is Some,
        is_flash_session(msgs, data, session_id),
        msgs.len() * WRITE_FLASH_LEN >= data.len(),
        msgs.len() * WRITE_FLASH_LEN - data.len() < WRITE_FLASH_LEN,
        msgs.len() <= u16::MAX,
        msgs.len() * WRITE_FLASH_LEN <= flash.len(),
        1 <= k <= msgs.len(),
    ensures
        ({
            let n = msgs.len() as int;
            let (s, f, rs, ok) = boot_session(st, flash, msgs.take(k));
            &&& ok
            &&& f.len() == flash.len()
            &&& forall|i: int|
                0 <= i < f.len() ==> #[trigger] f[i] == if i < k * WRITE_FLASH_LEN {
                    padded_image(data, flash.len() as int)[i]
                } else {
                    0u8
                }
            &&& s.session_id == session_id
            &&& s.page == k - 1
            &&& s.max_page == n
            &&& (k < n ==> s.in_progress && s.firmware_version == st.firmware_version)
            &&& (k == n ==> !s.in_progress && s.firmware_version is None)
            &&& rs.len() == k
            &&& forall|p: int|
                0 <= p < k ==> #[trigger] rs[p] == Some(
                    RadioMessage::<Seq<u8>>::WriteFlashReply(
                        WriteFlashReply { session_id, page: p as u16, error: 0 },
                    ),
                )
        }),
    decreases k,
{
    let n = msgs.len() as int;
    let page = WRITE_FLASH_LEN as int;
    assert((n - 1) * page < data.len()) by (nonlinear_arith)
        requires
            n * page - data.len() < page,
            page == 0x100,
    ;
    let pre = msgs.take(k);
    assert(pre.drop_last() =~= msgs.take(k - 1));
    assert(pre.last() == msgs[k - 1]);
    let (s0, f0, rs0, ok0) = boot_session(st, flash, msgs.take(k - 1));
    let m = msgs[k - 1];
    assert(m.session_id == session_id && m.page == k - 1 && m.max_page == n && m.data
        == page_bytes(data, k - 1));
    assert((k - 1) * page < data.len()) by (nonlinear_arith)
        requires
            (n - 1) * page < data.len(),
            k <= n,
            page == 0x100,
    ;
    assert(k * page <= flash.len()) by (nonlinear_arith)
        requires
            n * page <= flash.len(),
            k <= n,
            page == 0x100,
    ;
    if k == 1 {
        assert(msgs.take(0) =~= Seq::<WriteFlash<Seq<u8>>>::empty());
    } else {
        lemma_boot_session_prefix(st, flash, data, msgs, session_id, k - 1);
    }
    let (s, f, rs, ok) = boot_session(st, flash, pre);
    assert(page_bytes(data, k - 1).len() == page) by {
        lemma_page_bytes_at(data, k - 1, 0);
    }
    assert forall|i: int| 0 <= i < f.len() implies #[trigger] f[i] == if i < k * page {
        padded_image(data, flash.len() as int)[i]
    } else {
        0u8
    } by {
        if (k - 1) * page <= i < k * page {
            lemma_page_bytes_at(data, k - 1, i - (k - 1) * page);
        }
    }
    assert forall|p: int| 0 <= p < k implies #[trigger] rs[p] == Some(
        RadioMessage::<Seq<u8>>::WriteFlashReply(
            WriteFlashReply { session_id, page: p as u16, error: 0 },
        ),
    ) by {
        if p < k - 1 {
            assert(rs[p] == rs0[p]);
        }
    }
}

/// Flashing an image through the simulated bootloader: once it knows the
/// firmware version, the pages the flasher sends for an image (each
/// [WRITE_FLASH_LEN] bytes of it, zero-filled, numbered in turn in one
/// session) are each handled and acknowledged, and afterwards flash holds
/// the image followed by zeros, and the session is over.
pub proof fn law_flash_session_writes_image(
    st: FlashState,
    flash: Seq<u8>,
    data: Seq<u8>,
    msgs: Seq<WriteFlash<Seq<u8>>>,
    session_id: u32,
)
    requires
        st.firmware_version is Some,
        data.len() > 0,
        is_flash_session(msgs, data, session_id),
        msgs.len() * WRITE_FLASH_LEN >= data.len(),
        msgs.len() * WRITE_FLASH_LEN - data.len() < WRITE_FLASH_LEN,
        msgs.len() <= u16::MAX,
        msgs.len() * WRITE_FLASH_LEN <= flash.len(),
    ensures
        ({
            let (s, f, rs, ok) = boot_session(st, flash, msgs);
            &&& ok
            &&& f == padded_image(data, flash.len() as int)
            &&& !s.in_progress
            &&& s.firmware_version is None
            &&& rs.len() == msgs.len()
            &&& forall|p: int|
                0 <= p < msgs.len() ==> #[trigger] rs[p] == Some(
                    RadioMessage::<Seq<u8>>::WriteFlashReply(
                        WriteFlashReply { session_id, page: p as u16, error: 0 },
                    ),
                )
        }),
{
    let n = msgs.len() as int;
    assert(n >= 1);
    lemma_boot_session_prefix(st, flash, data, msgs, session_id, n);
    assert(msgs.take(n) =~= msgs);
    let (s, f, rs, ok) = boot_session(st, flash, msgs);
    assert forall|i: int| 0 <= i < f.len() implies f[i] == padded_image(
        data,
        flash.len() as int,
    )[i] by {
        if i >= n * WRITE_FLASH_LEN {
            assert(i >= data.len());
        }
    }
    assert(f =~= padded_image(data, flash.len() as int));
}

/// The EEPROM bytes a read of `len` bytes at `address` gets, cut off at
/// the end of the EEPROM.
pub open spec fn eeprom_window(eeprom: Seq<u8>, address: u16, len: u8) -> Seq<u8> {
    let start = if address > eeprom.len() {
        eeprom.len() as int
    } else {
        address as int
    };
    let end = if address + len > eeprom.len() {
        eeprom.len() as int
    } else {
        address + len
    };
    eeprom.subrange(start, end)
}

/// What a read of the whole EEPROM gathers from the simulated radio,
/// from `address` on: each request asks for a chunk at the address
/// reached, the radio answers with the EEPROM bytes there, and the read
/// stops as [chunk_done] says, `size` being the size the reader was given.
pub open spec fn eeprom_read_from(eeprom: Seq<u8>, size: int, address: int) -> Seq<u8>
    decreases eeprom.len() - address,
    when 0 <= address <= eeprom.len() <= u16::MAX
{
    let d = eeprom_window(eeprom, address as u16, CHUNK_SIZE);
    let next = address + d.len();
    if chunk_done(d.len() as u8, next, size) {
        d
    } else {
        d + eeprom_read_from(eeprom, size, next)
    }
}

proof fn lemma_eeprom_read_from(eeprom: Seq<u8>, address: int)
    requires
        0 <= address <= eeprom.len() <= u16::MAX,
    ensures
        eeprom_read_from(eeprom, eeprom.len() as int, address) == eeprom.subrange(
            address,
            eeprom.len() as int,
        ),
    decreases eeprom.len() - address,
{
    let d = eeprom_window(eeprom, address as u16, CHUNK_SIZE);
    let next = address + d.len();
    assert(d.len() <= CHUNK_SIZE);
    if !chunk_done(d.len() as u8, next, eeprom.len() as int) {
        lemma_eeprom_read_from(eeprom, next);
        assert(eeprom.subrange(address, eeprom.len() as int) =~= d + eeprom.subrange(
            next,
            eeprom.len() as int,
        ));
    } else {
        assert(d =~= eeprom.subrange(address, eeprom.len() as int));
    }
}

/// Reading the whole EEPROM of the simulated radio, with the reader told
/// its true size, gives back exactly the EEPROM.
pub proof fn law_eeprom_read_gets_eeprom(eeprom: Seq<u8>)
    requires
        eeprom.len() <= u16::MAX,
    ensures
        eeprom_read_from(eeprom, eeprom.len() as int, 0) == eeprom,
{
    lemma_eeprom_read_from(eeprom, 0);
    assert(eeprom.subrange(0, eeprom.len() as int) =~= eeprom);
}

/// Memory of `size` bytes that starts with `initial`, cut off or
/// zero-filled.
pub open spec fn spec_sized_memory(initial: Seq<u8>, size: int) -> Seq<u8> {
    Seq::new(size as nat, |i: int| if i < initial.len() { initial[i] } else { 0u8 })
}

/// Memory of `size` bytes that starts with `initial`, cut off or
/// zero-filled.
pub fn sized_memory(initial: &[u8], size: usize) -> (m: Vec<u8>)
    ensures
        m@ == spec_sized_memory(initial@, size as int),
{
    let mut m: Vec<u8> = Vec::new();
    let mut i: usize = 0;
    while i < size
        invariant
            i <= size,
            m@ == spec_sized_memory(initial@, size as int).take(i as int),
        decreases size - i,
    {
        if i < initial.len() {
            m.push(initial[i]);
        } else {
            m.push(0);
        }
        i += 1;
        assert(m@ =~= spec_sized_memory(initial@, size as int).take(i as int));
    }
    assert(m@ =~= spec_sized_memory(initial@, size as int));
    m
}

/// A simulated radio.
#[derive(Debug, Clone, PartialEq, Eq, PartialOrd, Ord, Hash)]
pub struct Simulator {
    session_id: u32,
    version: Version,
    boot: bool,
    eeprom: Vec<u8>,
    flash: Vec<u8>,
    state: FlashState,
}

impl Simulator {
    /// The session the host opened with its last hello.
    pub closed spec fn spec_session_id(&self) -> u32 {
        self.session_id
    }

    /// The version the radio reports.
    pub closed spec fn spec_version(&self) -> Version {
        self.version
    }

    /// Whether the radio is in bootloader mode.
    pub closed spec fn spec_boot(&self) -> bool {
        self.boot
    }

    /// The EEPROM contents.
    pub closed spec fn spec_eeprom(&self) -> Seq<u8> {
        self.eeprom@
    }

    /// The flash contents.
    pub closed spec fn spec_flash(&self) -> Seq<u8> {
        self.flash@
    }

    /// The state of flashing.
    pub closed spec fn spec_state(&self) -> FlashState {
        self.state
    }

    /// A radio reporting `version`, in bootloader mode if `boot`, with
    /// this EEPROM and flash.
    pub fn new(version: Version, boot: bool, eeprom: Vec<u8>, flash: Vec<u8>) -> (s: Self)
        ensures
            s.spec_session_id() == 0,
            s.spec_version() == version,
            s.spec_boot() == boot,
            s.spec_eeprom() == eeprom@,
            s.spec_flash() == flash@,
            s.spec_state() == (FlashState {
                firmware_version: None,
                in_progress: false,
                page: 0,
                max_page: 0,
                session_id: 0,
            }),
    {
        Simulator {
            session_id: 0,
            version,
            boot,
            eeprom,
            flash,
            state: FlashState {
                firmware_version: None,
                in_progress: false,
                page: 0,
                max_page: 0,
                session_id: 0,
            },
        }
    }

    /// The EEPROM contents.
    pub fn eeprom(&self) -> (e: &[u8])
        ensures
            e@ == self.spec_eeprom(),
    {
        self.eeprom.as_slice()
    }

    /// The flash contents.
    pub fn flash(&self) -> (f: &[u8])
        ensures
            f@ == self.spec_flash(),
    {
        self.flash.as_slice()
    }

    /// Whether the bootloader should announce itself before reading: in
    /// bootloader mode, until the host announces a firmware version.
    pub fn wants_boot_ready(&self) -> (r: bool)
        ensures
            r == (self.spec_boot() && self.spec_state().firmware_version is None),
    {
        self.boot && self.state.firmware_version.is_none()
    }

    /// The bootloader's announcement.
    pub fn send_boot_ready(&self) -> (m: BootloaderReady)
        ensures
            m == (BootloaderReady { chip_id: SIM_CHIP_ID, version: self.spec_version() }),
    {
        BootloaderReady { chip_id: SIM_CHIP_ID, version: self.version }
    }

    /// The reply to a write that the bootloader refuses.
    pub fn send_write_flash_error(&self) -> (m: WriteFlashReply)
        ensures
            m == flash_error(),
    {
        WriteFlashReply { session_id: 0, page: 0, error: 1 }
    }

    /// Whether a host message is one the simulated bootloader cannot
    /// handle (see [write_flash_safe]).
    pub fn write_flash_unsafe(&self, msg: &HostMessage<Vec<u8>>) -> (r: bool)
        ensures
            r == match msg@ {
                HostMessage::WriteFlash(m) => !write_flash_safe(
                    self.spec_state(),
                    self.spec_flash().len() as int,
                    m,
                ),
                _ => false,
            },
    {
        match msg {
            HostMessage::WriteFlash(m) => {
                if self.state.firmware_version.is_none() {
                    return false;
                }
                if m.page != 0 && self.state.in_progress && self.state.page == u16::MAX {
                    return true;
                }
                let accepted = m.page == 0 || (self.state.in_progress && m.page as u32
                    == self.state.page as u32 + 1 && m.session_id == self.state.session_id);
                if accepted {
                    m.page == u16::MAX || m.data.len() > self.flash.len() || (m.page as usize)
                        * WRITE_FLASH_LEN > self.flash.len() - m.data.len()
                } else {
                    false
                }
            },
            _ => false,
        }
    }

    /// Answer a host message in normal mode: a hello opens a session and
    /// is answered with the radio's version; an EEPROM read in the
    /// session is answered with the EEPROM bytes asked for.
    pub fn handle_message(&mut self, msg: &HostMessage<Vec<u8>>) -> (r: Option<RadioMessage<Vec<u8>>>)
        ensures
            final(self).spec_version() == old(self).spec_version(),
            final(self).spec_boot() == old(self).spec_boot(),
            final(self).spec_eeprom() == old(self).spec_eeprom(),
            final(self).spec_flash() == old(self).spec_flash(),
            final(self).spec_state() == old(self).spec_state(),
            match msg@ {
                HostMessage::Hello(m) => {
                    &&& final(self).spec_session_id() == m.session_id
                    &&& r matches Some(RadioMessage::HelloReply(h)) && h.version == old(
                        self,
                    ).spec_version() && !h.has_custom_aes_key && !h.is_in_lock_screen && h._pad@
                        == seq![0u8, 0u8] && h.challenge@ == seq![0u32, 0u32, 0u32, 0u32]
                },
                HostMessage::ReadEeprom(m) => {
                    &&& final(self).spec_session_id() == old(self).spec_session_id()
                    &&& if m.session_id == old(self).spec_session_id() {
                        let d = eeprom_window(old(self).spec_eeprom(), m.address, m.len);
                        r matches Some(RadioMessage::ReadEepromReply(e)) && e.address == m.address
                            && e.len == d.len() && e._pad@ == seq![0u8] && e.data@ == d
                    } else {
                        r is None
                    }
                },
                _ => final(self).spec_session_id() == old(self).spec_session_id() && r is None,
            },
    {
        match msg {
            HostMessage::Hello(m) => {
                self.session_id = m.session_id;
                let h = HelloReply {
                    version: self.version,
                    has_custom_aes_key: false,
                    is_in_lock_screen: false,
                    _pad: Padding::default(),
                    challenge: [0; 4],
                };
                assert(h._pad@ =~= seq![0u8, 0u8]);
                Some(RadioMessage::HelloReply(h))
            },
            HostMessage::ReadEeprom(m) => {
                if m.session_id != self.session_id {
                    return None;
                }
                let len = self.eeprom.len();
                let start = if m.address as usize > len {
                    len
                } else {
                    m.address as usize
                };
                let end = if m.address as usize + m.len as usize > len {
                    len
                } else {
                    m.address as usize + m.len as usize
                };
                let mut data: Vec<u8> = Vec::new();
                let mut i: usize = start;
                while i < end
                    invariant
                        start <= i <= end <= self.eeprom@.len(),
                        data@ == self.eeprom@.subrange(start as int, i as int),
                    decreases end - i,
                {
                    data.push(self.eeprom[i]);
                    i += 1;
                    assert(data@ =~= self.eeprom@.subrange(start as int, i as int));
                }
                let e = ReadEepromReply {
                    address: m.address,
                    len: (end - start) as u8,
                    _pad: Padding::default(),
                    data,
                };
                assert(e._pad@ =~= seq![0u8]);
                Some(RadioMessage::ReadEepromReply(e))
            },
            _ => None,
        }
    }

    /// Answer a host message in bootloader mode: a bootloader-ready reply
    /// announces the firmware version and is answered with another
    /// announcement; a write-flash message goes as [write_flash_step]
    /// says.
    pub fn handle_boot_message(&mut self, msg: &HostMessage<Vec<u8>>) -> (r: Option<
        RadioMessage<Vec<u8>>,
    >)
        requires
            msg@ matches HostMessage::WriteFlash(m) ==> write_flash_safe(
                old(self).spec_state(),
                old(self).spec_flash().len() as int,
                m,
            ),
        ensures
            final(self).spec_session_id() == old(self).spec_session_id(),
            final(self).spec_version() == old(self).spec_version(),
            final(self).spec_boot() == old(self).spec_boot(),
            final(self).spec_eeprom() == old(self).spec_eeprom(),
            match msg@ {
                HostMessage::BootloaderReadyReply(m) => {
                    &&& final(self).spec_state() == (FlashState {
                        firmware_version: Some(m.version),
                        ..old(self).spec_state()
                    })
                    &&& final(self).spec_flash() == old(self).spec_flash()
                    &&& r == Some(
                        RadioMessage::<Vec<u8>>::BootloaderReady(
                            BootloaderReady {
                                chip_id: SIM_CHIP_ID,
                                version: old(self).spec_version(),
                            },
                        ),
                    )
                },
                HostMessage::WriteFlash(m) => {
                    let (st, fl, reply) = write_flash_step(
                        old(self).spec_state(),
                        old(self).spec_flash(),
                        m,
                    );
                    &&& final(self).spec_state() == st
                    &&& final(self).spec_flash() == fl
                    &&& match r {
                        Some(x) => reply == Some(x@),
                        None => reply is None,
                    }
                },
                _ => final(self).spec_state() == old(self).spec_state() && final(self).spec_flash()
                    == old(self).spec_flash() && r is None,
            },
    {
        match msg {
            HostMessage::BootloaderReadyReply(m) => {
                // real bootloaders check the version against their own; the
                // simulation takes any
                let mut st = self.state;
                st.firmware_version = Some(m.version);
                self.state = st;
                Some(RadioMessage::BootloaderReady(self.send_boot_ready()))
            },
            HostMessage::WriteFlash(m) => {
                if self.state.firmware_version.is_none() {
                    return Some(RadioMessage::WriteFlashReply(self.send_write_flash_error()));
                }
                if m.page == 0 {
                    // erase flash and set up state on first page
                    self.state.page = 0;
                    self.state.max_page = m.max_page;
                    self.state.session_id = m.session_id;
                    self.state.in_progress = true;
                    let n = self.flash.len();
                    let ghost st = self.state;
                    let mut i: usize = 0;
                    while i < n
                        invariant
                            i <= n == self.flash@.len(),
                            self.session_id == old(self).session_id,
                            self.version == old(self).version,
                            self.boot == old(self).boot,
                            self.eeprom == old(self).eeprom,
                            self.state == st,
                            forall|j: int| 0 <= j < i ==> self.flash@[j] == 0u8,
                        decreases n - i,
                    {
                        self.flash.set(i, 0);
                        i += 1;
                    }
                    assert(self.flash@ =~= Seq::new(n as nat, |i: int| 0u8));
                } else {
                    // bail if not in progress
                    if !self.state.in_progress {
                        return None;
                    }
                    // check this is the same session and the next page
                    if m.page != self.state.page + 1 || m.session_id != self.state.session_id {
                        self.state.in_progress = false;
                        return Some(RadioMessage::WriteFlashReply(self.send_write_flash_error()));
                    }
                }
                // copy in
                let ghost before = self.flash@;
                let ghost st = self.state;
                let flash_len = self.flash.len();
                let addr = m.page as usize * WRITE_FLASH_LEN;
                let mut i: usize = 0;
                while i < m.data.len()
                    invariant
                        i <= m.data@.len(),
                        addr == m.page * WRITE_FLASH_LEN,
                        addr + m.data@.len() <= before.len() == self.flash@.len() == flash_len,
                        self.session_id == old(self).session_id,
                        self.version == old(self).version,
                        self.boot == old(self).boot,
                        self.eeprom == old(self).eeprom,
                        self.state == st,
                        self.flash@ == write_page(before, m.page, m.data@.take(i as int)),
                    decreases m.data@.len() - i,
                {
                    self.flash.set(addr + i, m.data[i]);
                    i += 1;
                    assert(self.flash@ =~= write_page(before, m.page, m.data@.take(i as int)));
                }
                assert(m.data@.take(i as int) =~= m.data@);
                let reply = WriteFlashReply {
                    session_id: self.state.session_id,
                    page: m.page,
                    error: 0,
                };
                self.state.page = m.page;
                // is this the last page?
                if m.page + 1 == self.state.max_page {
                    // normally, the bootloader runs the new program now
                    self.state.in_progress = false;
                    self.state.firmware_version = None;
                }
                Some(RadioMessage::WriteFlashReply(reply))
            },
            _ => None,
        }
    }
}

} // verus!
