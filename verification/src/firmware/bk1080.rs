//! The BK1080 FM radio chip: a cache of its registers, read and written
//! over a raw I2C bus.
use vstd::prelude::*;

use crate::board::shared_i2c::{BusOp, I2cRaw};

verus! {

/// Device id.
pub const DEVICE_ID: u8 = 0x80;

// register addresses
pub const REG_UNKNOWN00: u8 = 0x00;

pub const REG_CHIP_ID: u8 = 0x01;

pub const REG_POWER: u8 = 0x02;

pub const REG_CHANNEL: u8 = 0x03;

pub const REG_SYSTEM1: u8 = 0x04;

pub const REG_SYSTEM2: u8 = 0x05;

pub const REG_SYSTEM3: u8 = 0x06;

pub const REG_TEST1: u8 = 0x07;

pub const REG_TEST2: u8 = 0x08;

pub const REG_BOOT: u8 = 0x09;

pub const REG_RSSI: u8 = 0x0a;

pub const REG_READ_CHANNEL: u8 = 0x0b;

/// Size of addressable space, in u16s. Other addresses exist but are
/// internal.
pub const REG_MAX: u8 = 0x22;

/// An error talking to the chip.
#[derive(Debug, Clone, Copy, PartialEq, Eq, PartialOrd, Ord, Hash)]
pub enum Error<E> {
    /// A register range outside the chip.
    InvalidData,
    /// An error on the bus.
    Bus(E),
}

/// One end of a range of registers.
#[derive(Debug, Clone, Copy, PartialEq, Eq, PartialOrd, Ord, Hash)]
pub enum RegBound {
    Included(u8),
    Excluded(u8),
    Unbounded,
}

/// The first register of a range.
pub open spec fn start_of(b: RegBound) -> int {
    match b {
        RegBound::Included(i) => i as int,
        RegBound::Excluded(i) => i + 1,
        RegBound::Unbounded => 0,
    }
}

/// The register after the last one of a range.
pub open spec fn end_of(b: RegBound) -> int {
    match b {
        RegBound::Included(i) => i + 1,
        RegBound::Excluded(i) => i as int,
        RegBound::Unbounded => REG_MAX as int,
    }
}

/// Registers read from bytes, each as a big-endian u16.
pub open spec fn be_regs(bytes: Seq<u8>) -> Seq<u16> {
    Seq::new(bytes.len() / 2, |k: int| ((bytes[2 * k] as u16) << 8u16) | (bytes[2 * k + 1] as u16))
}

/// The bus steps that read the registers from `start` on into `bytes`.
pub open spec fn read_log(start: int, bytes: Seq<u8>) -> Seq<BusOp> {
    seq![
        BusOp::Start,
        BusOp::Write(seq![DEVICE_ID, (((start as u8) << 1u8) | 1u8) as u8]),
        BusOp::Read(bytes),
        BusOp::Stop,
    ]
}

/// The bus steps that write `data` to register `address`.
pub open spec fn write_log(address: u8, data: u16) -> Seq<BusOp> {
    seq![
        BusOp::Start,
        BusOp::Write(seq![DEVICE_ID, (address << 1u8) as u8, (data >> 8u16) as u8, (data & 0xffu16) as u8]),
        BusOp::Stop,
    ]
}

/// The bus log `after` of a run of bus steps that stopped on an error,
/// where the whole run would have taken the steps `run` after `before`:
/// the steps up to and including the one that failed, at least one.
pub open spec fn stopped_within(before: Seq<BusOp>, run: Seq<BusOp>, after: Seq<BusOp>) -> bool {
    exists|k: int| 0 < k <= run.len() && after == before + run.take(k)
}

/// A run that stopped within its second part stopped within the whole.
proof fn lemma_stopped_within_tail(before: Seq<BusOp>, first: Seq<BusOp>, rest: Seq<BusOp>, after: Seq<BusOp>)
    requires
        stopped_within(before + first, rest, after),
    ensures
        stopped_within(before, first + rest, after),
{
    let k = choose|k: int| 0 < k <= rest.len() && after == before + first + rest.take(k);
    assert((first + rest).take(first.len() + k) =~= first + rest.take(k));
    assert(after =~= before + (first + rest).take(first.len() + k));
}

/// The values written to every register to set the chip up: the power
/// register enables the chip with seek up; system 1 enables the seek/tune
/// interrupt with stereo blend adjusted; system 2 sets the seek threshold,
/// the 87.5 - 108 MHz band, 100 kHz spacing and full volume; system 3 the
/// seek sensitivity; the rest are the chip's start-up values.
pub const INITREGS: [u16; 34] = [0x0008, 0x1080, 0x0201, 0x0000, 0x40c0, 0x0a1f, 0x002e, 0x02ff, 0x5b11, 0x0000, 0x411e, 0x0000, 0xce00, 0x0000, 0x0000, 0x1000, 0x3197, 0x0000, 0x13ff, 0x9852, 0x0000, 0x0000, 0x0008, 0x0000, 0x51e1, 0xa8bc, 0x2645, 0x00e4, 0x1cd8, 0x3a50, 0xeae0, 0x3000, 0x0200, 0x0000];

/// The register writes that set the chip up, in order: every register
/// from [INITREGS], then the power register and system 2 again.
pub open spec fn init_writes() -> Seq<(u8, u16)> {
    Seq::new(34, |a: int| (a as u8, INITREGS@[a])) + seq![(REG_POWER, 0x0201u16), (REG_SYSTEM2, 0x0a0fu16)]
}

/// The bus steps of the first `n` register writes of `ws`, each read
/// back into `rs`.
pub open spec fn writes_log(ws: Seq<(u8, u16)>, rs: Seq<Seq<u8>>, n: int) -> Seq<BusOp>
    decreases n,
{
    if n <= 0 {
        Seq::empty()
    } else {
        writes_log(ws, rs, n - 1) + write_log(ws[n - 1].0, ws[n - 1].1) + read_log(
            ws[n - 1].0 as int,
            rs[n - 1],
        )
    }
}

/// The bus log `after` of a run of register writes `ws` that stopped on
/// a bus error: the writes before write `j`, each read back, then the
/// steps of write `j` and its read-back up to and including the one that
/// failed.
pub open spec fn writes_stopped(ws: Seq<(u8, u16)>, before: Seq<BusOp>, after: Seq<BusOp>) -> bool {
    exists|rs: Seq<Seq<u8>>, j: int, bytes: Seq<u8>|
        #![trigger writes_log(ws, rs, j), read_log(ws[j].0 as int, bytes)]
        0 <= j < ws.len() && rs.len() == j && bytes.len() == 2 && stopped_within(
            before + writes_log(ws, rs, j),
            write_log(ws[j].0, ws[j].1) + read_log(ws[j].0 as int, bytes),
            after,
        )
}

/// The bus steps of the first `n` writes use only the first `n` reads.
proof fn lemma_writes_log_frame(ws: Seq<(u8, u16)>, r1: Seq<Seq<u8>>, r2: Seq<Seq<u8>>, n: int)
    requires
        0 <= n <= r1.len(),
        n <= r2.len(),
        forall|j: int| 0 <= j < n ==> #[trigger] r1[j] == r2[j],
    ensures
        writes_log(ws, r1, n) == writes_log(ws, r2, n),
    decreases n,
{
    if n > 0 {
        lemma_writes_log_frame(ws, r1, r2, n - 1);
        assert(r1[n - 1] == r2[n - 1]);
    }
}

/// The interface to the BK1080.
pub struct Bk1080<I> {
    i2c: I,
    registers: Vec<u16>,
}

impl<I: I2cRaw> Bk1080<I> {
    /// The bus.
    pub closed spec fn spec_i2c(&self) -> I {
        self.i2c
    }

    /// The cached registers.
    pub closed spec fn spec_registers(&self) -> Seq<u16> {
        self.registers@
    }

    /// The cache holds every register.
    pub open spec fn wf(&self) -> bool {
        self.spec_registers().len() == REG_MAX
    }

    /// Read the registers in a range from the chip into the cache, and
    /// give them. A range outside the chip is invalid; an empty one reads
    /// nothing.
    pub fn update(&mut self, start: RegBound, end: RegBound) -> (r: Result<&[u16], Error<I::Error>>)
        requires
            old(self).wf(),
            start != RegBound::Excluded(255),
        ensures
            final(self).wf(),
            r matches Err(Error::Bus(e)) ==> final(self).spec_i2c().last_error() == Some(e),
            ({
                let s = start_of(start);
                let e = end_of(end);
                if s > e || e > REG_MAX {
                    r == Err::<&[u16], Error<I::Error>>(Error::InvalidData) && *final(self)
                        == *old(self)
                } else if s == e {
                    r matches Ok(regs) && regs@.len() == 0 && *final(self) == *old(self)
                } else {
                    r matches Ok(regs) ==> exists|bytes: Seq<u8>|
                        #![trigger read_log(s, bytes)]
                        {
                            &&& bytes.len() == 2 * (e - s)
                            &&& final(self).spec_i2c().bus_log() == old(self).spec_i2c().bus_log()
                                + read_log(s, bytes)
                            &&& regs@ == be_regs(bytes)
                            &&& final(self).spec_registers() == old(self).spec_registers().subrange(
                                0,
                                s,
                            ) + be_regs(bytes) + old(self).spec_registers().subrange(
                                e,
                                REG_MAX as int,
                            )
                        }
                }
            }),
            r is Err && start_of(start) <= end_of(end) <= REG_MAX ==> (r matches Err(Error::Bus(_)))
                && final(self).spec_registers() == old(self).spec_registers() && exists|
                bytes: Seq<u8>,
            |
                #![trigger read_log(start_of(start), bytes)]
                bytes.len() == 2 * (end_of(end) - start_of(start)) && stopped_within(
                    old(self).spec_i2c().bus_log(),
                    read_log(start_of(start), bytes),
                    final(self).spec_i2c().bus_log(),
                ),
    {
        let s: usize = match start {
            RegBound::Included(i) => i as usize,
            RegBound::Excluded(i) => i as usize + 1,
            RegBound::Unbounded => 0,
        };
        let e: usize = match end {
            RegBound::Included(i) => i as usize + 1,
            RegBound::Excluded(i) => i as usize,
            RegBound::Unbounded => self.registers.len(),
        };
        if s > e || e > self.registers.len() {
            // not a great choice but it'll do
            return Err(Error::InvalidData);
        }
        if s == e {
            return Ok(vstd::slice::slice_subrange(self.registers.as_slice(), 0, 0));
        }
        let n = 2 * (e - s);
        let mut data: Vec<u8> = Vec::new();
        let mut z: usize = 0;
        while z < n
            invariant
                z <= n,
                data@.len() == z,
            decreases n - z,
        {
            data.push(0);
            z += 1;
        }
        let ghost log0 = self.i2c.bus_log();
        assert(read_log(s as int, data@) == read_log(start_of(start), data@));
        match self.i2c.start_raw() {
            Ok(()) => {},
            Err(x) => {
                assert(self.i2c.bus_log() =~= log0 + read_log(s as int, data@).take(1));
                return Err(Error::Bus(x));
            },
        }
        let header = [DEVICE_ID, ((s as u8) << 1u8) | 1u8];
        assert(header@ =~= seq![DEVICE_ID, (((s as u8) << 1u8) | 1u8) as u8]);
        match self.i2c.write_raw(header.as_slice()) {
            Ok(()) => {},
            Err(x) => {
                assert(self.i2c.bus_log() =~= log0 + read_log(s as int, data@).take(2));
                return Err(Error::Bus(x));
            },
        }
        match self.i2c.read_raw(data.as_mut_slice()) {
            Ok(()) => {},
            Err(x) => {
                assert(read_log(s as int, data@) == read_log(start_of(start), data@));
                assert(self.i2c.bus_log() =~= log0 + read_log(s as int, data@).take(3));
                return Err(Error::Bus(x));
            },
        }
        match self.i2c.stop_raw() {
            Ok(()) => {},
            Err(x) => {
                assert(read_log(s as int, data@) == read_log(start_of(start), data@));
                assert(self.i2c.bus_log() =~= log0 + read_log(s as int, data@).take(4));
                return Err(Error::Bus(x));
            },
        }
        let ghost bytes = data@;
        assert(self.i2c.bus_log() =~= log0 + read_log(s as int, bytes));
        let ghost before = self.registers@;
        let ghost bus = self.i2c;
        let mut k: usize = 0;
        while k < e - s
            invariant
                s < e <= before.len() == self.registers@.len() == REG_MAX,
                data@ == bytes,
                self.i2c == bus,
                bytes.len() == 2 * (e - s),
                k <= e - s,
                self.registers@ == before.subrange(0, s as int) + be_regs(bytes).take(k as int)
                    + before.subrange(s + k, before.len() as int),
            decreases e - s - k,
        {
            let v = ((data[2 * k] as u16) << 8u16) | (data[2 * k + 1] as u16);
            self.registers.set(s + k, v);
            k += 1;
            assert(self.registers@ =~= before.subrange(0, s as int) + be_regs(bytes).take(k as int)
                + before.subrange(s + k, before.len() as int));
        }
        assert(be_regs(bytes).take(k as int) =~= be_regs(bytes));
        let regs = vstd::slice::slice_subrange(self.registers.as_slice(), s, e);
        assert(regs@ =~= be_regs(bytes));
        assert(self.registers@ =~= before.subrange(0, s as int) + be_regs(bytes) + before.subrange(
            e as int,
            REG_MAX as int,
        ));
        assert(read_log(s as int, bytes) == read_log(start_of(start), bytes));
        Ok(regs)
    }

    /// Set up the chip: read all its registers into the cache.
    pub fn new(i2c: I) -> (r: Result<Self, Error<I::Error>>)
        ensures
            r is Err ==> r matches Err(Error::Bus(_)),
            r matches Ok(b) ==> b.wf() && exists|bytes: Seq<u8>|
                #![trigger read_log(0, bytes)]
                {
                    &&& bytes.len() == 2 * REG_MAX
                    &&& b.spec_i2c().bus_log() == i2c.bus_log() + read_log(0, bytes)
                    &&& b.spec_registers() == be_regs(bytes)
                },
    {
        let mut registers: Vec<u16> = Vec::new();
        let mut k: usize = 0;
        while k < REG_MAX as usize
            invariant
                k <= REG_MAX,
                registers@.len() == k,
            decreases REG_MAX - k,
        {
            registers.push(0);
            k += 1;
        }
        let mut bk1080 = Bk1080 { i2c, registers };
        match bk1080.update(RegBound::Unbounded, RegBound::Unbounded) {
            Ok(_) => {},
            Err(e) => return Err(e),
        }
        proof {
            let bytes = choose|bytes: Seq<u8>|
                #![trigger read_log(0, bytes)]
                {
                    &&& bytes.len() == 2 * REG_MAX
                    &&& bk1080.i2c.bus_log() == i2c.bus_log() + read_log(0, bytes)
                    &&& bk1080.registers@ == Seq::<u16>::empty() + be_regs(bytes) + Seq::<
                        u16,
                    >::empty()
                };
            assert(bk1080.registers@ =~= be_regs(bytes));
        }
        Ok(bk1080)
    }

    /// Read one register from the chip, into the cache.
    pub fn read(&mut self, address: u8) -> (r: Result<u16, Error<I::Error>>)
        requires
            old(self).wf(),
            address < 255,
        ensures
            final(self).wf(),
            r matches Err(Error::Bus(e)) ==> final(self).spec_i2c().last_error() == Some(e),
            address >= REG_MAX ==> r == Err::<u16, Error<I::Error>>(Error::InvalidData)
                && *final(self) == *old(self),
            r is Err ==> final(self).spec_registers() == old(self).spec_registers(),
            address < REG_MAX && r is Err ==> r matches Err(Error::Bus(_)),
            address < REG_MAX && r is Err ==> exists|bytes: Seq<u8>|
                #![trigger read_log(address as int, bytes)]
                bytes.len() == 2 && stopped_within(
                    old(self).spec_i2c().bus_log(),
                    read_log(address as int, bytes),
                    final(self).spec_i2c().bus_log(),
                ),
            r matches Ok(v) ==> address < REG_MAX && exists|bytes: Seq<u8>|
                #![trigger read_log(address as int, bytes)]
                {
                    &&& bytes.len() == 2
                    &&& final(self).spec_i2c().bus_log() == old(self).spec_i2c().bus_log()
                        + read_log(address as int, bytes)
                    &&& v == be_regs(bytes)[0]
                    &&& final(self).spec_registers() == old(self).spec_registers().update(
                        address as int,
                        v,
                    )
                },
    {
        let regs = self.update(RegBound::Included(address), RegBound::Excluded(address + 1))?;
        let v = regs[0];
        proof {
            let s = address as int;
            let bytes = choose|bytes: Seq<u8>|
                #![trigger read_log(s, bytes)]
                {
                    &&& bytes.len() == 2 * (s + 1 - s)
                    &&& self.i2c.bus_log() == old(self).i2c.bus_log() + read_log(s, bytes)
                    &&& regs@ == be_regs(bytes)
                    &&& self.registers@ == old(self).registers@.subrange(0, s) + be_regs(bytes)
                        + old(self).registers@.subrange(s + 1, REG_MAX as int)
                };
            assert(self.registers@ =~= old(self).registers@.update(s, v));
        }
        Ok(v)
    }

    /// Write one register of the chip, then read it back into the cache.
    pub fn write(&mut self, address: u8, data: u16) -> (r: Result<u16, Error<I::Error>>)
        requires
            old(self).wf(),
        ensures
            final(self).wf(),
            r matches Err(Error::Bus(e)) ==> final(self).spec_i2c().last_error() == Some(e),
            address >= REG_MAX ==> r == Err::<u16, Error<I::Error>>(Error::InvalidData)
                && *final(self) == *old(self),
            r is Err ==> final(self).spec_registers() == old(self).spec_registers(),
            address < REG_MAX && r is Err ==> r matches Err(Error::Bus(_)),
            address < REG_MAX && r is Err ==> exists|bytes: Seq<u8>|
                #![trigger read_log(address as int, bytes)]
                bytes.len() == 2 && stopped_within(
                    old(self).spec_i2c().bus_log(),
                    write_log(address, data) + read_log(address as int, bytes),
                    final(self).spec_i2c().bus_log(),
                ),
            r matches Ok(v) ==> address < REG_MAX && exists|bytes: Seq<u8>|
                #![trigger read_log(address as int, bytes)]
                {
                    &&& bytes.len() == 2
                    &&& final(self).spec_i2c().bus_log() == old(self).spec_i2c().bus_log()
                        + write_log(address, data) + read_log(address as int, bytes)
                    &&& v == be_regs(bytes)[0]
                    &&& final(self).spec_registers() == old(self).spec_registers().update(
                        address as int,
                        v,
                    )
                },
    {
        if address as usize >= self.registers.len() {
            return Err(Error::InvalidData);
        }
        let ghost log0 = self.i2c.bus_log();
        let ghost any = seq![0u8, 0u8];
        let ghost whole = write_log(address, data) + read_log(address as int, any);
        match self.i2c.start_raw() {
            Ok(()) => {},
            Err(x) => {
                assert(self.i2c.bus_log() =~= log0 + whole.take(1));
                return Err(Error::Bus(x));
            },
        }
        let out = [DEVICE_ID, address << 1u8, ((data & 0xff00u16) >> 8u16) as u8, (data & 0x00ffu16) as u8];
        assert(out@ =~= seq![DEVICE_ID, (address << 1u8) as u8, (data >> 8u16) as u8, (data & 0xffu16) as u8]) by {
            assert(((data & 0xff00u16) >> 8u16) as u8 == (data >> 8u16) as u8) by (bit_vector);
        }
        match self.i2c.write_raw(out.as_slice()) {
            Ok(()) => {},
            Err(x) => {
                assert(self.i2c.bus_log() =~= log0 + whole.take(2));
                return Err(Error::Bus(x));
            },
        }
        match self.i2c.stop_raw() {
            Ok(()) => {},
            Err(x) => {
                assert(self.i2c.bus_log() =~= log0 + whole.take(3));
                return Err(Error::Bus(x));
            },
        }
        assert(self.i2c.bus_log() =~= log0 + write_log(address, data));
        let v = match self.read(address) {
            Ok(v) => v,
            Err(e) => {
                proof {
                    let bytes = choose|bytes: Seq<u8>|
                        #![trigger read_log(address as int, bytes)]
                        bytes.len() == 2 && stopped_within(
                            log0 + write_log(address, data),
                            read_log(address as int, bytes),
                            self.i2c.bus_log(),
                        );
                    lemma_stopped_within_tail(
                        log0,
                        write_log(address, data),
                        read_log(address as int, bytes),
                        self.i2c.bus_log(),
                    );
                }
                return Err(e);
            },
        };
        Ok(v)
    }

    /// Write each register of `ws` in turn, reading it back.
    fn write_each(&mut self, ws: &[(u8, u16)]) -> (r: Result<(), Error<I::Error>>)
        requires
            old(self).wf(),
            forall|k: int| 0 <= k < ws@.len() ==> (#[trigger] ws@[k]).0 < REG_MAX,
        ensures
            final(self).wf(),
            r matches Err(Error::Bus(e)) ==> final(self).spec_i2c().last_error() == Some(e),
            r is Err ==> r matches Err(Error::Bus(_)),
            r is Err ==> writes_stopped(ws@, old(self).spec_i2c().bus_log(), final(self).spec_i2c().bus_log()),
            r is Ok ==> exists|rs: Seq<Seq<u8>>|
                #![trigger writes_log(ws@, rs, ws@.len() as int)]
                rs.len() == ws@.len() && final(self).spec_i2c().bus_log() == old(
                    self,
                ).spec_i2c().bus_log() + writes_log(ws@, rs, ws@.len() as int),
    {
        let ghost mut rs: Seq<Seq<u8>> = Seq::empty();
        let mut k: usize = 0;
        while k < ws.len()
            invariant
                k <= ws@.len(),
                self.wf(),
                forall|j: int| 0 <= j < ws@.len() ==> (#[trigger] ws@[j]).0 < REG_MAX,
                rs.len() == k,
                self.i2c.bus_log() == old(self).i2c.bus_log() + writes_log(ws@, rs, k as int),
            decreases ws@.len() - k,
        {
            let (a, v) = ws[k];
            let ghost log0 = self.i2c.bus_log();
            match self.write(a, v) {
                Ok(_) => {},
                Err(e) => {
                    proof {
                        let bytes = choose|bytes: Seq<u8>|
                            #![trigger read_log(a as int, bytes)]
                            bytes.len() == 2 && stopped_within(
                                log0,
                                write_log(a, v) + read_log(a as int, bytes),
                                self.i2c.bus_log(),
                            );
                        assert(ws@[k as int] == (a, v));
                        assert(writes_log(ws@, rs, k as int) == writes_log(ws@, rs, k as int));
                        assert(read_log(ws@[k as int].0 as int, bytes) == read_log(a as int, bytes));
                    }
                    return Err(e);
                },
            }
            proof {
                let bytes = choose|bytes: Seq<u8>|
                    #![trigger read_log(a as int, bytes)]
                    {
                        &&& bytes.len() == 2
                        &&& self.i2c.bus_log() == log0 + write_log(a, v) + read_log(a as int, bytes)
                        &&& self.registers@[a as int] == be_regs(bytes)[0]
                    };
                let rs2 = rs.push(bytes);
                assert(writes_log(ws@, rs2, k as int) == writes_log(ws@, rs, k as int)) by {
                    lemma_writes_log_frame(ws@, rs, rs2, k as int);
                }
                rs = rs2;
                assert(self.i2c.bus_log() =~= old(self).i2c.bus_log() + writes_log(ws@, rs, k + 1));
            }
            k += 1;
        }
        Ok(())
    }

    /// Set the chip up: write every register from [INITREGS], then the
    /// power register again and system 2 with its channel spacing field
    /// cleared.
    pub fn enable(&mut self) -> (r: Result<(), Error<I::Error>>)
        requires
            old(self).wf(),
        ensures
            final(self).wf(),
            r matches Err(Error::Bus(e)) ==> final(self).spec_i2c().last_error() == Some(e),
            r is Err ==> r matches Err(Error::Bus(_)),
            r is Err ==> writes_stopped(init_writes(), old(self).spec_i2c().bus_log(), final(self).spec_i2c().bus_log()),
            r is Ok ==> exists|rs: Seq<Seq<u8>>|
                #![trigger writes_log(init_writes(), rs, 36)]
                rs.len() == 36 && final(self).spec_i2c().bus_log() == old(self).spec_i2c().bus_log()
                    + writes_log(init_writes(), rs, 36),
    {
        let mut ws: Vec<(u8, u16)> = Vec::new();
        let mut a: usize = 0;
        while a < 34
            invariant
                a <= 34,
                ws@ == init_writes().take(a as int),
            decreases 34 - a,
        {
            ws.push((a as u8, INITREGS[a]));
            a += 1;
            assert(ws@ =~= init_writes().take(a as int));
        }
        ws.push((REG_POWER, 0x0201));
        ws.push((REG_SYSTEM2, 0x0a0f));
        assert(ws@ =~= init_writes());
        self.write_each(ws.as_slice())
    }

    /// Get a cached register.
    pub fn get(&self, address: u8) -> (r: Option<u16>)
        ensures
            address < self.spec_registers().len() ==> r == Some(
                self.spec_registers()[address as int],
            ),
            address >= self.spec_registers().len() ==> r is None,
    {
        if (address as usize) < self.registers.len() {
            Some(self.registers[address as usize])
        } else {
            None
        }
    }

    /// The bus the chip sits on.
    pub fn i2c(&self) -> (r: &I)
        ensures
            *r == self.spec_i2c(),
    {
        &self.i2c
    }
}

/// The seek/tune complete bit of the RSSI register.
pub const STC: u16 = 0x4000;

/// The tune bit of the channel register.
pub const TUNE: u16 = 0x8000;

/// Where a tune is: waiting for the chip to clear its seek/tune complete
/// bit after the channel was set, then for it to set the bit once the
/// tune bit was written.
#[derive(Debug, Clone, Copy, PartialEq, Eq, PartialOrd, Ord, Hash)]
pub enum TuneStep {
    WaitClear,
    WaitSet,
    Done,
}

/// What a tune needs next.
#[derive(Debug, Clone, Copy, PartialEq, Eq, PartialOrd, Ord, Hash)]
pub enum TuneAction {
    /// Read the RSSI register again.
    ReadRssi,
    /// Write this to the channel register, then read the RSSI register.
    WriteChannel(u16),
    /// The chip is tuned.
    Done,
}

/// Tuning the chip to a channel, driven by reads of its RSSI register.
#[derive(Debug, Clone, Copy, PartialEq, Eq, PartialOrd, Ord, Hash)]
pub struct Tuner {
    pub channel: u16,
    pub step: TuneStep,
}

impl Tuner {
    /// Start tuning to channel `freq`: the channel register gets the
    /// channel number (its low ten bits), without the tune bit; then the
    /// RSSI register is read.
    pub fn new(freq: u16) -> (r: (Tuner, u16))
        ensures
            r.0 == (Tuner { channel: freq & 0x3ff, step: TuneStep::WaitClear }),
            r.1 == freq & 0x3ff,
    {
        (Tuner { channel: freq & 0x3ff, step: TuneStep::WaitClear }, freq & 0x3ff)
    }

    /// Take a read of the RSSI register: once its seek/tune complete bit
    /// is clear, write the channel with the tune bit; once it is set
    /// again, the tune is done.
    pub fn on_rssi(&mut self, rssi: u16) -> (a: TuneAction)
        ensures
            final(self).channel == old(self).channel,
            match old(self).step {
                TuneStep::WaitClear => if rssi & STC > 0 {
                    a == TuneAction::ReadRssi && final(self).step == TuneStep::WaitClear
                } else {
                    a == TuneAction::WriteChannel(old(self).channel | TUNE) && final(self).step
                        == TuneStep::WaitSet
                },
                TuneStep::WaitSet => if rssi & STC == 0 {
                    a == TuneAction::ReadRssi && final(self).step == TuneStep::WaitSet
                } else {
                    a == TuneAction::Done && final(self).step == TuneStep::Done
                },
                TuneStep::Done => a == TuneAction::Done && final(self).step == TuneStep::Done,
            },
    {
        match self.step {
            TuneStep::WaitClear => if rssi & STC > 0 {
                TuneAction::ReadRssi
            } else {
                self.step = TuneStep::WaitSet;
                TuneAction::WriteChannel(self.channel | TUNE)
            },
            TuneStep::WaitSet => if rssi & STC == 0 {
                TuneAction::ReadRssi
            } else {
                self.step = TuneStep::Done;
                TuneAction::Done
            },
            TuneStep::Done => TuneAction::Done,
        }
    }
}

} // verus!
