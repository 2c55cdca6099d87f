//! Raw access to an I2C bus, and I2C transactions built from it.
use vstd::prelude::*;
use vstd::slice::SliceAdditionalExecFns;

verus! {

/// A step on the bus, as seen by whoever watches it.
pub enum BusOp {
    /// A start (or repeated start) condition.
    Start,
    /// A stop condition.
    Stop,
    /// Bytes sent.
    Write(Seq<u8>),
    /// Bytes received.
    Read(Seq<u8>),
}

/// Provides raw I2C bus primitives. Each one, whether it succeeds or not,
/// is one more step in the log of the bus.
pub trait I2cRaw {
    /// The Error type this I2C bus produces.
    type Error;

    /// The steps taken on the bus so far.
    spec fn bus_log(&self) -> Seq<BusOp>;

    /// The error of the last step that failed, if any.
    spec fn last_error(&self) -> Option<Self::Error>;

    /// Send a raw I2C start.
    fn start_raw(&mut self) -> (r: Result<(), Self::Error>)
        ensures
            final(self).bus_log() == old(self).bus_log().push(BusOp::Start),
            r matches Err(e) ==> final(self).last_error() == Some(e),
    ;

    /// Send a raw I2C stop.
    fn stop_raw(&mut self) -> (r: Result<(), Self::Error>)
        ensures
            final(self).bus_log() == old(self).bus_log().push(BusOp::Stop),
            r matches Err(e) ==> final(self).last_error() == Some(e),
    ;

    /// Read raw bytes from the bus.
    fn read_raw(&mut self, input: &mut [u8]) -> (r: Result<(), Self::Error>)
        ensures
            final(input)@.len() == old(input)@.len(),
            final(self).bus_log() == old(self).bus_log().push(BusOp::Read(final(input)@)),
            r matches Err(e) ==> final(self).last_error() == Some(e),
    ;

    /// Write raw bytes to the bus.
    fn write_raw(&mut self, output: &[u8]) -> (r: Result<(), Self::Error>)
        ensures
            final(self).bus_log() == old(self).bus_log().push(BusOp::Write(output@)),
            r matches Err(e) ==> final(self).last_error() == Some(e),
    ;
}

/// A step on the bus, as recorded by a [ScriptedBus].
#[derive(Debug, Clone, PartialEq, Eq, PartialOrd, Ord, Hash)]
pub enum BusStep {
    Start,
    Stop,
    Write(Vec<u8>),
    Read(Vec<u8>),
}

/// The view of a recorded step.
pub open spec fn step_view(s: BusStep) -> BusOp {
    match s {
        BusStep::Start => BusOp::Start,
        BusStep::Stop => BusOp::Stop,
        BusStep::Write(b) => BusOp::Write(b@),
        BusStep::Read(b) => BusOp::Read(b@),
    }
}

/// A bus without a device, for running bus logic off the radio: it
/// records every step, and answers reads with scripted bytes (zeros once
/// the script runs out).
#[derive(Debug, Clone, PartialEq, Eq, PartialOrd, Ord, Hash)]
pub struct ScriptedBus {
    steps: Vec<BusStep>,
    replies: Vec<u8>,
    next: usize,
}

/// The bytes that a read of `n` bytes gets from a bus whose script still
/// holds `pending`: the next bytes of the script, then zeros.
pub open spec fn scripted_read(pending: Seq<u8>, n: int) -> Seq<u8> {
    Seq::new(n as nat, |i: int| if i < pending.len() { pending[i] } else { 0u8 })
}

/// What is left of a script after a read of `n` bytes.
pub open spec fn script_after(pending: Seq<u8>, n: int) -> Seq<u8> {
    if n < pending.len() {
        pending.subrange(n, pending.len() as int)
    } else {
        Seq::empty()
    }
}

impl ScriptedBus {
    /// The scripted bytes that later reads will get, in order.
    pub closed spec fn pending(&self) -> Seq<u8> {
        if self.next <= self.replies@.len() {
            self.replies@.subrange(self.next as int, self.replies@.len() as int)
        } else {
            Seq::empty()
        }
    }

    /// A bus that will answer reads with `replies`, in order.
    pub fn new(replies: Vec<u8>) -> (b: Self)
        ensures
            b.bus_log() == Seq::<BusOp>::empty(),
            b.pending() == replies@,
    {
        let b = ScriptedBus { steps: Vec::new(), replies, next: 0 };
        assert(b.bus_log() =~= Seq::<BusOp>::empty());
        assert(b.pending() =~= b.replies@);
        b
    }

    /// The steps taken so far.
    pub fn steps(&self) -> (s: &[BusStep])
        ensures
            Seq::new(s@.len(), |i: int| step_view(s@[i])) == self.bus_log(),
    {
        let s = self.steps.as_slice();
        assert(Seq::new(s@.len(), |i: int| step_view(s@[i])) =~= self.bus_log());
        s
    }

    /// Record one more step.
    fn record(&mut self, step: BusStep)
        ensures
            final(self).bus_log() == old(self).bus_log().push(step_view(step)),
            final(self).replies == old(self).replies,
            final(self).next == old(self).next,
    {
        self.steps.push(step);
        assert(self.bus_log() =~= old(self).bus_log().push(step_view(step)));
    }
}

impl I2cRaw for ScriptedBus {
    type Error = ();

    closed spec fn bus_log(&self) -> Seq<BusOp> {
        Seq::new(self.steps@.len(), |i: int| step_view(self.steps@[i]))
    }

    closed spec fn last_error(&self) -> Option<()> {
        None
    }

    fn start_raw(&mut self) -> (r: Result<(), ()>) {
        self.record(BusStep::Start);
        Ok(())
    }

    fn stop_raw(&mut self) -> (r: Result<(), ()>) {
        self.record(BusStep::Stop);
        Ok(())
    }

    fn read_raw(&mut self, input: &mut [u8]) -> (r: Result<(), ()>)
        ensures
            final(input)@ == scripted_read(old(self).pending(), old(input)@.len() as int),
            final(self).pending() == script_after(old(self).pending(), old(input)@.len() as int),
            r is Ok,
    {
        let ghost p = self.pending();
        let mut i: usize = 0;
        while i < input.len()
            invariant
                i <= input@.len() == old(input)@.len(),
                self.steps@ == old(self).steps@,
                self.replies@ == old(self).replies@,
                p == old(self).pending(),
                self.pending() == script_after(p, i as int),
                old(self).next <= self.replies@.len() ==> self.next == if old(self).next + i
                    < self.replies@.len() {
                    old(self).next + i
                } else {
                    self.replies@.len() as int
                },
                old(self).next > self.replies@.len() ==> self.next == old(self).next,
                forall|j: int| 0 <= j < i ==> input@[j] == scripted_read(p, i as int)[j],
            decreases input@.len() - i,
        {
            let b = if self.next < self.replies.len() {
                self.replies[self.next]
            } else {
                0
            };
            if self.next < self.replies.len() {
                self.next = self.next + 1;
            }
            input.set(i, b);
            i += 1;
            assert(self.pending() =~= script_after(p, i as int));
        }
        assert(input@ =~= scripted_read(p, i as int));
        let mut got: Vec<u8> = Vec::new();
        let mut j: usize = 0;
        while j < input.len()
            invariant
                j <= input@.len(),
                got@ == input@.take(j as int),
                self.steps@ == old(self).steps@,
            decreases input@.len() - j,
        {
            got.push(input[j]);
            j += 1;
            assert(got@ =~= input@.take(j as int));
        }
        assert(got@ =~= input@);
        self.record(BusStep::Read(got));
        Ok(())
    }

    fn write_raw(&mut self, output: &[u8]) -> (r: Result<(), ()>) {
        self.record(BusStep::Write(vstd::slice::slice_to_vec(output)));
        Ok(())
    }
}

/// One operation of a transaction.
#[derive(Debug, Clone, PartialEq, Eq, PartialOrd, Ord, Hash)]
pub enum Operation {
    /// Read this many bytes.
    Read(usize),
    /// Write these bytes.
    Write(Vec<u8>),
}

/// The address byte that starts a read (`true`) or a write.
pub open spec fn address_byte(address: u8, read: bool) -> u8 {
    if read {
        ((address << 1u8) | 1u8) as u8
    } else {
        (address << 1u8) as u8
    }
}

/// The number of reads among the first `k` operations.
pub open spec fn reads_before(ops: Seq<Operation>, k: int) -> int
    decreases k,
{
    if k <= 0 {
        0
    } else {
        reads_before(ops, k - 1) + if ops[k - 1] is Read {
            1int
        } else {
            0int
        }
    }
}

/// The bus steps of operation `k`: before the first operation, and
/// after a repeated start where the direction changes, the address with
/// the direction; then the bytes read (the next of `reads`) or written.
pub open spec fn op_log(address: u8, ops: Seq<Operation>, reads: Seq<Seq<u8>>, k: int) -> Seq<BusOp> {
    let write = ops[k] is Write;
    let head = if k == 0 {
        seq![BusOp::Write(seq![address_byte(address, !write)])]
    } else if (ops[k - 1] is Write) != write {
        seq![BusOp::Start, BusOp::Write(seq![address_byte(address, !write)])]
    } else {
        Seq::empty()
    };
    match ops[k] {
        Operation::Read(_) => head + seq![BusOp::Read(reads[reads_before(ops, k)])],
        Operation::Write(b) => head + seq![BusOp::Write(b@)],
    }
}

/// The bus steps of the first `n` operations.
pub open spec fn ops_log(address: u8, ops: Seq<Operation>, reads: Seq<Seq<u8>>, n: int) -> Seq<
    BusOp,
>
    decreases n,
{
    if n <= 0 {
        Seq::empty()
    } else {
        ops_log(address, ops, reads, n - 1) + op_log(address, ops, reads, n - 1)
    }
}

/// Counting reads never goes back, and passes each read.
proof fn lemma_reads_before_mono(ops: Seq<Operation>, k: int, n: int)
    requires
        0 <= k <= n <= ops.len(),
    ensures
        reads_before(ops, k) <= reads_before(ops, n),
        k < n && ops[k] is Read ==> reads_before(ops, k) < reads_before(ops, n),
    decreases n - k,
{
    if k < n {
        lemma_reads_before_mono(ops, k, n - 1);
        if k < n - 1 {
            lemma_reads_before_mono(ops, k + 1, n);
        }
    }
}

/// The bus steps of the first `n` operations use only the reads they
/// count.
proof fn lemma_ops_log_frame(
    address: u8,
    ops: Seq<Operation>,
    r1: Seq<Seq<u8>>,
    r2: Seq<Seq<u8>>,
    n: int,
)
    requires
        0 <= n <= ops.len(),
        forall|j: int| 0 <= j < reads_before(ops, n) ==> #[trigger] r1[j] == r2[j],
    ensures
        ops_log(address, ops, r1, n) == ops_log(address, ops, r2, n),
    decreases n,
{
    if n > 0 {
        lemma_reads_before_mono(ops, n - 1, n);
        lemma_reads_before_mono(ops, 0, n - 1);
        lemma_ops_log_frame(address, ops, r1, r2, n - 1);
        if ops[n - 1] is Read {
            assert(r1[reads_before(ops, n - 1)] == r2[reads_before(ops, n - 1)]);
        }
        assert(op_log(address, ops, r1, n - 1) == op_log(address, ops, r2, n - 1));
    }
}

/// The bytes read, as views.
pub open spec fn reads_view(reads: Seq<Vec<u8>>) -> Seq<Seq<u8>> {
    Seq::new(reads.len(), |k: int| reads[k]@)
}

/// The operations read as many bytes as they ask for.
pub open spec fn reads_fit(ops: Seq<Operation>, reads: Seq<Seq<u8>>) -> bool {
    forall|k: int|
        0 <= k < ops.len() ==> (#[trigger] ops[k] matches Operation::Read(n) ==> reads[reads_before(
            ops,
            k,
        )].len() == n)
}

/// The bus steps of a whole transaction that starts from `before`, with
/// `reads` as the bytes of its reads: a start, the operations, a stop.
pub open spec fn transaction_log(
    before: Seq<BusOp>,
    address: u8,
    ops: Seq<Operation>,
    reads: Seq<Seq<u8>>,
) -> Seq<BusOp> {
    before + seq![BusOp::Start] + ops_log(address, ops, reads, ops.len() as int) + seq![BusOp::Stop]
}

/// The bus log `after` of a transaction that failed: its steps up to and
/// including the one on which the bus gave an error, which is at least
/// the start.
pub open spec fn failed_log(before: Seq<BusOp>, address: u8, ops: Seq<Operation>, after: Seq<BusOp>) -> bool {
    exists|reads: Seq<Seq<u8>>, k: int|
        before.len() < k <= transaction_log(before, address, ops, reads).len() && after
            == transaction_log(before, address, ops, reads).take(k)
}

/// The steps of the first `j` operations begin the steps of the first `n`.
proof fn lemma_ops_log_prefix(address: u8, ops: Seq<Operation>, reads: Seq<Seq<u8>>, j: int, n: int)
    requires
        0 <= j <= n,
    ensures
        ops_log(address, ops, reads, j).len() <= ops_log(address, ops, reads, n).len(),
        ops_log(address, ops, reads, n).take(ops_log(address, ops, reads, j).len() as int)
            == ops_log(address, ops, reads, j),
    decreases n - j,
{
    if j < n {
        lemma_ops_log_prefix(address, ops, reads, j, n - 1);
        let a = ops_log(address, ops, reads, n - 1);
        let b = op_log(address, ops, reads, n - 1);
        let l = ops_log(address, ops, reads, j).len() as int;
        assert((a + b).take(l) =~= a.take(l));
    } else {
        let a = ops_log(address, ops, reads, n);
        assert(a.take(a.len() as int) =~= a);
    }
}

/// A transaction that fails at the start has taken only the start.
proof fn lemma_failed_at_start(before: Seq<BusOp>, address: u8, ops: Seq<Operation>)
    ensures
        failed_log(before, address, ops, before + seq![BusOp::Start]),
{
    let reads = Seq::<Seq<u8>>::empty();
    let full = transaction_log(before, address, ops, reads);
    let k = before.len() + 1int;
    assert(full.take(k) =~= before + seq![BusOp::Start]);
}

/// A transaction that fails on the `m`-th step of operation `i`, with
/// `reads` as the bytes of the reads up to there, has taken the steps
/// before it and that step.
proof fn lemma_failed_at_op(
    before: Seq<BusOp>,
    address: u8,
    ops: Seq<Operation>,
    reads: Seq<Seq<u8>>,
    i: int,
    m: int,
)
    requires
        0 <= i < ops.len(),
        0 < m <= op_log(address, ops, reads, i).len(),
    ensures
        failed_log(
            before,
            address,
            ops,
            before + seq![BusOp::Start] + ops_log(address, ops, reads, i) + op_log(
                address,
                ops,
                reads,
                i,
            ).take(m),
        ),
{
    let n = ops.len() as int;
    lemma_ops_log_prefix(address, ops, reads, i + 1, n);
    let a = ops_log(address, ops, reads, i);
    let b = op_log(address, ops, reads, i);
    let all = ops_log(address, ops, reads, n);
    assert(ops_log(address, ops, reads, i + 1) == a + b);
    let full = transaction_log(before, address, ops, reads);
    let k = before.len() + 1 + a.len() + m;
    assert(all.take(a.len() + m) =~= a + b.take(m)) by {
        assert(all.take((a + b).len() as int) == a + b);
        assert(all.take(a.len() + m) =~= (a + b).take(a.len() + m));
        assert((a + b).take(a.len() + m) =~= a + b.take(m));
    }
    assert(full.take(k) =~= before + seq![BusOp::Start] + all.take(a.len() + m));
    assert(before.len() < k <= full.len());
    assert(before + seq![BusOp::Start] + a + b.take(m) == full.take(k));
}

/// A transaction that fails on its stop has taken every step.
proof fn lemma_failed_at_stop(before: Seq<BusOp>, address: u8, ops: Seq<Operation>, reads: Seq<Seq<u8>>)
    ensures
        failed_log(before, address, ops, transaction_log(before, address, ops, reads)),
{
    let full = transaction_log(before, address, ops, reads);
    assert(full.take(full.len() as int) =~= full);
}

/// Run an I2C transaction with the device at `address`: a start, then
/// each operation, sending the address (with the direction) before the
/// first operation and again after a repeated start where the direction
/// changes, then a stop. Returns the bytes of each read, in order.
pub fn transaction<R: I2cRaw>(raw: &mut R, address: u8, operations: &[Operation]) -> (r: Result<
    Vec<Vec<u8>>,
    R::Error,
>)
    ensures
        r matches Ok(reads) ==> {
            &&& reads@.len() == reads_before(operations@, operations@.len() as int)
            &&& reads_fit(operations@, reads_view(reads@))
            &&& final(raw).bus_log() == transaction_log(
                old(raw).bus_log(),
                address,
                operations@,
                reads_view(reads@),
            )
        },
        r is Err ==> failed_log(old(raw).bus_log(), address, operations@, final(raw).bus_log()),
        r matches Err(e) ==> final(raw).last_error() == Some(e),
{
    let ghost before0 = raw.bus_log();
    // ST
    match raw.start_raw() {
        Ok(()) => {},
        Err(e) => {
            proof {
                lemma_failed_at_start(before0, address, operations@);
                assert(raw.bus_log() =~= before0 + seq![BusOp::Start]);
            }
            return Err(e);
        },
    }
    let ghost base = raw.bus_log();
    let mut reads: Vec<Vec<u8>> = Vec::new();
    let mut i: usize = 0;
    while i < operations.len()
        invariant
            i <= operations@.len(),
            base == before0 + seq![BusOp::Start],
            before0 == old(raw).bus_log(),
            reads@.len() == reads_before(operations@, i as int),
            forall|k: int|
                0 <= k < i ==> (#[trigger] operations@[k] matches Operation::Read(n) ==> reads@[reads_before(
                    operations@,
                    k,
                )]@.len() == n),
            raw.bus_log() == base + ops_log(address, operations@, reads_view(reads@), i as int),
        decreases operations@.len() - i,
    {
        let write = match &operations[i] {
            Operation::Write(_) => true,
            Operation::Read(_) => false,
        };
        let ghost before = raw.bus_log();
        let ghost old_reads = reads_view(reads@);
        // the reads so far, and whatever the read of this operation gives
        let ghost w = old_reads.push(Seq::<u8>::empty());
        proof {
            lemma_ops_log_frame(address, operations@, old_reads, w, i as int);
        }
        if i == 0 {
            // SAD+R or SAD+W
            let a = if write {
                address << 1u8
            } else {
                (address << 1u8) | 1u8
            };
            let arr = [a];
            assert(arr@ =~= seq![address_byte(address, !write)]);
            match raw.write_raw(arr.as_slice()) {
                Ok(()) => {},
                Err(e) => {
                    proof {
                        lemma_failed_at_op(before0, address, operations@, w, i as int, 1);
                        assert(raw.bus_log() =~= before0 + seq![BusOp::Start] + ops_log(
                            address,
                            operations@,
                            w,
                            i as int,
                        ) + op_log(address, operations@, w, i as int).take(1));
                    }
                    return Err(e);
                },
            }
        } else {
            let last_write = match &operations[i - 1] {
                Operation::Write(_) => true,
                Operation::Read(_) => false,
            };
            if last_write != write {
                // SR
                match raw.start_raw() {
                    Ok(()) => {},
                    Err(e) => {
                        proof {
                            lemma_failed_at_op(before0, address, operations@, w, i as int, 1);
                            assert(raw.bus_log() =~= before0 + seq![BusOp::Start] + ops_log(
                                address,
                                operations@,
                                w,
                                i as int,
                            ) + op_log(address, operations@, w, i as int).take(1));
                        }
                        return Err(e);
                    },
                }
                let a = if write {
                    address << 1u8
                } else {
                    (address << 1u8) | 1u8
                };
                let arr = [a];
                assert(arr@ =~= seq![address_byte(address, !write)]);
                match raw.write_raw(arr.as_slice()) {
                    Ok(()) => {},
                    Err(e) => {
                        proof {
                            lemma_failed_at_op(before0, address, operations@, w, i as int, 2);
                            assert(raw.bus_log() =~= before0 + seq![BusOp::Start] + ops_log(
                                address,
                                operations@,
                                w,
                                i as int,
                            ) + op_log(address, operations@, w, i as int).take(2));
                        }
                        return Err(e);
                    },
                }
            }
        }
        let ghost head: Seq<BusOp> = if i == 0 {
            seq![BusOp::Write(seq![address_byte(address, !write)])]
        } else if (operations@[i - 1] is Write) != write {
            seq![BusOp::Start, BusOp::Write(seq![address_byte(address, !write)])]
        } else {
            Seq::<BusOp>::empty()
        };
        assert(raw.bus_log() == before + head);
        match &operations[i] {
            Operation::Read(n) => {
                let mut buf: Vec<u8> = Vec::new();
                let mut z: usize = 0;
                while z < *n
                    invariant
                        z <= *n,
                        buf@.len() == z,
                    decreases *n - z,
                {
                    buf.push(0);
                    z += 1;
                }
                let res = raw.read_raw(buf.as_mut_slice());
                match res {
                    Ok(()) => {},
                    Err(e) => {
                        proof {
                            let w2 = old_reads.push(buf@);
                            lemma_ops_log_frame(address, operations@, old_reads, w2, i as int);
                            assert(w2[reads_before(operations@, i as int)] == buf@);
                            assert(op_log(address, operations@, w2, i as int) =~= head + seq![
                                BusOp::Read(buf@),
                            ]);
                            lemma_failed_at_op(
                                before0,
                                address,
                                operations@,
                                w2,
                                i as int,
                                head.len() + 1int,
                            );
                            assert(raw.bus_log() =~= before0 + seq![BusOp::Start] + ops_log(
                                address,
                                operations@,
                                w2,
                                i as int,
                            ) + op_log(address, operations@, w2, i as int).take(head.len() + 1int));
                        }
                        return Err(e);
                    },
                }
                assert(buf@.len() == *n);
                reads.push(buf);
                proof {
                    lemma_ops_log_frame(address, operations@, old_reads, reads_view(reads@), i as int);
                    assert(reads_view(reads@)[reads_before(operations@, i as int)] == buf@);
                    assert forall|k: int|
                        0 <= k < i + 1 implies (#[trigger] operations@[k] matches Operation::Read(m)
                        ==> reads@[reads_before(operations@, k)]@.len() == m) by {
                        lemma_reads_before_mono(operations@, 0, k);
                        if k < i && operations@[k] is Read {
                            lemma_reads_before_mono(operations@, k, i as int);
                        }
                        if k == i {
                            assert(operations@[k] == Operation::Read(*n));
                        }
                    }
                }
            },
            Operation::Write(b) => {
                match raw.write_raw(b.as_slice()) {
                    Ok(()) => {},
                    Err(e) => {
                        proof {
                            assert(op_log(address, operations@, w, i as int) =~= head + seq![
                                BusOp::Write(b@),
                            ]);
                            lemma_failed_at_op(
                                before0,
                                address,
                                operations@,
                                w,
                                i as int,
                                head.len() + 1int,
                            );
                            assert(raw.bus_log() =~= before0 + seq![BusOp::Start] + ops_log(
                                address,
                                operations@,
                                w,
                                i as int,
                            ) + op_log(address, operations@, w, i as int).take(head.len() + 1int));
                        }
                        return Err(e);
                    },
                }
            },
        }
        assert(reads_before(operations@, i + 1) == reads@.len());
        assert(raw.bus_log() =~= base + ops_log(address, operations@, reads_view(reads@), i + 1));
        i += 1;
    }
    // SP
    let ghost done_reads = reads_view(reads@);
    match raw.stop_raw() {
        Ok(()) => {},
        Err(e) => {
            proof {
                lemma_failed_at_stop(before0, address, operations@, done_reads);
                assert(raw.bus_log() =~= transaction_log(before0, address, operations@, done_reads));
            }
            return Err(e);
        },
    }
    assert forall|k: int| 0 <= k < operations@.len() implies (#[trigger] operations@[k] matches Operation::Read(m)
        ==> reads_view(reads@)[reads_before(operations@, k)].len() == m) by {
        lemma_reads_before_mono(operations@, 0, k);
        if operations@[k] is Read {
            lemma_reads_before_mono(operations@, k, operations@.len() as int);
        }
    }
    assert(raw.bus_log() =~= transaction_log(
        before0,
        address,
        operations@,
        reads_view(reads@),
    ));
    Ok(reads)
}

} // verus!
