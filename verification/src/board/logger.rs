//! The buffer behind the `defmt` logger: log bytes collect in a buffer,
//! and each buffer's worth goes out over the UART as one debug output
//! message.
use vstd::prelude::*;

use crate::protocol::crc::CrcConstantIgnore;
use crate::protocol::messages::custom::DebugOutput;
use crate::protocol::serialize::{frame_body_bytes, frame_bytes, MessageSerialize, SerializerWrap};

verus! {

/// How many log bytes go in one message.
pub const BUFFER_LEN: usize = 0x100;

/// The log bytes not sent yet.
pub struct LogBuffer {
    data: Vec<u8>,
}

impl LogBuffer {
    #[verifier::type_invariant]
    spec fn fits(&self) -> bool {
        self.data@.len() <= BUFFER_LEN
    }

    /// The buffered bytes.
    pub closed spec fn spec_data(&self) -> Seq<u8> {
        self.data@
    }

    /// An empty buffer.
    pub fn new() -> (b: Self)
        ensures
            b.spec_data() == Seq::<u8>::empty(),
    {
        LogBuffer { data: Vec::new() }
    }

    /// The buffered bytes.
    pub fn data(&self) -> (d: &[u8])
        ensures
            d@ == self.spec_data(),
            d@.len() <= BUFFER_LEN,
    {
        proof {
            use_type_invariant(self);
        }
        self.data.as_slice()
    }

    /// Take log bytes. Each time the buffer fills up it is handed out, to
    /// be sent, and starts over; the pieces handed out are returned in
    /// order. When nothing can be sent (`can_send` is false), the bytes
    /// must fit in what is left of the buffer.
    pub fn write(&mut self, bytes: &[u8], can_send: bool) -> (sent: Vec<Vec<u8>>)
        requires
            can_send || old(self).spec_data().len() + bytes@.len() <= BUFFER_LEN,
        ensures
            ({
                let all = old(self).spec_data() + bytes@;
                if bytes@.len() == 0 || !can_send {
                    &&& sent@.len() == 0
                    &&& final(self).spec_data() == all
                } else {
                    let k = (all.len() as int) / (BUFFER_LEN as int);
                    &&& sent@.len() == k
                    &&& forall|i: int|
                        0 <= i < k ==> (#[trigger] sent@[i])@ == all.subrange(
                            i * BUFFER_LEN,
                            (i + 1) * BUFFER_LEN,
                        )
                    &&& final(self).spec_data() == all.subrange(k * BUFFER_LEN, all.len() as int)
                }
            }),
    {
        proof {
            use_type_invariant(&*self);
        }
        let ghost all = self.data@ + bytes@;
        let ghost l0 = self.data@.len();
        let mut sent: Vec<Vec<u8>> = Vec::new();
        let mut data: Vec<u8> = Vec::new();
        core::mem::swap(&mut data, &mut self.data);
        let mut i: usize = 0;
        while i < bytes.len()
            invariant
                i <= bytes@.len(),
                data@.len() <= BUFFER_LEN,
                can_send || l0 + bytes@.len() <= BUFFER_LEN,
                all == old(self).spec_data() + bytes@,
                l0 == old(self).spec_data().len(),
                i == 0 ==> sent@.len() == 0 && data@ == old(self).spec_data(),
                !can_send ==> sent@.len() == 0 && data@ == all.subrange(0, l0 + i),
                can_send ==> {
                    &&& sent@.len() * BUFFER_LEN + data@.len() == l0 + i
                    &&& data@ == all.subrange(sent@.len() * BUFFER_LEN, l0 + i)
                    &&& (i > 0 ==> data@.len() < BUFFER_LEN)
                    &&& forall|j: int|
                        0 <= j < sent@.len() ==> (#[trigger] sent@[j])@ == all.subrange(
                            j * BUFFER_LEN,
                            (j + 1) * BUFFER_LEN,
                        )
                },
            decreases bytes@.len() - i,
        {
            if data.len() >= BUFFER_LEN {
                // a buffer left full, when nothing could be sent, goes first
                let mut full: Vec<u8> = Vec::new();
                core::mem::swap(&mut full, &mut data);
                sent.push(full);
            }
            data.push(bytes[i]);
            i += 1;
            proof {
                assert(all[l0 + i - 1] == bytes@[i - 1]);
            }
            if can_send && data.len() >= BUFFER_LEN {
                let mut full: Vec<u8> = Vec::new();
                core::mem::swap(&mut full, &mut data);
                sent.push(full);
            }
            assert(can_send ==> data@ =~= all.subrange(sent@.len() * BUFFER_LEN, l0 + i));
            assert(!can_send ==> data@ =~= all.subrange(0, l0 + i));
        }
        proof {
            if can_send && bytes@.len() > 0 {
                let k = (all.len() as int) / (BUFFER_LEN as int);
                assert(sent@.len() * BUFFER_LEN + data@.len() == all.len());
                vstd::arithmetic::div_mod::lemma_fundamental_div_mod_converse(
                    all.len() as int,
                    BUFFER_LEN as int,
                    sent@.len() as int,
                    data@.len() as int,
                );
            }
            assert(all.subrange(0, l0 + i) =~= all);
        }
        self.data = data;
        sent
    }

    /// Hand out whatever is buffered, when it can be sent and there is
    /// something; otherwise keep it.
    pub fn flush(&mut self, can_send: bool) -> (out: Option<Vec<u8>>)
        ensures
            if can_send && old(self).spec_data().len() > 0 {
                &&& out matches Some(d) && d@ == old(self).spec_data()
                &&& final(self).spec_data() == Seq::<u8>::empty()
            } else {
                &&& out is None
                &&& final(self).spec_data() == old(self).spec_data()
            },
    {
        if self.data.len() == 0 || !can_send {
            return None;
        }
        let mut data: Vec<u8> = Vec::new();
        core::mem::swap(&mut data, &mut self.data);
        Some(data)
    }
}

/// The bytes sent for a piece of the log: a debug output message marked
/// as `defmt`, framed with the constant CRC that the radio sends.
pub fn log_frame(data: &[u8]) -> (r: Vec<u8>)
    requires
        data@.len() <= BUFFER_LEN,
    ensures
        r@ == frame_bytes(
            CrcConstantIgnore(0xffff),
            frame_body_bytes(
                (DebugOutput { defmt: true, data }).spec_message_type(),
                (DebugOutput { defmt: true, data }).spec_body(),
            ),
        ),
{
    let msg = DebugOutput { defmt: true, data };
    let crc = CrcConstantIgnore(0xffff);
    let mut ser = SerializerWrap::new(Vec::new());
    proof {
        ser.lemma_vec_written();
    }
    let _ = crate::protocol::serialize(&crc, &mut ser, &msg);
    proof {
        ser.lemma_vec_written();
    }
    ser.done()
}

} // verus!
