//! Reading the whole EEPROM, one chunk at a time: which chunk to ask for
//! next, and what to make of each reply.
use vstd::prelude::*;

use crate::protocol::messages::radio::{ReadEeprom, ReadEepromReply, HELLO_SESSION_ID};
use crate::protocol::messages::util::Padding;

verus! {

/// How much to ask for in one read.
pub const CHUNK_SIZE: u8 = 0x80;

/// Why reading the EEPROM stopped.
#[derive(Debug, Clone, Copy, PartialEq, Eq, PartialOrd, Ord, Hash)]
pub enum EepromError {
    /// Reply had different address!
    AddressMismatch,
}

/// Whether a read ends after a reply of `len` bytes that brings it to
/// `address`: after a short chunk, or at the end of an EEPROM of `size`
/// bytes.
pub open spec fn chunk_done(len: u8, address: int, size: int) -> bool {
    len < CHUNK_SIZE || address >= size
}

/// The state of a read of the whole EEPROM.
#[derive(Debug, Clone, PartialEq, Eq, PartialOrd, Ord, Hash)]
pub struct EepromReader {
    address: u16,
    size: usize,
    data: Vec<u8>,
    done: bool,
}

impl EepromReader {
    /// The address of the next chunk.
    pub closed spec fn spec_address(&self) -> u16 {
        self.address
    }

    /// The size of the EEPROM.
    pub closed spec fn spec_size(&self) -> usize {
        self.size
    }

    /// What was read so far.
    pub closed spec fn spec_data(&self) -> Seq<u8> {
        self.data@
    }

    /// Whether the read is complete.
    pub closed spec fn spec_done(&self) -> bool {
        self.done
    }

    /// Start reading an EEPROM of `size` bytes from address 0.
    pub fn new(size: usize) -> (r: Self)
        ensures
            r.spec_address() == 0,
            r.spec_size() == size,
            r.spec_data() == Seq::<u8>::empty(),
            !r.spec_done(),
    {
        EepromReader { address: 0, size, data: Vec::new(), done: false }
    }

    /// The request for the next chunk.
    pub fn request(&self) -> (m: ReadEeprom)
        ensures
            m.address == self.spec_address(),
            m.len == CHUNK_SIZE,
            m._pad@ == seq![0u8],
            m.session_id == HELLO_SESSION_ID,
    {
        let m = ReadEeprom {
            address: self.address,
            len: CHUNK_SIZE,
            _pad: Padding::default(),
            session_id: HELLO_SESSION_ID,
        };
        assert(m._pad@ =~= seq![0u8]);
        m
    }

    /// Take the reply to the last request. A reply for another address is
    /// an error; otherwise its data is kept and the read moves on by the
    /// length the reply states, and is done after a short chunk or at the
    /// end of the EEPROM.
    pub fn on_reply(&mut self, reply: &ReadEepromReply<&[u8]>) -> (r: Result<bool, EepromError>)
        requires
            old(self).spec_address() + reply.len <= u16::MAX,
        ensures
            reply.address != old(self).spec_address() ==> r == Err::<bool, EepromError>(
                EepromError::AddressMismatch,
            ) && *final(self) == *old(self),
            reply.address == old(self).spec_address() ==> ({
                let address = old(self).spec_address() + reply.len;
                let done = chunk_done(reply.len, address, old(self).spec_size() as int);
                &&& r == Ok::<bool, EepromError>(done)
                &&& final(self).spec_address() == address
                &&& final(self).spec_size() == old(self).spec_size()
                &&& final(self).spec_data() == old(self).spec_data() + reply.data@
                &&& final(self).spec_done() == done
            }),
    {
        if self.address != reply.address {
            return Err(EepromError::AddressMismatch);
        }
        let ghost before = self.data@;
        let mut i: usize = 0;
        while i < reply.data.len()
            invariant
                i <= reply.data@.len(),
                self.data@ == before + reply.data@.subrange(0, i as int),
                self.address == old(self).address,
                self.size == old(self).size,
            decreases reply.data@.len() - i,
        {
            self.data.push(reply.data[i]);
            i += 1;
            assert(self.data@ =~= before + reply.data@.subrange(0, i as int));
        }
        assert(reply.data@.subrange(0, i as int) =~= reply.data@);
        self.address = self.address + reply.len as u16;
        self.done = reply.len < CHUNK_SIZE || self.address as usize >= self.size;
        Ok(self.done)
    }

    /// What was read so far.
    pub fn data(&self) -> (d: &[u8])
        ensures
            d@ == self.spec_data(),
    {
        self.data.as_slice()
    }
}

} // verus!
