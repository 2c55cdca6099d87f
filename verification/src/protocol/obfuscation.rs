//! The fixed XOR key stream that obscures frame bodies on the wire.
use vstd::prelude::*;

verus! {

/// Length of the repeating obfuscation key.
pub const OBFUSCATION_LEN: usize = 16;

/// The repeating obfuscation key.
pub const OBFUSCATION: [u8; 16] = [
    0x16, 0x6c, 0x14, 0xe6, 0x2e, 0x91, 0x0d, 0x40, 0x21, 0x35, 0xd5, 0x40, 0x13, 0x03, 0xe9, 0x80,
];

/// The key byte used at absolute stream position `i` (the key repeats every 16 bytes).
pub open spec fn key_byte(i: int) -> u8 {
    OBFUSCATION@[i % 16]
}

/// XOR every byte of `data` with the key stream, starting the stream at position `start`.
pub open spec fn obfuscate(data: Seq<u8>, start: int) -> Seq<u8> {
    Seq::new(data.len(), |i: int| data[i] ^ key_byte(start + i))
}

/// Infinite deobfuscation key iterator.
#[derive(Debug, Clone, PartialEq, Eq, PartialOrd, Ord, Hash, Default)]
pub struct Key {
    index: usize,
}

impl Key {
    /// Position of this key inside the 16-byte key cycle.
    pub closed spec fn pos(&self) -> nat {
        self.index as nat
    }

    /// A key always points inside the key cycle.
    pub closed spec fn wf(&self) -> bool {
        self.index < 16
    }

    /// A key at the start of the key stream.
    pub fn new() -> (k: Self)
        ensures
            k.wf(),
            k.pos() == 0,
    {
        Self { index: 0 }
    }

    /// Return the current key byte and step to the next one.
    pub fn next(&mut self) -> (v: u8)
        requires
            old(self).wf(),
        ensures
            final(self).wf(),
            v == key_byte(old(self).pos() as int),
            final(self).pos() == (old(self).pos() + 1) % 16,
    {
        let v = OBFUSCATION[self.index];
        self.index += 1;
        if self.index >= OBFUSCATION_LEN {
            self.index = 0;
        }
        v
    }

    /// XOR one byte with the key stream, stepping the key.
    pub fn apply(&mut self, val: u8) -> (r: u8)
        requires
            old(self).wf(),
        ensures
            final(self).wf(),
            r == val ^ key_byte(old(self).pos() as int),
            final(self).pos() == (old(self).pos() + 1) % 16,
    {
        val ^ self.next()
    }

    /// The key that `num` calls of [Key::next] would reach.
    pub fn advance(&self, num: usize) -> (k: Self)
        requires
            self.wf(),
        ensures
            k.wf(),
            k.pos() == (self.pos() + num) % 16,
    {
        let index = (self.index + num % OBFUSCATION_LEN) % OBFUSCATION_LEN;
        Self { index }
    }
}

/// The key position reached from position `p` by `n` calls of [Key::next].
pub open spec fn pos_after_steps(p: nat, n: nat) -> nat
    decreases n,
{
    if n == 0 {
        p
    } else {
        (pos_after_steps(p, (n - 1) as nat) + 1) % 16
    }
}

/// [Key::advance] by `n` lands where `n` calls of [Key::next] would.
pub proof fn law_advance_matches_next(k: Key, n: nat)
    requires
        k.wf(),
    ensures
        pos_after_steps(k.pos(), n) == (k.pos() + n) % 16,
    decreases n,
{
    if n > 0 {
        law_advance_matches_next(k, (n - 1) as nat);
        vstd::arithmetic::div_mod::lemma_add_mod_noop((k.pos() + n - 1) as int, 1, 16);
    }
}

} // verus!
