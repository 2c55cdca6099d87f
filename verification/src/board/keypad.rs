//! The keypad: which keys a scan finds pressed, and debouncing.
use vstd::prelude::*;

verus! {

/// State of the keypad: one bit per key.
#[derive(Debug, Clone, Copy, PartialEq, Eq, PartialOrd, Ord, Hash)]
pub struct State {
    bits: u32,
}

/// The bit of each key. In the order of the rows, PA3 to PA6, per column.
/// Menu, when column PA10 is active.
pub const MENU: u32 = 0x1;

pub const N1: u32 = 0x2;

pub const N4: u32 = 0x4;

pub const N7: u32 = 0x8;

pub const UP: u32 = 0x10;

pub const N2: u32 = 0x20;

pub const N5: u32 = 0x40;

pub const N8: u32 = 0x80;

pub const DOWN: u32 = 0x100;

pub const N3: u32 = 0x200;

pub const N6: u32 = 0x400;

pub const N9: u32 = 0x800;

pub const EXIT: u32 = 0x1000;

pub const STAR: u32 = 0x2000;

pub const N0: u32 = 0x4000;

pub const FUNCTION: u32 = 0x8000;

pub const SIDE1: u32 = 0x10000;

pub const SIDE2: u32 = 0x20000;

pub const PTT: u32 = 0x100000;

pub const DTMF_A: u32 = 0x1;

pub const DTMF_B: u32 = 0x10;

pub const DTMF_C: u32 = 0x100;

pub const DTMF_D: u32 = 0x1000;

/// Every bit that stands for a key.
pub const ALL_BITS: u32 = 0x13ffff;

impl State {
    /// The bits of the state.
    pub closed spec fn spec_bits(&self) -> u32 {
        self.bits
    }

    /// The bits of the state.
    pub fn bits(&self) -> (b: u32)
        ensures
            b == self.spec_bits(),
    {
        self.bits
    }

    /// The state with the given bits, dropping those that stand for no key.
    pub fn from_bits_truncate(bits: u32) -> (s: State)
        ensures
            s.spec_bits() == bits & ALL_BITS,
    {
        State { bits: bits & ALL_BITS }
    }

    /// No key.
    pub fn empty() -> (s: State)
        ensures
            s.spec_bits() == 0,
    {
        State { bits: 0 }
    }

    /// Every key.
    pub fn all() -> (s: State)
        ensures
            s.spec_bits() == ALL_BITS,
    {
        State { bits: ALL_BITS }
    }

    /// Whether no key is set.
    pub fn is_empty(&self) -> (r: bool)
        ensures
            r == (self.spec_bits() == 0),
    {
        self.bits == 0
    }

    /// Whether every key of `other` is set.
    pub fn contains(&self, other: State) -> (r: bool)
        ensures
            r == (self.spec_bits() & other.spec_bits() == other.spec_bits()),
    {
        self.bits & other.bits == other.bits
    }

    /// The keys set in both.
    pub fn intersection(&self, other: State) -> (s: State)
        ensures
            s.spec_bits() == self.spec_bits() & other.spec_bits(),
    {
        State { bits: self.bits & other.bits }
    }

    /// The keys set in either.
    pub fn union(&self, other: State) -> (s: State)
        ensures
            s.spec_bits() == self.spec_bits() | other.spec_bits(),
    {
        State { bits: self.bits | other.bits }
    }

    /// The keys not set.
    pub fn complement(&self) -> (s: State)
        ensures
            s.spec_bits() == !self.spec_bits() & ALL_BITS,
    {
        State { bits: !self.bits & ALL_BITS }
    }

    /// Is the push-to-talk button pressed?
    pub fn is_ptt(&self) -> (r: bool)
        ensures
            r == (self.spec_bits() & PTT == PTT),
    {
        self.bits & PTT == PTT
    }

    /// Is the side button I button pressed?
    pub fn is_side_1(&self) -> (r: bool)
        ensures
            r == (self.spec_bits() & SIDE1 == SIDE1),
    {
        self.bits & SIDE1 == SIDE1
    }

    /// Is the side button II button pressed?
    pub fn is_side_2(&self) -> (r: bool)
        ensures
            r == (self.spec_bits() & SIDE2 == SIDE2),
    {
        self.bits & SIDE2 == SIDE2
    }

    /// Is the menu button pressed?
    pub fn is_menu(&self) -> (r: bool)
        ensures
            r == (self.spec_bits() & MENU == MENU),
    {
        self.bits & MENU == MENU
    }

    /// Is the up button pressed?
    pub fn is_up(&self) -> (r: bool)
        ensures
            r == (self.spec_bits() & UP == UP),
    {
        self.bits & UP == UP
    }

    /// Is the down button pressed?
    pub fn is_down(&self) -> (r: bool)
        ensures
            r == (self.spec_bits() & DOWN == DOWN),
    {
        self.bits & DOWN == DOWN
    }

    /// Is the exit button pressed?
    pub fn is_exit(&self) -> (r: bool)
        ensures
            r == (self.spec_bits() & EXIT == EXIT),
    {
        self.bits & EXIT == EXIT
    }

    /// Is the DTMF A button pressed?
    pub fn is_dtmf_a(&self) -> (r: bool)
        ensures
            r == (self.spec_bits() & DTMF_A == DTMF_A),
    {
        self.bits & DTMF_A == DTMF_A
    }

    /// Is the DTMF B button pressed?
    pub fn is_dtmf_b(&self) -> (r: bool)
        ensures
            r == (self.spec_bits() & DTMF_B == DTMF_B),
    {
        self.bits & DTMF_B == DTMF_B
    }

    /// Is the DTMF C button pressed?
    pub fn is_dtmf_c(&self) -> (r: bool)
        ensures
            r == (self.spec_bits() & DTMF_C == DTMF_C),
    {
        self.bits & DTMF_C == DTMF_C
    }

    /// Is the DTMF D button pressed?
    pub fn is_dtmf_d(&self) -> (r: bool)
        ensures
            r == (self.spec_bits() & DTMF_D == DTMF_D),
    {
        self.bits & DTMF_D == DTMF_D
    }

    /// Is the * button pressed?
    pub fn is_star(&self) -> (r: bool)
        ensures
            r == (self.spec_bits() & STAR == STAR),
    {
        self.bits & STAR == STAR
    }

    /// Is the function button pressed?
    pub fn is_function(&self) -> (r: bool)
        ensures
            r == (self.spec_bits() & FUNCTION == FUNCTION),
    {
        self.bits & FUNCTION == FUNCTION
    }

    /// Is the number 0 button pressed?
    pub fn is_0(&self) -> (r: bool)
        ensures
            r == (self.spec_bits() & N0 == N0),
    {
        self.bits & N0 == N0
    }

    /// Is the number 1 button pressed?
    pub fn is_1(&self) -> (r: bool)
        ensures
            r == (self.spec_bits() & N1 == N1),
    {
        self.bits & N1 == N1
    }

    /// Is the number 2 button pressed?
    pub fn is_2(&self) -> (r: bool)
        ensures
            r == (self.spec_bits() & N2 == N2),
    {
        self.bits & N2 == N2
    }

    /// Is the number 3 button pressed?
    pub fn is_3(&self) -> (r: bool)
        ensures
            r == (self.spec_bits() & N3 == N3),
    {
        self.bits & N3 == N3
    }

    /// Is the number 4 button pressed?
    pub fn is_4(&self) -> (r: bool)
        ensures
            r == (self.spec_bits() & N4 == N4),
    {
        self.bits & N4 == N4
    }

    /// Is the number 5 button pressed?
    pub fn is_5(&self) -> (r: bool)
        ensures
            r == (self.spec_bits() & N5 == N5),
    {
        self.bits & N5 == N5
    }

    /// Is the number 6 button pressed?
    pub fn is_6(&self) -> (r: bool)
        ensures
            r == (self.spec_bits() & N6 == N6),
    {
        self.bits & N6 == N6
    }

    /// Is the number 7 button pressed?
    pub fn is_7(&self) -> (r: bool)
        ensures
            r == (self.spec_bits() & N7 == N7),
    {
        self.bits & N7 == N7
    }

    /// Is the number 8 button pressed?
    pub fn is_8(&self) -> (r: bool)
        ensures
            r == (self.spec_bits() & N8 == N8),
    {
        self.bits & N8 == N8
    }

    /// Is the number 9 button pressed?
    pub fn is_9(&self) -> (r: bool)
        ensures
            r == (self.spec_bits() & N9 == N9),
    {
        self.bits & N9 == N9
    }
}

/// The bit of number key `n`.
pub open spec fn number_bit(n: int) -> u32 {
    if n == 0 {
        N0
    } else if n == 1 {
        N1
    } else if n == 2 {
        N2
    } else if n == 3 {
        N3
    } else if n == 4 {
        N4
    } else if n == 5 {
        N5
    } else if n == 6 {
        N6
    } else if n == 7 {
        N7
    } else if n == 8 {
        N8
    } else {
        N9
    }
}

/// The lowest number key from `k` on whose bit is set.
pub open spec fn lowest_number(bits: u32, k: int) -> Option<int>
    decreases 10 - k,
{
    if k >= 10 || k < 0 {
        None
    } else if bits & number_bit(k) == number_bit(k) {
        Some(k)
    } else {
        lowest_number(bits, k + 1)
    }
}

impl State {
    /// An array of all number flags, from 0 to 9.
    pub fn all_numbers() -> (a: [State; 10])
        ensures
            forall|n: int| 0 <= n < 10 ==> (#[trigger] a@[n]).spec_bits() == number_bit(n),
    {
        [
            State { bits: N0 },
            State { bits: N1 },
            State { bits: N2 },
            State { bits: N3 },
            State { bits: N4 },
            State { bits: N5 },
            State { bits: N6 },
            State { bits: N7 },
            State { bits: N8 },
            State { bits: N9 },
        ]
    }

    /// Get the value of the pressed number button, if one is pressed.
    ///
    /// This will arbitrarily choose the lowest number if multiple
    /// number buttons are pressed.
    pub fn number(&self) -> (r: Option<u8>)
        ensures
            match lowest_number(self.spec_bits(), 0) {
                Some(n) => r == Some(n as u8),
                None => r is None,
            },
    {
        let all = Self::all_numbers();
        let mut i: usize = 0;
        while i < 10
            invariant
                i <= 10,
                forall|n: int| 0 <= n < 10 ==> (#[trigger] all@[n]).spec_bits() == number_bit(n),
                lowest_number(self.spec_bits(), 0) == lowest_number(self.spec_bits(), i as int),
            decreases 10 - i,
        {
            if self.contains(all[i]) {
                return Some(i as u8);
            }
            i += 1;
        }
        None
    }
}

/// The bits of a row of keys read with pins `levels` high: a key that
/// pulls its row low is pressed; only the rows in `mask` count.
pub open spec fn spec_row_bits(levels: [bool; 4], mask: u32) -> u32 {
    let bits = (if levels[0] { 1u32 } else { 0u32 }) | (if levels[1] { 2u32 } else { 0u32 }) | (
    if levels[2] {
        4u32
    } else {
        0u32
    }) | (if levels[3] {
        8u32
    } else {
        0u32
    });
    !bits & mask
}

/// The bits of a row of keys read with pins `levels` high.
pub fn row_bits(levels: [bool; 4], mask: u32) -> (b: u32)
    ensures
        b == spec_row_bits(levels, mask),
{
    let bits = (if levels[0] {
        1u32
    } else {
        0u32
    }) | (if levels[1] {
        2u32
    } else {
        0u32
    }) | (if levels[2] {
        4u32
    } else {
        0u32
    }) | (if levels[3] {
        8u32
    } else {
        0u32
    });
    !bits & mask
}

/// The keys a scan finds: the push-to-talk button when its pin is low,
/// the side buttons from the rows read with all columns high, and each
/// column's keys from the rows read with that column low. The side
/// buttons pull whole rows low, so those rows are not read for columns.
pub open spec fn spec_scan(ptt_low: bool, sporadic: [bool; 4], columns: [[bool; 4]; 4]) -> u32 {
    let sporadics = spec_row_bits(sporadic, 0b0011);
    let mask = 0b1111u32 & !sporadics;
    (if ptt_low {
        PTT
    } else {
        0u32
    }) | ((sporadics << 16u32) & ALL_BITS) | (spec_row_bits(columns[0], mask) & ALL_BITS) | ((
    spec_row_bits(columns[1], mask) << 4u32) & ALL_BITS) | ((spec_row_bits(columns[2], mask)
        << 8u32) & ALL_BITS) | ((spec_row_bits(columns[3], mask) << 12u32) & ALL_BITS)
}

/// The keys a scan finds, from the pin levels it read.
pub fn scan_state(ptt_low: bool, sporadic: [bool; 4], columns: [[bool; 4]; 4]) -> (s: State)
    ensures
        s.spec_bits() == spec_scan(ptt_low, sporadic, columns),
{
    let mut state = State::empty();
    if ptt_low {
        state = state.union(State { bits: PTT });
    }
    // these buttons make entire rows always low, so, mask them out if set
    let sporadics = row_bits(sporadic, 0b0011);
    state = state.union(State::from_bits_truncate(sporadics << 16u32));
    let mask = 0b1111u32 & !sporadics;
    state = state.union(State::from_bits_truncate(row_bits(columns[0], mask)));
    state = state.union(State::from_bits_truncate(row_bits(columns[1], mask) << 4u32));
    state = state.union(State::from_bits_truncate(row_bits(columns[2], mask) << 8u32));
    state = state.union(State::from_bits_truncate(row_bits(columns[3], mask) << 12u32));
    assert((0u32 | (if ptt_low { PTT } else { 0u32 })) == (if ptt_low { PTT } else { 0u32 })) by (bit_vector);
    state
}

/// A row read with its pins at levels `l0`..`l3`, under `mask`, has bit
/// `r` exactly when pin `r` is low and `mask` has bit `r`.
proof fn lemma_row_bits_keys(levels: [bool; 4], mask: u32)
    requires
        mask < 16,
    ensures
        ({
            let v = spec_row_bits(levels, mask);
            &&& v < 16
            &&& v <= mask
            &&& key_in(v, 0) == (!levels[0] && key_in(mask, 0))
            &&& key_in(v, 1) == (!levels[1] && key_in(mask, 1))
            &&& key_in(v, 2) == (!levels[2] && key_in(mask, 2))
            &&& key_in(v, 3) == (!levels[3] && key_in(mask, 3))
        }),
{
    let l0 = levels[0];
    let l1 = levels[1];
    let l2 = levels[2];
    let l3 = levels[3];
    let v = spec_row_bits(levels, mask);
    assert(v == !((if l0 { 1u32 } else { 0u32 }) | (if l1 { 2u32 } else { 0u32 }) | (if l2 {
        4u32
    } else {
        0u32
    }) | (if l3 { 8u32 } else { 0u32 })) & mask);
    assert({
        let w = !((if l0 { 1u32 } else { 0u32 }) | (if l1 { 2u32 } else { 0u32 }) | (if l2 {
            4u32
        } else {
            0u32
        }) | (if l3 { 8u32 } else { 0u32 })) & mask;
        &&& w < 16
        &&& w <= mask
        &&& ((w >> 0u32) & 1u32 == 1u32) == (!l0 && (mask >> 0u32) & 1u32 == 1u32)
        &&& ((w >> 1u32) & 1u32 == 1u32) == (!l1 && (mask >> 1u32) & 1u32 == 1u32)
        &&& ((w >> 2u32) & 1u32 == 1u32) == (!l2 && (mask >> 2u32) & 1u32 == 1u32)
        &&& ((w >> 3u32) & 1u32 == 1u32) == (!l3 && (mask >> 3u32) & 1u32 == 1u32)
    }) by (bit_vector)
        requires
            mask < 16,
    ;
}

/// Where each part of a scan lands in its bits: column `c`'s rows at bits
/// `4 * c` to `4 * c + 3`, the side buttons at bits 16 and 17, and the
/// push-to-talk button at bit 20.
proof fn lemma_scan_bits(p: u32, sp: u32, a0: u32, a1: u32, a2: u32, a3: u32, r: u32)
    requires
        p == 0 || p == 0x100000,
        sp < 4,
        a0 < 16,
        a1 < 16,
        a2 < 16,
        a3 < 16,
        r < 4,
    ensures
        ({
            let x = p | ((sp << 16u32) & 0x13ffffu32) | (a0 & 0x13ffffu32) | ((a1 << 4u32)
                & 0x13ffffu32) | ((a2 << 8u32) & 0x13ffffu32) | ((a3 << 12u32) & 0x13ffffu32);
            &&& (x >> r) & 1u32 == (a0 >> r) & 1u32
            &&& (x >> (r + 4u32)) & 1u32 == (a1 >> r) & 1u32
            &&& (x >> (r + 8u32)) & 1u32 == (a2 >> r) & 1u32
            &&& (x >> (r + 12u32)) & 1u32 == (a3 >> r) & 1u32
            &&& r < 2 ==> (x >> (r + 16u32)) & 1u32 == (sp >> r) & 1u32
            &&& ((x >> 20u32) & 1u32 == 1u32) == (p != 0)
        }),
{
    assert({
        let x = p | ((sp << 16u32) & 0x13ffffu32) | (a0 & 0x13ffffu32) | ((a1 << 4u32)
            & 0x13ffffu32) | ((a2 << 8u32) & 0x13ffffu32) | ((a3 << 12u32) & 0x13ffffu32);
        &&& (x >> r) & 1u32 == (a0 >> r) & 1u32
        &&& (x >> (r + 4u32)) & 1u32 == (a1 >> r) & 1u32
        &&& (x >> (r + 8u32)) & 1u32 == (a2 >> r) & 1u32
        &&& (x >> (r + 12u32)) & 1u32 == (a3 >> r) & 1u32
        &&& r < 2 ==> (x >> (r + 16u32)) & 1u32 == (sp >> r) & 1u32
        &&& ((x >> 20u32) & 1u32 == 1u32) == (p != 0)
    }) by (bit_vector)
        requires
            p == 0 || p == 0x100000,
            sp < 4,
            a0 < 16,
            a1 < 16,
            a2 < 16,
            a3 < 16,
            r < 4,
    ;
}

/// What a scan reads, key by key: the key in column `c` (0 to 3) and row
/// `r` (0 to 3) is bit `4 * c + r`, set exactly when that row reads low
/// with that column driven low, unless a side button holds the row low
/// (side button `r` for rows 0 and 1, whose pins the side buttons share);
/// side button `r` is bit `16 + r`, set exactly when its row reads low
/// with all columns high; and push-to-talk is bit 20, set exactly when its
/// pin is low. So column 0 holds MENU, 1, 4, 7; column 1 UP, 2, 5, 8;
/// column 2 DOWN, 3, 6, 9; column 3 EXIT, *, 0, F.
pub proof fn law_scan_reads_each_key(
    ptt_low: bool,
    sporadic: [bool; 4],
    columns: [[bool; 4]; 4],
    c: int,
    r: int,
)
    requires
        0 <= c < 4,
        0 <= r < 4,
    ensures
        ({
            let x = spec_scan(ptt_low, sporadic, columns);
            &&& key_in(x, (4 * c + r) as u32) == (!columns[c][r] && !(r < 2 && !sporadic[r]))
            &&& r < 2 ==> key_in(x, (16 + r) as u32) == !sporadic[r]
            &&& key_in(x, 20) == ptt_low
        }),
{
    let sp = spec_row_bits(sporadic, 0b0011);
    let mask = 0b1111u32 & !sp;
    lemma_row_bits_keys(sporadic, 0b0011);
    assert(mask < 16) by (bit_vector)
        requires
            mask == 0b1111u32 & !sp,
    ;
    assert(key_in(mask, 0) == !key_in(sp, 0) && key_in(mask, 1) == !key_in(sp, 1) && key_in(mask, 2)
        && key_in(mask, 3)) by (bit_vector)
        requires
            mask == 0b1111u32 & !sp,
            sp < 4,
    ;
    assert(key_in(0b0011u32, 0) && key_in(0b0011u32, 1)) by (bit_vector);
    lemma_row_bits_keys(columns[0], mask);
    lemma_row_bits_keys(columns[1], mask);
    lemma_row_bits_keys(columns[2], mask);
    lemma_row_bits_keys(columns[3], mask);
    let p = if ptt_low {
        PTT
    } else {
        0u32
    };
    let ru = r as u32;
    lemma_scan_bits(
        p,
        sp,
        spec_row_bits(columns[0], mask),
        spec_row_bits(columns[1], mask),
        spec_row_bits(columns[2], mask),
        spec_row_bits(columns[3], mask),
        ru,
    );
    assert(spec_scan(ptt_low, sporadic, columns) == p | ((sp << 16u32) & 0x13ffffu32) | (
    spec_row_bits(columns[0], mask) & 0x13ffffu32) | ((spec_row_bits(columns[1], mask) << 4u32)
        & 0x13ffffu32) | ((spec_row_bits(columns[2], mask) << 8u32) & 0x13ffffu32) | ((
    spec_row_bits(columns[3], mask) << 12u32) & 0x13ffffu32));
}

/// The keys held in every one of the first `k` samples of `history`
/// but the one at `skip`.
pub open spec fn held_except(history: Seq<u32>, skip: int, k: int) -> u32
    decreases k,
{
    if k <= 0 {
        ALL_BITS
    } else if k - 1 == skip {
        held_except(history, skip, k - 1)
    } else {
        held_except(history, skip, k - 1) & history[k - 1]
    }
}

/// The keys held in every one of the first `k` samples of `history` but
/// the ones at `a` and `b`.
pub open spec fn held_except2(history: Seq<u32>, a: int, b: int, k: int) -> u32
    decreases k,
{
    if k <= 0 {
        ALL_BITS
    } else if k - 1 == a || k - 1 == b {
        held_except2(history, a, b, k - 1)
    } else {
        held_except2(history, a, b, k - 1) & history[k - 1]
    }
}

proof fn lemma_held_except2_keys(history: Seq<u32>, a: int, b: int, k: int)
    ensures
        held_except2(history, a, b, k) & ALL_BITS == held_except2(history, a, b, k),
    decreases k,
{
    if k <= 0 {
        assert(ALL_BITS & ALL_BITS == ALL_BITS) by (bit_vector);
    } else {
        lemma_held_except2_keys(history, a, b, k - 1);
        if !(k - 1 == a || k - 1 == b) {
            let x = held_except2(history, a, b, k - 1);
            let h = history[k - 1];
            assert((x & h) & ALL_BITS == x & h) by (bit_vector)
                requires
                    x & ALL_BITS == x,
            ;
        }
    }
}

proof fn lemma_held_except2_frame(h1: Seq<u32>, h2: Seq<u32>, a: int, b: int, k: int)
    requires
        k <= h1.len(),
        k <= h2.len(),
        forall|i: int| 0 <= i < k && i != a && i != b ==> h1[i] == h2[i],
    ensures
        held_except2(h1, a, b, k) == held_except2(h2, a, b, k),
        held_except2(h1, a, b, k) == held_except2(h1, b, a, k),
    decreases k,
{
    if k > 0 {
        lemma_held_except2_frame(h1, h2, a, b, k - 1);
    }
}

/// Leaving out one more sample: the keys held in all but `a` are those
/// held in all but `a` and `b`, and in the sample at `b`.
proof fn lemma_held_except_split(history: Seq<u32>, a: int, b: int, k: int)
    requires
        0 <= k <= history.len(),
        a != b,
    ensures
        held_except(history, a, k) == held_except2(history, a, b, k) & (if 0 <= b < k {
            history[b]
        } else {
            ALL_BITS
        }),
    decreases k,
{
    if k <= 0 {
        assert(ALL_BITS & ALL_BITS == ALL_BITS) by (bit_vector);
    } else {
        lemma_held_except_split(history, a, b, k - 1);
        lemma_held_except2_keys(history, a, b, k - 1);
        let x = held_except2(history, a, b, k - 1);
        let hk = history[k - 1];
        if k - 1 == a {
        } else if k - 1 == b {
            assert((x & ALL_BITS) & hk == x & hk) by (bit_vector)
                requires
                    x & ALL_BITS == x,
            ;
        } else {
            let t = if 0 <= b < k - 1 {
                history[b]
            } else {
                ALL_BITS
            };
            assert((x & t) & hk == (x & hk) & t) by (bit_vector);
        }
    }
}

proof fn lemma_held_except_zeros(history: Seq<u32>, k: int)
    requires
        2 <= k <= history.len(),
        forall|i: int| 0 <= i < history.len() ==> history[i] == 0,
    ensures
        held_except(history, 0, k) == 0,
    decreases k,
{
    if k > 2 {
        lemma_held_except_zeros(history, k - 1);
    }
    let x = held_except(history, 0, k - 1);
    assert(x & 0u32 == 0) by (bit_vector);
}

/// Across one scan of a ring of more than one place: the keys that went
/// down (pressed now, and not in the oldest scan) are the keys pressed now
/// and not before, and together with the keys that came up they are the
/// keys whose state changed.
proof fn lemma_debounce_edges(old_h: Seq<u32>, old_next: int, scan: u32, d: int)
    requires
        d > 1,
        old_h.len() == d,
        0 <= old_next < d,
    ensures
        ({
            let h = old_h.update(old_next, scan);
            let n = (old_next + 1) % d;
            let before = held_except(old_h, old_next, d);
            let now = held_except(h, n, d);
            &&& !h[n] & ALL_BITS & now == now & !before
            &&& (!h[n] & ALL_BITS & now) | (before & (!now & ALL_BITS)) == now ^ before
        }),
{
    let h = old_h.update(old_next, scan);
    let n = (old_next + 1) % d;
    if old_next + 1 < d {
        vstd::arithmetic::div_mod::lemma_small_mod((old_next + 1) as nat, d as nat);
    } else {
        vstd::arithmetic::div_mod::lemma_mod_self_0(d);
    }
    assert(n != old_next);
    lemma_held_except_split(h, n, old_next, d);
    lemma_held_except_split(old_h, old_next, n, d);
    lemma_held_except2_frame(old_h, h, old_next, n, d);
    lemma_held_except2_frame(h, h, old_next, n, d);
    lemma_held_except2_keys(h, n, old_next, d);
    let x = held_except2(h, n, old_next, d);
    let hn = h[n];
    let s = h[old_next];
    assert(old_h[n] == hn);
    assert(s == scan);
    assert(!hn & ALL_BITS & (x & s) == (x & s) & !(x & hn)) by (bit_vector)
        requires
            x & ALL_BITS == x,
    ;
    assert((!hn & ALL_BITS & (x & s)) | ((x & hn) & (!(x & s) & ALL_BITS)) == (x & s) ^ (x & hn))
        by (bit_vector)
        requires
            x & ALL_BITS == x,
    ;
}

/// Whether bit `b` of a key set is on.
pub open spec fn key_in(x: u32, b: u32) -> bool {
    (x >> b) & 1u32 == 1u32
}

proof fn lemma_and_key(x: u32, y: u32, b: u32)
    requires
        b < 32,
    ensures
        key_in(x & y, b) == (key_in(x, b) && key_in(y, b)),
{
    assert((((x & y) >> b) & 1u32 == 1u32) == (((x >> b) & 1u32 == 1u32) && ((y >> b) & 1u32
        == 1u32))) by (bit_vector)
        requires
            b < 32,
    ;
}

proof fn lemma_held_except_key(history: Seq<u32>, skip: int, k: int, b: u32)
    requires
        0 <= k <= history.len(),
        b < 32,
    ensures
        key_in(held_except(history, skip, k), b) <==> (key_in(ALL_BITS, b) && forall|i: int|
            0 <= i < k && i != skip ==> #[trigger] key_in(history[i], b)),
    decreases k,
{
    if k > 0 {
        lemma_held_except_key(history, skip, k - 1, b);
        if k - 1 != skip {
            lemma_and_key(held_except(history, skip, k - 1), history[k - 1], b);
        }
    }
}

/// The ring of scans and the place of the next one, after `scans` were
/// taken in turn by [Keypad::debounce] from a ring `history` of `d` places
/// whose next place was `next`.
pub open spec fn ring_after(history: Seq<u32>, next: int, scans: Seq<u32>, d: int) -> (
    Seq<u32>,
    int,
)
    decreases scans.len(),
{
    if scans.len() == 0 {
        (history, next)
    } else {
        let (h, n) = ring_after(history, next, scans.drop_last(), d);
        (h.update(n, scans.last()), (n + 1) % d)
    }
}

proof fn lemma_mod_once(x: int, d: int)
    requires
        0 <= x < 2 * d,
        d > 0,
    ensures
        x % d == if x < d {
            x
        } else {
            x - d
        },
{
    if x < d {
        vstd::arithmetic::div_mod::lemma_fundamental_div_mod_converse(x, d, 0, x);
    } else {
        vstd::arithmetic::div_mod::lemma_fundamental_div_mod_converse(x, d, 1, x - d);
    }
}

proof fn lemma_ring_after(history: Seq<u32>, next: int, scans: Seq<u32>, d: int)
    requires
        d > 0,
        history.len() == d,
        0 <= next < d,
        scans.len() <= d,
    ensures
        ({
            let (h, n) = ring_after(history, next, scans, d);
            &&& h.len() == d
            &&& n == (next + scans.len()) % d
            &&& forall|j: int| 0 <= j < scans.len() ==> h[(next + j) % d] == #[trigger] scans[j]
        }),
    decreases scans.len(),
{
    let k = scans.len() as int;
    if k == 0 {
        lemma_mod_once(next, d);
    } else {
        let rest = scans.drop_last();
        lemma_ring_after(history, next, rest, d);
        let (h1, n1) = ring_after(history, next, rest, d);
        let (h, n) = ring_after(history, next, scans, d);
        lemma_mod_once(next + k - 1, d);
        lemma_mod_once(next + k, d);
        lemma_mod_once(n1 + 1, d);
        assert forall|j: int| 0 <= j < k implies h[(next + j) % d] == #[trigger] scans[j] by {
            lemma_mod_once(next + j, d);
            if j < k - 1 {
                assert(rest[j] == scans[j]);
                assert(h1[(next + j) % d] == rest[j]);
            }
        }
    }
}

/// After `d - 1` scans from any ring of `d` places, a key is pressed
/// exactly when every one of those scans had it.
proof fn lemma_pressed_after_scans(
    history: Seq<u32>,
    next: int,
    scans: Seq<u32>,
    d: int,
    b: u32,
)
    requires
        d > 0,
        history.len() == d,
        0 <= next < d,
        scans.len() == d - 1,
        b < 32,
    ensures
        ({
            let (h, n) = ring_after(history, next, scans, d);
            key_in(held_except(h, n, d), b) <==> (key_in(ALL_BITS, b) && forall|j: int|
                0 <= j < scans.len() ==> #[trigger] key_in(scans[j], b))
        }),
{
    lemma_ring_after(history, next, scans, d);
    let (h, n) = ring_after(history, next, scans, d);
    lemma_held_except_key(h, n, d, b);
    lemma_mod_once(next + d - 1, d);
    if key_in(held_except(h, n, d), b) {
        assert forall|j: int| 0 <= j < scans.len() implies #[trigger] key_in(scans[j], b) by {
            lemma_mod_once(next + j, d);
            let i = (next + j) % d;
            assert(h[i] == scans[j]);
            assert(key_in(h[i], b));
        }
    }
    if key_in(ALL_BITS, b) && forall|j: int| 0 <= j < scans.len() ==> #[trigger] key_in(
        scans[j],
        b,
    ) {
        assert forall|i: int| 0 <= i < d && i != n implies #[trigger] key_in(h[i], b) by {
            let j = if i >= next {
                i - next
            } else {
                i + d - next
            };
            lemma_mod_once(next + j, d);
            assert(h[(next + j) % d] == scans[j]);
        }
    }
}

/// Taking the scans `a` and then the scans `b` is taking `a + b`.
proof fn lemma_ring_after_append(history: Seq<u32>, next: int, a: Seq<u32>, b: Seq<u32>, d: int)
    ensures
        ({
            let (h, n) = ring_after(history, next, a, d);
            ring_after(history, next, a + b, d) == ring_after(h, n, b, d)
        }),
    decreases b.len(),
{
    if b.len() == 0 {
        assert(a + b =~= a);
    } else {
        lemma_ring_after_append(history, next, a, b.drop_last(), d);
        assert((a + b).drop_last() =~= a + b.drop_last());
        assert((a + b).last() == b.last());
    }
}

/// The ring keeps its `d` places, and the next place stays in it.
proof fn lemma_ring_after_bounds(history: Seq<u32>, next: int, scans: Seq<u32>, d: int)
    requires
        d > 0,
        history.len() == d,
        0 <= next < d,
    ensures
        ({
            let (h, n) = ring_after(history, next, scans, d);
            h.len() == d && 0 <= n < d
        }),
    decreases scans.len(),
{
    if scans.len() > 0 {
        lemma_ring_after_bounds(history, next, scans.drop_last(), d);
        let (h, n) = ring_after(history, next, scans.drop_last(), d);
        lemma_mod_once(n + 1, d);
    }
}

/// Debouncing: after any run of at least `d - 1` scans, from any ring of
/// `d` places, a key is pressed exactly when every one of the last
/// `d - 1` scans had it. The ring is that of a keypad with `d` places
/// (`d` is `DEBOUNCE`): [Keypad::debounce] takes one scan as
/// [ring_after] does, and its pressed keys are `held_except` of its ring
/// and next place; a new keypad has no key pressed.
pub proof fn law_pressed_is_last_scans(
    history: Seq<u32>,
    next: int,
    scans: Seq<u32>,
    d: int,
    b: u32,
)
    requires
        d > 0,
        history.len() == d,
        0 <= next < d,
        scans.len() >= d - 1,
        b < 32,
    ensures
        ({
            let (h, n) = ring_after(history, next, scans, d);
            key_in(held_except(h, n, d), b) <==> (key_in(ALL_BITS, b) && forall|j: int|
                scans.len() - (d - 1) <= j < scans.len() ==> #[trigger] key_in(scans[j], b))
        }),
{
    let p = scans.len() - (d - 1);
    let first = scans.take(p);
    let last = scans.skip(p);
    assert(first + last =~= scans);
    lemma_ring_after_append(history, next, first, last, d);
    lemma_ring_after_bounds(history, next, first, d);
    let (h0, n0) = ring_after(history, next, first, d);
    lemma_pressed_after_scans(h0, n0, last, d, b);
    assert forall|j: int| 0 <= j < last.len() implies last[j] == scans[j + p] by {}
    if key_in(ALL_BITS, b) && (forall|j: int| 0 <= j < last.len() ==> #[trigger] key_in(last[j], b)) {
        assert forall|j: int| p <= j < scans.len() implies #[trigger] key_in(scans[j], b) by {
            assert(last[j - p] == scans[j]);
        }
    }
    if key_in(ALL_BITS, b) && (forall|j: int| p <= j < scans.len() ==> #[trigger] key_in(scans[j], b)) {
        assert forall|j: int| 0 <= j < last.len() implies #[trigger] key_in(last[j], b) by {
            assert(last[j] == scans[j + p]);
        }
    }
}

/// Release is immediate: after a scan, no key that the scan lacked is
/// pressed (for a ring of more than one place).
pub proof fn law_release_is_immediate(history: Seq<u32>, next: int, scan: u32, d: int, b: u32)
    requires
        d > 1,
        history.len() == d,
        0 <= next < d,
        b < 32,
    ensures
        ({
            let h = history.update(next, scan);
            let n = (next + 1) % d;
            key_in(held_except(h, n, d), b) ==> key_in(scan, b)
        }),
{
    let h = history.update(next, scan);
    let n = (next + 1) % d;
    lemma_mod_once(next + 1, d);
    lemma_held_except_key(h, n, d, b);
    if key_in(held_except(h, n, d), b) {
        assert(key_in(h[next], b));
    }
}

/// The keypad interface: the last `DEBOUNCE` scans, and what they say.
///
/// Using powers of two for DEBOUNCE can avoid a modulus operation.
#[derive(Debug)]
pub struct Keypad<const DEBOUNCE: usize> {
    history: Vec<u32>,
    next: usize,
    state: State,
    up: State,
    down: State,
}

/// Create the keypad interface, debouncing over eight scans.
pub fn new() -> (k: Keypad<8>)
    ensures
        k.wf(),
        k.spec_history() == Seq::new(8, |i: int| 0u32),
        k.spec_next() == 0,
        k.pressed_bits() == 0,
        k.up_bits() == 0,
        k.down_bits() == 0,
{
    Keypad::new()
}

impl<const DEBOUNCE: usize> Keypad<DEBOUNCE> {
    /// The last scans, as a ring.
    pub closed spec fn spec_history(&self) -> Seq<u32> {
        self.history@
    }

    /// Where the next scan goes in the ring: the oldest scan.
    pub closed spec fn spec_next(&self) -> int {
        self.next as int
    }

    /// The keys currently pressed.
    pub closed spec fn pressed_bits(&self) -> u32 {
        self.state.spec_bits()
    }

    /// The keys that came up on the last poll.
    pub closed spec fn up_bits(&self) -> u32 {
        self.up.spec_bits()
    }

    /// The keys that went down on the last poll.
    pub closed spec fn down_bits(&self) -> u32 {
        self.down.spec_bits()
    }

    /// What holds of every keypad: the ring holds `DEBOUNCE` scans, the
    /// next one has a place, and (with more than one place) the pressed
    /// keys are those that every scan but the oldest holds.
    #[verifier::type_invariant]
    spec fn inv(&self) -> bool {
        &&& self.history@.len() == DEBOUNCE
        &&& self.next < DEBOUNCE
        &&& DEBOUNCE > 1 ==> self.state.bits == held_except(self.history@, self.next as int, DEBOUNCE as int)
    }

    /// The ring holds `DEBOUNCE` scans, and the next one has a place; the
    /// pressed keys are those that every scan but the oldest holds.
    pub open spec fn wf(&self) -> bool {
        &&& self.spec_history().len() == DEBOUNCE
        &&& 0 <= self.spec_next() < DEBOUNCE
        &&& DEBOUNCE > 1 ==> self.pressed_bits() == held_except(
            self.spec_history(),
            self.spec_next(),
            DEBOUNCE as int,
        )
    }

    /// Create the keypad interface.
    pub fn new() -> (k: Self)
        requires
            DEBOUNCE > 0,
        ensures
            k.wf(),
            k.spec_history() == Seq::new(DEBOUNCE as nat, |i: int| 0u32),
            k.spec_next() == 0,
            k.pressed_bits() == 0,
            k.up_bits() == 0,
            k.down_bits() == 0,
    {
        let mut history: Vec<u32> = Vec::new();
        let mut i: usize = 0;
        while i < DEBOUNCE
            invariant
                i <= DEBOUNCE,
                history@ == Seq::new(i as nat, |j: int| 0u32),
            decreases DEBOUNCE - i,
        {
            history.push(0);
            i += 1;
            assert(history@ =~= Seq::new(i as nat, |j: int| 0u32));
        }
        proof {
            if DEBOUNCE > 1 {
                lemma_held_except_zeros(history@, DEBOUNCE as int);
            }
        }
        Keypad {
            history,
            next: 0,
            state: State::empty(),
            up: State::empty(),
            down: State::empty(),
        }
    }

    /// Take a new scan: it replaces the oldest in the ring. A key is
    /// pressed when every scan but the oldest has it; it went down when
    /// the oldest scan did not have it, and came up when it was pressed
    /// before and is not now. Returns the keys that went down.
    pub fn debounce(&mut self, scan: State) -> (down: State)
        ensures
            final(self).wf(),
            ({
                let h = old(self).spec_history().update(old(self).spec_next(), scan.spec_bits());
                let n = (old(self).spec_next() + 1) % (DEBOUNCE as int);
                let held = held_except(h, n, DEBOUNCE as int);
                &&& final(self).spec_history() == h
                &&& final(self).spec_next() == n
                &&& final(self).pressed_bits() == held
                &&& final(self).down_bits() == !h[n] & ALL_BITS & held
                &&& final(self).up_bits() == old(self).pressed_bits() & (!held & ALL_BITS)
            }),
            down.spec_bits() == final(self).down_bits(),
            DEBOUNCE > 1 ==> ({
                let before = old(self).pressed_bits();
                let now = final(self).pressed_bits();
                &&& final(self).down_bits() == now & !before
                &&& final(self).down_bits() | final(self).up_bits() == now ^ before
            }),
    {
        proof {
            use_type_invariant(&*self);
            if DEBOUNCE > 1 {
                lemma_debounce_edges(
                    old(self).spec_history(),
                    old(self).spec_next(),
                    scan.spec_bits(),
                    DEBOUNCE as int,
                );
            }
        }
        Self::step(
            &mut self.history,
            &mut self.next,
            &mut self.state,
            &mut self.up,
            &mut self.down,
            scan,
        )
    }

    /// One debounce step on the keypad's fields, which are updated together.
    fn step(
        history: &mut Vec<u32>,
        next: &mut usize,
        state: &mut State,
        up: &mut State,
        down: &mut State,
        scan: State,
    ) -> (went_down: State)
        requires
            old(history)@.len() == DEBOUNCE,
            *old(next) < DEBOUNCE,
        ensures
            ({
                let h = old(history)@.update(*old(next) as int, scan.spec_bits());
                let n = (*old(next) + 1) % (DEBOUNCE as int);
                let held = held_except(h, n, DEBOUNCE as int);
                &&& final(history)@ == h
                &&& *final(next) == n
                &&& final(state).spec_bits() == held
                &&& final(down).spec_bits() == !h[n] & ALL_BITS & held
                &&& final(up).spec_bits() == old(state).spec_bits() & (!held & ALL_BITS)
            }),
            went_down == *final(down),
        no_unwind
    {
        // store our read state
        history[*next] = scan.bits;
        *next = *next + 1;
        if *next >= DEBOUNCE {
            *next = 0;
        }
        let ghost h = history@;
        assert(h == old(history)@.update(*old(next) as int, scan.spec_bits()));
        assert(*next == (*old(next) + 1) % (DEBOUNCE as int)) by {
            let p = *old(next) + 1;
            let d = DEBOUNCE as int;
            if p < d {
                vstd::arithmetic::div_mod::lemma_small_mod(p as nat, d as nat);
            } else {
                assert(p == d);
                vstd::arithmetic::div_mod::lemma_mod_self_0(d);
            }
        }
        // calculate the debounced state
        let mut held = State { bits: ALL_BITS };
        let mut i: usize = 0;
        while i < DEBOUNCE
            invariant
                i <= DEBOUNCE == history@.len(),
                0 <= *next < DEBOUNCE,
                held.spec_bits() == held_except(history@, *next as int, i as int),
                history@ == h,
                *next == (*old(next) + 1) % (DEBOUNCE as int),
                *state == *old(state),
            decreases DEBOUNCE - i,
        {
            if i != *next {
                held = State { bits: held.bits & history[i] };
            }
            i += 1;
        }
        let oldest = State { bits: history[*next] };
        *down = State { bits: !oldest.bits & ALL_BITS & held.bits };
        *up = State { bits: state.bits & (!held.bits & ALL_BITS) };
        *state = held;
        *down
    }

    /// Get all keys currently pressed.
    pub fn pressed(&self) -> (s: State)
        ensures
            s.spec_bits() == self.pressed_bits(),
    {
        self.state
    }

    /// Get all keys newly pressed down on the last scan.
    pub fn down(&self) -> (s: State)
        ensures
            s.spec_bits() == self.down_bits(),
    {
        self.down
    }

    /// Get all keys newly unpressed on the last scan.
    pub fn up(&self) -> (s: State)
        ensures
            s.spec_bits() == self.up_bits(),
    {
        self.up
    }

    /// Get all keys which changed state in the last scan.
    pub fn changed(&self) -> (s: State)
        ensures
            s.spec_bits() == self.down_bits() | self.up_bits(),
    {
        self.down.union(self.up)
    }
}

} // verus!
