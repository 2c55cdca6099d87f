//! The demo firmware's logic: the dot that snakes around the screen, the
//! serial command line and its commands, the keys that tune the FM radio,
//! and the status text.
use vstd::prelude::*;

use crate::board::keypad::State;

verus! {

/// The remainder of `a` divided by `m` (positive), with the sign of `a`,
/// as Rust's `%` gives it.
pub open spec fn trunc_rem(a: int, m: int) -> int {
    if a >= 0 {
        a % m
    } else {
        -((-a) % m)
    }
}

/// The point of a dot `snake` steps along the border of a rectangle
/// with top left corner `(left, top)` and `width` by `height` pixels:
/// clockwise from the top left corner along the top, right, bottom and
/// left edges. Steps count modulo the length of the border, and a
/// negative count runs off the top edge to the left.
pub open spec fn spec_snake_point(left: int, top: int, width: int, height: int, snake: int) -> (
    int,
    int,
) {
    let w = width - 1;
    let h = height - 1;
    let right = left + w;
    let bottom = top + h;
    let s = trunc_rem(snake, 2 * w + 2 * h);
    if s < w {
        (left + s, top)
    } else if s < w + h {
        (right, top + (s - w))
    } else if s < 2 * w + h {
        (right - (s - w - h), bottom)
    } else {
        (left, bottom - (s - 2 * w - h))
    }
}

/// Calculate the point of the snaking dot, `snake` steps along the border
/// of the rectangle at `(left, top)` of `width` by `height` pixels. The
/// sizes are taken as `i32`, and the border's length, its corners and the
/// point must be `i32` values too.
pub fn snake_point(left: i32, top: i32, width: u32, height: u32, snake: i32) -> (p: (i32, i32))
    requires
        1 <= width <= i32::MAX,
        1 <= height <= i32::MAX,
        width + height > 2,
        2 * (width - 1) + 2 * (height - 1) <= i32::MAX,
        left + (width - 1) <= i32::MAX,
        top + (height - 1) <= i32::MAX,
        left + trunc_rem(snake as int, 2 * (width - 1) + 2 * (height - 1)) >= i32::MIN,
    ensures
        p.0 as int == spec_snake_point(left as int, top as int, width as int, height as int, snake as int).0,
        p.1 as int == spec_snake_point(left as int, top as int, width as int, height as int, snake as int).1,
{
    let w = width as i32 - 1;
    let h = height as i32 - 1;
    let right = left + w;
    let bottom = top + h;
    let m = 2 * (w as i64) + 2 * (h as i64);
    let a = snake as i64;
    let s = if a >= 0 {
        a % m
    } else {
        -((-a) % m)
    };
    assert(-m < s < m);
    let s = s as i32;
    if s < w {
        (left + s, top)
    } else if s < w + h {
        (right, top + (s - w))
    } else if s < 2 * w + h {
        (right - (s - w - h), bottom)
    } else {
        (left, bottom - (s - 2 * w - h))
    }
}

/// The level of a pin.
#[derive(Debug, Clone, Copy, PartialEq, Eq, PartialOrd, Ord, Hash)]
pub enum PinLevel {
    Low,
    High,
}

/// The bytes spelling "low".
pub const LOW: [u8; 3] = [0x6c, 0x6f, 0x77];

/// The bytes spelling "high".
pub const HIGH: [u8; 4] = [0x68, 0x69, 0x67, 0x68];

/// Turn a word into a pin level: "low" or "high".
pub fn pin_state(name: &[u8]) -> (r: Option<PinLevel>)
    ensures
        name@ == LOW@ ==> r == Some(PinLevel::Low),
        name@ == HIGH@ ==> r == Some(PinLevel::High),
        name@ != LOW@ && name@ != HIGH@ ==> r is None,
{
    if crate::text::bytes_eq(name, LOW.as_slice()) {
        Some(PinLevel::Low)
    } else if crate::text::bytes_eq(name, HIGH.as_slice()) {
        Some(PinLevel::High)
    } else {
        None
    }
}

/// The bytes spelling "hello".
pub const HELLO: [u8; 5] = [0x68, 0x65, 0x6c, 0x6c, 0x6f];

/// The bytes spelling "reset".
pub const RESET: [u8; 5] = [0x72, 0x65, 0x73, 0x65, 0x74];

/// The bytes spelling "speaker".
pub const SPEAKER: [u8; 7] = [0x73, 0x70, 0x65, 0x61, 0x6b, 0x65, 0x72];

/// The bytes spelling "fm".
pub const FM: [u8; 2] = [0x66, 0x6d];

/// The bytes spelling "enable".
pub const ENABLE: [u8; 6] = [0x65, 0x6e, 0x61, 0x62, 0x6c, 0x65];

/// The bytes spelling "disable".
pub const DISABLE: [u8; 7] = [0x64, 0x69, 0x73, 0x61, 0x62, 0x6c, 0x65];

/// The bytes spelling "init".
pub const INIT: [u8; 4] = [0x69, 0x6e, 0x69, 0x74];

/// The bytes spelling "tune".
pub const TUNE: [u8; 4] = [0x74, 0x75, 0x6e, 0x65];

/// The bytes spelling "read".
pub const READ: [u8; 4] = [0x72, 0x65, 0x61, 0x64];

/// The length of the whitespace character that UTF-8 text `s` holds at
/// `i` (a character with the Unicode `White_Space` property), or zero.
pub open spec fn ws_len(s: Seq<u8>, i: int) -> int {
    let b = s[i];
    if b == 0x09 || b == 0x0a || b == 0x0b || b == 0x0c || b == 0x0d || b == 0x20 {
        1
    } else if b == 0xc2 && i + 1 < s.len() && (s[i + 1] == 0x85 || s[i + 1] == 0xa0) {
        2
    } else if i + 2 < s.len() && ((b == 0xe1 && s[i + 1] == 0x9a && s[i + 2] == 0x80) || (b
        == 0xe2 && s[i + 1] == 0x80 && ((0x80 <= s[i + 2] && s[i + 2] <= 0x8a) || s[i + 2]
        == 0xa8 || s[i + 2] == 0xa9 || s[i + 2] == 0xaf)) || (b == 0xe2 && s[i + 1] == 0x81
        && s[i + 2] == 0x9f) || (b == 0xe3 && s[i + 1] == 0x80 && s[i + 2] == 0x80)) {
        3
    } else {
        0
    }
}

/// Where the first whitespace character from `i` on starts.
pub open spec fn first_ws(s: Seq<u8>, i: int) -> Option<int>
    decreases s.len() - i,
{
    if i >= s.len() || i < 0 {
        None
    } else if ws_len(s, i) > 0 {
        Some(i)
    } else {
        first_ws(s, i + 1)
    }
}

/// A command line split at its first whitespace character into the
/// command and its argument; the whole line, and no argument, without
/// one.
pub open spec fn split_cmd(s: Seq<u8>) -> (Seq<u8>, Seq<u8>) {
    match first_ws(s, 0) {
        Some(i) => (s.take(i), s.skip(i + ws_len(s, i))),
        None => (s, Seq::empty()),
    }
}

/// The length of the whitespace character at `i`.
fn ws_len_at(s: &[u8], i: usize) -> (n: usize)
    requires
        i < s@.len(),
    ensures
        n == ws_len(s@, i as int),
{
    let b = s[i];
    let len = s.len();
    if b == 0x09 || b == 0x0a || b == 0x0b || b == 0x0c || b == 0x0d || b == 0x20 {
        1
    } else if b == 0xc2 && len - i > 1 && (s[i + 1] == 0x85 || s[i + 1] == 0xa0) {
        2
    } else if len - i > 2 && ((b == 0xe1 && s[i + 1] == 0x9a && s[i + 2] == 0x80) || (b == 0xe2
        && s[i + 1] == 0x80 && ((0x80 <= s[i + 2] && s[i + 2] <= 0x8a) || s[i + 2] == 0xa8 || s[i
        + 2] == 0xa9 || s[i + 2] == 0xaf)) || (b == 0xe2 && s[i + 1] == 0x81 && s[i + 2] == 0x9f)
        || (b == 0xe3 && s[i + 1] == 0x80 && s[i + 2] == 0x80)) {
        3
    } else {
        0
    }
}

/// Split a command line at its first whitespace character.
pub fn split_command(s: &[u8]) -> (r: (&[u8], &[u8]))
    ensures
        r.0@ == split_cmd(s@).0,
        r.1@ == split_cmd(s@).1,
{
    let mut i: usize = 0;
    while i < s.len()
        invariant
            i <= s@.len(),
            first_ws(s@, 0) == first_ws(s@, i as int),
        decreases s@.len() - i,
    {
        let n = ws_len_at(s, i);
        if n > 0 {
            let cmd = vstd::slice::slice_subrange(s, 0, i);
            let rest = vstd::slice::slice_subrange(s, i + n, s.len());
            assert(cmd@ =~= s@.take(i as int));
            assert(rest@ =~= s@.skip(i + n));
            return (cmd, rest);
        }
        i += 1;
    }
    (s, vstd::slice::slice_subrange(s, 0, 0))
}

/// The value of a string of digits in base `radix`, each given by
/// `digit`.
pub open spec fn digits_value(d: Seq<u8>, radix: int) -> int
    decreases d.len(),
{
    if d.len() == 0 {
        0
    } else {
        digits_value(d.drop_last(), radix) * radix + digit_value(d.last())
    }
}

/// The value of an ASCII digit, decimal or hex in either case; 16 for
/// anything else.
pub open spec fn digit_value(c: u8) -> int {
    if 0x30 <= c <= 0x39 {
        c - 0x30
    } else if 0x61 <= c <= 0x66 {
        c - 0x61 + 10
    } else if 0x41 <= c <= 0x46 {
        c - 0x41 + 10
    } else {
        16
    }
}

/// The digits of an unsigned number: the text after an optional `+`.
pub open spec fn unsigned_digits(s: Seq<u8>) -> Seq<u8> {
    if s.len() > 0 && s[0] == 0x2b {
        s.skip(1)
    } else {
        s
    }
}

/// Whether every byte is a digit in base `radix`.
pub open spec fn all_digits(d: Seq<u8>, radix: int) -> bool {
    forall|i: int| 0 <= i < d.len() ==> digit_value(#[trigger] d[i]) < radix
}

/// The number that text `s` holds in base `radix`, as Rust reads an
/// unsigned number: an optional `+`, then at least one digit, and no more
/// than `max`.
pub open spec fn spec_parse_unsigned(s: Seq<u8>, radix: int, max: int) -> Option<int> {
    let d = unsigned_digits(s);
    if d.len() > 0 && all_digits(d, radix) && digits_value(d, radix) <= max {
        Some(digits_value(d, radix))
    } else {
        None
    }
}

/// The digits of a number only grow.
proof fn lemma_digits_value_mono(d: Seq<u8>, radix: int, k: int)
    requires
        2 <= radix,
        0 <= k <= d.len(),
        forall|i: int| 0 <= i < d.len() ==> digit_value(#[trigger] d[i]) < radix,
    ensures
        0 <= digits_value(d.take(k), radix) <= digits_value(d, radix),
    decreases d.len() - k,
{
    if k < d.len() {
        lemma_digits_value_mono(d, radix, k + 1);
        assert(d.take(k + 1).drop_last() =~= d.take(k));
        assert(digits_value(d.take(k), radix) >= 0) by {
            lemma_digits_value_nonneg(d.take(k), radix);
        }
        assert(digits_value(d.take(k), radix) <= digits_value(d.take(k + 1), radix)) by (
            nonlinear_arith)
            requires
                digits_value(d.take(k + 1), radix) == digits_value(d.take(k), radix) * radix
                    + digit_value(d[k]),
                digits_value(d.take(k), radix) >= 0,
                digit_value(d[k]) >= 0,
                radix >= 2,
        ;
    } else {
        assert(d.take(k) =~= d);
        lemma_digits_value_nonneg(d, radix);
    }
}

/// Digits have a value of zero or more.
proof fn lemma_digits_value_nonneg(d: Seq<u8>, radix: int)
    requires
        2 <= radix,
        forall|i: int| 0 <= i < d.len() ==> digit_value(#[trigger] d[i]) < radix,
    ensures
        digits_value(d, radix) >= 0,
    decreases d.len(),
{
    if d.len() > 0 {
        lemma_digits_value_nonneg(d.drop_last(), radix);
        assert(digits_value(d, radix) >= 0) by (nonlinear_arith)
            requires
                digits_value(d, radix) == digits_value(d.drop_last(), radix) * radix
                    + digit_value(d.last()),
                digits_value(d.drop_last(), radix) >= 0,
                digit_value(d.last()) >= 0,
                radix >= 2,
        ;
    }
}

/// A number that text holds is not negative.
proof fn lemma_parse_unsigned_range(s: Seq<u8>, radix: int, max: int)
    requires
        2 <= radix,
    ensures
        spec_parse_unsigned(s, radix, max) matches Some(v) ==> 0 <= v <= max,
{
    let d = unsigned_digits(s);
    if all_digits(d, radix) {
        lemma_digits_value_nonneg(d, radix);
    }
}

/// Read an unsigned number in base `radix` (at most 16), no more than
/// `max`.
fn parse_unsigned(s: &[u8], radix: u64, max: u64) -> (r: Option<u64>)
    requires
        2 <= radix <= 16,
    ensures
        match spec_parse_unsigned(s@, radix as int, max as int) {
            Some(v) => r == Some(v as u64),
            None => r is None,
        },
{
    let d = if s.len() > 0 && s[0] == 0x2b {
        vstd::slice::slice_subrange(s, 1, s.len())
    } else {
        s
    };
    assert(d@ == unsigned_digits(s@));
    if d.len() == 0 {
        return None;
    }
    let mut value: u64 = 0;
    let mut i: usize = 0;
    while i < d.len()
        invariant
            2 <= radix <= 16,
            i <= d@.len(),
            d@.len() > 0,
            d@ == unsigned_digits(s@),
            forall|j: int| 0 <= j < i ==> digit_value(#[trigger] d@[j]) < radix,
            value == digits_value(d@.take(i as int), radix as int),
            value <= max,
        decreases d@.len() - i,
    {
        let c = d[i];
        let v: u64 = if 0x30 <= c && c <= 0x39 {
            (c - 0x30) as u64
        } else if 0x61 <= c && c <= 0x66 {
            (c - 0x61 + 10) as u64
        } else if 0x41 <= c && c <= 0x46 {
            (c - 0x41 + 10) as u64
        } else {
            16
        };
        assert(d@.take(i + 1).drop_last() =~= d@.take(i as int));
        assert(digit_value(d@[i as int]) == v);
        if v >= radix {
            // not a digit in this base
            assert(!all_digits(d@, radix as int));
            return None;
        }
        if v > max {
            proof {
                assert(value * radix + v > max) by (nonlinear_arith)
                    requires
                        v > max,
                        value >= 0,
                        radix >= 2,
                ;
                lemma_parse_too_large(d@, radix as int, i as int, max as int);
            }
            return None;
        }
        let q = (max - v) / radix;
        if value > q {
            // too large
            proof {
                assert(value * radix + v > max) by (nonlinear_arith)
                    requires
                        value > q,
                        q == (max - v) as int / radix as int,
                        radix >= 2,
                        v <= max,
                ;
                lemma_parse_too_large(d@, radix as int, i as int, max as int);
            }
            return None;
        }
        assert(value * radix + v <= max) by (nonlinear_arith)
            requires
                value <= q,
                q == (max - v) as int / radix as int,
                radix >= 2,
                v <= max,
        ;
        value = value * radix + v;
        i += 1;
    }
    assert(d@.take(i as int) =~= d@);
    Some(value)
}

/// Once the digits read so far, with the next, exceed `max`, the whole
/// number does, or holds a non-digit.
proof fn lemma_parse_too_large(d: Seq<u8>, radix: int, i: int, max: int)
    requires
        2 <= radix,
        0 <= i < d.len(),
        forall|j: int| 0 <= j < i ==> digit_value(#[trigger] d[j]) < radix,
        digit_value(d[i]) < radix,
        digits_value(d.take(i), radix) * radix + digit_value(d[i]) > max,
    ensures
        !(all_digits(d, radix) && digits_value(d, radix) <= max),
{
    if all_digits(d, radix) {
        lemma_digits_value_mono(d, radix, i + 1);
        assert(d.take(i + 1).drop_last() =~= d.take(i));
    }
}

/// A command of the serial command line.
#[derive(Debug, Clone, Copy, PartialEq, Eq, PartialOrd, Ord, Hash)]
pub enum Command {
    /// Say hello.
    Hello,
    /// Reset the radio.
    Reset,
    /// Turn the speaker amplifier on or off.
    Speaker(PinLevel),
    /// Power the FM radio chip.
    FmEnable,
    /// Unpower the FM radio chip.
    FmDisable,
    /// Set the FM radio chip up.
    FmInit,
    /// Tune the FM radio to a channel.
    Tune(u16),
    /// Show every register of the FM radio chip.
    FmDump,
    /// Show sixteen bytes of the EEPROM from a hex address.
    Read(usize),
}

/// The command a line of text holds, if any: a command word, then what
/// follows the first whitespace. Lines that are not UTF-8, unknown words
/// and arguments that do not parse give none.
pub open spec fn spec_parse_command(line: Seq<u8>) -> Option<Command> {
    if !vstd::utf8::valid_utf8(line) {
        None
    } else {
        let (cmd, arg) = split_cmd(line);
        if cmd == HELLO@ {
            Some(Command::Hello)
        } else if cmd == RESET@ {
            Some(Command::Reset)
        } else if cmd == SPEAKER@ {
            if arg == LOW@ {
                Some(Command::Speaker(PinLevel::Low))
            } else if arg == HIGH@ {
                Some(Command::Speaker(PinLevel::High))
            } else {
                None
            }
        } else if cmd == FM@ {
            if arg == ENABLE@ {
                Some(Command::FmEnable)
            } else if arg == DISABLE@ {
                Some(Command::FmDisable)
            } else if arg == INIT@ {
                Some(Command::FmInit)
            } else if arg.len() == 0 {
                Some(Command::FmDump)
            } else {
                None
            }
        } else if cmd == TUNE@ {
            match spec_parse_unsigned(arg, 10, u16::MAX as int) {
                Some(v) => Some(Command::Tune(v as u16)),
                None => None,
            }
        } else if cmd == READ@ {
            match spec_parse_unsigned(arg, 16, usize::MAX as int) {
                Some(v) => Some(Command::Read(v as usize)),
                None => None,
            }
        } else {
            None
        }
    }
}

/// Read the command a line of text holds.
pub fn parse_command(line: &[u8]) -> (r: Option<Command>)
    ensures
        r == spec_parse_command(line@),
{
    match crate::text::str_from_utf8(line) {
        Ok(_) => {},
        Err(_) => return None,
    }
    let (cmd, arg) = split_command(line);
    if crate::text::bytes_eq(cmd, HELLO.as_slice()) {
        Some(Command::Hello)
    } else if crate::text::bytes_eq(cmd, RESET.as_slice()) {
        Some(Command::Reset)
    } else if crate::text::bytes_eq(cmd, SPEAKER.as_slice()) {
        match pin_state(arg) {
            Some(level) => Some(Command::Speaker(level)),
            None => None,
        }
    } else if crate::text::bytes_eq(cmd, FM.as_slice()) {
        if crate::text::bytes_eq(arg, ENABLE.as_slice()) {
            Some(Command::FmEnable)
        } else if crate::text::bytes_eq(arg, DISABLE.as_slice()) {
            Some(Command::FmDisable)
        } else if crate::text::bytes_eq(arg, INIT.as_slice()) {
            Some(Command::FmInit)
        } else if arg.len() == 0 {
            Some(Command::FmDump)
        } else {
            None
        }
    } else if crate::text::bytes_eq(cmd, TUNE.as_slice()) {
        proof {
            lemma_parse_unsigned_range(arg@, 10, u16::MAX as int);
        }
        let r = match parse_unsigned(arg, 10, u16::MAX as u64) {
            Some(v) => Some(Command::Tune(v as u16)),
            None => None,
        };
        r
    } else if crate::text::bytes_eq(cmd, READ.as_slice()) {
        proof {
            lemma_parse_unsigned_range(arg@, 16, usize::MAX as int);
        }
        let r = match parse_unsigned(arg, 16, usize::MAX as u64) {
            Some(v) => Some(Command::Read(v as usize)),
            None => None,
        };
        r
    } else {
        None
    }
}

/// How many bytes the command line holds.
pub const LINE_MAX: usize = 0x100;

/// What a byte typed on the serial console does.
#[derive(Debug, Clone, PartialEq, Eq, PartialOrd, Ord, Hash)]
pub enum LineEvent {
    /// A carriage return ended this line.
    Line(Vec<u8>),
    /// The byte was stored, and is to be echoed; the line was full, so it
    /// was dropped first.
    Stored { overrun: bool },
}

/// The serial command line being typed.
#[derive(Debug, Clone, PartialEq, Eq, PartialOrd, Ord, Hash)]
pub struct LineEditor {
    buf: Vec<u8>,
}

impl LineEditor {
    /// The bytes typed so far.
    pub closed spec fn spec_line(&self) -> Seq<u8> {
        self.buf@
    }

    /// An empty line.
    pub fn new() -> (e: Self)
        ensures
            e.spec_line() == Seq::<u8>::empty(),
    {
        LineEditor { buf: Vec::new() }
    }

    /// Take a typed byte: a carriage return ends the line and starts a new
    /// one; any other byte is added, after dropping a full line.
    pub fn on_byte(&mut self, c: u8) -> (ev: LineEvent)
        requires
            old(self).spec_line().len() <= LINE_MAX,
        ensures
            final(self).spec_line().len() <= LINE_MAX,
            c == 0x0d ==> (ev matches LineEvent::Line(l) && l@ == old(self).spec_line()
                && final(self).spec_line() == Seq::<u8>::empty()),
            c != 0x0d ==> {
                let overrun = old(self).spec_line().len() >= LINE_MAX;
                &&& ev == LineEvent::Stored { overrun }
                &&& final(self).spec_line() == if overrun {
                    seq![c]
                } else {
                    old(self).spec_line().push(c)
                }
            },
    {
        if c == 0x0d {
            let mut line = Vec::new();
            core::mem::swap(&mut line, &mut self.buf);
            return LineEvent::Line(line);
        }
        let overrun = self.buf.len() >= LINE_MAX;
        if overrun {
            self.buf = Vec::new();
        }
        self.buf.push(c);
        LineEvent::Stored { overrun }
    }
}

/// What the keys pressed on one poll do.
#[derive(Debug, Clone, PartialEq, Eq, PartialOrd, Ord, Hash)]
pub struct KeyAction {
    /// The push-to-talk button toggles the flashlight.
    pub toggle_flashlight: bool,
    /// The channels to tune to, in order.
    pub tunes: Vec<u16>,
    /// The channel after the keys.
    pub freq: u16,
}

/// Handle the keys that went down: push-to-talk toggles the flashlight,
/// up tunes one channel up and down one channel down (wrapping around).
pub fn on_keys(freq: u16, keys: State) -> (a: KeyAction)
    ensures
        a.toggle_flashlight == (keys.spec_bits() & crate::board::keypad::PTT
            == crate::board::keypad::PTT),
        ({
            let up = keys.spec_bits() & crate::board::keypad::UP == crate::board::keypad::UP;
            let down = keys.spec_bits() & crate::board::keypad::DOWN == crate::board::keypad::DOWN;
            let f1 = if !up {
                freq
            } else if freq == u16::MAX {
                0
            } else {
                (freq + 1) as u16
            };
            let f2 = if !down {
                f1
            } else if f1 == 0 {
                u16::MAX
            } else {
                (f1 - 1) as u16
            };
            &&& a.freq == f2
            &&& a.tunes@ == (if up {
                seq![f1]
            } else {
                Seq::empty()
            }) + (if down {
                seq![f2]
            } else {
                Seq::empty()
            })
        }),
{
    let mut tunes: Vec<u16> = Vec::new();
    let mut f = freq;
    if keys.is_up() {
        f = if f == u16::MAX {
            0
        } else {
            f + 1
        };
        tunes.push(f);
    }
    let ghost mid = tunes@;
    if keys.is_down() {
        f = if f == 0 {
            u16::MAX
        } else {
            f - 1
        };
        tunes.push(f);
    }
    assert(tunes@ =~= mid + (if keys.spec_bits() & crate::board::keypad::DOWN == crate::board::keypad::DOWN {
        seq![f]
    } else {
        Seq::<u16>::empty()
    }));
    KeyAction { toggle_flashlight: keys.is_ptt(), tunes, freq: f }
}

/// The decimal digits of `n`.
pub open spec fn decimal(n: nat) -> Seq<u8>
    decreases n,
{
    if n < 10 {
        seq![(0x30 + n) as u8]
    } else {
        decimal(n / 10) + seq![(0x30 + n % 10) as u8]
    }
}

/// Append the decimal digits of `n`.
fn push_decimal(out: &mut Vec<u8>, n: u16)
    ensures
        final(out)@ == old(out)@ + decimal(n as nat),
    decreases n,
{
    if n >= 10 {
        push_decimal(out, n / 10);
    }
    out.push(0x30 + (n % 10) as u8);
    assert(final(out)@ =~= old(out)@ + decimal(n as nat));
}

/// The bytes spelling "freq ".
pub const FREQ_LABEL: [u8; 5] = [0x66, 0x72, 0x65, 0x71, 0x20];

/// The bytes spelling " rssi ".
pub const RSSI_LABEL: [u8; 6] = [0x20, 0x72, 0x73, 0x73, 0x69, 0x20];

/// The status line: the frequency in units of 100 kHz (875 plus two per
/// channel, in 16 bits) in decimal, and the RSSI register in hex.
pub open spec fn spec_status_text(freq: u16, rssi: u16) -> Seq<u8> {
    FREQ_LABEL@ + decimal(((875 + 2 * freq) % 0x10000) as nat) + RSSI_LABEL@
        + crate::hexdump::hex4(rssi)
}

/// The status line.
pub fn status_text(freq: u16, rssi: u16) -> (t: Vec<u8>)
    ensures
        t@ == spec_status_text(freq, rssi),
{
    let mut out: Vec<u8> = Vec::new();
    let mut i: usize = 0;
    while i < 5
        invariant
            i <= 5,
            out@ == FREQ_LABEL@.take(i as int),
        decreases 5 - i,
    {
        out.push(FREQ_LABEL[i]);
        i += 1;
        assert(out@ =~= FREQ_LABEL@.take(i as int));
    }
    let shown = ((875u32 + 2 * (freq as u32)) % 0x10000) as u16;
    push_decimal(&mut out, shown);
    let ghost mid = out@;
    let mut j: usize = 0;
    while j < 6
        invariant
            j <= 6,
            out@ == mid + RSSI_LABEL@.take(j as int),
        decreases 6 - j,
    {
        out.push(RSSI_LABEL[j]);
        j += 1;
        assert(out@ =~= mid + RSSI_LABEL@.take(j as int));
    }
    crate::hexdump::FormatAddr::format_addr(&rssi, &mut out);
    assert(FREQ_LABEL@.take(5) =~= FREQ_LABEL@);
    assert(RSSI_LABEL@.take(6) =~= RSSI_LABEL@);
    out
}

} // verus!
