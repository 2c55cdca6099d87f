//! Messages not used in the stock firmware, but possibly useful.
use vstd::prelude::*;

use super::radio::{flag_byte, write_flag};
use super::util::Bytes;
use super::MessageType;
use crate::protocol::parse::MessageParse;
use crate::protocol::serialize::{MessageSerialize, Serializer};

verus! {

/// 0x8500 Debug Input, host message.
#[derive(Debug, Clone, PartialEq, Eq, PartialOrd, Ord, Hash)]
pub struct DebugInput<I> {
    /// The input line.
    pub line: I,
}

impl<I> MessageType for DebugInput<I> {
    const TYPE: u16 = 0x8500;
}

impl<I: View<V = Seq<u8>>> View for DebugInput<I> {
    type V = DebugInput<Seq<u8>>;

    open spec fn view(&self) -> DebugInput<Seq<u8>> {
        DebugInput { line: self.line@ }
    }
}

impl<I> DebugInput<I> {
    /// Apply `f` to the line.
    pub fn map<F, J>(self, f: F) -> (r: DebugInput<J>)
        where
            F: FnOnce(I) -> J,
        requires
            call_requires(f, (self.line,)),
        ensures
            call_ensures(f, (self.line,), r.line),
    {
        DebugInput { line: f(self.line) }
    }

    /// Apply `f` to a reference to the line.
    pub fn map_ref<'b, F, J>(&'b self, f: F) -> (r: DebugInput<J>)
        where
            F: FnOnce(&'b I) -> J,
        requires
            call_requires(f, (&self.line,)),
        ensures
            call_ensures(f, (&self.line,), r.line),
    {
        DebugInput { line: f(&self.line) }
    }
}

impl<'b> DebugInput<&'b [u8]> {
    /// A copy that owns its line.
    pub fn to_owned(&self) -> (r: DebugInput<Vec<u8>>)
        ensures
            r@ == self@,
    {
        DebugInput { line: vstd::slice::slice_to_vec(self.line) }
    }
}

impl DebugInput<Vec<u8>> {
    /// A view that borrows the line.
    pub fn borrow(&self) -> (r: DebugInput<&[u8]>)
        ensures
            r@ == self@,
    {
        DebugInput { line: self.line.as_slice() }
    }
}

impl<I: Bytes> MessageSerialize for DebugInput<I> {
    open spec fn spec_message_type(&self) -> u16 {
        0x8500
    }

    open spec fn spec_body(&self) -> Seq<u8> {
        self.line@
    }

    open spec fn serializable(&self) -> bool {
        true
    }

    fn message_type(&self) -> (t: u16) {
        Self::TYPE
    }

    fn message_body<S: Serializer>(&self, ser: &mut S) -> (r: Result<(), S::Error>) {
        ser.write_bytes(self.line.bytes())
    }
}

impl<'a> MessageParse<'a> for DebugInput<&'a [u8]> {
    open spec fn spec_parse_body(typ: u16, body: Seq<u8>) -> Option<DebugInput<Seq<u8>>> {
        if typ == 0x8500 {
            Some(DebugInput { line: body })
        } else {
            None
        }
    }

    fn parse_body(typ: u16, body: &'a [u8]) -> (r: Option<Self>) {
        if typ != Self::TYPE {
            return None;
        }
        Some(DebugInput { line: body })
    }
}

/// Parsing the body of a [DebugInput] gives it back.
pub proof fn lemma_debug_input_roundtrip<I: Bytes>(m: DebugInput<I>)
    ensures
        <DebugInput<&[u8]> as MessageParse>::spec_parse_body(m.spec_message_type(), m.spec_body())
            == Some(m@),
{
}

/// 0x8501 Debug Output, radio message.
#[derive(Debug, Clone, PartialEq, Eq, PartialOrd, Ord, Hash)]
pub struct DebugOutput<I> {
    /// True if this is a defmt frame (or part of one).
    pub defmt: bool,
    /// The output data.
    pub data: I,
}

impl<I> MessageType for DebugOutput<I> {
    const TYPE: u16 = 0x8501;
}

impl<I: View<V = Seq<u8>>> View for DebugOutput<I> {
    type V = DebugOutput<Seq<u8>>;

    open spec fn view(&self) -> DebugOutput<Seq<u8>> {
        DebugOutput { defmt: self.defmt, data: self.data@ }
    }
}

impl<I> DebugOutput<I> {
    /// Apply `f` to the data.
    pub fn map<F, J>(self, f: F) -> (r: DebugOutput<J>)
        where
            F: FnOnce(I) -> J,
        requires
            call_requires(f, (self.data,)),
        ensures
            r.defmt == self.defmt,
            call_ensures(f, (self.data,), r.data),
    {
        DebugOutput { defmt: self.defmt, data: f(self.data) }
    }

    /// Apply `f` to a reference to the data.
    pub fn map_ref<'b, F, J>(&'b self, f: F) -> (r: DebugOutput<J>)
        where
            F: FnOnce(&'b I) -> J,
        requires
            call_requires(f, (&self.data,)),
        ensures
            r.defmt == self.defmt,
            call_ensures(f, (&self.data,), r.data),
    {
        DebugOutput { defmt: self.defmt, data: f(&self.data) }
    }
}

impl<'b> DebugOutput<&'b [u8]> {
    /// A copy that owns its data.
    pub fn to_owned(&self) -> (r: DebugOutput<Vec<u8>>)
        ensures
            r@ == self@,
    {
        DebugOutput { defmt: self.defmt, data: vstd::slice::slice_to_vec(self.data) }
    }
}

impl DebugOutput<Vec<u8>> {
    /// A view that borrows the data.
    pub fn borrow(&self) -> (r: DebugOutput<&[u8]>)
        ensures
            r@ == self@,
    {
        DebugOutput { defmt: self.defmt, data: self.data.as_slice() }
    }
}

impl<I: Bytes> MessageSerialize for DebugOutput<I> {
    open spec fn spec_message_type(&self) -> u16 {
        0x8501
    }

    open spec fn spec_body(&self) -> Seq<u8> {
        seq![flag_byte(self.defmt)] + self.data@
    }

    open spec fn serializable(&self) -> bool {
        true
    }

    fn message_type(&self) -> (t: u16) {
        Self::TYPE
    }

    fn message_body<S: Serializer>(&self, ser: &mut S) -> (r: Result<(), S::Error>) {
        write_flag(ser, self.defmt)?;
        let r = ser.write_bytes(self.data.bytes());
        assert(r is Ok ==> ser.written() =~= old(ser).written() + self.spec_body());
        r
    }
}

impl<'a> MessageParse<'a> for DebugOutput<&'a [u8]> {
    open spec fn spec_parse_body(typ: u16, body: Seq<u8>) -> Option<DebugOutput<Seq<u8>>> {
        if typ == 0x8501 && body.len() >= 1 {
            Some(DebugOutput { defmt: body[0] > 0, data: body.subrange(1, body.len() as int) })
        } else {
            None
        }
    }

    fn parse_body(typ: u16, body: &'a [u8]) -> (r: Option<Self>) {
        if typ != Self::TYPE || body.len() < 1 {
            return None;
        }
        Some(DebugOutput { defmt: body[0] > 0, data: vstd::slice::slice_subrange(body, 1, body.len()) })
    }
}

/// The wire layout of a debug output message's body: one byte that is 1
/// when the data is defmt-encoded and 0 when not, then the data. A body
/// of at least one byte is read back by the same layout, the flag being
/// set when its byte is not zero.
pub proof fn law_debug_output_wire_layout<I: Bytes>(m: DebugOutput<I>, typ: u16, body: Seq<u8>)
    ensures
        ({
            let b = m.spec_body();
            &&& m.spec_message_type() == 0x8501
            &&& b.len() == 1 + m.data@.len()
            &&& b[0] == (if m.defmt {
                1u8
            } else {
                0u8
            })
            &&& b.subrange(1, b.len() as int) == m.data@
        }),
        (<DebugOutput<&[u8]> as MessageParse>::spec_parse_body(typ, body) is Some) == (typ
            == 0x8501 && body.len() >= 1),
        <DebugOutput<&[u8]> as MessageParse>::spec_parse_body(typ, body) matches Some(r) ==> {
            &&& r.defmt == (body[0] != 0)
            &&& r.data == body.subrange(1, body.len() as int)
        },
{
    let b = m.spec_body();
    assert(b.subrange(1, b.len() as int) =~= m.data@);
}

/// Parsing the body of a [DebugOutput] gives it back.
pub proof fn lemma_debug_output_roundtrip<I: Bytes>(m: DebugOutput<I>)
    ensures
        <DebugOutput<&[u8]> as MessageParse>::spec_parse_body(m.spec_message_type(), m.spec_body())
            == Some(m@),
{
    let b = m.spec_body();
    assert(b.subrange(1, b.len() as int) =~= m.data@);
}

} // verus!
