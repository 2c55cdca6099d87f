//! The console: what to show for each thing read from the radio.
use vstd::prelude::*;
use vstd::string::StringSliceAdditionalSpecFns;

use crate::protocol::messages::{Message, RadioMessage};
use crate::protocol::parse::ParseResult;
use crate::text::str_from_utf8;

verus! {

/// What the console shows for a read.
#[derive(Debug, PartialEq, Eq)]
pub enum ConsoleItem<'a> {
    /// Debug output in the `defmt` encoding, to decode.
    Defmt(&'a [u8]),
    /// Debug output that is text.
    Text(&'a str),
    /// Debug output that is not text, to dump in hex.
    Binary(&'a [u8]),
    /// Any other message, to show as it is.
    Other,
    /// A frame whose body did not parse.
    ParseError,
    /// A frame whose checksum was wrong.
    CrcError,
    /// Nothing was read.
    Nothing,
}

/// Decide what to show for a read: debug output goes to the `defmt`
/// decoder when it says it is `defmt`-encoded, else is shown as text when
/// it is UTF-8 and dumped otherwise.
pub fn console_item<'a>(res: &ParseResult<&'a [u8], Message<&'a [u8]>>) -> (r: ConsoleItem<'a>)
    ensures
        match res {
            ParseResult::Parsed(_, Message::Radio(RadioMessage::DebugOutput(out))) => if out.defmt {
                r == ConsoleItem::Defmt(out.data)
            } else if vstd::utf8::valid_utf8(out.data@) {
                r matches ConsoleItem::Text(s) && s.spec_bytes() == out.data@
            } else {
                r == ConsoleItem::Binary(out.data)
            },
            ParseResult::Parsed(_, _) => r == ConsoleItem::Other,
            ParseResult::ParseErr(_, _) => r == ConsoleItem::ParseError,
            ParseResult::CrcErr(_, _) => r == ConsoleItem::CrcError,
            ParseResult::NoFrame => r == ConsoleItem::Nothing,
        },
{
    match res {
        ParseResult::Parsed(_, Message::Radio(RadioMessage::DebugOutput(out))) => {
            if out.defmt {
                ConsoleItem::Defmt(out.data)
            } else {
                match str_from_utf8(out.data) {
                    Ok(s) => ConsoleItem::Text(s),
                    Err(_) => ConsoleItem::Binary(out.data),
                }
            }
        },
        ParseResult::Parsed(_, _) => ConsoleItem::Other,
        ParseResult::ParseErr(_, _) => ConsoleItem::ParseError,
        ParseResult::CrcErr(_, _) => ConsoleItem::CrcError,
        ParseResult::NoFrame => ConsoleItem::Nothing,
    }
}

} // verus!
