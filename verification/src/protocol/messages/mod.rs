//! Message types used in the protocol.
use vstd::prelude::*;

use crate::protocol::parse::{opt_view, MessageParse};
use crate::protocol::serialize::{MessageSerialize, Serializer};

pub mod bootloader;
pub mod custom;
pub mod radio;
pub mod util;

use util::Bytes;
use bootloader::{
    lemma_bootloader_ready_reply_roundtrip, lemma_bootloader_ready_roundtrip,
    lemma_write_flash_reply_roundtrip, lemma_write_flash_roundtrip,
};
use custom::{lemma_debug_input_roundtrip, lemma_debug_output_roundtrip};
use radio::{
    lemma_hello_reply_roundtrip, lemma_hello_roundtrip, lemma_read_eeprom_reply_roundtrip,
    lemma_read_eeprom_roundtrip,
};

verus! {

/// A trait for messages that have statically-known message types.
pub trait MessageType {
    /// The message type number.
    const TYPE: u16;
}

/// Messages sent from the host computer to the radio.
#[derive(Debug, Clone, PartialEq, Eq, PartialOrd, Ord, Hash)]
pub enum HostMessage<I> {
    /// 0x0514 Hello
    Hello(radio::Hello),
    /// 0x0519 Write Flash (bootloader mode)
    WriteFlash(bootloader::WriteFlash<I>),
    /// 0x051b Read EEPROM
    ReadEeprom(radio::ReadEeprom),
    /// 0x0530 Bootloader Ready Reply (bootloader mode)
    BootloaderReadyReply(bootloader::BootloaderReadyReply),
    /// 0x8500 Debug Input (custom)
    DebugInput(custom::DebugInput<I>),
}

impl<I: View<V = Seq<u8>>> View for HostMessage<I> {
    type V = HostMessage<Seq<u8>>;

    open spec fn view(&self) -> HostMessage<Seq<u8>> {
        match self {
            HostMessage::Hello(o) => HostMessage::Hello(*o),
            HostMessage::WriteFlash(o) => HostMessage::WriteFlash(o@),
            HostMessage::ReadEeprom(o) => HostMessage::ReadEeprom(*o),
            HostMessage::BootloaderReadyReply(o) => HostMessage::BootloaderReadyReply(*o),
            HostMessage::DebugInput(o) => HostMessage::DebugInput(o@),
        }
    }
}

impl<I> HostMessage<I> {
    /// The data the message carries, if any.
    pub open spec fn payload(&self) -> Option<I> {
        match self {
            HostMessage::WriteFlash(o) => Some(o.data),
            HostMessage::DebugInput(o) => Some(o.line),
            _ => None,
        }
    }

    /// The message with its data replaced by `d`.
    pub open spec fn with_payload<J>(&self, d: J) -> HostMessage<J> {
        match self {
            HostMessage::Hello(o) => HostMessage::Hello(*o),
            HostMessage::WriteFlash(o) => HostMessage::WriteFlash(
                bootloader::WriteFlash {
                    session_id: o.session_id,
                    page: o.page,
                    max_page: o.max_page,
                    len: o.len,
                    _pad: o._pad,
                    data: d,
                },
            ),
            HostMessage::ReadEeprom(o) => HostMessage::ReadEeprom(*o),
            HostMessage::BootloaderReadyReply(o) => HostMessage::BootloaderReadyReply(*o),
            HostMessage::DebugInput(o) => HostMessage::DebugInput(custom::DebugInput { line: d }),
        }
    }

    /// Whether `r` is what mapping the message's data with `f` can give:
    /// the message with its data replaced by a result of `f` on it; a
    /// message without data comes back as it was.
    pub open spec fn map_gives<J, F: FnOnce(I) -> J>(&self, f: F, r: HostMessage<J>) -> bool {
        match self.payload() {
            Some(d) => r.payload() matches Some(e) && call_ensures(f, (d,), e) && r
                == self.with_payload(e),
            None => r.payload() is None && forall|e: J| #[trigger] self.with_payload(e) == r,
        }
    }

    /// Whether `r` is what mapping a reference to the message's data with
    /// `f` can give.
    pub open spec fn map_ref_gives<'b, J, F: FnOnce(&'b I) -> J>(&'b self, f: F, r: HostMessage<J>) -> bool {
        match self.payload() {
            Some(d) => r.payload() matches Some(e) && call_ensures(f, (&d,), e) && r
                == self.with_payload(e),
            None => r.payload() is None && forall|e: J| #[trigger] self.with_payload(e) == r,
        }
    }

    /// Apply `f` to the data the message carries, if any.
    pub fn map<F, J>(self, f: F) -> (r: HostMessage<J>)
        where
            F: FnOnce(I) -> J,
        requires
            self.payload() matches Some(d) ==> call_requires(f, (d,)),
        ensures
            self.map_gives(f, r),
    {
        match self {
            HostMessage::Hello(o) => HostMessage::Hello(o),
            HostMessage::WriteFlash(o) => HostMessage::WriteFlash(o.map(f)),
            HostMessage::ReadEeprom(o) => HostMessage::ReadEeprom(o),
            HostMessage::BootloaderReadyReply(o) => HostMessage::BootloaderReadyReply(o),
            HostMessage::DebugInput(o) => HostMessage::DebugInput(o.map(f)),
        }
    }

    /// Apply `f` to a reference to the data the message carries, if any.
    pub fn map_ref<'b, F, J>(&'b self, f: F) -> (r: HostMessage<J>)
        where
            F: FnOnce(&'b I) -> J,
        requires
            self.payload() matches Some(d) ==> call_requires(f, (&d,)),
        ensures
            self.map_ref_gives(f, r),
    {
        match self {
            HostMessage::Hello(o) => HostMessage::Hello(*o),
            HostMessage::WriteFlash(o) => HostMessage::WriteFlash(o.map_ref(f)),
            HostMessage::ReadEeprom(o) => HostMessage::ReadEeprom(*o),
            HostMessage::BootloaderReadyReply(o) => HostMessage::BootloaderReadyReply(*o),
            HostMessage::DebugInput(o) => HostMessage::DebugInput(o.map_ref(f)),
        }
    }
}

impl<'b> HostMessage<&'b [u8]> {
    /// A copy that owns its data.
    pub fn to_owned(&self) -> (r: HostMessage<Vec<u8>>)
        ensures
            r@ == self@,
    {
        match self {
            HostMessage::Hello(o) => HostMessage::Hello(*o),
            HostMessage::WriteFlash(o) => HostMessage::WriteFlash(o.to_owned()),
            HostMessage::ReadEeprom(o) => HostMessage::ReadEeprom(*o),
            HostMessage::BootloaderReadyReply(o) => HostMessage::BootloaderReadyReply(*o),
            HostMessage::DebugInput(o) => HostMessage::DebugInput(o.to_owned()),
        }
    }
}

impl HostMessage<Vec<u8>> {
    /// A view that borrows the data.
    pub fn borrow(&self) -> (r: HostMessage<&[u8]>)
        ensures
            r@ == self@,
    {
        match self {
            HostMessage::Hello(o) => HostMessage::Hello(*o),
            HostMessage::WriteFlash(o) => HostMessage::WriteFlash(o.borrow()),
            HostMessage::ReadEeprom(o) => HostMessage::ReadEeprom(*o),
            HostMessage::BootloaderReadyReply(o) => HostMessage::BootloaderReadyReply(*o),
            HostMessage::DebugInput(o) => HostMessage::DebugInput(o.borrow()),
        }
    }
}

impl<I: Bytes> MessageSerialize for HostMessage<I> {
    open spec fn spec_message_type(&self) -> u16 {
        match self {
            HostMessage::Hello(m) => m.spec_message_type(),
            HostMessage::WriteFlash(m) => m.spec_message_type(),
            HostMessage::ReadEeprom(m) => m.spec_message_type(),
            HostMessage::BootloaderReadyReply(m) => m.spec_message_type(),
            HostMessage::DebugInput(m) => m.spec_message_type(),
        }
    }

    open spec fn spec_body(&self) -> Seq<u8> {
        match self {
            HostMessage::Hello(m) => m.spec_body(),
            HostMessage::WriteFlash(m) => m.spec_body(),
            HostMessage::ReadEeprom(m) => m.spec_body(),
            HostMessage::BootloaderReadyReply(m) => m.spec_body(),
            HostMessage::DebugInput(m) => m.spec_body(),
        }
    }

    open spec fn serializable(&self) -> bool {
        match self {
            HostMessage::WriteFlash(m) => m.serializable(),
            _ => true,
        }
    }

    fn message_type(&self) -> (t: u16) {
        match self {
            HostMessage::Hello(m) => m.message_type(),
            HostMessage::WriteFlash(m) => m.message_type(),
            HostMessage::ReadEeprom(m) => m.message_type(),
            HostMessage::BootloaderReadyReply(m) => m.message_type(),
            HostMessage::DebugInput(m) => m.message_type(),
        }
    }

    fn message_body<S: Serializer>(&self, ser: &mut S) -> (r: Result<(), S::Error>) {
        match self {
            HostMessage::Hello(m) => m.message_body(ser),
            HostMessage::WriteFlash(m) => m.message_body(ser),
            HostMessage::ReadEeprom(m) => m.message_body(ser),
            HostMessage::BootloaderReadyReply(m) => m.message_body(ser),
            HostMessage::DebugInput(m) => m.message_body(ser),
        }
    }
}

impl<'a> MessageParse<'a> for HostMessage<&'a [u8]> {
    open spec fn spec_parse_body(typ: u16, body: Seq<u8>) -> Option<HostMessage<Seq<u8>>> {
        if typ == 0x0514 {
            match <radio::Hello as MessageParse<'a>>::spec_parse_body(typ, body) {
                Some(m) => Some(HostMessage::Hello(m)),
                None => None,
            }
        } else if typ == 0x0519 {
            match <bootloader::WriteFlash<&'a [u8]> as MessageParse<'a>>::spec_parse_body(typ, body) {
                Some(m) => Some(HostMessage::WriteFlash(m)),
                None => None,
            }
        } else if typ == 0x051b {
            match <radio::ReadEeprom as MessageParse<'a>>::spec_parse_body(typ, body) {
                Some(m) => Some(HostMessage::ReadEeprom(m)),
                None => None,
            }
        } else if typ == 0x0530 {
            match <bootloader::BootloaderReadyReply as MessageParse<'a>>::spec_parse_body(
                typ,
                body,
            ) {
                Some(m) => Some(HostMessage::BootloaderReadyReply(m)),
                None => None,
            }
        } else if typ == 0x8500 {
            match <custom::DebugInput<&'a [u8]> as MessageParse<'a>>::spec_parse_body(typ, body) {
                Some(m) => Some(HostMessage::DebugInput(m)),
                None => None,
            }
        } else {
            // we don't recognize the message type
            None
        }
    }

    fn parse_body(typ: u16, body: &'a [u8]) -> (r: Option<Self>) {
        if typ == 0x0514 {
            match <radio::Hello as MessageParse<'a>>::parse_body(typ, body) {
                Some(m) => Some(HostMessage::Hello(m)),
                None => None,
            }
        } else if typ == 0x0519 {
            match <bootloader::WriteFlash<&'a [u8]> as MessageParse<'a>>::parse_body(typ, body) {
                Some(m) => Some(HostMessage::WriteFlash(m)),
                None => None,
            }
        } else if typ == 0x051b {
            match <radio::ReadEeprom as MessageParse<'a>>::parse_body(typ, body) {
                Some(m) => Some(HostMessage::ReadEeprom(m)),
                None => None,
            }
        } else if typ == 0x0530 {
            match <bootloader::BootloaderReadyReply as MessageParse<'a>>::parse_body(typ, body) {
                Some(m) => Some(HostMessage::BootloaderReadyReply(m)),
                None => None,
            }
        } else if typ == 0x8500 {
            match <custom::DebugInput<&'a [u8]> as MessageParse<'a>>::parse_body(typ, body) {
                Some(m) => Some(HostMessage::DebugInput(m)),
                None => None,
            }
        } else {
            None
        }
    }
}


/// Messages sent from the radio to the host computer.
#[derive(Debug, Clone, PartialEq, Eq, PartialOrd, Ord, Hash)]
pub enum RadioMessage<I> {
    /// 0x0515 HelloReply
    HelloReply(radio::HelloReply),
    /// 0x0518 Bootloader Ready (bootloader mode)
    BootloaderReady(bootloader::BootloaderReady),
    /// 0x051a Write Flash Reply (bootloader mode)
    WriteFlashReply(bootloader::WriteFlashReply),
    /// 0x51c Read EEPROM Reply
    ReadEepromReply(radio::ReadEepromReply<I>),
    /// 0x8501 Debug Output (custom)
    DebugOutput(custom::DebugOutput<I>),
}

impl<I: View<V = Seq<u8>>> View for RadioMessage<I> {
    type V = RadioMessage<Seq<u8>>;

    open spec fn view(&self) -> RadioMessage<Seq<u8>> {
        match self {
            RadioMessage::HelloReply(o) => RadioMessage::HelloReply(*o),
            RadioMessage::BootloaderReady(o) => RadioMessage::BootloaderReady(*o),
            RadioMessage::WriteFlashReply(o) => RadioMessage::WriteFlashReply(*o),
            RadioMessage::ReadEepromReply(o) => RadioMessage::ReadEepromReply(o@),
            RadioMessage::DebugOutput(o) => RadioMessage::DebugOutput(o@),
        }
    }
}

impl<I> RadioMessage<I> {
    /// The data the message carries, if any.
    pub open spec fn payload(&self) -> Option<I> {
        match self {
            RadioMessage::ReadEepromReply(o) => Some(o.data),
            RadioMessage::DebugOutput(o) => Some(o.data),
            _ => None,
        }
    }

    /// The message with its data replaced by `d`.
    pub open spec fn with_payload<J>(&self, d: J) -> RadioMessage<J> {
        match self {
            RadioMessage::HelloReply(o) => RadioMessage::HelloReply(*o),
            RadioMessage::BootloaderReady(o) => RadioMessage::BootloaderReady(*o),
            RadioMessage::WriteFlashReply(o) => RadioMessage::WriteFlashReply(*o),
            RadioMessage::ReadEepromReply(o) => RadioMessage::ReadEepromReply(
                radio::ReadEepromReply { address: o.address, len: o.len, _pad: o._pad, data: d },
            ),
            RadioMessage::DebugOutput(o) => RadioMessage::DebugOutput(
                custom::DebugOutput { defmt: o.defmt, data: d },
            ),
        }
    }

    /// Whether `r` is what mapping the message's data with `f` can give:
    /// the message with its data replaced by a result of `f` on it; a
    /// message without data comes back as it was.
    pub open spec fn map_gives<J, F: FnOnce(I) -> J>(&self, f: F, r: RadioMessage<J>) -> bool {
        match self.payload() {
            Some(d) => r.payload() matches Some(e) && call_ensures(f, (d,), e) && r
                == self.with_payload(e),
            None => r.payload() is None && forall|e: J| #[trigger] self.with_payload(e) == r,
        }
    }

    /// Whether `r` is what mapping a reference to the message's data with
    /// `f` can give.
    pub open spec fn map_ref_gives<'b, J, F: FnOnce(&'b I) -> J>(&'b self, f: F, r: RadioMessage<J>) -> bool {
        match self.payload() {
            Some(d) => r.payload() matches Some(e) && call_ensures(f, (&d,), e) && r
                == self.with_payload(e),
            None => r.payload() is None && forall|e: J| #[trigger] self.with_payload(e) == r,
        }
    }

    /// Apply `f` to the data the message carries, if any.
    pub fn map<F, J>(self, f: F) -> (r: RadioMessage<J>)
        where
            F: FnOnce(I) -> J,
        requires
            self.payload() matches Some(d) ==> call_requires(f, (d,)),
        ensures
            self.map_gives(f, r),
    {
        match self {
            RadioMessage::HelloReply(o) => RadioMessage::HelloReply(o),
            RadioMessage::BootloaderReady(o) => RadioMessage::BootloaderReady(o),
            RadioMessage::WriteFlashReply(o) => RadioMessage::WriteFlashReply(o),
            RadioMessage::ReadEepromReply(o) => RadioMessage::ReadEepromReply(o.map(f)),
            RadioMessage::DebugOutput(o) => RadioMessage::DebugOutput(o.map(f)),
        }
    }

    /// Apply `f` to a reference to the data the message carries, if any.
    pub fn map_ref<'b, F, J>(&'b self, f: F) -> (r: RadioMessage<J>)
        where
            F: FnOnce(&'b I) -> J,
        requires
            self.payload() matches Some(d) ==> call_requires(f, (&d,)),
        ensures
            self.map_ref_gives(f, r),
    {
        match self {
            RadioMessage::HelloReply(o) => RadioMessage::HelloReply(*o),
            RadioMessage::BootloaderReady(o) => RadioMessage::BootloaderReady(*o),
            RadioMessage::WriteFlashReply(o) => RadioMessage::WriteFlashReply(*o),
            RadioMessage::ReadEepromReply(o) => RadioMessage::ReadEepromReply(o.map_ref(f)),
            RadioMessage::DebugOutput(o) => RadioMessage::DebugOutput(o.map_ref(f)),
        }
    }
}

impl<'b> RadioMessage<&'b [u8]> {
    /// A copy that owns its data.
    pub fn to_owned(&self) -> (r: RadioMessage<Vec<u8>>)
        ensures
            r@ == self@,
    {
        match self {
            RadioMessage::HelloReply(o) => RadioMessage::HelloReply(*o),
            RadioMessage::BootloaderReady(o) => RadioMessage::BootloaderReady(*o),
            RadioMessage::WriteFlashReply(o) => RadioMessage::WriteFlashReply(*o),
            RadioMessage::ReadEepromReply(o) => RadioMessage::ReadEepromReply(o.to_owned()),
            RadioMessage::DebugOutput(o) => RadioMessage::DebugOutput(o.to_owned()),
        }
    }
}

impl RadioMessage<Vec<u8>> {
    /// A view that borrows the data.
    pub fn borrow(&self) -> (r: RadioMessage<&[u8]>)
        ensures
            r@ == self@,
    {
        match self {
            RadioMessage::HelloReply(o) => RadioMessage::HelloReply(*o),
            RadioMessage::BootloaderReady(o) => RadioMessage::BootloaderReady(*o),
            RadioMessage::WriteFlashReply(o) => RadioMessage::WriteFlashReply(*o),
            RadioMessage::ReadEepromReply(o) => RadioMessage::ReadEepromReply(o.borrow()),
            RadioMessage::DebugOutput(o) => RadioMessage::DebugOutput(o.borrow()),
        }
    }
}

impl<I: Bytes> MessageSerialize for RadioMessage<I> {
    open spec fn spec_message_type(&self) -> u16 {
        match self {
            RadioMessage::HelloReply(m) => m.spec_message_type(),
            RadioMessage::BootloaderReady(m) => m.spec_message_type(),
            RadioMessage::WriteFlashReply(m) => m.spec_message_type(),
            RadioMessage::ReadEepromReply(m) => m.spec_message_type(),
            RadioMessage::DebugOutput(m) => m.spec_message_type(),
        }
    }

    open spec fn spec_body(&self) -> Seq<u8> {
        match self {
            RadioMessage::HelloReply(m) => m.spec_body(),
            RadioMessage::BootloaderReady(m) => m.spec_body(),
            RadioMessage::WriteFlashReply(m) => m.spec_body(),
            RadioMessage::ReadEepromReply(m) => m.spec_body(),
            RadioMessage::DebugOutput(m) => m.spec_body(),
        }
    }

    open spec fn serializable(&self) -> bool {
        true
    }

    fn message_type(&self) -> (t: u16) {
        match self {
            RadioMessage::HelloReply(m) => m.message_type(),
            RadioMessage::BootloaderReady(m) => m.message_type(),
            RadioMessage::WriteFlashReply(m) => m.message_type(),
            RadioMessage::ReadEepromReply(m) => m.message_type(),
            RadioMessage::DebugOutput(m) => m.message_type(),
        }
    }

    fn message_body<S: Serializer>(&self, ser: &mut S) -> (r: Result<(), S::Error>) {
        match self {
            RadioMessage::HelloReply(m) => m.message_body(ser),
            RadioMessage::BootloaderReady(m) => m.message_body(ser),
            RadioMessage::WriteFlashReply(m) => m.message_body(ser),
            RadioMessage::ReadEepromReply(m) => m.message_body(ser),
            RadioMessage::DebugOutput(m) => m.message_body(ser),
        }
    }
}

impl<'a> MessageParse<'a> for RadioMessage<&'a [u8]> {
    open spec fn spec_parse_body(typ: u16, body: Seq<u8>) -> Option<RadioMessage<Seq<u8>>> {
        if typ == 0x0515 {
            match <radio::HelloReply as MessageParse<'a>>::spec_parse_body(typ, body) {
                Some(m) => Some(RadioMessage::HelloReply(m)),
                None => None,
            }
        } else if typ == 0x0518 {
            match <bootloader::BootloaderReady as MessageParse<'a>>::spec_parse_body(typ, body) {
                Some(m) => Some(RadioMessage::BootloaderReady(m)),
                None => None,
            }
        } else if typ == 0x051a {
            match <bootloader::WriteFlashReply as MessageParse<'a>>::spec_parse_body(typ, body) {
                Some(m) => Some(RadioMessage::WriteFlashReply(m)),
                None => None,
            }
        } else if typ == 0x051c {
            match <radio::ReadEepromReply<&'a [u8]> as MessageParse<'a>>::spec_parse_body(
                typ,
                body,
            ) {
                Some(m) => Some(RadioMessage::ReadEepromReply(m)),
                None => None,
            }
        } else if typ == 0x8501 {
            match <custom::DebugOutput<&'a [u8]> as MessageParse<'a>>::spec_parse_body(typ, body) {
                Some(m) => Some(RadioMessage::DebugOutput(m)),
                None => None,
            }
        } else {
            // we don't recognize the message type
            None
        }
    }

    fn parse_body(typ: u16, body: &'a [u8]) -> (r: Option<Self>) {
        if typ == 0x0515 {
            match <radio::HelloReply as MessageParse<'a>>::parse_body(typ, body) {
                Some(m) => Some(RadioMessage::HelloReply(m)),
                None => None,
            }
        } else if typ == 0x0518 {
            match <bootloader::BootloaderReady as MessageParse<'a>>::parse_body(typ, body) {
                Some(m) => Some(RadioMessage::BootloaderReady(m)),
                None => None,
            }
        } else if typ == 0x051a {
            match <bootloader::WriteFlashReply as MessageParse<'a>>::parse_body(typ, body) {
                Some(m) => Some(RadioMessage::WriteFlashReply(m)),
                None => None,
            }
        } else if typ == 0x051c {
            match <radio::ReadEepromReply<&'a [u8]> as MessageParse<'a>>::parse_body(typ, body) {
                Some(m) => Some(RadioMessage::ReadEepromReply(m)),
                None => None,
            }
        } else if typ == 0x8501 {
            match <custom::DebugOutput<&'a [u8]> as MessageParse<'a>>::parse_body(typ, body) {
                Some(m) => Some(RadioMessage::DebugOutput(m)),
                None => None,
            }
        } else {
            None
        }
    }
}

/// Any kind of message, either a [HostMessage] or a [RadioMessage].
#[derive(Debug, Clone, PartialEq, Eq, PartialOrd, Ord, Hash)]
pub enum Message<I> {
    Host(HostMessage<I>),
    Radio(RadioMessage<I>),
}

impl<I: View<V = Seq<u8>>> View for Message<I> {
    type V = Message<Seq<u8>>;

    open spec fn view(&self) -> Message<Seq<u8>> {
        match self {
            Message::Host(o) => Message::Host(o@),
            Message::Radio(o) => Message::Radio(o@),
        }
    }
}

impl<I> Message<I> {
    /// The data the message carries, if any.
    pub open spec fn payload(&self) -> Option<I> {
        match self {
            Message::Host(o) => o.payload(),
            Message::Radio(o) => o.payload(),
        }
    }

    /// The message with its data replaced by `d`.
    pub open spec fn with_payload<J>(&self, d: J) -> Message<J> {
        match self {
            Message::Host(o) => Message::Host(o.with_payload(d)),
            Message::Radio(o) => Message::Radio(o.with_payload(d)),
        }
    }

    /// Whether `r` is what mapping the message's data with `f` can give:
    /// the message with its data replaced by a result of `f` on it; a
    /// message without data comes back as it was.
    pub open spec fn map_gives<J, F: FnOnce(I) -> J>(&self, f: F, r: Message<J>) -> bool {
        match self.payload() {
            Some(d) => r.payload() matches Some(e) && call_ensures(f, (d,), e) && r
                == self.with_payload(e),
            None => r.payload() is None && forall|e: J| #[trigger] self.with_payload(e) == r,
        }
    }

    /// Whether `r` is what mapping a reference to the message's data with
    /// `f` can give.
    pub open spec fn map_ref_gives<'b, J, F: FnOnce(&'b I) -> J>(&'b self, f: F, r: Message<J>) -> bool {
        match self.payload() {
            Some(d) => r.payload() matches Some(e) && call_ensures(f, (&d,), e) && r
                == self.with_payload(e),
            None => r.payload() is None && forall|e: J| #[trigger] self.with_payload(e) == r,
        }
    }

    /// Apply `f` to the data the message carries, if any.
    pub fn map<F, J>(self, f: F) -> (r: Message<J>)
        where
            F: FnOnce(I) -> J,
        requires
            self.payload() matches Some(d) ==> call_requires(f, (d,)),
        ensures
            self.map_gives(f, r),
    {
        match self {
            Message::Host(o) => Message::Host(o.map(f)),
            Message::Radio(o) => Message::Radio(o.map(f)),
        }
    }

    /// Apply `f` to a reference to the data the message carries, if any.
    pub fn map_ref<'b, F, J>(&'b self, f: F) -> (r: Message<J>)
        where
            F: FnOnce(&'b I) -> J,
        requires
            self.payload() matches Some(d) ==> call_requires(f, (&d,)),
        ensures
            self.map_ref_gives(f, r),
    {
        match self {
            Message::Host(o) => Message::Host(o.map_ref(f)),
            Message::Radio(o) => Message::Radio(o.map_ref(f)),
        }
    }
}

impl<'b> Message<&'b [u8]> {
    /// A copy that owns its data.
    pub fn to_owned(&self) -> (r: Message<Vec<u8>>)
        ensures
            r@ == self@,
    {
        match self {
            Message::Host(o) => Message::Host(o.to_owned()),
            Message::Radio(o) => Message::Radio(o.to_owned()),
        }
    }
}

impl Message<Vec<u8>> {
    /// A view that borrows the data.
    pub fn borrow(&self) -> (r: Message<&[u8]>)
        ensures
            r@ == self@,
    {
        match self {
            Message::Host(o) => Message::Host(o.borrow()),
            Message::Radio(o) => Message::Radio(o.borrow()),
        }
    }
}

impl<I: Bytes> MessageSerialize for Message<I> {
    open spec fn spec_message_type(&self) -> u16 {
        match self {
            Message::Host(m) => m.spec_message_type(),
            Message::Radio(m) => m.spec_message_type(),
        }
    }

    open spec fn spec_body(&self) -> Seq<u8> {
        match self {
            Message::Host(m) => m.spec_body(),
            Message::Radio(m) => m.spec_body(),
        }
    }

    open spec fn serializable(&self) -> bool {
        match self {
            Message::Host(m) => m.serializable(),
            Message::Radio(m) => m.serializable(),
        }
    }

    fn message_type(&self) -> (t: u16) {
        match self {
            Message::Host(m) => m.message_type(),
            Message::Radio(m) => m.message_type(),
        }
    }

    fn message_body<S: Serializer>(&self, ser: &mut S) -> (r: Result<(), S::Error>) {
        match self {
            Message::Host(m) => m.message_body(ser),
            Message::Radio(m) => m.message_body(ser),
        }
    }
}

impl<'a> MessageParse<'a> for Message<&'a [u8]> {
    /// A host message if the body parses as one, else a radio message.
    open spec fn spec_parse_body(typ: u16, body: Seq<u8>) -> Option<Message<Seq<u8>>> {
        match <HostMessage<&'a [u8]> as MessageParse<'a>>::spec_parse_body(typ, body) {
            Some(m) => Some(Message::Host(m)),
            None => match <RadioMessage<&'a [u8]> as MessageParse<'a>>::spec_parse_body(typ, body) {
                Some(m) => Some(Message::Radio(m)),
                None => None,
            },
        }
    }

    fn parse_body(typ: u16, body: &'a [u8]) -> (r: Option<Self>) {
        match <HostMessage<&'a [u8]> as MessageParse<'a>>::parse_body(typ, body) {
            Some(m) => Some(Message::Host(m)),
            None => match <RadioMessage<&'a [u8]> as MessageParse<'a>>::parse_body(typ, body) {
                Some(m) => Some(Message::Radio(m)),
                None => None,
            },
        }
    }
}


impl<I: Bytes> RadioMessage<I> {
    /// Whether the length fields of the message agree with the data it
    /// carries: a [radio::ReadEepromReply] states the length of its data.
    pub open spec fn lengths_agree(&self) -> bool {
        match self {
            RadioMessage::ReadEepromReply(m) => m.data@.len() == m.len,
            _ => true,
        }
    }
}

impl<I: Bytes> Message<I> {
    /// Whether the length fields of the message agree with the data it
    /// carries.
    pub open spec fn lengths_agree(&self) -> bool {
        match self {
            Message::Host(_) => true,
            Message::Radio(m) => m.lengths_agree(),
        }
    }
}

/// Parsing the body that a host message serializes to gives the message
/// back.
pub proof fn law_host_message_body_roundtrip<I: Bytes>(m: HostMessage<I>)
    requires
        m.serializable(),
    ensures
        <HostMessage<&[u8]> as MessageParse>::spec_parse_body(m.spec_message_type(), m.spec_body())
            == Some(m@),
{
    match m {
        HostMessage::Hello(o) => lemma_hello_roundtrip(o),
        HostMessage::WriteFlash(o) => lemma_write_flash_roundtrip(o),
        HostMessage::ReadEeprom(o) => lemma_read_eeprom_roundtrip(o),
        HostMessage::BootloaderReadyReply(o) => lemma_bootloader_ready_reply_roundtrip(o),
        HostMessage::DebugInput(o) => lemma_debug_input_roundtrip(o),
    }
}

/// Parsing the body that a radio message serializes to gives the
/// message back, when its length fields agree with its data.
pub proof fn law_radio_message_body_roundtrip<I: Bytes>(m: RadioMessage<I>)
    requires
        m.lengths_agree(),
    ensures
        <RadioMessage<&[u8]> as MessageParse>::spec_parse_body(
            m.spec_message_type(),
            m.spec_body(),
        ) == Some(m@),
{
    match m {
        RadioMessage::HelloReply(o) => lemma_hello_reply_roundtrip(o),
        RadioMessage::BootloaderReady(o) => lemma_bootloader_ready_roundtrip(o),
        RadioMessage::WriteFlashReply(o) => lemma_write_flash_reply_roundtrip(o),
        RadioMessage::ReadEepromReply(o) => lemma_read_eeprom_reply_roundtrip(o),
        RadioMessage::DebugOutput(o) => lemma_debug_output_roundtrip(o),
    }
}

/// Parsing the body that any message serializes to gives the message
/// back, when it can be serialized and its length fields agree with its
/// data.
pub proof fn law_message_body_roundtrip<I: Bytes>(m: Message<I>)
    requires
        m.serializable(),
        m.lengths_agree(),
    ensures
        <Message<&[u8]> as MessageParse>::spec_parse_body(m.spec_message_type(), m.spec_body())
            == Some(m@),
{
    match m {
        Message::Host(o) => law_host_message_body_roundtrip(o),
        Message::Radio(o) => {
            law_radio_message_body_roundtrip(o);
            // no host message has the type of a radio message
            assert(<HostMessage<&[u8]> as MessageParse>::spec_parse_body(
                o.spec_message_type(),
                o.spec_body(),
            ) is None);
        },
    }
}

/// Mapping a host message with a function that gives back what it is given
/// gives back the host message.
pub proof fn law_host_message_map_identity<I, F: FnOnce(I) -> I>(m: HostMessage<I>, f: F, r: HostMessage<I>)
    requires
        forall|x: I, y: I| call_ensures(f, (x,), y) ==> y == x,
        m.map_gives(f, r),
    ensures
        r == m,
{
}

/// Mapping a reference to a host message's data with a function that gives
/// back (a copy equal to) what it is given gives back the host message.
pub proof fn law_host_message_map_ref_identity<'b, I, F: FnOnce(&'b I) -> I>(
    m: &'b HostMessage<I>,
    f: F,
    r: HostMessage<I>,
)
    requires
        forall|x: &'b I, y: I| call_ensures(f, (x,), y) ==> y == *x,
        m.map_ref_gives(f, r),
    ensures
        r == *m,
{
}

/// Mapping a host message with `f` and then with `g` is mapping it once with
/// the two composed: the result is the host message with its data replaced by
/// a result of `g` on a result of `f` on its data, which is what mapping it
/// with any `h` that gives such results (`g` after `f`) can give.
pub proof fn law_host_message_map_compose<I, J, K, F: FnOnce(I) -> J, G: FnOnce(J) -> K, H: FnOnce(I) -> K>(
    m: HostMessage<I>,
    f: F,
    g: G,
    h: H,
    r1: HostMessage<J>,
    r2: HostMessage<K>,
)
    requires
        m.map_gives(f, r1),
        r1.map_gives(g, r2),
        forall|x: I, y: J, z: K|
            #![trigger call_ensures(f, (x,), y), call_ensures(g, (y,), z)]
            call_ensures(f, (x,), y) && call_ensures(g, (y,), z) ==> call_ensures(h, (x,), z),
    ensures
        m.map_gives(h, r2),
        match m.payload() {
            Some(d) => exists|y: J|
                #![trigger call_ensures(f, (d,), y)]
                call_ensures(f, (d,), y) && (r2.payload() matches Some(z) && call_ensures(
                    g,
                    (y,),
                    z,
                ) && r2 == m.with_payload(z)),
            None => r2.payload() is None && forall|z: K| #[trigger] m.with_payload(z) == r2,
        },
{
    match m.payload() {
        Some(d) => {
            let y = r1.payload()->Some_0;
            assert(call_ensures(f, (d,), y));
        },
        None => {
            assert forall|z: K| #[trigger] m.with_payload(z) == r2 by {
                let y: J = arbitrary();
                assert(r1 == m.with_payload(y));
                assert(r1.with_payload(z) == r2);
                assert(m.with_payload(y).with_payload(z) == m.with_payload(z));
            }
        },
    }
}

/// Mapping a radio message with a function that gives back what it is given
/// gives back the radio message.
pub proof fn law_radio_message_map_identity<I, F: FnOnce(I) -> I>(m: RadioMessage<I>, f: F, r: RadioMessage<I>)
    requires
        forall|x: I, y: I| call_ensures(f, (x,), y) ==> y == x,
        m.map_gives(f, r),
    ensures
        r == m,
{
}

/// Mapping a reference to a radio message's data with a function that gives
/// back (a copy equal to) what it is given gives back the radio message.
pub proof fn law_radio_message_map_ref_identity<'b, I, F: FnOnce(&'b I) -> I>(
    m: &'b RadioMessage<I>,
    f: F,
    r: RadioMessage<I>,
)
    requires
        forall|x: &'b I, y: I| call_ensures(f, (x,), y) ==> y == *x,
        m.map_ref_gives(f, r),
    ensures
        r == *m,
{
}

/// Mapping a radio message with `f` and then with `g` is mapping it once with
/// the two composed: the result is the radio message with its data replaced by
/// a result of `g` on a result of `f` on its data, which is what mapping it
/// with any `h` that gives such results (`g` after `f`) can give.
pub proof fn law_radio_message_map_compose<I, J, K, F: FnOnce(I) -> J, G: FnOnce(J) -> K, H: FnOnce(I) -> K>(
    m: RadioMessage<I>,
    f: F,
    g: G,
    h: H,
    r1: RadioMessage<J>,
    r2: RadioMessage<K>,
)
    requires
        m.map_gives(f, r1),
        r1.map_gives(g, r2),
        forall|x: I, y: J, z: K|
            #![trigger call_ensures(f, (x,), y), call_ensures(g, (y,), z)]
            call_ensures(f, (x,), y) && call_ensures(g, (y,), z) ==> call_ensures(h, (x,), z),
    ensures
        m.map_gives(h, r2),
        match m.payload() {
            Some(d) => exists|y: J|
                #![trigger call_ensures(f, (d,), y)]
                call_ensures(f, (d,), y) && (r2.payload() matches Some(z) && call_ensures(
                    g,
                    (y,),
                    z,
                ) && r2 == m.with_payload(z)),
            None => r2.payload() is None && forall|z: K| #[trigger] m.with_payload(z) == r2,
        },
{
    match m.payload() {
        Some(d) => {
            let y = r1.payload()->Some_0;
            assert(call_ensures(f, (d,), y));
        },
        None => {
            assert forall|z: K| #[trigger] m.with_payload(z) == r2 by {
                let y: J = arbitrary();
                assert(r1 == m.with_payload(y));
                assert(r1.with_payload(z) == r2);
                assert(m.with_payload(y).with_payload(z) == m.with_payload(z));
            }
        },
    }
}

/// Mapping a message with a function that gives back what it is given
/// gives back the message.
pub proof fn law_message_map_identity<I, F: FnOnce(I) -> I>(m: Message<I>, f: F, r: Message<I>)
    requires
        forall|x: I, y: I| call_ensures(f, (x,), y) ==> y == x,
        m.map_gives(f, r),
    ensures
        r == m,
        forall|e: I| (#[trigger] m.with_payload(e) is Host) == (m is Host),
{
}

/// Mapping a reference to a message's data with a function that gives
/// back (a copy equal to) what it is given gives back the message.
pub proof fn law_message_map_ref_identity<'b, I, F: FnOnce(&'b I) -> I>(
    m: &'b Message<I>,
    f: F,
    r: Message<I>,
)
    requires
        forall|x: &'b I, y: I| call_ensures(f, (x,), y) ==> y == *x,
        m.map_ref_gives(f, r),
    ensures
        r == *m,
{
}

/// Mapping a message with `f` and then with `g` is mapping it once with
/// the two composed: the result is the message with its data replaced by
/// a result of `g` on a result of `f` on its data, which is what mapping it
/// with any `h` that gives such results (`g` after `f`) can give.
pub proof fn law_message_map_compose<I, J, K, F: FnOnce(I) -> J, G: FnOnce(J) -> K, H: FnOnce(I) -> K>(
    m: Message<I>,
    f: F,
    g: G,
    h: H,
    r1: Message<J>,
    r2: Message<K>,
)
    requires
        m.map_gives(f, r1),
        r1.map_gives(g, r2),
        forall|x: I, y: J, z: K|
            #![trigger call_ensures(f, (x,), y), call_ensures(g, (y,), z)]
            call_ensures(f, (x,), y) && call_ensures(g, (y,), z) ==> call_ensures(h, (x,), z),
    ensures
        m.map_gives(h, r2),
        match m.payload() {
            Some(d) => exists|y: J|
                #![trigger call_ensures(f, (d,), y)]
                call_ensures(f, (d,), y) && (r2.payload() matches Some(z) && call_ensures(
                    g,
                    (y,),
                    z,
                ) && r2 == m.with_payload(z)),
            None => r2.payload() is None && forall|z: K| #[trigger] m.with_payload(z) == r2,
        },
        (r1 is Host) == (m is Host),
        (r2 is Host) == (m is Host),
{
    match m.payload() {
        Some(d) => {
            let y = r1.payload()->Some_0;
            assert(call_ensures(f, (d,), y));
        },
        None => {
            assert forall|z: K| #[trigger] m.with_payload(z) == r2 by {
                let y: J = arbitrary();
                assert(r1 == m.with_payload(y));
                assert(r1.with_payload(z) == r2);
                assert(m.with_payload(y).with_payload(z) == m.with_payload(z));
            }
        },
    }
}

/// Mapping the data of a write-flash message by reference with a
/// function that gives back (a copy equal to) what it is given gives back
/// the message: [bootloader::WriteFlash::map_ref] keeps every other field.
pub proof fn law_write_flash_map_ref_identity<'b, I, F: FnOnce(&'b I) -> I>(
    w: &'b bootloader::WriteFlash<I>,
    f: F,
    r: bootloader::WriteFlash<I>,
)
    requires
        forall|x: &'b I, y: I| call_ensures(f, (x,), y) ==> y == *x,
        r.session_id == w.session_id,
        r.page == w.page,
        r.max_page == w.max_page,
        r.len == w.len,
        r._pad == w._pad,
        call_ensures(f, (&w.data,), r.data),
    ensures
        r == *w,
{
}

/// Mapping the data of an EEPROM read reply by reference with a function
/// that gives back (a copy equal to) what it is given gives back the
/// reply: [radio::ReadEepromReply::map_ref] keeps every other field.
pub proof fn law_read_eeprom_reply_map_ref_identity<'b, I, F: FnOnce(&'b I) -> I>(
    w: &'b radio::ReadEepromReply<I>,
    f: F,
    r: radio::ReadEepromReply<I>,
)
    requires
        forall|x: &'b I, y: I| call_ensures(f, (x,), y) ==> y == *x,
        r.address == w.address,
        r.len == w.len,
        r._pad == w._pad,
        call_ensures(f, (&w.data,), r.data),
    ensures
        r == *w,
{
}

} // verus!
