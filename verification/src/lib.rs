//! Protocol, firmware-image and board logic for the Quansheng UV-K5 radio.
pub mod board;
pub mod client;
pub mod firmware;
pub mod hexdump;
pub mod protocol;
pub mod text;
pub mod tool;
pub mod version;

pub use version::{Version, VersionError, VERSION_LEN};
pub use client::{ArrayBuffer, Client, ClientError, ClientHost, ClientRadio};
