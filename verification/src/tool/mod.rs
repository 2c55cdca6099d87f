//! The logic of the host-side tool: firmware images, flashing, reading
//! the EEPROM, a simulated radio and traffic dumps.
pub mod binformat;
pub mod common;
pub mod console;
pub mod elfimage;
pub mod debug;
pub mod flash;
pub mod read_eeprom;
pub mod simulate;
