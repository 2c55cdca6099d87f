//! Logic of the radio firmware: the FM radio chip's registers, and the
//! demo program's commands, keys and display.
pub mod bk1080;
pub mod demo;
