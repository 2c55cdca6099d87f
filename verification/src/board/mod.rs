//! Board-level logic of the radio: the keypad, the EEPROM, the I2C bus
//! and the log buffer.
pub mod keypad;
pub mod eeprom;
pub mod logger;
pub mod shared_i2c;
