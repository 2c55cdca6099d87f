# k5

Tools and firmware pieces for the Quansheng UV-K5 radio, with their logic
verified by Verus.

- `src/protocol`: the serial protocol: the frame format (start and end
  markers, length, obfuscated body, CRC-16/XMODEM), the search for frames
  in a byte stream, and the messages with their serialization and parsing.
- `src/client.rs`: a client that buffers incoming bytes, finds and parses
  frames, and encodes outgoing messages; whoever holds the port moves the
  bytes.
- `src/version.rs`, `src/hexdump.rs`, `src/text.rs`: firmware versions,
  hex dump layout, byte-string helpers.
- `src/tool`: the logic of the `k5tool` commands: reading firmware images
  (raw and ELF, flattened through the `elf` crate), sanity checks and
  flashing page by page, reading the EEPROM chunk by chunk, the dump file
  format, the console, and a simulated radio with its bootloader.
- `src/board`, `src/firmware`: the board support and firmware logic that
  does not need the hardware: keypad scanning and debouncing, EEPROM page
  writes, I2C transactions, the BK1080 FM chip's register cache, and the
  demo firmware's command line, key handling and display text.
- `app/`: the `k5tool` program: command-line parsing, serial ports and TCP,
  files, progress bars, the interactive console, printing.
- `tests/`: tests of the library on concrete values.
