# gb_rw_host

Host side of a Game Boy / Game Boy Advance cartridge reader and writer that
talks to a microcontroller over a serial port.

`src/` is a Verus library holding the logic, each function with a contract
proved by Verus:

- `command`: the raw GBA command frames (code byte, 24-bit word addresses).
- `header`: the Game Boy cartridge header (controller, ROM/RAM sizes) and its
  two checksums.
- `gb_bank`: MBC1/MBC5 bank switching, flash erase command sequences, and the
  request sequences that read a cartridge or write its RAM.
- `gb_flash`, `gba_flash`: the procedures that write a ROM image to a Game Boy
  or Game Boy Advance flash cartridge, as machines that take the device's
  answer to one request and name the next one.
- `gba`: GBA ROM size guessing and chunked reads.
- `hexdump`: the text of a hex dump.
- `session`, `rpc`, `utils`: small decisions and values of a session.

`app/` is the program around it: command line, serial port, RPC client, files,
progress bars and logging. It carries out the requests the library names.

`tests/` runs the library on concrete values.
