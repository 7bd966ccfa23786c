//! Host-side logic of a Game Boy / Game Boy Advance cartridge reader and writer:
//! command framing, cartridge header checks, memory bank switching, and the
//! decision procedures that drive reading, erasing and flashing cartridges.
//! Everything that touches the serial port, files or the terminal lives
//! outside this library; the functions here take and return plain values.

pub mod bytes;
pub mod command;
pub mod gb_bank;
pub mod gb_flash;
pub mod gba;
pub mod gba_flash;
pub mod header;
pub mod hexdump;
pub mod rpc;
pub mod session;
pub mod utils;
pub mod zip_rom;

pub use utils::{ceil_div, div_round_up, lemma_ceil_div_bounds};
