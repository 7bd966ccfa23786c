use gb_rw_host::gba::{
    gba_erase_done, gba_flash_erase_writes, gba_flash_unlock_writes, gba_guess_step,
    gba_read_plan, gba_size_probe, gba_word_from_bytes, SizeGuess,
};
use gb_rw_host::command::FlashType;
use gb_rw_host::rpc::{GBStats, ReqMode};
use gb_rw_host::session::{
    console_of, elapsed_millis, file_access, is_ack, Console, is_hello_line, is_rom_extension, is_zip_extension,
    minutes_seconds, FileAccess, Subcommand,
};

const OPEN_BUS: [u8; 8] = [0x00, 0x20, 0x00, 0x20, 0x00, 0x20, 0x00, 0x20];

#[test]
fn size_probes() {
    assert_eq!(gba_size_probe(0), (32, 32 * 0x10_0000 - 8));
    assert_eq!(gba_size_probe(1), (32, 24 * 0x10_0000 - 8));
    assert_eq!(gba_size_probe(2), (16, 16 * 0x10_0000 - 8));
    assert_eq!(gba_size_probe(3), (16, 12 * 0x10_0000 - 8));
    assert_eq!(gba_size_probe(6), (4, 4 * 0x10_0000 - 8));
    assert_eq!(gba_size_probe(7), (4, 3 * 0x10_0000 - 8));
}

#[test]
fn size_guess_steps() {
    assert_eq!(gba_guess_step(0, &OPEN_BUS), SizeGuess::Probe(1));
    assert_eq!(gba_guess_step(2, &[1, 2, 3, 4, 5, 6, 7, 8]), SizeGuess::Found(16));
    assert_eq!(gba_guess_step(7, &OPEN_BUS), SizeGuess::NotFound);
    assert_eq!(gba_guess_step(5, &[0x00, 0x20]), SizeGuess::Found(8));
}

#[test]
fn size_guess_first_data_wins() {
    // A 8 MiB ROM: probes of 32 and 16 MiB read open bus, the first 8 MiB one reads data.
    let mut k = 0usize;
    let answer = loop {
        let (size, _) = gba_size_probe(k);
        let buf: &[u8] = if size > 8 { &OPEN_BUS } else { &[9u8; 8] };
        match gba_guess_step(k, buf) {
            SizeGuess::Found(s) => break Some(s),
            SizeGuess::Probe(n) => k = n,
            SizeGuess::NotFound => break None,
        }
    };
    assert_eq!(answer, Some(8));
}

#[test]
fn read_plan_chunks() {
    let plan = gba_read_plan(1);
    assert_eq!(plan.len(), 64);
    assert_eq!(plan[0], 0);
    assert_eq!(plan[63], 0xfc000);
    assert_eq!(gba_read_plan(32).len(), 2048);
    assert!(gba_read_plan(0).is_empty());
}

#[test]
fn word_from_bytes() {
    assert_eq!(gba_word_from_bytes(&[0x34, 0x12]), 0x1234);
    assert_eq!(gba_word_from_bytes(&[0x80, 0x00, 0xff]), 0x0080);
}

#[test]
fn gba_flash_bus_sequences() {
    assert_eq!(
        gba_flash_unlock_writes(FlashType::F3, 0x8000),
        vec![(0x8000, 0xff), (0x8000, 0x60), (0x8000, 0xd0), (0x8000, 0x90)]
    );
    assert_eq!(gba_flash_erase_writes(FlashType::F3, 0), vec![(0, 0xff), (0, 0x20), (0, 0xd0)]);
    assert!(gba_erase_done(0x80));
    assert!(!gba_erase_done(0x00));
}

#[test]
fn ack_and_greeting() {
    assert!(is_ack(0x41));
    assert!(!is_ack(0x42));
    assert!(is_hello_line(b"HELLO\n"));
    assert!(!is_hello_line(b"HELLO"));
    assert!(!is_hello_line(b"HELLO\r\n"));
    assert!(!is_hello_line(b"HELLP\n"));
}

#[test]
fn subcommand_files() {
    assert_eq!(file_access(Subcommand::GbReadRom), FileAccess::Write);
    assert_eq!(file_access(Subcommand::GbReadRam), FileAccess::Write);
    assert_eq!(file_access(Subcommand::GbaReadRom), FileAccess::Write);
    assert_eq!(file_access(Subcommand::GbWriteRom), FileAccess::Read);
    assert_eq!(file_access(Subcommand::GbWriteRam), FileAccess::Read);
    assert_eq!(file_access(Subcommand::GbaWriteRom), FileAccess::Read);
    assert_eq!(file_access(Subcommand::GbErase), FileAccess::Unused);
    assert_eq!(file_access(Subcommand::GbRead), FileAccess::Unused);
    assert_eq!(file_access(Subcommand::DebugPing), FileAccess::Unused);
}

#[test]
fn durations() {
    assert_eq!(elapsed_millis(125, 250), 125_250);
    assert_eq!(minutes_seconds(125_250), (2, 5));
    assert_eq!(minutes_seconds(999), (0, 0));
    assert_eq!(minutes_seconds(3_600_000), (60, 0));
}

#[test]
fn rpc_values() {
    let s = GBStats { flash_write_retries: 3, flash_write_errors: 1 };
    assert_eq!(s.flash_write_retries, 3);
    assert_ne!(ReqMode::GB, ReqMode::GBA);
}

#[test]
fn archive_extensions() {
    assert!(is_rom_extension(b"gb", Console::Gb));
    assert!(is_rom_extension(b"gbc", Console::Gb));
    assert!(!is_rom_extension(b"gba", Console::Gb));
    assert!(is_rom_extension(b"gba", Console::Gba));
    assert!(!is_rom_extension(b"gb", Console::Gba));
    assert!(!is_rom_extension(b"gbc", Console::Gba));
    assert!(!is_rom_extension(b"gbax", Console::Gba));
    assert!(!is_rom_extension(b"gbcx", Console::Gb));
    assert!(!is_rom_extension(b"g", Console::Gb));
    assert!(!is_rom_extension(b"GB", Console::Gb));
    assert!(is_zip_extension(b"zip"));
    assert!(!is_zip_extension(b"zipx"));
}

#[test]
fn subcommand_consoles() {
    assert_eq!(console_of(Subcommand::GbWriteRom), Console::Gb);
    assert_eq!(console_of(Subcommand::GbWriteRam), Console::Gb);
    assert_eq!(console_of(Subcommand::GbaWriteRom), Console::Gba);
    assert_eq!(console_of(Subcommand::GbaReadRom), Console::Gba);
    assert_eq!(console_of(Subcommand::DebugGbaTest), Console::Gba);
    assert_eq!(console_of(Subcommand::DebugPing), Console::Gb);
}
