use std::io::{Cursor, Write};

use gb_rw_host::session::Console;
use gb_rw_host::zip_rom::{rom_entry, rom_from_zip, ZipRomError};
use zip::write::FileOptions;
use zip::{CompressionMethod, ZipWriter};

fn archive(entries: &[(&str, &[u8])], method: CompressionMethod) -> Vec<u8> {
    let mut w = ZipWriter::new(Cursor::new(Vec::new()));
    for (name, data) in entries {
        w.start_file(*name, FileOptions::default().compression_method(method)).unwrap();
        w.write_all(data).unwrap();
    }
    w.finish().unwrap().into_inner()
}

#[test]
fn zip_first_rom_entry() {
    let a = archive(
        &[("readme.txt", b"hello"), ("game.gbc", &[1, 2, 3]), ("other.gb", &[9])],
        CompressionMethod::Stored,
    );
    assert_eq!(rom_from_zip(&a, Console::Gb), Ok(vec![1, 2, 3]));
}

#[test]
fn zip_rom_in_directory_deflated() {
    let rom = vec![0x42u8; 5000];
    let a = archive(&[("dir/Tetris.gb", &rom)], CompressionMethod::Deflated);
    assert_eq!(rom_from_zip(&a, Console::Gb), Ok(rom));
}

#[test]
fn zip_without_rom() {
    let a = archive(&[("a.gba", &[1]), ("gb", &[2]), ("b.GB", &[3])], CompressionMethod::Stored);
    assert_eq!(rom_from_zip(&a, Console::Gb), Err(ZipRomError::NoRom));
}

#[test]
fn zip_empty_rom_entry() {
    let a = archive(&[("empty.gb", &[]), ("full.gb", &[1])], CompressionMethod::Stored);
    assert_eq!(rom_from_zip(&a, Console::Gb), Err(ZipRomError::NoRom));
}

#[test]
fn zip_not_an_archive() {
    assert_eq!(rom_from_zip(b"not a zip file at all", Console::Gb), Err(ZipRomError::Archive));
    assert_eq!(rom_from_zip(&[], Console::Gba), Err(ZipRomError::Archive));
}

#[test]
fn zip_gba_rom_entry() {
    let a = archive(
        &[("game.gb", &[1]), ("game.gba", &[4, 5, 6]), ("other.gba", &[7])],
        CompressionMethod::Deflated,
    );
    assert_eq!(rom_from_zip(&a, Console::Gba), Ok(vec![4, 5, 6]));
    assert_eq!(rom_from_zip(&a, Console::Gb), Ok(vec![1]));
    let only_gb = archive(&[("game.gbc", &[1])], CompressionMethod::Stored);
    assert_eq!(rom_from_zip(&only_gb, Console::Gba), Err(ZipRomError::NoRom));
}

#[test]
fn zip_with_data_in_front() {
    let mut a = vec![0xaau8; 100];
    a.extend(archive(&[("x.gb", &[3, 1, 4])], CompressionMethod::Stored));
    assert_eq!(rom_from_zip(&a, Console::Gb), Ok(vec![3, 1, 4]));
}

#[test]
fn rom_entry_choice() {
    let gb = Some(Some(b"gb".to_vec()));
    let gba = Some(Some(b"gba".to_vec()));
    let txt = Some(Some(b"txt".to_vec()));
    let bare = Some(None);
    assert_eq!(rom_entry(&vec![txt.clone(), bare.clone(), gb.clone()], Console::Gb), Ok(2));
    assert_eq!(rom_entry(&vec![gb.clone(), gba.clone()], Console::Gba), Ok(1));
    assert_eq!(rom_entry(&vec![txt.clone(), None, gb.clone()], Console::Gb), Err(ZipRomError::Entry { index: 1 }));
    assert_eq!(rom_entry(&vec![gb.clone(), None], Console::Gb), Ok(0));
    assert_eq!(rom_entry(&vec![txt, bare], Console::Gb), Err(ZipRomError::NoRom));
    assert_eq!(rom_entry(&vec![], Console::Gba), Err(ZipRomError::NoRom));
}
