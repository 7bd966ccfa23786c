use gb_rw_host::gb_bank::{
    bank_switch_writes, gb_chip_erase_writes, gb_erase_status, gb_read_plan, gb_sector_erase_writes,
    gb_write_ram_plan, BankSwitchError, EraseStatus, GbOp, Memory, RamWriteError,
};
use gb_rw_host::header::{
    global_checksum, header_checksum, info_from_rom, load_info, parse_header, rom_bank0,
    HeaderError, HeaderInfo, LoadInfoError, MemController,
};

/// A first bank whose header names cartridge type `cart`, ROM size code `rom`
/// and RAM size code `ram`, with a correct header checksum.
fn bank0(cart: u8, rom: u8, ram: u8) -> Vec<u8> {
    let mut b = vec![0u8; 0x4000];
    b[0x147] = cart;
    b[0x148] = rom;
    b[0x149] = ram;
    let mut x: u8 = 0;
    for a in 0x134..=0x14c {
        x = x.wrapping_sub(b[a]).wrapping_sub(1);
    }
    b[0x14d] = x;
    b
}

fn info(mc: MemController, rom_banks: u16, ram_size: usize, ram_banks: u16) -> HeaderInfo {
    HeaderInfo { mem_controller: mc, rom_banks, ram_size, ram_banks, checksum: 0, global_checksum: 0 }
}

#[test]
fn header_checksum_value() {
    let b = bank0(0x19, 0x02, 0x03);
    // 0x19 + 0x02 + 0x03 = 30, and one more for each of the 25 bytes.
    assert_eq!(header_checksum(&b), (256 - 55) as u8);
    assert_eq!(b[0x14d], 0xc9);
}

#[test]
fn parse_header_fields() {
    let mut b = bank0(0x1b, 0x02, 0x03);
    b[0x14e] = 0x12;
    b[0x14f] = 0x34;
    let info = parse_header(&b).unwrap();
    assert_eq!(info.mem_controller, MemController::Mbc5);
    assert_eq!(info.rom_banks, 8);
    assert_eq!(info.ram_size, 0x8000);
    assert_eq!(info.ram_banks, 4);
    assert_eq!(info.checksum, 0xc9 - 0x02);
    assert_eq!(info.global_checksum, 0x1234);
}

#[test]
fn parse_header_sizes() {
    assert_eq!(parse_header(&bank0(0x00, 0, 0)).unwrap().rom_banks, 2);
    assert_eq!(parse_header(&bank0(0x00, 0, 0)).unwrap().mem_controller, MemController::RomOnly);
    assert_eq!(parse_header(&bank0(0x01, 5, 0)).unwrap().rom_banks, 64);
    assert_eq!(parse_header(&bank0(0x01, 8, 0)).unwrap().rom_banks, 512);
    let i = parse_header(&bank0(0x03, 0, 1)).unwrap();
    assert_eq!((i.mem_controller, i.ram_size, i.ram_banks), (MemController::Mbc1, 0x800, 1));
    let i = parse_header(&bank0(0x13, 0, 4)).unwrap();
    assert_eq!((i.mem_controller, i.ram_size, i.ram_banks), (MemController::Mbc3, 0x20000, 16));
    let i = parse_header(&bank0(0x19, 0, 5)).unwrap();
    assert_eq!((i.ram_size, i.ram_banks), (0x10000, 8));
}

#[test]
fn parse_header_errors() {
    assert_eq!(parse_header(&[0u8; 0x14f]), Err(HeaderError::TooShort { len: 0x14f }));
    assert_eq!(parse_header(&bank0(0x04, 0, 0)), Err(HeaderError::UnknownCartridgeType(0x04)));
    assert_eq!(parse_header(&bank0(0x19, 9, 0)), Err(HeaderError::UnknownRomSize(9)));
    assert_eq!(parse_header(&bank0(0x19, 0, 6)), Err(HeaderError::UnknownRamSize(6)));
}

#[test]
fn load_info_checks_checksum() {
    let b = bank0(0x19, 0x01, 0x00);
    assert_eq!(load_info(&b).unwrap().rom_banks, 4);
    let mut bad = b.clone();
    bad[0x14d] ^= 0x01;
    assert_eq!(
        load_info(&bad),
        Err(LoadInfoError::ChecksumMismatch { stored: b[0x14d] ^ 0x01, computed: b[0x14d] })
    );
    assert_eq!(
        load_info(&[0u8; 4]),
        Err(LoadInfoError::Parse(HeaderError::TooShort { len: 4 }))
    );
}

#[test]
fn global_checksum_skips_its_bytes() {
    let mut rom = vec![1u8; 0x200];
    assert_eq!(global_checksum(&rom), 0x1fe);
    rom[0x14e] = 0xaa;
    rom[0x14f] = 0x55;
    assert_eq!(global_checksum(&rom), 0x1fe);
    let big = vec![0xffu8; 0x10000];
    // 65534 bytes of 0xff, modulo 0x10000
    assert_eq!(global_checksum(&big), ((0xffu64 * 65534) % 0x10000) as u16);
}

#[test]
fn first_bank_of_image() {
    let rom = vec![7u8; 0x9000];
    assert_eq!(rom_bank0(&rom).len(), 0x4000);
    assert_eq!(rom_bank0(&rom[..0x100]).len(), 0x100);
    let mut img = bank0(0x19, 0x00, 0x00);
    img.extend_from_slice(&[0u8; 0x4000]);
    let (b0, info) = info_from_rom(&img).unwrap();
    assert_eq!(b0.len(), 0x4000);
    assert_eq!(info.rom_banks, 2);
}

#[test]
fn bank_switch_mbc5() {
    assert_eq!(
        bank_switch_writes(MemController::Mbc5, Memory::Rom, 0x1a3),
        Ok(vec![(0x2000, 0xa3), (0x3000, 0x01)])
    );
    assert_eq!(bank_switch_writes(MemController::Mbc5, Memory::Ram, 3), Ok(vec![(0x4000, 0x03)]));
    assert_eq!(bank_switch_writes(MemController::Mbc5, Memory::Ram, 0x13), Ok(vec![(0x4000, 0x03)]));
}

#[test]
fn bank_switch_mbc1() {
    assert_eq!(
        bank_switch_writes(MemController::Mbc1, Memory::Rom, 0x45),
        Ok(vec![(0x6000, 0x00), (0x2000, 0x05), (0x4000, 0x02)])
    );
    assert_eq!(
        bank_switch_writes(MemController::Mbc1, Memory::Ram, 2),
        Ok(vec![(0x6000, 0x01), (0x4000, 0x02)])
    );
}

#[test]
fn bank_switch_errors() {
    assert_eq!(bank_switch_writes(MemController::RomOnly, Memory::Rom, 1), Ok(vec![]));
    assert_eq!(
        bank_switch_writes(MemController::RomOnly, Memory::Rom, 2),
        Err(BankSwitchError::RomOnlyBankSelect)
    );
    assert_eq!(
        bank_switch_writes(MemController::Mbc3, Memory::Rom, 2),
        Err(BankSwitchError::Unsupported(MemController::Mbc3))
    );
}

#[test]
fn erase_sequences() {
    assert_eq!(
        gb_chip_erase_writes(),
        vec![
            (0x2000, 0x01),
            (0x3000, 0x00),
            (0x0aaa, 0xa9),
            (0x0555, 0x56),
            (0x0aaa, 0x80),
            (0x0aaa, 0xa9),
            (0x0555, 0x56),
            (0x0aaa, 0x10)
        ]
    );
    assert_eq!(gb_sector_erase_writes(0x4000)[5], (0x4000, 0x30));
    assert_eq!(gb_sector_erase_writes(0x4000).len(), 6);
}

#[test]
fn erase_status_values() {
    assert_eq!(gb_erase_status(0xff), EraseStatus::Done);
    assert_eq!(gb_erase_status(0x4c), EraseStatus::Busy);
    assert_eq!(gb_erase_status(0x08), EraseStatus::Busy);
    assert_eq!(gb_erase_status(0x00), EraseStatus::Fault(0x00));
}

#[test]
fn read_plan_rom() {
    let (ops, err) = gb_read_plan(&info(MemController::Mbc5, 4, 0, 0), Memory::Rom);
    assert_eq!(err, None);
    let mut expected = vec![];
    for b in 1..4u8 {
        expected.push(GbOp::Write { addr: 0x2000, data: b });
        expected.push(GbOp::Write { addr: 0x3000, data: 0 });
        expected.push(GbOp::Read { addr: 0x4000, len: 0x4000 });
    }
    assert_eq!(ops, expected);
}

#[test]
fn read_plan_rom_only_stops() {
    let (ops, err) = gb_read_plan(&info(MemController::RomOnly, 4, 0, 0), Memory::Rom);
    assert_eq!(ops, vec![GbOp::Read { addr: 0x4000, len: 0x4000 }]);
    assert_eq!(err, Some(BankSwitchError::RomOnlyBankSelect));
    let (ops, err) = gb_read_plan(&info(MemController::RomOnly, 2, 0, 0), Memory::Rom);
    assert_eq!((ops.len(), err), (1, None));
}

#[test]
fn read_plan_ram() {
    let (ops, err) = gb_read_plan(&info(MemController::Mbc5, 4, 0x8000, 4), Memory::Ram);
    assert_eq!(err, None);
    let mut expected = vec![GbOp::Write { addr: 0, data: 0x0a }];
    for b in 0..4u8 {
        expected.push(GbOp::Write { addr: 0x4000, data: b });
        expected.push(GbOp::Read { addr: 0xa000, len: 0x2000 });
    }
    expected.push(GbOp::Write { addr: 0, data: 0 });
    assert_eq!(ops, expected);
}

#[test]
fn read_plan_small_ram() {
    let (ops, _) = gb_read_plan(&info(MemController::Mbc1, 2, 0x800, 1), Memory::Ram);
    assert_eq!(ops[3], GbOp::Read { addr: 0xa000, len: 0x800 });
    // Large RAM is read a whole bank at a time.
    let (ops, _) = gb_read_plan(&info(MemController::Mbc5, 2, 0x10000, 8), Memory::Ram);
    assert_eq!(ops[2], GbOp::Read { addr: 0xa000, len: 0x2000 });
    let (ops, _) = gb_read_plan(&info(MemController::Mbc5, 2, 0x20000, 16), Memory::Ram);
    assert_eq!(ops.len(), 1 + 16 * 2 + 1);
    assert_eq!(ops[32], GbOp::Read { addr: 0xa000, len: 0x2000 });
}

#[test]
fn read_plan_ram_unsupported() {
    let (ops, err) = gb_read_plan(&info(MemController::Mbc3, 2, 0x2000, 1), Memory::Ram);
    assert_eq!(ops, vec![GbOp::Write { addr: 0, data: 0x0a }]);
    assert_eq!(err, Some(BankSwitchError::Unsupported(MemController::Mbc3)));
}

#[test]
fn write_ram_plan() {
    let i = info(MemController::Mbc1, 2, 0x8000, 4);
    assert_eq!(
        gb_write_ram_plan(&i, 0x7fff),
        Err(RamWriteError::SizeMismatch { ram_size: 0x8000, save_len: 0x7fff })
    );
    let (ops, err) = gb_write_ram_plan(&i, 0x8000).unwrap();
    assert_eq!(err, None);
    assert_eq!(ops.len(), 1 + 4 * 3 + 1);
    assert_eq!(ops[3], GbOp::WriteBlock { addr: 0xa000, start: 0, end: 0x2000 });
    assert_eq!(ops[12], GbOp::WriteBlock { addr: 0xa000, start: 0x6000, end: 0x8000 });
    assert_eq!(ops[13], GbOp::Write { addr: 0, data: 0 });
}

#[test]
fn header_checksum_covers_only_its_range() {
    let b = bank0(0x19, 0x02, 0x03);
    let mut c = b.clone();
    c[0x100] = 0x55;
    c[0x133] = 0x66;
    c[0x14d] = 0x77;
    assert_eq!(header_checksum(&b), header_checksum(&c));
    c[0x134] = 0x01;
    assert_ne!(header_checksum(&b), header_checksum(&c));
}

#[test]
fn bank_registers_spell_the_bank() {
    for bank in 0..600u16 {
        let w = bank_switch_writes(MemController::Mbc5, Memory::Rom, bank).unwrap();
        assert_eq!(w[0].1 as u16 + 256 * w[1].1 as u16, bank % 512);
        let w = bank_switch_writes(MemController::Mbc1, Memory::Rom, bank).unwrap();
        assert_eq!(w[1].1 as u16 + 32 * w[2].1 as u16, bank % 128);
        let w = bank_switch_writes(MemController::Mbc1, Memory::Ram, bank).unwrap();
        assert_eq!(w[1].1 as u16, bank % 4);
        let w = bank_switch_writes(MemController::Mbc5, Memory::Ram, bank).unwrap();
        assert_eq!(w[0].1 as u16, bank % 16);
    }
}

#[test]
fn rom_read_plan_covers_rom() {
    let (ops, err) = gb_read_plan(&info(MemController::Mbc1, 32, 0, 0), Memory::Rom);
    assert_eq!(err, None);
    let read: usize = ops
        .iter()
        .map(|op| match op {
            GbOp::Read { len, .. } => *len as usize,
            _ => 0,
        })
        .sum();
    assert_eq!(read + 0x4000, 32 * 0x4000);
}

#[test]
fn ram_write_blocks_stay_in_save() {
    let i = info(MemController::Mbc5, 2, 0x20000, 16);
    let (ops, _) = gb_write_ram_plan(&i, 0x20000).unwrap();
    for op in ops {
        if let GbOp::WriteBlock { start, end, .. } = op {
            assert!(start <= end && end <= 0x20000);
        }
    }
}

/// Runs bus requests against cartridge RAM whose bank register is written at
/// `0x4000`, returning the bytes the reads give back.
fn run_ram_cart(ram: &mut Vec<u8>, bank: &mut usize, ops: &[GbOp], src: &[u8]) -> Vec<u8> {
    let mut out = Vec::new();
    for op in ops {
        match *op {
            GbOp::Write { addr, data } => {
                if addr == 0x4000 {
                    *bank = data as usize;
                }
            }
            GbOp::WriteBlock { start, end, .. } => {
                if start < end {
                    let at = *bank * 0x2000;
                    ram[at..at + (end - start)].copy_from_slice(&src[start..end]);
                }
            }
            GbOp::Read { len, .. } => {
                if len > 0 {
                    let at = *bank * 0x2000;
                    out.extend_from_slice(&ram[at..at + len as usize]);
                }
            }
        }
    }
    out
}

#[test]
fn ram_save_reads_back() {
    for (mc, size, banks) in [
        (MemController::Mbc5, 0x20000usize, 16u16),
        (MemController::Mbc1, 0x8000, 4),
        (MemController::Mbc1, 0x800, 1),
        (MemController::Mbc5, 0, 4),
    ] {
        let i = info(mc, 2, size, banks);
        let save: Vec<u8> = (0..size).map(|k| (k * 7 + k / 0x2000) as u8).collect();
        let mut ram = vec![0xffu8; size];
        let mut bank = 0usize;
        let (w, werr) = gb_write_ram_plan(&i, size).unwrap();
        assert_eq!(werr, None);
        run_ram_cart(&mut ram, &mut bank, &w, &save);
        assert_eq!(ram, save);
        let (r, rerr) = gb_read_plan(&i, Memory::Ram);
        assert_eq!(rerr, None);
        let back = run_ram_cart(&mut ram, &mut bank, &r, &[]);
        assert_eq!(back, save);
    }
}
