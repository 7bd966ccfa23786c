use gb_rw_host::gb_flash::{
    check_controller, gb_flash_start, gb_flash_step, EraseMode, GbFlash, GbFlashAction, GbFlashError, GbFlashEvent,
    GbFlashStage,
};
use gb_rw_host::gba_flash::{
    gba_flash_start, gba_flash_step, GbaFlash, GbaFlashAction, GbaFlashError, GbaFlashEvent,
    GbaFlashStage,
};
use gb_rw_host::header::{info_from_rom, LoadInfoError, MemController};

/// An image of `banks` 16 KiB banks whose header names cartridge type `cart`
/// and ROM size code `rom_code`.
fn gb_image(cart: u8, rom_code: u8, banks: usize) -> Vec<u8> {
    let mut b = vec![0u8; 0x4000 * banks];
    b[0x147] = cart;
    b[0x148] = rom_code;
    let mut x: u8 = 0;
    for a in 0x134..=0x14c {
        x = x.wrapping_sub(b[a]).wrapping_sub(1);
    }
    b[0x14d] = x;
    b
}

fn expect_write(a: &GbFlashAction) -> (u16, usize, usize) {
    match a {
        GbFlashAction::Write { addr, start, end } => (*addr, *start, *end),
        other => panic!("expected a write, got {:?}", other),
    }
}

#[test]
fn gb_flash_two_banks_with_retry() {
    let rom = gb_image(0x19, 0, 2);
    let (s, a) = gb_flash_start(&rom, EraseMode::Skip).unwrap();
    assert_eq!(expect_write(&a), (0, 0, 0x4000));
    let (s, a) = gb_flash_step(s, GbFlashEvent::Written(None));
    match a {
        GbFlashAction::SwitchBank { writes } => assert_eq!(writes, vec![(0x2000, 1), (0x3000, 0)]),
        other => panic!("expected a bank switch, got {:?}", other),
    }
    let (s, a) = gb_flash_step(s, GbFlashEvent::Done);
    assert_eq!(expect_write(&a), (0x4000, 0x4000, 0x8000));
    let (s, a) = gb_flash_step(s, GbFlashEvent::Written(Some((0x4010, 0x00))));
    assert_eq!(expect_write(&a), (0x4011, 0x4011, 0x8000));
    assert_eq!(s.offset, 0x11);
    let (s, a) = gb_flash_step(s, GbFlashEvent::Written(Some((0x7fff, 0x00))));
    assert!(matches!(a, GbFlashAction::Finished));
    assert_eq!(s.stage, GbFlashStage::Done);
}

#[test]
fn gb_flash_full_erase_first() {
    let rom = gb_image(0x19, 0, 2);
    let (s, a) = gb_flash_start(&rom, EraseMode::Full).unwrap();
    assert!(matches!(a, GbFlashAction::EraseChip));
    let (_, a) = gb_flash_step(s, GbFlashEvent::Done);
    assert_eq!(expect_write(&a), (0, 0, 0x4000));
}

#[test]
fn gb_flash_sector_erase() {
    let rom = gb_image(0x19, 2, 8);
    let (s, a) = gb_flash_start(&rom, EraseMode::Sector).unwrap();
    match a {
        GbFlashAction::EraseSectors { sectors } => assert_eq!(sectors, vec![(0, 0), (0x2000, 0x2000)]),
        other => panic!("expected sector erases, got {:?}", other),
    }
    // Walk to bank 4, at image offset 0x10000, where the 64 KiB sectors start.
    let mut s = s;
    let (t, _) = gb_flash_step(s, GbFlashEvent::Done);
    s = t;
    for bank in 1..4u16 {
        let (t, _) = gb_flash_step(s, GbFlashEvent::Written(None)); // switch bank
        let (t, a) = gb_flash_step(t, GbFlashEvent::Done);
        assert_eq!(t.bank, bank);
        assert!(matches!(a, GbFlashAction::EraseSectors { .. }));
        let (t, _) = gb_flash_step(t, GbFlashEvent::Done);
        s = t;
    }
    let (t, _) = gb_flash_step(s, GbFlashEvent::Written(None));
    let (t, a) = gb_flash_step(t, GbFlashEvent::Done);
    assert_eq!(t.bank, 4);
    match a {
        GbFlashAction::EraseSectors { sectors } => assert_eq!(sectors, vec![(0x4000, 0x10000)]),
        other => panic!("expected sector erases, got {:?}", other),
    }
    // Bank 5 lies inside the 64 KiB sector that bank 4 erased.
    let (t, _) = gb_flash_step(t, GbFlashEvent::Done);
    let (t, _) = gb_flash_step(t, GbFlashEvent::Written(None));
    let (t, a) = gb_flash_step(t, GbFlashEvent::Done);
    assert_eq!(t.bank, 5);
    assert_eq!(expect_write(&a), (0x4000, 0x14000, 0x18000));
}

#[test]
fn gb_flash_refusals() {
    let rom = gb_image(0x01, 5, 64);
    assert_eq!(gb_flash_start(&rom, EraseMode::Skip).unwrap_err(), GbFlashError::Mbc1TooManyBanks { banks: 64 });
    let rom = gb_image(0x01, 4, 32);
    assert!(gb_flash_start(&rom, EraseMode::Skip).is_ok());
    let rom = gb_image(0x13, 0, 2);
    assert_eq!(
        gb_flash_start(&rom, EraseMode::Skip).unwrap_err(),
        GbFlashError::NotMbc5Compatible(MemController::Mbc3)
    );
    let mut rom = gb_image(0x19, 0, 2);
    rom[0x14d] ^= 0xff;
    assert!(matches!(
        gb_flash_start(&rom, EraseMode::Skip).unwrap_err(),
        GbFlashError::Header(LoadInfoError::ChecksumMismatch { .. })
    ));
}

#[test]
fn gb_flash_refuses_short_images_of_refused_controllers() {
    // The header names 64 banks; the image holds two, and the controller is refused first.
    let rom = gb_image(0x01, 5, 2);
    assert_eq!(gb_flash_start(&rom, EraseMode::Full).unwrap_err(), GbFlashError::Mbc1TooManyBanks { banks: 64 });
    let rom = gb_image(0x13, 5, 2);
    assert_eq!(
        gb_flash_start(&rom, EraseMode::Full).unwrap_err(),
        GbFlashError::NotMbc5Compatible(MemController::Mbc3)
    );
    let (_, info) = info_from_rom(&rom).unwrap();
    assert_eq!(check_controller(info).unwrap_err(), GbFlashError::NotMbc5Compatible(MemController::Mbc3));
}

#[test]
fn gb_flash_state_is_plain_data() {
    let s = GbFlash { rom_banks: 2, erase: EraseMode::Skip, bank: 1, offset: 0, stage: GbFlashStage::Write };
    let (t, a) = gb_flash_step(s, GbFlashEvent::Written(None));
    assert!(matches!(a, GbFlashAction::Finished));
    assert_eq!(t.bank, 2);
}

const SECTOR: usize = 0x8000;

#[test]
fn gba_flash_writes_checks_and_skips_blank() {
    let mut rom = vec![0xffu8; 2 * SECTOR];
    rom[0] = 0x12;
    let (s, a) = gba_flash_start(&rom, None).unwrap();
    assert_eq!(a, GbaFlashAction::Unlock { sector: 0 });
    let (s, a) = gba_flash_step(&rom, None, s, GbaFlashEvent::Unlocked(true));
    assert_eq!(a, GbaFlashAction::Erase { sector: 0 });
    let (s, a) = gba_flash_step(&rom, None, s, GbaFlashEvent::Erased(true));
    assert_eq!(a, GbaFlashAction::Write { sector: 0, start: 0, end: SECTOR });
    let (s, a) = gba_flash_step(&rom, None, s, GbaFlashEvent::Written(None));
    assert_eq!(a, GbaFlashAction::ReadBack { sector: 0, len: 0x8000 });
    // A wrong read back starts a second attempt.
    let (s, a) = gba_flash_step(&rom, None, s, GbaFlashEvent::ReadBack(vec![0u8; SECTOR]));
    assert_eq!(a, GbaFlashAction::Erase { sector: 0 });
    assert_eq!(s.attempt, 1);
    let (s, _) = gba_flash_step(&rom, None, s, GbaFlashEvent::Erased(true));
    let (s, _) = gba_flash_step(&rom, None, s, GbaFlashEvent::Written(None));
    let (s, a) = gba_flash_step(&rom, None, s, GbaFlashEvent::ReadBack(rom[..SECTOR].to_vec()));
    assert_eq!(a, GbaFlashAction::Unlock { sector: 0x8000 });
    assert_eq!((s.sector_index, s.attempt), (1, 0));
    let (s, a) = gba_flash_step(&rom, None, s, GbaFlashEvent::Unlocked(true));
    assert_eq!(a, GbaFlashAction::Erase { sector: 0x8000 });
    let (s, a) = gba_flash_step(&rom, None, s, GbaFlashEvent::Erased(true));
    assert_eq!(a, GbaFlashAction::Finished);
    assert_eq!(s.stage, GbaFlashStage::Done);
}

#[test]
fn gba_flash_gives_up_after_four_attempts() {
    let rom = vec![0u8; SECTOR];
    let (mut s, _) = gba_flash_start(&rom, None).unwrap();
    let (t, _) = gba_flash_step(&rom, None, s, GbaFlashEvent::Unlocked(true));
    s = t;
    for attempt in 0..4 {
        assert_eq!(s.attempt, attempt);
        let (t, _) = gba_flash_step(&rom, None, s, GbaFlashEvent::Erased(true));
        let (t, _) = gba_flash_step(&rom, None, t, GbaFlashEvent::Written(None));
        let (t, a) = gba_flash_step(&rom, None, t, GbaFlashEvent::ReadBack(vec![1u8; SECTOR]));
        if attempt == 3 {
            assert_eq!(a, GbaFlashAction::Failed(GbaFlashError::VerifyFailed { sector: 0 }));
        } else {
            assert_eq!(a, GbaFlashAction::Erase { sector: 0 });
        }
        s = t;
    }
}

#[test]
fn gba_flash_no_erase_between_fourth_sectors() {
    let rom = vec![0u8; 6 * SECTOR];
    let s = GbaFlash { sector_index: 5, attempt: 0, stage: GbaFlashStage::Unlock };
    let (_, a) = gba_flash_step(&rom, None, s, GbaFlashEvent::Unlocked(true));
    assert_eq!(a, GbaFlashAction::Write { sector: 5 * 0x8000, start: 5 * SECTOR, end: 6 * SECTOR });
    let s = GbaFlash { sector_index: 4, attempt: 0, stage: GbaFlashStage::Unlock };
    let (_, a) = gba_flash_step(&rom, None, s, GbaFlashEvent::Unlocked(true));
    assert_eq!(a, GbaFlashAction::Erase { sector: 4 * 0x8000 });
}

#[test]
fn gba_flash_skips_unchanged_window() {
    let rom = vec![3u8; 2 * SECTOR];
    let diff = rom.clone();
    let (s, _) = gba_flash_start(&rom, Some(&diff)).unwrap();
    let (s, a) = gba_flash_step(&rom, Some(&diff), s, GbaFlashEvent::Unlocked(true));
    assert_eq!(a, GbaFlashAction::Unlock { sector: 0x8000 });
    let (_, a) = gba_flash_step(&rom, Some(&diff), s, GbaFlashEvent::Unlocked(true));
    assert_eq!(a, GbaFlashAction::Finished);
    let mut other = diff.clone();
    other[SECTOR + 5] = 0;
    let (s, _) = gba_flash_start(&rom, Some(&other)).unwrap();
    let (_, a) = gba_flash_step(&rom, Some(&other), s, GbaFlashEvent::Unlocked(true));
    // The window of sector 0 spans both sectors, so the change shows there.
    assert_eq!(a, GbaFlashAction::Erase { sector: 0 });
}

#[test]
fn gba_flash_errors() {
    assert_eq!(
        gba_flash_start(&[0u8; 100], None).unwrap_err(),
        GbaFlashError::RomNotSectorAligned { len: 100 }
    );
    let rom = vec![0u8; SECTOR];
    assert_eq!(
        gba_flash_start(&rom, Some(&[0u8; 10])).unwrap_err(),
        GbaFlashError::DiffLengthMismatch { diff_len: 10, rom_len: SECTOR }
    );
    let (s, _) = gba_flash_start(&rom, None).unwrap();
    let (_, a) = gba_flash_step(&rom, None, s, GbaFlashEvent::Unlocked(false));
    assert_eq!(a, GbaFlashAction::Failed(GbaFlashError::UnlockFailed { sector: 0 }));
    let (t, _) = gba_flash_step(&rom, None, s, GbaFlashEvent::Unlocked(true));
    let (_, a) = gba_flash_step(&rom, None, t, GbaFlashEvent::Erased(false));
    assert_eq!(a, GbaFlashAction::Failed(GbaFlashError::EraseFailed { sector: 0 }));
    let (t, _) = gba_flash_step(&rom, None, t, GbaFlashEvent::Erased(true));
    let (_, a) = gba_flash_step(&rom, None, t, GbaFlashEvent::Written(Some(0x1234)));
    assert_eq!(a, GbaFlashAction::Failed(GbaFlashError::WriteFailed { addr: 0x1234 }));
}

#[test]
fn gba_flash_empty_image() {
    let (s, a) = gba_flash_start(&[], None).unwrap();
    assert_eq!(a, GbaFlashAction::Finished);
    assert_eq!(s.stage, GbaFlashStage::Done);
}

#[test]
fn gba_flash_diff_uses_erase_blocks() {
    let diff: Vec<u8> = (0..8 * SECTOR).map(|k| (k / SECTOR) as u8 + 1).collect();
    let mut rom = diff.clone();
    rom[4 * SECTOR + 7] = 0;
    // Sector 1 lies in the unchanged block of sectors 0..4: skipped.
    let s = GbaFlash { sector_index: 1, attempt: 0, stage: GbaFlashStage::Unlock };
    let (t, a) = gba_flash_step(&rom, Some(&diff), s, GbaFlashEvent::Unlocked(true));
    assert_eq!(a, GbaFlashAction::Unlock { sector: 2 * 0x8000 });
    assert_eq!(t.sector_index, 2);
    // Sector 5 shares its block with the changed sector 4, whose erase clears
    // it, so it is written again even though its own bytes did not change.
    let s = GbaFlash { sector_index: 5, attempt: 0, stage: GbaFlashStage::Unlock };
    let (_, a) = gba_flash_step(&rom, Some(&diff), s, GbaFlashEvent::Unlocked(true));
    assert_eq!(a, GbaFlashAction::Write { sector: 5 * 0x8000, start: 5 * SECTOR, end: 6 * SECTOR });
    let s = GbaFlash { sector_index: 4, attempt: 0, stage: GbaFlashStage::Unlock };
    let (_, a) = gba_flash_step(&rom, Some(&diff), s, GbaFlashEvent::Unlocked(true));
    assert_eq!(a, GbaFlashAction::Erase { sector: 4 * 0x8000 });
}
