//! Writing a ROM image to a Game Boy flash cartridge, bank by bank.
//!
//! `gb_flash_start` reads and checks the image's header and names the first
//! request; `gb_flash_step` takes the device's answer to the last request and
//! names the next one, until the machine reports `Finished`.
use vstd::prelude::*;

use crate::gb_bank::{bank_switch_spec, bank_switch_writes, Memory};
use crate::header::{
    load_info, load_info_spec, HeaderInfo, LoadInfoError, MemController, ROM_BANK_SIZE,
};

verus! {

/// How the flash chip is erased before the image is written.
#[derive(Debug, Clone, Copy, PartialEq, Eq, Structural)]
pub enum EraseMode {
    /// Do not erase.
    Skip,
    /// Erase each sector just before the bank that holds it is written.
    Sector,
    /// Erase the whole chip first.
    Full,
}

/// Why an image cannot be written to a Game Boy flash cartridge.
#[derive(Debug, Clone, Copy, PartialEq, Eq)]
pub enum GbFlashError {
    /// The image's first bank holds no valid header.
    Header(LoadInfoError),
    /// An MBC1 image can be written like an MBC5 one only up to `0x20` banks.
    Mbc1TooManyBanks { banks: u16 },
    /// The image needs a controller that MBC5 bank switching cannot stand in for.
    NotMbc5Compatible(MemController),
}

/// The request the machine waits on an answer for.
#[derive(Debug, Clone, Copy, PartialEq, Eq)]
pub enum GbFlashStage {
    ChipErase,
    Switch,
    EraseSectors,
    Write,
    Done,
}

/// Progress through the image: the bank being written, how many of its bytes
/// are written, and the pending request. `rom_banks` and `erase` are fixed
/// when the machine starts.
#[derive(Debug, Clone, Copy, PartialEq, Eq)]
pub struct GbFlash {
    pub rom_banks: u16,
    pub erase: EraseMode,
    pub bank: u16,
    pub offset: u16,
    pub stage: GbFlashStage,
}

/// What the caller does next with the device.
#[derive(Debug)]
pub enum GbFlashAction {
    /// Erase the whole chip (select bank 1, send the chip erase command, wait for it).
    EraseChip,
    /// Perform these register writes, which select the next bank.
    SwitchBank { writes: Vec<(u16, u8)> },
    /// Erase the flash sector at each `(cartridge address, image offset)`;
    /// a failure is only reported, not acted on.
    EraseSectors { sectors: Vec<(u16, usize)> },
    /// Write `rom[start..end]` starting at cartridge address `addr`.
    Write { addr: u16, start: usize, end: usize },
    /// Every bank is written.
    Finished,
}

/// A request as the contracts speak of it.
pub enum GbFlashRequest {
    EraseChip,
    SwitchBank(Seq<(u16, u8)>),
    EraseSectors(Seq<(u16, usize)>),
    Write { addr: u16, start: usize, end: usize },
    Finished,
}

impl View for GbFlashAction {
    type V = GbFlashRequest;

    open spec fn view(&self) -> GbFlashRequest {
        match self {
            GbFlashAction::EraseChip => GbFlashRequest::EraseChip,
            GbFlashAction::SwitchBank { writes } => GbFlashRequest::SwitchBank(writes@),
            GbFlashAction::EraseSectors { sectors } => GbFlashRequest::EraseSectors(sectors@),
            GbFlashAction::Write { addr, start, end } => GbFlashRequest::Write {
                addr: *addr,
                start: *start,
                end: *end,
            },
            GbFlashAction::Finished => GbFlashRequest::Finished,
        }
    }
}

/// The device's answer to the last request.
#[derive(Debug, Clone, Copy, PartialEq, Eq)]
pub enum GbFlashEvent {
    /// The request needed no answer, and was carried out.
    Done,
    /// `None` when the write went through, else the address where a byte did
    /// not take and the byte read back there.
    Written(Option<(u16, u8)>),
}

/// Cartridge address at which bank `bank` is written: bank 0 at 0, every
/// other bank through the switchable window.
pub open spec fn gb_bank_base(bank: nat) -> nat {
    if bank == 0 {
        0
    } else {
        ROM_BANK_SIZE as nat
    }
}

/// Offset of bank `bank` in the image.
pub open spec fn gb_bank_pos(bank: nat) -> nat {
    bank * (ROM_BANK_SIZE as nat)
}

/// The flash sectors erased before bank `bank` in sector erase mode, as
/// `(cartridge address, image offset)`: the chip has 8 KiB sectors in its
/// first 64 KiB and 64 KiB sectors after them, and a 64 KiB sector is erased
/// with the bank where it starts.
pub open spec fn gb_bank_sectors(bank: nat) -> Seq<(u16, usize)> {
    let base = gb_bank_base(bank);
    let pos = gb_bank_pos(bank);
    if pos < 0x10000 {
        seq![(base as u16, pos as usize), ((base + 0x2000) as u16, (pos + 0x2000) as usize)]
    } else if pos % 0x10000 == 0 {
        seq![(base as u16, pos as usize)]
    } else {
        seq![]
    }
}

/// Whether an image whose header names `info` can be written with MBC5 bank switching.
pub open spec fn gb_flash_check(info: HeaderInfo) -> Result<HeaderInfo, GbFlashError> {
    match info.mem_controller {
        MemController::RomOnly => Ok(info),
        MemController::Mbc1 => if info.rom_banks > 0x20 {
            Err(GbFlashError::Mbc1TooManyBanks { banks: info.rom_banks })
        } else {
            Ok(info)
        },
        MemController::Mbc5 => Ok(info),
        _ => Err(GbFlashError::NotMbc5Compatible(info.mem_controller)),
    }
}

/// A state of the machine with its bank, offset and stage replaced.
pub open spec fn gb_at(s: GbFlash, bank: nat, offset: nat, stage: GbFlashStage) -> GbFlash {
    GbFlash { rom_banks: s.rom_banks, erase: s.erase, bank: bank as u16, offset: offset as u16, stage }
}

/// The write of bank `bank` from byte `offset` on.
pub open spec fn gb_write_from(s: GbFlash, bank: nat, offset: nat) -> (GbFlash, GbFlashRequest) {
    (
        gb_at(s, bank, offset, GbFlashStage::Write),
        GbFlashRequest::Write {
            addr: (gb_bank_base(bank) + offset) as u16,
            start: (gb_bank_pos(bank) + offset) as usize,
            end: (gb_bank_pos(bank) + ROM_BANK_SIZE) as usize,
        },
    )
}

/// Bank `bank` is selected: erase its sectors if the mode asks for it, then write it.
pub open spec fn gb_after_switch(s: GbFlash, bank: nat) -> (GbFlash, GbFlashRequest) {
    if s.erase == EraseMode::Sector && gb_bank_sectors(bank).len() > 0 {
        (
            gb_at(s, bank, 0, GbFlashStage::EraseSectors),
            GbFlashRequest::EraseSectors(gb_bank_sectors(bank)),
        )
    } else {
        gb_write_from(s, bank, 0)
    }
}

/// Start on bank `bank`, or finish when none is left.
pub open spec fn gb_enter_bank(s: GbFlash, bank: nat) -> (GbFlash, GbFlashRequest) {
    if bank >= s.rom_banks {
        (gb_at(s, s.rom_banks as nat, 0, GbFlashStage::Done), GbFlashRequest::Finished)
    } else if bank != 0 {
        (
            gb_at(s, bank, 0, GbFlashStage::Switch),
            GbFlashRequest::SwitchBank(
                bank_switch_spec(MemController::Mbc5, Memory::Rom, bank as u16)->Ok_0,
            ),
        )
    } else {
        gb_after_switch(s, bank)
    }
}

/// What `gb_flash_start` returns for an image and an erase mode.
pub open spec fn gb_flash_start_spec(rom: Seq<u8>, erase: EraseMode) -> Result<
    (GbFlash, GbFlashRequest),
    GbFlashError,
> {
    match load_info_spec(rom) {
        Err(e) => Err(GbFlashError::Header(e)),
        Ok(info) => match gb_flash_check(info) {
            Err(e) => Err(e),
            Ok(info) => {
                let s = GbFlash {
                    rom_banks: info.rom_banks,
                    erase,
                    bank: 0,
                    offset: 0,
                    stage: GbFlashStage::ChipErase,
                };
                if erase == EraseMode::Full {
                    Ok((s, GbFlashRequest::EraseChip))
                } else {
                    Ok(gb_enter_bank(s, 0))
                }
            },
        },
    }
}

/// What `gb_flash_step` returns for state `s` and answer `e`.
pub open spec fn gb_flash_step_spec(s: GbFlash, e: GbFlashEvent) -> (GbFlash, GbFlashRequest) {
    let bank = s.bank as nat;
    match s.stage {
        GbFlashStage::ChipErase => gb_enter_bank(s, 0),
        GbFlashStage::Switch => gb_after_switch(s, bank),
        GbFlashStage::EraseSectors => gb_write_from(s, bank, 0),
        GbFlashStage::Write => match e {
            GbFlashEvent::Written(Some((fail_addr, _))) => {
                let next = fail_addr - gb_bank_base(bank) + 1;
                if next == ROM_BANK_SIZE {
                    gb_enter_bank(s, bank + 1)
                } else {
                    gb_write_from(s, bank, next as nat)
                }
            },
            _ => gb_enter_bank(s, bank + 1),
        },
        GbFlashStage::Done => (s, GbFlashRequest::Finished),
    }
}

/// A state that `gb_flash_step` accepts for an image of `len` bytes.
pub open spec fn gb_flash_wf(s: GbFlash, len: nat) -> bool {
    &&& gb_bank_pos(s.rom_banks as nat) <= len
    &&& s.offset < ROM_BANK_SIZE
    &&& (s.stage != GbFlashStage::Done && s.stage != GbFlashStage::ChipErase ==> s.bank
        < s.rom_banks)
    &&& (s.stage != GbFlashStage::Write ==> s.offset == 0)
    &&& (s.stage == GbFlashStage::ChipErase ==> s.bank == 0)
}

/// Whether `e` answers the request that state `s` waits on; a reported
/// failing address must lie in the range just written, past its start.
pub open spec fn gb_flash_expects(s: GbFlash, e: GbFlashEvent) -> bool {
    match s.stage {
        GbFlashStage::Write => match e {
            GbFlashEvent::Written(None) => true,
            GbFlashEvent::Written(Some((fail_addr, _))) => gb_bank_base(s.bank as nat) <= fail_addr
                < gb_bank_base(s.bank as nat) + ROM_BANK_SIZE,
            GbFlashEvent::Done => false,
        },
        GbFlashStage::Done => false,
        _ => e == GbFlashEvent::Done,
    }
}

fn bank_pos(bank: u16) -> (r: usize)
    ensures
        r == gb_bank_pos(bank as nat),
        r + ROM_BANK_SIZE <= 0x4000_0000,
{
    assert(bank as nat * (ROM_BANK_SIZE as nat) + ROM_BANK_SIZE <= 0x4000_0000) by (nonlinear_arith)
        requires
            bank < 0x10000,
    ;
    bank as usize * ROM_BANK_SIZE as usize
}

fn bank_sectors(bank: u16) -> (r: Vec<(u16, usize)>)
    ensures
        r@ == gb_bank_sectors(bank as nat),
{
    let base: u16 = if bank == 0 {
        0
    } else {
        ROM_BANK_SIZE
    };
    let pos = bank_pos(bank);
    if pos < 0x10000 {
        let r = vec![(base, pos), (base + 0x2000, pos + 0x2000)];
        assert(r@ =~= gb_bank_sectors(bank as nat));
        r
    } else if pos % 0x10000 == 0 {
        let r = vec![(base, pos)];
        assert(r@ =~= gb_bank_sectors(bank as nat));
        r
    } else {
        let r: Vec<(u16, usize)> = Vec::new();
        assert(r@ =~= gb_bank_sectors(bank as nat));
        r
    }
}

fn write_from(s: GbFlash, bank: u16, offset: u16) -> (r: (GbFlash, GbFlashAction))
    requires
        bank < s.rom_banks,
        offset < ROM_BANK_SIZE,
    ensures
        (r.0, r.1@) == gb_write_from(s, bank as nat, offset as nat),
{
    let base: u16 = if bank == 0 {
        0
    } else {
        ROM_BANK_SIZE
    };
    let pos = bank_pos(bank);
    (
        GbFlash { rom_banks: s.rom_banks, erase: s.erase, bank, offset, stage: GbFlashStage::Write },
        GbFlashAction::Write {
            addr: base + offset,
            start: pos + offset as usize,
            end: pos + ROM_BANK_SIZE as usize,
        },
    )
}

fn after_switch(s: GbFlash, bank: u16) -> (r: (GbFlash, GbFlashAction))
    requires
        bank < s.rom_banks,
    ensures
        (r.0, r.1@) == gb_after_switch(s, bank as nat),
{
    let sectors = bank_sectors(bank);
    if s.erase == EraseMode::Sector && sectors.len() > 0 {
        (
            GbFlash {
                rom_banks: s.rom_banks,
                erase: s.erase,
                bank,
                offset: 0,
                stage: GbFlashStage::EraseSectors,
            },
            GbFlashAction::EraseSectors { sectors },
        )
    } else {
        write_from(s, bank, 0)
    }
}

fn enter_bank(s: GbFlash, bank: u32) -> (r: (GbFlash, GbFlashAction))
    requires
        bank <= s.rom_banks,
    ensures
        (r.0, r.1@) == gb_enter_bank(s, bank as nat),
{
    if bank >= s.rom_banks as u32 {
        (
            GbFlash {
                rom_banks: s.rom_banks,
                erase: s.erase,
                bank: s.rom_banks,
                offset: 0,
                stage: GbFlashStage::Done,
            },
            GbFlashAction::Finished,
        )
    } else if bank != 0 {
        let b = bank as u16;
        match bank_switch_writes(MemController::Mbc5, Memory::Rom, b) {
            Ok(writes) => (
                GbFlash { rom_banks: s.rom_banks, erase: s.erase, bank: b, offset: 0, stage: GbFlashStage::Switch },
                GbFlashAction::SwitchBank { writes },
            ),
            Err(_) => {
                assert(false);
                (s, GbFlashAction::Finished)
            },
        }
    } else {
        after_switch(s, 0)
    }
}

/// Refuses controllers whose banks MBC5 switching cannot select: MBC1 with
/// more than 32 ROM banks, and every controller but none, MBC1 and MBC5.
pub fn check_controller(info: HeaderInfo) -> (r: Result<HeaderInfo, GbFlashError>)
    ensures
        r == gb_flash_check(info),
{
    match info.mem_controller {
        MemController::RomOnly => Ok(info),
        MemController::Mbc1 => {
            if info.rom_banks > 0x20 {
                Err(GbFlashError::Mbc1TooManyBanks { banks: info.rom_banks })
            } else {
                Ok(info)
            }
        },
        MemController::Mbc5 => Ok(info),
        _ => Err(GbFlashError::NotMbc5Compatible(info.mem_controller)),
    }
}

/// Reads and checks the image's header, refuses controllers whose banks MBC5
/// switching cannot select, and names the first request: the chip erase in
/// full erase mode, else the start of bank 0. An image whose header and
/// controller pass must hold every bank its header names; the state returned
/// keeps every write inside the image.
pub fn gb_flash_start(rom: &[u8], erase: EraseMode) -> (r: Result<
    (GbFlash, GbFlashAction),
    GbFlashError,
>)
    requires
        gb_image_holds_banks(rom@),
    ensures
        r matches Ok((s, _)) ==> gb_flash_wf(s, rom@.len()),
        match r {
            Ok((s, a)) => gb_flash_start_spec(rom@, erase) == Ok::<
                (GbFlash, GbFlashRequest),
                GbFlashError,
            >((s, a@)),
            Err(e) => gb_flash_start_spec(rom@, erase) == Err::<
                (GbFlash, GbFlashRequest),
                GbFlashError,
            >(e),
        },
{
    let info = match load_info(rom) {
        Ok(info) => info,
        Err(e) => return Err(GbFlashError::Header(e)),
    };
    let info = match check_controller(info) {
        Ok(info) => info,
        Err(e) => return Err(e),
    };
    let s = GbFlash {
        rom_banks: info.rom_banks,
        erase,
        bank: 0,
        offset: 0,
        stage: GbFlashStage::ChipErase,
    };
    if erase == EraseMode::Full {
        Ok((s, GbFlashAction::EraseChip))
    } else {
        Ok(enter_bank(s, 0))
    }
}

/// Whether every bank the header names lies inside the image, for an image
/// whose header is read and whose controller is accepted.
pub open spec fn gb_image_holds_banks(rom: Seq<u8>) -> bool {
    match load_info_spec(rom) {
        Ok(info) => gb_flash_check(info) is Ok ==> gb_bank_pos(info.rom_banks as nat) <= rom.len(),
        Err(_) => true,
    }
}

/// Takes the device's answer `e` to the request that state `s` waits on, and
/// names the next request together with the new state.
///
/// Banks are written in order; each bank but the first is selected the MBC5
/// way, its sectors are erased in sector erase mode, and it is written from
/// its start. When the device reports that a byte did not take, the write
/// goes on from the byte after it, until the end of the bank.
pub fn gb_flash_step(s: GbFlash, e: GbFlashEvent) -> (r: (GbFlash, GbFlashAction))
    requires
        s.stage != GbFlashStage::Done && s.stage != GbFlashStage::ChipErase ==> s.bank
            < s.rom_banks,
        s.offset < ROM_BANK_SIZE,
        gb_flash_expects(s, e),
    ensures
        (r.0, r.1@) == gb_flash_step_spec(s, e),
{
    let bank = s.bank;
    match s.stage {
        GbFlashStage::ChipErase => enter_bank(s, 0),
        GbFlashStage::Switch => after_switch(s, bank),
        GbFlashStage::EraseSectors => write_from(s, bank, 0),
        GbFlashStage::Write => match e {
            GbFlashEvent::Written(Some((fail_addr, _))) => {
                let base: u16 = if bank == 0 {
                    0
                } else {
                    ROM_BANK_SIZE
                };
                let next = fail_addr - base + 1;
                if next == ROM_BANK_SIZE {
                    enter_bank(s, bank as u32 + 1)
                } else {
                    write_from(s, bank, next)
                }
            },
            _ => enter_bank(s, bank as u32 + 1),
        },
        GbFlashStage::Done => (s, GbFlashAction::Finished),
    }
}


/// Position of a state in the order in which `gb_flash_step` visits states.
pub open spec fn gb_flash_rank(s: GbFlash) -> nat {
    let stage = match s.stage {
        GbFlashStage::ChipErase => 0nat,
        GbFlashStage::Switch => 1,
        GbFlashStage::EraseSectors => 2,
        GbFlashStage::Write => 3,
        GbFlashStage::Done => 4,
    };
    if s.stage == GbFlashStage::ChipErase {
        0
    } else if s.stage == GbFlashStage::Done {
        (s.rom_banks as nat + 1) * 0x40000
    } else {
        1 + s.bank as nat * 0x40000 + s.offset as nat * 4 + stage
    }
}

/// The machine keeps its states well formed: started on an image that holds
/// every bank its header names, every later state is one `gb_flash_step` accepts.
pub proof fn lemma_gb_flash_wf(rom: Seq<u8>, erase: EraseMode, s: GbFlash, e: GbFlashEvent)
    ensures
        gb_image_holds_banks(rom) ==> (gb_flash_start_spec(rom, erase) matches Ok((s0, _))
            ==> gb_flash_wf(s0, rom.len())),
        gb_flash_wf(s, rom.len()) && gb_flash_expects(s, e) ==> gb_flash_wf(
            gb_flash_step_spec(s, e).0,
            rom.len(),
        ),
{
}

/// Every write request puts image bytes at the cartridge address that bank
/// switching maps them to: the image byte at `start + k` goes to address
/// `addr + k`, both counted from the start of the current bank, and the range
/// lies inside the bank and inside the image.
pub proof fn lemma_gb_flash_write_in_bank(rom: Seq<u8>, s: GbFlash, e: GbFlashEvent)
    requires
        gb_flash_wf(s, rom.len()),
        gb_flash_expects(s, e),
    ensures
        ({
            let (t, a) = gb_flash_step_spec(s, e);
            a matches GbFlashRequest::Write { addr, start, end } ==> {
                &&& t.bank < t.rom_banks
                &&& start == gb_bank_pos(t.bank as nat) + t.offset
                &&& addr == gb_bank_base(t.bank as nat) + t.offset
                &&& end == gb_bank_pos(t.bank as nat) + ROM_BANK_SIZE
                &&& start < end <= rom.len()
            }
        }),
{
    let (t, a) = gb_flash_step_spec(s, e);
    if a is Write {
        assert(gb_bank_pos(t.bank as nat) + ROM_BANK_SIZE <= gb_bank_pos(t.rom_banks as nat))
            by (nonlinear_arith)
            requires
                t.bank < t.rom_banks,
        ;
    }
}

/// Banks are written in order, the machine leaves a bank only once the
/// device has answered a write to it, and each bank after the first is
/// selected with the MBC5 register writes for its own number.
pub proof fn lemma_gb_flash_bank_order(s: GbFlash, e: GbFlashEvent)
    requires
        s.stage != GbFlashStage::Done && s.stage != GbFlashStage::ChipErase ==> s.bank
            < s.rom_banks,
        s.stage == GbFlashStage::ChipErase ==> s.bank == 0,
        gb_flash_expects(s, e),
    ensures
        ({
            let (t, a) = gb_flash_step_spec(s, e);
            &&& (t.stage != GbFlashStage::Done ==> (t.bank == s.bank || t.bank == s.bank + 1))
            &&& (t.bank > s.bank ==> s.stage == GbFlashStage::Write && e is Written)
            &&& (a matches GbFlashRequest::SwitchBank(w) ==> t.bank != 0 && w
                == bank_switch_spec(MemController::Mbc5, Memory::Rom, t.bank)->Ok_0
                && crate::gb_bank::selected_bank(MemController::Mbc5, Memory::Rom, w) == t.bank as nat
                % 512)
        }),
{
    let (t, a) = gb_flash_step_spec(s, e);
    if a is SwitchBank {
        crate::gb_bank::lemma_bank_switch_selects(MemController::Mbc5, Memory::Rom, t.bank);
    }
}

/// When the device reports a failing byte inside the range just written, the
/// machine moves strictly forward, so writing an image ends after finitely
/// many requests.
pub proof fn lemma_gb_flash_progress(s: GbFlash, e: GbFlashEvent)
    requires
        gb_flash_wf(s, gb_bank_pos(s.rom_banks as nat)),
        gb_flash_expects(s, e),
        s.stage == GbFlashStage::Write ==> (e matches GbFlashEvent::Written(Some((fail_addr, _)))
            ==> fail_addr >= gb_bank_base(s.bank as nat) + s.offset),
    ensures
        gb_flash_rank(gb_flash_step_spec(s, e).0) > gb_flash_rank(s),
{
    let t = gb_flash_step_spec(s, e).0;
    assert((s.bank as nat + 1) * 0x40000 == s.bank as nat * 0x40000 + 0x40000) by (nonlinear_arith);
    if s.stage != GbFlashStage::ChipErase && s.stage != GbFlashStage::Done {
        assert((s.rom_banks as nat + 1) * 0x40000 >= s.bank as nat * 0x40000 + 0x40000 + 0x40000)
            by (nonlinear_arith)
            requires
                s.bank < s.rom_banks,
        ;
    }
}

/// The first write request of bank `bank`: the whole bank, from its first byte.
pub open spec fn gb_first_write(bank: nat) -> GbFlashRequest {
    GbFlashRequest::Write {
        addr: gb_bank_base(bank) as u16,
        start: gb_bank_pos(bank) as usize,
        end: (gb_bank_pos(bank) + ROM_BANK_SIZE) as usize,
    }
}

/// The state reached from `s` after the device answered with `events`, in order.
pub open spec fn gb_flash_run(s: GbFlash, events: Seq<GbFlashEvent>) -> GbFlash
    decreases events.len(),
{
    if events.len() == 0 {
        s
    } else {
        gb_flash_step_spec(gb_flash_run(s, events.drop_last()), events.last()).0
    }
}

/// Whether each of `events` answers the request pending when it came.
pub open spec fn gb_flash_answers(s: GbFlash, events: Seq<GbFlashEvent>) -> bool {
    forall|j: int|
        0 <= j < events.len() ==> gb_flash_expects(gb_flash_run(s, events.take(j)), #[trigger] events[j])
}

/// The shape every state of a run keeps.
pub open spec fn gb_flash_shape(s: GbFlash) -> bool {
    &&& s.offset < ROM_BANK_SIZE
    &&& (s.stage != GbFlashStage::Done && s.stage != GbFlashStage::ChipErase ==> s.bank
        < s.rom_banks)
    &&& (s.stage != GbFlashStage::Write ==> s.offset == 0)
    &&& (s.stage == GbFlashStage::ChipErase ==> s.bank == 0)
    &&& (s.stage == GbFlashStage::Done ==> s.bank == s.rom_banks)
}

/// Whether the first write of bank `bank` was requested along a run that
/// started with request `r0` and went on with the answers `events`.
pub open spec fn gb_bank_write_requested(
    s0: GbFlash,
    r0: GbFlashRequest,
    events: Seq<GbFlashEvent>,
    bank: nat,
) -> bool {
    ||| r0 == gb_first_write(bank)
    ||| exists|j: int|
        0 <= j < events.len() && gb_flash_step_spec(gb_flash_run(s0, events.take(j)), #[trigger] events[j]).1
            == gb_first_write(bank)
}

proof fn lemma_gb_flash_shape_step(s: GbFlash, e: GbFlashEvent)
    requires
        gb_flash_shape(s),
        gb_flash_expects(s, e),
    ensures
        gb_flash_shape(gb_flash_step_spec(s, e).0),
        ({
            let (t, a) = gb_flash_step_spec(s, e);
            t.stage == GbFlashStage::Write && (s.stage != GbFlashStage::Write || t.bank != s.bank)
                ==> a == gb_first_write(t.bank as nat)
        }),
        ({
            let t = gb_flash_step_spec(s, e).0;
            &&& (t.stage == GbFlashStage::Write && s.stage == GbFlashStage::Write ==> t.bank == s.bank)
            &&& t.bank <= s.bank + 1
        }),
{
}

/// Along a run whose answers fit the requests, every bank the machine has
/// moved past, and the bank it is writing, had its first write requested:
/// the whole bank, from its first byte.
pub proof fn lemma_gb_flash_run_writes(s0: GbFlash, r0: GbFlashRequest, events: Seq<GbFlashEvent>)
    requires
        gb_flash_shape(s0),
        s0.stage == GbFlashStage::Write ==> s0.bank == 0 && r0 == gb_first_write(0),
        s0.bank == 0,
        gb_flash_answers(s0, events),
    ensures
        gb_flash_shape(gb_flash_run(s0, events)),
        forall|b: nat|
            b < gb_flash_run(s0, events).bank ==> #[trigger] gb_bank_write_requested(s0, r0, events, b),
        gb_flash_run(s0, events).stage == GbFlashStage::Write ==> gb_bank_write_requested(
            s0,
            r0,
            events,
            gb_flash_run(s0, events).bank as nat,
        ),
    decreases events.len(),
{
    if events.len() > 0 {
        let m = (events.len() - 1) as int;
        let p = events.drop_last();
        assert forall|j: int| 0 <= j < p.len() implies gb_flash_expects(
            gb_flash_run(s0, p.take(j)),
            #[trigger] p[j],
        ) by {
            assert(p.take(j) =~= events.take(j));
            assert(gb_flash_expects(gb_flash_run(s0, events.take(j)), events[j]));
        }
        lemma_gb_flash_run_writes(s0, r0, p);
        let sp = gb_flash_run(s0, p);
        assert(events.take(m) =~= p);
        assert(gb_flash_expects(sp, events[m]));
        lemma_gb_flash_shape_step(sp, events[m]);
        lemma_gb_flash_bank_order(sp, events[m]);
        let t = gb_flash_run(s0, events);
        assert(t == gb_flash_step_spec(sp, events.last()).0);
        assert forall|b: nat| b < gb_flash_run(s0, p).bank || (b == sp.bank && sp.stage
            == GbFlashStage::Write) implies #[trigger] gb_bank_write_requested(s0, r0, events, b) by {
            assert(gb_bank_write_requested(s0, r0, p, b));
            if r0 != gb_first_write(b) {
                let j = choose|j: int|
                    0 <= j < p.len() && gb_flash_step_spec(gb_flash_run(s0, p.take(j)), #[trigger] p[j]).1
                        == gb_first_write(b);
                assert(p.take(j) =~= events.take(j));
                assert(p[j] == events[j]);
            }
        }
        if t.stage == GbFlashStage::Write && (sp.stage != GbFlashStage::Write || t.bank != sp.bank) {
            assert(gb_flash_step_spec(gb_flash_run(s0, events.take(m)), events[m]).1
                == gb_first_write(t.bank as nat));
            assert(gb_bank_write_requested(s0, r0, events, t.bank as nat));
        }
    }
}

/// Writing an image requests every bank in full: along a run started by
/// `gb_flash_start` whose answers fit the requests, once the machine is done
/// the first write of each bank the header names, which covers the whole
/// bank, was requested.
pub proof fn lemma_gb_flash_done_wrote_all(rom: Seq<u8>, erase: EraseMode, events: Seq<GbFlashEvent>)
    requires
        gb_flash_start_spec(rom, erase) is Ok,
        gb_flash_answers(gb_flash_start_spec(rom, erase)->Ok_0.0, events),
        gb_flash_run(gb_flash_start_spec(rom, erase)->Ok_0.0, events).stage == GbFlashStage::Done,
    ensures
        forall|b: nat|
            b < gb_flash_start_spec(rom, erase)->Ok_0.0.rom_banks ==> #[trigger] gb_bank_write_requested(
                gb_flash_start_spec(rom, erase)->Ok_0.0,
                gb_flash_start_spec(rom, erase)->Ok_0.1,
                events,
                b,
            ),
{
    let (s0, r0) = gb_flash_start_spec(rom, erase)->Ok_0;
    lemma_gb_flash_run_writes(s0, r0, events);
    lemma_gb_flash_run_keeps_banks(s0, events);
}

proof fn lemma_gb_flash_run_keeps_banks(s: GbFlash, events: Seq<GbFlashEvent>)
    ensures
        gb_flash_run(s, events).rom_banks == s.rom_banks,
    decreases events.len(),
{
    if events.len() > 0 {
        lemma_gb_flash_run_keeps_banks(s, events.drop_last());
    }
}


/// Once bank `b` is selected it is written from image offset `b * 0x4000`
/// through the window where it is mapped, in every mode but sector erase
/// mode straight away. In sector erase mode the sectors erased first are
/// those of the flash chip that lie in the bank, each addressed through the
/// window where the bank is mapped: bank 0 at `0..0x4000`, every other bank
/// at `0x4000..0x8000`. A bank in the first 64 KiB of the image has two
/// 8 KiB sectors, at image offsets `b * 0x4000` and `b * 0x4000 + 0x2000`;
/// past it a bank that starts a 64 KiB sector erases that one sector, at
/// `0x4000`, and any other bank erases none and is written right away.
pub proof fn lemma_gb_flash_sector_erase_window(s: GbFlash, e: GbFlashEvent)
    requires
        s.stage == GbFlashStage::Switch,
        s.bank < s.rom_banks,
    ensures
        ({
            let b = s.bank as int;
            let (t, r) = gb_flash_step_spec(s, e);
            let base: int = if b == 0 {
                0
            } else {
                0x4000
            };
            let pos = b * 0x4000;
            let sector = s.erase == EraseMode::Sector;
            &&& !sector ==> r == GbFlashRequest::Write {
                addr: base as u16,
                start: pos as usize,
                end: (pos + 0x4000) as usize,
            }
            &&& sector && pos < 0x10000 ==> r == GbFlashRequest::EraseSectors(
                seq![(base as u16, pos as usize), ((base + 0x2000) as u16, (pos + 0x2000) as usize)],
            )
            &&& sector && pos >= 0x10000 && pos % 0x10000 == 0 ==> r == GbFlashRequest::EraseSectors(
                seq![(0x4000u16, pos as usize)],
            )
            &&& sector && pos >= 0x10000 && pos % 0x10000 != 0 ==> r == GbFlashRequest::Write {
                addr: 0x4000,
                start: pos as usize,
                end: (pos + 0x4000) as usize,
            }
            &&& r matches GbFlashRequest::EraseSectors(v) ==> forall|k: int|
                0 <= k < v.len() ==> {
                    let (vaddr, off) = #[trigger] v[k];
                    &&& vaddr - base == off - pos
                    &&& pos <= off < pos + 0x4000
                    &&& (b == 0 ==> vaddr < 0x4000)
                    &&& (b != 0 ==> 0x4000 <= vaddr < 0x8000)
                }
        }),
{
}

/// Which images the procedure accepts: once the header reads, only an image
/// without controller, an MBC5 one, or an MBC1 one of at most `0x20` banks is
/// written; an MBC1 image with more banks is refused for its bank count, and
/// any other controller is refused by name. Accepted, it starts with the chip
/// erase in full erase mode; in sector erase mode with the erase of bank 0's
/// two 8 KiB sectors at `0` and `0x2000`; else with the write of bank 0.
pub proof fn lemma_gb_flash_start_accepts(rom: Seq<u8>, erase: EraseMode)
    ensures
        match load_info_spec(rom) {
            Err(e) => gb_flash_start_spec(rom, erase) == Err::<(GbFlash, GbFlashRequest), GbFlashError>(
                GbFlashError::Header(e),
            ),
            Ok(info) => {
                let mc = info.mem_controller;
                let r = gb_flash_start_spec(rom, erase);
                &&& r is Ok <==> (mc == MemController::RomOnly || mc == MemController::Mbc5 || (mc
                    == MemController::Mbc1 && info.rom_banks <= 0x20))
                &&& mc == MemController::Mbc1 && info.rom_banks > 0x20 ==> r == Err::<
                    (GbFlash, GbFlashRequest),
                    GbFlashError,
                >(GbFlashError::Mbc1TooManyBanks { banks: info.rom_banks })
                &&& !(mc == MemController::RomOnly || mc == MemController::Mbc1 || mc
                    == MemController::Mbc5) ==> r == Err::<(GbFlash, GbFlashRequest), GbFlashError>(
                    GbFlashError::NotMbc5Compatible(mc),
                )
                &&& r matches Ok((s, req)) ==> {
                    &&& s.rom_banks == info.rom_banks
                    &&& s.erase == erase
                    &&& (erase == EraseMode::Full ==> req == GbFlashRequest::EraseChip)
                    &&& (erase == EraseMode::Sector && info.rom_banks > 0 ==> req
                        == GbFlashRequest::EraseSectors(seq![(0u16, 0usize), (0x2000u16, 0x2000usize)]))
                    &&& (erase == EraseMode::Skip && info.rom_banks > 0 ==> req == GbFlashRequest::Write {
                        addr: 0,
                        start: 0,
                        end: 0x4000,
                    })
                }
            },
        },
{
}

} // verus!
