//! Game Boy memory bank switching, flash erase command sequences, and the
//! request sequences for reading a cartridge and writing its RAM.
use vstd::prelude::*;

use crate::header::{HeaderInfo, MemController, RAM_BANK_SIZE, ROM_BANK_SIZE};

verus! {

/// Which cartridge memory a bank number refers to.
#[derive(Debug, Clone, Copy, PartialEq, Eq)]
pub enum Memory {
    Rom,
    Ram,
}

/// Why a bank could not be selected.
#[derive(Debug, Clone, Copy, PartialEq, Eq)]
pub enum BankSwitchError {
    /// A cartridge without controller has only bank 1 in its switchable area.
    RomOnlyBankSelect,
    /// Bank switching for this controller is not implemented.
    Unsupported(MemController),
}

/// The register writes `(address, value)` that select `bank` of `mem`.
pub open spec fn bank_switch_spec(mc: MemController, mem: Memory, bank: u16) -> Result<
    Seq<(u16, u8)>,
    BankSwitchError,
> {
    match mc {
        MemController::RomOnly => if bank != 1 {
            Err(BankSwitchError::RomOnlyBankSelect)
        } else {
            Ok(seq![])
        },
        MemController::Mbc1 => match mem {
            Memory::Rom => Ok(
                seq![
                    (0x6000u16, 0x00u8),
                    (0x2000u16, (bank as u8) & 0x1f),
                    (0x4000u16, ((bank as u8) & 0x60) >> 5u8),
                ],
            ),
            Memory::Ram => Ok(seq![(0x6000u16, 0x01u8), (0x4000u16, (bank as u8) & 0x03)]),
        },
        MemController::Mbc5 => match mem {
            Memory::Rom => Ok(
                seq![
                    (0x2000u16, (bank & 0x00ff) as u8),
                    (0x3000u16, ((bank & 0x0100) >> 8u16) as u8),
                ],
            ),
            Memory::Ram => Ok(seq![(0x4000u16, (bank as u8) & 0x0f)]),
        },
        _ => Err(BankSwitchError::Unsupported(mc)),
    }
}

/// The register writes that select `bank` of `mem` on a cartridge with controller `mc`.
pub fn bank_switch_writes(mc: MemController, mem: Memory, bank: u16) -> (r: Result<
    Vec<(u16, u8)>,
    BankSwitchError,
>)
    ensures
        match r {
            Ok(w) => bank_switch_spec(mc, mem, bank) == Ok::<Seq<(u16, u8)>, BankSwitchError>(w@),
            Err(e) => bank_switch_spec(mc, mem, bank) == Err::<Seq<(u16, u8)>, BankSwitchError>(e),
        },
{
    match mc {
        MemController::RomOnly => {
            if bank != 1 {
                Err(BankSwitchError::RomOnlyBankSelect)
            } else {
                let w: Vec<(u16, u8)> = Vec::new();
                assert(w@ =~= seq![]);
                Ok(w)
            }
        },
        MemController::Mbc1 => match mem {
            Memory::Rom => {
                let w = vec![
                    (0x6000u16, 0x00u8),
                    (0x2000u16, (bank as u8) & 0x1f),
                    (0x4000u16, ((bank as u8) & 0x60) >> 5u8),
                ];
                assert(w@ =~= seq![
                    (0x6000u16, 0x00u8),
                    (0x2000u16, (bank as u8) & 0x1f),
                    (0x4000u16, ((bank as u8) & 0x60) >> 5u8),
                ]);
                Ok(w)
            },
            Memory::Ram => {
                let w = vec![(0x6000u16, 0x01u8), (0x4000u16, (bank as u8) & 0x03)];
                assert(w@ =~= seq![(0x6000u16, 0x01u8), (0x4000u16, (bank as u8) & 0x03)]);
                Ok(w)
            },
        },
        MemController::Mbc5 => match mem {
            Memory::Rom => {
                let w = vec![
                    (0x2000u16, (bank & 0x00ff) as u8),
                    (0x3000u16, ((bank & 0x0100) >> 8u16) as u8),
                ];
                assert(w@ =~= seq![
                    (0x2000u16, (bank & 0x00ff) as u8),
                    (0x3000u16, ((bank & 0x0100) >> 8u16) as u8),
                ]);
                Ok(w)
            },
            Memory::Ram => {
                let w = vec![(0x4000u16, (bank as u8) & 0x0f)];
                assert(w@ =~= seq![(0x4000u16, (bank as u8) & 0x0f)]);
                Ok(w)
            },
        },
        _ => Err(BankSwitchError::Unsupported(mc)),
    }
}

/// The bank number that the controller's bank registers hold after `writes`,
/// for the controllers that have them.
pub open spec fn selected_bank(mc: MemController, mem: Memory, writes: Seq<(u16, u8)>) -> nat {
    match (mc, mem) {
        (MemController::Mbc1, Memory::Rom) => writes[1].1 as nat + 32 * writes[2].1 as nat,
        (MemController::Mbc1, Memory::Ram) => writes[1].1 as nat,
        (MemController::Mbc5, Memory::Rom) => writes[0].1 as nat + 256 * writes[1].1 as nat,
        (MemController::Mbc5, Memory::Ram) => writes[0].1 as nat,
        _ => 1,
    }
}

/// How many bank numbers a controller can select in `mem`.
pub open spec fn bank_count_limit(mc: MemController, mem: Memory) -> nat {
    match (mc, mem) {
        (MemController::Mbc1, Memory::Rom) => 128,
        (MemController::Mbc1, Memory::Ram) => 4,
        (MemController::Mbc5, Memory::Rom) => 512,
        (MemController::Mbc5, Memory::Ram) => 16,
        _ => 2,
    }
}

/// Selecting a bank really selects it: the values written to the bank
/// registers spell out the requested bank number, taken modulo the number of
/// banks the controller can address.
pub proof fn lemma_bank_switch_selects(mc: MemController, mem: Memory, bank: u16)
    requires
        bank_switch_spec(mc, mem, bank) is Ok,
    ensures
        selected_bank(mc, mem, bank_switch_spec(mc, mem, bank)->Ok_0) == bank as nat % bank_count_limit(
            mc,
            mem,
        ),
{
    let w = bank_switch_spec(mc, mem, bank)->Ok_0;
    match (mc, mem) {
        (MemController::Mbc1, Memory::Rom) => {
            let b = bank as u8;
            assert(((b & 0x1f) as nat + 32 * (((b & 0x60) >> 5u8) as nat)) == (b as nat) % 128)
                by (bit_vector);
            assert((bank as u8) as nat == bank as nat % 256) by (bit_vector);
            assert(bank as nat % 256 % 128 == bank as nat % 128) by (nonlinear_arith);
        },
        (MemController::Mbc1, Memory::Ram) => {
            let b = bank as u8;
            assert((b & 0x03) as nat == (b as nat) % 4) by (bit_vector);
            assert((bank as u8) as nat == bank as nat % 256) by (bit_vector);
            assert(bank as nat % 256 % 4 == bank as nat % 4) by (nonlinear_arith);
        },
        (MemController::Mbc5, Memory::Rom) => {
            assert(((bank & 0x00ff) as u8) as nat + 256 * (((bank & 0x0100) >> 8u16) as u8) as nat
                == (bank as nat) % 512) by (bit_vector);
        },
        (MemController::Mbc5, Memory::Ram) => {
            let b = bank as u8;
            assert((b & 0x0f) as nat == (b as nat) % 16) by (bit_vector);
            assert((bank as u8) as nat == bank as nat % 256) by (bit_vector);
            assert(bank as nat % 256 % 16 == bank as nat % 16) by (nonlinear_arith);
        },
        _ => {},
    }
}

/// The command that erases the whole flash chip of a Game Boy flash cartridge.
pub open spec fn chip_erase_command() -> Seq<(u16, u8)> {
    seq![
        (0x0aaau16, 0xa9u8),
        (0x0555u16, 0x56u8),
        (0x0aaau16, 0x80u8),
        (0x0aaau16, 0xa9u8),
        (0x0555u16, 0x56u8),
        (0x0aaau16, 0x10u8),
    ]
}

/// The command that erases the flash sector at `addr`.
pub open spec fn sector_erase_command(addr: u16) -> Seq<(u16, u8)> {
    seq![
        (0x0aaau16, 0xa9u8),
        (0x0555u16, 0x56u8),
        (0x0aaau16, 0x80u8),
        (0x0aaau16, 0xa9u8),
        (0x0555u16, 0x56u8),
        (addr, 0x30u8),
    ]
}

/// The write that returns the flash chip to read mode after an erase.
pub const GB_FLASH_RESET: (u16, u8) = (0x0000, 0xff);

/// The writes that start a whole-chip erase: select ROM bank 1 the MBC5 way,
/// then send the erase command.
pub fn gb_chip_erase_writes() -> (r: Vec<(u16, u8)>)
    ensures
        r@ == bank_switch_spec(MemController::Mbc5, Memory::Rom, 1)->Ok_0 + chip_erase_command(),
{
    let w = vec![
        (0x2000u16, 0x01u8),
        (0x3000u16, 0x00u8),
        (0x0aaau16, 0xa9u8),
        (0x0555u16, 0x56u8),
        (0x0aaau16, 0x80u8),
        (0x0aaau16, 0xa9u8),
        (0x0555u16, 0x56u8),
        (0x0aaau16, 0x10u8),
    ];
    assert(((1u16 & 0x00ff) as u8) == 1u8 && (((1u16 & 0x0100) >> 8u16) as u8) == 0u8)
        by (bit_vector);
    assert(w@ =~= bank_switch_spec(MemController::Mbc5, Memory::Rom, 1)->Ok_0 + chip_erase_command());
    w
}

/// The writes that erase the flash sector at `addr`.
pub fn gb_sector_erase_writes(addr: u16) -> (r: Vec<(u16, u8)>)
    ensures
        r@ == sector_erase_command(addr),
{
    let w = vec![
        (0x0aaau16, 0xa9u8),
        (0x0555u16, 0x56u8),
        (0x0aaau16, 0x80u8),
        (0x0aaau16, 0xa9u8),
        (0x0555u16, 0x56u8),
        (addr, 0x30u8),
    ];
    assert(w@ =~= sector_erase_command(addr));
    w
}

/// What the status byte read during an erase says.
#[derive(Debug, Clone, Copy, PartialEq, Eq)]
pub enum EraseStatus {
    /// The erase is complete.
    Done,
    /// The erase is still running.
    Busy,
    /// Any other value: the cartridge is probably not connected right.
    Fault(u8),
}

/// Reads the status byte polled while a flash erase runs.
pub fn gb_erase_status(status: u8) -> (r: EraseStatus)
    ensures
        status == 0xff ==> r == EraseStatus::Done,
        (status == 0x4c || status == 0x08) ==> r == EraseStatus::Busy,
        (status != 0xff && status != 0x4c && status != 0x08) ==> r == EraseStatus::Fault(status),
{
    if status == 0xff {
        EraseStatus::Done
    } else if status != 0x4c && status != 0x08 {
        EraseStatus::Fault(status)
    } else {
        EraseStatus::Busy
    }
}

/// A cartridge bus request of a Game Boy procedure.
#[derive(Debug, Clone, Copy, PartialEq, Eq)]
pub enum GbOp {
    /// Write one byte.
    Write { addr: u16, data: u8 },
    /// Read `len` bytes starting at `addr`.
    Read { addr: u16, len: u16 },
    /// Write `data[start..end]` of the caller's buffer starting at `addr`.
    WriteBlock { addr: u16, start: usize, end: usize },
}

/// Register writes as bus requests.
pub open spec fn write_ops(w: Seq<(u16, u8)>) -> Seq<GbOp> {
    Seq::new(w.len(), |k: int| GbOp::Write { addr: w[k].0, data: w[k].1 })
}

/// Address at which the switchable ROM bank appears.
pub const ROM_BANK_WINDOW: u16 = 0x4000;

/// Address at which the switchable RAM bank appears.
pub const RAM_BANK_WINDOW: u16 = 0xa000;

/// The write that enables cartridge RAM.
pub const RAM_ENABLE: (u16, u8) = (0x0000, 0x0a);

/// The write that disables cartridge RAM.
pub const RAM_DISABLE: (u16, u8) = (0x0000, 0x00);

/// The requests that read ROM banks `1..upto`: for each, select it and read
/// the switchable window; they stop before the first bank that cannot be
/// selected, and the error is returned beside them.
pub open spec fn rom_read_ops(mc: MemController, upto: nat) -> (Seq<GbOp>, Option<BankSwitchError>)
    decreases upto,
{
    if upto <= 1 {
        (seq![], None)
    } else {
        let (p, err) = rom_read_ops(mc, (upto - 1) as nat);
        if err is Some {
            (p, err)
        } else {
            match bank_switch_spec(mc, Memory::Rom, (upto - 1) as u16) {
                Err(e) => (p, Some(e)),
                Ok(w) => (
                    p + write_ops(w) + seq![GbOp::Read { addr: ROM_BANK_WINDOW, len: ROM_BANK_SIZE }],
                    None,
                ),
            }
        }
    }
}

/// The number of bytes read from, or written to, each RAM bank: the RAM
/// size, capped at the bank size.
pub open spec fn ram_chunk(ram_size: usize) -> u16 {
    if ram_size < RAM_BANK_SIZE {
        ram_size as u16
    } else {
        RAM_BANK_SIZE
    }
}

/// The requests that go through RAM banks `0..upto`: select each, then
/// `op(bank)`; they stop before the first bank that cannot be selected.
pub open spec fn ram_bank_ops(
    mc: MemController,
    upto: nat,
    op: spec_fn(nat) -> GbOp,
) -> (Seq<GbOp>, Option<BankSwitchError>)
    decreases upto,
{
    if upto == 0 {
        (seq![], None)
    } else {
        let (p, err) = ram_bank_ops(mc, (upto - 1) as nat, op);
        if err is Some {
            (p, err)
        } else {
            match bank_switch_spec(mc, Memory::Ram, (upto - 1) as u16) {
                Err(e) => (p, Some(e)),
                Ok(w) => (p + write_ops(w) + seq![op((upto - 1) as nat)], None),
            }
        }
    }
}

/// The read of one RAM bank.
pub open spec fn ram_read_op(info: HeaderInfo) -> spec_fn(nat) -> GbOp {
    |bank: nat| GbOp::Read { addr: RAM_BANK_WINDOW, len: ram_chunk(info.ram_size) }
}

/// The write of one RAM bank from the save file.
pub open spec fn ram_write_op(info: HeaderInfo) -> spec_fn(nat) -> GbOp {
    |bank: nat|
        GbOp::WriteBlock {
            addr: RAM_BANK_WINDOW,
            start: (bank * RAM_BANK_SIZE) as usize,
            end: (bank * RAM_BANK_SIZE + ram_chunk(info.ram_size)) as usize,
        }
}

/// Wraps RAM bank requests in the RAM enable and disable writes; the disable
/// is left out when a bank could not be selected.
pub open spec fn ram_session(inner: (Seq<GbOp>, Option<BankSwitchError>)) -> (
    Seq<GbOp>,
    Option<BankSwitchError>,
) {
    let enable = seq![GbOp::Write { addr: RAM_ENABLE.0, data: RAM_ENABLE.1 }];
    if inner.1 is Some {
        (enable + inner.0, inner.1)
    } else {
        (enable + inner.0 + seq![GbOp::Write { addr: RAM_DISABLE.0, data: RAM_DISABLE.1 }], None)
    }
}

/// The requests that read a cartridge's `mem` once its first ROM bank is
/// known: for ROM, banks `1..rom_banks`; for RAM, every RAM bank between the
/// enable and disable writes.
pub open spec fn gb_read_plan_spec(info: HeaderInfo, mem: Memory) -> (
    Seq<GbOp>,
    Option<BankSwitchError>,
) {
    match mem {
        Memory::Rom => rom_read_ops(info.mem_controller, info.rom_banks as nat),
        Memory::Ram => ram_session(
            ram_bank_ops(info.mem_controller, info.ram_banks as nat, ram_read_op(info)),
        ),
    }
}

proof fn lemma_rom_read_ops_stop(mc: MemController, k: nat, m: nat)
    requires
        k <= m,
        rom_read_ops(mc, k).1 is Some,
    ensures
        rom_read_ops(mc, m) == rom_read_ops(mc, k),
    decreases m - k,
{
    if k < m {
        lemma_rom_read_ops_stop(mc, k, (m - 1) as nat);
    }
}

proof fn lemma_ram_bank_ops_stop(mc: MemController, op: spec_fn(nat) -> GbOp, k: nat, m: nat)
    requires
        k <= m,
        ram_bank_ops(mc, k, op).1 is Some,
    ensures
        ram_bank_ops(mc, m, op) == ram_bank_ops(mc, k, op),
    decreases m - k,
{
    if k < m {
        lemma_ram_bank_ops_stop(mc, op, k, (m - 1) as nat);
    }
}

fn push_writes(ops: &mut Vec<GbOp>, w: &Vec<(u16, u8)>)
    ensures
        final(ops)@ == old(ops)@ + write_ops(w@),
{
    let ghost start = ops@;
    let mut k: usize = 0;
    while k < w.len()
        invariant
            k <= w@.len(),
            ops@ == start + write_ops(w@.subrange(0, k as int)),
        decreases w@.len() - k,
    {
        let (addr, data) = w[k];
        ops.push(GbOp::Write { addr, data });
        k = k + 1;
        assert(write_ops(w@.subrange(0, k as int)) =~= write_ops(w@.subrange(0, k - 1)).push(
            GbOp::Write { addr, data },
        ));
    }
    assert(w@.subrange(0, w@.len() as int) =~= w@);
}

fn ram_chunk_exec(ram_size: usize) -> (r: u16)
    ensures
        r == ram_chunk(ram_size),
        r <= RAM_BANK_SIZE,
{
    if ram_size < RAM_BANK_SIZE as usize {
        ram_size as u16
    } else {
        RAM_BANK_SIZE
    }
}

/// The requests that read a cartridge's ROM (past the first bank) or RAM,
/// with the error that stops them early, if any.
pub fn gb_read_plan(info: &HeaderInfo, mem: Memory) -> (r: (Vec<GbOp>, Option<BankSwitchError>))
    ensures
        (r.0@, r.1) == gb_read_plan_spec(*info, mem),
{
    let mc = info.mem_controller;
    let mut ops: Vec<GbOp> = Vec::new();
    match mem {
        Memory::Rom => {
            let mut bank: u16 = 1;
            if info.rom_banks <= 1 {
                assert(ops@ =~= seq![]);
                return (ops, None);
            }
            while bank < info.rom_banks
                invariant
                    1 <= bank <= info.rom_banks,
                    mem == Memory::Rom,
                    mc == info.mem_controller,
                    rom_read_ops(mc, bank as nat) == (ops@, None::<BankSwitchError>),
                decreases info.rom_banks - bank,
            {
                match bank_switch_writes(mc, Memory::Rom, bank) {
                    Err(e) => {
                        proof {
                            assert(((bank + 1) as nat - 1) as u16 == bank);
                            lemma_rom_read_ops_stop(mc, (bank + 1) as nat, info.rom_banks as nat);
                        }
                        return (ops, Some(e));
                    },
                    Ok(w) => {
                        push_writes(&mut ops, &w);
                        ops.push(GbOp::Read { addr: ROM_BANK_WINDOW, len: ROM_BANK_SIZE });
                    },
                }
                bank = bank + 1;
            }
            (ops, None)
        },
        Memory::Ram => {
            let size = ram_chunk_exec(info.ram_size);
            ops.push(GbOp::Write { addr: RAM_ENABLE.0, data: RAM_ENABLE.1 });
            let mut bank: u16 = 0;
            let ghost enable = ops@;
            let ghost op = ram_read_op(*info);
            while bank < info.ram_banks
                invariant
                    bank <= info.ram_banks,
                    mem == Memory::Ram,
                    mc == info.mem_controller,
                    size == ram_chunk(info.ram_size),
                    op == ram_read_op(*info),
                    enable == seq![GbOp::Write { addr: RAM_ENABLE.0, data: RAM_ENABLE.1 }],
                    ram_bank_ops(mc, bank as nat, op).1 is None,
                    ops@ == enable + ram_bank_ops(mc, bank as nat, op).0,
                decreases info.ram_banks - bank,
            {
                match bank_switch_writes(mc, Memory::Ram, bank) {
                    Err(e) => {
                        assert(ops@ =~= enable + ram_bank_ops(mc, (bank + 1) as nat, op).0);
                        proof {
                            assert(((bank + 1) as nat - 1) as u16 == bank);
                            lemma_ram_bank_ops_stop(mc, op, (bank + 1) as nat, info.ram_banks as nat);
                        }
                        return (ops, Some(e));
                    },
                    Ok(w) => {
                        push_writes(&mut ops, &w);
                        ops.push(GbOp::Read { addr: RAM_BANK_WINDOW, len: size });
                        assert(ops@ =~= enable + ram_bank_ops(mc, (bank + 1) as nat, op).0);
                    },
                }
                bank = bank + 1;
            }
            ops.push(GbOp::Write { addr: RAM_DISABLE.0, data: RAM_DISABLE.1 });
            (ops, None)
        },
    }
}

/// Why a save file cannot be written to cartridge RAM.
#[derive(Debug, Clone, Copy, PartialEq, Eq)]
pub enum RamWriteError {
    /// The save file's length differs from the RAM size the header names.
    SizeMismatch { ram_size: usize, save_len: usize },
}

/// Whether every RAM bank's part of a save file of `ram_size` bytes lies inside it.
pub open spec fn ram_layout_fits(info: HeaderInfo) -> bool {
    info.ram_banks == 0 || (info.ram_banks - 1) * RAM_BANK_SIZE + ram_chunk(info.ram_size)
        <= info.ram_size
}

/// The requests that write a save file of `save_len` bytes to cartridge RAM:
/// bank `k` receives the save file's bytes from `k * 0x2000`, as many as `ram_chunk` says.
pub fn gb_write_ram_plan(info: &HeaderInfo, save_len: usize) -> (r: Result<
    (Vec<GbOp>, Option<BankSwitchError>),
    RamWriteError,
>)
    ensures
        save_len != info.ram_size ==> r == Err::<(Vec<GbOp>, Option<BankSwitchError>), RamWriteError>(
            RamWriteError::SizeMismatch { ram_size: info.ram_size, save_len },
        ),
        save_len == info.ram_size ==> (r matches Ok((ops, err)) && (ops@, err) == ram_session(
            ram_bank_ops(info.mem_controller, info.ram_banks as nat, ram_write_op(*info)),
        )),
{
    if save_len != info.ram_size {
        return Err(RamWriteError::SizeMismatch { ram_size: info.ram_size, save_len });
    }
    let mc = info.mem_controller;
    let size = ram_chunk_exec(info.ram_size);
    let mut ops: Vec<GbOp> = Vec::new();
    ops.push(GbOp::Write { addr: RAM_ENABLE.0, data: RAM_ENABLE.1 });
    let mut bank: u16 = 0;
    let ghost enable = ops@;
    let ghost op = ram_write_op(*info);
    while bank < info.ram_banks
        invariant
            bank <= info.ram_banks,
            save_len == info.ram_size,
            mc == info.mem_controller,
            size == ram_chunk(info.ram_size),
            size <= RAM_BANK_SIZE,
            op == ram_write_op(*info),
            enable == seq![GbOp::Write { addr: RAM_ENABLE.0, data: RAM_ENABLE.1 }],
            ram_bank_ops(mc, bank as nat, op).1 is None,
            ops@ == enable + ram_bank_ops(mc, bank as nat, op).0,
        decreases info.ram_banks - bank,
    {
        match bank_switch_writes(mc, Memory::Ram, bank) {
            Err(e) => {
                assert(ops@ =~= enable + ram_bank_ops(mc, (bank + 1) as nat, op).0);
                proof {
                    lemma_ram_bank_ops_stop(mc, op, (bank + 1) as nat, info.ram_banks as nat);
                }
                return Ok((ops, Some(e)));
            },
            Ok(w) => {
                push_writes(&mut ops, &w);
                let pos = bank as usize * RAM_BANK_SIZE as usize;
                ops.push(GbOp::WriteBlock { addr: RAM_BANK_WINDOW, start: pos, end: pos + size as usize });
                assert(ops@ =~= enable + ram_bank_ops(mc, (bank + 1) as nat, op).0);
            },
        }
        bank = bank + 1;
    }
    ops.push(GbOp::Write { addr: RAM_DISABLE.0, data: RAM_DISABLE.1 });
    Ok((ops, None))
}

/// Number of bytes that the reads among `ops` ask for.
pub open spec fn bytes_read(ops: Seq<GbOp>) -> nat
    decreases ops.len(),
{
    if ops.len() == 0 {
        0
    } else {
        bytes_read(ops.drop_last()) + match ops.last() {
            GbOp::Read { len, .. } => len as nat,
            _ => 0,
        }
    }
}

proof fn lemma_bytes_read_append(a: Seq<GbOp>, b: Seq<GbOp>)
    ensures
        bytes_read(a + b) == bytes_read(a) + bytes_read(b),
    decreases b.len(),
{
    if b.len() > 0 {
        assert((a + b).drop_last() =~= a + b.drop_last());
        lemma_bytes_read_append(a, b.drop_last());
    }
}

proof fn lemma_write_ops_read_nothing(w: Seq<(u16, u8)>)
    ensures
        bytes_read(write_ops(w)) == 0,
    decreases w.len(),
{
    if w.len() > 0 {
        assert(write_ops(w).drop_last() =~= write_ops(w.drop_last()));
        lemma_write_ops_read_nothing(w.drop_last());
    }
}

/// Reading a ROM asks for every bank past the first: when each bank can be
/// selected, the reads cover `(rom_banks - 1) * ROM_BANK_SIZE` bytes, which
/// with the first bank make up the whole ROM the header names.
pub proof fn lemma_rom_read_covers_banks(mc: MemController, upto: nat)
    requires
        upto <= 0x10000,
        rom_read_ops(mc, upto).1 is None,
    ensures
        bytes_read(rom_read_ops(mc, upto).0) + ROM_BANK_SIZE == (if upto == 0 {
            1
        } else {
            upto
        }) * ROM_BANK_SIZE,
    decreases upto,
{
    if upto > 1 {
        let (p, err) = rom_read_ops(mc, (upto - 1) as nat);
        lemma_rom_read_covers_banks(mc, (upto - 1) as nat);
        let w = bank_switch_spec(mc, Memory::Rom, (upto - 1) as u16)->Ok_0;
        lemma_write_ops_read_nothing(w);
        let tail = seq![GbOp::Read { addr: ROM_BANK_WINDOW, len: ROM_BANK_SIZE }];
        lemma_bytes_read_append(p + write_ops(w), tail);
        lemma_bytes_read_append(p, write_ops(w));
        assert(tail.drop_last() =~= Seq::<GbOp>::empty());
        assert(bytes_read(Seq::<GbOp>::empty()) == 0);
        assert(tail.last() == GbOp::Read { addr: ROM_BANK_WINDOW, len: ROM_BANK_SIZE });
        assert(bytes_read(tail) == ROM_BANK_SIZE);
        assert((upto - 1) * ROM_BANK_SIZE + ROM_BANK_SIZE == upto * ROM_BANK_SIZE) by (nonlinear_arith);
    }
}

/// Whether every block write among `ops` takes its bytes from inside a buffer of `len` bytes.
pub open spec fn blocks_within(ops: Seq<GbOp>, len: nat) -> bool {
    forall|k: int|
        0 <= k < ops.len() ==> (#[trigger] ops[k] matches GbOp::WriteBlock { start, end, .. } ==> start
            <= end <= len)
}

/// Writing a save file never reads past its end when the header's RAM layout
/// fits its RAM size: every block written to a RAM bank lies inside the save file.
pub proof fn lemma_ram_write_within_save(info: HeaderInfo, upto: nat)
    requires
        ram_layout_fits(info),
        upto <= info.ram_banks,
    ensures
        blocks_within(
            ram_session(ram_bank_ops(info.mem_controller, upto, ram_write_op(info))).0,
            info.ram_size as nat,
        ),
{
    lemma_ram_bank_ops_within(info, upto);
}

proof fn lemma_ram_bank_ops_within(info: HeaderInfo, upto: nat)
    requires
        ram_layout_fits(info),
        upto <= info.ram_banks,
    ensures
        blocks_within(
            ram_bank_ops(info.mem_controller, upto, ram_write_op(info)).0,
            info.ram_size as nat,
        ),
    decreases upto,
{
    if upto > 0 {
        lemma_ram_bank_ops_within(info, (upto - 1) as nat);
        let bank = (upto - 1) as nat;
        assert(bank * RAM_BANK_SIZE + ram_chunk(info.ram_size) <= info.ram_size) by (nonlinear_arith)
            requires
                bank + 1 <= info.ram_banks,
                (info.ram_banks - 1) * RAM_BANK_SIZE + ram_chunk(info.ram_size) <= info.ram_size,
        ;
    }
}

/// Cartridge RAM as the bus requests of a RAM session see it: the selected
/// RAM bank and the RAM bytes.
pub struct RamCart {
    pub bank: nat,
    pub ram: Seq<u8>,
}

/// `ram` with `bytes` put in place from offset `at` on; bytes that would land
/// past the end of `ram` are dropped.
pub open spec fn splice(ram: Seq<u8>, at: int, bytes: Seq<u8>) -> Seq<u8> {
    Seq::new(
        ram.len(),
        |j: int|
            if at <= j < at + bytes.len() {
                bytes[j - at]
            } else {
                ram[j]
            },
    )
}

/// What one bus request does to a cartridge that behaves as its RAM bank
/// register says, and the bytes it reads: a write to `0x4000` selects the RAM
/// bank, other register writes (RAM enable, banking mode) change nothing here,
/// a block write puts `src[start..end]` at the start of the selected bank,
/// and a read returns `len` bytes from there.
pub open spec fn ram_cart_apply(c: RamCart, op: GbOp, src: Seq<u8>) -> (RamCart, Seq<u8>) {
    match op {
        GbOp::Write { addr, data } => if addr == 0x4000 {
            (RamCart { bank: data as nat, ram: c.ram }, seq![])
        } else {
            (c, seq![])
        },
        GbOp::WriteBlock { start, end, .. } => (
            RamCart {
                bank: c.bank,
                ram: splice(c.ram, c.bank * RAM_BANK_SIZE, src.subrange(start as int, end as int)),
            },
            seq![],
        ),
        GbOp::Read { len, .. } => (
            c,
            Seq::new(len as nat, |j: int| c.ram[c.bank * RAM_BANK_SIZE + j]),
        ),
    }
}

/// The cartridge after `ops`, in order, and the bytes they read.
pub open spec fn ram_cart_run(c: RamCart, ops: Seq<GbOp>, src: Seq<u8>) -> (RamCart, Seq<u8>)
    decreases ops.len(),
{
    if ops.len() == 0 {
        (c, seq![])
    } else {
        let (c1, out1) = ram_cart_run(c, ops.drop_last(), src);
        let (c2, out2) = ram_cart_apply(c1, ops.last(), src);
        (c2, out1 + out2)
    }
}

proof fn lemma_ram_cart_run_append(c: RamCart, a: Seq<GbOp>, b: Seq<GbOp>, src: Seq<u8>)
    ensures
        ({
            let (ca, oa) = ram_cart_run(c, a, src);
            let (cb, ob) = ram_cart_run(ca, b, src);
            ram_cart_run(c, a + b, src) == (cb, oa + ob)
        }),
    decreases b.len(),
{
    if b.len() == 0 {
        assert(a + b =~= a);
        let (ca, oa) = ram_cart_run(c, a, src);
        assert(oa + seq![] =~= oa);
    } else {
        assert((a + b).drop_last() =~= a + b.drop_last());
        assert((a + b).last() == b.last());
        lemma_ram_cart_run_append(c, a, b.drop_last(), src);
        let (ca, oa) = ram_cart_run(c, a, src);
        let (cm, om) = ram_cart_run(ca, b.drop_last(), src);
        let (cb, ol) = ram_cart_apply(cm, b.last(), src);
        assert(oa + om + ol =~= oa + (om + ol));
    }
}

proof fn lemma_ram_cart_run_one(c: RamCart, op: GbOp, src: Seq<u8>)
    ensures
        ram_cart_run(c, seq![op], src) == ram_cart_apply(c, op, src),
{
    assert(seq![op].drop_last() =~= Seq::<GbOp>::empty());
    assert(seq![op].last() == op);
    assert(ram_cart_run(c, Seq::<GbOp>::empty(), src) == (c, Seq::<u8>::empty()));
    let (c2, o2) = ram_cart_apply(c, op, src);
    assert(Seq::<u8>::empty() + o2 =~= o2);
}

/// Selecting RAM bank `bank` on an MBC1 or MBC5 cartridge leaves the RAM as
/// it was and reads nothing; a bank the controller can address ends up selected.
proof fn lemma_ram_switch_selects(mc: MemController, bank: u16, c: RamCart, src: Seq<u8>)
    requires
        mc == MemController::Mbc1 || mc == MemController::Mbc5,
    ensures
        bank_switch_spec(mc, Memory::Ram, bank) is Ok,
        ({
            let (c1, out) = ram_cart_run(
                c,
                write_ops(bank_switch_spec(mc, Memory::Ram, bank)->Ok_0),
                src,
            );
            &&& c1.ram == c.ram
            &&& out == Seq::<u8>::empty()
            &&& bank < bank_count_limit(mc, Memory::Ram) ==> c1.bank == bank
        }),
{
    let w = bank_switch_spec(mc, Memory::Ram, bank)->Ok_0;
    let b = bank as u8;
    if mc == MemController::Mbc1 {
        if bank < 4 {
            assert(b & 0x03 == b) by (bit_vector)
                requires
                    b < 4,
            ;
        }
        let o1 = GbOp::Write { addr: 0x6000, data: 0x01 };
        let o2 = GbOp::Write { addr: 0x4000, data: b & 0x03 };
        assert(write_ops(w) =~= seq![o1] + seq![o2]);
        lemma_ram_cart_run_append(c, seq![o1], seq![o2], src);
        lemma_ram_cart_run_one(c, o1, src);
        lemma_ram_cart_run_one(c, o2, src);
        assert(Seq::<u8>::empty() + Seq::<u8>::empty() =~= Seq::<u8>::empty());
    } else {
        if bank < 16 {
            assert(b & 0x0f == b) by (bit_vector)
                requires
                    b < 16,
            ;
        }
        let o = GbOp::Write { addr: 0x4000, data: b & 0x0f };
        assert(write_ops(w) =~= seq![o]);
        lemma_ram_cart_run_one(c, o, src);
    }
}

/// The conditions under which a RAM session goes through every bank of a
/// header's RAM on a cartridge that behaves as its bank register says: an
/// MBC1 or MBC5 controller, a RAM size that the banks fill exactly, and, for
/// RAM that is not empty, a controller that can address every bank.
pub open spec fn ram_layout_exact(info: HeaderInfo) -> bool {
    &&& (info.mem_controller == MemController::Mbc1 || info.mem_controller == MemController::Mbc5)
    &&& info.ram_size == info.ram_banks * ram_chunk(info.ram_size)
    &&& (info.ram_size == 0 || info.ram_banks <= bank_count_limit(info.mem_controller, Memory::Ram))
}

/// Bank `b` of an exact RAM layout starts `b` chunks into the RAM and ends
/// inside it; a layout with RAM in it has banks the controller can address.
proof fn lemma_ram_layout_bank(info: HeaderInfo, b: nat)
    requires
        ram_layout_exact(info),
        b < info.ram_banks,
    ensures
        ram_chunk(info.ram_size) > 0 ==> b * RAM_BANK_SIZE == b * ram_chunk(info.ram_size),
        ram_chunk(info.ram_size) > 0 ==> b < bank_count_limit(info.mem_controller, Memory::Ram),
        (b + 1) * ram_chunk(info.ram_size) <= info.ram_size,
{
    let chunk = ram_chunk(info.ram_size) as int;
    let n = info.ram_banks as int;
    let size = info.ram_size as int;
    if 0 < chunk < RAM_BANK_SIZE {
        assert(n == 1) by (nonlinear_arith)
            requires
                size == n * size,
                size > 0,
        ;
    }
    if chunk > 0 {
        assert(b * RAM_BANK_SIZE == b * chunk) by (nonlinear_arith)
            requires
                chunk == RAM_BANK_SIZE || b == 0,
        ;
    }
    assert((b + 1) * chunk <= size) by (nonlinear_arith)
        requires
            b + 1 <= n,
            size == n * chunk,
            chunk >= 0,
    ;
}

proof fn lemma_ram_write_banks(info: HeaderInfo, k: nat, c: RamCart, save: Seq<u8>)
    requires
        ram_layout_exact(info),
        k <= info.ram_banks,
        save.len() == info.ram_size,
        c.ram.len() == info.ram_size,
    ensures
        ram_bank_ops(info.mem_controller, k, ram_write_op(info)).1 is None,
        ({
            let (c1, out) = ram_cart_run(
                c,
                ram_bank_ops(info.mem_controller, k, ram_write_op(info)).0,
                save,
            );
            &&& out == Seq::<u8>::empty()
            &&& c1.ram.len() == info.ram_size
            &&& c1.ram.take(k * ram_chunk(info.ram_size)) == save.take(k * ram_chunk(info.ram_size))
        }),
    decreases k,
{
    let mc = info.mem_controller;
    let chunk = ram_chunk(info.ram_size) as int;
    let op = ram_write_op(info);
    if k == 0 {
        assert(ram_bank_ops(mc, 0, op).0 =~= Seq::<GbOp>::empty());
        assert(ram_cart_run(c, Seq::<GbOp>::empty(), save) == (c, Seq::<u8>::empty()));
        assert(k * ram_chunk(info.ram_size) == 0) by (nonlinear_arith)
            requires
                k == 0,
        ;
        assert(c.ram.take(0) =~= save.take(0));
    } else {
        let b = (k - 1) as nat;
        lemma_ram_write_banks(info, b, c, save);
        lemma_ram_layout_bank(info, b);
        let p = ram_bank_ops(mc, b, op).0;
        let (cp, op_out) = ram_cart_run(c, p, save);
        lemma_ram_switch_selects(mc, b as u16, cp, save);
        let w = write_ops(bank_switch_spec(mc, Memory::Ram, b as u16)->Ok_0);
        let tail = seq![op(b)];
        assert(ram_bank_ops(mc, k, op).0 == p + w + tail);
        lemma_ram_cart_run_append(c, p + w, tail, save);
        lemma_ram_cart_run_append(c, p, w, save);
        let (cw, ow) = ram_cart_run(cp, w, save);
        lemma_ram_cart_run_one(cw, op(b), save);
        assert(b * chunk + chunk == k * chunk) by (nonlinear_arith)
            requires
                k == b + 1,
        ;
        let seg = save.subrange((b * RAM_BANK_SIZE) as int, (b * RAM_BANK_SIZE + chunk) as int);
        let ram2 = splice(cp.ram, cw.bank * RAM_BANK_SIZE, seg);
        assert(ram_cart_run(c, ram_bank_ops(mc, k, op).0, save).0.ram == ram2);
        if chunk > 0 {
            assert(cw.bank == b);
            assert(b * RAM_BANK_SIZE == b * chunk);
            assert(k * chunk <= save.len());
            assert(seg.len() == chunk);
            assert(ram2.take(k * chunk) =~= save.take(k * chunk)) by {
                assert forall|x: int| 0 <= x < k * chunk implies ram2[x] == save[x] by {
                    if x < b * chunk {
                        assert(cp.ram.take(b * chunk)[x] == save.take(b * chunk)[x]);
                    } else {
                        assert(seg[x - b * chunk] == save[x]);
                    }
                }
            }
        } else {
            assert(k * chunk == 0);
            assert(ram2.take(0) =~= save.take(0));
        }
        assert(Seq::<u8>::empty() + Seq::<u8>::empty() + Seq::<u8>::empty() =~= Seq::<u8>::empty());
        let (ct, ot) = ram_cart_apply(cw, op(b), save);
        assert(ot == Seq::<u8>::empty());
        assert(ow == Seq::<u8>::empty());
        let (c1, out) = ram_cart_run(c, ram_bank_ops(mc, k, op).0, save);
        assert(c1 == ct);
        assert(out == op_out + ow + ot);
        assert(out =~= Seq::<u8>::empty());
        assert(c1.ram == ram2);
        assert(c1.ram.len() == info.ram_size);
        assert(c1.ram.take(k * ram_chunk(info.ram_size)) =~= save.take(k * ram_chunk(info.ram_size)));
    }
}

proof fn lemma_ram_read_banks(info: HeaderInfo, k: nat, c: RamCart, src: Seq<u8>)
    requires
        ram_layout_exact(info),
        k <= info.ram_banks,
        c.ram.len() == info.ram_size,
    ensures
        ram_bank_ops(info.mem_controller, k, ram_read_op(info)).1 is None,
        ({
            let (c1, out) = ram_cart_run(
                c,
                ram_bank_ops(info.mem_controller, k, ram_read_op(info)).0,
                src,
            );
            &&& c1.ram == c.ram
            &&& out == c.ram.take(k * ram_chunk(info.ram_size))
        }),
    decreases k,
{
    let mc = info.mem_controller;
    let chunk = ram_chunk(info.ram_size) as int;
    let op = ram_read_op(info);
    if k == 0 {
        assert(ram_bank_ops(mc, 0, op).0 =~= Seq::<GbOp>::empty());
        assert(ram_cart_run(c, Seq::<GbOp>::empty(), src) == (c, Seq::<u8>::empty()));
        assert(c.ram.take(0) =~= Seq::<u8>::empty());
    } else {
        let b = (k - 1) as nat;
        lemma_ram_read_banks(info, b, c, src);
        lemma_ram_layout_bank(info, b);
        let p = ram_bank_ops(mc, b, op).0;
        let (cp, op_out) = ram_cart_run(c, p, src);
        lemma_ram_switch_selects(mc, b as u16, cp, src);
        let w = write_ops(bank_switch_spec(mc, Memory::Ram, b as u16)->Ok_0);
        let tail = seq![op(b)];
        assert(ram_bank_ops(mc, k, op).0 == p + w + tail);
        lemma_ram_cart_run_append(c, p + w, tail, src);
        lemma_ram_cart_run_append(c, p, w, src);
        let (cw, ow) = ram_cart_run(cp, w, src);
        lemma_ram_cart_run_one(cw, op(b), src);
        assert(b * chunk + chunk == k * chunk) by (nonlinear_arith)
            requires
                k == b + 1,
        ;
        let (ct, ot) = ram_cart_apply(cw, op(b), src);
        assert(ct == cw);
        assert(ow == Seq::<u8>::empty());
        assert(cw.ram == c.ram);
        assert(op_out == c.ram.take(b * chunk));
        assert(ot.len() == chunk);
        if chunk > 0 {
            assert(cw.bank == b);
            assert(cw.bank * RAM_BANK_SIZE == b * chunk);
        }
        assert(ot =~= c.ram.subrange(b * chunk, b * chunk + chunk));
        assert(op_out + ow + ot =~= c.ram.take(k * chunk));
        let (c1, out) = ram_cart_run(c, ram_bank_ops(mc, k, op).0, src);
        assert(c1 == ct);
        assert(out == op_out + ow + ot);
    }
}

/// A save written to cartridge RAM reads back unchanged: on a cartridge that
/// behaves as its RAM bank register says, running the requests of
/// `gb_write_ram_plan` for a save of the RAM's size leaves exactly the save in
/// RAM, and the requests of `gb_read_plan` for the RAM then read exactly the save.
pub proof fn lemma_ram_write_then_read(info: HeaderInfo, save: Seq<u8>, c: RamCart)
    requires
        ram_layout_exact(info),
        save.len() == info.ram_size,
        c.ram.len() == info.ram_size,
    ensures
        ({
            let w = ram_session(
                ram_bank_ops(info.mem_controller, info.ram_banks as nat, ram_write_op(info)),
            );
            let r = gb_read_plan_spec(info, Memory::Ram);
            let c1 = ram_cart_run(c, w.0, save).0;
            &&& w.1 is None
            &&& r.1 is None
            &&& c1.ram == save
            &&& ram_cart_run(c1, r.0, Seq::<u8>::empty()).1 == save
        }),
{
    let mc = info.mem_controller;
    let n = info.ram_banks as nat;
    let chunk = ram_chunk(info.ram_size) as int;
    let enable = seq![GbOp::Write { addr: RAM_ENABLE.0, data: RAM_ENABLE.1 }];
    let disable = seq![GbOp::Write { addr: RAM_DISABLE.0, data: RAM_DISABLE.1 }];
    lemma_ram_cart_run_one(c, enable[0], save);
    let (cw, ow) = ram_cart_run(c, enable, save);
    lemma_ram_write_banks(info, n, cw, save);
    let body = ram_bank_ops(mc, n, ram_write_op(info)).0;
    lemma_ram_cart_run_append(c, enable + body, disable, save);
    lemma_ram_cart_run_append(c, enable, body, save);
    let (cb, ob) = ram_cart_run(cw, body, save);
    lemma_ram_cart_run_one(cb, disable[0], save);
    let c1 = ram_cart_run(c, enable + body + disable, save).0;
    assert(c1.ram == cb.ram);
    assert(cb.ram =~= save) by {
        assert(cb.ram.take(n * chunk) =~= cb.ram);
        assert(save.take(n * chunk) =~= save);
    }
    let rbody = ram_bank_ops(mc, n, ram_read_op(info)).0;
    let e = Seq::<u8>::empty();
    lemma_ram_cart_run_one(c1, enable[0], e);
    let (cr, _) = ram_cart_run(c1, enable, e);
    lemma_ram_read_banks(info, n, cr, e);
    lemma_ram_cart_run_append(c1, enable + rbody, disable, e);
    lemma_ram_cart_run_append(c1, enable, rbody, e);
    let (crb, orb) = ram_cart_run(cr, rbody, e);
    lemma_ram_cart_run_one(crb, disable[0], e);
    assert(cr.ram.take(n * chunk) =~= save);
    assert(e + orb + e =~= save);
}

} // verus!
