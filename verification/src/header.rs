//! The Game Boy cartridge header: the memory controller, the ROM and RAM
//! sizes, and the two checksums, read from the first ROM bank.
use vstd::prelude::*;

verus! {

/// Size in bytes of one switchable ROM bank.
pub const ROM_BANK_SIZE: u16 = 0x4000;

/// Size in bytes of one switchable cartridge RAM bank.
pub const RAM_BANK_SIZE: u16 = 0x2000;

/// Offset of the cartridge type byte.
pub const CART_TYPE_ADDR: usize = 0x147;

/// Offset of the ROM size code.
pub const ROM_SIZE_ADDR: usize = 0x148;

/// Offset of the RAM size code.
pub const RAM_SIZE_ADDR: usize = 0x149;

/// Offset of the header checksum byte.
pub const HEADER_CHECKSUM_ADDR: usize = 0x14d;

/// Offset of the high byte of the global checksum; the low byte follows it.
pub const GLOBAL_CHECKSUM_ADDR: usize = 0x14e;

/// Length of the header area, counted from the start of the ROM.
pub const HEADER_END: usize = 0x150;

/// The memory bank controller of a cartridge.
#[derive(Debug, Clone, Copy, PartialEq, Eq)]
pub enum MemController {
    /// No controller: a single 32 KiB ROM, possibly with RAM.
    RomOnly,
    Mbc1,
    Mbc2,
    Mmm01,
    Mbc3,
    Mbc5,
    Mbc6,
    Mbc7,
    PocketCamera,
    BandaiTama5,
    HuC3,
    HuC1,
}

/// What the header says of a cartridge.
#[derive(Debug, Clone, Copy, PartialEq, Eq)]
pub struct HeaderInfo {
    pub mem_controller: MemController,
    pub rom_banks: u16,
    pub ram_size: usize,
    pub ram_banks: u16,
    pub checksum: u8,
    pub global_checksum: u16,
}

/// Why a header could not be read.
#[derive(Debug, Clone, Copy, PartialEq, Eq)]
pub enum HeaderError {
    /// Fewer bytes than the header spans.
    TooShort { len: usize },
    UnknownCartridgeType(u8),
    UnknownRomSize(u8),
    UnknownRamSize(u8),
}

/// Why the first ROM bank was refused.
#[derive(Debug, Clone, Copy, PartialEq, Eq)]
pub enum LoadInfoError {
    Parse(HeaderError),
    /// The header checksum stored in the header differs from the one computed over it.
    ChecksumMismatch { stored: u8, computed: u8 },
}

/// The controller named by a cartridge type code.
pub open spec fn mem_controller_of(code: u8) -> Option<MemController> {
    if code == 0x00 || code == 0x08 || code == 0x09 {
        Some(MemController::RomOnly)
    } else if 0x01 <= code <= 0x03 {
        Some(MemController::Mbc1)
    } else if code == 0x05 || code == 0x06 {
        Some(MemController::Mbc2)
    } else if 0x0b <= code <= 0x0d {
        Some(MemController::Mmm01)
    } else if 0x0f <= code <= 0x13 {
        Some(MemController::Mbc3)
    } else if 0x19 <= code <= 0x1e {
        Some(MemController::Mbc5)
    } else if code == 0x20 {
        Some(MemController::Mbc6)
    } else if code == 0x22 {
        Some(MemController::Mbc7)
    } else if code == 0xfc {
        Some(MemController::PocketCamera)
    } else if code == 0xfd {
        Some(MemController::BandaiTama5)
    } else if code == 0xfe {
        Some(MemController::HuC3)
    } else if code == 0xff {
        Some(MemController::HuC1)
    } else {
        None
    }
}

/// The number of ROM banks named by a ROM size code: 32 KiB shifted left by the code.
pub open spec fn rom_banks_of(code: u8) -> Option<u16> {
    if code <= 8 {
        Some((2 * pow2_nat(code as nat)) as u16)
    } else {
        None
    }
}

/// `2` to the power `n`.
pub open spec fn pow2_nat(n: nat) -> nat
    decreases n,
{
    if n == 0 {
        1
    } else {
        2 * pow2_nat((n - 1) as nat)
    }
}

/// The RAM size in bytes and the number of RAM banks named by a RAM size code.
pub open spec fn ram_of(code: u8) -> Option<(usize, u16)> {
    if code == 0 {
        Some((0, 0))
    } else if code == 1 {
        Some((0x800, 1))
    } else if code == 2 {
        Some((0x2000, 1))
    } else if code == 3 {
        Some((0x8000, 4))
    } else if code == 4 {
        Some((0x20000, 16))
    } else if code == 5 {
        Some((0x10000, 8))
    } else {
        None
    }
}

/// The header read from the first bytes of a ROM.
pub open spec fn parse_header_spec(s: Seq<u8>) -> Result<HeaderInfo, HeaderError> {
    if s.len() < HEADER_END {
        Err(HeaderError::TooShort { len: s.len() as usize })
    } else if mem_controller_of(s[CART_TYPE_ADDR as int]) is None {
        Err(HeaderError::UnknownCartridgeType(s[CART_TYPE_ADDR as int]))
    } else if rom_banks_of(s[ROM_SIZE_ADDR as int]) is None {
        Err(HeaderError::UnknownRomSize(s[ROM_SIZE_ADDR as int]))
    } else if ram_of(s[RAM_SIZE_ADDR as int]) is None {
        Err(HeaderError::UnknownRamSize(s[RAM_SIZE_ADDR as int]))
    } else {
        Ok(
            HeaderInfo {
                mem_controller: mem_controller_of(s[CART_TYPE_ADDR as int])->0,
                rom_banks: rom_banks_of(s[ROM_SIZE_ADDR as int])->0,
                ram_size: (ram_of(s[RAM_SIZE_ADDR as int])->0).0,
                ram_banks: (ram_of(s[RAM_SIZE_ADDR as int])->0).1,
                checksum: s[HEADER_CHECKSUM_ADDR as int],
                global_checksum: (s[GLOBAL_CHECKSUM_ADDR as int] as nat * 256 + s[GLOBAL_CHECKSUM_ADDR
                    + 1] as nat) as u16,
            },
        )
    }
}

/// Sum of `s[lo..hi]`.
pub open spec fn byte_sum(s: Seq<u8>, lo: int, hi: int) -> int
    decreases hi - lo,
{
    if hi <= lo {
        0
    } else {
        byte_sum(s, lo, hi - 1) + s[hi - 1]
    }
}

/// The header checksum: starting from 0, subtract each byte of
/// `0x134..=0x14c` and one more for each, modulo 256.
pub open spec fn header_checksum_spec(s: Seq<u8>) -> u8 {
    ((-(byte_sum(s, 0x134, 0x14d) + 25)) % 256) as u8
}

/// Sum of the bytes of `s[0..hi]` except the two global checksum bytes.
pub open spec fn sum_outside_checksum(s: Seq<u8>, hi: int) -> int
    decreases hi,
{
    if hi <= 0 {
        0
    } else if hi - 1 == GLOBAL_CHECKSUM_ADDR || hi - 1 == GLOBAL_CHECKSUM_ADDR + 1 {
        sum_outside_checksum(s, hi - 1)
    } else {
        sum_outside_checksum(s, hi - 1) + s[hi - 1]
    }
}

/// The global checksum: the sum of every ROM byte except the two bytes that
/// store it, modulo `0x10000`.
pub open spec fn global_checksum_spec(s: Seq<u8>) -> u16 {
    (sum_outside_checksum(s, s.len() as int) % 0x10000) as u16
}

fn mem_controller_from_code(code: u8) -> (r: Option<MemController>)
    ensures
        r == mem_controller_of(code),
{
    if code == 0x00 || code == 0x08 || code == 0x09 {
        Some(MemController::RomOnly)
    } else if 0x01 <= code && code <= 0x03 {
        Some(MemController::Mbc1)
    } else if code == 0x05 || code == 0x06 {
        Some(MemController::Mbc2)
    } else if 0x0b <= code && code <= 0x0d {
        Some(MemController::Mmm01)
    } else if 0x0f <= code && code <= 0x13 {
        Some(MemController::Mbc3)
    } else if 0x19 <= code && code <= 0x1e {
        Some(MemController::Mbc5)
    } else if code == 0x20 {
        Some(MemController::Mbc6)
    } else if code == 0x22 {
        Some(MemController::Mbc7)
    } else if code == 0xfc {
        Some(MemController::PocketCamera)
    } else if code == 0xfd {
        Some(MemController::BandaiTama5)
    } else if code == 0xfe {
        Some(MemController::HuC3)
    } else if code == 0xff {
        Some(MemController::HuC1)
    } else {
        None
    }
}

fn rom_banks_from_code(code: u8) -> (r: Option<u16>)
    ensures
        r == rom_banks_of(code),
{
    if code <= 8 {
        let mut banks: u16 = 2;
        let mut k: u8 = 0;
        while k < code
            invariant
                k <= code <= 8,
                banks == 2 * pow2_nat(k as nat),
            decreases code - k,
        {
            proof {
                assert(pow2_nat((k + 1) as nat) == 2 * pow2_nat(k as nat));
                lemma_pow2_bound(k as nat);
            }
            banks = banks * 2;
            k = k + 1;
        }
        Some(banks)
    } else {
        None
    }
}

proof fn lemma_pow2_bound(n: nat)
    requires
        n <= 8,
    ensures
        pow2_nat(n) <= 256,
{
    reveal_with_fuel(pow2_nat, 9);
}

fn ram_from_code(code: u8) -> (r: Option<(usize, u16)>)
    ensures
        r == ram_of(code),
{
    if code == 0 {
        Some((0, 0))
    } else if code == 1 {
        Some((0x800, 1))
    } else if code == 2 {
        Some((0x2000, 1))
    } else if code == 3 {
        Some((0x8000, 4))
    } else if code == 4 {
        Some((0x20000, 16))
    } else if code == 5 {
        Some((0x10000, 8))
    } else {
        None
    }
}

/// Reads the header from the first bytes of a ROM.
pub fn parse_header(bank0: &[u8]) -> (r: Result<HeaderInfo, HeaderError>)
    ensures
        r == parse_header_spec(bank0@),
{
    if bank0.len() < HEADER_END {
        return Err(HeaderError::TooShort { len: bank0.len() });
    }
    let cart = bank0[CART_TYPE_ADDR];
    let rom_code = bank0[ROM_SIZE_ADDR];
    let ram_code = bank0[RAM_SIZE_ADDR];
    let mem_controller = match mem_controller_from_code(cart) {
        Some(mc) => mc,
        None => return Err(HeaderError::UnknownCartridgeType(cart)),
    };
    let rom_banks = match rom_banks_from_code(rom_code) {
        Some(b) => b,
        None => return Err(HeaderError::UnknownRomSize(rom_code)),
    };
    let (ram_size, ram_banks) = match ram_from_code(ram_code) {
        Some(r) => r,
        None => return Err(HeaderError::UnknownRamSize(ram_code)),
    };
    let hi = bank0[GLOBAL_CHECKSUM_ADDR] as u16;
    let lo = bank0[GLOBAL_CHECKSUM_ADDR + 1] as u16;
    Ok(
        HeaderInfo {
            mem_controller,
            rom_banks,
            ram_size,
            ram_banks,
            checksum: bank0[HEADER_CHECKSUM_ADDR],
            global_checksum: hi * 256 + lo,
        },
    )
}

/// Computes the header checksum over `0x134..=0x14c`.
pub fn header_checksum(bank0: &[u8]) -> (r: u8)
    requires
        bank0@.len() >= HEADER_CHECKSUM_ADDR,
    ensures
        r == header_checksum_spec(bank0@),
{
    let mut acc: u32 = 0;
    let mut a: usize = 0x134;
    while a < HEADER_CHECKSUM_ADDR
        invariant
            0x134 <= a <= HEADER_CHECKSUM_ADDR,
            bank0@.len() >= HEADER_CHECKSUM_ADDR,
            acc == byte_sum(bank0@, 0x134, a as int) + (a - 0x134),
            acc <= (a - 0x134) * 256,
        decreases HEADER_CHECKSUM_ADDR - a,
    {
        acc = acc + bank0[a] as u32 + 1;
        a = a + 1;
    }
    proof {
        vstd::arithmetic::div_mod::lemma_mod_multiples_vanish(25, -(acc as int), 256);
    }
    ((6400 - acc) % 256) as u8
}

/// Computes the global checksum of a whole ROM.
pub fn global_checksum(rom: &[u8]) -> (r: u16)
    ensures
        r == global_checksum_spec(rom@),
{
    let mut acc: u32 = 0;
    let mut k: usize = 0;
    while k < rom.len()
        invariant
            k <= rom@.len(),
            acc < 0x10000,
            acc == sum_outside_checksum(rom@, k as int) % 0x10000,
        decreases rom@.len() - k,
    {
        if k != GLOBAL_CHECKSUM_ADDR && k != GLOBAL_CHECKSUM_ADDR + 1 {
            let b = rom[k];
            proof {
                let prev = sum_outside_checksum(rom@, k as int);
                vstd::arithmetic::div_mod::lemma_add_mod_noop(prev, b as int, 0x10000);
                vstd::arithmetic::div_mod::lemma_small_mod(b as nat, 0x10000);
                vstd::arithmetic::div_mod::lemma_mod_twice(prev + b, 0x10000);
            }
            acc = (acc + b as u32) % 0x10000;
        }
        k = k + 1;
    }
    acc as u16
}

/// Whether a ROM read from a cartridge carries the global checksum its header names.
pub fn rom_checksum_ok(info: &HeaderInfo, rom: &[u8]) -> (r: bool)
    ensures
        r == (info.global_checksum == global_checksum_spec(rom@)),
{
    global_checksum(rom) == info.global_checksum
}

/// Reads the header from the first ROM bank and checks its header checksum.
pub fn load_info(bank0: &[u8]) -> (r: Result<HeaderInfo, LoadInfoError>)
    ensures
        r == load_info_spec(bank0@),
{
    let info = match parse_header(bank0) {
        Ok(info) => info,
        Err(e) => return Err(LoadInfoError::Parse(e)),
    };
    let computed = header_checksum(bank0);
    if info.checksum != computed {
        return Err(LoadInfoError::ChecksumMismatch { stored: info.checksum, computed });
    }
    Ok(info)
}

/// The first ROM bank of an image: its first `ROM_BANK_SIZE` bytes, or all of
/// it when it is shorter.
pub fn rom_bank0(rom: &[u8]) -> (r: Vec<u8>)
    ensures
        r@ == rom@.subrange(
            0,
            if rom@.len() < ROM_BANK_SIZE {
                rom@.len() as int
            } else {
                ROM_BANK_SIZE as int
            },
        ),
{
    let n = if rom.len() < ROM_BANK_SIZE as usize {
        rom.len()
    } else {
        ROM_BANK_SIZE as usize
    };
    let mut out: Vec<u8> = Vec::new();
    let mut k: usize = 0;
    while k < n
        invariant
            k <= n <= rom@.len(),
            out@ == rom@.subrange(0, k as int),
        decreases n - k,
    {
        out.push(rom[k]);
        k = k + 1;
        assert(out@ =~= rom@.subrange(0, k as int));
    }
    out
}

/// Reads and checks the header of a ROM image, as done before writing the
/// image to a cartridge; returns the first bank together with the header.
pub fn info_from_rom(rom: &[u8]) -> (r: Result<(Vec<u8>, HeaderInfo), LoadInfoError>)
    ensures
        r matches Ok((bank0, info)) ==> bank0@ == rom@.subrange(
            0,
            if rom@.len() < ROM_BANK_SIZE {
                rom@.len() as int
            } else {
                ROM_BANK_SIZE as int
            },
        ) && load_info_spec(bank0@) == Ok::<HeaderInfo, LoadInfoError>(info),
        r matches Err(e) ==> load_info_spec(
            rom@.subrange(
                0,
                if rom@.len() < ROM_BANK_SIZE {
                    rom@.len() as int
                } else {
                    ROM_BANK_SIZE as int
                },
            ),
        ) == Err::<HeaderInfo, LoadInfoError>(e),
{
    let bank0 = rom_bank0(rom);
    match load_info(bank0.as_slice()) {
        Ok(info) => Ok((bank0, info)),
        Err(e) => Err(e),
    }
}

/// What `load_info` returns for the first ROM bank `s`.
pub open spec fn load_info_spec(s: Seq<u8>) -> Result<HeaderInfo, LoadInfoError> {
    match parse_header_spec(s) {
        Err(e) => Err(LoadInfoError::Parse(e)),
        Ok(info) => if info.checksum == header_checksum_spec(s) {
            Ok(info)
        } else {
            Err(
                LoadInfoError::ChecksumMismatch {
                    stored: info.checksum,
                    computed: header_checksum_spec(s),
                },
            )
        },
    }
}

/// The global checksum does not depend on the two bytes that store it: two
/// images that differ only there have the same global checksum.
pub proof fn lemma_global_checksum_ignores_its_bytes(a: Seq<u8>, b: Seq<u8>)
    requires
        a.len() == b.len(),
        forall|k: int|
            0 <= k < a.len() && k != GLOBAL_CHECKSUM_ADDR && k != GLOBAL_CHECKSUM_ADDR + 1 ==> a[k]
                == b[k],
    ensures
        global_checksum_spec(a) == global_checksum_spec(b),
{
    lemma_sum_outside_checksum_agree(a, b, a.len() as int);
}

proof fn lemma_sum_outside_checksum_agree(a: Seq<u8>, b: Seq<u8>, hi: int)
    requires
        hi <= a.len() == b.len(),
        forall|k: int|
            0 <= k < a.len() && k != GLOBAL_CHECKSUM_ADDR && k != GLOBAL_CHECKSUM_ADDR + 1 ==> a[k]
                == b[k],
    ensures
        sum_outside_checksum(a, hi) == sum_outside_checksum(b, hi),
    decreases hi,
{
    if hi > 0 {
        lemma_sum_outside_checksum_agree(a, b, hi - 1);
    }
}

/// The header checksum covers only the bytes `0x134..=0x14c`: two images that
/// agree there have the same header checksum.
pub proof fn lemma_header_checksum_range(a: Seq<u8>, b: Seq<u8>)
    requires
        a.len() >= HEADER_CHECKSUM_ADDR,
        b.len() >= HEADER_CHECKSUM_ADDR,
        forall|k: int| 0x134 <= k < HEADER_CHECKSUM_ADDR ==> a[k] == b[k],
    ensures
        header_checksum_spec(a) == header_checksum_spec(b),
{
    lemma_byte_sum_agree(a, b, 0x134, HEADER_CHECKSUM_ADDR as int);
}

proof fn lemma_byte_sum_agree(a: Seq<u8>, b: Seq<u8>, lo: int, hi: int)
    requires
        forall|k: int| lo <= k < hi ==> a[k] == b[k],
    ensures
        byte_sum(a, lo, hi) == byte_sum(b, lo, hi),
    decreases hi - lo,
{
    if hi > lo {
        lemma_byte_sum_agree(a, b, lo, hi - 1);
    }
}

} // verus!
