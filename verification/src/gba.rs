//! Reading Game Boy Advance cartridges: guessing the ROM size, the chunked
//! reads of a ROM, and the bus sequences of the flash chip.
use vstd::prelude::*;

use crate::command::FlashType;
use crate::utils::{ceil_div, div_round_up, lemma_ceil_div_bounds};

verus! {

/// Bytes in a mebibyte.
pub const MIB: u32 = 0x10_0000;

/// Number of bytes read at each probe address.
pub const GBA_PROBE_LEN: u16 = 8;

/// Number of probes made while guessing the ROM size.
pub const GBA_PROBE_COUNT: usize = 8;

/// What reads back past the end of a GBA ROM: the bus repeats its address pattern.
pub open spec fn gba_open_bus() -> Seq<u8> {
    seq![0x00u8, 0x20u8, 0x00u8, 0x20u8, 0x00u8, 0x20u8, 0x00u8, 0x20u8]
}

/// The ROM size, in MiB, that probe `k` tests: 32, 16, 8, 4, two probes each.
pub open spec fn gba_probe_size(k: nat) -> u32 {
    if k / 2 == 0 {
        32
    } else if k / 2 == 1 {
        16
    } else if k / 2 == 2 {
        8
    } else {
        4
    }
}

/// The address probe `k` reads: the last 8 bytes of the tested size, and for
/// the second probe of each size, of three quarters of it.
pub open spec fn gba_probe_addr(k: nat) -> u32 {
    let size = gba_probe_size(k);
    let end = if k % 2 == 0 {
        size
    } else {
        (size - size / 4) as u32
    };
    (end * MIB - GBA_PROBE_LEN) as u32
}

/// The size tested by probe `k`, in MiB, and the address to read 8 bytes from.
pub fn gba_size_probe(k: usize) -> (r: (u32, u32))
    requires
        k < GBA_PROBE_COUNT,
    ensures
        r == (gba_probe_size(k as nat), gba_probe_addr(k as nat)),
{
    let size: u32 = if k / 2 == 0 {
        32
    } else if k / 2 == 1 {
        16
    } else if k / 2 == 2 {
        8
    } else {
        4
    };
    let end = if k % 2 == 0 {
        size
    } else {
        size - size / 4
    };
    (size, end * MIB - GBA_PROBE_LEN as u32)
}

/// What one probe tells.
#[derive(Debug, Clone, Copy, PartialEq, Eq)]
pub enum SizeGuess {
    /// The ROM is this many MiB.
    Found(u32),
    /// Make probe number `k` next.
    Probe(usize),
    /// Every probe read open bus.
    NotFound,
}

/// What `gba_guess_step` returns after probe `k` read `buf`.
pub open spec fn gba_guess_step_spec(k: nat, buf: Seq<u8>) -> SizeGuess {
    if buf != gba_open_bus() {
        SizeGuess::Found(gba_probe_size(k))
    } else if k + 1 < GBA_PROBE_COUNT {
        SizeGuess::Probe((k + 1) as usize)
    } else {
        SizeGuess::NotFound
    }
}

/// Takes what probe `k` read: anything but open bus means the ROM reaches
/// that far, so the size it tests is the answer; otherwise try the next probe.
pub fn gba_guess_step(k: usize, buf: &[u8]) -> (r: SizeGuess)
    requires
        k < GBA_PROBE_COUNT,
    ensures
        r == gba_guess_step_spec(k as nat, buf@),
{
    let open_bus = buf.len() == 8 && buf[0] == 0x00 && buf[1] == 0x20 && buf[2] == 0x00 && buf[3]
        == 0x20 && buf[4] == 0x00 && buf[5] == 0x20 && buf[6] == 0x00 && buf[7] == 0x20;
    proof {
        if open_bus {
            assert(buf@ =~= gba_open_bus());
        } else if buf@.len() == 8 {
            assert(buf@ != gba_open_bus()) by {
                if buf@ == gba_open_bus() {
                    assert(buf@[0] == 0x00 && buf@[1] == 0x20 && buf@[2] == 0x00 && buf@[3] == 0x20);
                    assert(buf@[4] == 0x00 && buf@[5] == 0x20 && buf@[6] == 0x00 && buf@[7] == 0x20);
                }
            }
        }
    }
    if !open_bus {
        let (size, _) = gba_size_probe(k);
        SizeGuess::Found(size)
    } else if k + 1 < GBA_PROBE_COUNT {
        SizeGuess::Probe(k + 1)
    } else {
        SizeGuess::NotFound
    }
}

/// The guess is never larger than what the probe that found it tested, and
/// probes test sizes in decreasing order, so the first probe that reads
/// anything but open bus names the largest size that shows data.
pub proof fn lemma_gba_probes_descend(j: nat, k: nat)
    requires
        j <= k < GBA_PROBE_COUNT,
    ensures
        gba_probe_size(j) >= gba_probe_size(k),
        gba_probe_addr(k) as nat + GBA_PROBE_LEN <= gba_probe_size(k) as nat * MIB,
{
}

/// Size of each read chunk of a GBA ROM.
pub const GBA_READ_CHUNK: u16 = 0x4000;

/// The addresses of the chunked reads of a ROM of `size_mb` MiB: every
/// multiple of the chunk size below the ROM size.
pub fn gba_read_plan(size_mb: u32) -> (r: Vec<u32>)
    requires
        size_mb * MIB <= u32::MAX,
    ensures
        r@.len() == ceil_div(size_mb * MIB, GBA_READ_CHUNK as int),
        forall|k: int| 0 <= k < r@.len() ==> r@[k] == k * GBA_READ_CHUNK,
        forall|k: int| 0 <= k < r@.len() ==> r@[k] < size_mb * MIB,
{
    let n: u32 = size_mb * MIB;
    let count = div_round_up(n as usize, GBA_READ_CHUNK as usize);
    let mut out: Vec<u32> = Vec::new();
    let mut k: usize = 0;
    proof {
        lemma_ceil_div_bounds(n as int, GBA_READ_CHUNK as int);
    }
    while k < count
        invariant
            k <= count,
            count == ceil_div(n as int, GBA_READ_CHUNK as int),
            count * GBA_READ_CHUNK < n + GBA_READ_CHUNK,
            n == size_mb * MIB,
            out@.len() == k,
            forall|j: int| 0 <= j < k ==> out@[j] == j * GBA_READ_CHUNK,
        decreases count - k,
    {
        assert(k * GBA_READ_CHUNK < n) by (nonlinear_arith)
            requires
                k < count,
                count * GBA_READ_CHUNK < n + GBA_READ_CHUNK,
        ;
        let addr = (k as u32) * (GBA_READ_CHUNK as u32);
        out.push(addr);
        k = k + 1;
    }
    assert forall|j: int| 0 <= j < out@.len() implies out@[j] < size_mb * MIB by {
        assert(j * GBA_READ_CHUNK < n) by (nonlinear_arith)
            requires
                0 <= j < count,
                count * GBA_READ_CHUNK < n + GBA_READ_CHUNK,
        ;
    }
    out
}

/// The 16-bit word that two little-endian bytes spell.
pub fn gba_word_from_bytes(buf: &[u8]) -> (r: u16)
    requires
        buf@.len() >= 2,
    ensures
        r == buf@[0] as nat + 256 * buf@[1] as nat,
{
    buf[0] as u16 + 256 * buf[1] as u16
}

/// The bus writes that unlock the flash sector at `sector` on a chip of kind `flash_type`.
pub fn gba_flash_unlock_writes(flash_type: FlashType, sector: u32) -> (r: Vec<(u32, u16)>)
    ensures
        r@ == seq![(sector, 0xffu16), (sector, 0x60u16), (sector, 0xd0u16), (sector, 0x90u16)],
{
    match flash_type {
        FlashType::F3 => {
            let r = vec![(sector, 0xffu16), (sector, 0x60u16), (sector, 0xd0u16), (sector, 0x90u16)];
            assert(r@ =~= seq![(sector, 0xffu16), (sector, 0x60u16), (sector, 0xd0u16), (sector, 0x90u16)]);
            r
        },
    }
}

/// The bus writes that start erasing the flash sector at `sector`.
pub fn gba_flash_erase_writes(flash_type: FlashType, sector: u32) -> (r: Vec<(u32, u16)>)
    ensures
        r@ == seq![(sector, 0xffu16), (sector, 0x20u16), (sector, 0xd0u16)],
{
    match flash_type {
        FlashType::F3 => {
            let r = vec![(sector, 0xffu16), (sector, 0x20u16), (sector, 0xd0u16)];
            assert(r@ =~= seq![(sector, 0xffu16), (sector, 0x20u16), (sector, 0xd0u16)]);
            r
        },
    }
}

/// The write that returns the flash chip at `sector` to read mode.
pub fn gba_flash_read_mode_write(sector: u32) -> (r: (u32, u16))
    ensures
        r == (sector, 0xffu16),
{
    (sector, 0xff)
}

/// Whether the status word polled during a sector erase says it is done.
pub fn gba_erase_done(status: u16) -> (r: bool)
    ensures
        r == (status == 0x80),
{
    status == 0x80
}

} // verus!
