//! Writing a ROM image to a Game Boy Advance flash cartridge, sector by sector.
//!
//! The procedure alternates device requests with decisions, so it is written
//! as a machine: `gba_flash_start` checks the image and names the first
//! request, and `gba_flash_step` takes the device's answer to the last request
//! and names the next one, until the machine reports `Finished` or `Failed`.
use vstd::prelude::*;

use crate::bytes::{range_all, ranges_equal};

verus! {

/// Size in bytes of one flash sector of a GBA cartridge.
pub const GBA_SECTOR_SIZE: usize = 0x8000;

/// How many times a sector is written and read back before giving up.
pub const GBA_WRITE_ATTEMPTS: usize = 4;

/// Why writing a ROM image to a GBA cartridge stopped.
#[derive(Debug, Clone, Copy, PartialEq, Eq)]
pub enum GbaFlashError {
    /// The image length is not a multiple of the sector size.
    RomNotSectorAligned { len: usize },
    /// The image to compare against has another length than the image to write.
    DiffLengthMismatch { diff_len: usize, rom_len: usize },
    /// The device could not unlock the sector at this address.
    UnlockFailed { sector: u32 },
    /// The device could not erase the sector at this address.
    EraseFailed { sector: u32 },
    /// The device reported a failed write at this address.
    WriteFailed { addr: u32 },
    /// The sector at this address still read back wrong after every attempt.
    VerifyFailed { sector: u32 },
}

/// The request the machine waits on an answer for.
#[derive(Debug, Clone, Copy, PartialEq, Eq)]
pub enum GbaFlashStage {
    Unlock,
    Erase,
    Write,
    Verify,
    Done,
}

/// Progress through the image: the sector being worked on, how many write
/// attempts on it came before the current one, and the pending request.
#[derive(Debug, Clone, Copy, PartialEq, Eq)]
pub struct GbaFlash {
    pub sector_index: usize,
    pub attempt: usize,
    pub stage: GbaFlashStage,
}

/// What the caller does next with the device.
#[derive(Debug, Clone, Copy, PartialEq, Eq)]
pub enum GbaFlashAction {
    /// Unlock the sector at this address.
    Unlock { sector: u32 },
    /// Erase the sector at this address.
    Erase { sector: u32 },
    /// Write `rom[start..end]` to the sector at this address.
    Write { sector: u32, start: usize, end: usize },
    /// Read `len` bytes back from the sector at this address.
    ReadBack { sector: u32, len: u16 },
    /// Every sector is written and checked, or needed no write.
    Finished,
    /// The procedure stopped with this error.
    Failed(GbaFlashError),
}

/// The device's answer to the last request.
pub enum GbaFlashEvent {
    Unlocked(bool),
    Erased(bool),
    /// `None` on success, else the address at which the write failed.
    Written(Option<u32>),
    ReadBack(Vec<u8>),
}

/// Number of sectors in an image of `len` bytes.
pub open spec fn gba_sector_count(len: nat) -> nat {
    len / (GBA_SECTOR_SIZE as nat)
}

/// Address of the `i`-th sector.
pub open spec fn gba_sector_addr(i: nat) -> nat {
    i * (GBA_SECTOR_SIZE as nat)
}

/// Sectors that are erased before each write attempt: the first four, and
/// every fourth one after them.
pub open spec fn gba_needs_erase(i: nat) -> bool {
    i < 4 || i % 4 == 0
}

/// The first sector of the erase block that holds sector `i`: the chip erases
/// four sectors at once, starting at a multiple of four.
pub open spec fn gba_erase_block(i: nat) -> nat {
    i / 4 * 4
}

/// Whether the erase block that holds sector `i` (four sectors, cut at the
/// end of the image) already holds the same bytes in both images.
pub open spec fn gba_window_unchanged(rom: Seq<u8>, diff: Seq<u8>, i: nat) -> bool {
    let start = gba_sector_addr(gba_erase_block(i));
    let end = if start + 4 * (GBA_SECTOR_SIZE as nat) <= rom.len() {
        start + 4 * (GBA_SECTOR_SIZE as nat)
    } else {
        rom.len()
    };
    diff.subrange(start as int, end as int) == rom.subrange(start as int, end as int)
}

/// Whether sector `i` of the image holds only `0xff`, the value of erased flash.
pub open spec fn gba_sector_blank(rom: Seq<u8>, i: nat) -> bool {
    forall|j: int|
        gba_sector_addr(i) <= j < gba_sector_addr(i) + GBA_SECTOR_SIZE ==> rom[j] == 0xff
}

/// The bytes of sector `i` of the image.
pub open spec fn gba_sector_data(rom: Seq<u8>, i: nat) -> Seq<u8> {
    rom.subrange(gba_sector_addr(i) as int, gba_sector_addr(i) + GBA_SECTOR_SIZE)
}

/// A state that `gba_flash_step` accepts for an image of `len` bytes.
pub open spec fn gba_flash_wf(s: GbaFlash, len: nat) -> bool {
    &&& len % (GBA_SECTOR_SIZE as nat) == 0
    &&& len <= 0x1_0000_0000
    &&& len <= usize::MAX
    &&& s.attempt < GBA_WRITE_ATTEMPTS
    &&& (s.stage == GbaFlashStage::Unlock ==> s.attempt == 0)
    &&& (s.stage != GbaFlashStage::Done ==> s.sector_index < gba_sector_count(len))
    &&& (s.stage == GbaFlashStage::Done ==> s.sector_index <= gba_sector_count(len))
}

/// Whether `e` answers the request that state `s` waits on.
pub open spec fn gba_flash_expects(s: GbaFlash, e: GbaFlashEvent) -> bool {
    match s.stage {
        GbaFlashStage::Unlock => e is Unlocked,
        GbaFlashStage::Erase => e is Erased,
        GbaFlashStage::Write => e is Written,
        GbaFlashStage::Verify => e is ReadBack,
        GbaFlashStage::Done => false,
    }
}

/// The terminal state.
pub open spec fn gba_done(i: nat, attempt: nat) -> GbaFlash {
    GbaFlash { sector_index: i as usize, attempt: attempt as usize, stage: GbaFlashStage::Done }
}

/// Sector `i` is complete: go on to the next one, or finish after the last.
pub open spec fn gba_next_sector(len: nat, i: nat) -> (GbaFlash, GbaFlashAction) {
    if i + 1 >= gba_sector_count(len) {
        (gba_done(i + 1, 0), GbaFlashAction::Finished)
    } else {
        (
            GbaFlash { sector_index: (i + 1) as usize, attempt: 0, stage: GbaFlashStage::Unlock },
            GbaFlashAction::Unlock { sector: gba_sector_addr(i + 1) as u32 },
        )
    }
}

/// The last step of an attempt on sector `i`, once any erase is done:
/// nothing to write for a blank sector, else write it.
pub open spec fn gba_write_or_skip(rom: Seq<u8>, i: nat, attempt: nat) -> (
    GbaFlash,
    GbaFlashAction,
) {
    if gba_sector_blank(rom, i) {
        gba_next_sector(rom.len(), i)
    } else {
        (
            GbaFlash { sector_index: i as usize, attempt: attempt as usize, stage: GbaFlashStage::Write },
            GbaFlashAction::Write {
                sector: gba_sector_addr(i) as u32,
                start: gba_sector_addr(i) as usize,
                end: (gba_sector_addr(i) + GBA_SECTOR_SIZE) as usize,
            },
        )
    }
}

/// Start of attempt number `attempt` on sector `i`.
pub open spec fn gba_begin_attempt(rom: Seq<u8>, i: nat, attempt: nat) -> (GbaFlash, GbaFlashAction) {
    if gba_needs_erase(i) {
        (
            GbaFlash { sector_index: i as usize, attempt: attempt as usize, stage: GbaFlashStage::Erase },
            GbaFlashAction::Erase { sector: gba_sector_addr(i) as u32 },
        )
    } else {
        gba_write_or_skip(rom, i, attempt)
    }
}

/// What `gba_flash_start` returns for an image and an optional image to compare against.
pub open spec fn gba_flash_start_spec(rom: Seq<u8>, diff: Option<Seq<u8>>) -> Result<
    (GbaFlash, GbaFlashAction),
    GbaFlashError,
> {
    if rom.len() % (GBA_SECTOR_SIZE as nat) != 0 {
        Err(GbaFlashError::RomNotSectorAligned { len: rom.len() as usize })
    } else if diff is Some && diff->0.len() != rom.len() {
        Err(GbaFlashError::DiffLengthMismatch {
            diff_len: diff->0.len() as usize,
            rom_len: rom.len() as usize,
        })
    } else if rom.len() == 0 {
        Ok((gba_done(0, 0), GbaFlashAction::Finished))
    } else {
        Ok(
            (
                GbaFlash { sector_index: 0, attempt: 0, stage: GbaFlashStage::Unlock },
                GbaFlashAction::Unlock { sector: 0 },
            ),
        )
    }
}

/// What `gba_flash_step` returns for state `s` and the answer `e`.
pub open spec fn gba_flash_step_spec(
    rom: Seq<u8>,
    diff: Option<Seq<u8>>,
    s: GbaFlash,
    e: GbaFlashEvent,
) -> (GbaFlash, GbaFlashAction) {
    let i = s.sector_index as nat;
    let a = s.attempt as nat;
    let sector = gba_sector_addr(i) as u32;
    match e {
        GbaFlashEvent::Unlocked(ok) => {
            if !ok {
                (gba_done(i, a), GbaFlashAction::Failed(GbaFlashError::UnlockFailed { sector }))
            } else if diff is Some && gba_window_unchanged(rom, diff->0, i) {
                gba_next_sector(rom.len(), i)
            } else {
                gba_begin_attempt(rom, i, 0)
            }
        },
        GbaFlashEvent::Erased(ok) => {
            if !ok {
                (gba_done(i, a), GbaFlashAction::Failed(GbaFlashError::EraseFailed { sector }))
            } else {
                gba_write_or_skip(rom, i, a)
            }
        },
        GbaFlashEvent::Written(fail) => {
            match fail {
                Some(addr) => (
                    gba_done(i, a),
                    GbaFlashAction::Failed(GbaFlashError::WriteFailed { addr }),
                ),
                None => (
                    GbaFlash { sector_index: i as usize, attempt: a as usize, stage: GbaFlashStage::Verify },
                    GbaFlashAction::ReadBack { sector, len: GBA_SECTOR_SIZE as u16 },
                ),
            }
        },
        GbaFlashEvent::ReadBack(buf) => {
            if buf@ == gba_sector_data(rom, i) {
                gba_next_sector(rom.len(), i)
            } else if a + 1 >= GBA_WRITE_ATTEMPTS {
                (gba_done(i, a), GbaFlashAction::Failed(GbaFlashError::VerifyFailed { sector }))
            } else {
                gba_begin_attempt(rom, i, a + 1)
            }
        },
    }
}

fn sector_addr(i: usize, len: usize) -> (r: u32)
    requires
        len % GBA_SECTOR_SIZE == 0,
        len <= 0x1_0000_0000,
        i < gba_sector_count(len as nat),
    ensures
        r == gba_sector_addr(i as nat),
        r + GBA_SECTOR_SIZE <= len,
{
    assert(i * GBA_SECTOR_SIZE + GBA_SECTOR_SIZE <= len) by (nonlinear_arith)
        requires
            i < (len as nat) / (GBA_SECTOR_SIZE as nat),
            len % GBA_SECTOR_SIZE == 0,
    ;
    (i as u32) * (GBA_SECTOR_SIZE as u32)
}

fn next_sector(len: usize, i: usize) -> (r: (GbaFlash, GbaFlashAction))
    requires
        len % GBA_SECTOR_SIZE == 0,
        len <= 0x1_0000_0000,
        i < gba_sector_count(len as nat),
    ensures
        r == gba_next_sector(len as nat, i as nat),
{
    if i + 1 >= len / GBA_SECTOR_SIZE {
        (GbaFlash { sector_index: i + 1, attempt: 0, stage: GbaFlashStage::Done }, GbaFlashAction::Finished)
    } else {
        let sector = sector_addr(i + 1, len);
        (
            GbaFlash { sector_index: i + 1, attempt: 0, stage: GbaFlashStage::Unlock },
            GbaFlashAction::Unlock { sector },
        )
    }
}

fn write_or_skip(rom: &[u8], i: usize, attempt: usize) -> (r: (GbaFlash, GbaFlashAction))
    requires
        rom@.len() % (GBA_SECTOR_SIZE as nat) == 0,
        rom@.len() <= 0x1_0000_0000,
        i < gba_sector_count(rom@.len()),
    ensures
        r == gba_write_or_skip(rom@, i as nat, attempt as nat),
{
    let sector = sector_addr(i, rom.len());
    let start = sector as usize;
    if range_all(rom, start, start + GBA_SECTOR_SIZE, 0xff) {
        next_sector(rom.len(), i)
    } else {
        (
            GbaFlash { sector_index: i, attempt, stage: GbaFlashStage::Write },
            GbaFlashAction::Write { sector, start, end: start + GBA_SECTOR_SIZE },
        )
    }
}

fn begin_attempt(rom: &[u8], i: usize, attempt: usize) -> (r: (GbaFlash, GbaFlashAction))
    requires
        rom@.len() % (GBA_SECTOR_SIZE as nat) == 0,
        rom@.len() <= 0x1_0000_0000,
        i < gba_sector_count(rom@.len()),
    ensures
        r == gba_begin_attempt(rom@, i as nat, attempt as nat),
{
    if i < 4 || i % 4 == 0 {
        let sector = sector_addr(i, rom.len());
        (
            GbaFlash { sector_index: i, attempt, stage: GbaFlashStage::Erase },
            GbaFlashAction::Erase { sector },
        )
    } else {
        write_or_skip(rom, i, attempt)
    }
}

/// Checks the image (and the image it replaces, if given) and names the first
/// request: the image must be a whole number of sectors, and both images must
/// have the same length. An image that passes these checks must fit the
/// cartridge's 32-bit address space.
pub fn gba_flash_start(rom: &[u8], diff: Option<&[u8]>) -> (r: Result<
    (GbaFlash, GbaFlashAction),
    GbaFlashError,
>)
    requires
        rom@.len() % (GBA_SECTOR_SIZE as nat) == 0 && (diff matches Some(d) ==> d@.len()
            == rom@.len()) ==> rom@.len() <= 0x1_0000_0000,
    ensures
        r == gba_flash_start_spec(
            rom@,
            match diff {
                Some(d) => Some(d@),
                None => None,
            },
        ),
        r matches Ok((s, _)) ==> gba_flash_wf(s, rom@.len()),
{
    if rom.len() % GBA_SECTOR_SIZE != 0 {
        return Err(GbaFlashError::RomNotSectorAligned { len: rom.len() });
    }
    match diff {
        Some(d) => {
            if d.len() != rom.len() {
                return Err(GbaFlashError::DiffLengthMismatch { diff_len: d.len(), rom_len: rom.len() });
            }
        },
        None => {},
    }
    if rom.len() == 0 {
        Ok((GbaFlash { sector_index: 0, attempt: 0, stage: GbaFlashStage::Done }, GbaFlashAction::Finished))
    } else {
        Ok(
            (
                GbaFlash { sector_index: 0, attempt: 0, stage: GbaFlashStage::Unlock },
                GbaFlashAction::Unlock { sector: 0 },
            ),
        )
    }
}

/// Takes the device's answer `e` to the request that state `s` waits on, and
/// names the next request together with the new state.
///
/// After a sector is unlocked it is skipped when the image it replaces already
/// holds the same bytes in the whole erase block of the sector. Otherwise
/// each attempt erases the sector (only the first four sectors and every
/// fourth one after them), skips it if
/// it is blank, writes it and reads it back; a sector that reads back wrong is
/// tried again, up to four attempts in all.
pub fn gba_flash_step(rom: &[u8], diff: Option<&[u8]>, s: GbaFlash, e: GbaFlashEvent) -> (r: (
    GbaFlash,
    GbaFlashAction,
))
    requires
        gba_flash_wf(s, rom@.len()),
        gba_flash_expects(s, e),
        diff matches Some(d) ==> d@.len() == rom@.len(),
    ensures
        r == gba_flash_step_spec(
            rom@,
            match diff {
                Some(d) => Some(d@),
                None => None,
            },
            s,
            e,
        ),
        gba_flash_wf(r.0, rom@.len()),
{
    let i = s.sector_index;
    let a = s.attempt;
    let len = rom.len();
    let sector = sector_addr(i, len);
    let ghost dv = match diff {
        Some(d) => Some(d@),
        None => None::<Seq<u8>>,
    };
    match e {
        GbaFlashEvent::Unlocked(ok) => {
            if !ok {
                return (
                    GbaFlash { sector_index: i, attempt: a, stage: GbaFlashStage::Done },
                    GbaFlashAction::Failed(GbaFlashError::UnlockFailed { sector }),
                );
            }
            match diff {
                Some(d) => {
                    let block = i / 4 * 4;
                    let start = sector_addr(block, len) as usize;
                    let end = if len - start >= 4 * GBA_SECTOR_SIZE {
                        start + 4 * GBA_SECTOR_SIZE
                    } else {
                        len
                    };
                    if ranges_equal(d, start, rom, start, end - start) {
                        assert(gba_window_unchanged(rom@, d@, i as nat));
                        return next_sector(len, i);
                    }
                    assert(!gba_window_unchanged(rom@, d@, i as nat));
                },
                None => {},
            }
            begin_attempt(rom, i, 0)
        },
        GbaFlashEvent::Erased(ok) => {
            if !ok {
                (
                    GbaFlash { sector_index: i, attempt: a, stage: GbaFlashStage::Done },
                    GbaFlashAction::Failed(GbaFlashError::EraseFailed { sector }),
                )
            } else {
                write_or_skip(rom, i, a)
            }
        },
        GbaFlashEvent::Written(fail) => {
            match fail {
                Some(addr) => (
                    GbaFlash { sector_index: i, attempt: a, stage: GbaFlashStage::Done },
                    GbaFlashAction::Failed(GbaFlashError::WriteFailed { addr }),
                ),
                None => (
                    GbaFlash { sector_index: i, attempt: a, stage: GbaFlashStage::Verify },
                    GbaFlashAction::ReadBack { sector, len: GBA_SECTOR_SIZE as u16 },
                ),
            }
        },
        GbaFlashEvent::ReadBack(buf) => {
            let start = sector as usize;
            let same = buf.len() == GBA_SECTOR_SIZE && ranges_equal(
                buf.as_slice(),
                0,
                rom,
                start,
                GBA_SECTOR_SIZE,
            );
            proof {
                if buf@.len() == GBA_SECTOR_SIZE {
                    assert(buf@.subrange(0, GBA_SECTOR_SIZE as int) =~= buf@);
                }
            }
            if same {
                next_sector(len, i)
            } else if a + 1 >= GBA_WRITE_ATTEMPTS {
                (
                    GbaFlash { sector_index: i, attempt: a, stage: GbaFlashStage::Done },
                    GbaFlashAction::Failed(GbaFlashError::VerifyFailed { sector }),
                )
            } else {
                begin_attempt(rom, i, a + 1)
            }
        },
    }
}


/// Position of a state in the order in which `gba_flash_step` visits states.
pub open spec fn gba_flash_rank(s: GbaFlash, len: nat) -> nat {
    match s.stage {
        GbaFlashStage::Unlock => s.sector_index as nat * 16 + s.attempt as nat * 4,
        GbaFlashStage::Erase => s.sector_index as nat * 16 + s.attempt as nat * 4 + 1,
        GbaFlashStage::Write => s.sector_index as nat * 16 + s.attempt as nat * 4 + 2,
        GbaFlashStage::Verify => s.sector_index as nat * 16 + s.attempt as nat * 4 + 3,
        GbaFlashStage::Done => gba_sector_count(len) * 16 + 16,
    }
}

/// Flashing always ends: every step moves the state forward, and no state lies
/// beyond `16 * (sectors + 1)`, so an image of `n` sectors takes at most that
/// many device requests.
pub proof fn lemma_gba_flash_progress(
    rom: Seq<u8>,
    diff: Option<Seq<u8>>,
    s: GbaFlash,
    e: GbaFlashEvent,
)
    requires
        gba_flash_wf(s, rom.len()),
        gba_flash_expects(s, e),
    ensures
        gba_flash_rank(gba_flash_step_spec(rom, diff, s, e).0, rom.len()) > gba_flash_rank(
            s,
            rom.len(),
        ),
        gba_flash_rank(gba_flash_step_spec(rom, diff, s, e).0, rom.len()) <= gba_sector_count(
            rom.len(),
        ) * 16 + 16,
{
    let n = gba_sector_count(rom.len());
    let i = s.sector_index as nat;
    assert(i * 16 + 16 <= n * 16) by (nonlinear_arith)
        requires
            i < n,
    ;
    assert((i + 1) * 16 == i * 16 + 16) by (nonlinear_arith);
}

/// Every write request puts the bytes of the current sector at that sector's
/// own address, never for a blank sector, and for a sector that is erased
/// before its writes only right after the erase succeeded.
pub proof fn lemma_gba_flash_writes_sector(
    rom: Seq<u8>,
    diff: Option<Seq<u8>>,
    s: GbaFlash,
    e: GbaFlashEvent,
)
    requires
        gba_flash_wf(s, rom.len()),
        gba_flash_expects(s, e),
    ensures
        ({
            let (t, a) = gba_flash_step_spec(rom, diff, s, e);
            a matches GbaFlashAction::Write { sector, start, end } ==> {
                &&& t.sector_index == s.sector_index
                &&& sector == gba_sector_addr(s.sector_index as nat)
                &&& start == sector
                &&& end == start + GBA_SECTOR_SIZE
                &&& end <= rom.len()
                &&& !gba_sector_blank(rom, s.sector_index as nat)
                &&& (gba_needs_erase(s.sector_index as nat) ==> e matches GbaFlashEvent::Erased(
                    true,
                ))
            }
        }),
{
    let i = s.sector_index as nat;
    let n = gba_sector_count(rom.len());
    assert(i * (GBA_SECTOR_SIZE as nat) + GBA_SECTOR_SIZE <= rom.len()) by (nonlinear_arith)
        requires
            i < n,
            n == rom.len() / (GBA_SECTOR_SIZE as nat),
    ;
    assert(gba_sector_addr(i) < 0x1_0000_0000);
}

/// A sector counts as done only when the image it replaces already held the
/// same window, when it is blank, or when it read back exactly as the image
/// holds it; and `Finished` comes only once the last sector is done.
pub proof fn lemma_gba_flash_sector_done(
    rom: Seq<u8>,
    diff: Option<Seq<u8>>,
    s: GbaFlash,
    e: GbaFlashEvent,
)
    requires
        gba_flash_wf(s, rom.len()),
        gba_flash_expects(s, e),
    ensures
        ({
            let (t, a) = gba_flash_step_spec(rom, diff, s, e);
            let i = s.sector_index as nat;
            &&& (t.sector_index > s.sector_index ==> {
                ||| (e matches GbaFlashEvent::Unlocked(true) && diff is Some
                    && gba_window_unchanged(rom, diff->0, i))
                ||| gba_sector_blank(rom, i)
                ||| (e matches GbaFlashEvent::ReadBack(buf) && buf@ == gba_sector_data(rom, i))
            })
            &&& (t.sector_index > s.sector_index ==> t.sector_index == s.sector_index + 1)
            &&& (a is Finished ==> t.sector_index == gba_sector_count(rom.len()))
        }),
{
}

/// A sector is given up as unreadable only after the last of its four attempts.
pub proof fn lemma_gba_flash_verify_retries(
    rom: Seq<u8>,
    diff: Option<Seq<u8>>,
    s: GbaFlash,
    e: GbaFlashEvent,
)
    requires
        gba_flash_wf(s, rom.len()),
        gba_flash_expects(s, e),
    ensures
        ({
            let (t, a) = gba_flash_step_spec(rom, diff, s, e);
            &&& (a matches GbaFlashAction::Failed(GbaFlashError::VerifyFailed { .. })
                ==> s.attempt + 1 == GBA_WRITE_ATTEMPTS)
            &&& (t.sector_index == s.sector_index && t.stage != GbaFlashStage::Done
                ==> t.attempt <= s.attempt + 1)
        }),
{
}

/// `gba_flash_step` keeps states well formed.
pub proof fn lemma_gba_flash_wf_step(rom: Seq<u8>, diff: Option<Seq<u8>>, s: GbaFlash, e: GbaFlashEvent)
    requires
        gba_flash_wf(s, rom.len()),
        gba_flash_expects(s, e),
    ensures
        gba_flash_wf(gba_flash_step_spec(rom, diff, s, e).0, rom.len()),
        gba_flash_step_spec(rom, diff, s, e).0.sector_index >= s.sector_index,
{
}

/// The state reached from `s` after the device answered with `events`, in order.
pub open spec fn gba_flash_run(
    rom: Seq<u8>,
    diff: Option<Seq<u8>>,
    s: GbaFlash,
    events: Seq<GbaFlashEvent>,
) -> GbaFlash
    decreases events.len(),
{
    if events.len() == 0 {
        s
    } else {
        gba_flash_step_spec(
            rom,
            diff,
            gba_flash_run(rom, diff, s, events.drop_last()),
            events.last(),
        ).0
    }
}

/// Whether each of `events` answers the request pending when it came.
pub open spec fn gba_flash_answers(
    rom: Seq<u8>,
    diff: Option<Seq<u8>>,
    s: GbaFlash,
    events: Seq<GbaFlashEvent>,
) -> bool {
    forall|j: int|
        0 <= j < events.len() ==> gba_flash_expects(
            gba_flash_run(rom, diff, s, events.take(j)),
            #[trigger] events[j],
        )
}

/// Whether answer `e`, given while sector `i` was being worked on, confirms
/// that the cartridge holds the image's sector `i`: the image it replaces
/// already held that window, the sector is blank, or it read back exactly.
pub open spec fn gba_sector_confirmed_by(
    rom: Seq<u8>,
    diff: Option<Seq<u8>>,
    i: nat,
    e: GbaFlashEvent,
) -> bool {
    ||| (e matches GbaFlashEvent::Unlocked(true) && diff is Some && gba_window_unchanged(
        rom,
        diff->0,
        i,
    ))
    ||| gba_sector_blank(rom, i)
    ||| (e matches GbaFlashEvent::ReadBack(buf) && buf@ == gba_sector_data(rom, i))
}

/// Whether some answer among `events`, given while sector `i` was worked on,
/// confirms that sector.
pub open spec fn gba_sector_confirmed_in(
    rom: Seq<u8>,
    diff: Option<Seq<u8>>,
    s: GbaFlash,
    events: Seq<GbaFlashEvent>,
    i: nat,
) -> bool {
    exists|j: int|
        0 <= j < events.len() && gba_flash_run(rom, diff, s, events.take(j)).sector_index == i
            && gba_sector_confirmed_by(rom, diff, i, #[trigger] events[j])
}

/// Flashing only counts a sector as done on evidence: along any run in
/// which each answer fits the request before it, every sector below the
/// current one was confirmed by some answer given while it was worked on.
/// With `lemma_gba_flash_sector_done`, once the machine reports `Finished`
/// this covers every sector of the image.
pub proof fn lemma_gba_flash_run_confirms(
    rom: Seq<u8>,
    diff: Option<Seq<u8>>,
    s: GbaFlash,
    events: Seq<GbaFlashEvent>,
)
    requires
        gba_flash_wf(s, rom.len()),
        gba_flash_answers(rom, diff, s, events),
    ensures
        gba_flash_wf(gba_flash_run(rom, diff, s, events), rom.len()),
        gba_flash_run(rom, diff, s, events).sector_index >= s.sector_index,
        forall|i: nat|
            s.sector_index <= i < gba_flash_run(rom, diff, s, events).sector_index
                ==> #[trigger] gba_sector_confirmed_in(rom, diff, s, events, i),
    decreases events.len(),
{
    if events.len() > 0 {
        let m = (events.len() - 1) as int;
        let p = events.drop_last();
        assert forall|j: int| 0 <= j < p.len() implies gba_flash_expects(
            gba_flash_run(rom, diff, s, p.take(j)),
            #[trigger] p[j],
        ) by {
            assert(p.take(j) =~= events.take(j));
            assert(p[j] == events[j]);
            assert(gba_flash_expects(gba_flash_run(rom, diff, s, events.take(j)), events[j]));
        }
        lemma_gba_flash_run_confirms(rom, diff, s, p);
        let sp = gba_flash_run(rom, diff, s, p);
        assert(events.take(m) =~= p);
        assert(gba_flash_expects(sp, events[m]));
        lemma_gba_flash_wf_step(rom, diff, sp, events[m]);
        lemma_gba_flash_sector_done(rom, diff, sp, events[m]);
        let t = gba_flash_run(rom, diff, s, events);
        assert(t == gba_flash_step_spec(rom, diff, sp, events.last()).0);
        assert forall|i: nat| s.sector_index <= i < t.sector_index implies #[trigger]
            gba_sector_confirmed_in(rom, diff, s, events, i) by {
            if i < sp.sector_index {
                assert(gba_sector_confirmed_in(rom, diff, s, p, i));
                let j = choose|j: int|
                    0 <= j < p.len() && gba_flash_run(rom, diff, s, p.take(j)).sector_index == i
                        && gba_sector_confirmed_by(rom, diff, i, #[trigger] p[j]);
                assert(p.take(j) =~= events.take(j));
                assert(p[j] == events[j]);
            } else {
                assert(i == sp.sector_index);
                assert(gba_sector_confirmed_by(rom, diff, i, events[m]));
                assert(gba_flash_run(rom, diff, s, events.take(m)).sector_index == i);
            }
        }
    }
}

/// Writing an image ends with every sector in place: along a run started by
/// `gba_flash_start` whose answers fit the requests, once the machine has gone
/// past the last sector (the state of `Finished`), each sector of the image was
/// confirmed on the cartridge.
pub proof fn lemma_gba_flash_finished_confirms_all(
    rom: Seq<u8>,
    diff: Option<Seq<u8>>,
    events: Seq<GbaFlashEvent>,
)
    requires
        rom.len() <= 0x1_0000_0000,
        rom.len() <= usize::MAX,
        gba_flash_start_spec(rom, diff) is Ok,
        gba_flash_answers(rom, diff, gba_flash_start_spec(rom, diff)->Ok_0.0, events),
        gba_flash_run(rom, diff, gba_flash_start_spec(rom, diff)->Ok_0.0, events).sector_index
            == gba_sector_count(rom.len()),
    ensures
        forall|i: nat|
            i < gba_sector_count(rom.len()) ==> #[trigger] gba_sector_confirmed_in(
                rom,
                diff,
                gba_flash_start_spec(rom, diff)->Ok_0.0,
                events,
                i,
            ),
{
    let s0 = gba_flash_start_spec(rom, diff)->Ok_0.0;
    assert(gba_flash_wf(s0, rom.len()));
    lemma_gba_flash_run_confirms(rom, diff, s0, events);
}


/// What follows a successful unlock of sector `i`, in numbers. With an image
/// to compare against, the four-sector erase block that holds the sector,
/// `rom[i / 4 * 4 * 0x8000 .. min(i / 4 * 4 * 0x8000 + 0x20000, len)]`, is
/// compared; when both images agree there, the sector is skipped and the next
/// one is unlocked (or the procedure finishes after the last). Otherwise the
/// first four sectors and every fourth one after them are erased first, at
/// address `i * 0x8000`; any other sector is written right away from
/// `rom[i * 0x8000 .. (i + 1) * 0x8000]`, or skipped when those bytes are all `0xff`.
pub proof fn lemma_gba_flash_after_unlock(rom: Seq<u8>, diff: Option<Seq<u8>>, s: GbaFlash)
    requires
        gba_flash_wf(s, rom.len()),
        s.stage == GbaFlashStage::Unlock,
        diff matches Some(d) ==> d.len() == rom.len(),
    ensures
        ({
            let i = s.sector_index as int;
            let (t, a) = gba_flash_step_spec(rom, diff, s, GbaFlashEvent::Unlocked(true));
            let b = i / 4 * 4 * 0x8000;
            let w = if b + 0x20000 <= rom.len() {
                b + 0x20000
            } else {
                rom.len() as int
            };
            let same = diff matches Some(d) && d.subrange(b, w) == rom.subrange(b, w);
            let blank = forall|j: int| i * 0x8000 <= j < (i + 1) * 0x8000 ==> rom[j] == 0xff;
            let next = if (i + 1) * 0x8000 < rom.len() {
                t == GbaFlash { sector_index: (i + 1) as usize, attempt: 0, stage: GbaFlashStage::Unlock }
                    && a == GbaFlashAction::Unlock { sector: ((i + 1) * 0x8000) as u32 }
            } else {
                t == GbaFlash { sector_index: (i + 1) as usize, attempt: 0, stage: GbaFlashStage::Done }
                    && a == GbaFlashAction::Finished
            };
            &&& same ==> next
            &&& !same && (i < 4 || i % 4 == 0) ==> t == GbaFlash {
                sector_index: i as usize,
                attempt: 0,
                stage: GbaFlashStage::Erase,
            } && a == GbaFlashAction::Erase { sector: (i * 0x8000) as u32 }
            &&& !same && !(i < 4 || i % 4 == 0) && !blank ==> t == GbaFlash {
                sector_index: i as usize,
                attempt: 0,
                stage: GbaFlashStage::Write,
            } && a == GbaFlashAction::Write {
                sector: (i * 0x8000) as u32,
                start: (i * 0x8000) as usize,
                end: ((i + 1) * 0x8000) as usize,
            }
            &&& !same && !(i < 4 || i % 4 == 0) && blank ==> next
        }),
{
    let i = s.sector_index as int;
    let n = gba_sector_count(rom.len());
    assert((i + 1) * 0x8000 <= rom.len()) by (nonlinear_arith)
        requires
            0 <= i < n,
            n == rom.len() / 0x8000,
    ;
    assert((i + 1) * 0x8000 < rom.len() <==> i + 1 < n) by (nonlinear_arith)
        requires
            0 <= i,
            n == rom.len() / 0x8000,
            rom.len() % 0x8000 == 0,
    ;
}

/// With an image to compare against, a sector whose own bytes differ from
/// that image is never skipped as unchanged: the erase block compared for it
/// holds it. After its unlock it is erased (the first four sectors and every
/// fourth one after them) or written, unless its bytes in the image are all
/// `0xff`, what the erase of its block left there.
pub proof fn lemma_gba_flash_changed_sector_kept(rom: Seq<u8>, d: Seq<u8>, s: GbaFlash)
    requires
        gba_flash_wf(s, rom.len()),
        s.stage == GbaFlashStage::Unlock,
        d.len() == rom.len(),
        d.subrange(s.sector_index * 0x8000, (s.sector_index + 1) * 0x8000) != rom.subrange(
            s.sector_index * 0x8000,
            (s.sector_index + 1) * 0x8000,
        ),
    ensures
        ({
            let i = s.sector_index as int;
            let (t, a) = gba_flash_step_spec(rom, Some(d), s, GbaFlashEvent::Unlocked(true));
            ||| a == GbaFlashAction::Erase { sector: (i * 0x8000) as u32 }
            ||| a == GbaFlashAction::Write {
                sector: (i * 0x8000) as u32,
                start: (i * 0x8000) as usize,
                end: ((i + 1) * 0x8000) as usize,
            }
            ||| (i >= 4 && i % 4 != 0 && forall|j: int|
                i * 0x8000 <= j < (i + 1) * 0x8000 ==> rom[j] == 0xff)
        }),
{
    let i = s.sector_index as int;
    let n = gba_sector_count(rom.len());
    lemma_gba_flash_after_unlock(rom, Some(d), s);
    let b = i / 4 * 4 * 0x8000;
    let w = if b + 0x20000 <= rom.len() {
        b + 0x20000
    } else {
        rom.len() as int
    };
    assert((i + 1) * 0x8000 <= rom.len()) by (nonlinear_arith)
        requires
            0 <= i < n,
            n == rom.len() / 0x8000,
    ;
    assert(b <= i * 0x8000 && (i + 1) * 0x8000 <= b + 0x20000);
    if d.subrange(b, w) == rom.subrange(b, w) {
        assert(d.subrange(i * 0x8000, (i + 1) * 0x8000) =~= rom.subrange(i * 0x8000, (i + 1) * 0x8000))
            by {
            assert forall|j: int| i * 0x8000 <= j < (i + 1) * 0x8000 implies #[trigger] d[j] == rom[j] by {
                assert(d.subrange(b, w)[j - b] == rom.subrange(b, w)[j - b]);
            }
        }
    }
}

/// A sector that reads back wrong is tried again from the start of an
/// attempt: the first four sectors and every fourth one after them are erased
/// again at `i * 0x8000`; after the fourth attempt the procedure fails.
pub proof fn lemma_gba_flash_retry_erases(rom: Seq<u8>, diff: Option<Seq<u8>>, s: GbaFlash, buf: Vec<u8>)
    requires
        gba_flash_wf(s, rom.len()),
        s.stage == GbaFlashStage::Verify,
        buf@ != rom.subrange(s.sector_index * 0x8000, (s.sector_index + 1) * 0x8000),
    ensures
        ({
            let i = s.sector_index as int;
            let (t, a) = gba_flash_step_spec(rom, diff, s, GbaFlashEvent::ReadBack(buf));
            &&& s.attempt + 1 >= 4 ==> a == GbaFlashAction::Failed(
                GbaFlashError::VerifyFailed { sector: (i * 0x8000) as u32 },
            )
            &&& s.attempt + 1 < 4 && (i < 4 || i % 4 == 0) ==> t == GbaFlash {
                sector_index: i as usize,
                attempt: (s.attempt + 1) as usize,
                stage: GbaFlashStage::Erase,
            } && a == GbaFlashAction::Erase { sector: (i * 0x8000) as u32 }
            &&& s.attempt + 1 < 4 && !(i < 4 || i % 4 == 0) ==> !(a is Erase)
        }),
{
}

} // verus!
