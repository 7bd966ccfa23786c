//! The raw command frames of the device's byte protocol for the Game Boy
//! Advance: a command code followed by little-endian operands, addresses
//! given in 16-bit words and cut to 24 bits.
use vstd::prelude::*;

verus! {

/// The commands of the raw protocol.
#[derive(Debug, Clone, Copy, PartialEq, Eq, Structural)]
pub enum Cmd {
    Read,
    Write,
    WriteRaw,
    WriteFlash,
    Erase,
    Reset,
    Ping,
    ModeGBA,
    ModeGB,
    ReadGBAROM,
    WriteGBAROM,
    WriteGBAFlash,
    ReadGBAWord,
}

/// The byte that stands for a command on the wire: its position in the list above.
pub open spec fn cmd_code_spec(c: Cmd) -> u8 {
    match c {
        Cmd::Read => 0,
        Cmd::Write => 1,
        Cmd::WriteRaw => 2,
        Cmd::WriteFlash => 3,
        Cmd::Erase => 4,
        Cmd::Reset => 5,
        Cmd::Ping => 6,
        Cmd::ModeGBA => 7,
        Cmd::ModeGB => 8,
        Cmd::ReadGBAROM => 9,
        Cmd::WriteGBAROM => 10,
        Cmd::WriteGBAFlash => 11,
        Cmd::ReadGBAWord => 12,
    }
}

/// The byte that stands for `c` on the wire.
pub fn cmd_code(c: Cmd) -> (r: u8)
    ensures
        r == cmd_code_spec(c),
{
    match c {
        Cmd::Read => 0,
        Cmd::Write => 1,
        Cmd::WriteRaw => 2,
        Cmd::WriteFlash => 3,
        Cmd::Erase => 4,
        Cmd::Reset => 5,
        Cmd::Ping => 6,
        Cmd::ModeGBA => 7,
        Cmd::ModeGB => 8,
        Cmd::ReadGBAROM => 9,
        Cmd::WriteGBAROM => 10,
        Cmd::WriteGBAFlash => 11,
        Cmd::ReadGBAWord => 12,
    }
}

/// The kinds of GBA flash chips the device knows.
#[derive(Debug, Clone, Copy, PartialEq, Eq, Structural)]
pub enum FlashType {
    F3,
}

/// The byte that stands for a flash chip kind on the wire.
pub open spec fn flash_type_code_spec(f: FlashType) -> u8 {
    match f {
        FlashType::F3 => 3,
    }
}

/// The byte that stands for flash chip kind `f` on the wire.
pub fn flash_type_code(f: FlashType) -> (r: u8)
    ensures
        r == flash_type_code_spec(f),
{
    match f {
        FlashType::F3 => 3,
    }
}

/// Byte `i` (counted from the least significant) of `v`.
pub open spec fn le_byte(v: u32, i: nat) -> u8 {
    ((v >> (8 * i) as u32) & 0xff) as u8
}

/// The number that three little-endian bytes spell.
pub open spec fn le24(b0: u8, b1: u8, b2: u8) -> nat {
    b0 as nat + 256 * b1 as nat + 65536 * b2 as nat
}

fn byte_of(v: u32, i: u32) -> (r: u8)
    requires
        i < 4,
    ensures
        r == le_byte(v, i as nat),
{
    ((v >> (8 * i)) & 0xff) as u8
}

/// Three little-endian bytes spell `v` cut to 24 bits.
pub proof fn lemma_le24(v: u32)
    ensures
        le24(le_byte(v, 0), le_byte(v, 1), le_byte(v, 2)) == v as nat % 0x100_0000,
{
    assert(((v >> 0u32) & 0xff) as u8 as nat + 256 * (((v >> 8u32) & 0xff) as u8 as nat) + 65536 * ((
    (v >> 16u32) & 0xff) as u8 as nat) == v as nat % 0x100_0000) by (bit_vector);
}

/// The frame that switches the device to GBA mode.
pub fn cmd_mode_gba() -> (r: [u8; 1])
    ensures
        r@ == seq![cmd_code_spec(Cmd::ModeGBA)],
{
    let r = [cmd_code(Cmd::ModeGBA)];
    assert(r@ =~= seq![cmd_code_spec(Cmd::ModeGBA)]);
    r
}

/// The frame that reads GBA ROM from byte address `addr_start` up to
/// `addr_end`: the first and the last 16-bit word address, 24 bits each.
pub fn cmd_gba_read(addr_start: u32, addr_end: u32) -> (r: [u8; 7])
    requires
        addr_end >= 2,
    ensures
        r@ == seq![
            cmd_code_spec(Cmd::ReadGBAROM),
            le_byte(addr_start >> 1u32, 0),
            le_byte(addr_start >> 1u32, 1),
            le_byte(addr_start >> 1u32, 2),
            le_byte(((addr_end >> 1u32) - 1) as u32, 0),
            le_byte(((addr_end >> 1u32) - 1) as u32, 1),
            le_byte(((addr_end >> 1u32) - 1) as u32, 2),
        ],
{
    let start = addr_start >> 1;
    assert(addr_end >> 1u32 >= 1) by (bit_vector)
        requires
            addr_end >= 2,
    ;
    let end = (addr_end >> 1) - 1;
    let r = [
        cmd_code(Cmd::ReadGBAROM),
        byte_of(start, 0),
        byte_of(start, 1),
        byte_of(start, 2),
        byte_of(end, 0),
        byte_of(end, 1),
        byte_of(end, 2),
    ];
    assert(r@ =~= seq![
        cmd_code_spec(Cmd::ReadGBAROM),
        le_byte(addr_start >> 1u32, 0),
        le_byte(addr_start >> 1u32, 1),
        le_byte(addr_start >> 1u32, 2),
        le_byte(((addr_end >> 1u32) - 1) as u32, 0),
        le_byte(((addr_end >> 1u32) - 1) as u32, 1),
        le_byte(((addr_end >> 1u32) - 1) as u32, 2),
    ]);
    r
}

/// The frame that reads the 16-bit word at byte address `addr`.
pub fn cmd_gba_read_word(addr: u32) -> (r: [u8; 4])
    ensures
        r@ == seq![
            cmd_code_spec(Cmd::ReadGBAWord),
            le_byte(addr >> 1u32, 0),
            le_byte(addr >> 1u32, 1),
            le_byte(addr >> 1u32, 2),
        ],
{
    let a = addr >> 1;
    let r = [cmd_code(Cmd::ReadGBAWord), byte_of(a, 0), byte_of(a, 1), byte_of(a, 2)];
    assert(r@ =~= seq![
        cmd_code_spec(Cmd::ReadGBAWord),
        le_byte(addr >> 1u32, 0),
        le_byte(addr >> 1u32, 1),
        le_byte(addr >> 1u32, 2),
    ]);
    r
}

/// The frame that writes the 16-bit word `data` at byte address `addr`.
pub fn cmd_gba_write(addr: u32, data: u16) -> (r: [u8; 6])
    ensures
        r@ == seq![
            cmd_code_spec(Cmd::WriteGBAROM),
            le_byte(addr >> 1u32, 0),
            le_byte(addr >> 1u32, 1),
            le_byte(addr >> 1u32, 2),
            le_byte(data as u32, 0),
            le_byte(data as u32, 1),
        ],
{
    let a = addr >> 1;
    let d = data as u32;
    let r = [
        cmd_code(Cmd::WriteGBAROM),
        byte_of(a, 0),
        byte_of(a, 1),
        byte_of(a, 2),
        byte_of(d, 0),
        byte_of(d, 1),
    ];
    assert(r@ =~= seq![
        cmd_code_spec(Cmd::WriteGBAROM),
        le_byte(addr >> 1u32, 0),
        le_byte(addr >> 1u32, 1),
        le_byte(addr >> 1u32, 2),
        le_byte(data as u32, 0),
        le_byte(data as u32, 1),
    ]);
    r
}

/// The frame that writes GBA flash from byte address `addr_start` up to
/// `addr_end` on a chip of kind `flash_type`.
pub fn cmd_gba_flash_write(addr_start: u32, addr_end: u32, flash_type: FlashType) -> (r: [u8; 8])
    requires
        addr_end >= 2,
    ensures
        r@ == seq![
            cmd_code_spec(Cmd::WriteGBAFlash),
            le_byte(addr_start >> 1u32, 0),
            le_byte(addr_start >> 1u32, 1),
            le_byte(addr_start >> 1u32, 2),
            le_byte(((addr_end >> 1u32) - 1) as u32, 0),
            le_byte(((addr_end >> 1u32) - 1) as u32, 1),
            le_byte(((addr_end >> 1u32) - 1) as u32, 2),
            flash_type_code_spec(flash_type),
        ],
{
    let start = addr_start >> 1;
    assert(addr_end >> 1u32 >= 1) by (bit_vector)
        requires
            addr_end >= 2,
    ;
    let end = (addr_end >> 1) - 1;
    let r = [
        cmd_code(Cmd::WriteGBAFlash),
        byte_of(start, 0),
        byte_of(start, 1),
        byte_of(start, 2),
        byte_of(end, 0),
        byte_of(end, 1),
        byte_of(end, 2),
        flash_type_code(flash_type),
    ];
    assert(r@ =~= seq![
        cmd_code_spec(Cmd::WriteGBAFlash),
        le_byte(addr_start >> 1u32, 0),
        le_byte(addr_start >> 1u32, 1),
        le_byte(addr_start >> 1u32, 2),
        le_byte(((addr_end >> 1u32) - 1) as u32, 0),
        le_byte(((addr_end >> 1u32) - 1) as u32, 1),
        le_byte(((addr_end >> 1u32) - 1) as u32, 2),
        flash_type_code_spec(flash_type),
    ]);
    r
}

/// A read frame names the range it asks for: its start field holds the word
/// address of `addr_start` and its end field the word address of the last
/// word before `addr_end`, both exact for addresses below 32 MiB, the GBA
/// cartridge space.
pub proof fn lemma_cmd_gba_read_fields(addr_start: u32, addr_end: u32)
    requires
        2 <= addr_end <= 0x200_0000,
        addr_start < 0x200_0000,
    ensures
        le24(
            le_byte(addr_start >> 1u32, 0),
            le_byte(addr_start >> 1u32, 1),
            le_byte(addr_start >> 1u32, 2),
        ) == addr_start as nat / 2,
        le24(
            le_byte(((addr_end >> 1u32) - 1) as u32, 0),
            le_byte(((addr_end >> 1u32) - 1) as u32, 1),
            le_byte(((addr_end >> 1u32) - 1) as u32, 2),
        ) == addr_end as nat / 2 - 1,
{
    lemma_le24(addr_start >> 1u32);
    lemma_le24(((addr_end >> 1u32) - 1) as u32);
    assert((addr_start >> 1u32) as nat == addr_start as nat / 2) by (bit_vector);
    assert((addr_end >> 1u32) as nat == addr_end as nat / 2) by (bit_vector);
}

} // verus!
