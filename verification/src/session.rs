//! Small decisions of a session with the device: the acknowledge byte, the
//! greeting after a reset, which file a subcommand uses, and elapsed times.
use vstd::prelude::*;

verus! {

/// The byte the device answers a raw command with when it accepts it.
pub const ACK: u8 = 0x41;

/// Whether `b` acknowledges a raw command.
pub fn is_ack(b: u8) -> (r: bool)
    ensures
        r == (b == ACK),
{
    b == ACK
}

/// The line the device sends once it is up after a reset: `HELLO` and a line break.
pub open spec fn hello_line() -> Seq<u8> {
    seq![72u8, 69u8, 76u8, 76u8, 79u8, 10u8]
}

/// Whether a line read from the device is its greeting.
pub fn is_hello_line(line: &[u8]) -> (r: bool)
    ensures
        r == (line@ == hello_line()),
{
    let r = line.len() == 6 && line[0] == 72 && line[1] == 69 && line[2] == 76 && line[3] == 76
        && line[4] == 79 && line[5] == 10;
    proof {
        if r {
            assert(line@ =~= hello_line());
        } else if line@.len() == 6 && line@ == hello_line() {
            assert(line@[0] == 72 && line@[1] == 69 && line@[2] == 76);
            assert(line@[3] == 76 && line@[4] == 79 && line@[5] == 10);
        }
    }
    r
}

/// The subcommands of the program.
#[derive(Debug, Clone, Copy, PartialEq, Eq, Structural)]
pub enum Subcommand {
    DebugPing,
    DebugGbaTest,
    GbReadRom,
    GbReadRam,
    GbWriteRom,
    GbWriteRam,
    GbErase,
    GbFlashInfo,
    GbRead,
    GbNewTest,
    GbaReadRom,
    GbaReadTest,
    GbaWriteTest,
    GbaWriteRom,
}

/// How a subcommand uses the file named on the command line.
#[derive(Debug, Clone, Copy, PartialEq, Eq, Structural)]
pub enum FileAccess {
    /// The file is read in before the device is used.
    Read,
    /// The file is created, and must not exist yet; it is removed again when the subcommand fails.
    Write,
    /// No file is used.
    Unused,
}

/// How `cmd` uses its file: reading a cartridge writes a new file, writing a
/// cartridge reads one, and the other subcommands use none.
pub fn file_access(cmd: Subcommand) -> (r: FileAccess)
    ensures
        r == (match cmd {
            Subcommand::GbReadRom | Subcommand::GbReadRam | Subcommand::GbaReadRom => FileAccess::Write,
            Subcommand::GbWriteRom | Subcommand::GbWriteRam | Subcommand::GbaWriteRom => FileAccess::Read,
            _ => FileAccess::Unused,
        }),
{
    match cmd {
        Subcommand::GbReadRom | Subcommand::GbReadRam | Subcommand::GbaReadRom => FileAccess::Write,
        Subcommand::GbWriteRom | Subcommand::GbWriteRam | Subcommand::GbaWriteRom => FileAccess::Read,
        _ => FileAccess::Unused,
    }
}

/// A duration of `secs` seconds and `subsec_millis` milliseconds, in milliseconds.
pub fn elapsed_millis(secs: u64, subsec_millis: u32) -> (r: u64)
    requires
        secs * 1000 + subsec_millis <= u64::MAX,
    ensures
        r == secs * 1000 + subsec_millis,
{
    secs * 1000 + subsec_millis as u64
}

/// Whole minutes, and the seconds left over, of `millis` milliseconds.
pub fn minutes_seconds(millis: u64) -> (r: (u64, u64))
    ensures
        r.0 == millis / 1000 / 60,
        r.1 == (millis / 1000) % 60,
        r.0 * 60 + r.1 == millis / 1000,
{
    (millis / 1000 / 60, (millis / 1000) % 60)
}

/// The console whose cartridge a subcommand works on.
#[derive(Debug, Clone, Copy, PartialEq, Eq, Structural)]
pub enum Console {
    /// Game Boy and Game Boy Color.
    Gb,
    /// Game Boy Advance.
    Gba,
}

/// The console of `cmd`: the `gba` subcommands and the GBA debug test work on
/// a Game Boy Advance cartridge, the others on a Game Boy cartridge.
pub fn console_of(cmd: Subcommand) -> (r: Console)
    ensures
        r == (match cmd {
            Subcommand::DebugGbaTest | Subcommand::GbaReadRom | Subcommand::GbaReadTest
            | Subcommand::GbaWriteTest | Subcommand::GbaWriteRom => Console::Gba,
            _ => Console::Gb,
        }),
{
    match cmd {
        Subcommand::DebugGbaTest | Subcommand::GbaReadRom | Subcommand::GbaReadTest
        | Subcommand::GbaWriteTest | Subcommand::GbaWriteRom => Console::Gba,
        _ => Console::Gb,
    }
}

/// The file name extensions of ROM images for `console`: `gb` and `gbc` for
/// the Game Boy, `gba` for the Game Boy Advance.
pub open spec fn is_rom_extension_spec(ext: Seq<u8>, console: Console) -> bool {
    match console {
        Console::Gb => ext == seq![103u8, 98u8] || ext == seq![103u8, 98u8, 99u8],
        Console::Gba => ext == seq![103u8, 98u8, 97u8],
    }
}

/// Whether a file name extension marks a ROM image for `console` inside an archive.
pub fn is_rom_extension(ext: &[u8], console: Console) -> (r: bool)
    ensures
        r == is_rom_extension_spec(ext@, console),
{
    let gb = ext.len() >= 2 && ext[0] == 103 && ext[1] == 98;
    let third = if ext.len() == 3 {
        ext[2]
    } else {
        0
    };
    let r = match console {
        Console::Gb => gb && (ext.len() == 2 || third == 99),
        Console::Gba => gb && third == 97,
    };
    proof {
        if ext@.len() == 3 {
            assert(third == ext@[2]);
        }
        if r {
            if ext@.len() == 2 {
                assert(ext@ =~= seq![103u8, 98u8]);
            } else if console == Console::Gb {
                assert(ext@ =~= seq![103u8, 98u8, 99u8]);
            } else {
                assert(ext@ =~= seq![103u8, 98u8, 97u8]);
            }
        } else if ext@ == seq![103u8, 98u8] {
            assert(ext@[0] == 103 && ext@[1] == 98);
        } else if ext@ == seq![103u8, 98u8, 99u8] {
            assert(ext@[0] == 103 && ext@[1] == 98 && ext@[2] == 99);
        } else if ext@ == seq![103u8, 98u8, 97u8] {
            assert(ext@[0] == 103 && ext@[1] == 98 && ext@[2] == 97);
        }
    }
    r
}

/// Whether a file name extension marks a zip archive: `zip`.
pub fn is_zip_extension(ext: &[u8]) -> (r: bool)
    ensures
        r == (ext@ == seq![122u8, 105u8, 112u8]),
{
    let r = ext.len() == 3 && ext[0] == 122 && ext[1] == 105 && ext[2] == 112;
    proof {
        if r {
            assert(ext@ =~= seq![122u8, 105u8, 112u8]);
        } else if ext@ == seq![122u8, 105u8, 112u8] {
            assert(ext@[0] == 122 && ext@[1] == 105 && ext@[2] == 112);
        }
    }
    r
}

} // verus!
