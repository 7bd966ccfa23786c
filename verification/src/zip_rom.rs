//! Taking the ROM image out of a zip archive: the first entry whose file name
//! extension marks a ROM image of the console being written.
use std::io::{Cursor, Read};
use std::path::Path;

use vstd::prelude::*;
use zip::ZipArchive;

use crate::session::{is_rom_extension, is_rom_extension_spec, Console};

verus! {

/// The number of entries of the zip archive `archive`, or `None` when it is
/// not a readable zip archive.
pub uninterp spec fn zip_entry_count_of(archive: Seq<u8>) -> Option<usize>;

/// The name of entry `i` of the zip archive `archive`, or `None` when it
/// cannot be read.
pub uninterp spec fn zip_entry_name_of(archive: Seq<u8>, i: usize) -> Option<Seq<char>>;

/// The uncompressed bytes of entry `i` of the zip archive `archive`, or
/// `None` when they cannot be read.
pub uninterp spec fn zip_entry_bytes_of(archive: Seq<u8>, i: usize) -> Option<Seq<u8>>;

/// The extension of the file name of path `name`, as text bytes, or `None`
/// when the file name has none.
pub uninterp spec fn path_extension_of(name: Seq<char>) -> Option<Seq<u8>>;

/// Opens the archive with `zip::ZipArchive::new` and returns `len()`; claims
/// only that the result is the one named by `zip_entry_count_of`, `None` when
/// the archive cannot be opened. `ZipArchive::new` adds the archive's offset
/// to each entry's header position with `checked_add` (zip 0.6.6,
/// read.rs:742), so no archive makes it overflow.
#[verifier::external_body]
fn zip_entry_count(archive: &[u8]) -> (r: Option<usize>)
    ensures
        r == zip_entry_count_of(archive@),
{
    match ZipArchive::new(Cursor::new(archive)) {
        Ok(z) => Some(z.len()),
        Err(_) => None,
    }
}

/// Opens the archive with `zip::ZipArchive::new` and returns the `name()` of
/// `by_index_raw(i)`, the entry as stored, whose name is the one `by_index`
/// gives; claims only that the result is the one named by
/// `zip_entry_name_of`, `None` when either call fails. `ZipArchive::new`
/// adds the archive's offset to each entry's header position with
/// `checked_add` (zip 0.6.6, read.rs:742), so no archive makes it overflow.
#[verifier::external_body]
fn zip_entry_name(archive: &[u8], i: usize) -> (r: Option<String>)
    ensures
        match r {
            Some(v) => zip_entry_name_of(archive@, i) == Some(v@),
            None => zip_entry_name_of(archive@, i) is None,
        },
{
    let mut z = match ZipArchive::new(Cursor::new(archive)) {
        Ok(z) => z,
        Err(_) => return None,
    };
    let name = match z.by_index_raw(i) {
        Ok(f) => Some(f.name().to_string()),
        Err(_) => None,
    };
    name
}

/// Opens the archive with `zip::ZipArchive::new`, takes entry `i` with
/// `by_index_decrypt(i, b"")` and reads it to its end; claims only that the
/// result is the one named by `zip_entry_bytes_of`, `None` when any of the
/// calls fails or the entry asks for a password. For an entry that is not
/// encrypted, `by_index_decrypt` drops the password and does what `by_index`
/// does (zip 0.6.6, read.rs:605-630), but hands back a wrong-password answer
/// instead of unwrapping it, as `by_index` does, into a panic for an entry
/// that carries AES data. For an encrypted entry it tries the empty password.
#[verifier::external_body]
fn zip_entry_bytes(archive: &[u8], i: usize) -> (r: Option<Vec<u8>>)
    ensures
        match r {
            Some(v) => zip_entry_bytes_of(archive@, i) == Some(v@),
            None => zip_entry_bytes_of(archive@, i) is None,
        },
{
    let mut z = match ZipArchive::new(Cursor::new(archive)) {
        Ok(z) => z,
        Err(_) => return None,
    };
    let mut f = match z.by_index_decrypt(i, b"") {
        Ok(Ok(f)) => f,
        Ok(Err(_)) => return None,
        Err(_) => return None,
    };
    let mut v: Vec<u8> = Vec::new();
    match f.read_to_end(&mut v) {
        Ok(_) => Some(v),
        Err(_) => None,
    }
}

/// Calls `std::path::Path::extension` on `name`; claims only that the result,
/// as text bytes, is the one named by `path_extension_of`.
#[verifier::external_body]
fn path_extension(name: &str) -> (r: Option<Vec<u8>>)
    ensures
        match r {
            Some(v) => path_extension_of(name@) == Some(v@),
            None => path_extension_of(name@) is None,
        },
{
    match Path::new(name).extension() {
        Some(e) => Some(e.to_string_lossy().as_bytes().to_vec()),
        None => None,
    }
}

/// Why no ROM image could be taken out of an archive.
#[derive(Debug, Clone, Copy, PartialEq, Eq)]
pub enum ZipRomError {
    /// The bytes are not a readable zip archive.
    Archive,
    /// Entry `index` could not be read.
    Entry { index: usize },
    /// No entry is a ROM image, or the first one is empty.
    NoRom,
}

/// What the name of an archive entry says: `None` when the name cannot be
/// read, else the extension of the name, if it has one.
pub open spec fn entry_view(e: Option<Option<Vec<u8>>>) -> Option<Option<Seq<u8>>> {
    match e {
        None => None,
        Some(None) => Some(None),
        Some(Some(ext)) => Some(Some(ext@)),
    }
}

/// `entry_view` of each entry.
pub open spec fn entries_view(v: Seq<Option<Option<Vec<u8>>>>) -> Seq<Option<Option<Seq<u8>>>> {
    Seq::new(v.len(), |k: int| entry_view(v[k]))
}

/// The ROM entry among entries `k..` of an archive whose names say
/// `entries`: the first whose extension marks a ROM image of `console`; an
/// unreadable name before it stops the search.
pub open spec fn rom_entry_from(
    entries: Seq<Option<Option<Seq<u8>>>>,
    console: Console,
    k: nat,
) -> Result<usize, ZipRomError>
    decreases entries.len() - k,
{
    if k >= entries.len() {
        Err(ZipRomError::NoRom)
    } else {
        match entries[k as int] {
            None => Err(ZipRomError::Entry { index: k as usize }),
            Some(ext) => if ext matches Some(e) && is_rom_extension_spec(e, console) {
                Ok(k as usize)
            } else {
                rom_entry_from(entries, console, k + 1)
            },
        }
    }
}

/// Picks the entry that holds the ROM image, given what the name of each
/// entry of the archive says, in order: the first entry whose extension marks
/// a ROM image of `console`. An entry whose name cannot be read before that
/// one stops the search with its index; without such an entry there is no ROM.
pub fn rom_entry(entries: &Vec<Option<Option<Vec<u8>>>>, console: Console) -> (r: Result<
    usize,
    ZipRomError,
>)
    ensures
        r == rom_entry_from(entries_view(entries@), console, 0),
{
    let ghost view = entries_view(entries@);
    let mut k: usize = 0;
    while k < entries.len()
        invariant
            k <= entries@.len(),
            view == entries_view(entries@),
            rom_entry_from(view, console, 0) == rom_entry_from(view, console, k as nat),
        decreases entries@.len() - k,
    {
        assert(view[k as int] == entry_view(entries@[k as int]));
        match &entries[k] {
            None => return Err(ZipRomError::Entry { index: k }),
            Some(ext) => {
                let is_rom = match ext {
                    Some(e) => is_rom_extension(e.as_slice(), console),
                    None => false,
                };
                if is_rom {
                    return Ok(k);
                }
            },
        }
        k = k + 1;
    }
    Err(ZipRomError::NoRom)
}

/// What the names of the first `n` entries of the archive say.
pub open spec fn zip_entries_of(archive: Seq<u8>, n: nat) -> Seq<Option<Option<Seq<u8>>>> {
    Seq::new(
        n,
        |k: int|
            match zip_entry_name_of(archive, k as usize) {
                None => None,
                Some(name) => Some(path_extension_of(name)),
            },
    )
}

/// The ROM image of `console` in a zip archive.
pub open spec fn rom_from_zip_spec(archive: Seq<u8>, console: Console) -> Result<
    Seq<u8>,
    ZipRomError,
> {
    match zip_entry_count_of(archive) {
        None => Err(ZipRomError::Archive),
        Some(n) => match rom_entry_from(zip_entries_of(archive, n as nat), console, 0) {
            Err(e) => Err(e),
            Ok(k) => match zip_entry_bytes_of(archive, k) {
                None => Err(ZipRomError::Entry { index: k }),
                Some(b) => if b.len() == 0 {
                    Err(ZipRomError::NoRom)
                } else {
                    Ok(b)
                },
            },
        },
    }
}

/// Takes the ROM image of `console` out of a zip archive: the bytes of the
/// first entry whose file name has the extension `gb` or `gbc` (Game Boy) or
/// `gba` (Game Boy Advance); an archive without one, or whose first one is
/// empty, holds no ROM.
pub fn rom_from_zip(archive: &[u8], console: Console) -> (r: Result<Vec<u8>, ZipRomError>)
    ensures
        match r {
            Ok(v) => rom_from_zip_spec(archive@, console) == Ok::<Seq<u8>, ZipRomError>(v@),
            Err(e) => rom_from_zip_spec(archive@, console) == Err::<Seq<u8>, ZipRomError>(e),
        },
{
    let n = match zip_entry_count(archive) {
        Some(n) => n,
        None => return Err(ZipRomError::Archive),
    };
    let ghost all = zip_entries_of(archive@, n as nat);
    let mut entries: Vec<Option<Option<Vec<u8>>>> = Vec::new();
    let mut k: usize = 0;
    while k < n
        invariant
            k <= n,
            all == zip_entries_of(archive@, n as nat),
            entries@.len() == k,
            entries_view(entries@) =~= all.take(k as int),
        decreases n - k,
    {
        let e = match zip_entry_name(archive, k) {
            None => None,
            Some(name) => Some(path_extension(name.as_str())),
        };
        assert(entry_view(e) == all[k as int]);
        let ghost prev = entries@;
        entries.push(e);
        k = k + 1;
        assert forall|j: int| 0 <= j < k implies entries_view(entries@)[j] == all.take(
            k as int,
        )[j] by {
            if j < k - 1 {
                assert(entries@[j] == prev[j]);
                assert(entries_view(prev)[j] == all.take(k - 1)[j]);
            }
        }
    }
    assert(all.take(n as int) =~= all);
    let i = match rom_entry(&entries, console) {
        Ok(i) => i,
        Err(e) => return Err(e),
    };
    match zip_entry_bytes(archive, i) {
        None => Err(ZipRomError::Entry { index: i }),
        Some(b) => {
            if b.len() == 0 {
                Err(ZipRomError::NoRom)
            } else {
                Ok(b)
            }
        },
    }
}

} // verus!
