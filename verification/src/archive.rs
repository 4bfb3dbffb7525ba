//! Reading a zip archive that is held in memory.
//!
//! The archive format itself is left to the `zip` crate. This module asks it
//! for each entry in index order and records what the extraction needs: the
//! path the entry may be written to, whether it marks a directory, and the
//! bytes of a file. What the crate reports is classified by
//! [`classify_entry`] and [`file_entry`], which decide for every possible
//! report.

use crate::path::{is_confined, is_directory_marker, is_directory_name, path_bytes, RelativePath};
use std::io::Cursor;
use std::io::Read;
use vstd::prelude::*;
use zip::read::ZipFile;
use zip::result::ZipError;
use zip::ZipArchive;

verus! {

/// One entry of an archive, as far as the extraction is concerned.
#[derive(Clone, Debug, PartialEq, Eq)]
pub enum ArchiveEntry {
    /// The archive could not hand out the entry.
    Unreadable { cause: String },
    /// The entry's name does not give a confined path; it is skipped.
    Rejected,
    /// A directory marker.
    Directory { path: RelativePath },
    /// A file with its decompressed bytes.
    File { path: RelativePath, content: Vec<u8> },
    /// A file whose bytes could not be read.
    Damaged { path: RelativePath, cause: String },
}

impl ArchiveEntry {
    /// The path the entry is written to, if it is written at all.
    pub open spec fn path(self) -> Option<RelativePath> {
        match self {
            ArchiveEntry::Directory { path } => Some(path),
            ArchiveEntry::File { path, .. } => Some(path),
            ArchiveEntry::Damaged { path, .. } => Some(path),
            _ => None,
        }
    }

    /// The entry's path, where it has one, is confined.
    pub open spec fn valid(self) -> bool {
        self.path() matches Some(p) ==> p.valid()
    }

    /// Computes [`ArchiveEntry::path`]. The path handed out is confined.
    pub fn target(&self) -> (path: Option<&RelativePath>)
        ensures
            self.valid(),
            match path {
                Some(p) => self.path() == Some(*p),
                None => self.path() is None,
            },
    {
        match self {
            ArchiveEntry::Directory { path } => {
                proof {
                    use_type_invariant(path);
                }
                Some(path)
            },
            ArchiveEntry::File { path, .. } => {
                proof {
                    use_type_invariant(path);
                }
                Some(path)
            },
            ArchiveEntry::Damaged { path, .. } => {
                proof {
                    use_type_invariant(path);
                }
                Some(path)
            },
            _ => None,
        }
    }
}

/// What is known of an entry before its bytes are read.
#[derive(Debug, PartialEq, Eq)]
pub enum EntryHead {
    Unreadable { cause: String },
    Rejected,
    Directory { path: RelativePath },
    File { path: RelativePath },
}

/// Classifies an entry from the path that the archive library accepted for it
/// (`enclosed`) and from its name as stored in the archive (`name`, or the
/// reason why the name could not be decoded).
///
/// An entry without an accepted path, or with one that is not confined, is
/// rejected whatever its name. Otherwise an undecodable name makes the entry
/// unreadable, a name that ends with `/` makes it a directory, and any other
/// name a file.
pub fn classify_entry(enclosed: Option<String>, name: Result<String, String>) -> (head: EntryHead)
    ensures
        match enclosed {
            None => head == EntryHead::Rejected,
            Some(text) => if !is_confined(path_bytes(text@)) {
                head == EntryHead::Rejected
            } else {
                match name {
                    Err(cause) => head == (EntryHead::Unreadable { cause }),
                    Ok(stored) => if is_directory_marker(path_bytes(stored@)) {
                        head matches EntryHead::Directory { path } && path@ == text@
                    } else {
                        head matches EntryHead::File { path } && path@ == text@
                    },
                }
            },
        },
{
    match enclosed {
        None => EntryHead::Rejected,
        Some(text) => match RelativePath::new(text) {
            None => EntryHead::Rejected,
            Some(path) => match name {
                Err(cause) => EntryHead::Unreadable { cause },
                Ok(stored) => if is_directory_name(stored.as_str()) {
                    EntryHead::Directory { path }
                } else {
                    EntryHead::File { path }
                },
            },
        },
    }
}

/// Completes a file entry with the outcome of reading its bytes.
pub fn file_entry(path: RelativePath, content: Result<Vec<u8>, String>) -> (entry: ArchiveEntry)
    ensures
        match content {
            Ok(bytes) => entry == (ArchiveEntry::File { path, content: bytes }),
            Err(cause) => entry == (ArchiveEntry::Damaged { path, cause }),
        },
{
    match content {
        Ok(bytes) => ArchiveEntry::File { path, content: bytes },
        Err(cause) => ArchiveEntry::Damaged { path, cause },
    }
}

/// `std::io::Cursor`, the reader over the archive's bytes; opaque.
#[verifier::external_type_specification]
#[verifier::external_body]
#[verifier::reject_recursive_types(T)]
pub struct ExCursor<T>(Cursor<T>);

/// `zip::ZipArchive`, an archive whose index has been read; opaque.
#[verifier::external_type_specification]
#[verifier::external_body]
#[verifier::reject_recursive_types(R)]
pub struct ExZipArchive<R>(ZipArchive<R>);

/// `zip::result::ZipError`, the error of the archive library; opaque.
#[verifier::external_type_specification]
#[verifier::external_body]
pub struct ExZipError(ZipError);

/// `std::io::Error`, the error of reading an entry's bytes; opaque.
#[verifier::external_type_specification]
#[verifier::external_body]
pub struct ExIoError(std::io::Error);

/// An entry that the archive handed out and that has not been read from.
/// It wraps `zip::read::ZipFile`, whose bound on `std::io::Read` keeps
/// the type itself from being declared to the verifier.
#[verifier::external_body]
pub struct EntryHandle<'a> {
    file: ZipFile<'a, Cursor<Vec<u8>>>,
}

/// The bytes that an opened archive reads from.
pub uninterp spec fn archive_source(archive: ZipArchive<Cursor<Vec<u8>>>) -> Seq<u8>;

/// The place of a handle's entry: the bytes of its archive and its index.
pub uninterp spec fn handle_place(entry: EntryHandle<'_>) -> (Seq<u8>, nat);

/// Whether `zip::ZipArchive::new` reads an index from `bytes`.
pub uninterp spec fn zip_opens(bytes: Seq<u8>) -> bool;

/// What `zip::ZipArchive::len` returns for the archive in `bytes`: the
/// number of entries in its index.
pub uninterp spec fn zip_len(bytes: Seq<u8>) -> nat;

/// Whether `zip::ZipArchive::by_index` hands out entry `index` of the
/// archive in `bytes`.
pub uninterp spec fn zip_entry_opens(bytes: Seq<u8>, index: nat) -> bool;

/// What `zip::read::ZipFile::name` returns for entry `index` of the archive
/// in `bytes`: the name as stored, or nothing if it cannot be decoded.
pub uninterp spec fn zip_entry_name(bytes: Seq<u8>, index: nat) -> Option<Seq<char>>;

/// What reading entry `index` of the archive in `bytes` to its end returns:
/// the decompressed bytes, or nothing if they cannot be read.
pub uninterp spec fn zip_entry_bytes(bytes: Seq<u8>, index: nat) -> Option<Seq<u8>>;

/// `zip::ZipArchive::new` on the bytes of an archive: reads the central
/// directory, or says why the bytes are no zip archive. Whether it succeeds
/// is a function of the bytes, and the archive it returns reads from them.
#[verifier::external_body]
fn open_index(bytes: Vec<u8>) -> (r: Result<ZipArchive<Cursor<Vec<u8>>>, ZipError>)
    ensures
        r is Ok <==> zip_opens(bytes@),
        r matches Ok(archive) ==> archive_source(archive) == bytes@,
{
    ZipArchive::new(Cursor::new(bytes))
}

/// `zip::ZipArchive::len`: the number of entries in the index, a function of
/// the bytes that the archive reads from.
#[verifier::external_body]
fn entry_count(archive: &ZipArchive<Cursor<Vec<u8>>>) -> (n: usize)
    ensures
        n == zip_len(archive_source(*archive)),
{
    archive.len()
}

/// `zip::ZipArchive::by_index`: hands out the entry at `index`, or says why
/// it cannot be read. Whether it succeeds is a function of the archive's
/// bytes and the index; the handle stands at that entry, and the archive
/// goes on reading from the same bytes.
#[verifier::external_body]
fn open_entry<'a>(archive: &'a mut ZipArchive<Cursor<Vec<u8>>>, index: usize) -> (r: Result<
    EntryHandle<'a>,
    ZipError,
>)
    ensures
        r is Ok <==> zip_entry_opens(archive_source(*old(archive)), index as nat),
        r matches Ok(entry) ==> handle_place(entry) == (
            archive_source(*old(archive)),
            index as nat,
        ),
        archive_source(*final(archive)) == archive_source(*old(archive)),
{
    match archive.by_index(index) {
        Ok(file) => Ok(EntryHandle { file }),
        Err(e) => Err(e),
    }
}

/// `zip::read::ZipFile::enclosed_name`: the entry's name as a relative path
/// that the crate considers safe to join onto a directory, if there is one.
/// What it accepts differs between platforms, so nothing is claimed of the
/// result; [`classify_entry`] checks it again.
#[verifier::external_body]
fn enclosed_text(entry: &EntryHandle<'_>) -> (r: Option<String>) {
    match entry.file.enclosed_name() {
        Some(path) => Some(path.to_string_lossy().into_owned()),
        None => None,
    }
}

/// `zip::read::ZipFile::name`: the entry's name as stored in the archive, or
/// why it cannot be decoded; a function of the archive's bytes and the
/// entry's index.
#[verifier::external_body]
fn stored_name(entry: &EntryHandle<'_>) -> (r: Result<String, ZipError>)
    ensures
        match r {
            Ok(name) => zip_entry_name(handle_place(*entry).0, handle_place(*entry).1) == Some(
                name@,
            ),
            Err(_) => zip_entry_name(handle_place(*entry).0, handle_place(*entry).1) is None,
        },
{
    match entry.file.name() {
        Ok(name) => Ok(name.into_owned()),
        Err(e) => Err(e),
    }
}

/// `std::io::Read::read_to_end` on an entry that has not been read from: its
/// decompressed bytes, or why they cannot be read; a function of the
/// archive's bytes and the entry's index. The handle is used up.
#[verifier::external_body]
fn entry_bytes(entry: EntryHandle<'_>) -> (r: Result<Vec<u8>, std::io::Error>)
    ensures
        match r {
            Ok(bytes) => zip_entry_bytes(handle_place(entry).0, handle_place(entry).1) == Some(
                bytes@,
            ),
            Err(_) => zip_entry_bytes(handle_place(entry).0, handle_place(entry).1) is None,
        },
{
    let mut entry = entry;
    let mut bytes = Vec::new();
    match entry.file.read_to_end(&mut bytes) {
        Ok(_) => Ok(bytes),
        Err(e) => Err(e),
    }
}

/// The `Display` text of a `zip::result::ZipError`. Nothing is claimed of it.
#[verifier::external_body]
fn zip_error_text(error: &ZipError) -> (text: String) {
    error.to_string()
}

/// The `Display` text of a `std::io::Error`. Nothing is claimed of it.
#[verifier::external_body]
fn io_error_text(error: &std::io::Error) -> (text: String) {
    error.to_string()
}

/// `entry` is what becomes of entry `index` of the archive in `bytes` where
/// the archive library accepts `enclosed` as its path.
///
/// An entry that the library does not hand out is unreadable. Otherwise an
/// entry without an accepted path, or with one that is not confined, is
/// rejected; an entry whose name cannot be decoded is unreadable; a name
/// that ends with `/` makes a directory at the accepted path; any other name
/// makes a file there, with the bytes that the library reads, or a damaged
/// file if it cannot read them.
pub open spec fn entry_agrees(
    entry: ArchiveEntry,
    bytes: Seq<u8>,
    index: nat,
    enclosed: Option<Seq<char>>,
) -> bool {
    if !zip_entry_opens(bytes, index) {
        entry is Unreadable
    } else {
        match enclosed {
            None => entry == ArchiveEntry::Rejected,
            Some(text) => if !is_confined(path_bytes(text)) {
                entry == ArchiveEntry::Rejected
            } else {
                match zip_entry_name(bytes, index) {
                    None => entry is Unreadable,
                    Some(stored) => if is_directory_marker(path_bytes(stored)) {
                        entry matches ArchiveEntry::Directory { path } && path@ == text
                    } else {
                        match zip_entry_bytes(bytes, index) {
                            Some(content) => entry matches ArchiveEntry::File {
                                path,
                                content: held,
                            } && path@ == text && held@ == content,
                            None => entry matches ArchiveEntry::Damaged { path, .. } && path@
                                == text,
                        }
                    },
                }
            },
        }
    }
}

/// `entry` is what becomes of entry `index` of the archive in `bytes`,
/// whichever path the archive library accepts for it on this platform.
pub open spec fn entry_read(entry: ArchiveEntry, bytes: Seq<u8>, index: nat) -> bool {
    exists|enclosed: Option<Seq<char>>| #[trigger] entry_agrees(entry, bytes, index, enclosed)
}

/// Reads the entry at `index` of an opened archive.
fn read_entry(archive: &mut ZipArchive<Cursor<Vec<u8>>>, index: usize) -> (entry: ArchiveEntry)
    ensures
        entry.valid(),
        entry_read(entry, archive_source(*old(archive)), index as nat),
        archive_source(*final(archive)) == archive_source(*old(archive)),
{
    let ghost source = archive_source(*archive);
    match open_entry(archive, index) {
        Err(e) => {
            let entry = ArchiveEntry::Unreadable { cause: zip_error_text(&e) };
            assert(entry_agrees(entry, source, index as nat, None));
            entry
        },
        Ok(handle) => {
            let enclosed = enclosed_text(&handle);
            let ghost accepted = match &enclosed {
                Some(text) => Some(text@),
                None => None,
            };
            let name = match stored_name(&handle) {
                Ok(stored) => Ok(stored),
                Err(e) => Err(zip_error_text(&e)),
            };
            let entry = match classify_entry(enclosed, name) {
                EntryHead::Unreadable { cause } => ArchiveEntry::Unreadable { cause },
                EntryHead::Rejected => ArchiveEntry::Rejected,
                EntryHead::Directory { path } => {
                    proof {
                        use_type_invariant(&path);
                    }
                    ArchiveEntry::Directory { path }
                },
                EntryHead::File { path } => {
                    proof {
                        use_type_invariant(&path);
                    }
                    let content = match entry_bytes(handle) {
                        Ok(bytes) => Ok(bytes),
                        Err(e) => Err(io_error_text(&e)),
                    };
                    file_entry(path, content)
                },
            };
            assert(entry_agrees(entry, source, index as nat, accepted));
            entry
        },
    }
}

/// Reads a zip archive from its bytes: one [`ArchiveEntry`] for each entry
/// of the index, in index order, or the reason why the bytes are not a
/// readable archive.
///
/// The bytes are read exactly if the archive library reads an index from
/// them. The entries that come back are as many as the index holds, and
/// entry `k` is what becomes of entry `k` of the index ([`entry_read`]).
/// Every entry is valid, so no path among them leaves the directory it is
/// joined onto.
pub fn read_archive(bytes: Vec<u8>) -> (r: Result<Vec<ArchiveEntry>, String>)
    ensures
        r is Ok <==> zip_opens(bytes@),
        r matches Ok(entries) ==> {
            &&& entries.len() == zip_len(bytes@)
            &&& forall|k: int|
                0 <= k < entries.len() ==> (#[trigger] entries[k]).valid() && entry_read(
                    entries[k],
                    bytes@,
                    k as nat,
                )
        },
{
    let ghost source = bytes@;
    match open_index(bytes) {
        Err(e) => Err(zip_error_text(&e)),
        Ok(mut archive) => {
            let count: usize = entry_count(&archive);
            let mut entries: Vec<ArchiveEntry> = Vec::new();
            let mut index: usize = 0;
            while index < count
                invariant
                    index <= count,
                    entries.len() == index,
                    archive_source(archive) == source,
                    forall|k: int|
                        0 <= k < entries.len() ==> (#[trigger] entries[k]).valid() && entry_read(
                            entries[k],
                            source,
                            k as nat,
                        ),
                decreases count - index,
            {
                let entry = read_entry(&mut archive, index);
                entries.push(entry);
                index = index + 1;
            }
            Ok(entries)
        },
    }
}

} // verus!
