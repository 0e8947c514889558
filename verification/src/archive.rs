//! The zip container of a bundle, as the `zip` crate reads it.
//!
//! Nothing here is proved: each function states what the `zip` crate does, in
//! terms of what an archive holds entry by entry.

use vstd::prelude::*;
use vstd::utf8::{decode_utf8, valid_utf8};

verus! {

#[verifier::external_type_specification]
#[verifier::external_body]
#[verifier::reject_recursive_types(R)]
pub struct ExZipArchive<R>(zip::ZipArchive<R>);

#[verifier::external_type_specification]
#[verifier::external_body]
#[verifier::reject_recursive_types(T)]
pub struct ExCursor<T>(std::io::Cursor<T>);

#[verifier::external_type_specification]
#[verifier::external_body]
pub struct ExZipError(zip::result::ZipError);

#[verifier::external_type_specification]
#[verifier::external_body]
pub struct ExIoError(std::io::Error);

/// A zip archive that has been read into memory.
pub type Archive = zip::ZipArchive<std::io::Cursor<Vec<u8>>>;

/// What an archive yields for one of its entries.
pub struct ArchiveEntry {
    /// The entry's name and whether it is a regular file (no directory, no
    /// symbolic link); `None` where the entry cannot be opened.
    pub header: Option<(Seq<char>, bool)>,
    /// The entry's decompressed content; `None` where it cannot be read to
    /// its end.
    pub payload: Option<Seq<u8>>,
}

impl ArchiveEntry {
    /// The entry's content as text, where it can be read and is UTF-8.
    pub open spec fn text(self) -> Option<Seq<char>> {
        match self.payload {
            Some(bytes) => if valid_utf8(bytes) {
                Some(decode_utf8(bytes))
            } else {
                None
            },
            None => None,
        }
    }
}

/// The entries of an archive, in the order of its central directory.
pub uninterp spec fn archive_entries(archive: Archive) -> Seq<ArchiveEntry>;

/// The entries that the bytes of a zip container describe; `None` where the
/// bytes are no container that can be read.
pub uninterp spec fn zip_entries(bytes: Seq<u8>) -> Option<Seq<ArchiveEntry>>;

/// The name and kind of an entry.
#[derive(Debug)]
pub struct EntryHeader {
    pub name: String,
    pub is_file: bool,
}

/// Reads the central directory of a zip container held in memory.
///
/// Wraps `zip::ZipArchive::new` over a `std::io::Cursor`. The archive that
/// comes back holds the entries that the bytes describe; an error comes back
/// exactly where the bytes describe none.
#[verifier::external_body]
pub(crate) fn open_archive(bytes: Vec<u8>) -> (opened: Result<Archive, zip::result::ZipError>)
    ensures
        match opened {
            Ok(archive) => zip_entries(bytes@) == Some(archive_entries(archive)),
            Err(_) => zip_entries(bytes@) is None,
        },
{
    zip::ZipArchive::new(std::io::Cursor::new(bytes))
}

/// The number of entries.
///
/// Wraps `zip::ZipArchive::len`.
#[verifier::external_body]
pub(crate) fn entry_count(archive: &Archive) -> (n: usize)
    ensures
        n == archive_entries(*archive).len(),
{
    archive.len()
}

/// Opens the entry at `index` and hands out its name and kind.
///
/// Wraps `zip::ZipArchive::by_index`, with `name` and `is_file` of the file
/// it returns. Opening an entry leaves the archive's entries as they were. An
/// index past the last entry is an error, as is an entry whose local header,
/// compression method or name cannot be handled.
#[verifier::external_body]
pub(crate) fn read_header(archive: &mut Archive, index: usize) -> (header: Result<
    EntryHeader,
    zip::result::ZipError,
>)
    ensures
        archive_entries(*final(archive)) == archive_entries(*old(archive)),
        header is Ok <==> index < archive_entries(*old(archive)).len() && archive_entries(
            *old(archive),
        )[index as int].header is Some,
        header matches Ok(h) ==> archive_entries(*old(archive))[index as int].header == Some(
            (h.name@, h.is_file),
        ),
{
    let file = archive.by_index(index)?;
    let name = file.name()?.into_owned();
    Ok(EntryHeader { name, is_file: file.is_file() })
}

/// Reads the content of the entry at `index` to its end.
///
/// Wraps `zip::ZipArchive::by_index` and `std::io::Read::read_to_end` on the
/// file it returns. Reading leaves the archive's entries as they were.
#[verifier::external_body]
pub(crate) fn read_bytes(archive: &mut Archive, index: usize) -> (content: Result<
    Vec<u8>,
    std::io::Error,
>)
    ensures
        archive_entries(*final(archive)) == archive_entries(*old(archive)),
        content is Ok <==> index < archive_entries(*old(archive)).len() && archive_entries(
            *old(archive),
        )[index as int].payload is Some,
        content matches Ok(bytes) ==> archive_entries(*old(archive))[index as int].payload
            == Some(bytes@),
{
    let mut bytes = Vec::new();
    let mut file = archive.by_index(index)?;
    std::io::Read::read_to_end(&mut file, &mut bytes)?;
    Ok(bytes)
}

/// Reads the content of the entry at `index` as text.
///
/// Wraps `zip::ZipArchive::by_index` and `std::io::Read::read_to_string` on
/// the file it returns: std documents that it reads all bytes to the end and
/// fails where they are not valid UTF-8. Reading leaves the archive's entries
/// as they were.
#[verifier::external_body]
pub(crate) fn read_text(archive: &mut Archive, index: usize) -> (content: Result<
    String,
    std::io::Error,
>)
    ensures
        archive_entries(*final(archive)) == archive_entries(*old(archive)),
        content is Ok <==> index < archive_entries(*old(archive)).len() && archive_entries(
            *old(archive),
        )[index as int].text() is Some,
        content matches Ok(text) ==> archive_entries(*old(archive))[index as int].text()
            == Some(text@),
{
    let mut text = String::new();
    let mut file = archive.by_index(index)?;
    std::io::Read::read_to_string(&mut file, &mut text)?;
    Ok(text)
}

} // verus!
