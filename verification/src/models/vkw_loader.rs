use std::io::Read;
use vstd::prelude::*;

verus! {

/// Why an entry could not be read from a ZIP archive.
#[derive(Debug, Clone, Copy, PartialEq, Eq, Structural)]
pub enum ZipEntryError {
    /// The bytes are not a ZIP archive that can be opened.
    NotAnArchive,
    /// The archive has no entry of that name (or it cannot be opened).
    MissingEntry,
    /// The entry could not be read or decompressed (for text: or is not UTF-8).
    ReadFailed,
}

/// What reading the entry `name` of the ZIP archive `archive` gives, as bytes.
pub uninterp spec fn zip_entry_bytes(archive: Seq<u8>, name: Seq<char>) -> Result<Seq<u8>, ZipEntryError>;

/// What reading the entry `name` of the ZIP archive `archive` gives, as UTF-8 text.
pub uninterp spec fn zip_entry_text(archive: Seq<u8>, name: Seq<char>) -> Result<Seq<char>, ZipEntryError>;

/// Opens `archive` with `zip::ZipArchive::new`, looks `name` up with
/// `ZipArchive::by_name` and reads it whole with `Read::read_to_end`.
/// Claims: the outcome is `zip_entry_bytes(archive, name)`.
#[verifier::external_body]
fn read_zip_entry(archive: &[u8], name: &str) -> (r: Result<Vec<u8>, ZipEntryError>)
    ensures
        match r {
            Ok(bytes) => zip_entry_bytes(archive@, name@) == Ok::<Seq<u8>, ZipEntryError>(bytes@),
            Err(e) => zip_entry_bytes(archive@, name@) == Err::<Seq<u8>, ZipEntryError>(e),
        },
{
    let mut zip = zip::ZipArchive::new(std::io::Cursor::new(archive)).map_err(|_| ZipEntryError::NotAnArchive)?;
    let mut entry = zip.by_name(name).map_err(|_| ZipEntryError::MissingEntry)?;
    let mut bytes = Vec::new();
    entry.read_to_end(&mut bytes).map_err(|_| ZipEntryError::ReadFailed)?;
    Ok(bytes)
}

/// Opens `archive` with `zip::ZipArchive::new`, looks `name` up with
/// `ZipArchive::by_name` and reads it whole with `Read::read_to_string`.
/// Claims: the outcome is `zip_entry_text(archive, name)`.
#[verifier::external_body]
fn read_zip_text(archive: &[u8], name: &str) -> (r: Result<String, ZipEntryError>)
    ensures
        match r {
            Ok(text) => zip_entry_text(archive@, name@) == Ok::<Seq<char>, ZipEntryError>(text@),
            Err(e) => zip_entry_text(archive@, name@) == Err::<Seq<char>, ZipEntryError>(e),
        },
{
    let mut zip = zip::ZipArchive::new(std::io::Cursor::new(archive)).map_err(|_| ZipEntryError::NotAnArchive)?;
    let mut entry = zip.by_name(name).map_err(|_| ZipEntryError::MissingEntry)?;
    let mut text = String::new();
    entry.read_to_string(&mut text).map_err(|_| ZipEntryError::ReadFailed)?;
    Ok(text)
}

/// Reads the text entry `name` of a `.vkw` package (a ZIP archive).
pub fn read_vkw_text(archive: &[u8], name: &str) -> (r: Result<String, ZipEntryError>)
    ensures
        match zip_entry_text(archive@, name@) {
            Ok(text) => r is Ok && r->Ok_0@ == text,
            Err(e) => r == Err::<String, ZipEntryError>(e),
        },
{
    read_zip_text(archive, name)
}

/// Reads the binary entry `name` of a `.vkw` package (a ZIP archive).
pub fn read_vkw_bytes(archive: &[u8], name: &str) -> (r: Result<Vec<u8>, ZipEntryError>)
    ensures
        match zip_entry_bytes(archive@, name@) {
            Ok(bytes) => r is Ok && r->Ok_0@ == bytes,
            Err(e) => r == Err::<Vec<u8>, ZipEntryError>(e),
        },
{
    read_zip_entry(archive, name)
}

} // verus!
