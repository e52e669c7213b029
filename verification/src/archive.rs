//! Archives in memory, written and read with the `zip` crate.
//!
//! What is known of an archive in the making is the list of its entries;
//! what is known of an archive to read is what the crate hands out for each
//! position. Nothing here is proved of the bytes of an archive.

use vstd::prelude::*;
use zip::result::ZipError;
use zip::ZipArchive;
use std::io::Cursor;

verus! {

/// `std::io::Cursor`, taken as it is: nothing is known of what it holds.
#[verifier::external_type_specification]
#[verifier::external_body]
#[verifier::reject_recursive_types(T)]
pub struct ExCursor<T>(Cursor<T>);

/// `zip::ZipArchive`, an archive that is open for reading. What is known of
/// it goes through `archive_source`.
#[verifier::external_type_specification]
#[verifier::external_body]
#[verifier::reject_recursive_types(R)]
pub struct ExZipArchive<R>(ZipArchive<R>);

/// `zip::result::ZipError`, carried from the crate to the caller unread.
#[verifier::external_type_specification]
#[verifier::external_body]
pub struct ExZipError(ZipError);

/// An archive that is being written to memory: a `zip::ZipWriter` over a
/// cursor. What is known of it goes through `written_entries`.
#[verifier::external_body]
pub struct ArchiveWriter {
    inner: zip::ZipWriter<Cursor<Vec<u8>>>,
}

/// The entries written to an archive so far, in order: for each its name,
/// the bytes written to it, and whether they are deflated.
pub uninterp spec fn written_entries(writer: ArchiveWriter) -> Seq<(Seq<char>, Seq<u8>, bool)>;

/// Whether the entry written last to an archive is a file that is still
/// open for writing.
pub uninterp spec fn writer_is_open(writer: ArchiveWriter) -> bool;

/// The bytes of the archive that finishing a writer gives.
pub uninterp spec fn finished_archive(writer: ArchiveWriter) -> Seq<u8>;

/// Whether an archive in memory that holds these entries, with a file open
/// or not, takes a directory of this name.
pub uninterp spec fn zip_takes_directory(
    written: Seq<(Seq<char>, Seq<u8>, bool)>,
    open: bool,
    name: Seq<char>,
) -> bool;

/// Whether an archive in memory that holds these entries, with a file open
/// or not, starts a file of this name, deflated or stored.
pub uninterp spec fn zip_starts_file(
    written: Seq<(Seq<char>, Seq<u8>, bool)>,
    open: bool,
    name: Seq<char>,
    deflate: bool,
) -> bool;

/// Whether an archive in memory that holds these entries, the last of which
/// is a file just started, takes these bytes for that file.
pub uninterp spec fn zip_takes_bytes(written: Seq<(Seq<char>, Seq<u8>, bool)>, bytes: Seq<u8>) -> bool;

/// Whether an archive in memory that holds these entries, with a file open
/// or not, can be completed.
pub uninterp spec fn zip_finishes(written: Seq<(Seq<char>, Seq<u8>, bool)>, open: bool) -> bool;

/// The bytes that an archive was opened from.
pub uninterp spec fn archive_source(archive: ZipArchive<Cursor<Vec<u8>>>) -> Seq<u8>;

/// The number of entries that the archive with these bytes lists.
pub uninterp spec fn zip_len(bytes: Seq<u8>) -> nat;

/// Whether these bytes are an archive that can be opened.
pub uninterp spec fn zip_opens(bytes: Seq<u8>) -> bool;

/// Whether the entry at a position of the archive with these bytes is a
/// file: no directory and no symbolic link. There is no answer where the
/// entry cannot be had.
pub uninterp spec fn zip_entry_is_file(bytes: Seq<u8>, index: nat) -> Option<bool>;

/// The path of the entry at a position of the archive with these bytes, as
/// the list of its ordinary components: separators, roots and steps up or
/// in place are left out. There is no path where the entry cannot be had or
/// its name cannot be read.
pub uninterp spec fn zip_entry_path(bytes: Seq<u8>, index: nat) -> Option<Seq<Seq<char>>>;

/// The content of the entry at a position of the archive with these bytes.
/// There is no content where the entry cannot be had or cannot be read to
/// its end.
pub uninterp spec fn zip_entry_bytes(bytes: Seq<u8>, index: nat) -> Option<Seq<u8>>;

/// The name that a directory gets in an archive: a slash is put behind it
/// unless it ends with a slash or a backslash.
pub open spec fn directory_entry_name(name: Seq<char>) -> Seq<char> {
    if name.len() > 0 && (name.last() == '/' || name.last() == '\\') {
        name
    } else {
        name + seq!['/']
    }
}

/// Starts an archive in memory with `ZipWriter::new`: it has no entry yet,
/// and no file is open.
#[verifier::external_body]
pub(crate) fn new_writer() -> (writer: ArchiveWriter)
    ensures
        written_entries(writer).len() == 0,
        !writer_is_open(writer),
{
    ArchiveWriter { inner: zip::ZipWriter::new(Cursor::new(Vec::new())) }
}

/// Adds a directory with `ZipWriter::add_directory`. Whether the archive
/// takes it depends on what the archive holds, on whether a file is open,
/// and on the name. On success the archive has one more entry, the last:
/// the directory under its name, without content and stored; no file is
/// open then.
#[verifier::external_body]
pub(crate) fn add_directory(writer: &mut ArchiveWriter, name: &str) -> (added: Result<
    (),
    ZipError,
>)
    ensures
        added is Ok <==> zip_takes_directory(
            written_entries(*old(writer)),
            writer_is_open(*old(writer)),
            name@,
        ),
        added is Ok ==> written_entries(*final(writer)) == written_entries(*old(writer)).push(
            (directory_entry_name(name@), Seq::empty(), false),
        ),
        added is Ok ==> !writer_is_open(*final(writer)),
{
    writer.inner.add_directory(name, zip::write::SimpleFileOptions::default())
}

/// Starts a file with `ZipWriter::start_file`, deflated or stored. Whether
/// the archive starts it depends on what the archive holds, on whether a
/// file is open, on the name and on the coding. On success the archive has
/// one more entry, the last: the file under the name given, without content
/// yet and open for writing.
#[verifier::external_body]
pub(crate) fn start_file(writer: &mut ArchiveWriter, name: &str, deflate: bool) -> (started:
    Result<(), ZipError>)
    ensures
        started is Ok <==> zip_starts_file(
            written_entries(*old(writer)),
            writer_is_open(*old(writer)),
            name@,
            deflate,
        ),
        started is Ok ==> written_entries(*final(writer)) == written_entries(*old(writer)).push(
            (name@, Seq::empty(), deflate),
        ),
        started is Ok ==> writer_is_open(*final(writer)),
{
    let method = if deflate {
        zip::CompressionMethod::Deflated
    } else {
        zip::CompressionMethod::Stored
    };
    writer.inner.start_file(name, zip::write::SimpleFileOptions::default().compression_method(method))
}

/// Writes the content of the file just started, with `Write::write_all` on
/// the `ZipWriter`: the file has to be open and without content. Whether
/// the archive takes the bytes depends on what the archive holds and on the
/// bytes. On success the archive's last entry has these bytes, nothing else
/// has changed, and the file is still open.
#[verifier::external_body]
pub(crate) fn write_all(writer: &mut ArchiveWriter, bytes: &[u8]) -> (written: Result<
    (),
    ZipError,
>)
    requires
        writer_is_open(*old(writer)),
        written_entries(*old(writer)).len() > 0,
        written_entries(*old(writer)).last().1.len() == 0,
    ensures
        written is Ok <==> zip_takes_bytes(written_entries(*old(writer)), bytes@),
        written is Ok ==> {
            let before = written_entries(*old(writer));
            written_entries(*final(writer)) == before.update(
                before.len() - 1,
                (before.last().0, bytes@, before.last().2),
            )
        },
        written is Ok ==> writer_is_open(*final(writer)),
{
    std::io::Write::write_all(&mut writer.inner, bytes).map_err(ZipError::from)
}

/// Completes the archive with `ZipWriter::finish` and hands out its bytes.
/// Whether the archive can be completed depends on what it holds and on
/// whether a file is open.
#[verifier::external_body]
pub(crate) fn finish(writer: ArchiveWriter) -> (finished: Result<Vec<u8>, ZipError>)
    ensures
        finished is Ok <==> zip_finishes(written_entries(writer), writer_is_open(writer)),
        finished matches Ok(bytes) ==> bytes@ == finished_archive(writer),
{
    writer.inner.finish().map(|cursor| cursor.into_inner())
}

/// Opens an archive held in memory with `ZipArchive::new`. Whether that
/// succeeds depends on the bytes alone, and goes by the name `zip_opens`.
#[verifier::external_body]
pub(crate) fn open_archive(bytes: Vec<u8>) -> (opened: Result<
    ZipArchive<Cursor<Vec<u8>>>,
    ZipError,
>)
    ensures
        opened is Ok <==> zip_opens(bytes@),
        opened matches Ok(archive) ==> archive_source(archive) == bytes@,
{
    ZipArchive::new(Cursor::new(bytes))
}

/// The number of entries of an archive, from `ZipArchive::len`.
#[verifier::external_body]
pub(crate) fn archive_len(archive: &ZipArchive<Cursor<Vec<u8>>>) -> (len: usize)
    ensures
        len == zip_len(archive_source(*archive)),
{
    archive.len()
}

/// Whether the entry at `index` is a file, from `ZipArchive::by_index` and
/// `ZipFile::is_file`. The answer, and whether there is one, depend on the
/// archive's bytes and the position alone. The archive stays the archive of
/// the same bytes.
#[verifier::external_body]
pub(crate) fn entry_is_file(archive: &mut ZipArchive<Cursor<Vec<u8>>>, index: usize) -> (found:
    Result<bool, ZipError>)
    ensures
        archive_source(*final(archive)) == archive_source(*old(archive)),
        match found {
            Ok(file) => zip_entry_is_file(archive_source(*old(archive)), index as nat) == Some(
                file,
            ),
            Err(_) => zip_entry_is_file(archive_source(*old(archive)), index as nat) is None,
        },
{
    archive.by_index(index).map(|file| file.is_file())
}

/// The path of the entry at `index`, from `ZipArchive::by_index` and
/// `ZipFile::mangled_name`, component by component. The path, and whether
/// there is one, depend on the archive's bytes and the position alone. The
/// archive stays the archive of the same bytes.
#[verifier::external_body]
pub(crate) fn entry_path(archive: &mut ZipArchive<Cursor<Vec<u8>>>, index: usize) -> (found:
    Result<Vec<String>, ZipError>)
    ensures
        archive_source(*final(archive)) == archive_source(*old(archive)),
        match found {
            Ok(path) => zip_entry_path(archive_source(*old(archive)), index as nat) == Some(
                crate::text::views_of(path@),
            ),
            Err(_) => zip_entry_path(archive_source(*old(archive)), index as nat) is None,
        },
{
    let path = archive.by_index(index)?.mangled_name()?;
    Ok(path.iter().map(|part| part.to_string_lossy().into_owned()).collect())
}

/// The content of the entry at `index`, from `ZipArchive::by_index` and
/// `Read::read_to_end` on the `ZipFile`. The content, and whether it can be
/// read, depend on the archive's bytes and the position alone. The archive
/// stays the archive of the same bytes.
#[verifier::external_body]
pub(crate) fn entry_bytes(archive: &mut ZipArchive<Cursor<Vec<u8>>>, index: usize) -> (found:
    Result<Vec<u8>, ZipError>)
    ensures
        archive_source(*final(archive)) == archive_source(*old(archive)),
        match found {
            Ok(bytes) => zip_entry_bytes(archive_source(*old(archive)), index as nat) == Some(
                bytes@,
            ),
            Err(_) => zip_entry_bytes(archive_source(*old(archive)), index as nat) is None,
        },
{
    let mut file = archive.by_index(index)?;
    let mut bytes = Vec::new();
    std::io::Read::read_to_end(&mut file, &mut bytes)?;
    Ok(bytes)
}

} // verus!
