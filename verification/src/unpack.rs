//! Reading the pages out of an archive.

use vstd::prelude::*;
use zip::result::ZipError;
use crate::archive::{archive_len, archive_source, entry_bytes, entry_is_file, entry_path,
    open_archive, zip_entry_bytes, zip_entry_is_file, zip_entry_path, zip_len, zip_opens};
use crate::decode::{Config, ExtractedPage, is_extraction, plan_extraction};
use crate::text::views_of;

verus! {

/// Why an archive could not be read.
#[derive(Debug)]
pub enum UnpackingError {
    /// The bytes are no archive that can be opened.
    InvalidZipArchive(ZipError),
    /// The entry at this position could not be read.
    ZipError { entry: usize, err: ZipError },
}

/// What was read out of an archive.
#[derive(Debug)]
pub struct DecodedArchive {
    /// The path of each entry of the archive, component by component.
    pub paths: Vec<Vec<String>>,
    /// For each entry of the archive, whether it is a file.
    pub is_file: Vec<bool>,
    /// The pages to write, in order.
    pub pages: Vec<ExtractedPage>,
    /// The bytes of each page, in the pages' order.
    pub contents: Vec<Vec<u8>>,
}

/// Whether the archive with these bytes lists the entry at a position: it
/// says whether the entry is a file, and under which path it stands.
pub open spec fn entry_is_listed(bytes: Seq<u8>, index: nat) -> bool {
    zip_entry_is_file(bytes, index) is Some && zip_entry_path(bytes, index) is Some
}

/// Whether `paths` and `is_file` list the entries of the archive with these
/// bytes, as the archive gives them.
pub open spec fn lists_archive(paths: Seq<Vec<String>>, is_file: Seq<bool>, bytes: Seq<u8>) -> bool {
    &&& paths.len() == zip_len(bytes)
    &&& is_file.len() == zip_len(bytes)
    &&& forall|i: int|
        0 <= i < paths.len() ==> zip_entry_path(bytes, i as nat) == Some(
            views_of((#[trigger] paths[i])@),
        )
    &&& forall|i: int|
        0 <= i < is_file.len() ==> zip_entry_is_file(bytes, i as nat) == Some(
            #[trigger] is_file[i],
        )
}

/// Whether the contents of the first `upto` of these pages can be read from
/// the archive with these bytes.
pub open spec fn pages_are_readable(pages: Seq<ExtractedPage>, bytes: Seq<u8>, upto: int) -> bool {
    forall|j: int|
        0 <= j < upto ==> zip_entry_bytes(bytes, (#[trigger] pages[j]).entry as nat) is Some
}

/// Whether `decoded` is what the archive with these bytes holds under a
/// configuration: the archive's entries are listed as the archive gives
/// them, the pages are the extraction planned from that list, and each page
/// comes with the content of its entry.
pub open spec fn is_decoding(decoded: DecodedArchive, bytes: Seq<u8>, config: Config) -> bool {
    &&& lists_archive(decoded.paths@, decoded.is_file@, bytes)
    &&& is_extraction(decoded.pages@, decoded.paths@, decoded.is_file@, config)
    &&& decoded.contents@.len() == decoded.pages@.len()
    &&& forall|k: int|
        0 <= k < decoded.contents@.len() ==> zip_entry_bytes(
            bytes,
            decoded.pages@[k].entry as nat,
        ) == Some((#[trigger] decoded.contents@[k])@)
}

/// Whether listing the archive with these bytes stops at the entry at
/// `entry`: the entries before it are listed, and this one is not.
pub open spec fn listing_fails_at(bytes: Seq<u8>, entry: nat) -> bool {
    &&& entry < zip_len(bytes)
    &&& !entry_is_listed(bytes, entry)
    &&& forall|i: nat| i < entry ==> #[trigger] entry_is_listed(bytes, i)
}

/// Whether `pages` is the extraction planned from the listing of the archive
/// with these bytes, and reading the pages' contents stops at the page of
/// rank `rank`, which comes from the entry at `entry`: the pages before it
/// can be read, and this one cannot.
pub open spec fn reading_stops(
    paths: Seq<Vec<String>>,
    is_file: Seq<bool>,
    pages: Seq<ExtractedPage>,
    rank: int,
    bytes: Seq<u8>,
    config: Config,
    entry: nat,
) -> bool {
    &&& lists_archive(paths, is_file, bytes)
    &&& is_extraction(pages, paths, is_file, config)
    &&& 0 <= rank < pages.len()
    &&& pages[rank].entry == entry
    &&& zip_entry_bytes(bytes, entry) is None
    &&& pages_are_readable(pages, bytes, rank)
}

/// Whether the archive with these bytes can be listed in full, and reading
/// the pages to extract under a configuration stops at the entry at
/// `entry`.
pub open spec fn reading_fails_at(bytes: Seq<u8>, config: Config, entry: nat) -> bool {
    exists|paths: Seq<Vec<String>>, is_file: Seq<bool>, pages: Seq<ExtractedPage>, rank: int|
        #[trigger] reading_stops(paths, is_file, pages, rank, bytes, config, entry)
}

/// What decoding the archive with these bytes comes to. It succeeds where
/// the archive opens, all of its entries are listed, and every page to
/// extract can be read; what it gives then is the archive's decoding. Bytes
/// that do not open are refused as no archive. Otherwise the decoding ends
/// at the first entry that is not listed or, with all entries listed, at the
/// entry of the first page, in the pages' order, that cannot be read.
pub open spec fn decoding_outcome(
    decoded: Result<DecodedArchive, UnpackingError>,
    bytes: Seq<u8>,
    config: Config,
) -> bool {
    match decoded {
        Ok(archive) => zip_opens(bytes) && is_decoding(archive, bytes, config),
        Err(UnpackingError::InvalidZipArchive(_)) => !zip_opens(bytes),
        Err(UnpackingError::ZipError { entry, err }) => zip_opens(bytes) && (listing_fails_at(
            bytes,
            entry as nat,
        ) || reading_fails_at(bytes, config, entry as nat)),
    }
}

/// Reads the pages out of the archive with these bytes: lists its entries,
/// plans the extraction under the configuration, and reads the content of
/// each page. An archive that cannot be opened, or an entry that cannot be
/// read, ends the decoding.
pub fn decode_archive(bytes: Vec<u8>, config: &Config) -> (decoded: Result<
    DecodedArchive,
    UnpackingError,
>)
    ensures
        decoding_outcome(decoded, bytes@, *config),
{
    let ghost source = bytes@;
    let mut archive = match open_archive(bytes) {
        Err(err) => {
            return Err(UnpackingError::InvalidZipArchive(err));
        },
        Ok(archive) => archive,
    };
    let len = archive_len(&archive);
    let mut paths: Vec<Vec<String>> = Vec::new();
    let mut is_file: Vec<bool> = Vec::new();
    let mut i: usize = 0;
    while i < len
        invariant
            i <= len,
            len == zip_len(source),
            source == bytes@,
            zip_opens(source),
            archive_source(archive) == source,
            paths@.len() == i,
            is_file@.len() == i,
            forall|k: int|
                0 <= k < i ==> zip_entry_path(source, k as nat) == Some(
                    views_of((#[trigger] paths@[k])@),
                ),
            forall|k: int|
                0 <= k < i ==> zip_entry_is_file(source, k as nat) == Some(#[trigger] is_file@[k]),
        decreases len - i,
    {
        proof {
            assert forall|k: nat| k < i implies #[trigger] entry_is_listed(source, k) by {
                assert(zip_entry_path(source, k) == Some(views_of(paths@[k as int]@)));
                assert(zip_entry_is_file(source, k) == Some(is_file@[k as int]));
            }
        }
        let file = match entry_is_file(&mut archive, i) {
            Err(err) => {
                assert(listing_fails_at(source, i as nat));
                return Err(UnpackingError::ZipError { entry: i, err });
            },
            Ok(file) => file,
        };
        let path = match entry_path(&mut archive, i) {
            Err(err) => {
                assert(listing_fails_at(source, i as nat));
                return Err(UnpackingError::ZipError { entry: i, err });
            },
            Ok(path) => path,
        };
        paths.push(path);
        is_file.push(file);
        i = i + 1;
    }
    let pages = plan_extraction(&paths, &is_file, config);
    assert(lists_archive(paths@, is_file@, source));
    let mut contents: Vec<Vec<u8>> = Vec::new();
    let mut k: usize = 0;
    while k < pages.len()
        invariant
            k <= pages.len(),
            source == bytes@,
            zip_opens(source),
            archive_source(archive) == source,
            lists_archive(paths@, is_file@, source),
            is_extraction(pages@, paths@, is_file@, *config),
            contents@.len() == k,
            forall|j: int|
                0 <= j < k ==> zip_entry_bytes(source, pages@[j].entry as nat) == Some(
                    (#[trigger] contents@[j])@,
                ),
        decreases pages.len() - k,
    {
        let entry = pages[k].entry;
        let content = match entry_bytes(&mut archive, entry) {
            Err(err) => {
                proof {
                    assert forall|j: int| 0 <= j < k implies zip_entry_bytes(
                        source,
                        (#[trigger] pages@[j]).entry as nat,
                    ) is Some by {
                        assert(zip_entry_bytes(source, pages@[j].entry as nat) == Some(
                            contents@[j]@,
                        ));
                    }
                    assert(reading_stops(
                        paths@,
                        is_file@,
                        pages@,
                        k as int,
                        source,
                        *config,
                        entry as nat,
                    ));
                }
                return Err(UnpackingError::ZipError { entry, err });
            },
            Ok(content) => content,
        };
        contents.push(content);
        k = k + 1;
    }
    Ok(DecodedArchive { paths, is_file, pages, contents })
}

} // verus!
