//! Writing a laid out volume as an archive.

use vstd::prelude::*;
use zip::result::ZipError;
use crate::archive::{ArchiveWriter, add_directory, directory_entry_name, finish, finished_archive,
    new_writer, start_file, write_all, writer_is_open, written_entries, zip_finishes,
    zip_starts_file, zip_takes_bytes, zip_takes_directory};
use crate::build_vol::{ChapterLayout, VolumeLayout};

verus! {

/// Why a volume could not be written.
#[derive(Debug)]
pub enum PackingError {
    /// The pages handed over are not those of the layout: a chapter is
    /// missing or in excess, or a chapter has another number of pages.
    PagesDoNotMatchLayout,
    /// The directory of the chapter at this position could not be added.
    FailedToCreateChapterDirectoryInZip { chapter: usize, err: ZipError },
    /// The file of a page could not be started: the chapter's and the page's
    /// positions.
    FailedToCreateImageFileInZip { chapter: usize, page: usize, err: ZipError },
    /// The bytes of a page could not be written: the chapter's and the page's
    /// positions.
    FailedToWriteImageFileToZip { chapter: usize, page: usize, err: ZipError },
    /// The archive could not be completed.
    FailedToCloseZipArchive(ZipError),
}

/// Whether `pages` holds the bytes of the pages of `chapters`: one list for
/// each chapter, with one item for each page.
pub open spec fn pages_match(chapters: Seq<ChapterLayout>, pages: Seq<Vec<Vec<u8>>>) -> bool {
    &&& pages.len() == chapters.len()
    &&& forall|c: int| 0 <= c < chapters.len() ==> (#[trigger] pages[c])@.len() == chapters[c].pages@.len()
}

/// The entries of one page after the other: each under its path in the
/// archive and with its bytes.
pub open spec fn page_entries(chapter: ChapterLayout, pages: Seq<Vec<u8>>, deflate: bool) -> Seq<
    (Seq<char>, Seq<u8>, bool),
> {
    Seq::new(chapter.pages@.len(), |i: int| (chapter.pages@[i].path@, pages[i]@, deflate))
}

/// The entries of a chapter: its directory, then its pages in order.
pub open spec fn chapter_entries(chapter: ChapterLayout, pages: Seq<Vec<u8>>, deflate: bool) -> Seq<
    (Seq<char>, Seq<u8>, bool),
> {
    seq![(directory_entry_name(chapter.dir_name@), Seq::<u8>::empty(), false)] + page_entries(
        chapter,
        pages,
        deflate,
    )
}

/// The entries of a volume: those of its chapters, one chapter after the
/// other.
pub open spec fn volume_entries(
    chapters: Seq<ChapterLayout>,
    pages: Seq<Vec<Vec<u8>>>,
    deflate: bool,
) -> Seq<(Seq<char>, Seq<u8>, bool)>
    decreases chapters.len(),
{
    if chapters.len() == 0 {
        Seq::empty()
    } else {
        volume_entries(chapters.drop_last(), pages.drop_last(), deflate) + chapter_entries(
            chapters.last(),
            pages.last()@,
            deflate,
        )
    }
}

/// Whether the pages handed over are those of the layout.
pub fn check_pages(chapters: &Vec<ChapterLayout>, pages: &Vec<Vec<Vec<u8>>>) -> (matching: bool)
    ensures
        matching == pages_match(chapters@, pages@),
{
    if pages.len() != chapters.len() {
        return false;
    }
    let mut c: usize = 0;
    while c < chapters.len()
        invariant
            c <= chapters.len(),
            pages.len() == chapters.len(),
            forall|k: int| 0 <= k < c ==> (#[trigger] pages@[k])@.len() == chapters@[k].pages@.len(),
        decreases chapters.len() - c,
    {
        if pages[c].len() != chapters[c].pages.len() {
            return false;
        }
        c = c + 1;
    }
    true
}

/// Whether a file is open in the archive once the first `upto` chapters are
/// written: the last of them has a page.
pub open spec fn open_after(chapters: Seq<ChapterLayout>, upto: int) -> bool {
    upto > 0 && chapters[upto - 1].pages@.len() > 0
}

/// What the archive holds once the first `upto` chapters are written.
pub open spec fn entries_after(
    chapters: Seq<ChapterLayout>,
    pages: Seq<Vec<Vec<u8>>>,
    deflate: bool,
    upto: int,
) -> Seq<(Seq<char>, Seq<u8>, bool)> {
    volume_entries(chapters.take(upto), pages.take(upto), deflate)
}

/// What the archive holds when page `page` of chapter `chapter` is about to
/// be written: the chapters before, the chapter's directory, and the
/// chapter's pages before this one.
pub open spec fn entries_before_page(
    chapters: Seq<ChapterLayout>,
    pages: Seq<Vec<Vec<u8>>>,
    deflate: bool,
    chapter: int,
    page: int,
) -> Seq<(Seq<char>, Seq<u8>, bool)> {
    entries_after(chapters, pages, deflate, chapter) + seq![
        (directory_entry_name(chapters[chapter].dir_name@), Seq::<u8>::empty(), false),
    ] + page_entries(chapters[chapter], pages[chapter]@, deflate).take(page)
}

/// Whether the archive takes the directory of chapter `chapter`, once the
/// chapters before it are written.
pub open spec fn takes_directory(
    chapters: Seq<ChapterLayout>,
    pages: Seq<Vec<Vec<u8>>>,
    deflate: bool,
    chapter: int,
) -> bool {
    zip_takes_directory(
        entries_after(chapters, pages, deflate, chapter),
        open_after(chapters, chapter),
        chapters[chapter].dir_name@,
    )
}

/// Whether the archive starts the file of page `page` of chapter `chapter`,
/// once everything before it is written.
pub open spec fn starts_page(
    chapters: Seq<ChapterLayout>,
    pages: Seq<Vec<Vec<u8>>>,
    deflate: bool,
    chapter: int,
    page: int,
) -> bool {
    zip_starts_file(
        entries_before_page(chapters, pages, deflate, chapter, page),
        page > 0,
        chapters[chapter].pages@[page].path@,
        deflate,
    )
}

/// Whether the archive takes the bytes of page `page` of chapter `chapter`,
/// once the page's file is started.
pub open spec fn takes_bytes(
    chapters: Seq<ChapterLayout>,
    pages: Seq<Vec<Vec<u8>>>,
    deflate: bool,
    chapter: int,
    page: int,
) -> bool {
    zip_takes_bytes(
        entries_before_page(chapters, pages, deflate, chapter, page).push(
            (chapters[chapter].pages@[page].path@, Seq::<u8>::empty(), deflate),
        ),
        pages[chapter]@[page]@,
    )
}

/// Whether the archive takes page `page` of chapter `chapter`: its file and
/// its bytes.
pub open spec fn takes_page(
    chapters: Seq<ChapterLayout>,
    pages: Seq<Vec<Vec<u8>>>,
    deflate: bool,
    chapter: int,
    page: int,
) -> bool {
    starts_page(chapters, pages, deflate, chapter, page) && takes_bytes(
        chapters,
        pages,
        deflate,
        chapter,
        page,
    )
}

/// Whether the archive takes the first `upto` pages of chapter `chapter`.
pub open spec fn takes_pages(
    chapters: Seq<ChapterLayout>,
    pages: Seq<Vec<Vec<u8>>>,
    deflate: bool,
    chapter: int,
    upto: int,
) -> bool {
    forall|page: int|
        0 <= page < upto ==> #[trigger] takes_page(chapters, pages, deflate, chapter, page)
}

/// Whether the archive takes chapter `chapter`: its directory and all of its
/// pages.
pub open spec fn takes_chapter(
    chapters: Seq<ChapterLayout>,
    pages: Seq<Vec<Vec<u8>>>,
    deflate: bool,
    chapter: int,
) -> bool {
    takes_directory(chapters, pages, deflate, chapter) && takes_pages(
        chapters,
        pages,
        deflate,
        chapter,
        chapters[chapter].pages@.len() as int,
    )
}

/// Whether the archive takes the first `upto` chapters.
pub open spec fn takes_chapters(
    chapters: Seq<ChapterLayout>,
    pages: Seq<Vec<Vec<u8>>>,
    deflate: bool,
    upto: int,
) -> bool {
    forall|chapter: int|
        0 <= chapter < upto ==> #[trigger] takes_chapter(chapters, pages, deflate, chapter)
}

/// Whether the archive with all chapters written can be completed.
pub open spec fn completes(
    chapters: Seq<ChapterLayout>,
    pages: Seq<Vec<Vec<u8>>>,
    deflate: bool,
) -> bool {
    zip_finishes(
        entries_after(chapters, pages, deflate, chapters.len() as int),
        open_after(chapters, chapters.len() as int),
    )
}

/// Whether a volume can be written: the pages are those of the layout, the
/// archive takes every chapter, and it can be completed.
pub open spec fn can_pack(
    chapters: Seq<ChapterLayout>,
    pages: Seq<Vec<Vec<u8>>>,
    deflate: bool,
) -> bool {
    &&& pages_match(chapters, pages)
    &&& takes_chapters(chapters, pages, deflate, chapters.len() as int)
    &&& completes(chapters, pages, deflate)
}

/// Whether these bytes are a finished archive that holds the volume's
/// entries: for each chapter its directory, then its pages in order, each
/// under its path and with its bytes.
pub open spec fn is_archive_of(
    bytes: Seq<u8>,
    chapters: Seq<ChapterLayout>,
    pages: Seq<Vec<Vec<u8>>>,
    deflate: bool,
) -> bool {
    exists|writer: ArchiveWriter|
        #[trigger] written_entries(writer) == volume_entries(chapters, pages, deflate)
            && bytes == finished_archive(writer)
}

/// What writing chapter `chapter` comes to, once the chapters before it are
/// written. It succeeds where the archive takes the chapter. Otherwise the
/// first step that the archive refuses is reported: the chapter's directory,
/// the file of a page, or the bytes of a page.
pub open spec fn chapter_outcome(
    written: Result<(), PackingError>,
    chapters: Seq<ChapterLayout>,
    pages: Seq<Vec<Vec<u8>>>,
    deflate: bool,
    chapter: int,
) -> bool {
    match written {
        Ok(_) => takes_chapter(chapters, pages, deflate, chapter),
        Err(PackingError::FailedToCreateChapterDirectoryInZip { chapter: at, err }) => {
            &&& at == chapter
            &&& !takes_directory(chapters, pages, deflate, chapter)
        },
        Err(PackingError::FailedToCreateImageFileInZip { chapter: at, page, err }) => {
            &&& at == chapter
            &&& page < chapters[chapter].pages@.len()
            &&& takes_directory(chapters, pages, deflate, chapter)
            &&& takes_pages(chapters, pages, deflate, chapter, page as int)
            &&& !starts_page(chapters, pages, deflate, chapter, page as int)
        },
        Err(PackingError::FailedToWriteImageFileToZip { chapter: at, page, err }) => {
            &&& at == chapter
            &&& page < chapters[chapter].pages@.len()
            &&& takes_directory(chapters, pages, deflate, chapter)
            &&& takes_pages(chapters, pages, deflate, chapter, page as int)
            &&& starts_page(chapters, pages, deflate, chapter, page as int)
            &&& !takes_bytes(chapters, pages, deflate, chapter, page as int)
        },
        Err(_) => false,
    }
}

/// What writing a volume comes to. Pages that are not those of the layout
/// are refused. Otherwise the volume is written where the archive takes
/// every chapter and can be completed, and the bytes are then those of a
/// finished archive that holds the volume's entries. Where the archive
/// refuses a step, the first such step is reported.
pub open spec fn packing_outcome(
    written: Result<Vec<u8>, PackingError>,
    chapters: Seq<ChapterLayout>,
    pages: Seq<Vec<Vec<u8>>>,
    deflate: bool,
) -> bool {
    match written {
        Ok(bytes) => {
            &&& pages_match(chapters, pages)
            &&& takes_chapters(chapters, pages, deflate, chapters.len() as int)
            &&& completes(chapters, pages, deflate)
            &&& is_archive_of(bytes@, chapters, pages, deflate)
        },
        Err(PackingError::PagesDoNotMatchLayout) => !pages_match(chapters, pages),
        Err(PackingError::FailedToCloseZipArchive(_)) => {
            &&& pages_match(chapters, pages)
            &&& takes_chapters(chapters, pages, deflate, chapters.len() as int)
            &&& !completes(chapters, pages, deflate)
        },
        Err(PackingError::FailedToCreateChapterDirectoryInZip { chapter, err }) => {
            &&& pages_match(chapters, pages)
            &&& chapter < chapters.len()
            &&& takes_chapters(chapters, pages, deflate, chapter as int)
            &&& chapter_outcome(Err(written->Err_0), chapters, pages, deflate, chapter as int)
        },
        Err(PackingError::FailedToCreateImageFileInZip { chapter, page, err }) => {
            &&& pages_match(chapters, pages)
            &&& chapter < chapters.len()
            &&& takes_chapters(chapters, pages, deflate, chapter as int)
            &&& chapter_outcome(Err(written->Err_0), chapters, pages, deflate, chapter as int)
        },
        Err(PackingError::FailedToWriteImageFileToZip { chapter, page, err }) => {
            &&& pages_match(chapters, pages)
            &&& chapter < chapters.len()
            &&& takes_chapters(chapters, pages, deflate, chapter as int)
            &&& chapter_outcome(Err(written->Err_0), chapters, pages, deflate, chapter as int)
        },
    }
}

/// The entries of the chapters up to and with one are those of the chapters
/// before it, followed by its own.
proof fn lemma_entries_after_next(
    chapters: Seq<ChapterLayout>,
    pages: Seq<Vec<Vec<u8>>>,
    deflate: bool,
    chapter: int,
)
    requires
        0 <= chapter < chapters.len(),
        pages.len() == chapters.len(),
    ensures
        entries_after(chapters, pages, deflate, chapter + 1) == entries_after(
            chapters,
            pages,
            deflate,
            chapter,
        ) + chapter_entries(chapters[chapter], pages[chapter]@, deflate),
{
    let first = chapters.take(chapter + 1);
    let bytes = pages.take(chapter + 1);
    assert(first.drop_last() =~= chapters.take(chapter));
    assert(bytes.drop_last() =~= pages.take(chapter));
    assert(first.last() == chapters[chapter]);
    assert(bytes.last() == pages[chapter]);
}

/// Writes chapter `position` of a volume into an archive that holds the
/// chapters before it: its directory, then each of its pages under its path
/// and with its bytes.
fn write_chapter(
    writer: &mut ArchiveWriter,
    chapters: &Vec<ChapterLayout>,
    pages: &Vec<Vec<Vec<u8>>>,
    position: usize,
    deflate: bool,
) -> (written: Result<(), PackingError>)
    requires
        position < chapters.len(),
        pages_match(chapters@, pages@),
        written_entries(*old(writer)) == entries_after(chapters@, pages@, deflate, position as int),
        writer_is_open(*old(writer)) == open_after(chapters@, position as int),
    ensures
        written is Ok <==> takes_chapter(chapters@, pages@, deflate, position as int),
        chapter_outcome(written, chapters@, pages@, deflate, position as int),
        written is Ok ==> written_entries(*final(writer)) == entries_after(
            chapters@,
            pages@,
            deflate,
            position + 1,
        ),
        written is Ok ==> writer_is_open(*final(writer)) == open_after(chapters@, position + 1),
{
    let chapter = &chapters[position];
    let contents = &pages[position];
    let ghost c = position as int;
    let ghost before = written_entries(*writer);
    assert(contents@.len() == chapter.pages@.len());
    match add_directory(writer, chapter.dir_name.as_str()) {
        Err(err) => {
            return Err(PackingError::FailedToCreateChapterDirectoryInZip { chapter: position, err });
        },
        Ok(_) => {},
    }
    let ghost all = page_entries(*chapter, contents@, deflate);
    assert(written_entries(*writer) =~= entries_before_page(chapters@, pages@, deflate, c, 0));
    let mut i: usize = 0;
    while i < chapter.pages.len()
        invariant
            i <= chapter.pages.len(),
            position < chapters.len(),
            c == position,
            *chapter == chapters@[c],
            *contents == pages@[c],
            contents@.len() == chapter.pages@.len(),
            all == page_entries(*chapter, contents@, deflate),
            takes_directory(chapters@, pages@, deflate, c),
            takes_pages(chapters@, pages@, deflate, c, i as int),
            written_entries(*writer) == entries_before_page(chapters@, pages@, deflate, c, i as int),
            writer_is_open(*writer) == (i > 0),
        decreases chapter.pages.len() - i,
    {
        let ghost so_far = written_entries(*writer);
        match start_file(writer, chapter.pages[i].path.as_str(), deflate) {
            Err(err) => {
                assert(!takes_page(chapters@, pages@, deflate, c, i as int));
                return Err(
                    PackingError::FailedToCreateImageFileInZip { chapter: position, page: i, err },
                );
            },
            Ok(_) => {},
        }
        match write_all(writer, contents[i].as_slice()) {
            Err(err) => {
                assert(!takes_page(chapters@, pages@, deflate, c, i as int));
                return Err(
                    PackingError::FailedToWriteImageFileToZip { chapter: position, page: i, err },
                );
            },
            Ok(_) => {},
        }
        proof {
            let entry = (chapter.pages@[i as int].path@, contents@[i as int]@, deflate);
            assert(written_entries(*writer) =~= so_far.push(entry));
            assert(all.take(i as int + 1) =~= all.take(i as int).push(entry));
            assert(so_far.push(entry) =~= entries_before_page(
                chapters@,
                pages@,
                deflate,
                c,
                i as int + 1,
            ));
            assert(takes_page(chapters@, pages@, deflate, c, i as int));
        }
        i = i + 1;
    }
    proof {
        lemma_entries_after_next(chapters@, pages@, deflate, c);
        assert(all.take(all.len() as int) =~= all);
        assert(entries_before_page(chapters@, pages@, deflate, c, i as int) =~= entries_after(
            chapters@,
            pages@,
            deflate,
            c,
        ) + chapter_entries(*chapter, contents@, deflate));
    }
    Ok(())
}

/// Writes a volume as an archive in memory and hands out the archive's
/// bytes. `pages` holds, for each chapter of the layout, the bytes of each of
/// its pages, in the layout's order; they are written deflated where
/// `deflate` is set, and stored as they are otherwise.
///
/// The volume is written where the pages are those of the layout and the
/// archive takes every step; the bytes are then those of a finished archive
/// whose entries are the volume's: for each chapter its directory, then its
/// pages in order, each under its path and with its bytes.
pub fn write_volume(layout: &VolumeLayout, pages: &Vec<Vec<Vec<u8>>>, deflate: bool) -> (written:
    Result<Vec<u8>, PackingError>)
    ensures
        written is Ok <==> can_pack(layout.chapters@, pages@, deflate),
        packing_outcome(written, layout.chapters@, pages@, deflate),
{
    if !check_pages(&layout.chapters, pages) {
        return Err(PackingError::PagesDoNotMatchLayout);
    }
    let mut writer = new_writer();
    let mut c: usize = 0;
    assert(layout.chapters@.take(0) =~= Seq::<ChapterLayout>::empty());
    assert(written_entries(writer) =~= entries_after(layout.chapters@, pages@, deflate, 0));
    while c < layout.chapters.len()
        invariant
            c <= layout.chapters.len(),
            pages_match(layout.chapters@, pages@),
            takes_chapters(layout.chapters@, pages@, deflate, c as int),
            written_entries(writer) == entries_after(layout.chapters@, pages@, deflate, c as int),
            writer_is_open(writer) == open_after(layout.chapters@, c as int),
        decreases layout.chapters.len() - c,
    {
        match write_chapter(&mut writer, &layout.chapters, pages, c, deflate) {
            Err(error) => {
                assert(!takes_chapter(layout.chapters@, pages@, deflate, c as int));
                return Err(error);
            },
            Ok(_) => {},
        }
        c = c + 1;
    }
    assert(layout.chapters@.take(c as int) =~= layout.chapters@);
    assert(pages@.take(c as int) =~= pages@);
    match finish(writer) {
        Err(err) => Err(PackingError::FailedToCloseZipArchive(err)),
        Ok(bytes) => Ok(bytes),
    }
}

} // verus!
