//! Building one volume: the names of its file, of its chapters' directories
//! and of its pages inside the archive.

use vstd::prelude::*;
use vstd::string::StringExecFns;
use crate::calc::{decimal_digits, decimal_width};
use crate::numbering::{push_padded, zero_padded, decimal};
use crate::opts::{CompileRanges, CompileEach, EncodeSingle};
use crate::plan::Method;
use crate::probe::PathKind;
use crate::error::EncodingError;
use crate::images::{file_stem, extension, extension_of, find_last_dot, names_image, has_image_ext,
    last_index_of, lemma_last_index_of};
use crate::paths::path_relation;
use crate::sorting::{is_stable_selection, path_keys, sorted_selection, kept_count};
use crate::text::{chars_of, string_of, text_in, text_of};

verus! {

/// How a volume is built: one variant for each encoding method, with the
/// options that the method reads.
#[derive(Clone, Copy, Debug, PartialEq, Eq, Structural)]
pub enum BuildMethod {
    /// Several chapters in each volume.
    Ranges(CompileRanges),
    /// Each chapter in a volume of its own.
    Each(CompileEach),
    /// One directory as one volume, at a path that the caller chose.
    Single(EncodeSingle),
}

impl BuildMethod {
    /// How the method spreads chapters over volumes.
    pub open spec fn batching(self) -> Method {
        match self {
            BuildMethod::Ranges(ranges) => Method::Compile(ranges.chapters_per_volume),
            BuildMethod::Each(_) => Method::Individual,
            BuildMethod::Single(_) => Method::Single,
        }
    }

    /// How the method spreads chapters over volumes.
    pub fn batching_method(&self) -> (method: Method)
        ensures
            method == self.batching(),
    {
        match self {
            BuildMethod::Ranges(ranges) => Method::Compile(ranges.chapters_per_volume),
            BuildMethod::Each(_) => Method::Individual,
            BuildMethod::Single(_) => Method::Single,
        }
    }
}

/// The name of a volume's or a chapter's place in a numbered series:
/// `Vol_` and the volume's number, `_Chapter_` and the chapter's number.
pub open spec fn numbered_chapter_name(
    volume: nat,
    vol_num_len: nat,
    chapter: nat,
    chapter_num_len: nat,
) -> Seq<char> {
    "Vol_"@ + zero_padded(volume, vol_num_len) + "_Chapter_"@ + zero_padded(
        chapter,
        chapter_num_len,
    )
}

/// The name of a chapter's directory inside the archive. Where each chapter
/// has a volume of its own, the directory keeps the chapter's name; elsewhere
/// it is numbered.
pub open spec fn chapter_dir_name(
    method: BuildMethod,
    volume: nat,
    vol_num_len: nat,
    chapter: nat,
    chapter_num_len: nat,
    chapter_name: Seq<char>,
) -> Seq<char> {
    match method {
        BuildMethod::Each(_) => chapter_name,
        _ => numbered_chapter_name(volume, vol_num_len, chapter, chapter_num_len),
    }
}

/// The name of a page inside its chapter's directory: the directory's name,
/// `_Pic_`, the page's number padded to the width of the chapter's page
/// count, a dot and the extension of the image, kept as it is written.
pub open spec fn page_name(
    dir_name: Seq<char>,
    page: nat,
    page_count: nat,
    extension: Seq<char>,
) -> Seq<char> {
    dir_name + "_Pic_"@ + zero_padded(page, decimal_width(page_count)) + "."@ + extension
}

/// The path of a page inside the archive: its chapter's directory, a forward
/// slash and the page's name.
pub open spec fn page_path(
    dir_name: Seq<char>,
    page: nat,
    page_count: nat,
    extension: Seq<char>,
) -> Seq<char> {
    dir_name + "/"@ + page_name(dir_name, page, page_count, extension)
}

/// The name of a chapter's directory inside the archive, as in
/// `chapter_dir_name`.
pub fn make_chapter_dir_name(
    method: &BuildMethod,
    volume: usize,
    vol_num_len: usize,
    chapter: usize,
    chapter_num_len: usize,
    chapter_name: &str,
) -> (name: String)
    ensures
        name@ == chapter_dir_name(
            *method,
            volume as nat,
            vol_num_len as nat,
            chapter as nat,
            chapter_num_len as nat,
            chapter_name@,
        ),
{
    match method {
        BuildMethod::Each(_) => String::from_str(chapter_name),
        _ => {
            let mut name = String::from_str("Vol_");
            push_padded(&mut name, volume, vol_num_len);
            name.append("_Chapter_");
            push_padded(&mut name, chapter, chapter_num_len);
            name
        },
    }
}

/// The path of a page inside the archive, as in `page_path`.
pub fn make_page_path(dir_name: &str, page: usize, page_count: usize, extension: &str) -> (path:
    String)
    ensures
        path@ == page_path(dir_name@, page as nat, page_count as nat, extension@),
{
    let mut path = String::from_str(dir_name);
    path.append("/");
    path.append(dir_name);
    path.append("_Pic_");
    push_padded(&mut path, page, decimal_digits(page_count));
    path.append(".");
    path.append(extension);
    assert(path@ =~= page_path(dir_name@, page as nat, page_count as nat, extension@));
    path
}

/// The stem of a volume's file name: the name without the archive's
/// extension and without a page count.
///
/// A volume of several chapters is called `Volume-` and its number; where
/// the method asks for it and the volume has chapters, the range of its
/// chapters follows in brackets. A volume of one chapter has the chapter's
/// name. A single volume has the stem of the output file that the caller
/// chose.
pub open spec fn volume_stem(
    method: BuildMethod,
    volume: nat,
    vol_num_len: nat,
    chapter_num_len: nat,
    start_chapter: nat,
    chapter_count: nat,
    chapter_name: Seq<char>,
    output_name: Seq<char>,
) -> Seq<char> {
    match method {
        BuildMethod::Ranges(ranges) => {
            if ranges.append_chapters_range && chapter_count > 0 {
                "Volume-"@ + zero_padded(volume, vol_num_len) + " (c"@ + zero_padded(
                    start_chapter,
                    chapter_num_len,
                ) + "-c"@ + zero_padded(
                    (start_chapter + chapter_count - 1) as nat,
                    chapter_num_len,
                ) + ")"@
            } else {
                "Volume-"@ + zero_padded(volume, vol_num_len)
            }
        },
        BuildMethod::Each(_) => chapter_name,
        BuildMethod::Single(_) => file_stem(output_name),
    }
}

/// The name under which a volume is written before it is published.
pub open spec fn staging_name(stem: Seq<char>) -> Seq<char> {
    stem + ".comic-enc-partial"@
}

/// The extension of a volume's file: that of the output file that the
/// caller chose for a single volume, `cbz` for any other volume.
pub open spec fn volume_extension(method: BuildMethod, output_name: Seq<char>) -> Option<Seq<char>> {
    match method {
        BuildMethod::Single(_) => extension(output_name),
        _ => Some("cbz"@),
    }
}

/// The stem of a volume's file name with, where it is asked for, the number
/// of the volume's pages in brackets behind it.
pub open spec fn counted_stem(stem: Seq<char>, pages: Option<usize>) -> Seq<char> {
    match pages {
        Some(count) => stem + " ("@ + decimal(count as nat) + " pages)"@,
        None => stem,
    }
}

/// The name under which a volume is published: its stem, the number of its
/// pages in brackets where it is asked for, and its extension, if it has
/// one, behind a dot.
pub open spec fn complete_name(
    stem: Seq<char>,
    pages: Option<usize>,
    ext: Option<Seq<char>>,
) -> Seq<char> {
    match ext {
        Some(e) => counted_stem(stem, pages) + "."@ + e,
        None => counted_stem(stem, pages),
    }
}

/// A file name is its stem and, behind a dot, its extension if it has one.
pub proof fn lemma_stem_and_extension(file_name: Seq<char>)
    ensures
        complete_name(file_stem(file_name), None, extension(file_name)) == file_name,
{
    reveal_strlit(".");
    lemma_last_index_of(file_name, '.');
    if extension(file_name) is Some {
        let dot = last_index_of(file_name, '.');
        assert("."@ =~= seq!['.']);
        assert(file_name.take(dot) + seq!['.'] + file_name.skip(dot + 1) =~= file_name);
    }
}

/// A single volume without a page count is published under the name of the
/// output file that the caller chose.
pub proof fn lemma_single_volume_keeps_its_name(
    method: BuildMethod,
    volume: nat,
    vol_num_len: nat,
    chapter_num_len: nat,
    start_chapter: nat,
    chapter_count: nat,
    chapter_name: Seq<char>,
    output_name: Seq<char>,
)
    requires
        method is Single,
    ensures
        complete_name(
            volume_stem(
                method,
                volume,
                vol_num_len,
                chapter_num_len,
                start_chapter,
                chapter_count,
                chapter_name,
                output_name,
            ),
            None,
            volume_extension(method, output_name),
        ) == output_name,
{
    lemma_stem_and_extension(output_name);
}

/// A name as it is shown on the console: a name of more than 50 characters
/// is cut to its first 50, with an ellipsis behind them.
pub open spec fn shown_name(name: Seq<char>) -> Seq<char> {
    if name.len() > 50 {
        name.take(50) + "..."@
    } else {
        name
    }
}

/// The stem of a file name, as in `file_stem`.
pub fn file_stem_of(file_name: &str) -> (stem: String)
    ensures
        stem@ == file_stem(file_name@),
{
    let chars = chars_of(file_name);
    match extension_of(file_name) {
        None => String::from_str(file_name),
        Some(_) => {
            match find_last_dot(chars.as_slice()) {
                Some(dot) => {
                    assert(chars@.take(dot as int) =~= chars@.subrange(0, dot as int));
                    string_of(chars.as_slice(), 0, dot)
                },
                None => String::from_str(file_name),
            }
        },
    }
}

/// The stem of a volume's file name, as in `volume_stem`.
pub fn make_volume_stem(
    method: &BuildMethod,
    volume: usize,
    vol_num_len: usize,
    chapter_num_len: usize,
    start_chapter: usize,
    chapter_count: usize,
    chapter_name: &str,
    output_name: &str,
) -> (stem: String)
    requires
        start_chapter + chapter_count <= usize::MAX,
    ensures
        stem@ == volume_stem(
            *method,
            volume as nat,
            vol_num_len as nat,
            chapter_num_len as nat,
            start_chapter as nat,
            chapter_count as nat,
            chapter_name@,
            output_name@,
        ),
{
    match method {
        BuildMethod::Ranges(ranges) => {
            let mut stem = String::from_str("Volume-");
            push_padded(&mut stem, volume, vol_num_len);
            if ranges.append_chapters_range && chapter_count > 0 {
                stem.append(" (c");
                push_padded(&mut stem, start_chapter, chapter_num_len);
                stem.append("-c");
                push_padded(&mut stem, start_chapter + chapter_count - 1, chapter_num_len);
                stem.append(")");
            }
            stem
        },
        BuildMethod::Each(_) => String::from_str(chapter_name),
        BuildMethod::Single(_) => file_stem_of(output_name),
    }
}

/// The name under which a volume is written before it is published.
pub fn make_staging_name(stem: &str) -> (name: String)
    ensures
        name@ == staging_name(stem@),
{
    let mut name = String::from_str(stem);
    name.append(".comic-enc-partial");
    name
}

/// The extension of a volume's file, as in `volume_extension`.
pub fn volume_extension_of(method: &BuildMethod, output_name: &str) -> (ext: Option<String>)
    ensures
        text_in(ext) == volume_extension(*method, output_name@),
{
    match method {
        BuildMethod::Single(_) => extension_of(output_name),
        _ => Some(String::from_str("cbz")),
    }
}

/// The name under which a volume is published, as in `complete_name`.
pub fn make_complete_name(stem: &str, pages: Option<usize>, ext: Option<&str>) -> (name: String)
    ensures
        name@ == complete_name(stem@, pages, text_of(ext)),
{
    let mut name = String::from_str(stem);
    match pages {
        Some(count) => {
            name.append(" (");
            push_padded(&mut name, count, 0);
            name.append(" pages)");
        },
        None => {},
    }
    match ext {
        Some(e) => {
            name.append(".");
            name.append(e);
            assert(name@ =~= complete_name(stem@, pages, text_of(ext)));
        },
        None => {},
    }
    name
}

/// A name as it is shown on the console, as in `shown_name`.
pub fn make_shown_name(name: &str) -> (shown: String)
    ensures
        shown@ == shown_name(name@),
{
    let chars = chars_of(name);
    if chars.len() > 50 {
        let mut shown = string_of(chars.as_slice(), 0, 50);
        assert(chars@.take(50) =~= chars@.subrange(0, 50));
        shown.append("...");
        shown
    } else {
        String::from_str(name)
    }
}

/// What to do with a volume's staging file once the archive is complete.
#[derive(Clone, Copy, Debug, PartialEq, Eq, Structural)]
pub enum Publication {
    /// Rename the staging file to the volume's name.
    Rename,
    /// Remove the file that has the volume's name, then rename the staging
    /// file to it.
    ReplaceThenRename,
}

/// How a complete volume is published, given what stands at its final path.
/// A path that is taken stops the publication unless overwriting is allowed;
/// a directory at that path stops it in any case.
pub open spec fn publication(
    volume: usize,
    complete_path: String,
    found: PathKind,
    overwrite: bool,
) -> Result<Publication, EncodingError> {
    match found {
        PathKind::Missing => Ok(Publication::Rename),
        _ => if !overwrite {
            Err(EncodingError::OutputVolumeFileAlreadyExists(volume, complete_path))
        } else if found == PathKind::Directory {
            Err(EncodingError::OutputVolumeFileIsADirectory(volume, complete_path))
        } else {
            Ok(Publication::ReplaceThenRename)
        },
    }
}

/// Decides how a complete volume is published at `complete_path`, as in
/// `publication`. Where the final path is taken and overwriting is not
/// allowed, the volume is not published: what stands at the path is left as
/// it is, and the refusal names the path.
pub fn decide_publication(
    volume: usize,
    complete_path: String,
    found: PathKind,
    overwrite: bool,
) -> (decision: Result<Publication, EncodingError>)
    ensures
        decision == publication(volume, complete_path, found, overwrite),
        found != PathKind::Missing && !overwrite ==> decision is Err,
{
    match found {
        PathKind::Missing => Ok(Publication::Rename),
        _ => {
            if !overwrite {
                Err(EncodingError::OutputVolumeFileAlreadyExists(volume, complete_path))
            } else {
                match found {
                    PathKind::Directory => Err(
                        EncodingError::OutputVolumeFileIsADirectory(volume, complete_path),
                    ),
                    _ => Ok(Publication::ReplaceThenRename),
                }
            }
        },
    }
}

/// A chapter to put into a volume, with the files found under its directory.
#[derive(Clone, Debug, PartialEq, Eq)]
pub struct ChapterFiles {
    /// The chapter's number among the selected chapters, counted from one.
    pub ordinal: usize,
    /// The name of the chapter's directory.
    pub name: String,
    /// Every file under the chapter's directory, at any depth and in no
    /// particular order, each as the list of its path's components.
    pub files: Vec<Vec<String>>,
}

/// A page of a volume.
#[derive(Clone, Debug, PartialEq, Eq)]
pub struct PageEntry {
    /// The position of the page's image among its chapter's files.
    pub file: usize,
    /// The path of the page inside the archive.
    pub path: String,
}

/// A chapter as it is laid out inside a volume.
#[derive(Clone, Debug, PartialEq, Eq)]
pub struct ChapterLayout {
    /// The name of the chapter's directory inside the archive.
    pub dir_name: String,
    /// The chapter's pages, in the order in which they are written.
    pub pages: Vec<PageEntry>,
}

/// The file name of a path: its last component.
pub open spec fn file_name_of(path: Seq<String>) -> Seq<char> {
    if path.len() > 0 {
        path.last()@
    } else {
        Seq::empty()
    }
}

/// For each file, whether its name is an image's.
pub open spec fn image_mask(files: Seq<Vec<String>>, extended: bool) -> Seq<bool> {
    Seq::new(files.len(), |i: int| names_image(file_name_of(files[i]@), extended))
}

/// The files that a list of pages shows, in the pages' order.
pub open spec fn page_files(pages: Seq<PageEntry>) -> Seq<usize> {
    Seq::new(pages.len(), |i: int| pages[i].file)
}

/// Whether `layout` lays out `chapter`: its directory has the chapter's name
/// in the archive, its pages are the chapter's images, each once and sorted
/// under the sort mode, and each page is named after its rank and keeps its
/// image's extension.
pub open spec fn is_chapter_layout(
    layout: ChapterLayout,
    method: BuildMethod,
    volume: nat,
    vol_num_len: nat,
    chapter_num_len: nat,
    chapter: ChapterFiles,
    extended: bool,
    natural: bool,
) -> bool {
    &&& layout.dir_name@ == chapter_dir_name(
        method,
        volume,
        vol_num_len,
        chapter.ordinal as nat,
        chapter_num_len,
        chapter.name@,
    )
    &&& is_stable_selection(
        page_files(layout.pages@),
        path_keys(chapter.files@),
        path_relation(natural),
        image_mask(chapter.files@, extended),
    )
    &&& forall|i: int|
        0 <= i < layout.pages@.len() ==> {
            let page = #[trigger] layout.pages@[i];
            let found = extension(file_name_of(chapter.files@[page.file as int]@));
            &&& found is Some
            &&& page.path@ == page_path(
                layout.dir_name@,
                i as nat,
                layout.pages@.len(),
                found->0,
            )
        }
}

/// Marks the files whose names are images' names.
pub fn image_mask_of(files: &Vec<Vec<String>>, extended: bool) -> (mask: Vec<bool>)
    ensures
        mask@ == image_mask(files@, extended),
{
    let mut mask: Vec<bool> = Vec::new();
    let mut i: usize = 0;
    while i < files.len()
        invariant
            i <= files.len(),
            mask@.len() == i,
            forall|k: int|
                0 <= k < i ==> mask@[k] == names_image(file_name_of(files@[k]@), extended),
        decreases files.len() - i,
    {
        let path = &files[i];
        let image = if path.len() > 0 {
            assert(path@.last() == path@[path@.len() - 1]);
            has_image_ext(path[path.len() - 1].as_str(), extended)
        } else {
            proof {
                reveal_with_fuel(last_index_of, 1);
            }
            false
        };
        mask.push(image);
        i = i + 1;
    }
    assert(mask@ =~= image_mask(files@, extended));
    mask
}

/// Lays out a chapter inside a volume: picks the chapter's images among its
/// files, sorts them, and names the chapter's directory and each page.
pub fn lay_out_chapter(
    method: &BuildMethod,
    volume: usize,
    vol_num_len: usize,
    chapter_num_len: usize,
    chapter: &ChapterFiles,
    extended: bool,
    natural: bool,
) -> (layout: ChapterLayout)
    ensures
        is_chapter_layout(
            layout,
            *method,
            volume as nat,
            vol_num_len as nat,
            chapter_num_len as nat,
            *chapter,
            extended,
            natural,
        ),
{
    let mask = image_mask_of(&chapter.files, extended);
    let visit = sorted_selection(&chapter.files, &mask, natural);
    let dir_name = make_chapter_dir_name(
        method,
        volume,
        vol_num_len,
        chapter.ordinal,
        chapter_num_len,
        chapter.name.as_str(),
    );
    let mut pages: Vec<PageEntry> = Vec::new();
    let mut i: usize = 0;
    while i < visit.len()
        invariant
            i <= visit.len(),
            pages@.len() == i,
            mask@ == image_mask(chapter.files@, extended),
            forall|k: int|
                0 <= k < visit@.len() ==> (#[trigger] visit@[k]) < chapter.files@.len()
                    && mask@[visit@[k] as int],
            forall|k: int|
                0 <= k < i ==> {
                    let page = #[trigger] pages@[k];
                    let found = extension(file_name_of(chapter.files@[page.file as int]@));
                    &&& page.file == visit@[k]
                    &&& found is Some
                    &&& page.path@ == page_path(dir_name@, k as nat, visit@.len(), found->0)
                },
        decreases visit.len() - i,
    {
        let file: usize = visit[i];
        let path = &chapter.files[file];
        assert(mask@[file as int]);
        assert(names_image(file_name_of(path@), extended));
        if path.len() == 0 {
            proof {
                reveal_with_fuel(last_index_of, 1);
            }
            assert(false);
        } else {
            assert(path@.last() == path@[path@.len() - 1]);
            match extension_of(path[path.len() - 1].as_str()) {
                Some(found) => {
                    let name = make_page_path(dir_name.as_str(), i, visit.len(), found.as_str());
                    pages.push(PageEntry { file, path: name });
                },
                None => {
                    assert(false);
                },
            }
        }
        i = i + 1;
    }
    assert(page_files(pages@) =~= visit@);
    ChapterLayout { dir_name, pages }
}

/// What it takes to build a volume.
#[derive(Clone, Debug, PartialEq, Eq)]
pub struct BuildVolumeArgs {
    /// How the volume is built.
    pub method: BuildMethod,
    /// Accept image formats that not every reader supports.
    pub accept_extended_image_formats: bool,
    /// Sort pages by raw order in place of natural order.
    pub simple_sorting: bool,
    /// Add the number of pages at the end of the volume's file name.
    pub append_pages_count: bool,
    /// The file name of the output path; it is read for a single volume
    /// only.
    pub output_name: String,
    /// The volume's number, counted from one.
    pub volume: usize,
    /// The total number of volumes.
    pub volumes: usize,
    /// The number of digits to write a volume's number with.
    pub vol_num_len: usize,
    /// The number of digits to write a chapter's number with.
    pub chapter_num_len: usize,
    /// The number of the volume's first chapter.
    pub start_chapter: usize,
    /// The volume's chapters, in order.
    pub chapters: Vec<ChapterFiles>,
}

/// A volume as it is to be written.
#[derive(Clone, Debug, PartialEq, Eq)]
pub struct VolumeLayout {
    /// The stem of the volume's file names.
    pub stem: String,
    /// The extension of the volume's complete file, if it has one.
    pub extension: Option<String>,
    /// The name of the file that the archive is written to at first.
    pub staging_name: String,
    /// The name under which the complete archive is published.
    pub complete_name: String,
    /// The volume's chapters, in the order in which they are written.
    pub chapters: Vec<ChapterLayout>,
    /// The number of pages in the volume.
    pub page_count: usize,
}

/// The number of files in a list of chapters.
pub open spec fn total_files(chapters: Seq<ChapterFiles>) -> nat
    decreases chapters.len(),
{
    if chapters.len() == 0 {
        0
    } else {
        total_files(chapters.drop_last()) + chapters.last().files@.len()
    }
}

/// The number of pages in a list of laid out chapters.
pub open spec fn total_pages(chapters: Seq<ChapterLayout>) -> nat
    decreases chapters.len(),
{
    if chapters.len() == 0 {
        0
    } else {
        total_pages(chapters.drop_last()) + chapters.last().pages@.len()
    }
}

/// The name of the volume's first chapter, or the empty name if it has no
/// chapter.
pub open spec fn first_chapter_name(chapters: Seq<ChapterFiles>) -> Seq<char> {
    if chapters.len() > 0 {
        chapters[0].name@
    } else {
        Seq::empty()
    }
}

/// The stem of the file name of the volume that `args` describes.
pub open spec fn stem_for(args: BuildVolumeArgs) -> Seq<char> {
    volume_stem(
        args.method,
        args.volume as nat,
        args.vol_num_len as nat,
        args.chapter_num_len as nat,
        args.start_chapter as nat,
        args.chapters@.len(),
        first_chapter_name(args.chapters@),
        args.output_name@,
    )
}

/// Whether `layout` is the volume that `args` describes: its files are named
/// after the volume's stem, its chapters are laid out one by one in the
/// order given, and its pages are counted.
pub open spec fn is_volume_layout(layout: VolumeLayout, args: BuildVolumeArgs) -> bool {
    &&& layout.stem@ == stem_for(args)
    &&& text_in(layout.extension) == volume_extension(args.method, args.output_name@)
    &&& layout.staging_name@ == staging_name(stem_for(args))
    &&& layout.page_count == total_pages(layout.chapters@)
    &&& layout.complete_name@ == complete_name(
        stem_for(args),
        if args.append_pages_count {
            Some(layout.page_count)
        } else {
            None
        },
        volume_extension(args.method, args.output_name@),
    )
    &&& layout.chapters@.len() == args.chapters@.len()
    &&& forall|c: int|
        0 <= c < layout.chapters@.len() ==> is_chapter_layout(
            #[trigger] layout.chapters@[c],
            args.method,
            args.volume as nat,
            args.vol_num_len as nat,
            args.chapter_num_len as nat,
            args.chapters@[c],
            args.accept_extended_image_formats,
            !args.simple_sorting,
        )
}

/// No more positions are kept than there are.
pub proof fn lemma_kept_count_bound(keep: Seq<bool>, upto: nat)
    ensures
        kept_count(keep, upto) <= upto,
    decreases upto,
{
    if upto > 0 {
        lemma_kept_count_bound(keep, (upto - 1) as nat);
    }
}

/// The files of the first chapters are among the files of all chapters.
pub proof fn lemma_total_files_grows(chapters: Seq<ChapterFiles>, upto: int)
    requires
        0 <= upto <= chapters.len(),
    ensures
        total_files(chapters.take(upto)) <= total_files(chapters),
    decreases chapters.len() - upto,
{
    if upto < chapters.len() {
        lemma_total_files_grows(chapters, upto + 1);
        assert(chapters.take(upto + 1).drop_last() =~= chapters.take(upto));
    } else {
        assert(chapters.take(upto) =~= chapters);
    }
}

/// Lays out a volume: names its files, lays out each of its chapters and
/// counts its pages.
///
/// A volume that holds one chapter per archive must be given exactly one
/// chapter.
pub fn lay_out_volume(args: &BuildVolumeArgs) -> (layout: VolumeLayout)
    requires
        args.method is Each ==> args.chapters@.len() == 1,
        args.start_chapter + args.chapters@.len() <= usize::MAX,
        total_files(args.chapters@) <= usize::MAX,
    ensures
        is_volume_layout(layout, *args),
{
    let first_name: &str = if args.chapters.len() > 0 {
        args.chapters[0].name.as_str()
    } else {
        ""
    };
    proof {
        if args.chapters@.len() == 0 {
            reveal_strlit("");
            assert(first_name@ =~= Seq::<char>::empty());
        }
    }
    let stem = make_volume_stem(
        &args.method,
        args.volume,
        args.vol_num_len,
        args.chapter_num_len,
        args.start_chapter,
        args.chapters.len(),
        first_name,
        args.output_name.as_str(),
    );
    let mut chapters: Vec<ChapterLayout> = Vec::new();
    let mut page_count: usize = 0;
    let mut c: usize = 0;
    while c < args.chapters.len()
        invariant
            c <= args.chapters.len(),
            chapters@.len() == c,
            total_files(args.chapters@) <= usize::MAX,
            page_count == total_pages(chapters@),
            page_count <= total_files(args.chapters@.take(c as int)),
            forall|k: int|
                0 <= k < c ==> is_chapter_layout(
                    #[trigger] chapters@[k],
                    args.method,
                    args.volume as nat,
                    args.vol_num_len as nat,
                    args.chapter_num_len as nat,
                    args.chapters@[k],
                    args.accept_extended_image_formats,
                    !args.simple_sorting,
                ),
        decreases args.chapters.len() - c,
    {
        let chapter = lay_out_chapter(
            &args.method,
            args.volume,
            args.vol_num_len,
            args.chapter_num_len,
            &args.chapters[c],
            args.accept_extended_image_formats,
            !args.simple_sorting,
        );
        proof {
            let files = args.chapters@[c as int].files@;
            lemma_kept_count_bound(
                image_mask(files, args.accept_extended_image_formats),
                files.len(),
            );
            assert(page_files(chapter.pages@).len() == chapter.pages@.len());
            assert(args.chapters@.take(c as int + 1).drop_last() =~= args.chapters@.take(c as int));
            assert(args.chapters@.take(c as int + 1).last() == args.chapters@[c as int]);
            lemma_total_files_grows(args.chapters@, c as int + 1);
        }
        page_count = page_count + chapter.pages.len();
        let ghost before = chapters@;
        chapters.push(chapter);
        assert(chapters@.drop_last() =~= before);
        c = c + 1;
    }
    let staging = make_staging_name(stem.as_str());
    let extension = volume_extension_of(&args.method, args.output_name.as_str());
    let complete = make_complete_name(
        stem.as_str(),
        if args.append_pages_count {
            Some(page_count)
        } else {
            None
        },
        match &extension {
            Some(ext) => Some(ext.as_str()),
            None => None,
        },
    );
    VolumeLayout {
        stem,
        extension,
        staging_name: staging,
        complete_name: complete,
        chapters,
        page_count,
    }
}

/// Whether a volume can be laid out: a volume that holds one chapter per
/// archive has exactly one chapter, and the numbers of its chapters and of
/// its files can be counted.
pub open spec fn can_lay_out(args: BuildVolumeArgs) -> bool {
    &&& args.method is Each ==> args.chapters@.len() == 1
    &&& args.start_chapter + args.chapters@.len() <= usize::MAX
    &&& total_files(args.chapters@) <= usize::MAX
}

/// Lays out a volume as `lay_out_volume` does, if it can be laid out.
pub fn try_lay_out_volume(args: &BuildVolumeArgs) -> (layout: Option<VolumeLayout>)
    ensures
        layout is Some <==> can_lay_out(*args),
        layout matches Some(volume) ==> is_volume_layout(volume, *args),
{
    match &args.method {
        BuildMethod::Each(_) => {
            if args.chapters.len() != 1 {
                return None;
            }
        },
        _ => {},
    }
    if args.chapters.len() > usize::MAX - args.start_chapter {
        return None;
    }
    let mut files: usize = 0;
    let mut c: usize = 0;
    assert(args.chapters@.take(0) =~= Seq::<ChapterFiles>::empty());
    while c < args.chapters.len()
        invariant
            c <= args.chapters.len(),
            files == total_files(args.chapters@.take(c as int)),
        decreases args.chapters.len() - c,
    {
        let count = args.chapters[c].files.len();
        proof {
            assert(args.chapters@.take(c as int + 1).drop_last() =~= args.chapters@.take(c as int));
            assert(args.chapters@.take(c as int + 1).last() == args.chapters@[c as int]);
            lemma_total_files_grows(args.chapters@, c as int + 1);
        }
        if count > usize::MAX - files {
            return None;
        }
        files = files + count;
        c = c + 1;
    }
    assert(args.chapters@.take(c as int) =~= args.chapters@);
    Some(lay_out_volume(args))
}

/// What to do about a volume before anything is written.
#[derive(Clone, Copy, Debug, PartialEq, Eq, Structural)]
pub enum Admission {
    /// The volume exists already and is to be left as it is.
    Skip,
    /// The volume is to be written.
    Write,
}

/// Whether a volume is written, given what stands at the path of its
/// complete file, taken without a page count, and at the path of its staging
/// file.
///
/// Where each chapter has a volume of its own and existing volumes are to be
/// skipped, a volume whose complete file exists is skipped, whatever that
/// file holds. Otherwise a staging file that exists stops the volume unless
/// overwriting is allowed, and the refusal names the staging file's path.
pub open spec fn admission(
    method: BuildMethod,
    volume: usize,
    complete: PathKind,
    staging_path: String,
    staging: PathKind,
    overwrite: bool,
) -> Result<Admission, EncodingError> {
    if method matches BuildMethod::Each(each) && each.skip_existing && complete
        != PathKind::Missing {
        Ok(Admission::Skip)
    } else if staging != PathKind::Missing && !overwrite {
        Err(EncodingError::OutputVolumeFileAlreadyExists(volume, staging_path))
    } else {
        Ok(Admission::Write)
    }
}

/// Decides whether a volume is written, as in `admission`.
pub fn admit_volume(
    method: &BuildMethod,
    volume: usize,
    complete: PathKind,
    staging_path: String,
    staging: PathKind,
    overwrite: bool,
) -> (admitted: Result<Admission, EncodingError>)
    ensures
        admitted == admission(*method, volume, complete, staging_path, staging, overwrite),
{
    match method {
        BuildMethod::Each(each) => {
            if each.skip_existing {
                match complete {
                    PathKind::Missing => {},
                    _ => {
                        return Ok(Admission::Skip);
                    },
                }
            }
        },
        _ => {},
    }
    match staging {
        PathKind::Missing => Ok(Admission::Write),
        _ => {
            if !overwrite {
                Err(EncodingError::OutputVolumeFileAlreadyExists(volume, staging_path))
            } else {
                Ok(Admission::Write)
            }
        },
    }
}

} // verus!
