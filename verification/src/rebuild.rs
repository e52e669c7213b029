//! Rebuilding a comic book: its pages are extracted to a temporary
//! directory, encoded again as a single volume, and the temporary directory
//! is removed.

use vstd::prelude::*;
use vstd::string::StringExecFns;
use crate::build_vol::file_stem_of;
use crate::decode;
use crate::encode;
use crate::error::RebuildingError;
use crate::images::{comic_format, comic_format_of, extension, extension_of, file_stem};
use crate::paths::path_relation;
use crate::plan::Method;
use crate::probe::{OutputDirectory, PathKind};
use crate::sorting::{is_stable_selection, sorted_selection, path_keys};
use crate::encode::name_paths;
use crate::text::views_of;

verus! {

/// Rebuild configuration.
#[derive(Clone, Debug, PartialEq, Eq)]
pub struct Config {
    /// Path to the comic book, or to a directory of comic books.
    pub input: String,
    /// Path to the rebuilt comic book, or to the directory for the rebuilt
    /// comic books.
    pub output: Option<String>,
    /// Rebuild every comic book of the input directory.
    pub dir: bool,
    /// Create the output directory if it does not exist.
    pub create_output_dir: bool,
    /// Overwrite existing files instead of failing.
    pub overwrite: bool,
    /// Path to the directory to extract pages to, in place of one beside the
    /// input.
    pub temporary_dir: Option<String>,
    /// Only extract supported image formats.
    pub only_extract_images: bool,
    /// Accept image formats that not every reader supports.
    pub extended_image_formats: bool,
    /// Sort by raw order in place of natural order.
    pub disable_nat_sort: bool,
    /// Compress all images losslessly.
    pub compress_losslessly: bool,
}

/// The name of the directory that pages are extracted under, where the
/// configuration names no other: `__tmp_comic_encoder_extract`.
pub fn temporary_dir_name() -> (name: String)
    ensures
        name@ == "__tmp_comic_encoder_extract"@,
{
    String::from_str("__tmp_comic_encoder_extract")
}

/// The name of the directory, under the temporary directory, that a comic
/// book's pages are extracted to: the comic book's file name without its
/// extension, so that the rebuilt volume's only chapter has a readable name.
pub fn pages_dir_name(input_name: &str) -> (name: String)
    ensures
        name@ == file_stem(input_name@),
{
    file_stem_of(input_name)
}

/// The file name of a rebuilt comic book where the configuration names no
/// output: the input's name with the archive's extension in place of its
/// own.
pub fn rebuilt_name(input_name: &str) -> (name: String)
    ensures
        name@ == file_stem(input_name@) + ".cbz"@,
{
    let mut name = file_stem_of(input_name);
    name.append(".cbz");
    name
}

/// The names that a rebuilding derives from the name of its input.
#[derive(Clone, Debug, PartialEq, Eq)]
pub struct RebuildNames {
    /// The name of the directory, under the temporary directory, that the
    /// pages are extracted to.
    pub pages_dir: String,
    /// The file name of the rebuilt comic book, where the configuration
    /// names no output.
    pub output: String,
}

/// Derives the names of a rebuilding from the file name of its input. An
/// input whose path has no file name cannot be rebuilt.
pub fn rebuild_names(input_name: Option<&str>) -> (derived: Result<RebuildNames, RebuildingError>)
    ensures
        match input_name {
            Some(name) => (derived matches Ok(names) && names.pages_dir@ == file_stem(name@)
                && names.output@ == file_stem(name@) + ".cbz"@),
            None => derived == Err::<RebuildNames, RebuildingError>(
                RebuildingError::InputFileIsRootDirectory,
            ),
        },
{
    match input_name {
        Some(name) => Ok(
            RebuildNames { pages_dir: pages_dir_name(name), output: rebuilt_name(name) },
        ),
        None => Err(RebuildingError::InputFileIsRootDirectory),
    }
}

/// The configuration for extracting the pages of the comic book at `input`
/// to `pages_dir`, which is created on the way.
pub fn decode_config(config: &Config, input: String, pages_dir: String) -> (decoding:
    decode::Config)
    ensures
        decoding.input == input,
        decoding.output == Some(pages_dir),
        decoding.create_output_dir,
        decoding.only_extract_images == config.only_extract_images,
        decoding.extended_image_formats == config.extended_image_formats,
        decoding.disable_nat_sort == config.disable_nat_sort,
{
    decode::Config {
        input,
        output: Some(pages_dir),
        create_output_dir: true,
        only_extract_images: config.only_extract_images,
        extended_image_formats: config.extended_image_formats,
        disable_nat_sort: config.disable_nat_sort,
    }
}

/// The configuration for encoding the directories under `temporary_dir` as
/// the single volume at `output`.
pub fn encode_config(config: &Config, temporary_dir: String, output: String) -> (encoding:
    encode::Config)
    ensures
        encoding.method == Method::Single,
        encoding.chapters_dir == temporary_dir,
        encoding.output == Some(output),
        !encoding.chapters_suffix,
        !encoding.create_output_dir,
        encoding.overwrite == config.overwrite,
        !encoding.skip_existing,
        encoding.dirs_prefix is None,
        encoding.start_chapter is None,
        encoding.end_chapter is None,
        !encoding.root_chapter,
        encoding.extended_image_formats == config.extended_image_formats,
        encoding.disable_nat_sort == config.disable_nat_sort,
        !encoding.show_chapters_path,
        !encoding.display_full_names,
        encoding.compress_losslessly == config.compress_losslessly,
        !encoding.append_pages_count,
{
    encode::Config {
        method: Method::Single,
        chapters_dir: temporary_dir,
        output: Some(output),
        chapters_suffix: false,
        create_output_dir: false,
        overwrite: config.overwrite,
        skip_existing: false,
        dirs_prefix: None,
        start_chapter: None,
        end_chapter: None,
        root_chapter: false,
        extended_image_formats: config.extended_image_formats,
        disable_nat_sort: config.disable_nat_sort,
        show_chapters_path: false,
        display_full_names: false,
        compress_losslessly: config.compress_losslessly,
        append_pages_count: false,
    }
}

/// The steps of a rebuilding.
#[derive(Clone, Copy, Debug, PartialEq, Eq, Structural)]
pub enum RebuildStep {
    /// Remove the directory of pages that an earlier run left behind.
    RemoveStalePages,
    /// Extract the comic book's pages.
    Extract,
    /// Encode the pages as a single volume.
    Encode,
    /// Remove the temporary directory.
    RemoveTemporary,
}

/// What a rebuilding does next.
#[derive(Clone, Copy, Debug, PartialEq, Eq, Structural)]
pub enum RebuildMove {
    /// Take this step.
    Take(RebuildStep),
    /// Stop: the comic book was rebuilt.
    Finished,
    /// Stop: the step that was taken last failed.
    Failed,
}

/// What a rebuilding does after the step `done`, or at its start where no
/// step was taken yet.
///
/// A directory of pages left by an earlier run is removed before anything is
/// extracted, since its pages would end up in the rebuilt volume. Then the
/// pages are extracted, then encoded, then the temporary directory is
/// removed. A step that fails ends the rebuilding, but for the last one: once
/// the volume is encoded the rebuilding has succeeded, whether or not the
/// temporary directory could be removed.
pub open spec fn next_move(done: Option<RebuildStep>, succeeded: bool, stale_pages: bool) -> RebuildMove {
    match done {
        None => if stale_pages {
            RebuildMove::Take(RebuildStep::RemoveStalePages)
        } else {
            RebuildMove::Take(RebuildStep::Extract)
        },
        Some(RebuildStep::RemoveTemporary) => RebuildMove::Finished,
        Some(step) => if !succeeded {
            RebuildMove::Failed
        } else {
            match step {
                RebuildStep::RemoveStalePages => RebuildMove::Take(RebuildStep::Extract),
                RebuildStep::Extract => RebuildMove::Take(RebuildStep::Encode),
                _ => RebuildMove::Take(RebuildStep::RemoveTemporary),
            }
        },
    }
}

/// Decides what a rebuilding does next, as in `next_move`.
pub fn decide_next_move(done: Option<RebuildStep>, succeeded: bool, stale_pages: bool) -> (next:
    RebuildMove)
    ensures
        next == next_move(done, succeeded, stale_pages),
{
    match done {
        None => {
            if stale_pages {
                RebuildMove::Take(RebuildStep::RemoveStalePages)
            } else {
                RebuildMove::Take(RebuildStep::Extract)
            }
        },
        Some(RebuildStep::RemoveTemporary) => RebuildMove::Finished,
        Some(step) => {
            if !succeeded {
                RebuildMove::Failed
            } else {
                match step {
                    RebuildStep::RemoveStalePages => RebuildMove::Take(RebuildStep::Extract),
                    RebuildStep::Extract => RebuildMove::Take(RebuildStep::Encode),
                    _ => RebuildMove::Take(RebuildStep::RemoveTemporary),
                }
            }
        },
    }
}

/// Whether the comic books of a directory may be rebuilt, and what is to be
/// done about the output directory: the input has to exist, and the output
/// directory has to be a directory, or to be created where that is allowed.
pub open spec fn directory_preparation(config: Config, input: PathKind, output: PathKind) -> Result<
    OutputDirectory,
    RebuildingError,
> {
    if input == PathKind::Missing {
        Err(RebuildingError::InputDirectoryNotFound)
    } else if output == PathKind::Missing {
        if config.create_output_dir {
            Ok(OutputDirectory::Create)
        } else {
            Err(RebuildingError::OutputDirectoryNotFound)
        }
    } else if output == PathKind::File {
        Err(RebuildingError::OutputDirectoryIsAFile)
    } else {
        Ok(OutputDirectory::Ready)
    }
}

/// Decides whether the comic books of a directory may be rebuilt, as in
/// `directory_preparation`. Without an output path in the configuration the
/// output directory is the input directory.
pub fn prepare_directory(config: &Config, input: PathKind, output: PathKind) -> (prepared: Result<
    OutputDirectory,
    RebuildingError,
>)
    ensures
        prepared == directory_preparation(*config, input, output),
{
    match input {
        PathKind::Missing => {
            return Err(RebuildingError::InputDirectoryNotFound);
        },
        _ => {},
    }
    match output {
        PathKind::Missing => {
            if config.create_output_dir {
                Ok(OutputDirectory::Create)
            } else {
                Err(RebuildingError::OutputDirectoryNotFound)
            }
        },
        PathKind::File => Err(RebuildingError::OutputDirectoryIsAFile),
        PathKind::Directory => Ok(OutputDirectory::Ready),
    }
}

/// For each item of a directory listing, whether it is a comic book to
/// rebuild: a file whose extension is written as that of a supported format.
pub open spec fn comic_mask(names: Seq<String>, is_file: Seq<bool>) -> Seq<bool> {
    Seq::new(
        names.len(),
        |i: int|
            is_file[i] && extension(names[i]@) is Some && comic_format(extension(names[i]@)->0)
                is Some,
    )
}

/// Picks the comic books among the items of a directory, and puts them in
/// natural order. The result lists positions in the listing.
pub fn select_comics(names: &Vec<String>, is_file: &Vec<bool>) -> (comics: Vec<usize>)
    requires
        names.len() == is_file.len(),
    ensures
        is_stable_selection(
            comics@,
            name_paths(names@),
            path_relation(true),
            comic_mask(names@, is_file@),
        ),
{
    let mut paths: Vec<Vec<String>> = Vec::new();
    let mut mask: Vec<bool> = Vec::new();
    let mut k: usize = 0;
    while k < names.len()
        invariant
            k <= names.len(),
            names.len() == is_file.len(),
            paths@.len() == k,
            mask@.len() == k,
            forall|i: int| 0 <= i < k ==> (#[trigger] paths@[i])@ == seq![names@[i]],
            forall|i: int| 0 <= i < k ==> mask@[i] == comic_mask(names@, is_file@)[i],
        decreases names.len() - k,
    {
        let wanted = is_file[k] && match extension_of(names[k].as_str()) {
            Some(ext) => comic_format_of(ext.as_str()).is_some(),
            None => false,
        };
        let mut path: Vec<String> = Vec::new();
        path.push(names[k].clone());
        assert(path@ =~= seq![names@[k as int]]);
        paths.push(path);
        mask.push(wanted);
        k = k + 1;
    }
    proof {
        assert(mask@ =~= comic_mask(names@, is_file@));
        assert forall|i: int| 0 <= i < names@.len() implies path_keys(paths@)[i] == name_paths(
            names@,
        )[i] by {
            assert(views_of(paths@[i]@) =~= seq![names@[i]@]);
        }
        assert(path_keys(paths@) =~= name_paths(names@));
    }
    sorted_selection(&paths, &mask, true)
}

} // verus!
