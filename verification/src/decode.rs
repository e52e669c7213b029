//! Decoding a comic book: which of its entries become pages, in which order
//! and under which names.

use vstd::prelude::*;
use vstd::string::StringExecFns;
use crate::build_vol::file_name_of;
use crate::probe::{PathKind, OutputDirectory};
use crate::calc::{decimal_digits, decimal_width};
use crate::error::DecodingError;
use crate::images::{ComicFormat, comic_format, comic_format_of, extension, extension_of,
    names_image, has_image_ext, last_index_of};
use crate::numbering::{push_padded, zero_padded};
use crate::opts::Decode;
use crate::paths::path_relation;
use crate::sorting::{is_stable_selection, path_keys, sorted_selection};
use crate::text::text_of;

verus! {

/// Decoding configuration.
#[derive(Clone, Debug, PartialEq, Eq)]
pub struct Config {
    /// Path to the comic.
    pub input: String,
    /// Path to the output directory.
    pub output: Option<String>,
    /// Create the output directory if it does not exist.
    pub create_output_dir: bool,
    /// Only extract supported image formats; other files are ignored.
    pub only_extract_images: bool,
    /// When only images are extracted, allow image formats that not every
    /// reader supports.
    pub extended_image_formats: bool,
    /// Sort by raw order in place of natural order.
    pub disable_nat_sort: bool,
}

impl Config {
    /// The configuration that the options of a decoding ask for.
    pub fn from_options(options: &Decode) -> (config: Config)
        ensures
            config.input == options.input,
            config.output == options.output,
            config.create_output_dir == options.create_output_dir,
            config.only_extract_images == options.extract_images_only,
            config.extended_image_formats == options.accept_extended_image_formats,
            config.disable_nat_sort == options.simple_sorting,
    {
        Config {
            input: options.input.clone(),
            output: options.output.clone(),
            create_output_dir: options.create_output_dir,
            only_extract_images: options.extract_images_only,
            extended_image_formats: options.accept_extended_image_formats,
            disable_nat_sort: options.simple_sorting,
        }
    }
}

/// A decoding that may go ahead.
#[derive(Clone, Copy, Debug, PartialEq, Eq, Structural)]
pub struct Preparation {
    /// The format to read the input as.
    pub format: ComicFormat,
    /// What is to be done about the output directory.
    pub output: OutputDirectory,
}

/// Whether a decoding may go ahead, given what stands at the input's path,
/// the input's extension and what stands at the output directory's path.
///
/// The input has to be a file, and its extension has to be written as the
/// extension of a supported format. An output directory that was asked for
/// has to be a directory, or may be missing where it may be created; one
/// that was not asked for is created beside the input.
pub open spec fn preparation(
    config: Config,
    input: PathKind,
    input_extension: Option<String>,
    output: PathKind,
) -> Result<Preparation, DecodingError> {
    if input == PathKind::Missing {
        Err(DecodingError::InputFileNotFound)
    } else if input == PathKind::Directory {
        Err(DecodingError::InputFileIsADirectory)
    } else if input_extension is None || comic_format(input_extension->0@) is None {
        Err(DecodingError::UnsupportedFormat(input_extension))
    } else {
        let format = comic_format(input_extension->0@)->0;
        if config.output is None {
            Ok(Preparation { format, output: OutputDirectory::Create })
        } else if output == PathKind::Missing {
            if config.create_output_dir {
                Ok(Preparation { format, output: OutputDirectory::Create })
            } else {
                Err(DecodingError::OutputDirectoryNotFound)
            }
        } else if output == PathKind::File {
            Err(DecodingError::OutputDirectoryIsAFile)
        } else {
            Ok(Preparation { format, output: OutputDirectory::Ready })
        }
    }
}

/// Decides whether a decoding may go ahead, as in `preparation`. An
/// extension that names no supported format is handed back in the refusal.
pub fn prepare(
    config: &Config,
    input: PathKind,
    input_extension: Option<String>,
    output: PathKind,
) -> (prepared: Result<Preparation, DecodingError>)
    ensures
        prepared == preparation(*config, input, input_extension, output),
{
    match input {
        PathKind::Missing => {
            return Err(DecodingError::InputFileNotFound);
        },
        PathKind::Directory => {
            return Err(DecodingError::InputFileIsADirectory);
        },
        PathKind::File => {},
    }
    let format = match input_extension {
        None => {
            return Err(DecodingError::UnsupportedFormat(None));
        },
        Some(ext) => match comic_format_of(ext.as_str()) {
            None => {
                return Err(DecodingError::UnsupportedFormat(Some(ext)));
            },
            Some(format) => format,
        },
    };
    if config.output.is_none() {
        return Ok(Preparation { format, output: OutputDirectory::Create });
    }
    match output {
        PathKind::Missing => {
            if config.create_output_dir {
                Ok(Preparation { format, output: OutputDirectory::Create })
            } else {
                Err(DecodingError::OutputDirectoryNotFound)
            }
        },
        PathKind::File => Err(DecodingError::OutputDirectoryIsAFile),
        PathKind::Directory => Ok(Preparation { format, output: OutputDirectory::Ready }),
    }
}

/// A page to extract from an archive.
#[derive(Clone, Debug, PartialEq, Eq)]
pub struct ExtractedPage {
    /// The position of the page's entry in the archive.
    pub entry: usize,
    /// The file name to write the page under.
    pub name: String,
}

/// For each entry of an archive, whether it is extracted: directories are
/// not, and where only images are asked for, nor is an entry whose name is
/// not an image's.
pub open spec fn extraction_mask(paths: Seq<Vec<String>>, is_file: Seq<bool>, config: Config) -> Seq<
    bool,
> {
    Seq::new(
        paths.len(),
        |i: int|
            is_file[i] && (!config.only_extract_images || names_image(
                file_name_of(paths[i]@),
                config.extended_image_formats,
            )),
    )
}

/// The file name of the page of rank `rank`, counted from one, out of
/// `total`: the rank, padded with zeros to the width of the total, and the
/// extension, if there is one, behind a dot.
pub open spec fn numbered_page_name(rank: nat, total: nat, ext: Option<Seq<char>>) -> Seq<char> {
    match ext {
        Some(e) => zero_padded(rank, decimal_width(total)) + "."@ + e,
        None => zero_padded(rank, decimal_width(total)),
    }
}

/// The entries that a list of pages comes from, in the pages' order.
pub open spec fn page_entries(pages: Seq<ExtractedPage>) -> Seq<usize> {
    Seq::new(pages.len(), |i: int| pages[i].entry)
}

/// Whether `pages` is the extraction of an archive with the given entries:
/// the entries to extract, each once, sorted by their paths in the archive
/// under the configured sort mode, and each named after its rank with the
/// extension it has in the archive.
pub open spec fn is_extraction(
    pages: Seq<ExtractedPage>,
    paths: Seq<Vec<String>>,
    is_file: Seq<bool>,
    config: Config,
) -> bool {
    &&& is_stable_selection(
        page_entries(pages),
        path_keys(paths),
        path_relation(!config.disable_nat_sort),
        extraction_mask(paths, is_file, config),
    )
    &&& forall|i: int|
        0 <= i < pages.len() ==> (#[trigger] pages[i]).name@ == numbered_page_name(
            (i + 1) as nat,
            pages.len(),
            extension(file_name_of(paths[pages[i].entry as int]@)),
        )
}

/// The file name of a numbered page, as in `numbered_page_name`.
pub fn make_numbered_page_name(rank: usize, total: usize, ext: Option<&str>) -> (name: String)
    ensures
        name@ == numbered_page_name(rank as nat, total as nat, text_of(ext)),
{
    let mut name = String::new();
    push_padded(&mut name, rank, decimal_digits(total));
    match ext {
        Some(e) => {
            name.append(".");
            name.append(e);
        },
        None => {},
    }
    assert(name@ =~= numbered_page_name(rank as nat, total as nat, text_of(ext)));
    name
}

/// Plans the extraction of an archive from the list of its entries, each
/// given by the components of its path and by whether it is a file.
pub fn plan_extraction(paths: &Vec<Vec<String>>, is_file: &Vec<bool>, config: &Config) -> (pages:
    Vec<ExtractedPage>)
    requires
        paths.len() == is_file.len(),
    ensures
        is_extraction(pages@, paths@, is_file@, *config),
{
    let mut mask: Vec<bool> = Vec::new();
    let mut k: usize = 0;
    while k < paths.len()
        invariant
            k <= paths.len(),
            paths.len() == is_file.len(),
            mask@.len() == k,
            forall|i: int|
                0 <= i < k ==> mask@[i] == extraction_mask(paths@, is_file@, *config)[i],
        decreases paths.len() - k,
    {
        let path = &paths[k];
        let wanted = if !is_file[k] {
            false
        } else if !config.only_extract_images {
            true
        } else if path.len() > 0 {
            assert(path@.last() == path@[path@.len() - 1]);
            has_image_ext(path[path.len() - 1].as_str(), config.extended_image_formats)
        } else {
            proof {
                reveal_with_fuel(last_index_of, 1);
            }
            false
        };
        mask.push(wanted);
        k = k + 1;
    }
    assert(mask@ =~= extraction_mask(paths@, is_file@, *config));
    let visit = sorted_selection(paths, &mask, !config.disable_nat_sort);
    let mut pages: Vec<ExtractedPage> = Vec::new();
    let mut i: usize = 0;
    while i < visit.len()
        invariant
            i <= visit.len(),
            pages@.len() == i,
            forall|j: int| 0 <= j < visit@.len() ==> (#[trigger] visit@[j]) < paths@.len(),
            forall|j: int|
                0 <= j < i ==> {
                    &&& (#[trigger] pages@[j]).entry == visit@[j]
                    &&& pages@[j].name@ == numbered_page_name(
                        (j + 1) as nat,
                        visit@.len(),
                        extension(file_name_of(paths@[visit@[j] as int]@)),
                    )
                },
        decreases visit.len() - i,
    {
        let entry: usize = visit[i];
        let path = &paths[entry];
        let name = if path.len() > 0 {
            assert(path@.last() == path@[path@.len() - 1]);
            match extension_of(path[path.len() - 1].as_str()) {
                Some(ext) => make_numbered_page_name(i + 1, visit.len(), Some(ext.as_str())),
                None => make_numbered_page_name(i + 1, visit.len(), None),
            }
        } else {
            proof {
                reveal_with_fuel(last_index_of, 1);
            }
            make_numbered_page_name(i + 1, visit.len(), None)
        };
        pages.push(ExtractedPage { entry, name });
        i = i + 1;
    }
    assert(page_entries(pages@) =~= visit@);
    pages
}

} // verus!
