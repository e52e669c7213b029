//! The options of a run, as plain values.

use vstd::prelude::*;

verus! {

/// Everything that a run is asked to do.
#[derive(Clone, Debug, PartialEq, Eq)]
pub struct Opts {
    /// Do not display any message other than errors.
    pub silent: bool,
    /// Display detailed informations.
    pub verbose: bool,
    /// Display extremely detailed informations.
    pub debug: bool,
    /// What to do.
    pub action: Action,
}

/// The two directions of a run.
#[derive(Clone, Debug, PartialEq, Eq)]
pub enum Action {
    /// From directories of images to volumes.
    Encode(Encode),
    /// From a comic book to a directory of images.
    Decode(Decode),
}

/// An encoding: its method and the options common to all methods.
#[derive(Clone, Debug, PartialEq, Eq)]
pub struct Encode {
    /// Encoding method.
    pub method: EncodingMethod,
    /// The options common to all methods.
    pub options: EncodingOptions,
}

/// The ways to encode directories to volumes.
#[derive(Clone, Debug, PartialEq, Eq)]
pub enum EncodingMethod {
    /// Compile chapter directories into volumes.
    Compile(CompilationOptions),
    /// Encode a single directory as a single volume.
    Single(EncodeSingle),
}

/// The options common to all encoding methods.
#[derive(Clone, Debug, PartialEq, Eq)]
pub struct EncodingOptions {
    /// Path to the directory containing the chapters or the volumes to
    /// encode.
    pub input: String,
    /// Path to the directory where the volumes should be put, or to the
    /// single volume.
    pub output: Option<String>,
    /// Overwrite existing files instead of failing.
    pub overwrite: bool,
    /// Add the number of pages at the end of each volume's file name.
    pub append_pages_count: bool,
    /// Allow additional image formats that may not be supported by all
    /// readers.
    pub accept_extended_image_formats: bool,
    /// Disable natural sorting for pictures.
    pub simple_sorting: bool,
    /// Compress losslessly.
    pub compress_losslessly: bool,
}

/// The options of a compilation of chapter directories into volumes.
#[derive(Clone, Debug, PartialEq, Eq)]
pub struct CompilationOptions {
    /// How the chapters are spread over volumes.
    pub method: CompilationMethod,
    /// Create the output directory if it does not exist yet.
    pub create_output_dir: bool,
    /// Prefix in the name of the chapter directories.
    pub dirs_prefix: Option<String>,
    /// Start at a specific chapter, ignoring every chapter before this one.
    pub start_chapter: Option<usize>,
    /// End at a specific chapter, ignoring every chapter after this one.
    pub end_chapter: Option<usize>,
}

/// The ways to spread chapters over volumes.
#[derive(Clone, Copy, Debug, PartialEq, Eq, Structural)]
pub enum CompilationMethod {
    /// Several chapters in each volume.
    Ranges(CompileRanges),
    /// Each chapter in a volume of its own.
    Each(CompileEach),
}

/// Compile several chapters into each volume.
#[derive(Clone, Copy, Debug, PartialEq, Eq, Structural)]
pub struct CompileRanges {
    /// Number of chapters per volume.
    pub chapters_per_volume: u16,
    /// Add the start and end chapter at the end of each volume's file name.
    pub append_chapters_range: bool,
    /// Show the path of each chapter put in a volume.
    pub debug_chapters_path: bool,
}

/// Compile each directory to a volume of its own.
#[derive(Clone, Copy, Debug, PartialEq, Eq, Structural)]
pub struct CompileEach {
    /// Skip output chapter files that already exist.
    pub skip_existing: bool,
    /// Display full file names; by default names are truncated above 50
    /// characters.
    pub display_full_names: bool,
}

/// Encode a single directory as a single volume.
#[derive(Clone, Copy, Debug, PartialEq, Eq, Structural)]
pub struct EncodeSingle {}

/// Extract the images of an existing comic book.
#[derive(Clone, Debug, PartialEq, Eq)]
pub struct Decode {
    /// The comic book to decode.
    pub input: String,
    /// Directory where images will be written.
    pub output: Option<String>,
    /// Create the output directory if it does not exist yet.
    pub create_output_dir: bool,
    /// Only extract supported image formats.
    pub extract_images_only: bool,
    /// When only images are extracted, extract additional image formats that
    /// may not be supported by all readers.
    pub accept_extended_image_formats: bool,
    /// Disable natural sorting.
    pub simple_sorting: bool,
    /// Continue even if some pages cannot be extracted from a PDF.
    pub skip_bad_pdf_pages: bool,
}

} // verus!
