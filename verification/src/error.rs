//! The reasons for which planning an encoding or a decoding is refused.

use vstd::prelude::*;
use vstd::string::StringExecFns;
use crate::numbering::{decimal, push_padded};

verus! {

/// Why an encoding cannot go ahead.
#[derive(Clone, Debug, PartialEq, Eq)]
pub enum EncodingError {
    /// The number of chapters per volume is zero.
    AtLeast1ChapterPerVolume,
    /// The start chapter was given as zero; chapters are counted from one.
    InvalidStartChapter,
    /// The end chapter was given as zero; chapters are counted from one.
    InvalidEndChapter,
    /// The end chapter comes before the start chapter.
    StartChapterCannotBeHigherThanEndChapter,
    /// The directory that holds the chapters does not exist.
    ChaptersDirectoryNotFound,
    /// The output directory does not exist and may not be created.
    OutputDirectoryNotFound,
    /// The output file of a single volume is a directory.
    OutputFileIsADirectory,
    /// The input's root cannot stand for a single chapter: it has no name.
    RootCannotBeUsedAsSingleChapter,
    /// The directory to encode as a single volume does not exist.
    SingleInputDirectoryNotFound,
    /// The path to encode as a single volume is not a directory.
    SingleInputDirectoryIsNotADirectory,
    /// The directory to encode has no name to derive the output's name from.
    SingleInputDirectorHasNoName,
    /// The output path of a single volume has no file name.
    SingleOutputFileHasNoName,
    /// A file of the volume with this number exists already, at this path,
    /// and may not be overwritten.
    OutputVolumeFileAlreadyExists(usize, String),
    /// The path at which the volume with this number is to be published is a
    /// directory.
    OutputVolumeFileIsADirectory(usize, String),
}

/// Why a decoding cannot go ahead.
#[derive(Clone, Debug, PartialEq, Eq)]
pub enum DecodingError {
    /// The comic book to decode does not exist.
    InputFileNotFound,
    /// The comic book to decode is not a file.
    InputFileIsADirectory,
    /// The output directory does not exist and may not be created.
    OutputDirectoryNotFound,
    /// The output directory is a file.
    OutputDirectoryIsAFile,
    /// The input's extension names no supported format: the extension, if
    /// the input has one.
    UnsupportedFormat(Option<String>),
}

/// Why a rebuilding cannot go ahead.
#[derive(Clone, Copy, Debug, PartialEq, Eq, Structural)]
pub enum RebuildingError {
    /// The input's path has no file name to derive other names from.
    InputFileIsRootDirectory,
    /// The directory of comic books to rebuild does not exist.
    InputDirectoryNotFound,
    /// The output directory does not exist and may not be created.
    OutputDirectoryNotFound,
    /// The output directory is a file.
    OutputDirectoryIsAFile,
}

/// What to tell the user about a volume whose file cannot be created: the
/// volume's number, the path in the way, and what is wrong with it.
pub open spec fn volume_message(volume: nat, path: Seq<char>, reason: Seq<char>) -> Seq<char> {
    "Failed to create the file of volume "@ + decimal(volume) + " because path '"@ + path + "'"@
        + reason
}

fn describe_volume(volume: usize, path: &str, reason: &str) -> (text: String)
    ensures
        text@ == volume_message(volume as nat, path@, reason@),
{
    let mut text = String::from_str("Failed to create the file of volume ");
    push_padded(&mut text, volume, 0);
    text.append(" because path '");
    text.append(path);
    text.append("'");
    text.append(reason);
    text
}

/// What to tell the user about an extension that names no supported format:
/// the extension between quotes, which stay empty where there is none.
pub open spec fn unsupported_message(ext: Option<String>) -> Seq<char> {
    "Unsupported image format (based on file extension) '"@ + (match ext {
        Some(e) => e@,
        None => Seq::empty(),
    }) + "'"@
}

impl EncodingError {
    /// What to tell the user.
    pub open spec fn message(self) -> Seq<char> {
        match self {
            EncodingError::AtLeast1ChapterPerVolume => "There must be at least 1 chapter per volume"@,
            EncodingError::InvalidStartChapter => "Please provide a valid start chapter (integer, strictly higher than 0)"@,
            EncodingError::InvalidEndChapter => "Please provide a valid end chapter (integer, strictly higher than 0)"@,
            EncodingError::StartChapterCannotBeHigherThanEndChapter => "Start chapter cannot be higher than the end chapter"@,
            EncodingError::ChaptersDirectoryNotFound => "Chapters directory was not found"@,
            EncodingError::OutputDirectoryNotFound => "Output directory was not found"@,
            EncodingError::OutputFileIsADirectory => "Output file is a directory"@,
            EncodingError::RootCannotBeUsedAsSingleChapter => "Input directory has no name, so it cannot be used as a single chapter"@,
            EncodingError::SingleInputDirectoryNotFound => "Input directory was not found"@,
            EncodingError::SingleInputDirectoryIsNotADirectory => "Input directory is not a directory"@,
            EncodingError::SingleInputDirectorHasNoName => "Input directory has no name, so an output name cannot be inferred"@,
            EncodingError::SingleOutputFileHasNoName => "Output file does not have a valid name (e.g. '.' or '/')"@,
            EncodingError::OutputVolumeFileAlreadyExists(volume, path) => volume_message(
                volume as nat,
                path@,
                " already exists (use '--overwrite' to force writing)"@,
            ),
            EncodingError::OutputVolumeFileIsADirectory(volume, path) => volume_message(
                volume as nat,
                path@,
                " is a directory"@,
            ),
        }
    }

    /// What to tell the user, as in `message`.
    pub fn describe(&self) -> (text: String)
        ensures
            text@ == self.message(),
    {
        match self {
            EncodingError::AtLeast1ChapterPerVolume => String::from_str("There must be at least 1 chapter per volume"),
            EncodingError::InvalidStartChapter => String::from_str("Please provide a valid start chapter (integer, strictly higher than 0)"),
            EncodingError::InvalidEndChapter => String::from_str("Please provide a valid end chapter (integer, strictly higher than 0)"),
            EncodingError::StartChapterCannotBeHigherThanEndChapter => String::from_str("Start chapter cannot be higher than the end chapter"),
            EncodingError::ChaptersDirectoryNotFound => String::from_str("Chapters directory was not found"),
            EncodingError::OutputDirectoryNotFound => String::from_str("Output directory was not found"),
            EncodingError::OutputFileIsADirectory => String::from_str("Output file is a directory"),
            EncodingError::RootCannotBeUsedAsSingleChapter => String::from_str("Input directory has no name, so it cannot be used as a single chapter"),
            EncodingError::SingleInputDirectoryNotFound => String::from_str("Input directory was not found"),
            EncodingError::SingleInputDirectoryIsNotADirectory => String::from_str("Input directory is not a directory"),
            EncodingError::SingleInputDirectorHasNoName => String::from_str("Input directory has no name, so an output name cannot be inferred"),
            EncodingError::SingleOutputFileHasNoName => String::from_str("Output file does not have a valid name (e.g. '.' or '/')"),
            EncodingError::OutputVolumeFileAlreadyExists(volume, path) => describe_volume(
                *volume,
                path.as_str(),
                " already exists (use '--overwrite' to force writing)",
            ),
            EncodingError::OutputVolumeFileIsADirectory(volume, path) => describe_volume(
                *volume,
                path.as_str(),
                " is a directory",
            ),
        }
    }
}

impl DecodingError {
    /// What to tell the user.
    pub open spec fn message(self) -> Seq<char> {
        match self {
            DecodingError::InputFileNotFound => "Input file was not found"@,
            DecodingError::InputFileIsADirectory => "Input file is a directory"@,
            DecodingError::OutputDirectoryNotFound => "Output directory was not found"@,
            DecodingError::OutputDirectoryIsAFile => "Output directory is a file"@,
            DecodingError::UnsupportedFormat(ext) => unsupported_message(ext),
        }
    }

    /// What to tell the user, as in `message`.
    pub fn describe(&self) -> (text: String)
        ensures
            text@ == self.message(),
    {
        match self {
            DecodingError::InputFileNotFound => String::from_str("Input file was not found"),
            DecodingError::InputFileIsADirectory => String::from_str("Input file is a directory"),
            DecodingError::OutputDirectoryNotFound => String::from_str("Output directory was not found"),
            DecodingError::OutputDirectoryIsAFile => String::from_str("Output directory is a file"),
            DecodingError::UnsupportedFormat(ext) => {
                let mut text = String::from_str(
                    "Unsupported image format (based on file extension) '",
                );
                match ext {
                    Some(e) => {
                        text.append(e.as_str());
                    },
                    None => {
                        assert(text@ + Seq::<char>::empty() =~= text@);
                    },
                }
                text.append("'");
                text
            },
        }
    }
}

impl RebuildingError {
    /// What to tell the user.
    pub open spec fn message(self) -> Seq<char> {
        match self {
            RebuildingError::InputFileIsRootDirectory => "Input file is a root directory"@,
            RebuildingError::InputDirectoryNotFound => "Input directory was not found"@,
            RebuildingError::OutputDirectoryNotFound => "Output directory was not found"@,
            RebuildingError::OutputDirectoryIsAFile => "Output directory is a file"@,
        }
    }

    /// What to tell the user, as in `message`.
    pub fn describe(&self) -> (text: String)
        ensures
            text@ == self.message(),
    {
        match self {
            RebuildingError::InputFileIsRootDirectory => String::from_str("Input file is a root directory"),
            RebuildingError::InputDirectoryNotFound => String::from_str("Input directory was not found"),
            RebuildingError::OutputDirectoryNotFound => String::from_str("Output directory was not found"),
            RebuildingError::OutputDirectoryIsAFile => String::from_str("Output directory is a file"),
        }
    }
}

} // verus!
