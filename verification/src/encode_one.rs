//! Encoding a single directory as a single volume.

use vstd::prelude::*;
use vstd::string::StringExecFns;
use crate::build_vol::{BuildMethod, BuildVolumeArgs, ChapterFiles};
use crate::error::EncodingError;
use crate::images::file_stem;
use crate::build_vol::file_stem_of;
use crate::opts::{EncodeSingle, EncodingOptions};
use crate::probe::PathKind;

verus! {

/// What is known of the paths of a single volume's encoding.
#[derive(Clone, Debug, PartialEq, Eq)]
pub struct SinglePaths {
    /// The file name of the input directory, if its path has one.
    pub input_name: Option<String>,
    /// What stands at the input's path.
    pub input: PathKind,
    /// The file name of the output path, if it has one. Without an output
    /// path in the options, the output is `default_output_name` under the
    /// input directory.
    pub output_name: Option<String>,
    /// What stands at the output's path.
    pub output: PathKind,
}

/// The file name of the volume that a directory is encoded to by default:
/// the directory's name with the archive's extension in place of its own.
pub open spec fn default_output(input_name: Seq<char>) -> Seq<char> {
    file_stem(input_name) + ".cbz"@
}

/// The file name of the default output, as in `default_output`.
pub fn default_output_name(input_name: &str) -> (name: String)
    ensures
        name@ == default_output(input_name@),
{
    let mut name = file_stem_of(input_name);
    name.append(".cbz");
    name
}

/// Why a single directory cannot be encoded, if it cannot. The tests are
/// made in this order: an input without a name where the output's name
/// derives from it, a missing input, an input that is no directory, an
/// output that is a directory, which is refused under the input's path, an
/// output without a file name.
pub open spec fn single_error(enc_opts: EncodingOptions, paths: SinglePaths) -> Option<
    EncodingError,
> {
    if enc_opts.output is None && paths.input_name is None {
        Some(EncodingError::SingleInputDirectorHasNoName)
    } else if paths.input == PathKind::Missing {
        Some(EncodingError::SingleInputDirectoryNotFound)
    } else if paths.input != PathKind::Directory {
        Some(EncodingError::SingleInputDirectoryIsNotADirectory)
    } else if paths.output == PathKind::Directory {
        Some(EncodingError::OutputVolumeFileAlreadyExists(1, enc_opts.input))
    } else if paths.output_name is None {
        Some(EncodingError::SingleOutputFileHasNoName)
    } else {
        None
    }
}

/// Whether `args` asks for the one volume of a single directory: volume one
/// of one, with the directory as its only chapter, named after the output
/// file, and with all of the directory's files.
pub open spec fn is_single_volume(
    args: BuildVolumeArgs,
    opts: EncodeSingle,
    enc_opts: EncodingOptions,
    output_name: String,
    files: Vec<Vec<String>>,
) -> bool {
    &&& args.method == BuildMethod::Single(opts)
    &&& args.accept_extended_image_formats == enc_opts.accept_extended_image_formats
    &&& args.simple_sorting == enc_opts.simple_sorting
    &&& args.append_pages_count == enc_opts.append_pages_count
    &&& args.output_name == output_name
    &&& args.volume == 1
    &&& args.volumes == 1
    &&& args.vol_num_len == 1
    &&& args.chapter_num_len == 1
    &&& args.start_chapter == 1
    &&& args.chapters@.len() == 1
    &&& args.chapters@[0].ordinal == 1
    &&& args.chapters@[0].name == output_name
    &&& args.chapters@[0].files == files
}

/// Prepares the encoding of a single directory to a single volume file:
/// tests the paths, then describes the volume to build from the directory's
/// files.
pub fn encode_one(
    opts: &EncodeSingle,
    enc_opts: &EncodingOptions,
    paths: &SinglePaths,
    files: Vec<Vec<String>>,
) -> (prepared: Result<BuildVolumeArgs, EncodingError>)
    ensures
        match prepared {
            Ok(args) => {
                &&& single_error(*enc_opts, *paths) is None
                &&& is_single_volume(args, *opts, *enc_opts, paths.output_name->0, files)
            },
            Err(error) => single_error(*enc_opts, *paths) == Some(error),
        },
{
    if enc_opts.output.is_none() && paths.input_name.is_none() {
        return Err(EncodingError::SingleInputDirectorHasNoName);
    }
    match paths.input {
        PathKind::Missing => {
            return Err(EncodingError::SingleInputDirectoryNotFound);
        },
        PathKind::File => {
            return Err(EncodingError::SingleInputDirectoryIsNotADirectory);
        },
        PathKind::Directory => {},
    }
    match paths.output {
        PathKind::Directory => {
            return Err(EncodingError::OutputVolumeFileAlreadyExists(1, enc_opts.input.clone()));
        },
        _ => {},
    }
    let output_name = match &paths.output_name {
        None => {
            return Err(EncodingError::SingleOutputFileHasNoName);
        },
        Some(name) => name,
    };
    let mut chapters: Vec<ChapterFiles> = Vec::new();
    chapters.push(ChapterFiles { ordinal: 1, name: output_name.clone(), files });
    Ok(
        BuildVolumeArgs {
            method: BuildMethod::Single(*opts),
            accept_extended_image_formats: enc_opts.accept_extended_image_formats,
            simple_sorting: enc_opts.simple_sorting,
            append_pages_count: enc_opts.append_pages_count,
            output_name: output_name.clone(),
            volume: 1,
            volumes: 1,
            vol_num_len: 1,
            chapter_num_len: 1,
            start_chapter: 1,
            chapters,
        },
    )
}

} // verus!
