//! Encoding chapter directories: the configuration, the chapters to take
//! from a directory listing, and the plan of the volumes.

use vstd::prelude::*;
use vstd::string::StringExecFns;
use crate::build_vol::{BuildMethod, BuildVolumeArgs, ChapterFiles};
use crate::encode_one::{default_output, default_output_name};
use crate::error::EncodingError;
use crate::opts::{CompilationMethod, CompilationOptions, CompileEach, CompileRanges,
    EncodeSingle, EncodingOptions};
use crate::paths::path_relation;
use crate::plan::{CompilationPlan, Method, is_plan, plan_volumes, range_error, check_range};
use crate::probe::{OutputDirectory, PathKind};
use crate::sorting::{is_stable_selection, path_keys, sorted_selection};
use crate::text::{has_prefix, starts_with, text_of, views_of};
use crate::plan_laws::lemma_plan_partitions_selection;

verus! {

/// Encoding configuration.
#[derive(Clone, Debug, PartialEq, Eq)]
pub struct Config {
    /// The encoding method to use.
    pub method: Method,
    /// Path to the directory containing all chapters.
    pub chapters_dir: String,
    /// Path to the output directory or to the output file, depending on the
    /// method.
    pub output: Option<String>,
    /// Add the start and end chapter at the end of each volume's file name.
    pub chapters_suffix: bool,
    /// Create the output directory if it does not exist, or the output
    /// file's parent directory.
    pub create_output_dir: bool,
    /// Overwrite existing files instead of failing.
    pub overwrite: bool,
    /// Ignore output files that already exist.
    pub skip_existing: bool,
    /// If provided, ignore every chapter directory whose name does not start
    /// with this prefix.
    pub dirs_prefix: Option<String>,
    /// Start at this chapter; chapters are counted from one.
    pub start_chapter: Option<usize>,
    /// End at this chapter; chapters are counted from one.
    pub end_chapter: Option<usize>,
    /// Take the input directory as a single chapter, without looking for
    /// chapters under it.
    pub root_chapter: bool,
    /// Accept image formats that not every reader supports.
    pub extended_image_formats: bool,
    /// Sort by raw order in place of natural order.
    pub disable_nat_sort: bool,
    /// Show the path of each chapter before it is put in a volume.
    pub show_chapters_path: bool,
    /// Show output file names in full; by default they are cut above 50
    /// characters.
    pub display_full_names: bool,
    /// Compress all images losslessly.
    pub compress_losslessly: bool,
    /// Add the number of pages at the end of each volume's file name.
    pub append_pages_count: bool,
}

impl Config {
    /// How volumes are built under this configuration.
    pub open spec fn build_method_spec(self) -> BuildMethod {
        match self.method {
            Method::Compile(chapters) => BuildMethod::Ranges(
                CompileRanges {
                    chapters_per_volume: chapters,
                    append_chapters_range: self.chapters_suffix,
                    debug_chapters_path: self.show_chapters_path,
                },
            ),
            Method::Individual => BuildMethod::Each(
                CompileEach {
                    skip_existing: self.skip_existing,
                    display_full_names: self.display_full_names,
                },
            ),
            Method::Single => BuildMethod::Single(EncodeSingle {  }),
        }
    }

    /// How volumes are built under this configuration.
    pub fn build_method(&self) -> (method: BuildMethod)
        ensures
            method == self.build_method_spec(),
            method.batching() == self.method,
    {
        match self.method {
            Method::Compile(chapters) => BuildMethod::Ranges(
                CompileRanges {
                    chapters_per_volume: chapters,
                    append_chapters_range: self.chapters_suffix,
                    debug_chapters_path: self.show_chapters_path,
                },
            ),
            Method::Individual => BuildMethod::Each(
                CompileEach {
                    skip_existing: self.skip_existing,
                    display_full_names: self.display_full_names,
                },
            ),
            Method::Single => BuildMethod::Single(EncodeSingle {  }),
        }
    }

    /// The configuration for compiling chapter directories into volumes.
    pub fn from_compilation(options: &CompilationOptions, common: &EncodingOptions) -> (config:
        Config)
        ensures
            config.method == (match options.method {
                CompilationMethod::Ranges(ranges) => Method::Compile(ranges.chapters_per_volume),
                CompilationMethod::Each(_) => Method::Individual,
            }),
            config.build_method_spec() == (match options.method {
                CompilationMethod::Ranges(ranges) => BuildMethod::Ranges(ranges),
                CompilationMethod::Each(each) => BuildMethod::Each(each),
            }),
            config.chapters_suffix == (options.method matches CompilationMethod::Ranges(ranges)
                && ranges.append_chapters_range),
            config.show_chapters_path == (options.method matches CompilationMethod::Ranges(ranges)
                && ranges.debug_chapters_path),
            config.skip_existing == (options.method matches CompilationMethod::Each(each)
                && each.skip_existing),
            config.display_full_names == (options.method matches CompilationMethod::Each(each)
                && each.display_full_names),
            config.chapters_dir == common.input,
            config.output == common.output,
            config.create_output_dir == options.create_output_dir,
            config.overwrite == common.overwrite,
            config.dirs_prefix == options.dirs_prefix,
            config.start_chapter == options.start_chapter,
            config.end_chapter == options.end_chapter,
            !config.root_chapter,
            config.extended_image_formats == common.accept_extended_image_formats,
            config.disable_nat_sort == common.simple_sorting,
            config.compress_losslessly == common.compress_losslessly,
            config.append_pages_count == common.append_pages_count,
    {
        let (method, chapters_suffix, show_chapters_path, skip_existing, display_full_names) =
            match options.method {
            CompilationMethod::Ranges(ranges) => (
                Method::Compile(ranges.chapters_per_volume),
                ranges.append_chapters_range,
                ranges.debug_chapters_path,
                false,
                false,
            ),
            CompilationMethod::Each(each) => (
                Method::Individual,
                false,
                false,
                each.skip_existing,
                each.display_full_names,
            ),
        };
        Config {
            method,
            chapters_dir: common.input.clone(),
            output: common.output.clone(),
            chapters_suffix,
            create_output_dir: options.create_output_dir,
            overwrite: common.overwrite,
            skip_existing,
            dirs_prefix: options.dirs_prefix.clone(),
            start_chapter: options.start_chapter,
            end_chapter: options.end_chapter,
            root_chapter: false,
            extended_image_formats: common.accept_extended_image_formats,
            disable_nat_sort: common.simple_sorting,
            show_chapters_path,
            display_full_names,
            compress_losslessly: common.compress_losslessly,
            append_pages_count: common.append_pages_count,
        }
    }

    /// The configuration for encoding one directory as one volume: the
    /// directory is taken as the only chapter.
    pub fn from_single(common: &EncodingOptions) -> (config: Config)
        ensures
            config.method == Method::Single,
            config.chapters_dir == common.input,
            config.output == common.output,
            config.overwrite == common.overwrite,
            !config.chapters_suffix,
            !config.skip_existing,
            !config.show_chapters_path,
            !config.display_full_names,
            config.dirs_prefix is None,
            config.start_chapter is None,
            config.end_chapter is None,
            config.root_chapter,
            !config.create_output_dir,
            config.extended_image_formats == common.accept_extended_image_formats,
            config.disable_nat_sort == common.simple_sorting,
            config.compress_losslessly == common.compress_losslessly,
            config.append_pages_count == common.append_pages_count,
    {
        Config {
            method: Method::Single,
            chapters_dir: common.input.clone(),
            output: common.output.clone(),
            chapters_suffix: false,
            create_output_dir: false,
            overwrite: common.overwrite,
            skip_existing: false,
            dirs_prefix: None,
            start_chapter: None,
            end_chapter: None,
            root_chapter: true,
            extended_image_formats: common.accept_extended_image_formats,
            disable_nat_sort: common.simple_sorting,
            show_chapters_path: false,
            display_full_names: false,
            compress_losslessly: common.compress_losslessly,
            append_pages_count: common.append_pages_count,
        }
    }
}

/// For each item of a directory listing, whether it is a chapter: it has to
/// be a directory, and where a prefix is asked for, its name has to start
/// with it.
pub open spec fn chapter_mask(names: Seq<String>, is_dir: Seq<bool>, prefix: Option<String>) -> Seq<
    bool,
> {
    Seq::new(
        names.len(),
        |i: int| is_dir[i] && (prefix is None || starts_with(names[i]@, prefix->0@)),
    )
}

/// Each name as a path of one component.
pub open spec fn name_paths(names: Seq<String>) -> Seq<Seq<Seq<char>>> {
    Seq::new(names.len(), |i: int| seq![names[i]@])
}

/// Picks the chapters among the items found in the chapters' directory, and
/// puts them in order: the directories whose names start with the
/// configured prefix, sorted by name under the configured sort mode. The
/// result lists positions in the listing.
pub fn discover_chapters(names: &Vec<String>, is_dir: &Vec<bool>, config: &Config) -> (chapters:
    Vec<usize>)
    requires
        names.len() == is_dir.len(),
    ensures
        is_stable_selection(
            chapters@,
            name_paths(names@),
            path_relation(!config.disable_nat_sort),
            chapter_mask(names@, is_dir@, config.dirs_prefix),
        ),
{
    let mut paths: Vec<Vec<String>> = Vec::new();
    let mut mask: Vec<bool> = Vec::new();
    let mut k: usize = 0;
    while k < names.len()
        invariant
            k <= names.len(),
            names.len() == is_dir.len(),
            paths@.len() == k,
            mask@.len() == k,
            forall|i: int| 0 <= i < k ==> (#[trigger] paths@[i])@ == seq![names@[i]],
            forall|i: int|
                0 <= i < k ==> mask@[i] == chapter_mask(names@, is_dir@, config.dirs_prefix)[i],
        decreases names.len() - k,
    {
        let wanted = is_dir[k] && match &config.dirs_prefix {
            Some(prefix) => has_prefix(names[k].as_str(), prefix.as_str()),
            None => true,
        };
        let mut path: Vec<String> = Vec::new();
        path.push(names[k].clone());
        assert(path@ =~= seq![names@[k as int]]);
        paths.push(path);
        mask.push(wanted);
        k = k + 1;
    }
    proof {
        assert(mask@ =~= chapter_mask(names@, is_dir@, config.dirs_prefix));
        assert forall|i: int| 0 <= i < names@.len() implies path_keys(paths@)[i] == name_paths(
            names@,
        )[i] by {
            assert(views_of(paths@[i]@) =~= seq![names@[i]@]);
        }
        assert(path_keys(paths@) =~= name_paths(names@));
    }
    sorted_selection(&paths, &mask, !config.disable_nat_sort)
}

/// The chapters of an encoding.
#[derive(Clone, Debug, PartialEq, Eq)]
pub enum Discovery {
    /// The chapters' directory itself is the only chapter, under this name.
    Root(String),
    /// The chapters are these items of the listing of the chapters'
    /// directory, in this order.
    Listed(Vec<usize>),
}

/// Finds the chapters of an encoding. Where the configuration takes the
/// chapters' directory as a single chapter, that chapter has the directory's
/// name, and a directory without a name cannot be taken. Otherwise the
/// chapters are picked from the directory's listing as `discover_chapters`
/// does.
pub fn discover(
    config: &Config,
    root_name: Option<&str>,
    names: &Vec<String>,
    is_dir: &Vec<bool>,
) -> (found: Result<Discovery, EncodingError>)
    requires
        names.len() == is_dir.len(),
    ensures
        config.root_chapter ==> match root_name {
            Some(name) => (found matches Ok(Discovery::Root(chapter)) && chapter@ == name@),
            None => found == Err::<Discovery, EncodingError>(
                EncodingError::RootCannotBeUsedAsSingleChapter,
            ),
        },
        !config.root_chapter ==> (found matches Ok(Discovery::Listed(chapters))
            && is_stable_selection(
            chapters@,
            name_paths(names@),
            path_relation(!config.disable_nat_sort),
            chapter_mask(names@, is_dir@, config.dirs_prefix),
        )),
{
    if config.root_chapter {
        match root_name {
            Some(name) => Ok(Discovery::Root(String::from_str(name))),
            None => Err(EncodingError::RootCannotBeUsedAsSingleChapter),
        }
    } else {
        Ok(Discovery::Listed(discover_chapters(names, is_dir, config)))
    }
}

/// Whether an encoding may go ahead, and what is to be done about its
/// output directory, given what stands at the chapters' directory, at the
/// output's path and at the path of the output's parent.
///
/// A faulty range of chapters is refused first. The chapters' directory has
/// to be a directory. Where volumes go into an output directory, it has to
/// be a directory, or to be created where that is allowed. Where a single
/// volume goes to an output file, that path may not be a directory, and its
/// parent is held to what an output directory is held to. Without an output
/// path the volumes go beside the chapters.
pub open spec fn preparation(
    config: Config,
    chapters_dir: PathKind,
    output: PathKind,
    output_parent: PathKind,
) -> Result<OutputDirectory, EncodingError> {
    if range_error(config.method, config.start_chapter, config.end_chapter) is Some {
        Err(range_error(config.method, config.start_chapter, config.end_chapter)->0)
    } else if chapters_dir != PathKind::Directory {
        Err(EncodingError::ChaptersDirectoryNotFound)
    } else if config.output is None {
        Ok(OutputDirectory::Ready)
    } else {
        let directory = if config.method == Method::Single {
            output_parent
        } else {
            output
        };
        if config.method == Method::Single && output == PathKind::Directory {
            Err(EncodingError::OutputFileIsADirectory)
        } else if directory == PathKind::Directory {
            Ok(OutputDirectory::Ready)
        } else if config.create_output_dir {
            Ok(OutputDirectory::Create)
        } else {
            Err(EncodingError::OutputDirectoryNotFound)
        }
    }
}

/// Decides whether an encoding may go ahead, as in `preparation`.
pub fn prepare(
    config: &Config,
    chapters_dir: PathKind,
    output: PathKind,
    output_parent: PathKind,
) -> (prepared: Result<OutputDirectory, EncodingError>)
    ensures
        prepared == preparation(*config, chapters_dir, output, output_parent),
{
    match check_range(config.method, config.start_chapter, config.end_chapter) {
        Err(error) => {
            return Err(error);
        },
        Ok(_) => {},
    }
    match chapters_dir {
        PathKind::Directory => {},
        _ => {
            return Err(EncodingError::ChaptersDirectoryNotFound);
        },
    }
    if config.output.is_none() {
        return Ok(OutputDirectory::Ready);
    }
    let directory = match config.method {
        Method::Single => {
            match output {
                PathKind::Directory => {
                    return Err(EncodingError::OutputFileIsADirectory);
                },
                _ => {},
            }
            output_parent
        },
        _ => output,
    };
    match directory {
        PathKind::Directory => Ok(OutputDirectory::Ready),
        _ => {
            if config.create_output_dir {
                Ok(OutputDirectory::Create)
            } else {
                Err(EncodingError::OutputDirectoryNotFound)
            }
        },
    }
}

/// Plans the volumes of an encoding over `total` chapters. A plan for a
/// single volume never has more than one volume, and where each chapter gets
/// a volume of its own, every volume has exactly one chapter.
pub fn plan_encoding(config: &Config, total: usize) -> (planned: Result<
    CompilationPlan,
    EncodingError,
>)
    ensures
        match planned {
            Ok(plan) => {
                &&& range_error(config.method, config.start_chapter, config.end_chapter) is None
                &&& is_plan(
                    plan,
                    config.method,
                    config.start_chapter,
                    config.end_chapter,
                    total as nat,
                )
                &&& config.method == Method::Single ==> plan.volumes@.len() <= 1
                &&& config.method == Method::Individual ==> forall|v: int|
                    0 <= v < plan.volumes@.len() ==> (#[trigger] plan.volumes@[v]).chapters@.len()
                        == 1
            },
            Err(error) => range_error(config.method, config.start_chapter, config.end_chapter)
                == Some(error),
        },
{
    let planned = plan_volumes(config.method, config.start_chapter, config.end_chapter, total);
    proof {
        if planned is Ok {
            lemma_plan_partitions_selection(
                planned->Ok_0,
                config.method,
                config.start_chapter,
                config.end_chapter,
                total as nat,
            );
        }
    }
    planned
}

/// The file name of the output of a single volume. Where an output path was
/// asked for, it is that path's file name, and a path without a file name
/// is refused. Otherwise the volume is named after the chapters' directory,
/// or `root` where that directory has no name, with the archive's extension.
pub open spec fn single_output(
    output_given: bool,
    output_name: Option<Seq<char>>,
    chapters_dir_name: Option<Seq<char>>,
) -> Result<Seq<char>, EncodingError> {
    if output_given {
        match output_name {
            Some(name) => Ok(name),
            None => Err(EncodingError::SingleOutputFileHasNoName),
        }
    } else {
        match chapters_dir_name {
            Some(name) => Ok(default_output(name)),
            None => Ok(default_output("root"@)),
        }
    }
}

/// The file name of the output of a single volume, as in `single_output`.
pub fn single_output_name(
    config: &Config,
    output_name: Option<&str>,
    chapters_dir_name: Option<&str>,
) -> (named: Result<String, EncodingError>)
    ensures
        match single_output(
            config.output is Some,
            text_of(output_name),
            text_of(chapters_dir_name),
        ) {
            Ok(name) => (named matches Ok(found) && found@ == name),
            Err(error) => named == Err::<String, EncodingError>(error),
        },
{
    if config.output.is_some() {
        match output_name {
            Some(name) => Ok(String::from_str(name)),
            None => Err(EncodingError::SingleOutputFileHasNoName),
        }
    } else {
        match chapters_dir_name {
            Some(name) => Ok(default_output_name(name)),
            None => Ok(default_output_name("root")),
        }
    }
}

/// Whether `args` asks for the volume at position `index` of a plan under a
/// configuration: it carries the volume's numbers and the plan's widths, and
/// the chapters and the output file's name that were handed over.
pub open spec fn is_volume_of_plan(
    args: BuildVolumeArgs,
    config: Config,
    plan: CompilationPlan,
    index: int,
    output_name: String,
    chapters: Vec<ChapterFiles>,
) -> bool {
    &&& args.method == config.build_method_spec()
    &&& args.accept_extended_image_formats == config.extended_image_formats
    &&& args.simple_sorting == config.disable_nat_sort
    &&& args.append_pages_count == config.append_pages_count
    &&& args.output_name == output_name
    &&& args.volume == plan.volumes@[index].volume_index
    &&& args.volumes == plan.volumes@.len()
    &&& args.vol_num_len == plan.volume_number_width
    &&& args.chapter_num_len == plan.chapter_number_width
    &&& args.start_chapter == plan.volumes@[index].starting_chapter_ordinal
    &&& args.chapters == chapters
}

/// Describes the volume at position `index` of a plan, to build from the
/// chapters handed over. Without such a volume in the plan there is nothing
/// to describe.
pub fn volume_args(
    config: &Config,
    plan: &CompilationPlan,
    index: usize,
    output_name: String,
    chapters: Vec<ChapterFiles>,
) -> (described: Option<BuildVolumeArgs>)
    ensures
        described is Some <==> index < plan.volumes@.len(),
        described matches Some(args) ==> is_volume_of_plan(
            args,
            *config,
            *plan,
            index as int,
            output_name,
            chapters,
        ),
{
    if index >= plan.volumes.len() {
        return None;
    }
    Some(
        BuildVolumeArgs {
            method: config.build_method(),
            accept_extended_image_formats: config.extended_image_formats,
            simple_sorting: config.disable_nat_sort,
            append_pages_count: config.append_pages_count,
            output_name,
            volume: plan.volumes[index].volume_index,
            volumes: plan.volumes.len(),
            vol_num_len: plan.volume_number_width,
            chapter_num_len: plan.chapter_number_width,
            start_chapter: plan.volumes[index].starting_chapter_ordinal,
            chapters,
        },
    )
}

} // verus!
