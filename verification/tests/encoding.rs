use comic_encoder::build_vol::{BuildMethod, BuildVolumeArgs, ChapterFiles};
use comic_encoder::encode::{
    discover, discover_chapters, plan_encoding, prepare, single_output_name, volume_args, Config,
    Discovery,
};
use comic_encoder::error::DecodingError;
use comic_encoder::encode_one::{default_output_name, SinglePaths};
use comic_encoder::error::{EncodingError, RebuildingError};
use comic_encoder::opts::{
    CompilationMethod, CompilationOptions, CompileEach, CompileRanges, EncodeSingle,
    EncodingOptions,
};
use comic_encoder::plan::Method;
use comic_encoder::probe::PathKind::{Directory, File, Missing};
use comic_encoder::probe::{OutputDirectory, PathKind};
use comic_encoder::rebuild::{
    self, decide_next_move, pages_dir_name, prepare_directory, rebuild_names, rebuilt_name,
    select_comics, temporary_dir_name, RebuildMove, RebuildNames, RebuildStep,
};
use comic_encoder::encode_one;
use comic_encoder::rebuild::RebuildMove::{Failed, Finished, Take};
use comic_encoder::rebuild::RebuildStep::{Encode, Extract, RemoveStalePages, RemoveTemporary};

fn common() -> EncodingOptions {
    EncodingOptions {
        input: "library/My Comic".to_string(),
        output: None,
        overwrite: true,
        append_pages_count: true,
        accept_extended_image_formats: true,
        simple_sorting: false,
        compress_losslessly: true,
    }
}

fn compilation(method: CompilationMethod) -> CompilationOptions {
    CompilationOptions {
        method,
        create_output_dir: true,
        dirs_prefix: Some("Ch".to_string()),
        start_chapter: Some(2),
        end_chapter: None,
    }
}

fn names(list: &[&str]) -> Vec<String> {
    list.iter().map(|s| s.to_string()).collect()
}

#[test]
fn a_configuration_follows_the_options() {
    let ranges = CompileRanges { chapters_per_volume: 5, append_chapters_range: true, debug_chapters_path: true };
    let c = Config::from_compilation(&compilation(CompilationMethod::Ranges(ranges)), &common());
    assert_eq!(c.method, Method::Compile(5));
    assert_eq!(c.build_method(), BuildMethod::Ranges(ranges));
    assert_eq!(c.chapters_dir, "library/My Comic");
    assert_eq!(c.output, None);
    assert!(c.create_output_dir && c.overwrite && c.extended_image_formats && c.compress_losslessly);
    assert!(!c.disable_nat_sort && !c.root_chapter && !c.skip_existing);
    assert_eq!(c.dirs_prefix, Some("Ch".to_string()));
    assert_eq!((c.start_chapter, c.end_chapter), (Some(2), None));
    let each = CompileEach { skip_existing: true, display_full_names: true };
    let c = Config::from_compilation(&compilation(CompilationMethod::Each(each)), &common());
    assert_eq!(c.method, Method::Individual);
    assert_eq!(c.build_method(), BuildMethod::Each(each));
    let c = Config::from_single(&common());
    assert_eq!(c.method, Method::Single);
    assert_eq!(c.build_method(), BuildMethod::Single(EncodeSingle {}));
    assert!(c.root_chapter);
    assert_eq!((c.start_chapter, c.end_chapter, c.dirs_prefix.clone()), (None, None, None));
}

#[test]
fn chapters_are_the_directories_with_the_prefix_in_order() {
    let listing = names(&["Chapter 10", "Chapter 2", "notes", "Chapter 1", "chapter 3", "Chapter 4"]);
    let is_dir = vec![true, true, true, true, true, false];
    let mut c = Config::from_single(&common());
    assert_eq!(discover_chapters(&listing, &is_dir, &c), vec![3, 1, 4, 0, 2]);
    c.dirs_prefix = Some("Chapter".to_string());
    assert_eq!(discover_chapters(&listing, &is_dir, &c), vec![3, 1, 0]);
    c.disable_nat_sort = true;
    assert_eq!(discover_chapters(&listing, &is_dir, &c), vec![3, 0, 1]);
    c.dirs_prefix = None;
    assert_eq!(discover_chapters(&listing, &is_dir, &c), vec![3, 0, 1, 4, 2]);
    assert_eq!(discover_chapters(&Vec::new(), &Vec::new(), &c), Vec::<usize>::new());
}

#[test]
fn an_encoding_is_prepared_from_what_stands_at_its_paths() {
    let ranges = CompileRanges { chapters_per_volume: 5, append_chapters_range: false, debug_chapters_path: false };
    let mut c = Config::from_compilation(&compilation(CompilationMethod::Ranges(ranges)), &common());
    c.create_output_dir = false;
    assert_eq!(prepare(&c, Directory, Missing, Missing), Ok(OutputDirectory::Ready));
    assert_eq!(prepare(&c, Missing, Missing, Missing), Err(EncodingError::ChaptersDirectoryNotFound));
    assert_eq!(prepare(&c, File, Missing, Missing), Err(EncodingError::ChaptersDirectoryNotFound));
    c.output = Some("out".to_string());
    assert_eq!(prepare(&c, Directory, Directory, Missing), Ok(OutputDirectory::Ready));
    assert_eq!(prepare(&c, Directory, Missing, Directory), Err(EncodingError::OutputDirectoryNotFound));
    assert_eq!(prepare(&c, Directory, File, Directory), Err(EncodingError::OutputDirectoryNotFound));
    c.create_output_dir = true;
    assert_eq!(prepare(&c, Directory, Missing, Directory), Ok(OutputDirectory::Create));
    c.start_chapter = Some(0);
    assert_eq!(prepare(&c, Missing, Missing, Missing), Err(EncodingError::InvalidStartChapter));
    c.method = Method::Compile(0);
    assert_eq!(prepare(&c, Directory, Directory, Directory), Err(EncodingError::AtLeast1ChapterPerVolume));
    let mut c = Config::from_single(&common());
    c.output = Some("out/book.cbz".to_string());
    assert_eq!(prepare(&c, Directory, Directory, Directory), Err(EncodingError::OutputFileIsADirectory));
    assert_eq!(prepare(&c, Directory, Missing, Directory), Ok(OutputDirectory::Ready));
    assert_eq!(prepare(&c, Directory, File, Directory), Ok(OutputDirectory::Ready));
    assert_eq!(prepare(&c, Directory, Missing, Missing), Err(EncodingError::OutputDirectoryNotFound));
    c.create_output_dir = true;
    assert_eq!(prepare(&c, Directory, Missing, Missing), Ok(OutputDirectory::Create));
}

#[test]
fn a_single_volume_is_planned_as_one_volume() {
    let c = Config::from_single(&common());
    let plan = plan_encoding(&c, 1).unwrap();
    assert_eq!(plan.volumes.len(), 1);
    assert_eq!(plan.volumes[0].chapters.len(), 1);
    let plan = plan_encoding(&c, 0).unwrap();
    assert!(plan.volumes.is_empty());
    let plan = plan_encoding(&c, 200000).unwrap();
    assert_eq!(plan.volumes.len(), 1);
    let mut c = c;
    c.end_chapter = Some(0);
    assert_eq!(plan_encoding(&c, 3), Err(EncodingError::InvalidEndChapter));
}

#[test]
fn a_single_directory_is_encoded_as_volume_one_of_one() {
    let paths = SinglePaths {
        input_name: Some("My Comic".to_string()),
        input: PathKind::Directory,
        output_name: Some("My Comic.cbz".to_string()),
        output: PathKind::Missing,
    };
    let files = vec![vec!["1.png".to_string()], vec!["sub".to_string(), "2.png".to_string()]];
    let args = encode_one(&EncodeSingle {}, &common(), &paths, files.clone()).unwrap();
    assert_eq!(
        args,
        BuildVolumeArgs {
            method: BuildMethod::Single(EncodeSingle {}),
            accept_extended_image_formats: true,
            simple_sorting: false,
            append_pages_count: true,
            output_name: "My Comic.cbz".to_string(),
            volume: 1,
            volumes: 1,
            vol_num_len: 1,
            chapter_num_len: 1,
            start_chapter: 1,
            chapters: vec![ChapterFiles { ordinal: 1, name: "My Comic.cbz".to_string(), files }],
        }
    );
    let layout = comic_encoder::build_vol::lay_out_volume(&args);
    assert_eq!(layout.complete_name, "My Comic (2 pages).cbz");
    assert_eq!(layout.chapters[0].pages[1].path, "Vol_1_Chapter_1/Vol_1_Chapter_1_Pic_1.png");
    assert_eq!(default_output_name("My Comic"), "My Comic.cbz");
    assert_eq!(default_output_name("My.Comic"), "My.cbz");
}

#[test]
fn a_single_directory_is_refused_for_its_paths() {
    let good = SinglePaths {
        input_name: Some("My Comic".to_string()),
        input: PathKind::Directory,
        output_name: Some("My Comic.cbz".to_string()),
        output: PathKind::File,
    };
    let run = |paths: &SinglePaths, options: &EncodingOptions| {
        encode_one(&EncodeSingle {}, options, paths, Vec::new()).map(|_| ())
    };
    let mut with_output = common();
    with_output.output = Some("out.cbz".to_string());
    assert_eq!(run(&good, &common()), Ok(()));
    let mut p = good.clone();
    p.input_name = None;
    p.input = PathKind::Missing;
    assert_eq!(run(&p, &common()), Err(EncodingError::SingleInputDirectorHasNoName));
    assert_eq!(run(&p, &with_output), Err(EncodingError::SingleInputDirectoryNotFound));
    p.input = PathKind::File;
    p.output = PathKind::Directory;
    assert_eq!(run(&p, &with_output), Err(EncodingError::SingleInputDirectoryIsNotADirectory));
    p.input = PathKind::Directory;
    p.output_name = None;
    assert_eq!(
        run(&p, &with_output),
        Err(EncodingError::OutputVolumeFileAlreadyExists(1, "library/My Comic".to_string()))
    );
    p.output = PathKind::Missing;
    assert_eq!(run(&p, &with_output), Err(EncodingError::SingleOutputFileHasNoName));
}

#[test]
fn a_rebuilding_removes_stale_pages_first() {
    assert_eq!(decide_next_move(None, true, true), Take(RemoveStalePages));
    assert_eq!(decide_next_move(None, true, false), Take(Extract));
    assert_eq!(decide_next_move(Some(RemoveStalePages), true, true), Take(Extract));
    assert_eq!(decide_next_move(Some(RemoveStalePages), false, true), Failed);
    assert_eq!(decide_next_move(Some(Extract), true, false), Take(Encode));
    assert_eq!(decide_next_move(Some(Extract), false, false), Failed);
    assert_eq!(decide_next_move(Some(Encode), true, false), Take(RemoveTemporary));
    assert_eq!(decide_next_move(Some(Encode), false, false), Failed);
    assert_eq!(decide_next_move(Some(RemoveTemporary), true, false), Finished);
    assert_eq!(decide_next_move(Some(RemoveTemporary), false, false), Finished);
    for stale in [false, true] {
        let mut steps = Vec::new();
        let mut done = None;
        while let Take(step) = decide_next_move(done, true, stale) {
            steps.push(step);
            done = Some(step);
        }
        let expected = if stale {
            vec![RemoveStalePages, Extract, Encode, RemoveTemporary]
        } else {
            vec![Extract, Encode, RemoveTemporary]
        };
        assert_eq!(steps, expected);
    }
}

#[test]
fn names_of_a_rebuilding() {
    assert_eq!(temporary_dir_name(), "__tmp_comic_encoder_extract");
    assert_eq!(pages_dir_name("MyComic.cbz"), "MyComic");
    assert_eq!(pages_dir_name("My.Comic.pdf"), "My.Comic");
    assert_eq!(rebuilt_name("MyComic.pdf"), "MyComic.cbz");
    assert_eq!(rebuilt_name("MyComic"), "MyComic.cbz");
    assert_eq!(
        rebuild_names(Some("My Comic.v2.pdf")),
        Ok(RebuildNames { pages_dir: "My Comic.v2".to_string(), output: "My Comic.v2.cbz".to_string() })
    );
    assert_eq!(rebuild_names(None), Err(RebuildingError::InputFileIsRootDirectory));
}

#[test]
fn configurations_of_a_rebuilding() {
    let c = rebuild::Config {
        input: "a.pdf".to_string(),
        output: None,
        dir: false,
        create_output_dir: false,
        overwrite: true,
        temporary_dir: None,
        only_extract_images: true,
        extended_image_formats: true,
        disable_nat_sort: true,
        compress_losslessly: true,
    };
    let d = rebuild::decode_config(&c, "a.pdf".to_string(), "tmp/a".to_string());
    assert_eq!(d.input, "a.pdf");
    assert_eq!(d.output, Some("tmp/a".to_string()));
    assert!(d.create_output_dir && d.only_extract_images && d.extended_image_formats && d.disable_nat_sort);
    let e = rebuild::encode_config(&c, "tmp".to_string(), "a.cbz".to_string());
    assert_eq!(e.method, Method::Single);
    assert_eq!(e.chapters_dir, "tmp");
    assert_eq!(e.output, Some("a.cbz".to_string()));
    assert!(e.overwrite && e.extended_image_formats && e.disable_nat_sort && e.compress_losslessly);
    assert!(!e.create_output_dir && !e.root_chapter && !e.skip_existing && !e.chapters_suffix);
    assert_eq!((e.start_chapter, e.end_chapter, e.dirs_prefix), (None, None, None));
    assert_eq!(prepare_directory(&c, PathKind::Missing, PathKind::Directory), Err(RebuildingError::InputDirectoryNotFound));
    assert_eq!(prepare_directory(&c, PathKind::Directory, PathKind::Missing), Err(RebuildingError::OutputDirectoryNotFound));
    assert_eq!(prepare_directory(&c, PathKind::Directory, PathKind::File), Err(RebuildingError::OutputDirectoryIsAFile));
    assert_eq!(prepare_directory(&c, PathKind::Directory, PathKind::Directory), Ok(OutputDirectory::Ready));
    let mut c = c;
    c.create_output_dir = true;
    assert_eq!(prepare_directory(&c, PathKind::Directory, PathKind::Missing), Ok(OutputDirectory::Create));
}

#[test]
fn comic_books_of_a_directory_are_picked_in_natural_order() {
    let listing = names(&["b10.cbz", "b2.zip", "notes.txt", "a.pdf", "B1.cbz", "c.CBZ", "d.cbz", "e"]);
    let is_file = vec![true, true, true, true, true, true, false, true];
    assert_eq!(select_comics(&listing, &is_file), vec![3, 4, 1, 0]);
}

#[test]
fn a_volume_is_described_from_its_plan() {
    let ranges = CompileRanges { chapters_per_volume: 2, append_chapters_range: true, debug_chapters_path: false };
    let mut options = compilation(CompilationMethod::Ranges(ranges));
    options.start_chapter = Some(3);
    options.end_chapter = Some(7);
    let c = Config::from_compilation(&options, &common());
    let plan = plan_encoding(&c, 10).unwrap();
    let chapters = vec![ChapterFiles { ordinal: 5, name: "Chapter 7".to_string(), files: Vec::new() }];
    let args = volume_args(&c, &plan, 2, "unused".to_string(), chapters.clone()).unwrap();
    assert_eq!(
        args,
        BuildVolumeArgs {
            method: BuildMethod::Ranges(ranges),
            accept_extended_image_formats: true,
            simple_sorting: false,
            append_pages_count: true,
            output_name: "unused".to_string(),
            volume: 3,
            volumes: 3,
            vol_num_len: 1,
            chapter_num_len: 2,
            start_chapter: 5,
            chapters,
        }
    );
    let layout = comic_encoder::build_vol::lay_out_volume(&args);
    assert_eq!(layout.complete_name, "Volume-3 (c05-c05) (0 pages).cbz");
    assert_eq!(volume_args(&c, &plan, 3, String::new(), Vec::new()), None);
}

#[test]
fn the_root_can_be_the_only_chapter() {
    let listing = names(&["b", "a"]);
    let is_dir = vec![true, true];
    let mut c = Config::from_single(&common());
    assert_eq!(discover(&c, Some("My Comic"), &listing, &is_dir), Ok(Discovery::Root("My Comic".to_string())));
    assert_eq!(discover(&c, None, &listing, &is_dir), Err(EncodingError::RootCannotBeUsedAsSingleChapter));
    c.root_chapter = false;
    assert_eq!(discover(&c, None, &listing, &is_dir), Ok(Discovery::Listed(vec![1, 0])));
    assert_eq!(discover(&c, Some("My Comic"), &listing, &is_dir), Ok(Discovery::Listed(vec![1, 0])));
}

#[test]
fn each_chapter_in_a_volume_of_its_own() {
    let each = CompileEach { skip_existing: false, display_full_names: false };
    let mut options = compilation(CompilationMethod::Each(each));
    options.start_chapter = None;
    let c = Config::from_compilation(&options, &common());
    let plan = plan_encoding(&c, 12).unwrap();
    assert_eq!(plan.volumes.len(), 12);
    assert!(plan.volumes.iter().all(|batch| batch.chapters.len() == 1));
    assert_eq!(plan.volume_number_width, 2);
}

#[test]
fn refusals_are_told_in_words() {
    assert_eq!(EncodingError::AtLeast1ChapterPerVolume.describe(), "There must be at least 1 chapter per volume");
    assert_eq!(
        EncodingError::InvalidStartChapter.describe(),
        "Please provide a valid start chapter (integer, strictly higher than 0)"
    );
    assert_eq!(
        EncodingError::InvalidEndChapter.describe(),
        "Please provide a valid end chapter (integer, strictly higher than 0)"
    );
    assert_eq!(
        EncodingError::StartChapterCannotBeHigherThanEndChapter.describe(),
        "Start chapter cannot be higher than the end chapter"
    );
    assert_eq!(EncodingError::ChaptersDirectoryNotFound.describe(), "Chapters directory was not found");
    assert_eq!(EncodingError::OutputDirectoryNotFound.describe(), "Output directory was not found");
    assert_eq!(EncodingError::OutputFileIsADirectory.describe(), "Output file is a directory");
    assert_eq!(
        EncodingError::RootCannotBeUsedAsSingleChapter.describe(),
        "Input directory has no name, so it cannot be used as a single chapter"
    );
    assert_eq!(EncodingError::SingleInputDirectoryNotFound.describe(), "Input directory was not found");
    assert_eq!(
        EncodingError::SingleInputDirectoryIsNotADirectory.describe(),
        "Input directory is not a directory"
    );
    assert_eq!(
        EncodingError::SingleInputDirectorHasNoName.describe(),
        "Input directory has no name, so an output name cannot be inferred"
    );
    assert_eq!(
        EncodingError::SingleOutputFileHasNoName.describe(),
        "Output file does not have a valid name (e.g. '.' or '/')"
    );
    assert_eq!(
        EncodingError::OutputVolumeFileAlreadyExists(3, "out/Volume-3.cbz".to_string()).describe(),
        "Failed to create the file of volume 3 because path 'out/Volume-3.cbz' already exists (use '--overwrite' to force writing)"
    );
    assert_eq!(
        EncodingError::OutputVolumeFileIsADirectory(12, "out/Volume-12.cbz".to_string()).describe(),
        "Failed to create the file of volume 12 because path 'out/Volume-12.cbz' is a directory"
    );
    assert_eq!(DecodingError::InputFileNotFound.describe(), "Input file was not found");
    assert_eq!(DecodingError::InputFileIsADirectory.describe(), "Input file is a directory");
    assert_eq!(DecodingError::OutputDirectoryNotFound.describe(), "Output directory was not found");
    assert_eq!(DecodingError::OutputDirectoryIsAFile.describe(), "Output directory is a file");
    assert_eq!(
        DecodingError::UnsupportedFormat(Some("rar".to_string())).describe(),
        "Unsupported image format (based on file extension) 'rar'"
    );
    assert_eq!(
        DecodingError::UnsupportedFormat(None).describe(),
        "Unsupported image format (based on file extension) ''"
    );
    assert_eq!(RebuildingError::InputFileIsRootDirectory.describe(), "Input file is a root directory");
    assert_eq!(RebuildingError::InputDirectoryNotFound.describe(), "Input directory was not found");
    assert_eq!(RebuildingError::OutputDirectoryNotFound.describe(), "Output directory was not found");
    assert_eq!(RebuildingError::OutputDirectoryIsAFile.describe(), "Output directory is a file");
}

#[test]
fn a_single_volume_is_named_after_its_output_or_its_directory() {
    let mut c = Config::from_single(&common());
    assert_eq!(single_output_name(&c, None, Some("My Comic")), Ok("My Comic.cbz".to_string()));
    assert_eq!(single_output_name(&c, Some("ignored.cbz"), Some("My.Comic")), Ok("My.cbz".to_string()));
    assert_eq!(single_output_name(&c, None, None), Ok("root.cbz".to_string()));
    c.output = Some("out/book.zip".to_string());
    assert_eq!(single_output_name(&c, Some("book.zip"), Some("My Comic")), Ok("book.zip".to_string()));
    assert_eq!(single_output_name(&c, None, Some("My Comic")), Err(EncodingError::SingleOutputFileHasNoName));
}
