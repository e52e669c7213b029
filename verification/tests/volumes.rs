use comic_encoder::build_vol::{
    admit_volume, decide_publication, image_mask_of, lay_out_chapter, lay_out_volume,
    try_lay_out_volume,
    make_chapter_dir_name, make_complete_name, make_page_path, make_shown_name,
    make_staging_name, make_volume_stem, volume_extension_of, Admission, BuildMethod,
    BuildVolumeArgs, ChapterFiles,
    Publication,
};
use comic_encoder::error::EncodingError;
use comic_encoder::numbering::padded_number;
use comic_encoder::opts::{CompileEach, CompileRanges, EncodeSingle};
use comic_encoder::plan::Method;
use comic_encoder::probe::PathKind;
use comic_encoder::sorting::{sorted_order, sorted_selection};

fn path(s: &str) -> Vec<String> {
    s.split('/').map(|c| c.to_string()).collect()
}

fn ranges(suffix: bool) -> BuildMethod {
    BuildMethod::Ranges(CompileRanges {
        chapters_per_volume: 2,
        append_chapters_range: suffix,
        debug_chapters_path: false,
    })
}

fn each(skip_existing: bool) -> BuildMethod {
    BuildMethod::Each(CompileEach { skip_existing, display_full_names: false })
}

fn single() -> BuildMethod {
    BuildMethod::Single(EncodeSingle {})
}

#[test]
fn numbers_are_padded_with_zeros() {
    assert_eq!(padded_number(7, 3), "007");
    assert_eq!(padded_number(0, 1), "0");
    assert_eq!(padded_number(0, 0), "0");
    assert_eq!(padded_number(0, 4), "0000");
    assert_eq!(padded_number(1234, 2), "1234");
    assert_eq!(padded_number(1234, 4), "1234");
    assert_eq!(padded_number(90, 5), "00090");
    assert_eq!(padded_number(usize::MAX, 1), usize::MAX.to_string());
    for n in [0usize, 5, 10, 99, 100, 12345] {
        for width in 0..7usize {
            assert_eq!(padded_number(n, width), format!("{:0width$}", n, width = width));
        }
    }
}

#[test]
fn names_of_volumes() {
    assert_eq!(make_volume_stem(&ranges(false), 3, 2, 3, 5, 2, "x", "y.cbz"), "Volume-03");
    assert_eq!(
        make_volume_stem(&ranges(true), 3, 2, 3, 5, 2, "x", "y.cbz"),
        "Volume-03 (c005-c006)"
    );
    assert_eq!(make_volume_stem(&ranges(true), 12, 1, 1, 7, 1, "x", "y"), "Volume-12 (c7-c7)");
    assert_eq!(make_volume_stem(&ranges(true), 3, 2, 3, 5, 0, "x", "y.cbz"), "Volume-03");
    assert_eq!(
        make_volume_stem(&each(false), 3, 2, 3, 5, 1, "Chapter 1.5 - Intro", "y.cbz"),
        "Chapter 1.5 - Intro"
    );
    assert_eq!(make_volume_stem(&single(), 1, 1, 1, 1, 1, "x", "My Comic.cbz"), "My Comic");
    assert_eq!(make_volume_stem(&single(), 1, 1, 1, 1, 1, "x", "My.Comic.zip"), "My.Comic");
    assert_eq!(make_volume_stem(&single(), 1, 1, 1, 1, 1, "x", "comic"), "comic");
    assert_eq!(make_staging_name("Volume-03"), "Volume-03.comic-enc-partial");
    assert_eq!(make_complete_name("Volume-03", None, Some("cbz")), "Volume-03.cbz");
    assert_eq!(make_complete_name("Volume-03", Some(123), Some("cbz")), "Volume-03 (123 pages).cbz");
    assert_eq!(make_complete_name("Volume-03", Some(0), Some("zip")), "Volume-03 (0 pages).zip");
    assert_eq!(make_complete_name("Volume-03", Some(7), None), "Volume-03 (7 pages)");
    assert_eq!(make_complete_name("Volume-03", None, None), "Volume-03");
    assert_eq!(make_complete_name("Volume-03", None, Some("")), "Volume-03.");
    assert_eq!(volume_extension_of(&ranges(false), "a.zip"), Some("cbz".to_string()));
    assert_eq!(volume_extension_of(&each(false), "a"), Some("cbz".to_string()));
    assert_eq!(volume_extension_of(&single(), "a.zip"), Some("zip".to_string()));
    assert_eq!(volume_extension_of(&single(), "a"), None);
}

#[test]
fn names_inside_the_archive() {
    assert_eq!(make_chapter_dir_name(&ranges(false), 3, 2, 14, 3, "Chapter 14"), "Vol_03_Chapter_014");
    assert_eq!(make_chapter_dir_name(&single(), 1, 1, 1, 1, "My Comic"), "Vol_1_Chapter_1");
    assert_eq!(make_chapter_dir_name(&each(false), 3, 2, 14, 3, "Chapter 14"), "Chapter 14");
    assert_eq!(
        make_page_path("Vol_03_Chapter_014", 0, 7, "png"),
        "Vol_03_Chapter_014/Vol_03_Chapter_014_Pic_0.png"
    );
    assert_eq!(
        make_page_path("Vol_03_Chapter_014", 9, 10, "JPG"),
        "Vol_03_Chapter_014/Vol_03_Chapter_014_Pic_09.JPG"
    );
    assert_eq!(make_page_path("Chapter 14", 3, 1520, "jpeg"), "Chapter 14/Chapter 14_Pic_0003.jpeg");
}

#[test]
fn long_names_are_cut_for_display() {
    let long = "a".repeat(51);
    assert_eq!(make_shown_name(&long), format!("{}...", "a".repeat(50)));
    let exact = "b".repeat(50);
    assert_eq!(make_shown_name(&exact), exact);
    assert_eq!(make_shown_name("short"), "short");
    let accents = "é".repeat(60);
    assert_eq!(make_shown_name(&accents), format!("{}...", "é".repeat(50)));
    let fits = "é".repeat(40);
    assert_eq!(make_shown_name(&fits), fits);
}

#[test]
fn paths_are_sorted_in_natural_or_raw_order() {
    let paths = vec![path("c/p10.png"), path("c/p2.png"), path("c/P1.png"), path("b/z.png")];
    assert_eq!(sorted_order(&paths, true), vec![3, 2, 1, 0]);
    assert_eq!(sorted_order(&paths, false), vec![3, 2, 0, 1]);
    assert_eq!(sorted_order(&Vec::new(), true), Vec::<usize>::new());
}

#[test]
fn sorting_keeps_equal_paths_in_the_order_given() {
    let paths = vec![path("a/01"), path("A/1"), path("a/001"), path("a/0"), path("a/1")];
    assert_eq!(sorted_order(&paths, true), vec![3, 0, 1, 2, 4]);
    let keep = vec![true, false, true, false, true];
    assert_eq!(sorted_selection(&paths, &keep, true), vec![0, 2, 4]);
    let keep = vec![false; 5];
    assert_eq!(sorted_selection(&paths, &keep, true), Vec::<usize>::new());
}

#[test]
fn a_chapter_is_laid_out_from_its_images() {
    let chapter = ChapterFiles {
        ordinal: 4,
        name: "Chapter 4".to_string(),
        files: vec![
            path("Chapter 4/page 10.png"),
            path("Chapter 4/notes.txt"),
            path("Chapter 4/page 2.JPG"),
            path("Chapter 4/extras/page 1.gif"),
            path("Chapter 4/page 1.png"),
        ],
    };
    assert_eq!(image_mask_of(&chapter.files, false), vec![true, false, true, false, true]);
    assert_eq!(image_mask_of(&chapter.files, true), vec![true, false, true, true, true]);
    let layout = lay_out_chapter(&ranges(false), 2, 2, 2, &chapter, false, true);
    assert_eq!(layout.dir_name, "Vol_02_Chapter_04");
    let files: Vec<usize> = layout.pages.iter().map(|page| page.file).collect();
    assert_eq!(files, vec![4, 2, 0]);
    let names: Vec<&str> = layout.pages.iter().map(|page| page.path.as_str()).collect();
    assert_eq!(
        names,
        vec![
            "Vol_02_Chapter_04/Vol_02_Chapter_04_Pic_0.png",
            "Vol_02_Chapter_04/Vol_02_Chapter_04_Pic_1.JPG",
            "Vol_02_Chapter_04/Vol_02_Chapter_04_Pic_2.png",
        ]
    );
    let layout = lay_out_chapter(&each(false), 2, 2, 2, &chapter, true, false);
    assert_eq!(layout.dir_name, "Chapter 4");
    let files: Vec<usize> = layout.pages.iter().map(|page| page.file).collect();
    assert_eq!(files, vec![3, 4, 0, 2]);
    assert_eq!(layout.pages[0].path, "Chapter 4/Chapter 4_Pic_0.gif");
    assert_eq!(layout.pages[3].path, "Chapter 4/Chapter 4_Pic_3.JPG");
}

#[test]
fn page_numbers_are_as_wide_as_the_page_count() {
    let files = |count: usize| -> Vec<Vec<String>> {
        (0..count).map(|i| vec![format!("{}.png", i)]).collect()
    };
    let chapter = ChapterFiles { ordinal: 1, name: "c".to_string(), files: files(7) };
    let layout = lay_out_chapter(&each(false), 1, 1, 1, &chapter, false, true);
    assert_eq!(layout.pages[6].path, "c/c_Pic_6.png");
    let chapter = ChapterFiles { ordinal: 1, name: "c".to_string(), files: files(10) };
    let layout = lay_out_chapter(&each(false), 1, 1, 1, &chapter, false, true);
    assert_eq!(layout.pages[0].path, "c/c_Pic_00.png");
    assert_eq!(layout.pages[9].path, "c/c_Pic_09.png");
}

#[test]
fn a_volume_is_laid_out_chapter_by_chapter() {
    let args = BuildVolumeArgs {
        method: ranges(true),
        accept_extended_image_formats: false,
        simple_sorting: false,
        append_pages_count: true,
        output_name: String::new(),
        volume: 2,
        volumes: 3,
        vol_num_len: 1,
        chapter_num_len: 2,
        start_chapter: 3,
        chapters: vec![
            ChapterFiles {
                ordinal: 3,
                name: "Chapter 3".to_string(),
                files: vec![path("b.png"), path("a.png")],
            },
            ChapterFiles { ordinal: 4, name: "Chapter 4".to_string(), files: vec![path("x.txt")] },
            ChapterFiles { ordinal: 5, name: "Chapter 5".to_string(), files: vec![path("1.bmp")] },
        ],
    };
    let layout = lay_out_volume(&args);
    assert_eq!(layout.staging_name, "Volume-2 (c03-c05).comic-enc-partial");
    assert_eq!(layout.complete_name, "Volume-2 (c03-c05) (3 pages).cbz");
    assert_eq!(layout.page_count, 3);
    assert_eq!(layout.chapters.len(), 3);
    assert_eq!(layout.chapters[0].dir_name, "Vol_2_Chapter_03");
    assert_eq!(layout.chapters[0].pages[0].file, 1);
    assert_eq!(layout.chapters[0].pages[1].path, "Vol_2_Chapter_03/Vol_2_Chapter_03_Pic_1.png");
    assert!(layout.chapters[1].pages.is_empty());
    assert_eq!(layout.chapters[2].pages[0].path, "Vol_2_Chapter_05/Vol_2_Chapter_05_Pic_0.bmp");
    let mut plain = args.clone();
    plain.append_pages_count = false;
    plain.method = single();
    plain.output_name = "Book.cbz".to_string();
    let layout = lay_out_volume(&plain);
    assert_eq!(layout.complete_name, "Book.cbz");
    assert_eq!(layout.staging_name, "Book.comic-enc-partial");
    assert_eq!(layout.extension, Some("cbz".to_string()));
    for name in ["My.Book.zip", "Book", "Book.", ".book"] {
        plain.output_name = name.to_string();
        assert_eq!(lay_out_volume(&plain).complete_name, name);
    }
    plain.output_name = "My.Book.zip".to_string();
    plain.append_pages_count = true;
    let layout = lay_out_volume(&plain);
    assert_eq!(layout.complete_name, "My.Book (3 pages).zip");
    assert_eq!(layout.stem, "My.Book");
    assert_eq!(layout.staging_name, "My.Book.comic-enc-partial");
}

#[test]
fn an_existing_volume_is_not_overwritten_unasked() {
    let path = || "out/Volume-2.cbz".to_string();
    assert_eq!(decide_publication(2, path(), PathKind::Missing, false), Ok(Publication::Rename));
    assert_eq!(decide_publication(2, path(), PathKind::Missing, true), Ok(Publication::Rename));
    assert_eq!(
        decide_publication(2, path(), PathKind::File, false),
        Err(EncodingError::OutputVolumeFileAlreadyExists(2, path()))
    );
    assert_eq!(
        decide_publication(2, path(), PathKind::Directory, false),
        Err(EncodingError::OutputVolumeFileAlreadyExists(2, path()))
    );
    assert_eq!(decide_publication(2, path(), PathKind::File, true), Ok(Publication::ReplaceThenRename));
    assert_eq!(
        decide_publication(2, path(), PathKind::Directory, true),
        Err(EncodingError::OutputVolumeFileIsADirectory(2, path()))
    );
}

#[test]
fn existing_volumes_are_skipped_where_asked() {
    let staging = || "out/One.comic-enc-partial".to_string();
    let decide = |method: &BuildMethod, volume, complete, found, overwrite| {
        admit_volume(method, volume, complete, staging(), found, overwrite)
    };
    assert_eq!(decide(&each(true), 1, PathKind::File, PathKind::Missing, false), Ok(Admission::Skip));
    assert_eq!(decide(&each(true), 1, PathKind::File, PathKind::File, false), Ok(Admission::Skip));
    assert_eq!(decide(&each(true), 1, PathKind::Missing, PathKind::Missing, false), Ok(Admission::Write));
    assert_eq!(decide(&each(false), 1, PathKind::File, PathKind::Missing, false), Ok(Admission::Write));
    assert_eq!(decide(&ranges(false), 1, PathKind::File, PathKind::Missing, false), Ok(Admission::Write));
    assert_eq!(
        decide(&ranges(false), 5, PathKind::Missing, PathKind::File, false),
        Err(EncodingError::OutputVolumeFileAlreadyExists(5, staging()))
    );
    assert_eq!(decide(&single(), 5, PathKind::Missing, PathKind::File, true), Ok(Admission::Write));
}

#[test]
fn build_methods_batch_as_their_options_say() {
    assert_eq!(ranges(false).batching_method(), Method::Compile(2));
    assert_eq!(each(false).batching_method(), Method::Individual);
    assert_eq!(single().batching_method(), Method::Single);
}

#[test]
fn a_volume_of_one_chapter_needs_exactly_one_chapter() {
    let chapter = |name: &str| ChapterFiles {
        ordinal: 1,
        name: name.to_string(),
        files: vec![path("1.png")],
    };
    let mut args = BuildVolumeArgs {
        method: each(false),
        accept_extended_image_formats: false,
        simple_sorting: false,
        append_pages_count: false,
        output_name: String::new(),
        volume: 1,
        volumes: 1,
        vol_num_len: 1,
        chapter_num_len: 1,
        start_chapter: 1,
        chapters: vec![chapter("One")],
    };
    let layout = try_lay_out_volume(&args).unwrap();
    assert_eq!(layout, lay_out_volume(&args));
    assert_eq!(layout.stem, "One");
    assert_eq!(layout.complete_name, "One.cbz");
    assert_eq!(layout.chapters[0].pages[0].path, "One/One_Pic_0.png");
    args.chapters.push(chapter("Two"));
    assert_eq!(try_lay_out_volume(&args), None);
    args.chapters.clear();
    assert_eq!(try_lay_out_volume(&args), None);
    args.method = ranges(false);
    assert!(try_lay_out_volume(&args).is_some());
    args.start_chapter = usize::MAX;
    assert!(try_lay_out_volume(&args).is_some());
    args.chapters.push(chapter("Two"));
    assert_eq!(try_lay_out_volume(&args), None);
}
