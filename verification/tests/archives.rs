use comic_encoder::build_vol::{lay_out_volume, BuildMethod, BuildVolumeArgs, ChapterFiles};
use comic_encoder::decode::{make_numbered_page_name, plan_extraction, prepare, Config, Preparation};
use comic_encoder::error::DecodingError;
use comic_encoder::images::ComicFormat;
use comic_encoder::opts::{CompileRanges, Decode};
use comic_encoder::pack::{check_pages, write_volume, PackingError};
use comic_encoder::probe::{OutputDirectory, PathKind};
use comic_encoder::unpack::{decode_archive, UnpackingError};
use std::io::Read;

fn path(s: &str) -> Vec<String> {
    s.split('/').map(|c| c.to_string()).collect()
}

fn config(only_images: bool, extended: bool, raw: bool) -> Config {
    Config {
        input: "book.cbz".to_string(),
        output: None,
        create_output_dir: false,
        only_extract_images: only_images,
        extended_image_formats: extended,
        disable_nat_sort: raw,
    }
}

fn two_chapters() -> (BuildVolumeArgs, Vec<Vec<Vec<u8>>>) {
    let args = BuildVolumeArgs {
        method: BuildMethod::Ranges(CompileRanges {
            chapters_per_volume: 2,
            append_chapters_range: false,
            debug_chapters_path: false,
        }),
        accept_extended_image_formats: false,
        simple_sorting: false,
        append_pages_count: false,
        output_name: String::new(),
        volume: 1,
        volumes: 1,
        vol_num_len: 1,
        chapter_num_len: 1,
        start_chapter: 1,
        chapters: vec![
            ChapterFiles {
                ordinal: 1,
                name: "Chapter 1".to_string(),
                files: vec![path("10.png"), path("9.png"), path("readme.txt")],
            },
            ChapterFiles { ordinal: 2, name: "Chapter 2".to_string(), files: vec![path("a.jpg")] },
        ],
    };
    let pages = vec![vec![b"nine".to_vec(), b"ten, a longer page".to_vec()], vec![Vec::new()]];
    (args, pages)
}

#[test]
fn an_archive_holds_a_directory_for_each_chapter_and_a_file_for_each_page() {
    let (args, pages) = two_chapters();
    let layout = lay_out_volume(&args);
    for deflate in [false, true] {
        let bytes = write_volume(&layout, &pages, deflate).unwrap();
        let mut archive = zip::ZipArchive::new(std::io::Cursor::new(bytes)).unwrap();
        let mut found = Vec::new();
        for i in 0..archive.len() {
            let mut file = archive.by_index(i).unwrap();
            let mut content = Vec::new();
            file.read_to_end(&mut content).unwrap();
            let deflated = file.compression() == zip::CompressionMethod::Deflated;
            found.push((file.name().unwrap().to_string(), file.is_dir(), content, deflated));
        }
        assert_eq!(
            found,
            vec![
                ("Vol_1_Chapter_1/".to_string(), true, Vec::new(), false),
                ("Vol_1_Chapter_1/Vol_1_Chapter_1_Pic_0.png".to_string(), false, b"nine".to_vec(), deflate),
                (
                    "Vol_1_Chapter_1/Vol_1_Chapter_1_Pic_1.png".to_string(),
                    false,
                    b"ten, a longer page".to_vec(),
                    deflate
                ),
                ("Vol_1_Chapter_2/".to_string(), true, Vec::new(), false),
                ("Vol_1_Chapter_2/Vol_1_Chapter_2_Pic_0.jpg".to_string(), false, Vec::new(), deflate),
            ]
        );
    }
}

#[test]
fn encoding_then_decoding_gives_the_pages_back() {
    let (args, pages) = two_chapters();
    let layout = lay_out_volume(&args);
    let bytes = write_volume(&layout, &pages, true).unwrap();
    let decoded = decode_archive(bytes, &config(false, false, true)).unwrap();
    assert_eq!(decoded.is_file, vec![false, true, true, false, true]);
    assert_eq!(decoded.paths[1], path("Vol_1_Chapter_1/Vol_1_Chapter_1_Pic_0.png"));
    assert_eq!(decoded.paths[0], path("Vol_1_Chapter_1"));
    let names: Vec<&str> = decoded.pages.iter().map(|page| page.name.as_str()).collect();
    assert_eq!(names, vec!["1.png", "2.png", "3.jpg"]);
    let entries: Vec<usize> = decoded.pages.iter().map(|page| page.entry).collect();
    assert_eq!(entries, vec![1, 2, 4]);
    let flat: Vec<Vec<u8>> = pages.into_iter().flatten().collect();
    assert_eq!(decoded.contents, flat);
}

#[test]
fn the_same_volume_gives_the_same_archive() {
    let (args, pages) = two_chapters();
    let layout = lay_out_volume(&args);
    let first = write_volume(&layout, &pages, true).unwrap();
    let second = write_volume(&layout, &pages, true).unwrap();
    assert_eq!(first, second);
}

#[test]
fn pages_that_do_not_match_the_layout_are_refused() {
    let (args, mut pages) = two_chapters();
    let layout = lay_out_volume(&args);
    assert!(check_pages(&layout.chapters, &pages));
    pages[0].pop();
    assert!(!check_pages(&layout.chapters, &pages));
    assert!(matches!(write_volume(&layout, &pages, false), Err(PackingError::PagesDoNotMatchLayout)));
    pages.pop();
    assert!(matches!(write_volume(&layout, &pages, false), Err(PackingError::PagesDoNotMatchLayout)));
}

#[test]
fn two_chapters_under_one_name_cannot_be_written() {
    let (mut args, pages) = two_chapters();
    args.method = BuildMethod::Each(comic_encoder::opts::CompileEach {
        skip_existing: false,
        display_full_names: false,
    });
    args.chapters[1].name = "Chapter 1".to_string();
    args.chapters.truncate(1);
    let mut layout = lay_out_volume(&args);
    let again = layout.chapters[0].clone();
    layout.chapters.push(again);
    let pages = vec![pages[0].clone(), pages[0].clone()];
    assert!(matches!(
        write_volume(&layout, &pages, false),
        Err(PackingError::FailedToCreateChapterDirectoryInZip { chapter: 1, .. })
    ));
}

#[test]
fn bytes_that_are_no_archive_are_refused() {
    assert!(matches!(
        decode_archive(b"this is not a zip archive".to_vec(), &config(false, false, false)),
        Err(UnpackingError::InvalidZipArchive(_))
    ));
}

#[test]
fn pages_are_numbered_in_sorted_order() {
    let paths = vec![
        path("book/page 10.png"),
        path("book"),
        path("book/page 2.png"),
        path("book/cover.JPG"),
        path("book/info.txt"),
        path("book/page 1"),
    ];
    let is_file = vec![true, false, true, true, true, true];
    let pages = plan_extraction(&paths, &is_file, &config(false, false, false));
    let found: Vec<(usize, &str)> = pages.iter().map(|p| (p.entry, p.name.as_str())).collect();
    assert_eq!(found, vec![(3, "1.JPG"), (4, "2.txt"), (5, "3"), (2, "4.png"), (0, "5.png")]);
    let pages = plan_extraction(&paths, &is_file, &config(true, false, false));
    let found: Vec<(usize, &str)> = pages.iter().map(|p| (p.entry, p.name.as_str())).collect();
    assert_eq!(found, vec![(3, "1.JPG"), (2, "2.png"), (0, "3.png")]);
    let pages = plan_extraction(&paths, &is_file, &config(true, false, true));
    let found: Vec<(usize, &str)> = pages.iter().map(|p| (p.entry, p.name.as_str())).collect();
    assert_eq!(found, vec![(3, "1.JPG"), (0, "2.png"), (2, "3.png")]);
    let many: Vec<Vec<String>> = (0..12).map(|i| vec![format!("{}.gif", i)]).collect();
    let pages = plan_extraction(&many, &vec![true; 12], &config(true, true, false));
    assert_eq!(pages[0].name, "01.gif");
    assert_eq!(pages[11].name, "12.gif");
    assert_eq!(pages[11].entry, 11);
    let pages = plan_extraction(&many, &vec![true; 12], &config(true, false, false));
    assert!(pages.is_empty());
}

#[test]
fn numbered_page_names() {
    assert_eq!(make_numbered_page_name(1, 7, Some("png")), "1.png");
    assert_eq!(make_numbered_page_name(7, 10, Some("jpg")), "07.jpg");
    assert_eq!(make_numbered_page_name(12, 1520, None), "0012");
    assert_eq!(make_numbered_page_name(3, 3, Some("")), "3.");
}

#[test]
fn a_decoding_is_prepared_from_what_stands_at_its_paths() {
    let mut c = config(false, false, false);
    let ready = |output| Ok(Preparation { format: ComicFormat::Zip, output });
    let ext = |text: &str| Some(text.to_string());
    let unsupported = |text: Option<&str>| Err(DecodingError::UnsupportedFormat(text.map(String::from)));
    assert_eq!(prepare(&c, PathKind::Missing, ext("cbz"), PathKind::Missing), Err(DecodingError::InputFileNotFound));
    assert_eq!(prepare(&c, PathKind::Directory, ext("cbz"), PathKind::Missing), Err(DecodingError::InputFileIsADirectory));
    assert_eq!(prepare(&c, PathKind::File, None, PathKind::Missing), unsupported(None));
    assert_eq!(prepare(&c, PathKind::File, ext("rar"), PathKind::Missing), unsupported(Some("rar")));
    assert_eq!(prepare(&c, PathKind::File, ext("CBZ"), PathKind::Missing), unsupported(Some("CBZ")));
    assert_eq!(prepare(&c, PathKind::File, ext("cbz"), PathKind::Missing), ready(OutputDirectory::Create));
    assert_eq!(prepare(&c, PathKind::File, ext("zip"), PathKind::Directory), ready(OutputDirectory::Create));
    c.output = Some("out".to_string());
    assert_eq!(prepare(&c, PathKind::File, ext("cbz"), PathKind::Missing), Err(DecodingError::OutputDirectoryNotFound));
    assert_eq!(prepare(&c, PathKind::File, ext("cbz"), PathKind::File), Err(DecodingError::OutputDirectoryIsAFile));
    assert_eq!(prepare(&c, PathKind::File, ext("cbz"), PathKind::Directory), ready(OutputDirectory::Ready));
    assert_eq!(
        prepare(&c, PathKind::File, ext("pdf"), PathKind::Directory),
        Ok(Preparation { format: ComicFormat::Pdf, output: OutputDirectory::Ready })
    );
    c.create_output_dir = true;
    assert_eq!(prepare(&c, PathKind::File, ext("cbz"), PathKind::Missing), ready(OutputDirectory::Create));
    assert_eq!(prepare(&c, PathKind::File, ext("cbz"), PathKind::File), Err(DecodingError::OutputDirectoryIsAFile));
}

#[test]
fn a_decoding_configuration_follows_the_options() {
    let options = Decode {
        input: "in.cbz".to_string(),
        output: Some("out".to_string()),
        create_output_dir: true,
        extract_images_only: true,
        accept_extended_image_formats: false,
        simple_sorting: true,
        skip_bad_pdf_pages: false,
    };
    let c = Config::from_options(&options);
    assert_eq!(
        c,
        Config {
            input: "in.cbz".to_string(),
            output: Some("out".to_string()),
            create_output_dir: true,
            only_extract_images: true,
            extended_image_formats: false,
            disable_nat_sort: true,
        }
    );
}

#[test]
fn two_pages_under_one_path_cannot_be_written() {
    let (args, pages) = two_chapters();
    let mut layout = lay_out_volume(&args);
    let again = layout.chapters[0].pages[0].path.clone();
    layout.chapters[0].pages[1].path = again;
    assert!(matches!(
        write_volume(&layout, &pages, false),
        Err(PackingError::FailedToCreateImageFileInZip { chapter: 0, page: 1, .. })
    ));
}

#[test]
fn an_entry_that_cannot_be_read_ends_the_decoding() {
    let (args, pages) = two_chapters();
    let layout = lay_out_volume(&args);
    let mut bytes = write_volume(&layout, &pages, false).unwrap();
    let at = bytes.windows(4).position(|window| window == b"nine").unwrap();
    bytes[at] = b'N';
    assert!(matches!(
        decode_archive(bytes, &config(false, false, false)),
        Err(UnpackingError::ZipError { entry: 1, .. })
    ));
}
