use comic_encoder::images::{
    accepts_image_extension, comic_format_of, extension_of, find_last_dot, ComicFormat,
};
use comic_encoder::build_vol::file_stem_of;
use comic_encoder::text::{chars_of, has_prefix, spells, string_of};
use comic_encoder::{has_image_ext, is_supported_for_decoding};

#[test]
fn common_image_extensions() {
    assert_eq!(has_image_ext("file.png", false), true);
    assert_eq!(has_image_ext("file.Jpeg", false), true);
    assert_eq!(has_image_ext("file.JPG", false), true);
    assert_eq!(has_image_ext("file.bmp", true), true);
    assert_eq!(has_image_ext("file.bgp", false), false);
    assert_eq!(has_image_ext("file.txt", true), false);
    assert_eq!(has_image_ext("file", true), false);
    assert_eq!(has_image_ext(".png", true), false);
    assert_eq!(has_image_ext("archive.tar.png", false), true);
    assert_eq!(has_image_ext("png", false), false);
    assert_eq!(has_image_ext("file.png.", false), false);
    assert_eq!(has_image_ext("", false), false);
}

#[test]
fn extended_image_extensions() {
    let extended = [
        "tif", "tiff", "gif", "eps", "raw", "cr2", "nef", "orf", "sr2", "ppm", "webp", "pgm",
        "pbm", "pnm", "ico", "flif", "pam", "pcx", "pgf", "sgi", "sid", "bgp",
    ];
    for ext in extended {
        let name = format!("page.{}", ext);
        assert_eq!(has_image_ext(&name, false), false);
        assert_eq!(has_image_ext(&name, true), true);
        assert_eq!(has_image_ext(&name.to_uppercase(), true), true);
        assert_eq!(accepts_image_extension(ext, true), true);
        assert_eq!(accepts_image_extension(ext, false), false);
    }
    for ext in ["jpg", "jpeg", "png", "bmp"] {
        assert_eq!(accepts_image_extension(ext, false), true);
        assert_eq!(accepts_image_extension(ext, true), true);
    }
    assert_eq!(accepts_image_extension("PNG", true), false);
    assert_eq!(accepts_image_extension("", true), false);
}

#[test]
fn formats_supported_for_decoding() {
    assert_eq!(is_supported_for_decoding("zip"), true);
    assert_eq!(is_supported_for_decoding("PdF"), true);
    assert_eq!(is_supported_for_decoding("CBZ"), true);
    assert_eq!(is_supported_for_decoding("mp3"), false);
    assert_eq!(is_supported_for_decoding(""), false);
    assert_eq!(comic_format_of("zip"), Some(ComicFormat::Zip));
    assert_eq!(comic_format_of("cbz"), Some(ComicFormat::Zip));
    assert_eq!(comic_format_of("pdf"), Some(ComicFormat::Pdf));
    assert_eq!(comic_format_of("Pdf"), None);
    assert_eq!(comic_format_of("rar"), None);
}

#[test]
fn the_extension_follows_the_last_dot() {
    assert_eq!(extension_of("a.png"), Some("png".to_string()));
    assert_eq!(extension_of("a.tar.gz"), Some("gz".to_string()));
    assert_eq!(extension_of("a."), Some("".to_string()));
    assert_eq!(extension_of("a"), None);
    assert_eq!(extension_of(".hidden"), None);
    assert_eq!(extension_of(".hidden.png"), Some("png".to_string()));
    assert_eq!(extension_of(".."), None);
    assert_eq!(extension_of("..a"), Some("a".to_string()));
    assert_eq!(extension_of("..."), Some("".to_string()));
    assert_eq!(extension_of(""), None);
    assert_eq!(extension_of("é.ñ"), Some("ñ".to_string()));
    for name in ["a.png", "a.tar.gz", "a.", "a", ".hidden", ".hidden.png", "..", "..a", "...", "é.ñ"] {
        let path = std::path::Path::new(name);
        let expected = path.extension().map(|e| e.to_str().unwrap().to_string());
        assert_eq!(extension_of(name), expected);
        if name != ".." {
            let stem = path.file_stem().unwrap().to_str().unwrap().to_string();
            assert_eq!(file_stem_of(name), stem);
        }
    }
    assert_eq!(file_stem_of(".."), "..");
    assert_eq!(file_stem_of(""), "");
}

#[test]
fn the_last_dot_is_found() {
    let name: Vec<char> = "a.b.c".chars().collect();
    assert_eq!(find_last_dot(&name), Some(3));
    let name: Vec<char> = "abc".chars().collect();
    assert_eq!(find_last_dot(&name), None);
    assert_eq!(find_last_dot(&[]), None);
}

#[test]
fn text_helpers() {
    assert_eq!(chars_of("héllo"), vec!['h', 'é', 'l', 'l', 'o']);
    assert_eq!(chars_of(""), Vec::<char>::new());
    let chars = chars_of("chapter");
    assert_eq!(string_of(&chars, 2, 5), "apt");
    assert_eq!(string_of(&chars, 0, 7), "chapter");
    assert_eq!(string_of(&chars, 3, 3), "");
    assert!(spells(&chars, "chapter"));
    assert!(!spells(&chars, "chapte"));
    assert!(!spells(&chars, "chaptex"));
    assert!(has_prefix("Chapter 12", "Chapter"));
    assert!(has_prefix("Chapter 12", ""));
    assert!(has_prefix("Chapter", "Chapter"));
    assert!(!has_prefix("Chapter 12", "chapter"));
    assert!(!has_prefix("Ch", "Chapter"));
}
