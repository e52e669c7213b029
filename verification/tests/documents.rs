use comic_encoder::unpack_pdf::{
    decode_pdf, page_images, NamedObject, PdfDecodingError, PdfImage, PdfObject, PdfPage,
};

fn jpeg(name: &str, bytes: &[u8]) -> NamedObject {
    NamedObject { name: name.to_string(), object: PdfObject::Jpeg(bytes.to_vec()) }
}

fn named(name: &str, object: PdfObject) -> NamedObject {
    NamedObject { name: name.to_string(), object }
}

fn image(page: usize, object: usize) -> PdfImage {
    PdfImage { page, object }
}

#[test]
fn jpeg_images_are_picked_page_by_page() {
    let pages = vec![
        PdfPage::Objects(vec![jpeg("Im2", b"two"), named("Form", PdfObject::NotAnImage), jpeg("Im10", b"ten")]),
        PdfPage::Objects(vec![jpeg("B", b"b"), jpeg("A", b"a")]),
    ];
    for skip in [false, true] {
        let decoded = decode_pdf(&pages, skip).unwrap();
        assert_eq!(decoded.images, vec![image(0, 2), image(0, 0), image(1, 1), image(1, 0)]);
        assert_eq!(decoded.names, vec!["1.jpg", "2.jpg", "3.jpg", "4.jpg"]);
    }
}

#[test]
fn image_names_are_as_wide_as_the_image_count() {
    let objects: Vec<NamedObject> = (0..10).map(|i| jpeg(&format!("I{}", i), b"jpeg")).collect();
    let decoded = decode_pdf(&vec![PdfPage::Objects(objects)], false).unwrap();
    assert_eq!(decoded.names.len(), 10);
    assert_eq!(decoded.names[0], "01.jpg");
    assert_eq!(decoded.names[9], "10.jpg");
    let decoded = decode_pdf(&vec![PdfPage::Objects(Vec::new())], false).unwrap();
    assert!(decoded.images.is_empty());
    assert!(decoded.names.is_empty());
    let decoded = decode_pdf(&Vec::new(), false).unwrap();
    assert!(decoded.images.is_empty());
}

#[test]
fn a_page_that_cannot_be_read_ends_the_decoding_unless_skipped() {
    let good = || PdfPage::Objects(vec![jpeg("Im1", b"one")]);
    let pages = vec![good(), PdfPage::Unreadable("no such page".to_string()), good()];
    assert_eq!(
        decode_pdf(&pages, false),
        Err(PdfDecodingError::FailedToGetPdfPage(2, "no such page".to_string()))
    );
    let decoded = decode_pdf(&pages, true).unwrap();
    assert_eq!(decoded.images, vec![image(0, 0), image(2, 0)]);
    assert_eq!(decoded.names, vec!["1.jpg", "2.jpg"]);
}

#[test]
fn a_faulty_object_makes_its_page_one_that_cannot_be_read() {
    let bad = PdfPage::Objects(vec![
        jpeg("Im1", b"lost"),
        named("Zz", PdfObject::Unreadable("broken reference".to_string())),
        named("Mm", PdfObject::OtherImage),
    ]);
    assert_eq!(page_images(&bad, 4), Err(PdfDecodingError::PdfImageIsNotJpeg(5, "Mm".to_string())));
    let pages = vec![PdfPage::Objects(vec![jpeg("a", b"a")]), bad, PdfPage::Objects(vec![jpeg("b", b"b")])];
    assert_eq!(decode_pdf(&pages, false), Err(PdfDecodingError::PdfImageIsNotJpeg(2, "Mm".to_string())));
    let decoded = decode_pdf(&pages, true).unwrap();
    assert_eq!(decoded.images, vec![image(0, 0), image(2, 0)]);
    let unreadable = PdfPage::Objects(vec![
        named("Zz", PdfObject::OtherImage),
        named("Aa", PdfObject::Unreadable("broken reference".to_string())),
    ]);
    assert_eq!(
        page_images(&unreadable, 0),
        Err(PdfDecodingError::FailedToGetPdfPageResources(1, "broken reference".to_string()))
    );
}

#[test]
fn the_images_of_a_page_come_by_name() {
    let page = PdfPage::Objects(vec![
        jpeg("b", b"1"),
        named("c", PdfObject::NotAnImage),
        jpeg("a", b"2"),
        jpeg("B", b"3"),
        jpeg("a", b"4"),
    ]);
    assert_eq!(page_images(&page, 7), Ok(vec![image(7, 3), image(7, 2), image(7, 4), image(7, 0)]));
    assert_eq!(page_images(&PdfPage::Objects(Vec::new()), 0), Ok(Vec::new()));
    assert_eq!(
        page_images(&PdfPage::Unreadable("gone".to_string()), 0),
        Err(PdfDecodingError::FailedToGetPdfPage(1, "gone".to_string()))
    );
}
