//! Picking the JPEG images out of a PDF document. The document is handed
//! over as it was read: for each page either what went wrong, or the objects
//! that the page's resources list, each under its name.

use vstd::prelude::*;
use crate::decode::{make_numbered_page_name, numbered_page_name};
use crate::paths::path_relation;
use crate::sorting::{is_stable_selection, path_keys, precedes, sorted_selection};
use crate::text::views_of;

verus! {

/// What stands under a name in a page's resources.
#[derive(Clone, Debug, PartialEq, Eq)]
pub enum PdfObject {
    /// An image encoded as JPEG: the bytes of the JPEG file.
    Jpeg(Vec<u8>),
    /// An image in another encoding.
    OtherImage,
    /// Something that is no image.
    NotAnImage,
    /// An object that could not be read: what went wrong.
    Unreadable(String),
}

/// An object of a page, under the name that the page's resources give it.
#[derive(Clone, Debug, PartialEq, Eq)]
pub struct NamedObject {
    /// The object's name.
    pub name: String,
    /// What stands under the name.
    pub object: PdfObject,
}

/// A page of a document, as far as it could be read.
#[derive(Clone, Debug, PartialEq, Eq)]
pub enum PdfPage {
    /// The page or its resources could not be read: what went wrong.
    Unreadable(String),
    /// The objects that the page's resources list, in no particular order.
    Objects(Vec<NamedObject>),
}

/// Why the images of a document could not be picked.
#[derive(Clone, Debug, PartialEq, Eq)]
pub enum PdfDecodingError {
    /// The page with this number, counted from one, or its resources could
    /// not be read: what went wrong.
    FailedToGetPdfPage(usize, String),
    /// An object of the page with this number, counted from one, could not
    /// be read: what went wrong.
    FailedToGetPdfPageResources(usize, String),
    /// An image of the page with this number, counted from one, is not
    /// encoded as JPEG: the image's name.
    PdfImageIsNotJpeg(usize, String),
}

/// An image picked from a document.
#[derive(Clone, Copy, Debug, PartialEq, Eq, Structural)]
pub struct PdfImage {
    /// The position of the image's page in the document.
    pub page: usize,
    /// The position of the image among its page's objects.
    pub object: usize,
}

/// What was picked from a document.
#[derive(Clone, Debug, PartialEq, Eq)]
pub struct DecodedPdf {
    /// The images, by page and, within a page, by the names of their
    /// objects in raw order.
    pub images: Vec<PdfImage>,
    /// The file name to write each image under, in the images' order.
    pub names: Vec<String>,
}

/// The objects of a page; none for a page that could not be read.
pub open spec fn objects_of(page: PdfPage) -> Seq<NamedObject> {
    match page {
        PdfPage::Objects(objects) => objects@,
        PdfPage::Unreadable(_) => Seq::empty(),
    }
}

/// The names of objects, each as a path of one component.
pub open spec fn object_keys(objects: Seq<NamedObject>) -> Seq<Seq<Seq<char>>> {
    Seq::new(objects.len(), |k: int| seq![objects[k].name@])
}

/// For each object, whether it is a JPEG image.
pub open spec fn jpeg_marks(objects: Seq<NamedObject>) -> Seq<bool> {
    Seq::new(objects.len(), |k: int| objects[k].object is Jpeg)
}

/// Whether nothing can be picked from an object though something should: it
/// could not be read, or it is an image in another encoding than JPEG.
pub open spec fn is_faulty(object: PdfObject) -> bool {
    object is Unreadable || object is OtherImage
}

/// For each object, whether it is faulty.
pub open spec fn fault_marks(objects: Seq<NamedObject>) -> Seq<bool> {
    Seq::new(objects.len(), |k: int| is_faulty(objects[k].object))
}

/// Whether a page can be read: its objects are listed, and none is faulty.
pub open spec fn page_is_readable(page: PdfPage) -> bool {
    &&& page is Objects
    &&& forall|k: int| 0 <= k < objects_of(page).len() ==> !is_faulty(#[trigger] objects_of(page)[k].object)
}

/// What is reported of a faulty object of the page with this number.
pub open spec fn object_fault(number: usize, named: NamedObject) -> PdfDecodingError {
    match named.object {
        PdfObject::Unreadable(text) => PdfDecodingError::FailedToGetPdfPageResources(number, text),
        _ => PdfDecodingError::PdfImageIsNotJpeg(number, named.name),
    }
}

/// Whether `faulty` lists the faulty objects of these objects by their names
/// in raw order, there is one, and `error` reports the first of them.
pub open spec fn reports_first_fault(
    faulty: Seq<usize>,
    objects: Seq<NamedObject>,
    number: usize,
    error: PdfDecodingError,
) -> bool {
    &&& is_stable_selection(
        faulty,
        object_keys(objects),
        path_relation(false),
        fault_marks(objects),
    )
    &&& faulty.len() > 0
    &&& error == object_fault(number, objects[faulty[0] as int])
}

/// Whether `error` is what is reported of a page that cannot be read, under
/// the page's number: for a page that could not be had, what went wrong
/// with it; otherwise the fault of the first faulty object, by the objects'
/// names in raw order.
pub open spec fn is_page_fault(page: PdfPage, number: usize, error: PdfDecodingError) -> bool {
    match page {
        PdfPage::Unreadable(text) => error == PdfDecodingError::FailedToGetPdfPage(number, text),
        PdfPage::Objects(objects) => exists|faulty: Seq<usize>| #[trigger]
            reports_first_fault(faulty, objects@, number, error),
    }
}

/// The objects that a list of images shows, in the images' order.
pub open spec fn image_objects(images: Seq<PdfImage>) -> Seq<usize> {
    Seq::new(images.len(), |i: int| images[i].object)
}

/// Whether `images` holds the JPEG images of the page at position `index`,
/// each once, by the names of their objects in raw order.
pub open spec fn are_page_images(images: Seq<PdfImage>, page: PdfPage, index: usize) -> bool {
    &&& forall|i: int| 0 <= i < images.len() ==> (#[trigger] images[i]).page == index
    &&& is_stable_selection(
        image_objects(images),
        object_keys(objects_of(page)),
        path_relation(false),
        jpeg_marks(objects_of(page)),
    )
}

/// What picking the images of a page comes to. It succeeds where the page
/// can be read, and gives the page's JPEG images then. Otherwise the page's
/// fault is reported under the page's number, counted from one.
pub open spec fn page_outcome(
    picked: Result<Vec<PdfImage>, PdfDecodingError>,
    page: PdfPage,
    index: usize,
) -> bool {
    match picked {
        Ok(images) => page_is_readable(page) && are_page_images(images@, page, index),
        Err(error) => !page_is_readable(page) && is_page_fault(page, (index + 1) as usize, error),
    }
}

/// Whether `image` is an image of the document: a JPEG image among the
/// objects of a page that can be read.
pub open spec fn is_image_of(image: PdfImage, pages: Seq<PdfPage>) -> bool {
    &&& image.page < pages.len()
    &&& page_is_readable(pages[image.page as int])
    &&& image.object < objects_of(pages[image.page as int]).len()
    &&& objects_of(pages[image.page as int])[image.object as int].object is Jpeg
}

/// Whether `earlier` has to stand before `later`: it comes from an earlier
/// page, or from the same page and its object comes first by name in raw
/// order, or by position where the names are the same.
pub open spec fn in_document_order(earlier: PdfImage, later: PdfImage, pages: Seq<PdfPage>) -> bool {
    earlier.page < later.page || (earlier.page == later.page && precedes(
        object_keys(objects_of(pages[earlier.page as int])),
        path_relation(false),
        earlier.object as int,
        later.object as int,
    ))
}

/// Whether `images` holds every JPEG image of the page at position `index`.
pub open spec fn holds_page(images: Seq<PdfImage>, pages: Seq<PdfPage>, index: int) -> bool {
    forall|k: int|
        0 <= k < objects_of(pages[index]).len() && (#[trigger] objects_of(pages[index])[k]).object
            is Jpeg ==> images.contains(PdfImage { page: index as usize, object: k as usize })
}

/// Whether `images` is a list of images of the document, in document order.
pub open spec fn are_images_of(images: Seq<PdfImage>, pages: Seq<PdfPage>) -> bool {
    &&& forall|i: int| 0 <= i < images.len() ==> is_image_of(#[trigger] images[i], pages)
    &&& forall|i: int, j: int|
        0 <= i < j < images.len() ==> in_document_order(
            #[trigger] images[i],
            #[trigger] images[j],
            pages,
        )
}

/// Whether every one of the first `upto` pages can be read.
pub open spec fn pages_are_readable(pages: Seq<PdfPage>, upto: int) -> bool {
    forall|p: int| 0 <= p < upto ==> page_is_readable(#[trigger] pages[p])
}

/// Whether `decoded` is what the document holds: the JPEG images of the
/// pages that can be read, all of them and no others, in document order,
/// each named after its rank as a JPEG file.
pub open spec fn is_pdf_decoding(decoded: DecodedPdf, pages: Seq<PdfPage>) -> bool {
    &&& are_images_of(decoded.images@, pages)
    &&& forall|p: int|
        0 <= p < pages.len() && page_is_readable(pages[p]) ==> #[trigger] holds_page(
            decoded.images@,
            pages,
            p,
        )
    &&& decoded.names@.len() == decoded.images@.len()
    &&& forall|i: int|
        0 <= i < decoded.names@.len() ==> (#[trigger] decoded.names@[i])@ == numbered_page_name(
            (i + 1) as nat,
            decoded.names@.len(),
            Some("jpg"@),
        )
}

/// What decoding a document comes to. Where pages that cannot be read are
/// skipped, the document is decoded in any case. Where they are not, it is
/// decoded if every page can be read, and otherwise the fault of the first
/// page that cannot be read is reported.
pub open spec fn pdf_outcome(
    decoded: Result<DecodedPdf, PdfDecodingError>,
    pages: Seq<PdfPage>,
    skip_bad_pages: bool,
) -> bool {
    match decoded {
        Ok(found) => is_pdf_decoding(found, pages) && (skip_bad_pages || pages_are_readable(
            pages,
            pages.len() as int,
        )),
        Err(error) => !skip_bad_pages && exists|p: int|
            0 <= p < pages.len() && pages_are_readable(pages, p) && !page_is_readable(
                #[trigger] pages[p],
            ) && is_page_fault(pages[p], (p + 1) as usize, error),
    }
}

/// Picks the JPEG images of the page at position `index`, by the names of
/// their objects in raw order.
pub fn page_images(page: &PdfPage, index: usize) -> (picked: Result<
    Vec<PdfImage>,
    PdfDecodingError,
>)
    requires
        index < usize::MAX,
    ensures
        picked is Ok <==> page_is_readable(*page),
        page_outcome(picked, *page, index),
{
    let objects = match page {
        PdfPage::Unreadable(text) => {
            return Err(PdfDecodingError::FailedToGetPdfPage(index + 1, text.clone()));
        },
        PdfPage::Objects(objects) => objects,
    };
    let mut paths: Vec<Vec<String>> = Vec::new();
    let mut jpegs: Vec<bool> = Vec::new();
    let mut faults: Vec<bool> = Vec::new();
    let mut k: usize = 0;
    while k < objects.len()
        invariant
            k <= objects.len(),
            paths@.len() == k,
            jpegs@.len() == k,
            faults@.len() == k,
            forall|i: int| 0 <= i < k ==> (#[trigger] paths@[i])@ == seq![objects@[i].name],
            forall|i: int| 0 <= i < k ==> #[trigger] jpegs@[i] == (objects@[i].object is Jpeg),
            forall|i: int| 0 <= i < k ==> #[trigger] faults@[i] == is_faulty(objects@[i].object),
        decreases objects.len() - k,
    {
        let mut path: Vec<String> = Vec::new();
        path.push(objects[k].name.clone());
        assert(path@ =~= seq![objects@[k as int].name]);
        paths.push(path);
        let (jpeg, fault) = match &objects[k].object {
            PdfObject::Jpeg(_) => (true, false),
            PdfObject::NotAnImage => (false, false),
            PdfObject::OtherImage => (false, true),
            PdfObject::Unreadable(_) => (false, true),
        };
        jpegs.push(jpeg);
        faults.push(fault);
        k = k + 1;
    }
    proof {
        assert forall|i: int| 0 <= i < objects@.len() implies path_keys(paths@)[i] == object_keys(
            objects@,
        )[i] by {
            assert(views_of(paths@[i]@) =~= seq![objects@[i].name@]);
        }
        assert(path_keys(paths@) =~= object_keys(objects@));
        assert(jpegs@ =~= jpeg_marks(objects@));
        assert(faults@ =~= fault_marks(objects@));
    }
    let faulty = sorted_selection(&paths, &faults, false);
    if faulty.len() > 0 {
        let named = &objects[faulty[0]];
        assert(faults@[faulty@[0] as int]);
        assert(is_faulty(objects_of(*page)[faulty@[0] as int].object));
        let error = match &named.object {
            PdfObject::Unreadable(text) => PdfDecodingError::FailedToGetPdfPageResources(
                index + 1,
                text.clone(),
            ),
            _ => PdfDecodingError::PdfImageIsNotJpeg(index + 1, named.name.clone()),
        };
        assert(reports_first_fault(faulty@, objects@, (index + 1) as usize, error));
        return Err(error);
    }
    proof {
        assert forall|i: int| 0 <= i < objects@.len() implies !is_faulty(
            #[trigger] objects_of(*page)[i].object,
        ) by {
            if is_faulty(objects@[i].object) {
                assert(faults@[i]);
                assert(faulty@.contains(i as usize));
            }
        }
    }
    let visit = sorted_selection(&paths, &jpegs, false);
    let mut images: Vec<PdfImage> = Vec::new();
    let mut i: usize = 0;
    while i < visit.len()
        invariant
            i <= visit.len(),
            images@.len() == i,
            forall|v: int|
                0 <= v < i ==> #[trigger] images@[v] == (PdfImage { page: index, object: visit@[v] }),
        decreases visit.len() - i,
    {
        images.push(PdfImage { page: index, object: visit[i] });
        i = i + 1;
    }
    assert(image_objects(images@) =~= visit@);
    Ok(images)
}

/// Images of earlier pages followed by the images of a page that can be
/// read are images of the document in document order, and hold that page.
proof fn lemma_append_page(
    before: Seq<PdfImage>,
    added: Seq<PdfImage>,
    pages: Seq<PdfPage>,
    index: usize,
)
    requires
        index < pages.len(),
        are_images_of(before, pages),
        forall|i: int| 0 <= i < before.len() ==> (#[trigger] before[i]).page < index,
        page_is_readable(pages[index as int]),
        are_page_images(added, pages[index as int], index),
    ensures
        are_images_of(before + added, pages),
        forall|i: int| 0 <= i < (before + added).len() ==> (#[trigger] (before + added)[i]).page <= index,
        holds_page(before + added, pages, index as int),
        forall|earlier: int|
            0 <= earlier < index && holds_page(before, pages, earlier) ==> #[trigger] holds_page(
                before + added,
                pages,
                earlier,
            ),
{
    let all = before + added;
    let objects = objects_of(pages[index as int]);
    let keys = object_keys(objects);
    let shown = image_objects(added);
    assert forall|i: int| 0 <= i < added.len() implies is_image_of(#[trigger] added[i], pages) by {
        assert(shown[i] == added[i].object);
        assert(jpeg_marks(objects)[shown[i] as int]);
    }
    assert forall|i: int| 0 <= i < all.len() implies is_image_of(#[trigger] all[i], pages)
        && all[i].page <= index by {
        if i < before.len() {
            assert(all[i] == before[i]);
        } else {
            assert(all[i] == added[i - before.len()]);
        }
    }
    assert forall|i: int, j: int| 0 <= i < j < all.len() implies in_document_order(
        #[trigger] all[i],
        #[trigger] all[j],
        pages,
    ) by {
        if j < before.len() {
            assert(all[i] == before[i] && all[j] == before[j]);
        } else if i < before.len() {
            assert(all[i] == before[i] && all[j] == added[j - before.len()]);
        } else {
            let a = i - before.len();
            let b = j - before.len();
            assert(all[i] == added[a] && all[j] == added[b]);
            assert(shown[a] == added[a].object && shown[b] == added[b].object);
            assert(precedes(keys, path_relation(false), shown[a] as int, shown[b] as int));
        }
    }
    assert forall|k: int|
        0 <= k < objects.len() && (#[trigger] objects[k]).object is Jpeg implies all.contains(
        PdfImage { page: index, object: k as usize },
    ) by {
        assert(jpeg_marks(objects)[k]);
        assert(shown.contains(k as usize));
        let at = choose|at: int| 0 <= at < shown.len() && shown[at] == k as usize;
        assert(added[at] == PdfImage { page: index, object: k as usize });
        assert(all[before.len() + at] == added[at]);
    }
    assert forall|earlier: int|
        0 <= earlier < index && holds_page(before, pages, earlier) implies #[trigger] holds_page(
        all,
        pages,
        earlier,
    ) by {
        assert forall|k: int|
            0 <= k < objects_of(pages[earlier]).len() && (#[trigger] objects_of(
                pages[earlier],
            )[k]).object is Jpeg implies all.contains(
            PdfImage { page: earlier as usize, object: k as usize },
        ) by {
            let wanted = PdfImage { page: earlier as usize, object: k as usize };
            assert(before.contains(wanted));
            let at = choose|at: int| 0 <= at < before.len() && before[at] == wanted;
            assert(all[at] == before[at]);
        }
    }
}

/// Picks the JPEG images out of a document, page by page and, within a page,
/// by the names of their objects in raw order, and names each after its rank.
/// A page that cannot be read ends the decoding, unless such pages are to be
/// skipped: then none of its images is taken. An image that is not encoded
/// as JPEG makes its page one that cannot be read.
pub fn decode_pdf(pages: &Vec<PdfPage>, skip_bad_pages: bool) -> (decoded: Result<
    DecodedPdf,
    PdfDecodingError,
>)
    ensures
        decoded is Ok <==> skip_bad_pages || pages_are_readable(pages@, pages@.len() as int),
        pdf_outcome(decoded, pages@, skip_bad_pages),
{
    let mut images: Vec<PdfImage> = Vec::new();
    let mut p: usize = 0;
    while p < pages.len()
        invariant
            p <= pages.len(),
            are_images_of(images@, pages@),
            forall|i: int| 0 <= i < images@.len() ==> (#[trigger] images@[i]).page < p,
            forall|earlier: int|
                0 <= earlier < p && page_is_readable(pages@[earlier]) ==> #[trigger] holds_page(
                    images@,
                    pages@,
                    earlier,
                ),
            !skip_bad_pages ==> pages_are_readable(pages@, p as int),
        decreases pages.len() - p,
    {
        match page_images(&pages[p], p) {
            Err(error) => {
                if !skip_bad_pages {
                    assert(!page_is_readable(pages@[p as int]));
                    return Err(error);
                }
            },
            Ok(mut added) => {
                proof {
                    let before = images@;
                    let all = before + added@;
                    lemma_append_page(before, added@, pages@, p);
                    assert forall|earlier: int|
                        0 <= earlier < p + 1 && page_is_readable(
                            pages@[earlier],
                        ) implies #[trigger] holds_page(all, pages@, earlier) by {
                        if earlier < p {
                            assert(holds_page(before, pages@, earlier));
                        }
                    }
                }
                images.append(&mut added);
            },
        }
        p = p + 1;
    }
    let mut names: Vec<String> = Vec::new();
    let mut i: usize = 0;
    while i < images.len()
        invariant
            i <= images.len(),
            names@.len() == i,
            forall|k: int|
                0 <= k < i ==> (#[trigger] names@[k])@ == numbered_page_name(
                    (k + 1) as nat,
                    images@.len(),
                    Some("jpg"@),
                ),
        decreases images.len() - i,
    {
        names.push(make_numbered_page_name(i + 1, images.len(), Some("jpg")));
        i = i + 1;
    }
    Ok(DecodedPdf { images, names })
}

} // verus!
