//! File extensions: which ones name an image, and which ones name a comic
//! book that can be decoded.

use vstd::prelude::*;
use crate::text::{chars_of, lowercase_of, to_lowercase, string_of, spells};

verus! {

/// The position of the last `c` in `s`, or -1 if there is none.
pub open spec fn last_index_of(s: Seq<char>, c: char) -> int
    decreases s.len(),
{
    if s.len() == 0 {
        -1
    } else if s.last() == c {
        s.len() - 1
    } else {
        last_index_of(s.drop_last(), c)
    }
}

/// The extension of a file name: what follows its last dot. A name without
/// a dot has none, nor has a name whose only dot is its first character, nor
/// has the parent directory's name `..`.
pub open spec fn extension(file_name: Seq<char>) -> Option<Seq<char>> {
    let dot = last_index_of(file_name, '.');
    if dot <= 0 || file_name == seq!['.', '.'] {
        None
    } else {
        Some(file_name.skip(dot + 1))
    }
}

/// The stem of a file name: the name without its extension and the dot
/// before it.
pub open spec fn file_stem(file_name: Seq<char>) -> Seq<char> {
    if extension(file_name) is Some {
        file_name.take(last_index_of(file_name, '.'))
    } else {
        file_name
    }
}

/// The last index of a character is a position of that character, and none
/// follows it.
pub proof fn lemma_last_index_of(s: Seq<char>, c: char)
    ensures
        -1 <= last_index_of(s, c) < s.len(),
        last_index_of(s, c) >= 0 ==> s[last_index_of(s, c)] == c,
        forall|i: int| last_index_of(s, c) < i < s.len() ==> s[i] != c,
    decreases s.len(),
{
    if s.len() > 0 && s.last() != c {
        lemma_last_index_of(s.drop_last(), c);
        assert forall|i: int| last_index_of(s, c) < i < s.len() implies s[i] != c by {
            if i < s.len() - 1 {
                assert(s.drop_last()[i] == s[i]);
            }
        }
        if last_index_of(s, c) >= 0 {
            assert(s.drop_last()[last_index_of(s, c)] == s[last_index_of(s, c)]);
        }
    }
}

/// A position of `c` that no other `c` follows is the last index of `c`.
pub proof fn lemma_last_index_is(s: Seq<char>, c: char, at: int)
    requires
        -1 <= at < s.len(),
        at >= 0 ==> s[at] == c,
        forall|i: int| at < i < s.len() ==> s[i] != c,
    ensures
        last_index_of(s, c) == at,
    decreases s.len(),
{
    if s.len() > 0 && at < s.len() - 1 {
        assert(s.last() == s[s.len() - 1]);
        let rest = s.drop_last();
        assert forall|i: int| at < i < rest.len() implies rest[i] != c by {
            assert(rest[i] == s[i]);
        }
        if at >= 0 {
            assert(rest[at] == s[at]);
        }
        lemma_last_index_is(rest, c, at);
    }
}

/// The position of the last dot of a name, if it has one.
pub fn find_last_dot(name: &[char]) -> (dot: Option<usize>)
    ensures
        match dot {
            Some(at) => at == last_index_of(name@, '.') && at < name.len(),
            None => last_index_of(name@, '.') == -1,
        },
{
    let mut at: usize = name.len();
    while at > 0
        invariant
            at <= name.len(),
            forall|i: int| at <= i < name.len() ==> name@[i] != '.',
        decreases at,
    {
        if name[at - 1] == '.' {
            proof {
                lemma_last_index_is(name@, '.', at - 1);
            }
            return Some(at - 1);
        }
        at = at - 1;
    }
    proof {
        lemma_last_index_is(name@, '.', -1);
    }
    None
}

/// The extension of a file name, as in `extension`.
pub fn extension_of(file_name: &str) -> (ext: Option<String>)
    ensures
        match ext {
            Some(e) => extension(file_name@) == Some(e@),
            None => extension(file_name@) is None,
        },
{
    let chars = chars_of(file_name);
    match find_last_dot(chars.as_slice()) {
        None => None,
        Some(dot) => {
            if dot == 0 || (chars.len() == 2 && chars[0] == '.' && chars[1] == '.') {
                assert(chars.len() == 2 && chars@[0] == '.' && chars@[1] == '.' ==> chars@
                    =~= seq!['.', '.']);
                None
            } else {
                assert(chars@ != seq!['.', '.']) by {
                    if chars@ == seq!['.', '.'] {
                        assert(seq!['.', '.'].len() == 2);
                        assert(seq!['.', '.'][0] == '.' && seq!['.', '.'][1] == '.');
                    }
                }
                assert(chars@.skip(dot as int + 1) =~= chars@.subrange(
                    dot as int + 1,
                    chars@.len() as int,
                ));
                Some(string_of(chars.as_slice(), dot + 1, chars.len()))
            }
        },
    }
}

/// Whether `ext`, in lowercase, is the extension of a widely supported image
/// format.
pub open spec fn is_common_image_extension(ext: Seq<char>) -> bool {
    ||| ext == "jpg"@
    ||| ext == "jpeg"@
    ||| ext == "png"@
    ||| ext == "bmp"@
}

/// Whether `ext`, in lowercase, is the extension of an image format that not
/// every reader supports.
pub open spec fn is_extended_image_extension(ext: Seq<char>) -> bool {
    ||| ext == "tif"@
    ||| ext == "tiff"@
    ||| ext == "gif"@
    ||| ext == "eps"@
    ||| ext == "raw"@
    ||| ext == "cr2"@
    ||| ext == "nef"@
    ||| ext == "orf"@
    ||| ext == "sr2"@
    ||| ext == "ppm"@
    ||| ext == "webp"@
    ||| ext == "pgm"@
    ||| ext == "pbm"@
    ||| ext == "pnm"@
    ||| ext == "ico"@
    ||| ext == "flif"@
    ||| ext == "pam"@
    ||| ext == "pcx"@
    ||| ext == "pgf"@
    ||| ext == "sgi"@
    ||| ext == "sid"@
    ||| ext == "bgp"@
}

/// Whether a lowercase extension names an image: a common format, or, where
/// `extended` is set, one of the extended formats.
pub open spec fn is_image_extension(ext: Seq<char>, extended: bool) -> bool {
    is_common_image_extension(ext) || (extended && is_extended_image_extension(ext))
}

/// Whether a file name has an image's extension, whatever its case.
pub open spec fn names_image(file_name: Seq<char>, extended: bool) -> bool {
    match extension(file_name) {
        Some(ext) => is_image_extension(lowercase_of(ext), extended),
        None => false,
    }
}

fn common_image_extension(ext: &[char]) -> (common: bool)
    ensures
        common == is_common_image_extension(ext@),
{
    spells(ext, "jpg")
        || spells(ext, "jpeg")
        || spells(ext, "png")
        || spells(ext, "bmp")
}

fn extended_image_extension(ext: &[char]) -> (extended: bool)
    ensures
        extended == is_extended_image_extension(ext@),
{
    spells(ext, "tif")
        || spells(ext, "tiff")
        || spells(ext, "gif")
        || spells(ext, "eps")
        || spells(ext, "raw")
        || spells(ext, "cr2")
        || spells(ext, "nef")
        || spells(ext, "orf")
        || spells(ext, "sr2")
        || spells(ext, "ppm")
        || spells(ext, "webp")
        || spells(ext, "pgm")
        || spells(ext, "pbm")
        || spells(ext, "pnm")
        || spells(ext, "ico")
        || spells(ext, "flif")
        || spells(ext, "pam")
        || spells(ext, "pcx")
        || spells(ext, "pgf")
        || spells(ext, "sgi")
        || spells(ext, "sid")
        || spells(ext, "bgp")
}

/// Whether the extension `ext`, given in lowercase, names an image format.
/// Formats that not every reader supports count only where `extended` is
/// set.
pub fn accepts_image_extension(ext: &str, extended: bool) -> (accepted: bool)
    ensures
        accepted == is_image_extension(ext@, extended),
{
    let chars = chars_of(ext);
    common_image_extension(chars.as_slice()) || (extended && extended_image_extension(
        chars.as_slice(),
    ))
}

/// Whether a file name has a common image format's extension, in any case.
/// Formats that not every reader supports are accepted where `extended` is
/// set.
pub fn has_image_ext(file_name: &str, extended: bool) -> (image: bool)
    ensures
        image == names_image(file_name@, extended),
{
    match extension_of(file_name) {
        None => false,
        Some(ext) => {
            let folded = to_lowercase(ext.as_str());
            accepts_image_extension(folded.as_str(), extended)
        },
    }
}

/// The container formats that can be decoded.
#[derive(Clone, Copy, Debug, PartialEq, Eq, Structural)]
pub enum ComicFormat {
    /// A ZIP archive, under the extension `zip` or `cbz`.
    Zip,
    /// A PDF document.
    Pdf,
}

/// The format that an extension stands for, if it is written exactly as
/// `zip`, `cbz` or `pdf`.
pub open spec fn comic_format(ext: Seq<char>) -> Option<ComicFormat> {
    if ext == "zip"@ || ext == "cbz"@ {
        Some(ComicFormat::Zip)
    } else if ext == "pdf"@ {
        Some(ComicFormat::Pdf)
    } else {
        None
    }
}

/// The format that an extension stands for; the extension is taken as it is
/// written.
pub fn comic_format_of(ext: &str) -> (format: Option<ComicFormat>)
    ensures
        format == comic_format(ext@),
{
    let chars = chars_of(ext);
    if spells(chars.as_slice(), "zip") || spells(chars.as_slice(), "cbz") {
        Some(ComicFormat::Zip)
    } else if spells(chars.as_slice(), "pdf") {
        Some(ComicFormat::Pdf)
    } else {
        None
    }
}

/// Whether a comic book with this extension, in any case, is supported for
/// decoding.
pub fn is_supported_for_decoding(ext: &str) -> (supported: bool)
    ensures
        supported == (comic_format(lowercase_of(ext@)) is Some),
{
    let folded = to_lowercase(ext);
    comic_format_of(folded.as_str()).is_some()
}

} // verus!
