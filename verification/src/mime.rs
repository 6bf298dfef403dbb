//! The MIME classifier: maps a MIME-type string to a canonical file
//! extension by substring containment against fixed tokens, first match
//! winning, defaulting to png.

use vstd::prelude::*;

use crate::text::spec_contains;
use crate::text::contains_str;

verus! {

/// The closed set of extensions an image artifact can carry.
#[derive(Clone, Copy, Debug, PartialEq, Eq, Structural)]
pub enum ImageExt {
    Png,
    Jpg,
    Gif,
    Webp,
}

/// What `classify` returns: the fixed priority order over the fixed tokens,
/// with png as the default when nothing matches.
pub open spec fn spec_classify(m: Seq<char>) -> ImageExt {
    if spec_contains(m, "png"@) {
        ImageExt::Png
    } else if spec_contains(m, "jpeg"@) || spec_contains(m, "jpg"@) {
        ImageExt::Jpg
    } else if spec_contains(m, "gif"@) {
        ImageExt::Gif
    } else if spec_contains(m, "webp"@) {
        ImageExt::Webp
    } else {
        ImageExt::Png
    }
}

/// The characters of the extension itself.
pub open spec fn ext_chars(e: ImageExt) -> Seq<char> {
    match e {
        ImageExt::Png => "png"@,
        ImageExt::Jpg => "jpg"@,
        ImageExt::Gif => "gif"@,
        ImageExt::Webp => "webp"@,
    }
}

/// Maps a MIME-type string to a file extension. Total over all strings and
/// deterministic: the result is exactly `spec_classify` of the input.
pub fn classify(mime_type: &str) -> (e: ImageExt)
    ensures
        e == spec_classify(mime_type@),
{
    if contains_str(mime_type, "png") {
        ImageExt::Png
    } else if contains_str(mime_type, "jpeg") || contains_str(mime_type, "jpg") {
        ImageExt::Jpg
    } else if contains_str(mime_type, "gif") {
        ImageExt::Gif
    } else if contains_str(mime_type, "webp") {
        ImageExt::Webp
    } else {
        ImageExt::Png
    }
}

/// The extension as a string, for building an artifact filename.
pub fn extension_str(e: ImageExt) -> (s: &'static str)
    ensures
        s@ == ext_chars(e),
{
    match e {
        ImageExt::Png => "png",
        ImageExt::Jpg => "jpg",
        ImageExt::Gif => "gif",
        ImageExt::Webp => "webp",
    }
}

/// A MIME-type string in which none of the fixed tokens occurs is classified
/// as png: an artifact is always written with a plausible extension.
pub proof fn lemma_classify_default(m: Seq<char>)
    requires
        !spec_contains(m, "png"@),
        !spec_contains(m, "jpeg"@),
        !spec_contains(m, "jpg"@),
        !spec_contains(m, "gif"@),
        !spec_contains(m, "webp"@),
    ensures
        spec_classify(m) == ImageExt::Png,
{
}

} // verus!
