use vstd::prelude::*;
use vstd::string::*;
use crate::text::{ends_with, lower_of, lowercase, str_ends_with, str_equal};

verus! {

pub open spec fn apng_suffix() -> Seq<char> {
    seq!['.', 'a', 'p', 'n', 'g']
}

pub open spec fn png_suffix() -> Seq<char> {
    seq!['.', 'p', 'n', 'g']
}

pub open spec fn webp_suffix() -> Seq<char> {
    seq!['.', 'w', 'e', 'b', 'p']
}

pub open spec fn gif_suffix() -> Seq<char> {
    seq!['.', 'g', 'i', 'f']
}

/// The name of the file system metadata file that a listing skips.
pub open spec fn metadata_file_name() -> Seq<char> {
    seq!['d', 's', '_', 's', 't', 'o', 'r', 'e']
}

/// Whether an already lowercased name carries one of the playable extensions.
pub open spec fn has_media_extension(lower: Seq<char>) -> bool {
    ends_with(lower, apng_suffix()) || ends_with(lower, png_suffix()) || ends_with(
        lower,
        webp_suffix(),
    ) || ends_with(lower, gif_suffix())
}

/// Whether an already lowercased file name is a media file worth keeping:
/// not hidden, not the metadata file, and with a playable extension.
pub open spec fn is_valid_media_name(lower: Seq<char>) -> bool {
    &&& !(lower.len() > 0 && lower[0] == '.')
    &&& lower != metadata_file_name()
    &&& has_media_extension(lower)
}

/// Whether a path has a playable extension, ignoring case.
pub open spec fn accepts_path(path: Seq<char>) -> bool {
    has_media_extension(lower_of(path))
}

/// Whether a path names an animated PNG, ignoring case.
pub open spec fn is_apng_path(path: Seq<char>) -> bool {
    ends_with(lower_of(path), apng_suffix())
}

pub fn ends_with_apng(lower: &str) -> (r: bool)
    ensures
        r == ends_with(lower@, apng_suffix()),
{
    proof {
        reveal_strlit(".apng");
    }
    assert(".apng"@ =~= apng_suffix());
    str_ends_with(lower, ".apng")
}

/// Extension test on a name that the caller has already lowercased.
pub fn has_media_extension_folded(lower: &str) -> (r: bool)
    ensures
        r == has_media_extension(lower@),
{
    proof {
        reveal_strlit(".png");
        reveal_strlit(".webp");
        reveal_strlit(".gif");
    }
    assert(".png"@ =~= png_suffix());
    assert(".webp"@ =~= webp_suffix());
    assert(".gif"@ =~= gif_suffix());
    ends_with_apng(lower) || str_ends_with(lower, ".png") || str_ends_with(lower, ".webp")
        || str_ends_with(lower, ".gif")
}

/// Validity test on a file name that the caller has already lowercased.
pub fn is_valid_media_name_folded(lower: &str) -> (r: bool)
    ensures
        r == is_valid_media_name(lower@),
{
    if lower.unicode_len() > 0 && lower.get_char(0) == '.' {
        return false;
    }
    proof {
        reveal_strlit("ds_store");
    }
    assert("ds_store"@ =~= metadata_file_name());
    if str_equal(lower, "ds_store") {
        return false;
    }
    has_media_extension_folded(lower)
}

/// Whether a directory entry is a media file to keep: its lowercased name
/// does not start with a dot, is not the metadata file name, and ends in
/// `.apng`, `.png`, `.webp` or `.gif`.
pub fn is_valid_media_file(filename: &str) -> (r: bool)
    ensures
        r == is_valid_media_name(lower_of(filename@)),
{
    let lower = lowercase(filename);
    is_valid_media_name_folded(lower.as_str())
}

/// Whether a path has a playable extension, ignoring case.
pub fn has_media_extension_of(path: &str) -> (r: bool)
    ensures
        r == accepts_path(path@),
{
    let lower = lowercase(path);
    has_media_extension_folded(lower.as_str())
}

/// Whether a path names an animated PNG, which must be converted before it can be played.
pub fn needs_conversion(path: &str) -> (r: bool)
    ensures
        r == is_apng_path(path@),
{
    let lower = lowercase(path);
    ends_with_apng(lower.as_str())
}

} // verus!
