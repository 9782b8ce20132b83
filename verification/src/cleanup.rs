//! The rules of the cleanup pass: which files of the images directory are
//! original images, and which derived files have lost theirs.

use vstd::prelude::*;
use vstd::string::{StrSliceExecFns, StringExecFns};

use crate::cache_worker::{has_json_extension, is_json_file_name};
use crate::metadata::{contains_name, listed};
use crate::text::{ends_with, has_suffix, text_view};

verus! {

/// Seconds between two cleanup passes.
pub const CLEANUP_INTERVAL_SECS: u64 = 300;

/// Whether a listed path is an original image: a file, not a directory,
/// whose name is text and does not have the extension `json`.
pub open spec fn original_image(is_dir: bool, file_name: Option<Seq<char>>) -> bool {
    !is_dir && file_name is Some && !has_json_extension(file_name->0)
}

/// Whether a listed path counts as an original image.
pub fn is_original_image(is_dir: bool, file_name: Option<&str>) -> (original: bool)
    ensures
        original == original_image(is_dir, text_view(file_name)),
{
    match file_name {
        Some(name) => !is_dir && !is_json_file_name(name),
        None => false,
    }
}

/// Whether a derived file is to be removed: its name is not text, or does
/// not end in `.png`, or what stands before that ending is not the name of
/// an original image.
pub open spec fn orphaned_derived_file(file_name: Option<Seq<char>>, originals: Seq<String>) -> bool {
    match file_name {
        Some(name) => !has_suffix(name, ".png"@) || !listed(
            originals,
            name.take(name.len() - ".png"@.len()),
        ),
        None => true,
    }
}

/// Determines if a derived file should be removed.
pub fn should_remove_derived_file(file_name: Option<&str>, originals: &Vec<String>) -> (remove:
    bool)
    ensures
        remove == orphaned_derived_file(text_view(file_name), originals@),
{
    match file_name {
        Some(name) => {
            if !ends_with(name, ".png") {
                return true;
            }
            let len = name.unicode_len();
            let ending = ".png".unicode_len();
            let stem = name.substring_char(0, len - ending);
            assert(stem@ =~= name@.take(name@.len() - ".png"@.len()));
            let original_name = String::from_str(stem);
            !contains_name(originals, &original_name)
        },
        None => true,
    }
}

/// Whether a file name has the extension `png`, in any mix of upper and
/// lower case: it ends in a dot and these three letters, and something
/// stands before the dot.
pub open spec fn has_png_extension(file_name: Seq<char>) -> bool {
    let len = file_name.len() as int;
    &&& len > 4
    &&& file_name[len - 4] == '.'
    &&& (file_name[len - 3] == 'p' || file_name[len - 3] == 'P')
    &&& (file_name[len - 2] == 'n' || file_name[len - 2] == 'N')
    &&& (file_name[len - 1] == 'g' || file_name[len - 1] == 'G')
}

/// Whether a file of a derived directory is one of the PNG files that an
/// invalidation removes.
pub fn is_png_file_name(file_name: &str) -> (png: bool)
    ensures
        png == has_png_extension(file_name@),
{
    let len = file_name.unicode_len();
    if len <= 4 {
        return false;
    }
    let dot = file_name.get_char(len - 4);
    let p = file_name.get_char(len - 3);
    let n = file_name.get_char(len - 2);
    let g = file_name.get_char(len - 1);
    dot == '.' && (p == 'p' || p == 'P') && (n == 'n' || n == 'N') && (g == 'g' || g == 'G')
}

} // verus!
