//! The rules on the settings stored with an image: which filter and dither
//! names are known, what replaces an unknown one, and which stored settings
//! belong to no image any more.

use vstd::prelude::*;
use vstd::string::{StrSliceExecFns, StringExecFns};

use crate::config::{join_path, joined};
use crate::text::{concat2, ends_with, has_suffix, owned_text_view, same_text};

verus! {

/// Brightness when none is stored.
pub const DEFAULT_BRIGHTNESS: i32 = 0;

/// Contrast when none is stored.
pub const DEFAULT_CONTRAST: i32 = 0;

/// The filter used when none, or an unknown one, is stored.
pub open spec fn default_filter_text() -> Seq<char> {
    "bicubic"@
}

/// The dither algorithm used when none, or an unknown one, is stored.
pub open spec fn default_dither_text() -> Seq<char> {
    "floyd-steinberg"@
}

/// The filter names that are recognized.
pub open spec fn valid_filter(filter: Seq<char>) -> bool {
    filter == "bicubic"@ || filter == "lanczos"@ || filter == "mitchell"@ || filter == "bilinear"@
        || filter == "nearest"@
}

/// The dither algorithm names that are recognized.
pub open spec fn valid_dither_algorithm(algorithm: Seq<char>) -> bool {
    algorithm == "floyd-steinberg"@ || algorithm == "atkinson"@ || algorithm == "ordered"@
}

/// The filter that is used for a stored filter name.
pub open spec fn effective_filter(stored: Seq<char>) -> Seq<char> {
    if valid_filter(stored) {
        stored
    } else {
        default_filter_text()
    }
}

/// The dither algorithm that is used for a stored name.
pub open spec fn effective_dither_algorithm(stored: Seq<char>) -> Seq<char> {
    if valid_dither_algorithm(stored) {
        stored
    } else {
        default_dither_text()
    }
}

/// The default filter name.
pub fn default_filter() -> (filter: String)
    ensures
        filter@ == default_filter_text(),
{
    String::from_str("bicubic")
}

/// The default brightness.
pub fn default_brightness() -> (brightness: i32)
    ensures
        brightness == DEFAULT_BRIGHTNESS,
{
    DEFAULT_BRIGHTNESS
}

/// The default contrast.
pub fn default_contrast() -> (contrast: i32)
    ensures
        contrast == DEFAULT_CONTRAST,
{
    DEFAULT_CONTRAST
}

/// The default dither algorithm name.
pub fn default_dither_algorithm() -> (algorithm: String)
    ensures
        algorithm@ == default_dither_text(),
{
    String::from_str("floyd-steinberg")
}

/// Validates if a filter name is recognized.
pub fn is_valid_filter(filter: &str) -> (valid: bool)
    ensures
        valid == valid_filter(filter@),
{
    same_text(filter, "bicubic") || same_text(filter, "lanczos") || same_text(filter, "mitchell")
        || same_text(filter, "bilinear") || same_text(filter, "nearest")
}

/// Validates if a dither algorithm is recognized.
pub fn is_valid_dither_algorithm(algorithm: &str) -> (valid: bool)
    ensures
        valid == valid_dither_algorithm(algorithm@),
{
    same_text(algorithm, "floyd-steinberg") || same_text(algorithm, "atkinson") || same_text(
        algorithm,
        "ordered",
    )
}

/// Gets the filter preference for an image from the filter stored with it:
/// the stored filter if it is recognized, else the default.
pub fn get_filter_for_image(stored_filter: &str) -> (filter: String)
    ensures
        filter@ == effective_filter(stored_filter@),
{
    if is_valid_filter(stored_filter) {
        String::from_str(stored_filter)
    } else {
        default_filter()
    }
}

/// Gets the dither algorithm for an image from the one stored with it: the
/// stored algorithm if it is recognized, else the default.
pub fn get_dither_algorithm_for_image(stored_algorithm: &str) -> (algorithm: String)
    ensures
        algorithm@ == effective_dither_algorithm(stored_algorithm@),
{
    if is_valid_dither_algorithm(stored_algorithm) {
        String::from_str(stored_algorithm)
    } else {
        default_dither_algorithm()
    }
}

/// The name of the settings file of an image.
pub open spec fn metadata_file_name_text(filename: Seq<char>) -> Seq<char> {
    filename + ".json"@
}

/// The image that a settings file is for: the file's name without its
/// `.json` ending; none for a file without that ending.
pub open spec fn metadata_image_name(file_name: Seq<char>) -> Option<Seq<char>> {
    if has_suffix(file_name, ".json"@) {
        Some(file_name.take(file_name.len() - ".json"@.len()))
    } else {
        None
    }
}

/// Returns the path to a metadata file for a given image filename.
pub fn get_metadata_path(metadata_dir: &str, filename: &str) -> (path: String)
    ensures
        path@ == joined(metadata_dir@, metadata_file_name_text(filename@)),
{
    let name = concat2(filename, ".json");
    join_path(metadata_dir, name.as_str())
}

/// The image that a file of the metadata directory holds the settings of.
pub fn image_of_metadata_file(file_name: &str) -> (image: Option<String>)
    ensures
        owned_text_view(image) == metadata_image_name(file_name@),
{
    if ends_with(file_name, ".json") {
        let len = file_name.unicode_len();
        let ending = ".json".unicode_len();
        let stem = file_name.substring_char(0, len - ending);
        assert(stem@ =~= file_name@.take(file_name@.len() - ".json"@.len()));
        Some(String::from_str(stem))
    } else {
        None
    }
}

/// Whether `name` is one of `names`.
pub open spec fn listed(names: Seq<String>, name: Seq<char>) -> bool {
    exists|i: int| 0 <= i < names.len() && (#[trigger] names[i])@ == name
}

/// Whether `name` is one of `names`.
pub fn contains_name(names: &Vec<String>, name: &String) -> (found: bool)
    ensures
        found == listed(names@, name@),
{
    let mut i: usize = 0;
    while i < names.len()
        invariant
            i <= names@.len(),
            forall|k: int| 0 <= k < i ==> (#[trigger] names@[k])@ != name@,
        decreases names@.len() - i,
    {
        if names[i] == *name {
            return true;
        }
        i += 1;
    }
    false
}

/// The images of `metadata_images`, in order, that are not among
/// `existing_images`.
pub open spec fn orphaned(metadata_images: Seq<String>, existing_images: Seq<String>) -> Seq<
    Seq<char>,
>
    decreases metadata_images.len(),
{
    if metadata_images.len() == 0 {
        Seq::empty()
    } else {
        let front = orphaned(metadata_images.drop_last(), existing_images);
        if listed(existing_images, metadata_images.last()@) {
            front
        } else {
            front.push(metadata_images.last()@)
        }
    }
}

/// Picks the images whose stored settings are to be removed: those that
/// have settings and no longer exist. The number of files to remove is the
/// length of the result.
pub fn cleanup_orphaned_metadata(
    metadata_images: &Vec<String>,
    existing_images: &Vec<String>,
) -> (orphans: Vec<String>)
    ensures
        orphans@.map_values(|name: String| name@) == orphaned(
            metadata_images@,
            existing_images@,
        ),
{
    let mut orphans: Vec<String> = Vec::new();
    let mut i: usize = 0;
    assert(metadata_images@.take(0) =~= Seq::<String>::empty());
    assert(orphans@.map_values(|name: String| name@) =~= Seq::<Seq<char>>::empty());
    while i < metadata_images.len()
        invariant
            i <= metadata_images@.len(),
            orphans@.map_values(|name: String| name@) == orphaned(
                metadata_images@.take(i as int),
                existing_images@,
            ),
        decreases metadata_images@.len() - i,
    {
        let ghost before = orphans@.map_values(|name: String| name@);
        proof {
            let next = metadata_images@.take(i as int + 1);
            assert(next.drop_last() =~= metadata_images@.take(i as int));
            assert(next.last() == metadata_images@[i as int]);
        }
        if !contains_name(existing_images, &metadata_images[i]) {
            let name = metadata_images[i].clone();
            orphans.push(name);
            assert(orphans@.map_values(|name: String| name@) =~= before.push(
                metadata_images@[i as int]@,
            ));
        }
        i += 1;
    }
    assert(metadata_images@.take(i as int) =~= metadata_images@);
    orphans
}

} // verus!
