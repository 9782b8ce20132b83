//! Where the server keeps its files. The images directory and the data
//! directory come from the environment; the caller reads it and hands the
//! values in. Paths are texts whose components are separated by `/`.

use std::path::Path;
use vstd::prelude::*;
use vstd::string::{StrSliceExecFns, StringExecFns};

use crate::text::{concat2, has_prefix, same_text, starts_with, text_view};

verus! {

/// `child` adjoined to `base`: a child that starts at the root stands for
/// itself; otherwise it follows the base, after a `/` unless the base is
/// empty or ends in one.
pub open spec fn joined(base: Seq<char>, child: Seq<char>) -> Seq<char> {
    if child.len() > 0 && child[0] == '/' {
        child
    } else if base.len() > 0 && base.last() != '/' {
        base + seq!['/'] + child
    } else {
        base + child
    }
}

/// Adjoins `child` to `base`.
pub fn join_path(base: &str, child: &str) -> (path: String)
    ensures
        path@ == joined(base@, child@),
{
    proof {
        reveal_strlit("/");
    }
    let child_len = child.unicode_len();
    if child_len > 0 && child.get_char(0) == '/' {
        return String::from_str(child);
    }
    let base_len = base.unicode_len();
    let mut path = String::from_str(base);
    if base_len > 0 && base.get_char(base_len - 1) != '/' {
        path.append("/");
        assert("/"@ =~= seq!['/']);
    }
    path.append(child);
    path
}

/// Reads the final component of a path with `Path::file_name`, as text.
/// Nothing is claimed of the result: what counts as a component is for the
/// platform to say.
#[verifier::external_body]
pub(crate) fn file_name_of(path: &str) -> (name: Option<String>) {
    Some(Path::new(path).file_name()?.to_str()?.to_owned())
}

/// Reads the parent of a path with `Path::parent`, as text. Nothing is
/// claimed of the result: what counts as a component is for the platform to
/// say.
#[verifier::external_body]
pub(crate) fn parent_of(path: &str) -> (parent: Option<String>) {
    Some(Path::new(path).parent()?.to_str()?.to_owned())
}

/// The images directory when none is configured.
pub open spec fn default_images_dir() -> Seq<char> {
    "static/images"@
}

/// Base directory for image storage: the configured one, else `static/images`.
pub fn images_dir(configured: Option<&str>) -> (dir: String)
    ensures
        dir@ == (match configured {
            Some(path) => path@,
            None => default_images_dir(),
        }),
{
    match configured {
        Some(path) => String::from_str(path),
        None => String::from_str("static/images"),
    }
}

/// The data directory for the given facts: the configured one; else the
/// parent of an images directory whose last component is `images`, or that
/// directory itself where it has no parent; else the images directory.
pub open spec fn chosen_data_dir(
    configured: Option<Seq<char>>,
    images_dir: Seq<char>,
    images_name: Option<Seq<char>>,
    images_parent: Option<Seq<char>>,
) -> Seq<char> {
    match configured {
        Some(path) => path,
        None => {
            if images_name == Some("images"@) {
                match images_parent {
                    Some(parent) => parent,
                    None => images_dir,
                }
            } else {
                images_dir
            }
        },
    }
}

/// Chooses the data directory from the configured value, the images
/// directory, and the last component and the parent of the images directory.
pub fn choose_data_dir(
    configured: Option<&str>,
    images_dir: &str,
    images_name: Option<&str>,
    images_parent: Option<&str>,
) -> (dir: String)
    ensures
        dir@ == chosen_data_dir(
            text_view(configured),
            images_dir@,
            text_view(images_name),
            text_view(images_parent),
        ),
{
    match configured {
        Some(path) => String::from_str(path),
        None => {
            let named_images = match images_name {
                Some(name) => same_text(name, "images"),
                None => false,
            };
            if named_images {
                match images_parent {
                    Some(parent) => String::from_str(parent),
                    None => String::from_str(images_dir),
                }
            } else {
                String::from_str(images_dir)
            }
        },
    }
}

/// Base directory for writable runtime data: the configured one, else what
/// follows from the last component and the parent of the images directory.
pub fn data_dir(configured: Option<&str>, images_dir: &str) -> (dir: String)
    ensures
        exists|images_name: Option<Seq<char>>, images_parent: Option<Seq<char>>|
            dir@ == chosen_data_dir(text_view(configured), images_dir@, images_name, images_parent),
{
    let name = file_name_of(images_dir);
    let parent = parent_of(images_dir);
    let images_name: Option<&str> = match &name {
        Some(n) => Some(n.as_str()),
        None => None,
    };
    let images_parent: Option<&str> = match &parent {
        Some(p) => Some(p.as_str()),
        None => None,
    };
    choose_data_dir(configured, images_dir, images_name, images_parent)
}

/// Path to the cache directory.
pub fn cache_dir(images_dir: &str) -> (path: String)
    ensures
        path@ == joined(images_dir@, "cache"@),
{
    join_path(images_dir, "cache")
}

/// Path to the thumbnails directory.
pub fn thumbs_dir(images_dir: &str) -> (path: String)
    ensures
        path@ == joined(images_dir@, "thumbs"@),
{
    join_path(images_dir, "thumbs")
}

/// Path to the dithered images directory.
pub fn dithered_dir(images_dir: &str) -> (path: String)
    ensures
        path@ == joined(images_dir@, "dithered"@),
{
    join_path(images_dir, "dithered")
}

/// Path to the metadata directory.
pub fn metadata_dir(images_dir: &str) -> (path: String)
    ensures
        path@ == joined(images_dir@, "metadata"@),
{
    join_path(images_dir, "metadata")
}

/// Path to the runtime settings directory.
pub fn settings_dir(data_dir: &str) -> (path: String)
    ensures
        path@ == joined(data_dir@, "settings"@),
{
    join_path(data_dir, "settings")
}

/// Path to persisted runtime display settings.
pub fn display_runtime_settings_path(data_dir: &str) -> (path: String)
    ensures
        path@ == joined(joined(data_dir@, "settings"@), "display-runtime.json"@),
{
    let dir = settings_dir(data_dir);
    join_path(dir.as_str(), "display-runtime.json")
}

/// Get the full path for a cached image.
pub fn cache_path(images_dir: &str, filename: &str) -> (path: String)
    ensures
        path@ == joined(joined(images_dir@, "cache"@), filename@ + ".png"@),
{
    let dir = cache_dir(images_dir);
    let name = concat2(filename, ".png");
    join_path(dir.as_str(), name.as_str())
}

/// Get the full path for a thumbnail.
pub fn thumb_path(images_dir: &str, filename: &str) -> (path: String)
    ensures
        path@ == joined(joined(images_dir@, "thumbs"@), filename@ + ".png"@),
{
    let dir = thumbs_dir(images_dir);
    let name = concat2(filename, ".png");
    join_path(dir.as_str(), name.as_str())
}

/// Get the full path for a dithered image.
pub fn dithered_path(images_dir: &str, filename: &str) -> (path: String)
    ensures
        path@ == joined(joined(images_dir@, "dithered"@), filename@ + ".png"@),
{
    let dir = dithered_dir(images_dir);
    let name = concat2(filename, ".png");
    join_path(dir.as_str(), name.as_str())
}

/// Get the full path for an original image.
pub fn original_path(images_dir: &str, filename: &str) -> (path: String)
    ensures
        path@ == joined(images_dir@, filename@),
{
    join_path(images_dir, filename)
}

/// The directories that have to exist, in the order in which they are made.
pub open spec fn required_dir_texts(images_dir: Seq<char>, data_dir: Seq<char>) -> Seq<Seq<char>> {
    seq![
        images_dir,
        joined(images_dir, "cache"@),
        joined(images_dir, "thumbs"@),
        joined(images_dir, "dithered"@),
        joined(images_dir, "metadata"@),
        joined(data_dir, "settings"@),
    ]
}

/// Get all directories that need to exist for the server to function.
pub fn required_dirs(images_dir: &str, data_dir: &str) -> (dirs: Vec<String>)
    ensures
        dirs@.map_values(|dir: String| dir@) == required_dir_texts(images_dir@, data_dir@),
{
    let mut dirs: Vec<String> = Vec::new();
    dirs.push(String::from_str(images_dir));
    dirs.push(cache_dir(images_dir));
    dirs.push(thumbs_dir(images_dir));
    dirs.push(dithered_dir(images_dir));
    dirs.push(metadata_dir(images_dir));
    dirs.push(settings_dir(data_dir));
    assert(dirs@.map_values(|dir: String| dir@) =~= required_dir_texts(images_dir@, data_dir@));
    dirs
}

/// Whether `needle` stands in `text` at index `at`.
pub open spec fn occurs_at(text: Seq<char>, needle: Seq<char>, at: int) -> bool {
    0 <= at && at + needle.len() <= text.len() && text.subrange(at, at + needle.len()) == needle
}

/// The URL path of a file: what follows a leading `static/`; without that
/// prefix, the path from its first `images/` on; without either, the path
/// itself.
pub open spec fn url_path_text(fs_path: Seq<char>) -> Seq<char> {
    if has_prefix(fs_path, "static/"@) {
        fs_path.skip("static/"@.len() as int)
    } else if exists|at: int| occurs_at(fs_path, "images/"@, at) {
        let first = choose|at: int|
            occurs_at(fs_path, "images/"@, at) && forall|before: int|
                0 <= before < at ==> !occurs_at(fs_path, "images/"@, before);
        fs_path.skip(first)
    } else {
        fs_path
    }
}

/// Get the URL path for serving an image (relative to static mount).
/// This strips the "static/" prefix if present for URL generation.
pub fn url_path(fs_path: &str) -> (url: String)
    ensures
        url@ == url_path_text(fs_path@),
{
    let len = fs_path.unicode_len();
    let prefix_len = "static/".unicode_len();
    if starts_with(fs_path, "static/") {
        let rest = fs_path.substring_char(prefix_len, len);
        assert(rest@ =~= fs_path@.skip("static/"@.len() as int));
        return String::from_str(rest);
    }
    let needle_len = "images/".unicode_len();
    proof {
        reveal_strlit("images/");
    }
    let mut at: usize = 0;
    while at < len && needle_len <= len - at
        invariant
            len == fs_path@.len(),
            needle_len == "images/"@.len(),
            !has_prefix(fs_path@, "static/"@),
            at <= len,
            forall|before: int| 0 <= before < at ==> !occurs_at(fs_path@, "images/"@, before),
        decreases len - at,
    {
        if same_text(fs_path.substring_char(at, at + needle_len), "images/") {
            let rest = fs_path.substring_char(at, len);
            proof {
                let found = at as int;
                assert(occurs_at(fs_path@, "images/"@, found));
                let first = choose|first: int|
                    occurs_at(fs_path@, "images/"@, first) && forall|before: int|
                        0 <= before < first ==> !occurs_at(fs_path@, "images/"@, before);
                assert(first == found) by {
                    if first < found {
                        assert(!occurs_at(fs_path@, "images/"@, first));
                    } else if found < first {
                        assert(!occurs_at(fs_path@, "images/"@, found));
                    }
                }
                assert(rest@ =~= fs_path@.skip(found));
            }
            return String::from_str(rest);
        }
        at += 1;
    }
    assert forall|any: int| !occurs_at(fs_path@, "images/"@, any) by {
        if occurs_at(fs_path@, "images/"@, any) {
            assert(any < at);
        }
    }
    String::from_str(fs_path)
}

} // verus!
