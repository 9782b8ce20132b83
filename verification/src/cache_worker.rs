//! Cache generation: where the cached copy of an image lives, the request
//! that asks the cache worker for one, and the plan that repairs missing
//! caches at startup. The worker and the scan of the disk live outside this
//! library; they hand in what they found.

use vstd::prelude::*;
use vstd::string::StringExecFns;

use crate::config::file_name_of;
use crate::metadata::{effective_filter, get_filter_for_image};
use crate::text::{concat3, ends_with, has_suffix, owned_text_view, text_view};

verus! {

/// Width of the display, in pixels.
pub const DISPLAY_WIDTH: u32 = 600;

/// Height of the display, in pixels.
pub const DISPLAY_HEIGHT: u32 = 448;

/// How many requests the cache worker's channel holds.
pub const CACHE_CHANNEL_CAPACITY: usize = 100;

/// A request to the cache worker.
#[derive(Debug)]
pub enum CacheRequest {
    /// Create the cache of the image at this path with this filter (filter
    /// name as string).
    CreateCache(String, String),
}

/// The mathematical value of a [`CacheRequest`].
pub enum CacheRequestView {
    CreateCache(Seq<char>, Seq<char>),
}

impl View for CacheRequest {
    type V = CacheRequestView;

    open spec fn view(&self) -> CacheRequestView {
        match self {
            CacheRequest::CreateCache(path, filter) => CacheRequestView::CreateCache(
                path@,
                filter@,
            ),
        }
    }
}

/// The name under which an image is cached: its file name, or `unknown`
/// where the path has none.
pub open spec fn cache_name(file_name: Option<Seq<char>>) -> Seq<char> {
    match file_name {
        Some(name) => name,
        None => "unknown"@,
    }
}

/// The path of the cached copy of the image with the given file name.
/// Caches are always saved as PNG regardless of source format.
pub open spec fn cache_path_text(file_name: Option<Seq<char>>) -> Seq<char> {
    "static/images/cache/"@ + cache_name(file_name) + ".png"@
}

/// Gets the cache path for an image with the given file name.
pub fn cache_path_for(file_name: Option<&str>) -> (path: String)
    ensures
        path@ == cache_path_text(text_view(file_name)),
{
    let name = match file_name {
        Some(name) => name,
        None => "unknown",
    };
    concat3("static/images/cache/", name, ".png")
}

/// Gets the cache path for a given original image path: the cache path of
/// the path's final component.
pub fn get_cache_path(original_path: &str) -> (path: String)
    ensures
        exists|file_name: Option<Seq<char>>| path@ == cache_path_text(file_name),
{
    let name = file_name_of(original_path);
    let path = match &name {
        Some(n) => cache_path_for(Some(n.as_str())),
        None => cache_path_for(None),
    };
    assert(path@ == cache_path_text(owned_text_view(name)));
    path
}

/// Whether a file name has the extension `json`: it ends in `.json`, and
/// something stands before that ending.
pub open spec fn has_json_extension(file_name: Seq<char>) -> bool {
    has_suffix(file_name, ".json"@) && file_name.len() > ".json"@.len()
}

/// Whether a file name has the extension `json`.
pub fn is_json_file_name(file_name: &str) -> (json: bool)
    ensures
        json == has_json_extension(file_name@),
{
    ends_with(file_name, ".json") && file_name.unicode_len() > ".json".unicode_len()
}

/// What the startup scan found at one path of the images directory.
#[derive(Debug)]
pub struct ScannedEntry {
    /// The path as it was listed.
    pub path: String,
    /// The final component of the path, where it has one that is text.
    pub file_name: Option<String>,
    /// Whether the path is a directory.
    pub is_dir: bool,
    /// Whether the cached copy of the image exists.
    pub cache_exists: bool,
    /// The filter stored with the image, or the default where none is stored.
    pub stored_filter: String,
}

/// The mathematical value of a [`ScannedEntry`].
pub struct ScannedEntryView {
    pub path: Seq<char>,
    pub file_name: Option<Seq<char>>,
    pub is_dir: bool,
    pub cache_exists: bool,
    pub stored_filter: Seq<char>,
}

impl View for ScannedEntry {
    type V = ScannedEntryView;

    open spec fn view(&self) -> ScannedEntryView {
        ScannedEntryView {
            path: self.path@,
            file_name: owned_text_view(self.file_name),
            is_dir: self.is_dir,
            cache_exists: self.cache_exists,
            stored_filter: self.stored_filter@,
        }
    }
}

/// The views of a list of scanned entries.
pub open spec fn entry_views(entries: Seq<ScannedEntry>) -> Seq<ScannedEntryView> {
    entries.map_values(|entry: ScannedEntry| entry@)
}

/// The views of a list of requests.
pub open spec fn request_views(requests: Seq<CacheRequest>) -> Seq<CacheRequestView> {
    requests.map_values(|request: CacheRequest| request@)
}

/// Whether an entry is a source image: not a directory and not a file with
/// the extension `json`.
pub open spec fn is_source_image(entry: ScannedEntryView) -> bool {
    !entry.is_dir && !(entry.file_name is Some && has_json_extension(entry.file_name->0))
}

/// Whether an entry is a source image whose cache is missing.
pub open spec fn needs_cache(entry: ScannedEntryView) -> bool {
    is_source_image(entry) && !entry.cache_exists
}

/// The request that repairs the cache of an entry: for its path, with the
/// filter stored with it if that is a known one, else with the default.
pub open spec fn repair_request(entry: ScannedEntryView) -> CacheRequestView {
    CacheRequestView::CreateCache(entry.path, effective_filter(entry.stored_filter))
}

/// The requests that repair the missing caches of `entries`, in scan order.
pub open spec fn planned_repairs(entries: Seq<ScannedEntryView>) -> Seq<CacheRequestView>
    decreases entries.len(),
{
    if entries.len() == 0 {
        Seq::empty()
    } else {
        let front = planned_repairs(entries.drop_last());
        if needs_cache(entries.last()) {
            front.push(repair_request(entries.last()))
        } else {
            front
        }
    }
}

/// The number of source images among `entries`.
pub open spec fn source_count(entries: Seq<ScannedEntryView>) -> nat
    decreases entries.len(),
{
    if entries.len() == 0 {
        0
    } else {
        source_count(entries.drop_last()) + if is_source_image(entries.last()) {
            1nat
        } else {
            0nat
        }
    }
}

/// The number of source images among `entries` whose cache is missing.
pub open spec fn missing_count(entries: Seq<ScannedEntryView>) -> nat
    decreases entries.len(),
{
    if entries.len() == 0 {
        0
    } else {
        missing_count(entries.drop_last()) + if needs_cache(entries.last()) {
            1nat
        } else {
            0nat
        }
    }
}

/// Whether `request` is the repair request of a source image of `entries`
/// whose cache is missing.
pub open spec fn repairs_missing_cache(
    entries: Seq<ScannedEntryView>,
    request: CacheRequestView,
) -> bool {
    exists|i: int|
        0 <= i < entries.len() && needs_cache(#[trigger] entries[i]) && request == repair_request(
            entries[i],
        )
}

/// Builds the request that asks for the cache of the image at `path`, with
/// the filter stored with the image if that is a known one, else with the
/// default filter.
pub fn create_cache_request(path: &str, stored_filter: &str) -> (request: CacheRequest)
    ensures
        request@ == CacheRequestView::CreateCache(path@, effective_filter(stored_filter@)),
{
    CacheRequest::CreateCache(String::from_str(path), get_filter_for_image(stored_filter))
}

/// The outcome of the startup scan.
#[derive(Debug)]
pub struct RepairPlan {
    /// The requests to submit to the cache worker, in order.
    pub requests: Vec<CacheRequest>,
    /// How many source images the scan saw.
    pub total_count: usize,
}

/// Whether an entry is a source image.
pub fn entry_is_source_image(entry: &ScannedEntry) -> (source: bool)
    ensures
        source == is_source_image(entry@),
{
    if entry.is_dir {
        return false;
    }
    match &entry.file_name {
        Some(name) => !is_json_file_name(name.as_str()),
        None => true,
    }
}

/// Plans the repair of missing caches: one request for each source image
/// without a cache, in scan order, and no other.
pub fn scan_and_repair_caches(entries: &Vec<ScannedEntry>) -> (plan: RepairPlan)
    ensures
        request_views(plan.requests@) == planned_repairs(entry_views(entries@)),
        plan.requests@.len() == missing_count(entry_views(entries@)),
        plan.total_count == source_count(entry_views(entries@)),
{
    let mut requests: Vec<CacheRequest> = Vec::new();
    let mut total_count: usize = 0;
    let mut i: usize = 0;
    let ghost all = entry_views(entries@);
    assert(all.take(0) =~= Seq::<ScannedEntryView>::empty());
    assert(request_views(requests@) =~= Seq::<CacheRequestView>::empty());
    while i < entries.len()
        invariant
            all == entry_views(entries@),
            i <= entries@.len(),
            request_views(requests@) == planned_repairs(all.take(i as int)),
            requests@.len() == missing_count(all.take(i as int)),
            total_count == source_count(all.take(i as int)),
            total_count <= i,
        decreases entries@.len() - i,
    {
        let entry = &entries[i];
        let ghost before = request_views(requests@);
        proof {
            let next = all.take(i as int + 1);
            assert(next.drop_last() =~= all.take(i as int));
            assert(next.last() == entry@);
        }
        if entry_is_source_image(entry) {
            total_count += 1;
            if !entry.cache_exists {
                let request = create_cache_request(
                    entry.path.as_str(),
                    entry.stored_filter.as_str(),
                );
                requests.push(request);
                assert(request_views(requests@) =~= before.push(repair_request(entry@)));
            }
        }
        i += 1;
    }
    assert(all.take(i as int) =~= all);
    RepairPlan { requests, total_count }
}

/// Every planned request repairs a source image whose cache is missing, and
/// every such image has its request: the plan holds as many requests as
/// there are missing caches, each with the filter that is stored with the
/// image or, where that is none that is known, the default filter.
pub proof fn law_one_request_per_missing_cache(entries: Seq<ScannedEntryView>)
    ensures
        planned_repairs(entries).len() == missing_count(entries),
        missing_count(entries) <= source_count(entries) <= entries.len(),
        forall|i: int|
            0 <= i < entries.len() && needs_cache(#[trigger] entries[i]) ==> planned_repairs(
                entries,
            ).contains(repair_request(entries[i])),
        forall|j: int|
            0 <= j < planned_repairs(entries).len() ==> repairs_missing_cache(
                entries,
                #[trigger] planned_repairs(entries)[j],
            ),
    decreases entries.len(),
{
    if entries.len() > 0 {
        let front = entries.drop_last();
        let last = entries.last();
        law_one_request_per_missing_cache(front);
        let plan = planned_repairs(entries);
        let front_plan = planned_repairs(front);
        assert forall|i: int|
            0 <= i < entries.len() && needs_cache(
                #[trigger] entries[i],
            ) implies plan.contains(repair_request(entries[i])) by {
            if i < front.len() {
                assert(front[i] == entries[i]);
                let j = choose|j: int|
                    0 <= j < front_plan.len() && front_plan[j] == repair_request(entries[i]);
                assert(plan[j] == repair_request(entries[i]));
            } else {
                assert(plan[plan.len() - 1] == repair_request(entries[i]));
            }
        }
        assert forall|j: int| 0 <= j < plan.len() implies repairs_missing_cache(
            entries,
            #[trigger] plan[j],
        ) by {
            if j < front_plan.len() {
                assert(plan[j] == front_plan[j]);
                assert(repairs_missing_cache(front, front_plan[j]));
                let i = choose|i: int|
                    0 <= i < front.len() && needs_cache(#[trigger] front[i]) && front_plan[j]
                        == repair_request(front[i]);
                assert(front[i] == entries[i]);
            } else {
                assert(entries[entries.len() - 1] == last);
            }
        }
    }
}

} // verus!
