use upload_server::cache_worker::{
    cache_path_for, create_cache_request, entry_is_source_image, get_cache_path,
    is_json_file_name,
    scan_and_repair_caches, CacheRequest, ScannedEntry, CACHE_CHANNEL_CAPACITY, DISPLAY_HEIGHT,
    DISPLAY_WIDTH,
};

fn entry(name: &str, is_dir: bool, cache_exists: bool, stored_filter: &str) -> ScannedEntry {
    ScannedEntry {
        path: format!("static/images/{}", name),
        file_name: Some(name.to_string()),
        is_dir,
        cache_exists,
        stored_filter: stored_filter.to_string(),
    }
}

fn parts(request: &CacheRequest) -> (String, String) {
    match request {
        CacheRequest::CreateCache(path, filter) => (path.clone(), filter.clone()),
    }
}

#[test]
fn test_constants() {
    assert_eq!(DISPLAY_WIDTH, 600);
    assert_eq!(DISPLAY_HEIGHT, 448);
    assert_eq!(CACHE_CHANNEL_CAPACITY, 100);
}

#[test]
fn test_cache_path_of_an_image() {
    assert_eq!(get_cache_path("static/images/photo.jpg"), "static/images/cache/photo.jpg.png");
    assert_eq!(get_cache_path("photo.jpg"), "static/images/cache/photo.jpg.png");
    assert_eq!(get_cache_path("/"), "static/images/cache/unknown.png");
    assert_eq!(cache_path_for(Some("a b.png")), "static/images/cache/a b.png.png");
    assert_eq!(cache_path_for(None), "static/images/cache/unknown.png");
}

#[test]
fn test_json_file_names() {
    assert!(is_json_file_name("metadata.json"));
    assert!(is_json_file_name("a.b.json"));
    assert!(!is_json_file_name(".json"));
    assert!(!is_json_file_name("json"));
    assert!(!is_json_file_name("photo.jpg"));
    assert!(!is_json_file_name("photo.JSON"));
    assert!(!is_json_file_name("photo.json.bak"));
    assert!(!is_json_file_name(""));
}

#[test]
fn test_reconciliation_requests_one_per_missing_cache() {
    let entries = vec![
        entry("a.jpg", false, true, "bicubic"),
        entry("b.jpg", false, false, "lanczos"),
        entry("cache", true, false, "bicubic"),
        entry("metadata.json", false, false, "bicubic"),
        entry("c.png", false, false, "sharpest"),
        entry("d.png", false, true, "nearest"),
        entry("e.gif", false, false, "bicubic"),
    ];
    let plan = scan_and_repair_caches(&entries);
    assert_eq!(plan.total_count, 5);
    assert_eq!(plan.requests.len(), 3);
    assert_eq!(parts(&plan.requests[0]), ("static/images/b.jpg".to_string(), "lanczos".to_string()));
    assert_eq!(parts(&plan.requests[1]), ("static/images/c.png".to_string(), "bicubic".to_string()));
    assert_eq!(parts(&plan.requests[2]), ("static/images/e.gif".to_string(), "bicubic".to_string()));
}

#[test]
fn test_reconciliation_with_all_caches_present_requests_nothing() {
    let entries = vec![entry("a.jpg", false, true, "bicubic"), entry("b.jpg", false, true, "nope")];
    let plan = scan_and_repair_caches(&entries);
    assert_eq!(plan.total_count, 2);
    assert!(plan.requests.is_empty());
    let nothing = scan_and_repair_caches(&Vec::new());
    assert_eq!(nothing.total_count, 0);
    assert!(nothing.requests.is_empty());
}

#[test]
fn test_entry_without_text_name_is_a_source_image() {
    let odd = ScannedEntry {
        path: "static/images/..".to_string(),
        file_name: None,
        is_dir: false,
        cache_exists: false,
        stored_filter: "mitchell".to_string(),
    };
    assert!(entry_is_source_image(&odd));
    let plan = scan_and_repair_caches(&vec![odd]);
    assert_eq!(plan.requests.len(), 1);
    assert_eq!(parts(&plan.requests[0]), ("static/images/..".to_string(), "mitchell".to_string()));
    assert!(!entry_is_source_image(&entry("x.json", false, false, "bicubic")));
    assert!(!entry_is_source_image(&entry("x.jpg", true, false, "bicubic")));
}

#[test]
fn test_cache_request_uses_stored_or_default_filter() {
    assert_eq!(
        parts(&create_cache_request("static/images/a.jpg", "nearest")),
        ("static/images/a.jpg".to_string(), "nearest".to_string())
    );
    assert_eq!(
        parts(&create_cache_request("static/images/a.jpg", "")),
        ("static/images/a.jpg".to_string(), "bicubic".to_string())
    );
}
