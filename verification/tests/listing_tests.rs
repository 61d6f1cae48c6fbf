use wormhole_desktop_ui::share_listing::{
    ShareActionParams, ShareEntry, ShareListing, ShareLoadStep, ShareStatusLine,
};
use wormhole_desktop_ui::update::{download_progress_detail, DesktopUpdateProgress, DownloadDetail};
use wormhole_desktop_ui::workspace::{workspace_canonical_tool_id, workspace_capability_matches};

fn entry(name: &str, kind: &str) -> ShareEntry {
    ShareEntry {
        entry_id: Some(format!("id-{name}")),
        name: name.to_string(),
        kind: kind.to_string(),
        size: 12,
        modified_at: 0,
        local: false,
        volume_id: None,
        version_id: None,
        version_author: None,
    }
}

fn names(l: &ShareListing) -> Vec<String> {
    l.entries.iter().map(|e| e.name.clone()).collect()
}

#[test]
fn first_load_fetches_then_cache_serves() {
    let mut l = ShareListing::new();
    let step = l.begin_load("node-a", "/docs", false);
    assert_eq!(step, ShareLoadStep::Fetch { seq: 1 });
    assert!(l.loading);
    let applied = l.apply_listing(
        1,
        "node-a",
        "/docs",
        Some("node-a"),
        "/docs",
        Ok(vec![entry("a.txt", "file"), entry("sub", "folder")]),
    );
    assert!(applied);
    assert!(!l.loading);
    assert_eq!(names(&l), vec!["a.txt", "sub"]);

    l.entries.clear();
    let again = l.begin_load("node-a", "/docs", false);
    assert_eq!(again, ShareLoadStep::Served);
    assert_eq!(names(&l), vec!["a.txt", "sub"]);
    assert_eq!(l.load_seq, 2);
    assert!(!l.loading);
}

#[test]
fn forced_load_skips_the_cache() {
    let mut l = ShareListing::new();
    l.begin_load("n", "/", false);
    l.apply_listing(1, "n", "/", Some("n"), "/", Ok(vec![entry("x", "file")]));
    let step = l.begin_load("n", "/", true);
    assert_eq!(step, ShareLoadStep::Fetch { seq: 2 });
    assert!(l.loading);
    // The forced load dropped the cached listing: a plain load fetches too.
    let next = l.begin_load("n", "/", false);
    assert_eq!(next, ShareLoadStep::Fetch { seq: 3 });
}

#[test]
fn stale_results_are_dropped() {
    let mut l = ShareListing::new();
    l.begin_load("n", "/a", false);
    l.begin_load("n", "/b", false);
    // The answer for the first load arrives late.
    let applied = l.apply_listing(1, "n", "/a", Some("n"), "/b", Ok(vec![entry("old", "file")]));
    assert!(!applied);
    assert!(l.entries.is_empty());
    assert!(l.loading);
    // An answer for another node is dropped too.
    let other = l.apply_listing(2, "n", "/b", Some("m"), "/b", Ok(vec![entry("b", "file")]));
    assert!(!other);
    // The current one is applied.
    assert!(l.apply_listing(2, "n", "/b", Some("n"), "/b", Ok(vec![entry("b", "file")])));
    assert_eq!(names(&l), vec!["b"]);
}

#[test]
fn cancelled_load_result_is_dropped() {
    let mut l = ShareListing::new();
    l.begin_load("n", "/", false);
    l.cancel();
    assert!(!l.loading);
    assert!(!l.apply_listing(1, "n", "/", Some("n"), "/", Ok(vec![entry("x", "file")])));
    assert!(l.entries.is_empty());
}

#[test]
fn error_empties_listing_and_keeps_selection() {
    let mut l = ShareListing::new();
    l.begin_load("n", "/", false);
    l.apply_listing(1, "n", "/", Some("n"), "/", Ok(vec![entry("a.txt", "file")]));
    assert!(l.select_file("a.txt"));
    l.begin_load("n", "/", true);
    assert!(l.apply_listing(2, "n", "/", Some("n"), "/", Err("offline".to_string())));
    assert!(l.entries.is_empty());
    assert_eq!(l.error.as_deref(), Some("offline"));
    assert_eq!(l.selected.as_deref(), Some("a.txt"));
    assert!(!l.loading);
}

#[test]
fn selection_dropped_when_entry_disappears() {
    let mut l = ShareListing::new();
    l.begin_load("n", "/", false);
    l.apply_listing(1, "n", "/", Some("n"), "/", Ok(vec![entry("a.txt", "file"), entry("b.txt", "FILE")]));
    assert!(l.select_file("b.txt"));
    assert_eq!(l.selected_entry(), Some(1));
    l.begin_load("n", "/", true);
    l.apply_listing(2, "n", "/", Some("n"), "/", Ok(vec![entry("a.txt", "file")]));
    assert_eq!(l.selected, None);
    assert_eq!(l.selected_entry(), None);
}

#[test]
fn only_files_can_be_selected() {
    let mut l = ShareListing::new();
    l.begin_load("n", "/", false);
    l.apply_listing(1, "n", "/", Some("n"), "/", Ok(vec![entry("sub", "folder")]));
    assert!(!l.select_file("sub"));
    assert!(!l.select_file("missing"));
    assert_eq!(l.selected, None);
}

#[test]
fn reset_forgets_cached_listings() {
    let mut l = ShareListing::new();
    l.begin_load("n", "/", false);
    l.apply_listing(1, "n", "/", Some("n"), "/", Ok(vec![entry("a", "file")]));
    l.reset();
    assert!(l.entries.is_empty());
    assert_eq!(l.selected, None);
    assert_eq!(l.begin_load("n", "/", false), ShareLoadStep::Fetch { seq: 2 });
}

#[test]
fn listings_cached_per_node_and_path() {
    let mut l = ShareListing::new();
    l.begin_load("n", "/", false);
    l.apply_listing(1, "n", "/", Some("n"), "/", Ok(vec![entry("root", "folder")]));
    l.begin_load("m", "/", false);
    l.apply_listing(2, "m", "/", Some("m"), "/", Ok(vec![entry("other", "folder")]));
    assert_eq!(l.begin_load("n", "/", false), ShareLoadStep::Served);
    assert_eq!(names(&l), vec!["root"]);
    assert_eq!(l.begin_load("n", "/x", false), ShareLoadStep::Fetch { seq: 4 });
}

#[test]
fn load_counter_wraps() {
    let mut l = ShareListing::new();
    l.load_seq = u64::MAX;
    assert_eq!(l.begin_load("n", "/", false), ShareLoadStep::Fetch { seq: 0 });
}

#[test]
fn canonical_tool_id_is_stable() {
    for id in ["  OnlyOffice ", "Word", "libreoffice", " Excel\t", "custom-App"] {
        let once = workspace_canonical_tool_id(id);
        assert_eq!(workspace_canonical_tool_id(&once), once);
        assert!(workspace_capability_matches(id, id));
    }
    assert_eq!(workspace_canonical_tool_id("  OnlyOffice "), "libreoffice");
}

#[test]
fn status_line_prefers_message_then_loading_then_error() {
    let mut l = ShareListing::new();
    assert_eq!(l.status_line(None, true, false), ShareStatusLine::Count { count: 0 });
    assert_eq!(l.status_line(None, false, false), ShareStatusLine::Offline { count: 0 });
    assert_eq!(l.status_line(None, false, true), ShareStatusLine::Count { count: 0 });
    l.begin_load("n", "/", false);
    assert_eq!(l.status_line(None, true, true), ShareStatusLine::Reading);
    assert_eq!(
        l.status_line(Some("renamed"), true, true),
        ShareStatusLine::Message("renamed".to_string())
    );
    l.apply_listing(1, "n", "/", Some("n"), "/", Err("timeout".to_string()));
    assert_eq!(
        l.status_line(None, true, true),
        ShareStatusLine::Failed("VAULT · timeout".to_string())
    );
    l.begin_load("n", "/", true);
    l.apply_listing(2, "n", "/", Some("n"), "/", Ok(vec![entry("a", "file"), entry("b", "file")]));
    assert_eq!(l.status_line(None, false, true), ShareStatusLine::Count { count: 2 });
}

#[test]
fn address_label_shows_device_volume_and_folders() {
    let mut l = ShareListing::new();
    let mut vol = entry("Photos", "folder");
    vol.volume_id = Some("vol-1".to_string());
    l.begin_load("n", "/", false);
    l.apply_listing(1, "n", "/", Some("n"), "/", Ok(vec![entry("x", "file"), vol]));
    assert_eq!(l.address_label("laptop", &[]), "laptop");
    assert_eq!(l.address_label("laptop", &["vol-1".to_string()]), "laptop · Photos");
    assert_eq!(l.address_label("laptop", &["vol-9".to_string()]), "laptop · vol-9");
    let deep = ["vol-1".to_string(), "2024".to_string(), "trip".to_string()];
    assert_eq!(l.address_label("laptop", &deep), "laptop\\2024\\trip");
}

#[test]
fn download_detail_needs_total_and_fraction() {
    assert_eq!(download_progress_detail(None, Some(3)), DownloadDetail::Indeterminate);
    let p = DesktopUpdateProgress { bytes_downloaded: 12_897_485, bytes_total: Some(355_361_997) };
    assert_eq!(
        download_progress_detail(Some(&p), Some(4)),
        DownloadDetail::Progress {
            downloaded: "12.3 MB".to_string(),
            total: "338.9 MB".to_string(),
            percent: 4,
        }
    );
    assert_eq!(
        download_progress_detail(Some(&p), None),
        DownloadDetail::Bytes { downloaded: "12.3 MB".to_string() }
    );
    let no_total = DesktopUpdateProgress { bytes_downloaded: 2048, bytes_total: None };
    assert_eq!(
        download_progress_detail(Some(&no_total), Some(50)),
        DownloadDetail::Bytes { downloaded: "2 KB".to_string() }
    );
}

#[test]
fn action_params_carry_the_listed_entry() {
    let mut l = ShareListing::new();
    let mut doc = entry("a.docx", "file");
    doc.version_author = Some("node-9".to_string());
    doc.modified_at = 77;
    l.begin_load("n", "/v", false);
    l.apply_listing(1, "n", "/v", Some("n"), "/v", Ok(vec![doc]));
    assert_eq!(
        l.action_params(Some("n"), "/v".to_string(), "a.docx", Some("word".to_string())),
        ShareActionParams {
            node_id: "n".into(),
            share_path: "/v".into(),
            entry_name: "a.docx".into(),
            remote_size: Some(12),
            remote_modified_at: Some(77),
            entry_id: Some("id-a.docx".into()),
            version_id: None,
            version_author: Some("node-9".into()),
            requested_app: Some("word".into()),
        }
    );
    assert_eq!(
        l.action_params(None, "/".to_string(), "missing", None),
        ShareActionParams {
            node_id: String::new(),
            share_path: "/".into(),
            entry_name: "missing".into(),
            remote_size: None,
            remote_modified_at: None,
            entry_id: None,
            version_id: None,
            version_author: None,
            requested_app: None,
        }
    );
}

#[test]
fn unshare_needs_a_volume_and_management() {
    let mut l = ShareListing::new();
    let mut vol = entry("Photos", "folder");
    vol.volume_id = Some("vol-1".to_string());
    l.begin_load("n", "/", false);
    l.apply_listing(1, "n", "/", Some("n"), "/", Ok(vec![entry("plain", "folder"), vol]));
    assert_eq!(l.unshare_target("Photos", true), Some("vol-1".to_string()));
    assert_eq!(l.unshare_target("Photos", false), None);
    assert_eq!(l.unshare_target("plain", true), None);
    assert_eq!(l.unshare_target("missing", true), None);
}
