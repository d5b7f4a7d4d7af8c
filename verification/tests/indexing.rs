use ottrin::content::{
    content_hit, content_page, content_search_args, content_terms, listed_paths, pick_snippet, split_lines,
};
use ottrin::index_state::{
    cap_sys_admin_in_status, parse_hex_u64,    format_watch_error, locate_refresh_due, refresh_due, stall_restart_due, IndexState,
};
use ottrin::indexer::{
    actions_for_event, apply_incremental, build_globset, entry_item, is_executable_mode, make_item_from_path,
    needs_full_rebuild, normalized_rel_path, path_has_hidden_component, push_batched, resume_step,
    should_keep_path, walk_exhausted, walk_hit, add_mount_roots, changes_due, owning_root_index, upsert_item,
    with_removable_mounts, EntryMeta, IndexFilter, ScanTally,
    NotifyAction,
};
use ottrin::pipeline::WalkTally;
use ottrin::model::{EntryKind, SearchIndexStatus, SearchQuery, SearchResultItem, SearchScope, SearchSort};
use ottrin::query::parse_query;

fn meta(kind: EntryKind, len: u64) -> EntryMeta {
    EntryMeta { kind, len, modified_unix_secs: Some(1_700_000_000), is_executable: false, target_is_dir: false }
}

fn strings(v: &[&str]) -> Vec<String> {
    v.iter().map(|s| s.to_string()).collect()
}

fn filter(roots: &[&str], hidden: bool, exclude: &[&str]) -> IndexFilter {
    IndexFilter {
        roots: strings(roots),
        include_hidden_system: hidden,
        wanted: build_globset(&Vec::new()).unwrap(),
        unwanted: build_globset(&strings(exclude)).unwrap(),
        excluded_roots: strings(&["/proc"]),
    }
}

#[test]
fn keep_rules() {
    let empty = build_globset(&Vec::new()).unwrap();
    let exclude = build_globset(&strings(&["node_modules/**", "*.tmp"])).unwrap();
    let wanted = build_globset(&strings(&["keep.tmp"])).unwrap();
    let excluded_roots = strings(&["/data/secret"]);
    assert!(should_keep_path("/data", "/data", false, &empty, &exclude, &excluded_roots));
    assert!(should_keep_path("/data/a.txt", "/data", false, &empty, &exclude, &excluded_roots));
    assert!(!should_keep_path("/data/secret/x", "/data", false, &empty, &exclude, &excluded_roots));
    assert!(!should_keep_path("/data/.cache/x", "/data", false, &empty, &exclude, &excluded_roots));
    assert!(should_keep_path("/data/.cache/x", "/data", true, &empty, &exclude, &excluded_roots));
    assert!(!should_keep_path("/data/node_modules/pkg", "/data", false, &empty, &exclude, &excluded_roots));
    assert!(!should_keep_path("/data/x.tmp", "/data", false, &empty, &exclude, &excluded_roots));
    assert!(should_keep_path("/data/keep.tmp", "/data", false, &wanted, &exclude, &excluded_roots));
}

#[test]
fn relative_paths_and_hidden_components() {
    assert_eq!(normalized_rel_path("/data/a/b.txt", "/data"), "a/b.txt");
    assert_eq!(normalized_rel_path("/other/b.txt", "/data"), "/other/b.txt");
    assert!(path_has_hidden_component("/data/.git/config", "/data"));
    assert!(!path_has_hidden_component("/.data/x", "/.data"));
    assert!(!path_has_hidden_component("/other/.x", "/data"));
}

#[test]
fn globset_errors_name_the_pattern() {
    let err = build_globset(&strings(&["ok/*", "  ", "a[b"])).unwrap_err();
    assert!(err.starts_with("Invalid glob 'a[b': "), "{}", err);
    assert!(build_globset(&strings(&["", "   "])).is_ok());
}

#[test]
fn entries_become_items() {
    let item = entry_item("/d/file.rs", String::from("file.rs"), meta(EntryKind::File, 12));
    assert_eq!(item.parent_path, "/d");
    assert_eq!(item.size_bytes, Some(12));
    assert_eq!(item.symlink_target_is_dir, None);
    assert_eq!(item.name_lower, "file.rs");
    let mut link_meta = meta(EntryKind::Symlink, 5);
    link_meta.target_is_dir = true;
    let link = entry_item("/d/Link", String::from("Link"), link_meta);
    assert_eq!(link.size_bytes, None);
    assert_eq!(link.symlink_target_is_dir, Some(true));
    assert_eq!(link.name_lower, "link");
    assert!(make_item_from_path("/", meta(EntryKind::Directory, 0)).is_none());
    assert_eq!(make_item_from_path("/d/x", meta(EntryKind::Other, 0)).unwrap().name, "x");
    assert!(is_executable_mode(true, 0o755));
    assert!(!is_executable_mode(true, 0o644));
    assert!(!is_executable_mode(false, 0o755));
}

#[test]
fn walk_entries() {
    let q = SearchQuery {
        text: String::from("needle"),
        scope: SearchScope::CurrentFolder,
        root_path: Some(String::from("/r")),
        include_hidden_system: false,
        sort: SearchSort::Relevance,
        limit: 10,
        offset: 0,
        content_search: false,
    };
    let expr = parse_query("needle").unwrap();
    assert!(walk_hit(&q, &expr, "/r", "/r", String::from("r"), Some(meta(EntryKind::Directory, 0))).is_none());
    assert!(walk_hit(&q, &expr, "/r", "/r/.needle", String::from(".needle"), Some(meta(EntryKind::File, 1))).is_none());
    assert!(walk_hit(&q, &expr, "/r", "/r/needle", String::from("needle"), None).is_none());
    assert!(walk_hit(&q, &expr, "/r", "/r/other", String::from("other"), Some(meta(EntryKind::File, 1))).is_none());
    let hit = walk_hit(&q, &expr, "/r", "/r/sub/needle.txt", String::from("needle.txt"), Some(meta(EntryKind::File, 3)));
    let (score, item) = hit.unwrap();
    assert_eq!(score, 7_500);
    assert_eq!(item.size_bytes, Some(3));
    assert!(walk_exhausted(10, 10, 0, 5, 0, 100));
    assert!(walk_exhausted(0, 10, 5, 5, 0, 100));
    assert!(walk_exhausted(0, 10, 0, 5, 100, 100));
    assert!(!walk_exhausted(9, 10, 4, 5, 99, 100));
}

#[test]
fn batches_and_resume() {
    let mut batch: Vec<SearchResultItem> = Vec::new();
    let mut handed = 0;
    for i in 0..4_100u64 {
        let item = entry_item(&format!("/r/f{}", i), format!("f{}", i), meta(EntryKind::File, i));
        if let Some(full) = push_batched(&mut batch, item) {
            assert_eq!(full.len(), 2_000);
            handed += 1;
        }
    }
    assert_eq!(handed, 2);
    assert_eq!(batch.len(), 100);
    assert_eq!(resume_step(false, "/r/a", Some("/r/a")), (false, false, false));
    assert_eq!(resume_step(true, "/r/a", Some("/r/b")), (true, true, false));
    assert_eq!(resume_step(true, "/r/b", Some("/r/b")), (true, false, true));
}

#[test]
fn change_events_update_the_index() {
    let mut items = vec![
        entry_item("/r/a", String::from("a"), meta(EntryKind::Directory, 0)),
        entry_item("/r/a/x", String::from("x"), meta(EntryKind::File, 1)),
        entry_item("/r/ab", String::from("ab"), meta(EntryKind::File, 1)),
        entry_item("/r/b", String::from("b"), meta(EntryKind::File, 1)),
    ];
    let f = filter(&["/r"], false, &["*.tmp"]);
    let mut actions = actions_for_event(true, strings(&["/r/a"]));
    actions.extend(actions_for_event(false, strings(&["/r/b", "/r/c.tmp", "/r/.hidden", "/elsewhere/e", "/r/d"])));
    assert_eq!(actions[0], NotifyAction::Remove(String::from("/r/a")));
    assert_eq!(actions[1], NotifyAction::Upsert(String::from("/r/b")));
    let stats = vec![
        None,
        Some(entry_item("/r/b", String::from("b"), meta(EntryKind::File, 9))),
        Some(entry_item("/r/c.tmp", String::from("c.tmp"), meta(EntryKind::File, 1))),
        Some(entry_item("/r/.hidden", String::from(".hidden"), meta(EntryKind::File, 1))),
        Some(entry_item("/elsewhere/e", String::from("e"), meta(EntryKind::File, 1))),
        None,
    ];
    apply_incremental(&mut items, &actions, &stats, &f);
    let paths: Vec<&str> = items.iter().map(|i| i.path.as_str()).collect();
    assert_eq!(paths, vec!["/r/ab", "/r/b"]);
    assert_eq!(items[1].size_bytes, Some(9));
    assert!(needs_full_rebuild(501));
    assert!(!needs_full_rebuild(500));
}

#[test]
fn content_terms_and_snippets() {
    assert_eq!(content_terms("  Alpha beta ALPHA x  "), strings(&["alpha", "beta"]));
    assert!(content_terms("/regex/").is_empty());
    assert!(content_terms("   ").is_empty());
    assert_eq!(content_terms("é"), strings(&["é"]));
    assert_eq!(split_lines("a\r\nb\n\nc\r"), strings(&["a", "b", "", "c\r"]));
    assert_eq!(split_lines("a\n"), strings(&["a"]));
    let terms = strings(&["alpha", "beta"]);
    let text = "first line\n  beta only  \nalpha on the first line\nALPHA and Beta together\n";
    assert_eq!(pick_snippet(text, &terms), Some(String::from("ALPHA and Beta together")));
    assert_eq!(pick_snippet("none\n  beta here \n", &terms), Some(String::from("beta here")));
    assert_eq!(pick_snippet("\n   \n  first text \n", &terms), Some(String::from("first text")));
    assert_eq!(pick_snippet(" \n", &terms), None);
}

#[test]
fn content_hits_are_checked_against_the_query() {
    let item = entry_item("/r/alpha.txt", String::from("alpha.txt"), meta(EntryKind::File, 30));
    let expr = parse_query("needle").unwrap();
    let terms = strings(&["needle"]);
    let hit = content_hit(&expr, item.clone(), String::from("first line\nneedle appears here\nthird line\n"), &terms);
    assert_eq!(hit.unwrap().content_snippet, Some(String::from("needle appears here")));
    let dir_only = parse_query("type:dir needle").unwrap();
    assert!(content_hit(&dir_only, item, String::from("needle inside a file\n"), &terms).is_none());
}

#[test]
fn index_state_moves_through_a_scan() {
    let mut s = IndexState::default();
    assert_eq!(s.status, SearchIndexStatus::Indexing);
    s.begin_scan(2, Some(1_000), 100);
    assert_eq!(s.estimated_total_items, Some(1_000));
    assert_eq!(s.progress_text.as_deref(), Some("Indexing · scanning…"));
    s.record_batch(Some(String::from("/r/x")), 2_000, 101);
    s.record_batch(None, 5, 102);
    assert_eq!(s.building_indexed_items, 2_005);
    assert_eq!(s.last_indexed_path.as_deref(), Some("/r/x"));
    let d = s.diagnostics();
    assert_eq!(d.indexed_items, 2_005);
    let items = vec![entry_item("/r/x", String::from("x"), meta(EntryKind::File, 1))];
    s.finish_scan(items, 1, 110, 9);
    assert_eq!(s.status, SearchIndexStatus::Ready);
    assert_eq!(s.progress_text.as_deref(), Some("Ready · 1 indexed"));
    let d = s.diagnostics();
    assert_eq!(d.indexed_items, 1);
    assert_eq!(d.detail.as_deref(), Some("Ready · 1 indexed"));
    s.begin_scan(2, Some(7), 120);
    assert_eq!(s.estimated_total_items, None);
    s.fail_scan(String::from("walk failed"), 121, 1);
    assert_eq!(s.diagnostics().detail.as_deref(), Some("walk failed"));
    s.record_watchers(1, 2, 130);
    assert_eq!(s.watcher_last_error.as_deref(), Some("Failed to watch 2 locations"));
    assert_eq!(format_watch_error(1).as_deref(), Some("Failed to watch 1 location"));
    assert_eq!(format_watch_error(0), None);
    s.record_crash(140);
    assert_eq!(s.last_error.as_deref(), Some("Indexer thread panicked"));
}

#[test]
fn cached_index_start() {
    let mut s = IndexState::default();
    let cached = vec![entry_item("/r/x", String::from("x"), meta(EntryKind::File, 1))];
    assert!(!s.load_cached(cached.clone(), Some(120)));
    assert_eq!(s.progress_text.as_deref(), Some("Indexed 1 files · 2m ago"));
    assert!(s.load_cached(cached.clone(), Some(7_200)));
    assert_eq!(s.progress_text.as_deref(), Some("Cached · 1 files · 2h ago · refreshing…"));
    assert!(s.load_cached(cached, None));
}

#[test]
fn schedule_decisions() {
    assert!(stall_restart_due(SearchIndexStatus::Indexing, 1_000, Some(300), None));
    assert!(!stall_restart_due(SearchIndexStatus::Indexing, 1_000, Some(400), None));
    assert!(!stall_restart_due(SearchIndexStatus::Indexing, 1_000, Some(300), Some(10)));
    assert!(stall_restart_due(SearchIndexStatus::Indexing, 1_000, Some(300), Some(1_800)));
    assert!(!stall_restart_due(SearchIndexStatus::Ready, 1_000, Some(300), None));
    assert!(refresh_due(1, Some(3_600)));
    assert!(!refresh_due(1, Some(3_599)));
    assert!(!refresh_due(0, Some(1_000_000)));
    assert!(!refresh_due(1, None));
    assert!(locate_refresh_due(false, None, false, 6, None));
    assert!(!locate_refresh_due(false, Some(100), false, 6, None));
    assert!(locate_refresh_due(true, None, true, 0, Some(86_400)));
    assert!(!locate_refresh_due(true, None, false, 0, Some(86_400)));
    assert!(locate_refresh_due(true, None, false, 6, Some(21_600)));
}

#[test]
fn default_roots_take_removable_mounts_once() {
    let points = strings(&["/", "/media/usb", "/proc", "/mnt/disk", "/media/usb", "/run/media/me/card", "/home"]);
    let roots = with_removable_mounts(String::from("/home/me"), &points);
    assert_eq!(roots, strings(&["/home/me", "/media/usb", "/mnt/disk", "/run/media/me/card"]));
}

#[test]
fn mount_roots_add_other_devices_below_roots() {
    let roots = vec![(String::from("/home/me"), Some(1)), (String::from("/data"), None)];
    let mounts = vec![
        (String::from("/"), Some(1)),
        (String::from("/home/me/ext"), Some(2)),
        (String::from("/home/me/same"), Some(1)),
        (String::from("/home/me/ext"), Some(2)),
        (String::from("/data/disk"), Some(1)),
        (String::from("/data"), Some(3)),
    ];
    assert_eq!(add_mount_roots(&roots, &mounts), strings(&["/home/me", "/data", "/home/me/ext", "/data/disk"]));
    assert_eq!(add_mount_roots(&roots, &Vec::new()), strings(&["/home/me", "/data"]));
}

#[test]
fn walk_tally_counts_entries_and_keeps_distinct_hits() {
    let a = make_item_from_path("/r/a.txt", meta(EntryKind::File, 3)).unwrap();
    let mut t = WalkTally::new();
    t.record("/r", "/r", None, true);
    assert_eq!(t.visited, 0);
    t.record("/r", "/r/a.txt", Some((5, a.clone())), true);
    t.record("/r", "/r/a.txt", Some((5, a.clone())), true);
    t.record("/r", "/r/b.txt", None, true);
    assert_eq!(t.visited, 3);
    assert_eq!(t.hits.len(), 1);
    t.record("/r", "/r/a.txt", Some((7, a)), false);
    assert_eq!(t.hits.len(), 2);
    assert_eq!(t.hits[1].0, 7);
}

#[test]
fn change_events_wait_for_quiet() {
    assert!(!changes_due(None, 3));
    assert!(!changes_due(Some(499), 3));
    assert!(changes_due(Some(500), 3));
    assert!(!changes_due(Some(900), 0));
}

#[test]
fn upserts_find_their_root() {
    let roots = strings(&["/home/me", "/data"]);
    assert_eq!(owning_root_index("/data/x/y", &roots), Some(1));
    assert_eq!(owning_root_index("/home/me", &roots), Some(0));
    assert_eq!(owning_root_index("/srv/x", &roots), None);
    let f = filter(&["/data"], false, &["*.tmp"]);
    let item = make_item_from_path("/data/a.txt", meta(EntryKind::File, 1)).unwrap();
    assert_eq!(upsert_item(&f, "/data/a.txt", &Some(item.clone())), Some(item.clone()));
    assert_eq!(upsert_item(&f, "/srv/a.txt", &Some(item.clone())), None);
    let tmp = make_item_from_path("/data/a.tmp", meta(EntryKind::File, 1)).unwrap();
    assert_eq!(upsert_item(&f, "/data/a.tmp", &Some(tmp)), None);
    let hidden = make_item_from_path("/data/.x", meta(EntryKind::File, 1)).unwrap();
    assert_eq!(upsert_item(&f, "/data/.x", &Some(hidden)), None);
    assert_eq!(upsert_item(&f, "/data/gone", &None), None);
}

#[test]
fn scan_tally_resumes_after_cursor_or_walks_again() {
    let m = Some(meta(EntryKind::File, 1));
    let mut t = ScanTally::new();
    t.start_root(true);
    assert!(t.scan_entry("/r", "/r", String::from("r"), m, Some("/r/b"), false).is_none());
    assert!(t.scan_entry("/r", "/r/a", String::from("a"), m, Some("/r/b"), false).is_none());
    assert!(t.scan_entry("/r", "/r/b", String::from("b"), m, Some("/r/b"), false).is_none());
    assert!(t.scan_entry("/r", "/r/c", String::from("c"), m, Some("/r/b"), false).is_some());
    assert!(t.scan_entry("/r", "/r/.h", String::from(".h"), m, Some("/r/b"), false).is_none());
    assert!(t.scan_entry("/r", "/r/d", String::from("d"), None, Some("/r/b"), false).is_none());
    assert_eq!((t.root_seen, t.total), (3, 1));
    assert!(!t.finish_walk());
    t.start_root(true);
    assert!(t.scan_entry("/s", "/s/x", String::from("x"), m, Some("/s/gone"), false).is_none());
    assert!(t.finish_walk());
    assert_eq!((t.root_seen, t.total), (0, 1));
    assert!(t.scan_entry("/s", "/s/x", String::from("x"), m, Some("/s/gone"), false).is_some());
    assert_eq!(t.total, 2);
    assert!(!t.finish_walk());
}

#[test]
fn content_searcher_arguments() {
    let roots = strings(&["/a", "/b"]);
    assert_eq!(
        content_search_args("needle", false, &roots),
        strings(&["--files-with-matches", "--fixed-strings", "--ignore-case", "--max-count=1", "-e", "needle", "--", "/a", "/b"])
    );
    assert_eq!(content_search_args("x", true, &Vec::new())[4], "--hidden");
}

#[test]
fn content_searcher_output_lists_paths() {
    assert_eq!(listed_paths(false, b""), None);
    assert_eq!(listed_paths(true, b""), Some(Vec::new()));
    assert_eq!(listed_paths(false, b"/a/x.txt\n\n/b/y.txt\r\n"), Some(strings(&["/a/x.txt", "/b/y.txt"])));
    assert_eq!(listed_paths(true, &[0xff, b'\n']), Some(Vec::new()));
}

#[test]
fn content_hits_come_in_path_order_up_to_the_limit() {
    let f = |p: &str| make_item_from_path(p, meta(EntryKind::File, 1)).unwrap();
    let hits = vec![f("/b/2.txt"), f("/a-b/3.txt"), f("/a/1.txt")];
    let page = content_page(&hits, 2);
    let paths: Vec<&str> = page.iter().map(|i| i.path.as_str()).collect();
    assert_eq!(paths, vec!["/a/1.txt", "/a-b/3.txt"]);
    assert_eq!(content_page(&hits, 10).len(), 3);
}

#[test]
fn capabilities_come_from_the_first_cap_eff_line() {
    let admin = "Name:\tx\nCapInh:\t0000000000000000\nCapEff:\t000001ffffffffff\nCapEff:\t0\n";
    assert!(cap_sys_admin_in_status(admin));
    assert!(!cap_sys_admin_in_status("CapEff:\t0000000000000000\n"));
    assert!(cap_sys_admin_in_status("CapEff:\tzz\nCapEff:\t200000\nCapEff:\t0\n"));
    assert!(!cap_sys_admin_in_status("Name:\tx\n"));
    assert!(!cap_sys_admin_in_status("CapEff: 200000\n"));
    assert_eq!(parse_hex_u64("+1F"), Some(31));
    assert_eq!(parse_hex_u64("+"), None);
    assert_eq!(parse_hex_u64("ffffffffffffffff"), Some(u64::MAX));
    assert_eq!(parse_hex_u64("10000000000000000"), None);
    assert_eq!(parse_hex_u64("-1"), None);
}
