use ottrin::model::{EntryKind, SearchIndexStatus, SearchQuery, SearchResultItem, SearchScope, SearchSort};
use ottrin::pipeline::{
    content_supplement, finish_response, fuzzy_supplement, index_hits, locate_request, locate_supplement,
    merge_unseen, plan_query, root_is_indexed, PrimarySource,
};
use ottrin::query::{eval_expr, parse_query};
use ottrin::ranking::{
    format_age, format_progress, fuzzy_subsequence_score, is_simple_single_word, relevance_score, scope_match,
};
use ottrin::sorting::sort_results;

fn mk_item(path: &str, name: &str, kind: EntryKind) -> SearchResultItem {
    let mut item = SearchResultItem {
        path: path.to_string(),
        parent_path: std::path::Path::new(path)
            .parent()
            .map(|p| p.to_string_lossy().into_owned())
            .unwrap_or_default(),
        name: name.to_string(),
        kind,
        is_executable: false,
        symlink_target_is_dir: None,
        size_bytes: None,
        modified_unix_secs: None,
        content_snippet: None,
        name_lower: String::new(),
        path_str: String::new(),
        path_lower: String::new(),
    };
    item.prepare();
    item
}

fn query(text: &str, scope: SearchScope, root: Option<&str>) -> SearchQuery {
    SearchQuery {
        text: text.to_string(),
        scope,
        root_path: root.map(|r| r.to_string()),
        include_hidden_system: false,
        sort: SearchSort::Relevance,
        limit: 100,
        offset: 0,
        content_search: false,
    }
}

#[test]
fn parser_rejects_invalid_regex() {
    let err = parse_query("/[/").expect_err("should reject invalid regex");
    assert!(err.message().contains("Invalid regex"));
}

#[test]
fn current_folder_scope_filters_by_prefix() {
    let query = SearchQuery {
        text: "foo".to_string(),
        scope: SearchScope::CurrentFolder,
        root_path: Some(String::from("/tmp/a")),
        include_hidden_system: false,
        sort: SearchSort::Relevance,
        limit: 100,
        offset: 0,
        content_search: false,
    };
    let in_scope = mk_item("/tmp/a/b/foo.txt", "foo.txt", EntryKind::File);
    let out_scope = mk_item("/tmp/c/foo.txt", "foo.txt", EntryKind::File);
    assert!(scope_match(&query, &in_scope));
    assert!(!scope_match(&query, &out_scope));
}

#[test]
fn plain_term_matches_name_and_path_as_substring() {
    let expr = parse_query("angel").expect("parse query");
    let name_match = mk_item("/home/user/projects/angelcat", "angelcat", EntryKind::Directory);
    let path_match = mk_item("/home/user/angelcat/deep/file.txt", "file.txt", EntryKind::File);
    let no_match = mk_item("/home/user/pictures/sunset.jpg", "sunset.jpg", EntryKind::File);
    assert!(eval_expr(&expr, &name_match));
    assert!(eval_expr(&expr, &path_match));
    assert!(!eval_expr(&expr, &no_match));
}

#[test]
fn bench_query_500k() {
    const N: usize = 500_000;
    let mut items: Vec<SearchResultItem> = (0..N)
        .map(|i| {
            let dir = format!("/home/user/projects/repo_{}/src/module_{}", i / 1000, i % 100);
            let name = format!("file_{:06}.rs", i);
            let path = format!("{}/{}", dir, name);
            mk_item(&path, &name, EntryKind::File)
        })
        .collect();
    items[12345] = mk_item("/home/user/docs/needle.txt", "needle.txt", EntryKind::File);
    items[99999] = mk_item("/home/user/projects/needle_lib/main.rs", "main.rs", EntryKind::File);

    let query = SearchQuery {
        text: "needle".to_string(),
        scope: SearchScope::Global,
        root_path: None,
        include_hidden_system: false,
        sort: SearchSort::Relevance,
        limit: 50,
        offset: 0,
        content_search: false,
    };
    let expr = parse_query(&query.text).expect("parse query");

    let start = std::time::Instant::now();
    let matched: Vec<_> = items
        .iter()
        .filter(|item| !item.name.starts_with('.'))
        .filter_map(|item| if eval_expr(&expr, item) { Some((relevance_score(&query, item), item)) } else { None })
        .collect();
    let elapsed = start.elapsed();

    println!("500k query: {}ms, {} hits", elapsed.as_millis(), matched.len());
    let budget_ms = 250;
    assert!(
        elapsed.as_millis() < budget_ms,
        "Query over 500k items took {}ms — exceeds {}ms budget",
        elapsed.as_millis(),
        budget_ms
    );
    assert!(matched.len() >= 2, "Expected at least 2 needle matches, got {}", matched.len());
}

#[test]
fn relevance_tiers() {
    let q = query("Foo", SearchScope::Global, None);
    assert_eq!(relevance_score(&q, &mk_item("/x/foo", "foo", EntryKind::File)), 10_000);
    assert_eq!(relevance_score(&q, &mk_item("/x/foobar", "foobar", EntryKind::File)), 7_500);
    assert_eq!(relevance_score(&q, &mk_item("/x/barfoo", "barfoo", EntryKind::File)), 5_000);
    assert_eq!(relevance_score(&q, &mk_item("/foo/bar", "bar", EntryKind::File)), 2_500);
    assert_eq!(relevance_score(&q, &mk_item("/x/bar", "bar", EntryKind::File)), 0);
}

#[test]
fn fuzzy_scores() {
    assert_eq!(fuzzy_subsequence_score("", "anything"), Some(100));
    assert_eq!(fuzzy_subsequence_score("abc", "xyz"), None);
    assert_eq!(fuzzy_subsequence_score("cab", "abc"), None);
    // Contiguous at the start: 3 * 200 / 3 + 300.
    assert_eq!(fuzzy_subsequence_score("ABC", "abcdef"), Some(500));
    // Spread out from position 1: 2 * 200 / 5 + 150.
    assert_eq!(fuzzy_subsequence_score("ae", "xabcde"), Some(230));
    // Far from the start and spread out: clamped to the minimum.
    assert_eq!(fuzzy_subsequence_score("az", "xxxxa_________________________z"), Some(100));
    // A single character at the start: 200 + 300.
    assert_eq!(fuzzy_subsequence_score("q", "quux"), Some(500));
}

#[test]
fn single_word_detection() {
    assert!(is_simple_single_word("  needle "));
    assert!(!is_simple_single_word("a"));
    assert!(is_simple_single_word("é"));
    assert!(!is_simple_single_word("two words"));
    assert!(!is_simple_single_word("ext:rs"));
    assert!(!is_simple_single_word("a|b"));
    assert!(!is_simple_single_word("(ab)"));
    assert!(!is_simple_single_word("!ab"));
    assert!(!is_simple_single_word("/ab/"));
    assert!(!is_simple_single_word("\"ab"));
}

#[test]
fn status_texts() {
    assert_eq!(format_age(5), "just now");
    assert_eq!(format_age(125), "2m ago");
    assert_eq!(format_age(7_300), "2h ago");
    assert_eq!(format_age(200_000), "2d ago");
    assert_eq!(format_progress(1, 1, 42, 7), "Indexing · 42 files found");
    assert_eq!(format_progress(2, 3, 42, 7), "Indexing · root 2/3 · 42 files found");
}

#[test]
fn sort_orders_and_is_stable() {
    let mut v = vec![
        (5_000, mk_item("/b/beta", "beta", EntryKind::File)),
        (10_000, mk_item("/a/zeta", "zeta", EntryKind::File)),
        (5_000, mk_item("/c/alpha", "alpha", EntryKind::File)),
    ];
    sort_results(&mut v, SearchSort::Relevance);
    let names: Vec<&str> = v.iter().map(|(_, i)| i.name.as_str()).collect();
    assert_eq!(names, vec!["zeta", "alpha", "beta"]);

    sort_results(&mut v, SearchSort::Path);
    let paths: Vec<&str> = v.iter().map(|(_, i)| i.path.as_str()).collect();
    assert_eq!(paths, vec!["/a/zeta", "/b/beta", "/c/alpha"]);

    let mut sized = vec![
        (0, mk_item("/s1", "s1", EntryKind::File)),
        (0, mk_item("/s2", "s2", EntryKind::File)),
        (0, mk_item("/s3", "s3", EntryKind::File)),
    ];
    sized[0].1.size_bytes = Some(10);
    sized[2].1.size_bytes = Some(10);
    sized[1].1.size_bytes = Some(99);
    sort_results(&mut sized, SearchSort::Size);
    let order: Vec<&str> = sized.iter().map(|(_, i)| i.name.as_str()).collect();
    // Largest first; the two equal sizes keep their order.
    assert_eq!(order, vec!["s2", "s1", "s3"]);
}

#[test]
fn path_order_is_by_components() {
    let mut v = vec![
        (0, mk_item("/a-b/x", "x", EntryKind::File)),
        (0, mk_item("/a/b", "b", EntryKind::File)),
    ];
    sort_results(&mut v, SearchSort::Path);
    // Component "a" sorts before "a-b", although '-' sorts before '/' as a character.
    assert_eq!(v[0].1.path, "/a/b");
}

#[test]
fn plan_chooses_sources() {
    let roots = vec![String::from("/home/user")];
    let folder = query("needle", SearchScope::CurrentFolder, Some("/srv/data"));
    let p = plan_query(&folder, SearchIndexStatus::Ready, 10, &roots);
    assert_eq!(p.primary, PrimarySource::FolderWalk);

    let indexed_folder = query("needle", SearchScope::CurrentFolder, Some("/home/user/docs"));
    let p = plan_query(&indexed_folder, SearchIndexStatus::Ready, 10, &roots);
    assert_eq!(p.primary, PrimarySource::Index);
    assert!(p.fuzzy);
    assert_eq!(p.supplement_cap, 200);
    assert_eq!(p.global_walk_target, 600);
    assert_eq!(p.folder_walk_target, 400);

    let global = query("ne", SearchScope::Global, Some("/srv"));
    let p = plan_query(&global, SearchIndexStatus::Indexing, 0, &roots);
    assert_eq!(p.primary, PrimarySource::GlobalWalk);
    assert!(p.supplement_folder_walk);
    assert_eq!(p.supplement_walk_hits, None);

    let p = plan_query(&global, SearchIndexStatus::Indexing, 3, &roots);
    assert_eq!(p.primary, PrimarySource::Index);
    assert_eq!(p.supplement_walk_hits, Some(100));

    let mut content = query("ab", SearchScope::Global, None);
    content.content_search = true;
    content.limit = 10;
    let p = plan_query(&content, SearchIndexStatus::Ready, 1, &roots);
    assert_eq!(p.content_limit, Some(50));
    assert!(root_is_indexed("/home/user/x", &roots));
    assert!(!root_is_indexed("/home/username", &roots));
}

#[test]
fn locate_is_asked_only_when_short_of_hits() {
    let q = query("needle", SearchScope::Global, None);
    assert_eq!(locate_request(true, &q, 0, SearchIndexStatus::Ready, 100_000), Some(100));
    assert_eq!(locate_request(true, &q, 80, SearchIndexStatus::Indexing, 10), Some(50));
    assert_eq!(locate_request(true, &q, 80, SearchIndexStatus::Ready, 10), None);
    assert_eq!(locate_request(false, &q, 0, SearchIndexStatus::Ready, 0), None);
    let short = query("n", SearchScope::Global, None);
    assert_eq!(locate_request(true, &short, 0, SearchIndexStatus::Ready, 0), None);
}

#[test]
fn index_hits_and_supplements_never_repeat_paths() {
    let items = vec![
        mk_item("/home/u/needle.txt", "needle.txt", EntryKind::File),
        mk_item("/home/u/.needle", ".needle", EntryKind::File),
        mk_item("/home/u/other", "other", EntryKind::File),
        mk_item("/home/u/n_e_e_d_l_e", "n_e_e_d_l_e", EntryKind::File),
    ];
    let q = query("needle", SearchScope::Global, None);
    let expr = parse_query("needle").unwrap();
    let mut matched = index_hits(&q, &expr, &items);
    assert_eq!(matched.len(), 1);
    assert_eq!(matched[0].0, 7_500);

    let roots = vec![String::from("/home")];
    let plan = plan_query(&q, SearchIndexStatus::Ready, items.len(), &roots);
    fuzzy_supplement(&q, &plan, &mut matched, &items);
    assert_eq!(matched.len(), 2);
    assert_eq!(matched[1].1.name, "n_e_e_d_l_e");

    let extra = vec![
        (1, mk_item("/home/u/needle.txt", "needle.txt", EntryKind::File)),
        (2, mk_item("/home/u/new", "new", EntryKind::File)),
    ];
    merge_unseen(&mut matched, extra, Some(200), true);
    assert_eq!(matched.len(), 3);

    let hits = vec![mk_item("/home/u/new", "new", EntryKind::File), mk_item("/home/u/c", "c", EntryKind::File)];
    content_supplement(&q, &plan, &mut matched, &hits);
    assert_eq!(matched.len(), 4);
    assert_eq!(matched[3].0, 8_000);

    let located = vec![mk_item("/opt/needle", "needle", EntryKind::File), mk_item("/opt/x", "x", EntryKind::File)];
    locate_supplement(&q, &expr, &mut matched, &located);
    assert_eq!(matched.len(), 5);
    assert_eq!(matched[4].0, 10_000);
}

#[test]
fn merge_stops_at_cap() {
    let mut matched = vec![(1, mk_item("/a", "a", EntryKind::File))];
    let extra = vec![
        (1, mk_item("/a", "a", EntryKind::File)),
        (1, mk_item("/b", "b", EntryKind::File)),
        (1, mk_item("/c", "c", EntryKind::File)),
    ];
    merge_unseen(&mut matched, extra, Some(2), true);
    let names: Vec<&str> = matched.iter().map(|(_, i)| i.name.as_str()).collect();
    assert_eq!(names, vec!["a", "b"]);
}

#[test]
fn response_page_is_sorted_and_counted() {
    let matched = vec![
        (2_500, mk_item("/x/c", "c", EntryKind::File)),
        (10_000, mk_item("/x/a", "a", EntryKind::File)),
        (5_000, mk_item("/x/b", "b", EntryKind::File)),
    ];
    let mut q = query("a", SearchScope::Global, None);
    q.offset = 1;
    q.limit = 1;
    let r = finish_response(matched, &q, SearchIndexStatus::Ready);
    assert_eq!(r.total, 3);
    assert_eq!(r.items.len(), 1);
    assert_eq!(r.items[0].name, "b");
    assert!(r.error.is_none());

    q.offset = 10;
    let r = finish_response(vec![(0, mk_item("/x/a", "a", EntryKind::File))], &q, SearchIndexStatus::Indexing);
    assert_eq!(r.total, 1);
    assert!(r.items.is_empty());
    assert_eq!(r.status, SearchIndexStatus::Indexing);
}

#[test]
fn blank_queries_are_only_white_space() {
    assert!(ottrin::pipeline::is_blank_query("   \t\n"));
    assert!(ottrin::pipeline::is_blank_query(""));
    assert!(!ottrin::pipeline::is_blank_query("  a "));
}
