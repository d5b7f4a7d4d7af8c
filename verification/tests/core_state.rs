use ottrin::model::{CodeSubtype, EntryKind, FileCategory, PlatformCaseMode, ViewMode};
use ottrin::navigation::TabState;
use ottrin::semantic::{classify_file, platform_case_mode_current};
use ottrin::transfer::{ConflictPolicy, TransferQueue};
use ottrin::tabs::{active_index, close_tab_at, format_modified_at, open_tab, tab_idx_by_id};
use ottrin::target::TargetState;

#[test]
fn tab_navigation_history() {
    let mut tab = TabState::new(1, String::from("/home/user"));
    tab.navigate_to(String::from("/home/user/docs"));
    tab.navigate_to(String::from("/home/user/docs/work"));
    assert_eq!(tab.current_dir, String::from("/home/user/docs/work"));
    assert!(tab.can_go_back());
    assert!(!tab.can_go_forward());
    tab.navigate_back();
    assert_eq!(tab.current_dir, String::from("/home/user/docs"));
    assert!(tab.can_go_forward());
    tab.navigate_back();
    assert_eq!(tab.current_dir, String::from("/home/user"));
    assert!(!tab.can_go_back());
}

#[test]
fn navigate_to_clears_forward_history() {
    let mut tab = TabState::new(1, String::from("/a"));
    tab.navigate_to(String::from("/b"));
    tab.navigate_back();
    tab.navigate_to(String::from("/c"));
    assert!(!tab.can_go_forward());
    assert_eq!(tab.current_dir, String::from("/c"));
}

#[test]
fn target_state_recent_list() {
    let mut t = TargetState::default();
    t.set(String::from("/a"));
    t.set(String::from("/b"));
    t.set(String::from("/c"));
    assert_eq!(t.current, Some(String::from("/c")));
    assert_eq!(t.recent[0], String::from("/b"));
    assert_eq!(t.recent[1], String::from("/a"));
    t.clear();
    assert!(t.current.is_none());
    assert_eq!(t.recent[0], String::from("/c"));
}

#[test]
fn target_state_pinned_behavior() {
    let mut t = TargetState::default();
    t.set(String::from("/a"));
    t.set(String::from("/b"));
    t.pin(String::from("/a"));
    assert_eq!(t.pinned, vec![String::from("/a")]);
    assert!(!t.recent.iter().any(|p| p == &String::from("/a")));
    t.unpin(&String::from("/a"));
    assert!(t.pinned.is_empty());
}

#[test]
fn semantic_priority_exact_over_extension() {
    let s = classify_file("/tmp/Dockerfile", EntryKind::File, false, None, PlatformCaseMode::CaseSensitive);
    assert_eq!(s.category, FileCategory::Config);
    assert_eq!(s.rule_hint.as_deref(), Some("exact:Dockerfile"));
}

#[test]
fn semantic_platform_case_mode() {
    let cs = classify_file("/tmp/readme.md", EntryKind::File, false, None, PlatformCaseMode::CaseSensitive);
    assert_ne!(cs.rule_hint.as_deref(), Some("exact:README.md"));

    let ci = classify_file("/tmp/readme.md", EntryKind::File, false, None, PlatformCaseMode::CaseInsensitive);
    assert_eq!(ci.rule_hint.as_deref(), Some("exact:README.md"));
}

#[test]
fn semantic_code_subtype_mapping() {
    let rs = classify_file("/tmp/main.rs", EntryKind::File, false, None, PlatformCaseMode::CaseSensitive);
    assert_eq!(rs.category, FileCategory::Code);
    assert_eq!(rs.code_subtype, Some(CodeSubtype::Rust));

    let yml = classify_file("/tmp/compose.yml", EntryKind::File, false, None, PlatformCaseMode::CaseSensitive);
    assert_eq!(yml.category, FileCategory::Config);
    assert_eq!(yml.code_subtype, Some(CodeSubtype::YAML));
}

#[test]
fn semantic_filesystem_fallbacks() {
    let exec = classify_file("/tmp/run", EntryKind::File, true, None, PlatformCaseMode::CaseSensitive);
    assert_eq!(exec.category, FileCategory::Executable);

    let link_dir =
        classify_file("/tmp/link-to-dir", EntryKind::Symlink, false, Some(true), PlatformCaseMode::CaseSensitive);
    assert_eq!(link_dir.category, FileCategory::Directory);
}

#[test]
fn tab_list_open_and_close_keeps_last_tab() {
    let mut tabs = vec![TabState::new(1, String::from("/home"))];
    let mut next_id: u64 = 2;
    let mut active: usize = 0;
    let idx = open_tab(&mut tabs, &mut next_id, String::from("/tmp"), ViewMode::List);
    assert_eq!(idx, 1);
    assert_eq!(tabs.len(), 2);
    assert_eq!(tabs[1].id, 2);
    assert_eq!(tabs[1].view_mode, ViewMode::List);
    assert_eq!(next_id, 3);
    active = 1;
    let unlink = close_tab_at(&mut tabs, &mut active, Some((1, 2)), idx);
    assert!(unlink);
    assert_eq!(tabs.len(), 1);
    assert_eq!(active, 0);
    let unlink = close_tab_at(&mut tabs, &mut active, None, 0);
    assert!(!unlink);
    assert_eq!(tabs.len(), 1);
}

#[test]
fn tab_lookup_and_active_index() {
    let tabs = vec![TabState::new(4, String::from("/a")), TabState::new(9, String::from("/b"))];
    assert_eq!(tab_idx_by_id(&tabs, 9), Some(1));
    assert_eq!(tab_idx_by_id(&tabs, 5), None);
    assert_eq!(active_index(7, 2), 1);
    assert_eq!(active_index(0, 2), 0);
    assert_eq!(active_index(3, 0), 0);
}

#[test]
fn modified_text_relative_and_absolute() {
    let now = 1_000_000_000u64;
    assert_eq!(format_modified_at(now - 30, now), "just now");
    assert_eq!(format_modified_at(now - 120, now), "2 min ago");
    assert_eq!(format_modified_at(now - 7_200, now), "2 hr ago");
    assert_eq!(format_modified_at(now - 3 * 86_400, now), "3 days ago");
    assert_eq!(format_modified_at(now + 10, now), "just now");
    // 40 days after the epoch: day 40 of the year, in its second 30-day month.
    assert_eq!(format_modified_at(40 * 86_400, now), "Feb 1970");
    assert_eq!(format_modified_at(0, now), "Jan 1970");
    // Late in a year the month index is capped at December.
    assert_eq!(format_modified_at(364 * 86_400, now), "Dec 1970");
}

#[test]
fn tab_display_name_and_up() {
    let mut tab = TabState::new(3, String::from("/home/user/docs"));
    assert_eq!(tab.display_name(), "docs");
    assert!(tab.can_go_up());
    assert!(tab.navigate_up());
    assert_eq!(tab.current_dir, "/home/user");
    tab.label = Some(String::from("Work"));
    assert_eq!(tab.display_name(), "Work");
    let root = TabState::new(4, String::from("/"));
    assert_eq!(root.display_name(), "/");
    assert!(!root.can_go_up());
}

#[test]
fn target_is_set_until_cleared() {
    let mut t = TargetState::default();
    assert!(!t.is_set());
    t.set(String::from("/a"));
    assert!(t.is_set());
    t.clear();
    assert!(!t.is_set());
    assert_eq!(t.recent, vec![String::from("/a")]);
}

#[test]
fn queue_policy_and_case_mode() {
    let mut q = TransferQueue::default();
    assert_eq!(q.default_policy, ConflictPolicy::Rename);
    q.set_default_policy(ConflictPolicy::Skip);
    assert_eq!(q.default_policy, ConflictPolicy::Skip);
    assert_eq!(platform_case_mode_current(), PlatformCaseMode::CaseSensitive);
}

#[test]
fn app_state_new_tab_and_close() {
    let mut tabs = vec![TabState::new(1, String::from("/home/user"))];
    let mut next_id: u64 = 2;
    let mut active: usize = 0;
    let idx = open_tab(&mut tabs, &mut next_id, String::from("/tmp"), ViewMode::Miller);
    assert_eq!(tabs.len(), 2);
    close_tab_at(&mut tabs, &mut active, None, idx);
    assert_eq!(tabs.len(), 1);
    // Should not close the last tab
    close_tab_at(&mut tabs, &mut active, None, 0);
    assert_eq!(tabs.len(), 1);
}
