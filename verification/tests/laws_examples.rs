use ottrin::model::{
    ConflictAction, EntryKind, FileCategory, FileCommand, FolderKind, PlatformCaseMode,
};
use ottrin::semantic::classify_file;
use ottrin::navigation::TabState;
use ottrin::target::TargetState;
use ottrin::transfer::{JobStatus, TransferQueue};

#[test]
fn recent_targets_stay_bounded() {
    let mut t = TargetState::default();
    for i in 0..15 {
        t.set(format!("/t{}", i));
    }
    assert_eq!(t.recent.len(), 10);
    assert_eq!(t.current, Some(String::from("/t14")));
    assert_eq!(t.recent[0], "/t13");
    assert!(!t.recent.iter().any(|p| p == "/t14"));
    t.set(String::from("/t10"));
    assert!(!t.recent.iter().any(|p| p == "/t10"));
}

#[test]
fn moving_a_pin_up_then_down_restores_the_order() {
    let mut t = TargetState::default();
    t.pin(String::from("/a"));
    t.pin(String::from("/b"));
    t.pin(String::from("/c"));
    let before = t.pinned.clone();
    t.move_pin_up(2);
    assert_eq!(t.pinned, vec!["/c", "/a", "/b"]);
    t.move_pin_down(1);
    assert_eq!(t.pinned, before);
}

#[test]
fn navigation_steps_undo_each_other() {
    let mut tab = TabState::new(1, String::from("/a"));
    tab.navigate_to(String::from("/a/b"));
    tab.navigate_back();
    assert_eq!(tab.current_dir, "/a");
    tab.navigate_forward();
    assert_eq!(tab.current_dir, "/a/b");
    tab.navigate_back();
    tab.navigate_forward();
    tab.navigate_back();
    assert_eq!(tab.current_dir, "/a");
    assert!(tab.navigate_up());
    assert_eq!(tab.current_dir, "/");
    assert!(!tab.navigate_up());
}

#[test]
fn directories_are_directories_whatever_their_name() {
    let d = classify_file("/tmp/Cargo.toml", EntryKind::Directory, false, None, PlatformCaseMode::CaseSensitive);
    assert_eq!(d.category, FileCategory::Directory);
    let l = classify_file("/tmp/x.rs", EntryKind::Symlink, false, Some(true), PlatformCaseMode::CaseSensitive);
    assert_eq!(l.category, FileCategory::Directory);
    let home = classify_file("/home/u/Downloads", EntryKind::Directory, false, None, PlatformCaseMode::CaseSensitive);
    assert_eq!(home.folder_kind, Some(FolderKind::Downloads));
}

#[test]
fn canceling_twice_cancels_nothing_more() {
    let mut q = TransferQueue::default();
    let copy = |d: &str| FileCommand::Copy {
        sources: vec![String::from("/s")],
        destination: d.to_string(),
        conflict: ConflictAction::Rename,
    };
    q.enqueue(copy("/1"), String::from("/1")).unwrap();
    q.enqueue(copy("/2"), String::from("/2")).unwrap();
    q.mark_running(1).unwrap();
    assert_eq!(q.cancel_pending(), 1);
    assert_eq!(q.cancel_pending(), 0);
    assert_eq!(q.clear_completed(), 1);
    assert_eq!(q.jobs.len(), 1);
    assert_eq!(q.jobs[0].status, JobStatus::Running);
}

#[test]
fn recent_targets_never_repeat_a_path() {
    let mut t = TargetState::default();
    for p in ["/a", "/b", "/a", "/c", "/b", "/a/", "/c"] {
        t.set(String::from(p));
    }
    let mut seen: Vec<&str> = Vec::new();
    for r in &t.recent {
        let key = r.trim_end_matches('/');
        assert!(!seen.contains(&key), "{:?}", t.recent);
        seen.push(key);
    }
    assert!(!t.recent.iter().any(|r| r.trim_end_matches('/') == "/c"));
}
