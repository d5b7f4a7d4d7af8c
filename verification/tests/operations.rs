use ottrin::indexer::EntryMeta;
use ottrin::locate::{
    crontab_message, crontab_update, locate_line, parse_count, service_unit, system_schedule_status, timer_installed_message,
    timer_unit, user_schedule_status,
};
use ottrin::model::{
    ConflictAction, EntryKind, FileCommand, PrivilegedPayload, PrivilegedStatus,
};
use ottrin::platform::{
    helper_path_from_args, choose_helper, destination_path, file_command_response, helper_candidates, listing_entry, listing_response,
    map_platform_error, new_mode, numbered_name, parse_mode, parse_octal, plan_destination, privileged_availability,
    silent_helper_error, symbolic_bits, DestinationPlan, IoMode, PlatformError, PrivilegedAvailability,
};
use ottrin::preview::{
    metadata_summary, audio_lines, classify_path, field_line, more_entries_line, pdf_header, plan_preview, summarize_zip,
    text_preview, zip_header, ArchiveEntry, AudioFacts, AudioTags, PreviewKind, PreviewPlan, PreviewRequest,
};
use ottrin::store::{entry_kind_from_i64, entry_kind_to_i64, migration_for, tree_like_pattern, Migration};
use ottrin::transfer::{ConflictPolicy, JobStatus, QueueError, TransferQueue};

fn args(v: &[&str]) -> Vec<String> {
    v.iter().map(|s| s.to_string()).collect()
}

#[test]
fn helper_mode_from_arguments() {
    assert_eq!(parse_mode(args(&["--request-file", "a", "--stdio-json"])), Ok(IoMode::Stdio));
    assert_eq!(
        parse_mode(args(&["--response-file", "out", "x", "--request-file", "in"])),
        Ok(IoMode::Files { request_file: String::from("in"), response_file: String::from("out") })
    );
    assert_eq!(parse_mode(args(&["--request-file"])), Err(String::from("Missing path after --request-file")));
    assert_eq!(
        parse_mode(args(&["--request-file", "a", "--response-file"])),
        Err(String::from("Missing path after --response-file"))
    );
    assert_eq!(
        parse_mode(args(&["--request-file", "a"])),
        Err(String::from(
            "Usage: ottrin-priv-helper --stdio-json OR --request-file <path> --response-file <path>"
        ))
    );
}

#[test]
fn helper_responses() {
    let denied = map_platform_error(String::from("filesystem operation failed: Permission denied (os error 13)"));
    assert_eq!(denied.status, PrivilegedStatus::Denied);
    let win = map_platform_error(String::from("Access is denied."));
    assert_eq!(win.status, PrivilegedStatus::Denied);
    let other = map_platform_error(String::from("No such file"));
    assert_eq!(other.status, PrivilegedStatus::Failed);
    assert_eq!(other.message.as_deref(), Some("No such file"));
    let ok = file_command_response(Ok(()));
    assert_eq!(ok.status, PrivilegedStatus::Success);
    let err = file_command_response(Err(PlatformError::InvalidSource(String::from("/x"))));
    assert_eq!(err.message.as_deref(), Some("invalid source path: /x"));
    assert_eq!(err.status, PrivilegedStatus::Failed);
    let listed = listing_response(Ok(Vec::new()));
    assert_eq!(listed.payload, Some(PrivilegedPayload::Entries(Vec::new())));
    let failed = listing_response(Err(String::from("permission denied")));
    assert_eq!(failed.status, PrivilegedStatus::Denied);
}

#[test]
fn platform_error_texts() {
    assert_eq!(PlatformError::Io(String::from("e")).message(), "filesystem operation failed: e");
    assert_eq!(
        PlatformError::InvalidDestination(String::from("/d")).message(),
        "destination must be an existing directory: /d"
    );
    assert_eq!(PlatformError::DestinationExists(String::from("/d")).message(), "destination entry already exists: /d");
    assert_eq!(
        PlatformError::NotAvailable(String::from("x")).message(),
        "operation is not available on this platform: x"
    );
}

#[test]
fn destinations_and_numbered_names() {
    assert_eq!(destination_path("/src/a.txt", "/dst"), Ok(String::from("/dst/a.txt")));
    assert_eq!(destination_path("/", "/dst"), Err(PlatformError::InvalidSource(String::from("/"))));
    assert_eq!(
        plan_destination(String::from("/d/a"), false, ConflictAction::Skip),
        DestinationPlan::Use(String::from("/d/a"))
    );
    assert_eq!(plan_destination(String::from("/d/a"), true, ConflictAction::Skip), DestinationPlan::Skip);
    assert_eq!(
        plan_destination(String::from("/d/a"), true, ConflictAction::Overwrite),
        DestinationPlan::Overwrite(String::from("/d/a"))
    );
    assert_eq!(
        plan_destination(String::from("/d/a"), true, ConflictAction::Rename),
        DestinationPlan::Rename(String::from("/d/a"))
    );
    assert_eq!(numbered_name("/d/report.pdf", 1), "/d/report (1).pdf");
    assert_eq!(numbered_name("/d/notes", 12), "/d/notes (12)");
    assert_eq!(numbered_name("/d/.bashrc", 2), "/d/.bashrc (2)");
}

#[test]
fn permission_modes() {
    assert_eq!(symbolic_bits("rx"), Ok(0o555));
    assert_eq!(symbolic_bits(""), Ok(0));
    assert_eq!(symbolic_bits("rq"), Err(String::from("Unknown permission bit: q")));
    assert_eq!(new_mode(0o600, "+x"), Ok(0o711));
    assert_eq!(new_mode(0o777, "-w"), Ok(0o555));
    assert_eq!(new_mode(0o600, "755"), Ok(0o755));
    assert_eq!(new_mode(0o600, "8"), Err(String::from("Invalid mode: 8")));
    assert_eq!(new_mode(0o600, ""), Err(String::from("Invalid mode: ")));
    assert_eq!(new_mode(0o600, "+z"), Err(String::from("Unknown permission bit: z")));
    assert_eq!(parse_octal("37777777777"), Some(u32::MAX));
    assert_eq!(parse_octal("40000000000"), None);
}

#[test]
fn helper_path_on_the_command_line() {
    assert_eq!(helper_path_from_args(&args(&["ottrin", "--helper-path", "/h1"])), Some(String::from("/h1")));
    assert_eq!(helper_path_from_args(&args(&["ottrin", "--helper-path=/h2", "x"])), Some(String::from("/h2")));
    assert_eq!(helper_path_from_args(&args(&["ottrin", "--helper-path="])), None);
    assert_eq!(helper_path_from_args(&args(&["ottrin", "--helper-path"])), None);
    assert_eq!(
        helper_path_from_args(&args(&["ottrin", "--helper-path", "/a", "--helper-path=/b"])),
        Some(String::from("/b"))
    );
    assert_eq!(helper_path_from_args(&args(&["--helper-path=/ignored-program-name"])), None);
}

#[test]
fn helper_discovery_and_availability() {
    let c = helper_candidates("/opt/app/bin", "ottrin-priv-helper");
    assert_eq!(c[0], "/opt/app/bin/ottrin-priv-helper");
    assert_eq!(c[1], "/opt/app/bin/../libexec/ottrin/ottrin-priv-helper");
    assert_eq!(c[5], "/usr/libexec/ottrin-priv-helper");
    assert_eq!(choose_helper(Some(String::from("/o")), None, None, "h"), "/o");
    assert_eq!(choose_helper(None, Some((String::from("/e"), false)), Some(String::from("/d")), "h"), "/d");
    assert_eq!(choose_helper(None, Some((String::from("/e"), true)), None, "h"), "/e");
    assert_eq!(choose_helper(None, None, None, "h"), "h");
    assert_eq!(
        privileged_availability(false, "h", true),
        PrivilegedAvailability::Misconfigured(String::from("pkexec not found in PATH"))
    );
    assert_eq!(
        privileged_availability(true, "h", false),
        PrivilegedAvailability::Misconfigured(String::from(
            "Privileged helper 'h' not found (set OTTRIN_PRIV_HELPER or use --helper-path)"
        ))
    );
    assert_eq!(privileged_availability(true, "h", true), PrivilegedAvailability::Ready);
}

#[test]
fn listing_entries() {
    let meta = EntryMeta { kind: EntryKind::File, len: 4, modified_unix_secs: None, is_executable: true, target_is_dir: false };
    assert!(listing_entry(String::from(".x"), String::from("/d/.x"), meta, false).is_none());
    let e = listing_entry(String::from(".x"), String::from("/d/.x"), meta, true).unwrap();
    assert_eq!(e.size_bytes, Some(4));
    assert!(e.is_executable);
}

#[test]
fn locate_schedules_and_answers() {
    let s = user_schedule_status(true, None, "");
    assert_eq!((s.source.as_str(), s.enabled, s.detail.as_str()), ("systemd user timer", true, "Enabled"));
    let s = user_schedule_status(true, Some(false), "");
    assert_eq!(s.detail, "Installed but disabled");
    let s = user_schedule_status(false, None, "0 * * * * x\n# ottrin-updatedb\n");
    assert_eq!(s.source, "crontab");
    let s = user_schedule_status(false, None, "");
    assert_eq!((s.source.as_str(), s.enabled), ("none", false));
    let s = system_schedule_status(Some("x mlocate.timer y updatedb.timer"), Some("/etc/cron.daily/plocate"));
    assert_eq!(s.detail.as_deref(), Some("mlocate.timer"));
    let s = system_schedule_status(Some("nothing"), Some("/etc/cron.daily/plocate"));
    assert_eq!(s.source.as_deref(), Some("cron"));
    let s = system_schedule_status(None, None);
    assert!(s.needs_setup);
    assert_eq!(
        service_unit("/home/u", "/db"),
        "[Unit]\nDescription=Ottrin locate database update\n\n[Service]\nType=oneshot\nExecStart=/usr/bin/updatedb -l 0 -U /home/u -o /db\n"
    );
    assert_eq!(
        timer_unit(6),
        "[Unit]\nDescription=Ottrin locate database update timer\n\n[Timer]\nOnBootSec=2min\nOnUnitActiveSec=6h\n\n[Install]\nWantedBy=timers.target\n"
    );
    assert!(timer_installed_message(6).contains("every 6h and on boot"));
    assert_eq!(
        crontab_update("old line\n\n", 4, "/r", "/db"),
        Some(String::from("old line\n# ottrin-updatedb\n0 */4 * * * updatedb -l 0 -U /r -o /db\n"))
    );
    assert_eq!(crontab_update("x # ottrin-updatedb", 4, "/r", "/db"), None);
    assert_eq!(crontab_message(true, 4), "Crontab entry already installed.");
    assert_eq!(crontab_message(false, 4), "Crontab entry installed.\nUpdatedb will run every 4h.");
    let roots = vec![String::from("/home/u")];
    assert_eq!(locate_line("  /home/u/a.txt ", &roots, false), Some(String::from("/home/u/a.txt")));
    assert_eq!(locate_line("/home/u/.a", &roots, false), None);
    assert_eq!(locate_line("/home/u/.a", &roots, true), Some(String::from("/home/u/.a")));
    assert_eq!(locate_line("/etc/a", &roots, true), None);
}

#[test]
fn previews() {
    assert_eq!(classify_path("/x/README.MD"), PreviewKind::Text);
    assert_eq!(classify_path("/x/photo.JPG"), PreviewKind::Image);
    assert_eq!(classify_path("/x/a.pdf"), PreviewKind::Pdf);
    assert_eq!(classify_path("/x/a.mkv"), PreviewKind::VideoMetadata);
    assert_eq!(classify_path("/x/a.flac"), PreviewKind::AudioMetadata);
    assert_eq!(classify_path("/x/a.tar"), PreviewKind::ArchiveMetadata);
    assert_eq!(classify_path("/x/a.docx"), PreviewKind::OfficeMetadata);
    assert_eq!(classify_path("/x/noext"), PreviewKind::Unsupported);
    match plan_preview(&PreviewRequest { path: String::from("/home/u"), kind_hint: EntryKind::Directory }) {
        PreviewPlan::Ready(p) => {
            assert_eq!(p.title, "u");
            assert_eq!(p.body, "Directory:\n/home/u");
            assert!(!p.open_external);
        },
        other => panic!("unexpected plan {:?}", other),
    }
    match plan_preview(&PreviewRequest { path: String::from("/"), kind_hint: EntryKind::File }) {
        PreviewPlan::Load { title, kind } => {
            assert_eq!(title, "Preview");
            assert_eq!(kind, PreviewKind::Unsupported);
        },
        other => panic!("unexpected plan {:?}", other),
    }
    let t = text_preview(String::from("t"), &b"hello".to_vec());
    assert_eq!((t.kind, t.body.as_str(), t.open_external), (PreviewKind::Text, "hello", false));
    let bad = text_preview(String::from("t"), &vec![0xff, 0xfe]);
    assert_eq!(bad.body, "File is not valid UTF-8 text.");
    let big = vec![b'a'; 131_073];
    let t = text_preview(String::from("t"), &big);
    assert!(t.body.ends_with("\n\n...(truncated)"));
    assert_eq!(t.body.len(), 131_072 + "\n\n...(truncated)".len());
}

#[test]
fn zip_summaries() {
    let mut entries = vec![ArchiveEntry { name: String::from("dir/"), size: 0, is_dir: true }];
    for i in 0..201u64 {
        entries.push(ArchiveEntry { name: format!("dir/f{}", i), size: i, is_dir: false });
    }
    let s = summarize_zip(&entries, entries.len());
    assert_eq!(s.dirs, 1);
    assert_eq!(s.files, 201);
    assert_eq!(s.total_uncompressed, 200 * 201 / 2);
    assert_eq!(s.listed.len(), 200);
    assert_eq!(s.more, 2);
    // Entries that could not be read still count among the ones not listed.
    assert_eq!(summarize_zip(&entries, 205).more, 5);
    assert_eq!(summarize_zip(&entries[..3].to_vec(), 150).more, 0);
    assert_eq!(zip_header(201, 1), "ZIP archive — 201 files, 1 folder");
    assert_eq!(zip_header(1, 0), "ZIP archive — 1 file, 0 folders");
    assert_eq!(more_entries_line(2), "  ... and 2 more entries");
}

#[test]
fn document_and_audio_lines() {
    assert_eq!(pdf_header(1), "PDF document — 1 page");
    assert_eq!(pdf_header(3), "PDF document — 3 pages");
    assert_eq!(field_line("Title", Some(String::from("Report"))), Some(String::from("Title: Report")));
    assert_eq!(field_line("Title", Some(String::from("   "))), None);
    assert_eq!(field_line("Title", None), None);
    let facts = AudioFacts {
        duration_secs: 185,
        bitrate_kbps: Some(320),
        sample_rate_hz: None,
        channels: Some(2),
        tags: Some(AudioTags {
            title: Some(String::from("Song")),
            artist: None,
            album: None,
            year: Some(1999),
            genre: None,
            track: Some(4),
        }),
    };
    assert_eq!(
        audio_lines(&facts, Some(String::from("Size: 3 B"))),
        vec!["Duration: 3:05", "Bitrate: 320 kbps", "Channels: 2", "Title: Song", "Year: 1999", "Track: 4", "Size: 3 B"]
    );
    let empty = AudioFacts { duration_secs: 0, bitrate_kbps: None, sample_rate_hz: None, channels: None, tags: None };
    assert_eq!(audio_lines(&empty, None), vec!["Audio file — no metadata available."]);
}

#[test]
fn stored_entry_kinds_round_trip() {
    for kind in [EntryKind::File, EntryKind::Directory, EntryKind::Symlink, EntryKind::Other] {
        assert_eq!(entry_kind_from_i64(entry_kind_to_i64(kind)), kind);
    }
    assert_eq!(entry_kind_to_i64(EntryKind::Symlink), 2);
    assert_eq!(entry_kind_from_i64(42), EntryKind::File);
    assert_eq!(migration_for(0), Migration::CreateSchema);
    assert_eq!(migration_for(1), Migration::AddScanStateIndex);
    assert_eq!(migration_for(2), Migration::Current);
    assert_eq!(migration_for(3), Migration::Unsupported(3));
    assert_eq!(tree_like_pattern("/a/b//"), "/a/b/%");
    assert_eq!(tree_like_pattern("/"), "/%");
}

fn copy(dest: &str) -> FileCommand {
    FileCommand::Copy { sources: vec![String::from("/a")], destination: dest.to_string(), conflict: ConflictAction::Skip }
}

#[test]
fn transfer_queue_lifecycle() {
    let mut q = TransferQueue::default();
    assert_eq!(q.default_policy, ConflictPolicy::Rename);
    let a = q.enqueue(copy("/d1"), String::from("/d1")).unwrap();
    let b = q.enqueue(copy("/d2"), String::from("/d2")).unwrap();
    assert_eq!((a, b), (1, 2));
    assert_eq!(
        q.enqueue(FileCommand::ShowProperties { target: String::from("/x") }, String::new()),
        Err(QueueError::InvalidCommand)
    );
    assert_eq!(q.mark_running(a), Ok(()));
    assert_eq!(q.jobs[0].status, JobStatus::Running);
    assert!(q.jobs[0].started_at_unix_secs.is_some());
    assert_eq!(q.set_expected_bytes(a, 100), Ok(()));
    assert_eq!(q.mark_completed(a, 0), Ok(()));
    assert_eq!(q.jobs[0].bytes_total, 100);
    assert_eq!(q.jobs[0].eta_seconds, Some(0));
    assert_eq!(q.mark_failed(99, String::from("x")), Err(QueueError::JobNotFound(99)));
    assert_eq!(QueueError::JobNotFound(99).message(), "transfer job not found: 99");
    assert_eq!(q.cancel_pending(), 1);
    assert_eq!(q.jobs[1].status, JobStatus::Canceled);
    assert_eq!(q.clear_completed(), 2);
    assert!(q.jobs.is_empty());
    let c = q.enqueue(copy("/d3"), String::from("/d3")).unwrap();
    assert_eq!(c, 3);
    assert_eq!(q.mark_failed(c, String::from("disk full")), Ok(()));
    assert_eq!(q.failed_jobs().len(), 1);
    assert_eq!(q.mark_retry_pending(c), Ok(()));
    assert_eq!(q.jobs[0].status, JobStatus::Pending);
    assert!(q.jobs[0].last_error.is_none());
    assert!(q.failed_jobs().is_empty());
}

#[test]
fn silent_helper_runs_report_why() {
    assert_eq!(silent_helper_error(false, String::new()), PlatformError::Io(String::from("privileged helper failed")));
    assert_eq!(silent_helper_error(false, String::from("denied")), PlatformError::Io(String::from("denied")));
    assert_eq!(
        silent_helper_error(true, String::from("noise")),
        PlatformError::Io(String::from("privileged helper returned no data"))
    );
}

#[test]
fn metadata_summaries_list_what_is_known() {
    let full = metadata_summary(
        "/d/song.mp3",
        "Audio file.",
        Some((String::from("2.0 MB"), Some(String::from("2024-01-02 03:04")))),
        Some("Could not read audio tags."),
    );
    assert_eq!(full, "Audio file.\nSize: 2.0 MB\nModified: 2024-01-02 03:04\nFormat: MP3\nCould not read audio tags.");
    let bare = metadata_summary("/d/README", "Video file.", Some((String::from("5 B"), None)), Some(""));
    assert_eq!(bare, "Video file.\nSize: 5 B");
    assert_eq!(metadata_summary("/d/x.zip", "ZIP archive.", None, None), "ZIP archive.\nMetadata unavailable.");
}

#[test]
fn locate_counts_read_like_usize() {
    assert_eq!(parse_count("  1234\n"), Some(1234));
    assert_eq!(parse_count("+7"), Some(7));
    assert_eq!(parse_count("+"), None);
    assert_eq!(parse_count(""), None);
    assert_eq!(parse_count("-1"), None);
    assert_eq!(parse_count("12a"), None);
    assert_eq!(parse_count("99999999999999999999999"), None);
    assert_eq!(parse_count("18446744073709551615"), Some(usize::MAX));
}
