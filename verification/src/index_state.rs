//! The state of the search index as the background indexer moves it along:
//! scans start, report progress and batches, finish or fail; watchers are set
//! up; change events are applied; and the schedule decides when to rebuild.

use vstd::prelude::*;
use crate::indexer::{after_actions, apply_incremental, IndexFilter, NotifyAction};
use crate::model::{SearchIndexStatus, SearchResultItem};
use crate::ranking::{age_text, format_age};
use crate::content::{lines_of, split_lines};
use crate::text::{chars_of, decimal, has_prefix, push_char, push_decimal, push_str, str_starts_with, str_trim, trim};

verus! {

/// With no progress for longer than this many seconds, an index build counts as stalled.
pub const INDEX_STALL_SECS: u64 = 600;

/// After restarting a stalled build, another restart waits this many seconds.
pub const INDEX_STALL_RESTART_COOLDOWN_SECS: u64 = 1_800;

/// A cached index younger than this many seconds is used without an immediate rebuild.
pub const FRESH_CACHE_SECS: u64 = 1_800;

/// The shared state of the index.
#[derive(Debug)]
pub struct IndexState {
    pub items: Vec<SearchResultItem>,
    pub status: SearchIndexStatus,
    pub last_error: Option<String>,
    pub progress_text: Option<String>,
    pub last_completed_indexed_items: Option<usize>,
    pub estimated_total_items: Option<usize>,
    pub last_indexed_path: Option<String>,
    pub building_indexed_items: usize,
    pub configured_root_count: usize,
    pub watched_root_count: usize,
    pub watcher_ready: bool,
    pub watcher_last_setup_unix_secs: Option<u64>,
    pub watcher_last_error: Option<String>,
    pub active_root: Option<String>,
    pub active_root_index: usize,
    pub total_roots: usize,
    pub last_scan_started_unix_secs: Option<u64>,
    pub last_scan_completed_unix_secs: Option<u64>,
    pub last_scan_duration_ms: Option<u64>,
    pub last_progress_unix_secs: Option<u64>,
}

/// A snapshot of the index's state for display.
#[derive(Debug, Clone, PartialEq, Eq)]
pub struct SearchIndexDiagnostics {
    pub status: SearchIndexStatus,
    pub detail: Option<String>,
    pub indexed_items: usize,
    pub last_completed_indexed_items: Option<usize>,
    pub estimated_total_items: Option<usize>,
    pub last_indexed_path: Option<String>,
    pub configured_root_count: usize,
    pub watched_root_count: usize,
    pub watcher_ready: bool,
    pub watcher_last_setup_unix_secs: Option<u64>,
    pub watcher_last_error: Option<String>,
    pub active_root: Option<String>,
    pub active_root_index: usize,
    pub total_roots: usize,
    pub last_scan_started_unix_secs: Option<u64>,
    pub last_scan_completed_unix_secs: Option<u64>,
    pub last_scan_duration_ms: Option<u64>,
    pub last_progress_unix_secs: Option<u64>,
    pub last_error: Option<String>,
}

impl Default for IndexState {
    fn default() -> (s: Self)
        ensures
            s.items@.len() == 0,
            s.status == SearchIndexStatus::Indexing,
            s.last_error is None,
            s.progress_text is None,
            s.last_completed_indexed_items is None,
            s.estimated_total_items is None,
            s.last_indexed_path is None,
            s.building_indexed_items == 0,
            s.configured_root_count == 0,
            s.watched_root_count == 0,
            !s.watcher_ready,
            s.watcher_last_setup_unix_secs is None,
            s.watcher_last_error is None,
            s.active_root is None,
            s.active_root_index == 0,
            s.total_roots == 0,
            s.last_scan_started_unix_secs is None,
            s.last_scan_completed_unix_secs is None,
            s.last_scan_duration_ms is None,
            s.last_progress_unix_secs is None,
    {
        IndexState {
            items: Vec::new(),
            status: SearchIndexStatus::Indexing,
            last_error: None,
            progress_text: None,
            last_completed_indexed_items: None,
            estimated_total_items: None,
            last_indexed_path: None,
            building_indexed_items: 0,
            configured_root_count: 0,
            watched_root_count: 0,
            watcher_ready: false,
            watcher_last_setup_unix_secs: None,
            watcher_last_error: None,
            active_root: None,
            active_root_index: 0,
            total_roots: 0,
            last_scan_started_unix_secs: None,
            last_scan_completed_unix_secs: None,
            last_scan_duration_ms: None,
            last_progress_unix_secs: None,
        }
    }
}

/// The status line once `n` entries are indexed.
pub open spec fn ready_text(n: nat) -> Seq<char> {
    "Ready · "@ + decimal(n) + " indexed"@
}

/// The status line once `n` entries are indexed.
pub fn format_ready(n: usize) -> (s: String)
    ensures
        s@ == ready_text(n as nat),
{
    let mut s = String::new();
    push_str(&mut s, "Ready · ");
    push_decimal(&mut s, n as u64);
    push_str(&mut s, " indexed");
    s
}

/// The watcher's error line when `failed` roots could not be watched.
pub open spec fn watch_error_text(failed: nat) -> Option<Seq<char>> {
    if failed == 0 {
        None
    } else {
        Some("Failed to watch "@ + decimal(failed) + " location"@ + if failed == 1 {
            Seq::<char>::empty()
        } else {
            "s"@
        })
    }
}

/// The watcher's error line when `failed` roots could not be watched.
pub fn format_watch_error(failed: usize) -> (r: Option<String>)
    ensures
        match r {
            Some(s) => watch_error_text(failed as nat) == Some(s@),
            None => watch_error_text(failed as nat) is None,
        },
{
    if failed == 0 {
        return None;
    }
    let mut s = String::new();
    push_str(&mut s, "Failed to watch ");
    push_decimal(&mut s, failed as u64);
    push_str(&mut s, " location");
    if failed != 1 {
        push_str(&mut s, "s");
    } else {
        assert(s@ + Seq::<char>::empty() =~= s@);
    }
    Some(s)
}

/// The status line of an index loaded from the cache, and whether a rebuild must
/// follow: a fresh cache is used as is, an older one is refreshed in the background.
pub open spec fn cache_start_of(count: nat, age: Option<u64>) -> (Seq<char>, bool) {
    let a: u64 = match age {
        Some(v) => v,
        None => u64::MAX,
    };
    if a < FRESH_CACHE_SECS {
        ("Indexed "@ + decimal(count) + " files · "@ + age_text(a as nat), false)
    } else {
        ("Cached · "@ + decimal(count) + " files · "@ + age_text(a as nat) + " · refreshing…"@, true)
    }
}

fn copy_opt(o: &Option<String>) -> (r: Option<String>)
    ensures
        r == *o,
{
    match o {
        Some(s) => Some(s.clone()),
        None => None,
    }
}

impl IndexState {
    /// Use a cached index: it becomes the ready index, and the answer says whether
    /// a rebuild must still follow.
    pub fn load_cached(&mut self, cached: Vec<SearchResultItem>, age_secs: Option<u64>) -> (needs_rebuild: bool)
        ensures
            *final(self) == (IndexState {
                items: cached,
                status: SearchIndexStatus::Ready,
                progress_text: final(self).progress_text,
                ..*old(self)
            }),
            final(self).progress_text matches Some(t) && t@ == cache_start_of(cached@.len(), age_secs).0,
            needs_rebuild == cache_start_of(cached@.len(), age_secs).1,
    {
        let count = cached.len();
        let age: u64 = match age_secs {
            Some(v) => v,
            None => u64::MAX,
        };
        let age_str = format_age(age);
        self.items = cached;
        self.status = SearchIndexStatus::Ready;
        let mut t = String::new();
        if age < FRESH_CACHE_SECS {
            push_str(&mut t, "Indexed ");
            push_decimal(&mut t, count as u64);
            push_str(&mut t, " files · ");
            push_str(&mut t, age_str.as_str());
            self.progress_text = Some(t);
            false
        } else {
            push_str(&mut t, "Cached · ");
            push_decimal(&mut t, count as u64);
            push_str(&mut t, " files · ");
            push_str(&mut t, age_str.as_str());
            push_str(&mut t, " · refreshing…");
            self.progress_text = Some(t);
            true
        }
    }

    /// A full scan begins over `roots` roots. `estimate` is the expected entry count,
    /// kept only when no scan has completed yet.
    pub fn begin_scan(&mut self, roots: usize, estimate: Option<usize>, now: u64)
        ensures
            *final(self) == (IndexState {
                status: SearchIndexStatus::Indexing,
                last_error: None,
                configured_root_count: roots,
                watched_root_count: 0,
                watcher_ready: false,
                watcher_last_setup_unix_secs: None,
                watcher_last_error: None,
                last_indexed_path: None,
                building_indexed_items: 0,
                estimated_total_items: if old(self).last_completed_indexed_items is None {
                    estimate
                } else {
                    None
                },
                active_root: None,
                active_root_index: 0,
                total_roots: roots,
                last_scan_started_unix_secs: Some(now),
                last_scan_completed_unix_secs: None,
                last_scan_duration_ms: None,
                last_progress_unix_secs: Some(now),
                progress_text: final(self).progress_text,
                ..*old(self)
            }),
            final(self).progress_text matches Some(t) && t@ == "Indexing · scanning…"@,
    {
        self.status = SearchIndexStatus::Indexing;
        self.last_error = None;
        self.configured_root_count = roots;
        self.watched_root_count = 0;
        self.watcher_ready = false;
        self.watcher_last_setup_unix_secs = None;
        self.watcher_last_error = None;
        self.last_indexed_path = None;
        self.building_indexed_items = 0;
        if self.last_completed_indexed_items.is_none() {
            self.estimated_total_items = estimate;
        } else {
            self.estimated_total_items = None;
        }
        self.active_root = None;
        self.active_root_index = 0;
        self.total_roots = roots;
        self.last_scan_started_unix_secs = Some(now);
        self.last_scan_completed_unix_secs = None;
        self.last_scan_duration_ms = None;
        self.last_progress_unix_secs = Some(now);
        self.progress_text = Some("Indexing · scanning…".to_owned());
    }

    /// The scan reports progress on a root.
    pub fn record_progress(&mut self, message: String, root: String, root_index: usize, total_roots: usize, now: u64)
        ensures
            *final(self) == (IndexState {
                progress_text: Some(message),
                active_root: Some(root),
                active_root_index: root_index,
                total_roots: total_roots,
                last_progress_unix_secs: Some(now),
                ..*old(self)
            }),
    {
        self.progress_text = Some(message);
        self.active_root = Some(root);
        self.active_root_index = root_index;
        self.total_roots = total_roots;
        self.last_progress_unix_secs = Some(now);
    }

    /// The scan hands over a batch of `len` entries, the last at `last_path`.
    pub fn record_batch(&mut self, last_path: Option<String>, len: usize, now: u64)
        ensures
            *final(self) == (IndexState {
                last_indexed_path: match last_path {
                    Some(p) => Some(p),
                    None => old(self).last_indexed_path,
                },
                building_indexed_items: if old(self).building_indexed_items + len > usize::MAX {
                    usize::MAX
                } else {
                    (old(self).building_indexed_items + len) as usize
                },
                last_progress_unix_secs: Some(now),
                ..*old(self)
            }),
    {
        if let Some(p) = last_path {
            self.last_indexed_path = Some(p);
        }
        self.building_indexed_items = if self.building_indexed_items > usize::MAX - len {
            usize::MAX
        } else {
            self.building_indexed_items + len
        };
        self.last_progress_unix_secs = Some(now);
    }

    /// The scan completed with `total` entries; they become the index.
    pub fn finish_scan(&mut self, items: Vec<SearchResultItem>, total: usize, now: u64, duration_ms: u64)
        ensures
            *final(self) == (IndexState {
                items: items,
                status: SearchIndexStatus::Ready,
                last_error: None,
                active_root: None,
                active_root_index: 0,
                last_scan_completed_unix_secs: Some(now),
                last_scan_duration_ms: Some(duration_ms),
                last_progress_unix_secs: Some(now),
                last_completed_indexed_items: Some(total),
                progress_text: final(self).progress_text,
                ..*old(self)
            }),
            final(self).progress_text matches Some(t) && t@ == ready_text(total as nat),
    {
        self.status = SearchIndexStatus::Ready;
        self.last_error = None;
        self.active_root = None;
        self.active_root_index = 0;
        self.last_scan_completed_unix_secs = Some(now);
        self.last_scan_duration_ms = Some(duration_ms);
        self.last_progress_unix_secs = Some(now);
        self.progress_text = Some(format_ready(total));
        self.last_completed_indexed_items = Some(total);
        self.items = items;
    }

    /// The scan failed with `error`; the index becomes unavailable.
    pub fn fail_scan(&mut self, error: String, now: u64, duration_ms: u64)
        ensures
            *final(self) == (IndexState {
                status: SearchIndexStatus::Unavailable,
                last_error: Some(error),
                active_root: None,
                active_root_index: 0,
                last_scan_completed_unix_secs: Some(now),
                last_scan_duration_ms: Some(duration_ms),
                last_progress_unix_secs: Some(now),
                progress_text: None,
                ..*old(self)
            }),
    {
        self.status = SearchIndexStatus::Unavailable;
        self.last_error = Some(error);
        self.active_root = None;
        self.active_root_index = 0;
        self.last_scan_completed_unix_secs = Some(now);
        self.last_scan_duration_ms = Some(duration_ms);
        self.last_progress_unix_secs = Some(now);
        self.progress_text = None;
    }

    /// The watchers were set up: `watched` roots are watched and `failed` could not be.
    pub fn record_watchers(&mut self, watched: usize, failed: usize, now: u64)
        ensures
            *final(self) == (IndexState {
                watched_root_count: watched,
                watcher_ready: true,
                watcher_last_setup_unix_secs: Some(now),
                watcher_last_error: final(self).watcher_last_error,
                ..*old(self)
            }),
            match final(self).watcher_last_error {
                Some(e) => watch_error_text(failed as nat) == Some(e@),
                None => watch_error_text(failed as nat) is None,
            },
    {
        self.watched_root_count = watched;
        self.watcher_ready = true;
        self.watcher_last_setup_unix_secs = Some(now);
        self.watcher_last_error = format_watch_error(failed);
    }

    /// A stalled build is being restarted.
    pub fn mark_stalled(&mut self)
        ensures
            *final(self) == (IndexState { progress_text: final(self).progress_text, ..*old(self) }),
            final(self).progress_text matches Some(t) && t@ == "Stalled · restarting index…"@,
    {
        self.progress_text = Some("Stalled · restarting index…".to_owned());
    }

    /// The indexer crashed; the index becomes unavailable until a restart.
    pub fn record_crash(&mut self, now: u64)
        ensures
            *final(self) == (IndexState {
                status: SearchIndexStatus::Unavailable,
                last_error: final(self).last_error,
                last_progress_unix_secs: Some(now),
                progress_text: final(self).progress_text,
                ..*old(self)
            }),
            final(self).last_error matches Some(e) && e@ == "Indexer thread panicked"@,
            final(self).progress_text matches Some(t) && t@ == "Indexer crashed · restart to retry"@,
    {
        self.status = SearchIndexStatus::Unavailable;
        self.last_error = Some("Indexer thread panicked".to_owned());
        self.last_progress_unix_secs = Some(now);
        self.progress_text = Some("Indexer crashed · restart to retry".to_owned());
    }

    /// Apply change events to the index; a ready index reports its new size.
    pub fn apply_changes(
        &mut self,
        actions: &Vec<NotifyAction>,
        stats: &Vec<Option<SearchResultItem>>,
        filter: &IndexFilter,
    )
        requires
            stats@.len() == actions@.len(),
        ensures
            final(self).items@ == after_actions(old(self).items@, actions@, stats@, *filter),
            *final(self) == (IndexState {
                items: final(self).items,
                progress_text: final(self).progress_text,
                ..*old(self)
            }),
            old(self).status == SearchIndexStatus::Ready ==> (final(self).progress_text matches Some(t) && t@
                == ready_text(final(self).items@.len())),
            old(self).status != SearchIndexStatus::Ready ==> final(self).progress_text == old(self).progress_text,
    {
        apply_incremental(&mut self.items, actions, stats, filter);
        if self.status == SearchIndexStatus::Ready {
            self.progress_text = Some(format_ready(self.items.len()));
        }
    }

    /// The detail line: the progress while building or ready, the error when unavailable.
    pub open spec fn detail_of(&self) -> Option<String> {
        match self.status {
            SearchIndexStatus::Unavailable => self.last_error,
            _ => self.progress_text,
        }
    }

    /// A snapshot of the state; while building, the count is that of the entries
    /// seen so far, otherwise the size of the index.
    pub fn diagnostics(&self) -> (d: SearchIndexDiagnostics)
        ensures
            d.status == self.status,
            d.detail == self.detail_of(),
            d.indexed_items == if self.status == SearchIndexStatus::Indexing {
                self.building_indexed_items
            } else {
                self.items@.len() as usize
            },
            d.last_completed_indexed_items == self.last_completed_indexed_items,
            d.estimated_total_items == self.estimated_total_items,
            d.last_indexed_path == self.last_indexed_path,
            d.configured_root_count == self.configured_root_count,
            d.watched_root_count == self.watched_root_count,
            d.watcher_ready == self.watcher_ready,
            d.watcher_last_setup_unix_secs == self.watcher_last_setup_unix_secs,
            d.watcher_last_error == self.watcher_last_error,
            d.active_root == self.active_root,
            d.active_root_index == self.active_root_index,
            d.total_roots == self.total_roots,
            d.last_scan_started_unix_secs == self.last_scan_started_unix_secs,
            d.last_scan_completed_unix_secs == self.last_scan_completed_unix_secs,
            d.last_scan_duration_ms == self.last_scan_duration_ms,
            d.last_progress_unix_secs == self.last_progress_unix_secs,
            d.last_error == self.last_error,
    {
        let detail = match self.status {
            SearchIndexStatus::Unavailable => copy_opt(&self.last_error),
            _ => copy_opt(&self.progress_text),
        };
        SearchIndexDiagnostics {
            status: self.status,
            detail,
            indexed_items: if self.status == SearchIndexStatus::Indexing {
                self.building_indexed_items
            } else {
                self.items.len()
            },
            last_completed_indexed_items: self.last_completed_indexed_items,
            estimated_total_items: self.estimated_total_items,
            last_indexed_path: copy_opt(&self.last_indexed_path),
            configured_root_count: self.configured_root_count,
            watched_root_count: self.watched_root_count,
            watcher_ready: self.watcher_ready,
            watcher_last_setup_unix_secs: self.watcher_last_setup_unix_secs,
            watcher_last_error: copy_opt(&self.watcher_last_error),
            active_root: copy_opt(&self.active_root),
            active_root_index: self.active_root_index,
            total_roots: self.total_roots,
            last_scan_started_unix_secs: self.last_scan_started_unix_secs,
            last_scan_completed_unix_secs: self.last_scan_completed_unix_secs,
            last_scan_duration_ms: self.last_scan_duration_ms,
            last_progress_unix_secs: self.last_progress_unix_secs,
            last_error: copy_opt(&self.last_error),
        }
    }
}

// ── The schedule ────────────────────────────────────────────────────────────

/// Whether a build in progress is stalled and may be restarted: no progress for
/// longer than the stall limit, and no restart within the cooldown.
pub open spec fn stall_restart_due_of(
    status: SearchIndexStatus,
    now: u64,
    last_progress: Option<u64>,
    since_last_restart: Option<u64>,
) -> bool {
    &&& status == SearchIndexStatus::Indexing
    &&& (last_progress matches Some(last) && (if now >= last {
        now - last
    } else {
        0
    }) > INDEX_STALL_SECS)
    &&& !(since_last_restart matches Some(e) && e < INDEX_STALL_RESTART_COOLDOWN_SECS)
}

/// Whether a stalled build should be restarted now.
pub fn stall_restart_due(
    status: SearchIndexStatus,
    now: u64,
    last_progress: Option<u64>,
    since_last_restart: Option<u64>,
) -> (r: bool)
    ensures
        r == stall_restart_due_of(status, now, last_progress, since_last_restart),
{
    if status != SearchIndexStatus::Indexing {
        return false;
    }
    let last = match last_progress {
        Some(l) => l,
        None => {
            return false;
        },
    };
    let age = if now >= last {
        now - last
    } else {
        0
    };
    let cooldown = match since_last_restart {
        Some(e) => e < INDEX_STALL_RESTART_COOLDOWN_SECS,
        None => false,
    };
    age > INDEX_STALL_SECS && !cooldown
}

/// Whether the scheduled refresh is due: an interval is set and that long has
/// passed since the last full rebuild.
pub open spec fn refresh_due_of(interval_hours: u32, since_last_rebuild: Option<u64>) -> bool {
    let interval = interval_hours as int * 3_600;
    interval > 0 && (since_last_rebuild matches Some(e) && e >= interval)
}

/// Whether the scheduled refresh is due.
pub fn refresh_due(interval_hours: u32, since_last_rebuild: Option<u64>) -> (r: bool)
    ensures
        r == refresh_due_of(interval_hours, since_last_rebuild),
{
    let interval: u64 = interval_hours as u64 * 3_600;
    if interval == 0 {
        return false;
    }
    match since_last_rebuild {
        Some(e) => e >= interval,
        None => false,
    }
}

/// Whether the managed locate database is due for an update: on first use when
/// it is missing or older than an hour, afterwards once per interval (daily when
/// filesystem-wide notifications are available, else the configured hours).
pub open spec fn locate_refresh_due_of(
    initialized: bool,
    db_age: Option<u64>,
    has_fanotify: bool,
    update_hours: u32,
    since_last_update: Option<u64>,
) -> bool {
    let interval: int = if has_fanotify {
        86_400
    } else {
        update_hours as int * 3_600
    };
    if !initialized {
        match db_age {
            Some(a) => a > 3_600,
            None => true,
        }
    } else if interval > 0 {
        since_last_update matches Some(e) && e >= interval
    } else {
        false
    }
}

/// Whether the managed locate database is due for an update.
pub fn locate_refresh_due(
    initialized: bool,
    db_age: Option<u64>,
    has_fanotify: bool,
    update_hours: u32,
    since_last_update: Option<u64>,
) -> (r: bool)
    ensures
        r == locate_refresh_due_of(initialized, db_age, has_fanotify, update_hours, since_last_update),
{
    let interval: u64 = if has_fanotify {
        86_400
    } else {
        update_hours as u64 * 3_600
    };
    if !initialized {
        match db_age {
            Some(a) => a > 3_600,
            None => true,
        }
    } else if interval > 0 {
        match since_last_update {
            Some(e) => e >= interval,
            None => false,
        }
    } else {
        false
    }
}

// ── Capabilities ────────────────────────────────────────────────────────────

/// The value of a hexadecimal digit, or -1 for any other character.
pub open spec fn hex_val(c: char) -> int {
    if '0' <= c && c <= '9' {
        (c as int) - ('0' as int)
    } else if 'a' <= c && c <= 'f' {
        (c as int) - ('a' as int) + 10
    } else if 'A' <= c && c <= 'F' {
        (c as int) - ('A' as int) + 10
    } else {
        -1
    }
}

/// `d` is a non-empty run of hexadecimal digits.
pub open spec fn all_hex(d: Seq<char>) -> bool {
    d.len() > 0 && forall|i: int| 0 <= i < d.len() ==> hex_val(#[trigger] d[i]) >= 0
}

/// The value of a run of hexadecimal digits.
pub open spec fn hex_value(d: Seq<char>) -> nat
    decreases d.len(),
{
    if d.len() == 0 {
        0
    } else {
        hex_value(d.drop_last()) * 16 + hex_val(d.last()) as nat
    }
}

/// What `u64::from_str_radix(s, 16)` gives: an optional `+` and then
/// hexadecimal digits, for a value that fits.
pub open spec fn hex_of(s: Seq<char>) -> Option<u64> {
    let d = if s.len() > 0 && s[0] == '+' {
        s.drop_first()
    } else {
        s
    };
    if all_hex(d) && hex_value(d) <= u64::MAX {
        Some(hex_value(d) as u64)
    } else {
        None
    }
}

/// The effective capability set that a line of `/proc/self/status` gives: the
/// hexadecimal number after `CapEff:` and a tab, white space trimmed.
pub open spec fn cap_eff_of(line: Seq<char>) -> Option<u64> {
    if has_prefix(line, "CapEff:\t"@) {
        hex_of(trim(line.skip("CapEff:\t"@.len() as int)))
    } else {
        None
    }
}

/// The effective capability set of the first line that gives one.
pub open spec fn first_cap_eff(lines: Seq<Seq<char>>) -> Option<u64>
    decreases lines.len(),
{
    if lines.len() == 0 {
        None
    } else {
        match cap_eff_of(lines[0]) {
            Some(v) => Some(v),
            None => first_cap_eff(lines.drop_first()),
        }
    }
}

/// `CAP_SYS_ADMIN`, bit 21 of a capability set.
pub const CAP_SYS_ADMIN: u64 = 0x20_0000;

/// Whether a process status text grants `CAP_SYS_ADMIN` among the effective
/// capabilities; false when no line gives the set.
pub open spec fn cap_sys_admin_of(status: Seq<char>) -> bool {
    match first_cap_eff(lines_of(status)) {
        Some(v) => v & CAP_SYS_ADMIN != 0,
        None => false,
    }
}

fn hex_digit_value(c: char) -> (r: Option<u64>)
    ensures
        match r {
            Some(v) => hex_val(c) >= 0 && v == hex_val(c),
            None => hex_val(c) < 0,
        },
{
    if '0' <= c && c <= '9' {
        Some((c as u32 - '0' as u32) as u64)
    } else if 'a' <= c && c <= 'f' {
        Some((c as u32 - 'a' as u32 + 10) as u64)
    } else if 'A' <= c && c <= 'F' {
        Some((c as u32 - 'A' as u32 + 10) as u64)
    } else {
        None
    }
}

/// A run of digits is worth at least any of its prefixes.
proof fn lemma_hex_grow(d: Seq<char>, k: int)
    requires
        0 <= k <= d.len(),
        forall|j: int| 0 <= j < d.len() ==> hex_val(#[trigger] d[j]) >= 0,
    ensures
        hex_value(d.take(k)) <= hex_value(d),
    decreases d.len() - k,
{
    if k < d.len() {
        lemma_hex_grow(d, k + 1);
        assert(d.take(k + 1).drop_last() =~= d.take(k));
    } else {
        assert(d.take(k) =~= d);
    }
}

/// `u64::from_str_radix(s, 16)`.
pub fn parse_hex_u64(s: &str) -> (r: Option<u64>)
    ensures
        r == hex_of(s@),
{
    let t = chars_of(s);
    let start: usize = if t.len() > 0 && t[0] == '+' {
        1
    } else {
        0
    };
    let ghost d = if t@.len() > 0 && t@[0] == '+' {
        t@.drop_first()
    } else {
        t@
    };
    assert(d =~= t@.skip(start as int));
    if start >= t.len() {
        return None;
    }
    let mut value: u64 = 0;
    let mut i: usize = start;
    while i < t.len()
        invariant
            start <= i <= t@.len(),
            t@ == s@,
            d == (if t@.len() > 0 && t@[0] == '+' {
                t@.drop_first()
            } else {
                t@
            }),
            d == t@.skip(start as int),
            value == hex_value(d.take(i - start)),
            forall|j: int| 0 <= j < i - start ==> hex_val(#[trigger] d[j]) >= 0,
        decreases t@.len() - i,
    {
        let c = t[i];
        assert(d[i - start] == c);
        assert(d.take(i - start + 1).drop_last() =~= d.take(i - start));
        let digit = match hex_digit_value(c) {
            Some(v) => v,
            None => {
                return None;
            },
        };
        assert(hex_value(d.take(i - start + 1)) == value * 16 + digit);
        if value > (u64::MAX - digit) / 16 {
            assert(value * 16 + digit > u64::MAX) by (nonlinear_arith)
                requires
                    value > (u64::MAX - digit) / 16,
                    digit <= 15,
            ;
            proof {
                if all_hex(d) {
                    lemma_hex_grow(d, i - start + 1);
                }
            }
            return None;
        }
        assert(value * 16 + digit <= u64::MAX) by (nonlinear_arith)
            requires
                value <= (u64::MAX - digit) / 16,
                digit <= 15,
        ;
        value = value * 16 + digit;
        i += 1;
    }
    assert(d.take(d.len() as int) =~= d);
    Some(value)
}

/// The effective capability set given by one status line, if it gives one.
fn cap_eff_line(line: &str) -> (r: Option<u64>)
    ensures
        r == cap_eff_of(line@),
{
    proof {
        reveal_strlit("CapEff:\t");
    }
    if !str_starts_with(line, "CapEff:\t") {
        return None;
    }
    let cs = chars_of(line);
    let mut rest = String::new();
    let mut k: usize = 8;
    while k < cs.len()
        invariant
            8 <= k <= cs@.len(),
            cs@ == line@,
            rest@ == cs@.subrange(8, k as int),
        decreases cs@.len() - k,
    {
        push_char(&mut rest, cs[k]);
        assert(rest@ =~= cs@.subrange(8, k as int + 1));
        k += 1;
    }
    assert(rest@ =~= line@.skip(8));
    parse_hex_u64(str_trim(rest.as_str()))
}

/// Whether the process status text (`/proc/self/status`) grants
/// `CAP_SYS_ADMIN`, which filesystem-wide change notification needs.
pub fn cap_sys_admin_in_status(status: &str) -> (r: bool)
    ensures
        r == cap_sys_admin_of(status@),
{
    let lines = split_lines(status);
    let ghost lv = lines@.map_values(|l: String| l@);
    let mut i: usize = 0;
    assert(lv.skip(0) =~= lv);
    while i < lines.len()
        invariant
            i <= lines@.len(),
            lv == lines@.map_values(|l: String| l@),
            lv == lines_of(status@),
            first_cap_eff(lv) == first_cap_eff(lv.skip(i as int)),
        decreases lines@.len() - i,
    {
        assert(lv.skip(i as int)[0] == lines@[i as int]@);
        match cap_eff_line(lines[i].as_str()) {
            Some(v) => {
                return v & CAP_SYS_ADMIN != 0;
            },
            None => {},
        }
        assert(lv.skip(i as int).drop_first() =~= lv.skip(i as int + 1));
        i += 1;
    }
    false
}

} // verus!
