//! Plain data shared by the rest of the library: view settings, search settings and
//! results, directory entries, file semantics and file/privileged commands.
//! Filesystem paths are held as UTF-8 `String`s.

use vstd::prelude::*;
use crate::paths::default_exclude_roots;

verus! {

// ── Theme ───────────────────────────────────────────────────────────────────

#[derive(Debug, Clone, Copy, PartialEq, Eq, Structural, Hash, Default)]
pub enum ThemeMode {
    Light,
    Dark,
    #[default]
    System,
}

#[derive(Debug, Clone, Copy, PartialEq, Eq, Structural, Hash, Default)]
pub enum ThemePreset {
    #[default]
    Ottrin,
    Breeze,
    Adwaita,
    Windows11,
    Solarized,
    Nord,
    G33k,
}

// ── View mode and sorting ───────────────────────────────────────────────────

#[derive(Debug, Clone, Copy, PartialEq, Eq, Structural, Hash, Default)]
pub enum ViewMode {
    #[default]
    Miller,
    List,
    Grid,
}

#[derive(Debug, Clone, Copy, PartialEq, Eq, Structural, Hash, Default)]
pub enum SortBy {
    #[default]
    Name,
    Size,
    Modified,
    Kind,
}

#[derive(Debug, Clone, Copy, PartialEq, Eq, Structural, Hash)]
pub struct SortConfig {
    pub by: SortBy,
    pub ascending: bool,
}

impl Default for SortConfig {
    fn default() -> (r: Self)
        ensures
            r.by == SortBy::Name,
            r.ascending,
    {
        SortConfig { by: SortBy::Name, ascending: true }
    }
}

#[derive(Debug, Clone, Copy, PartialEq, Eq, Structural, Hash)]
pub enum ListColumn {
    Name,
    Kind,
    Size,
    Modified,
}

#[derive(Debug, Clone, Copy, PartialEq, Eq, Structural, Hash)]
pub enum MillerColumnWidthMode {
    Fixed,
    Auto,
}

impl Default for MillerColumnWidthMode {
    fn default() -> (r: Self)
        ensures
            r == MillerColumnWidthMode::Fixed,
    {
        MillerColumnWidthMode::Fixed
    }
}

// ── Search ──────────────────────────────────────────────────────────────────

#[derive(Debug, Clone, Copy, PartialEq, Eq, Structural, Hash, Default)]
pub enum SearchScope {
    #[default]
    Global,
    CurrentFolder,
}

#[derive(Debug, Clone, Copy, PartialEq, Eq, Structural, Hash, Default)]
pub enum SearchSort {
    #[default]
    Relevance,
    Name,
    Path,
    Modified,
    Size,
}

/// Search settings. `refresh_interval_hours == 0` means the index is only rebuilt
/// on startup, file-change events and manual triggers; `locate_update_hours == 0`
/// means the managed locate database is only refreshed on first launch.
#[derive(Debug, Clone, PartialEq, Eq)]
pub struct SearchConfig {
    pub default_scope: SearchScope,
    pub include_hidden_system: bool,
    pub include_roots: Vec<String>,
    pub exclude_roots: Vec<String>,
    pub content_indexing_enabled: bool,
    pub content_include_roots: Vec<String>,
    pub content_exclude_roots: Vec<String>,
    pub include_globs: Vec<String>,
    pub exclude_globs: Vec<String>,
    pub default_sort: SearchSort,
    pub result_limit: usize,
    pub refresh_interval_hours: u32,
    pub use_system_locate: bool,
    pub manage_locate_db: bool,
    pub locate_update_hours: u32,
}

/// The glob patterns excluded from the index by default: editor junk, VCS
/// internals, package-manager dependencies, Python bytecode and trash folders.
pub open spec fn default_exclude_globs() -> Seq<Seq<char>> {
    seq![
        "*.swp"@, "*.swo"@, "*.tmp"@, "*~"@, ".git/**"@, ".svn/**"@, ".hg/**"@,
        "node_modules/**"@, "__pycache__/**"@, "*.pyc"@, "*.pyo"@, ".Trash/**"@,
        ".Trash-*/**"@,
    ]
}

/// Owned strings from string slices.
pub fn owned_strings(list: &[&str]) -> (v: Vec<String>)
    ensures
        v@.len() == list@.len(),
        forall|i: int| 0 <= i < list@.len() ==> #[trigger] v@[i]@ == list@[i]@,
{
    let mut v: Vec<String> = Vec::new();
    let mut i: usize = 0;
    while i < list.len()
        invariant
            i <= list@.len(),
            v@.len() == i,
            forall|j: int| 0 <= j < i ==> #[trigger] v@[j]@ == list@[j]@,
        decreases list@.len() - i,
    {
        v.push(list[i].to_owned());
        i += 1;
    }
    v
}

/// The views of a vector of strings.
pub open spec fn views(v: Seq<String>) -> Seq<Seq<char>> {
    v.map_values(|s: String| s@)
}

impl Default for SearchConfig {
    fn default() -> (r: Self)
        ensures
            r.default_scope == SearchScope::Global,
            !r.include_hidden_system,
            r.include_roots@.len() == 0,
            views(r.exclude_roots@) == crate::paths::spec_default_exclude_roots(),
            !r.content_indexing_enabled,
            r.content_include_roots@.len() == 0,
            r.content_exclude_roots@.len() == 0,
            r.include_globs@.len() == 0,
            views(r.exclude_globs@) == default_exclude_globs(),
            r.default_sort == SearchSort::Relevance,
            r.result_limit == 500,
            r.refresh_interval_hours == 4,
            r.use_system_locate,
            !r.manage_locate_db,
            r.locate_update_hours == 6,
    {
        let exclude_globs = owned_strings(
            &[
                "*.swp", "*.swo", "*.tmp", "*~", ".git/**", ".svn/**", ".hg/**",
                "node_modules/**", "__pycache__/**", "*.pyc", "*.pyo", ".Trash/**",
                ".Trash-*/**",
            ],
        );
        let r = SearchConfig {
            default_scope: SearchScope::Global,
            include_hidden_system: false,
            include_roots: Vec::new(),
            exclude_roots: default_exclude_roots(),
            content_indexing_enabled: false,
            content_include_roots: Vec::new(),
            content_exclude_roots: Vec::new(),
            include_globs: Vec::new(),
            exclude_globs,
            default_sort: SearchSort::Relevance,
            result_limit: 500,
            refresh_interval_hours: 4,
            use_system_locate: true,
            manage_locate_db: false,
            locate_update_hours: 6,
        };
        assert(views(r.exclude_globs@) =~= default_exclude_globs());
        r
    }
}

/// One search request. `content_search` asks for file contents to be searched too.
#[derive(Debug, Clone, PartialEq, Eq)]
pub struct SearchQuery {
    pub text: String,
    pub scope: SearchScope,
    pub root_path: Option<String>,
    pub include_hidden_system: bool,
    pub sort: SearchSort,
    pub limit: usize,
    pub offset: usize,
    pub content_search: bool,
}

/// One indexed or found filesystem entry. `name_lower`, `path_str` and `path_lower`
/// are derived from `name` and `path` by [`SearchResultItem::prepare`].
#[derive(Debug, Clone, PartialEq, Eq)]
pub struct SearchResultItem {
    pub path: String,
    pub parent_path: String,
    pub name: String,
    pub kind: EntryKind,
    pub is_executable: bool,
    pub symlink_target_is_dir: Option<bool>,
    pub size_bytes: Option<u64>,
    pub modified_unix_secs: Option<u64>,
    pub content_snippet: Option<String>,
    pub name_lower: String,
    pub path_str: String,
    pub path_lower: String,
}

impl SearchResultItem {
    /// The derived fields are in step with `name` and `path`.
    pub open spec fn is_prepared(&self) -> bool {
        &&& self.name_lower@ == crate::text::ascii_lower(self.name@)
        &&& self.path_str@ == self.path@
        &&& self.path_lower@ == crate::text::ascii_lower(self.path@)
    }

    /// Populate the lower-case and path-string fields from `name` and `path`.
    pub fn prepare(&mut self)
        ensures
            final(self).is_prepared(),
            final(self).path == old(self).path,
            final(self).parent_path == old(self).parent_path,
            final(self).name == old(self).name,
            final(self).kind == old(self).kind,
            final(self).is_executable == old(self).is_executable,
            final(self).symlink_target_is_dir == old(self).symlink_target_is_dir,
            final(self).size_bytes == old(self).size_bytes,
            final(self).modified_unix_secs == old(self).modified_unix_secs,
            final(self).content_snippet == old(self).content_snippet,
    {
        self.name_lower = crate::text::to_ascii_lower(self.name.as_str());
        self.path_str = self.path.clone();
        self.path_lower = crate::text::to_ascii_lower(self.path.as_str());
    }
}

#[derive(Debug, Clone, Copy, PartialEq, Eq, Structural, Hash)]
pub enum SearchIndexStatus {
    Unavailable,
    Indexing,
    Ready,
}

#[derive(Debug, Clone, PartialEq, Eq)]
pub struct SearchResponse {
    pub items: Vec<SearchResultItem>,
    pub total: usize,
    pub status: SearchIndexStatus,
    pub error: Option<String>,
}

// ── File entries ────────────────────────────────────────────────────────────

#[derive(Debug, Clone, Copy, PartialEq, Eq, Structural, Hash)]
pub enum EntryKind {
    File,
    Directory,
    Symlink,
    Other,
}

#[derive(Debug, Clone, PartialEq, Eq)]
pub struct FileEntry {
    pub name: String,
    pub path: String,
    pub kind: EntryKind,
    pub is_executable: bool,
    pub symlink_target_is_dir: Option<bool>,
    pub size_bytes: Option<u64>,
    pub modified_unix_secs: Option<u64>,
}

// ── Semantic file classification ────────────────────────────────────────────

#[derive(Debug, Clone, Copy, PartialEq, Eq, Structural, Hash)]
pub enum FileCategory {
    Directory,
    Symlink,
    Executable,
    Image,
    Video,
    Audio,
    Archive,
    Pdf,
    Document,
    Spreadsheet,
    Presentation,
    Font,
    DiskImage,
    Package,
    Config,
    Code,
    Unknown,
}

#[derive(Debug, Clone, Copy, PartialEq, Eq, Structural, Hash)]
pub enum CodeSubtype {
    Rust,
    JavaScript,
    TypeScript,
    HTML,
    CSS,
    JSON,
    Markdown,
    Python,
    Shell,
    TOML,
    YAML,
    Other,
}

#[derive(Debug, Clone, Copy, PartialEq, Eq, Structural, Hash)]
pub enum FolderKind {
    Home,
    Desktop,
    Documents,
    Downloads,
    Pictures,
    Music,
    Videos,
    Public,
    Templates,
}

#[derive(Debug, Clone, Copy, PartialEq, Eq, Structural, Hash)]
pub enum PlatformCaseMode {
    CaseSensitive,
    CaseInsensitive,
}

/// The semantic class of a file: its category, a code subtype for source and
/// configuration files, a well-known folder kind for directories, and the rule
/// that decided it.
#[derive(Debug, Clone, PartialEq, Eq)]
pub struct FileSemantic {
    pub category: FileCategory,
    pub code_subtype: Option<CodeSubtype>,
    pub folder_kind: Option<FolderKind>,
    pub rule_hint: Option<String>,
}

// ── File operations ─────────────────────────────────────────────────────────

#[derive(Debug, Clone, Copy, PartialEq, Eq, Structural, Hash)]
pub enum DeleteMode {
    Trash,
    Permanent,
}

#[derive(Debug, Clone, Copy, PartialEq, Eq, Structural, Hash)]
pub enum ConflictAction {
    Skip,
    Overwrite,
    Rename,
}

#[derive(Debug, Clone, PartialEq, Eq)]
pub enum FileCommand {
    CreateFile { parent: String, name: String },
    CreateFolder { parent: String, name: String },
    Rename { source: String, new_name: String },
    Delete { targets: Vec<String>, mode: DeleteMode },
    Copy { sources: Vec<String>, destination: String, conflict: ConflictAction },
    Move { sources: Vec<String>, destination: String, conflict: ConflictAction },
    ShowProperties { target: String },
    Chmod { target: String, mode_str: String },
    Symlink { link_path: String, target: String },
}

/// A copy of the strings of `v`.
pub fn copy_strings(v: &Vec<String>) -> (r: Vec<String>)
    ensures
        r@ == v@,
{
    let mut r: Vec<String> = Vec::new();
    let mut i: usize = 0;
    while i < v.len()
        invariant
            i <= v@.len(),
            r@ == v@.take(i as int),
        decreases v@.len() - i,
    {
        r.push(v[i].clone());
        assert(r@ =~= v@.take(i as int + 1));
        i += 1;
    }
    assert(v@.take(v@.len() as int) =~= v@);
    r
}

impl FileCommand {
    /// The two commands are the same command on the same paths (vectors are
    /// compared by their contents).
    pub open spec fn same_as(self, other: FileCommand) -> bool {
        match (self, other) {
            (FileCommand::Delete { targets: a, mode: m }, FileCommand::Delete { targets: b, mode: n }) =>
                a@ == b@ && m == n,
            (
                FileCommand::Copy { sources: a, destination: d, conflict: c },
                FileCommand::Copy { sources: b, destination: e, conflict: f },
            ) => a@ == b@ && d == e && c == f,
            (
                FileCommand::Move { sources: a, destination: d, conflict: c },
                FileCommand::Move { sources: b, destination: e, conflict: f },
            ) => a@ == b@ && d == e && c == f,
            (FileCommand::Delete { .. }, _) => false,
            (FileCommand::Copy { .. }, _) => false,
            (FileCommand::Move { .. }, _) => false,
            _ => self == other,
        }
    }

    /// A copy of this command.
    pub fn duplicate(&self) -> (r: Self)
        ensures
            r.same_as(*self),
    {
        match self {
            FileCommand::CreateFile { parent, name } => {
                let p = parent.clone();
                let n = name.clone();
                FileCommand::CreateFile { parent: p, name: n }
            },
            FileCommand::CreateFolder { parent, name } => FileCommand::CreateFolder {
                parent: parent.clone(),
                name: name.clone(),
            },
            FileCommand::Rename { source, new_name } => FileCommand::Rename {
                source: source.clone(),
                new_name: new_name.clone(),
            },
            FileCommand::Delete { targets, mode } => FileCommand::Delete {
                targets: copy_strings(targets),
                mode: *mode,
            },
            FileCommand::Copy { sources, destination, conflict } => FileCommand::Copy {
                sources: copy_strings(sources),
                destination: destination.clone(),
                conflict: *conflict,
            },
            FileCommand::Move { sources, destination, conflict } => FileCommand::Move {
                sources: copy_strings(sources),
                destination: destination.clone(),
                conflict: *conflict,
            },
            FileCommand::ShowProperties { target } => FileCommand::ShowProperties { target: target.clone() },
            FileCommand::Chmod { target, mode_str } => FileCommand::Chmod {
                target: target.clone(),
                mode_str: mode_str.clone(),
            },
            FileCommand::Symlink { link_path, target } => FileCommand::Symlink {
                link_path: link_path.clone(),
                target: target.clone(),
            },
        }
    }
}

// ── Privileged operations ───────────────────────────────────────────────────

/// Action that may require elevation, routed through the privileged helper.
#[derive(Debug, Clone, PartialEq, Eq)]
pub enum PrivilegedCommand {
    File(FileCommand),
    ListDirectory { path: String, show_hidden: bool },
}

/// Context passed with privileged requests for auditing and messages.
#[derive(Debug, Clone, PartialEq, Eq, Default)]
pub struct PrivilegedContext {
    pub reason: Option<String>,
    pub cwd: Option<String>,
}

/// Request sent from the unprivileged application to the elevated helper.
#[derive(Debug, Clone, PartialEq, Eq)]
pub struct PrivilegedRequest {
    pub command: PrivilegedCommand,
    pub context: PrivilegedContext,
}

/// High-level result category of privileged execution.
#[derive(Debug, Clone, Copy, PartialEq, Eq, Structural, Hash)]
pub enum PrivilegedStatus {
    Success,
    Denied,
    Unsupported,
    Failed,
}

/// Response from the elevated helper.
#[derive(Debug, Clone, PartialEq, Eq)]
pub struct PrivilegedResponse {
    pub status: PrivilegedStatus,
    pub message: Option<String>,
    pub payload: Option<PrivilegedPayload>,
}

/// Typed data returned from privileged operations.
#[derive(Debug, Clone, PartialEq, Eq)]
pub enum PrivilegedPayload {
    Entries(Vec<FileEntry>),
}

} // verus!
