//! File previews: which kind of preview a path gets, the preview of text files
//! and directories, and the summary of a ZIP archive's entries. Reading files and
//! formatting sizes are the caller's.

use vstd::prelude::*;
use crate::model::EntryKind;
use crate::paths::{extension_of, file_name_of, path_extension, path_file_name};
use crate::text::{ascii_lower, decimal, decode_utf8, in_list, list_has, push_decimal, push_str, to_ascii_lower};

verus! {

/// The kind of preview shown for a file.
#[derive(Debug, Clone, Copy, PartialEq, Eq, Structural)]
pub enum PreviewKind {
    Text,
    Image,
    Pdf,
    VideoMetadata,
    AudioMetadata,
    ArchiveMetadata,
    OfficeMetadata,
    Unsupported,
}

/// A request for the preview of `path`, whose kind is already known.
#[derive(Debug, Clone, PartialEq, Eq)]
pub struct PreviewRequest {
    pub path: String,
    pub kind_hint: EntryKind,
}

/// A preview: its title, kind, text, and whether opening the file externally is offered.
#[derive(Debug, Clone, PartialEq, Eq)]
pub struct PreviewData {
    pub title: String,
    pub kind: PreviewKind,
    pub body: String,
    pub open_external: bool,
}

/// Extensions previewed as text.
pub open spec fn text_exts() -> Seq<&'static str> {
    seq![
        "txt", "md", "markdown", "log", "csv", "tsv", "json", "toml", "yaml", "yml", "ini", "cfg", "conf", "env",
        "xml", "html", "htm", "css", "scss", "less", "svg", "rs", "js", "ts", "jsx", "tsx", "py", "rb", "go",
        "java", "c", "cpp", "h", "hpp", "m", "mm", "sh", "bash", "zsh", "fish", "ps1", "bat",
    ]
}

/// Extensions previewed as images.
pub open spec fn image_exts() -> Seq<&'static str> {
    seq!["png", "jpg", "jpeg", "webp", "gif", "bmp", "tif", "tiff"]
}

/// Extensions previewed by their video metadata.
pub open spec fn video_exts() -> Seq<&'static str> {
    seq!["mp4", "mkv", "webm", "mov", "avi", "m4v"]
}

/// Extensions previewed by their audio metadata.
pub open spec fn audio_exts() -> Seq<&'static str> {
    seq!["mp3", "flac", "wav", "ogg", "m4a", "aac"]
}

/// Extensions previewed as archives.
pub open spec fn archive_exts() -> Seq<&'static str> {
    seq!["zip", "tar", "gz", "xz", "bz2", "7z", "rar"]
}

/// Extensions previewed as office documents.
pub open spec fn office_exts() -> Seq<&'static str> {
    seq!["doc", "docx", "xls", "xlsx", "ppt", "pptx", "odt", "ods", "odp"]
}

/// The preview kind for a lower-cased extension.
pub open spec fn kind_for_ext(ext: Seq<char>) -> PreviewKind {
    if in_list(ext, text_exts()) {
        PreviewKind::Text
    } else if in_list(ext, image_exts()) {
        PreviewKind::Image
    } else if ext == "pdf"@ {
        PreviewKind::Pdf
    } else if in_list(ext, video_exts()) {
        PreviewKind::VideoMetadata
    } else if in_list(ext, audio_exts()) {
        PreviewKind::AudioMetadata
    } else if in_list(ext, archive_exts()) {
        PreviewKind::ArchiveMetadata
    } else if in_list(ext, office_exts()) {
        PreviewKind::OfficeMetadata
    } else {
        PreviewKind::Unsupported
    }
}

/// The lower-cased extension of `path` (empty when it has none).
pub open spec fn lower_ext(path: Seq<char>) -> Seq<char> {
    ascii_lower(
        match extension_of(path) {
            Some(e) => e,
            None => Seq::<char>::empty(),
        },
    )
}

/// The preview kind of a path, by its extension in any ASCII case.
pub fn classify_path(path: &str) -> (k: PreviewKind)
    ensures
        k == kind_for_ext(lower_ext(path@)),
{
    let ext = match path_extension(path) {
        Some(e) => e,
        None => "",
    };
    proof {
        reveal_strlit("");
        reveal_strlit("pdf");
    }
    assert(""@ =~= Seq::<char>::empty());
    let lower = to_ascii_lower(ext);
    let e = lower.as_str();
    let text: [&str; 42] = [
        "txt", "md", "markdown", "log", "csv", "tsv", "json", "toml", "yaml", "yml", "ini", "cfg", "conf", "env",
        "xml", "html", "htm", "css", "scss", "less", "svg", "rs", "js", "ts", "jsx", "tsx", "py", "rb", "go",
        "java", "c", "cpp", "h", "hpp", "m", "mm", "sh", "bash", "zsh", "fish", "ps1", "bat",
    ];
    assert(text@ =~= text_exts());
    if list_has(e, &text) {
        return PreviewKind::Text;
    }
    let image: [&str; 8] = ["png", "jpg", "jpeg", "webp", "gif", "bmp", "tif", "tiff"];
    assert(image@ =~= image_exts());
    if list_has(e, &image) {
        return PreviewKind::Image;
    }
    if crate::text::str_eq(e, "pdf") {
        return PreviewKind::Pdf;
    }
    let video: [&str; 6] = ["mp4", "mkv", "webm", "mov", "avi", "m4v"];
    assert(video@ =~= video_exts());
    if list_has(e, &video) {
        return PreviewKind::VideoMetadata;
    }
    let audio: [&str; 6] = ["mp3", "flac", "wav", "ogg", "m4a", "aac"];
    assert(audio@ =~= audio_exts());
    if list_has(e, &audio) {
        return PreviewKind::AudioMetadata;
    }
    let archive: [&str; 7] = ["zip", "tar", "gz", "xz", "bz2", "7z", "rar"];
    assert(archive@ =~= archive_exts());
    if list_has(e, &archive) {
        return PreviewKind::ArchiveMetadata;
    }
    let office: [&str; 9] = ["doc", "docx", "xls", "xlsx", "ppt", "pptx", "odt", "ods", "odp"];
    assert(office@ =~= office_exts());
    if list_has(e, &office) {
        return PreviewKind::OfficeMetadata;
    }
    PreviewKind::Unsupported
}

/// The title of a preview: the file name, or "Preview" when there is none.
pub fn preview_title(path: &str) -> (t: String)
    ensures
        t@ == match file_name_of(path@) {
            Some(n) => n,
            None => "Preview"@,
        },
{
    match path_file_name(path) {
        Some(n) => n.to_owned(),
        None => "Preview".to_owned(),
    }
}

/// The preview of a directory: its path under a heading, nothing to open.
pub fn directory_preview(title: String, path: &str) -> (p: PreviewData)
    ensures
        p.title == title,
        p.kind == PreviewKind::Unsupported,
        p.body@ == "Directory:\n"@ + path@,
        !p.open_external,
{
    let mut body = "Directory:\n".to_owned();
    push_str(&mut body, path);
    PreviewData { title, kind: PreviewKind::Unsupported, body, open_external: false }
}

/// What a preview needs: a directory is described at once; a file is loaded by
/// the preview of its kind.
#[derive(Debug, Clone, PartialEq, Eq)]
pub enum PreviewPlan {
    Ready(PreviewData),
    Load { title: String, kind: PreviewKind },
}

/// Decide how a preview is produced.
pub fn plan_preview(request: &PreviewRequest) -> (r: PreviewPlan)
    ensures
        ({
            let title = match file_name_of(request.path@) {
                Some(n) => n,
                None => "Preview"@,
            };
            if request.kind_hint == EntryKind::Directory {
                r matches PreviewPlan::Ready(p) && p.title@ == title && p.kind == PreviewKind::Unsupported && p.body@
                    == "Directory:\n"@ + request.path@ && !p.open_external
            } else {
                r matches PreviewPlan::Load { title: t, kind } && t@ == title && kind == kind_for_ext(
                    lower_ext(request.path@),
                )
            }
        }),
{
    let title = preview_title(request.path.as_str());
    if request.kind_hint == EntryKind::Directory {
        return PreviewPlan::Ready(directory_preview(title, request.path.as_str()));
    }
    PreviewPlan::Load { title, kind: classify_path(request.path.as_str()) }
}

/// At most this many bytes of a text file are shown.
pub const TEXT_PREVIEW_LIMIT: usize = 131_072;

/// The preview of a text file from its bytes: the text of the first bytes (up to
/// the limit) with a truncation note when there were more, or a note that the
/// file is not UTF-8 text.
pub fn text_preview(title: String, bytes: &Vec<u8>) -> (p: PreviewData)
    ensures
        p.title == title,
        ({
            let head = if bytes@.len() > TEXT_PREVIEW_LIMIT {
                bytes@.take(TEXT_PREVIEW_LIMIT as int)
            } else {
                bytes@
            };
            if exists|cs: Seq<char>| vstd::utf8::encode_utf8(cs) == head {
                &&& p.kind == PreviewKind::Text
                &&& !p.open_external
                &&& exists|cs: Seq<char>| {
                    &&& vstd::utf8::encode_utf8(cs) == head
                    &&& p.body@ == if bytes@.len() > TEXT_PREVIEW_LIMIT {
                        cs + "\n\n...(truncated)"@
                    } else {
                        cs
                    }
                }
            } else {
                &&& p.kind == PreviewKind::Unsupported
                &&& p.open_external
                &&& p.body@ == "File is not valid UTF-8 text."@
            }
        }),
{
    let truncated = bytes.len() > TEXT_PREVIEW_LIMIT;
    let end = if truncated {
        TEXT_PREVIEW_LIMIT
    } else {
        bytes.len()
    };
    let head = slice_prefix(bytes, end);
    match decode_utf8(head) {
        Some(s) => {
            let mut body = s;
            let ghost cs = body@;
            if truncated {
                push_str(&mut body, "\n\n...(truncated)");
            }
            assert(vstd::utf8::encode_utf8(cs) == bytes@.take(end as int));
            assert(bytes@.take(end as int) == if bytes@.len() > TEXT_PREVIEW_LIMIT {
                bytes@.take(TEXT_PREVIEW_LIMIT as int)
            } else {
                bytes@
            });
            PreviewData { title, kind: PreviewKind::Text, body, open_external: false }
        },
        None => {
            assert(bytes@.take(end as int) == if bytes@.len() > TEXT_PREVIEW_LIMIT {
                bytes@.take(TEXT_PREVIEW_LIMIT as int)
            } else {
                bytes@
            });
            PreviewData {
                title,
                kind: PreviewKind::Unsupported,
                body: "File is not valid UTF-8 text.".to_owned(),
                open_external: true,
            }
        },
    }
}

fn slice_prefix(bytes: &Vec<u8>, end: usize) -> (s: &[u8])
    requires
        end <= bytes@.len(),
    ensures
        s@ == bytes@.take(end as int),
{
    let s = vstd::slice::slice_subrange(bytes.as_slice(), 0, end);
    assert(s@ =~= bytes@.take(end as int));
    s
}

/// The preview of a file that could not be read.
pub fn read_failure_preview(title: String, error: &str) -> (p: PreviewData)
    ensures
        p.title == title,
        p.kind == PreviewKind::Unsupported,
        p.body@ == "Failed to read file: "@ + error@,
        p.open_external,
{
    let mut body = "Failed to read file: ".to_owned();
    push_str(&mut body, error);
    PreviewData { title, kind: PreviewKind::Unsupported, body, open_external: true }
}

// ── ZIP archives ────────────────────────────────────────────────────────────

/// At most this many entries of an archive are listed.
pub const MAX_LISTED_ENTRIES: usize = 200;

/// One entry of an archive: its name, uncompressed size and whether it is a folder.
#[derive(Debug, Clone, PartialEq, Eq)]
pub struct ArchiveEntry {
    pub name: String,
    pub size: u64,
    pub is_dir: bool,
}

/// What a ZIP preview shows: the counts of files and folders, the total
/// uncompressed size, the first entries, and how many more there are.
#[derive(Debug, Clone, PartialEq, Eq)]
pub struct ZipSummary {
    pub files: usize,
    pub dirs: usize,
    pub total_uncompressed: u64,
    pub listed: Vec<ArchiveEntry>,
    pub more: usize,
}

/// The sum of the entries' sizes.
pub open spec fn total_size(es: Seq<ArchiveEntry>) -> int
    decreases es.len(),
{
    if es.len() == 0 {
        0
    } else {
        total_size(es.drop_last()) + es.last().size
    }
}

/// How many of the entries are folders.
pub open spec fn folder_count(es: Seq<ArchiveEntry>) -> int
    decreases es.len(),
{
    if es.len() == 0 {
        0
    } else {
        folder_count(es.drop_last()) + if es.last().is_dir {
            1int
        } else {
            0
        }
    }
}

proof fn lemma_folder_count_bound(es: Seq<ArchiveEntry>)
    ensures
        0 <= folder_count(es) <= es.len(),
    decreases es.len(),
{
    if es.len() > 0 {
        lemma_folder_count_bound(es.drop_last());
    }
}

proof fn lemma_total_size_mono(es: Seq<ArchiveEntry>, n: int)
    requires
        0 <= n <= es.len(),
    ensures
        0 <= total_size(es.take(n)) <= total_size(es),
    decreases es.len() - n,
{
    if n < es.len() {
        assert(es.take(n + 1).drop_last() =~= es.take(n));
        lemma_total_size_mono(es, n + 1);
    } else {
        assert(es.take(n) =~= es);
    }
    if n > 0 {
        lemma_total_size_nonneg(es.take(n));
    }
}

proof fn lemma_total_size_nonneg(es: Seq<ArchiveEntry>)
    ensures
        total_size(es) >= 0,
    decreases es.len(),
{
    if es.len() > 0 {
        lemma_total_size_nonneg(es.drop_last());
    }
}

/// Summarize a ZIP archive of `archive_len` entries from those of its entries
/// that could be read; the count of entries not listed is taken from the
/// archive's own length.
pub fn summarize_zip(entries: &Vec<ArchiveEntry>, archive_len: usize) -> (s: ZipSummary)
    requires
        total_size(entries@) <= u64::MAX,
    ensures
        s.dirs == folder_count(entries@),
        s.files == entries@.len() - folder_count(entries@),
        s.total_uncompressed == total_size(entries@),
        s.listed@ == entries@.take(
            if entries@.len() < MAX_LISTED_ENTRIES {
                entries@.len() as int
            } else {
                MAX_LISTED_ENTRIES as int
            },
        ),
        s.more == if archive_len > MAX_LISTED_ENTRIES {
            archive_len - MAX_LISTED_ENTRIES
        } else {
            0
        },
{
    let mut files: usize = 0;
    let mut dirs: usize = 0;
    let mut total: u64 = 0;
    let mut listed: Vec<ArchiveEntry> = Vec::new();
    let mut i: usize = 0;
    while i < entries.len()
        invariant
            i <= entries@.len(),
            total_size(entries@) <= u64::MAX,
            dirs == folder_count(entries@.take(i as int)),
            files + dirs == i,
            total == total_size(entries@.take(i as int)),
            listed@ == entries@.take(
                if i < MAX_LISTED_ENTRIES {
                    i as int
                } else {
                    MAX_LISTED_ENTRIES as int
                },
            ),
        decreases entries@.len() - i,
    {
        let e = &entries[i];
        assert(entries@.take(i as int + 1).drop_last() =~= entries@.take(i as int));
        proof {
            lemma_total_size_mono(entries@, i as int + 1);
            lemma_folder_count_bound(entries@.take(i as int));
        }
        total = total + e.size;
        if e.is_dir {
            dirs += 1;
        } else {
            files += 1;
        }
        if listed.len() < MAX_LISTED_ENTRIES {
            listed.push(ArchiveEntry { name: e.name.clone(), size: e.size, is_dir: e.is_dir });
            assert(listed@ =~= entries@.take(i as int + 1));
        }
        i += 1;
    }
    assert(entries@.take(entries@.len() as int) =~= entries@);
    let more = if archive_len > MAX_LISTED_ENTRIES {
        archive_len - MAX_LISTED_ENTRIES
    } else {
        0
    };
    ZipSummary { files, dirs, total_uncompressed: total, listed, more }
}

/// "s" for a count other than one.
pub open spec fn plural(n: nat) -> Seq<char> {
    if n == 1 {
        Seq::<char>::empty()
    } else {
        "s"@
    }
}

/// The first line of a ZIP preview.
pub open spec fn zip_header_text(files: nat, dirs: nat) -> Seq<char> {
    "ZIP archive — "@ + decimal(files) + " file"@ + plural(files) + ", "@ + decimal(dirs) + " folder"@ + plural(dirs)
}

fn push_plural(s: &mut String, n: usize)
    ensures
        final(s)@ == old(s)@ + plural(n as nat),
{
    if n != 1 {
        push_str(s, "s");
    } else {
        assert(old(s)@ + Seq::<char>::empty() =~= old(s)@);
    }
}

/// The first line of a ZIP preview: the counts of files and folders.
pub fn zip_header(files: usize, dirs: usize) -> (s: String)
    ensures
        s@ == zip_header_text(files as nat, dirs as nat),
{
    let mut s = "ZIP archive — ".to_owned();
    push_decimal(&mut s, files as u64);
    push_str(&mut s, " file");
    push_plural(&mut s, files);
    push_str(&mut s, ", ");
    push_decimal(&mut s, dirs as u64);
    push_str(&mut s, " folder");
    push_plural(&mut s, dirs);
    s
}

/// The line announcing the entries left out of the listing.
pub fn more_entries_line(more: usize) -> (s: String)
    ensures
        s@ == "  ... and "@ + decimal(more as nat) + " more entries"@,
{
    let mut s = "  ... and ".to_owned();
    push_decimal(&mut s, more as u64);
    push_str(&mut s, " more entries");
    s
}

// ── Documents and audio ─────────────────────────────────────────────────────

/// The first line of a PDF preview.
pub fn pdf_header(pages: usize) -> (s: String)
    ensures
        s@ == "PDF document — "@ + decimal(pages as nat) + " page"@ + plural(pages as nat),
{
    let mut s = "PDF document — ".to_owned();
    push_decimal(&mut s, pages as u64);
    push_str(&mut s, " page");
    push_plural(&mut s, pages);
    s
}

/// The lines of a metadata summary: the kind label, the size, the modification
/// time when it is known, the format (the extension in upper case) when there is
/// a non-empty extension, and the extra note when it is not empty.
pub open spec fn summary_lines_of(
    label: Seq<char>,
    size_text: Seq<char>,
    modified_text: Option<Seq<char>>,
    ext: Option<Seq<char>>,
    extra: Option<Seq<char>>,
) -> Seq<Seq<char>> {
    seq![label, "Size: "@ + size_text] + match modified_text {
        Some(m) => seq!["Modified: "@ + m],
        None => seq![],
    } + match ext {
        Some(e) => if e.len() > 0 {
            seq!["Format: "@ + crate::text::ascii_upper(e)]
        } else {
            seq![]
        },
        None => seq![],
    } + match extra {
        Some(x) => if x.len() > 0 {
            seq![x]
        } else {
            seq![]
        },
        None => seq![],
    }
}

/// The metadata summary of the file at `path`: the summary lines joined by line
/// ends when its metadata could be read (`facts` holds the size and modification
/// texts), otherwise the label and a note that the metadata is unavailable.
pub open spec fn metadata_summary_of(
    path: Seq<char>,
    label: Seq<char>,
    facts: Option<(Seq<char>, Option<Seq<char>>)>,
    extra: Option<Seq<char>>,
) -> Seq<char> {
    match facts {
        None => label + "\nMetadata unavailable."@,
        Some(f) => crate::text::join(summary_lines_of(label, f.0, f.1, extension_of(path), extra), seq!['\n']),
    }
}

/// The metadata summary shown for a file that is not previewed itself.
pub fn metadata_summary(
    path: &str,
    label: &str,
    facts: Option<(String, Option<String>)>,
    extra: Option<&str>,
) -> (r: String)
    ensures
        r@ == metadata_summary_of(path@, label@, match facts {
            Some(f) => Some((f.0@, match f.1 {
                Some(m) => Some(m@),
                None => None,
            })),
            None => None,
        }, match extra {
            Some(x) => Some(x@),
            None => None,
        }),
{
    match facts {
        None => {
            let mut s = label.to_owned();
            push_str(&mut s, "\nMetadata unavailable.");
            s
        },
        Some((size_text, modified_text)) => {
            let mut lines: Vec<String> = Vec::new();
            lines.push(label.to_owned());
            let mut size_line = "Size: ".to_owned();
            push_str(&mut size_line, size_text.as_str());
            lines.push(size_line);
            let ghost first = crate::navigation::str_views(lines@);
            let ghost mt = match &modified_text {
                Some(m) => Some(m@),
                None => None::<Seq<char>>,
            };
            match &modified_text {
                Some(m) => {
                    let mut l = "Modified: ".to_owned();
                    push_str(&mut l, m.as_str());
                    lines.push(l);
                },
                None => {},
            }
            let ghost second = crate::navigation::str_views(lines@);
            assert(second =~= first + match mt {
                Some(m) => seq!["Modified: "@ + m],
                None => seq![],
            });
            match path_extension(path) {
                Some(e) => {
                    if !e.is_empty() {
                        let mut l = "Format: ".to_owned();
                        let upper = crate::text::to_ascii_upper(e);
                        push_str(&mut l, upper.as_str());
                        lines.push(l);
                    }
                },
                None => {},
            }
            let ghost third = crate::navigation::str_views(lines@);
            assert(third =~= second + match extension_of(path@) {
                Some(e) => if e.len() > 0 {
                    seq!["Format: "@ + crate::text::ascii_upper(e)]
                } else {
                    seq![]
                },
                None => seq![],
            });
            match extra {
                Some(x) => {
                    if !x.is_empty() {
                        lines.push(x.to_owned());
                    }
                },
                None => {},
            }
            assert(crate::navigation::str_views(lines@) =~= summary_lines_of(
                label@,
                size_text@,
                mt,
                extension_of(path@),
                match extra {
                    Some(x) => Some(x@),
                    None => None,
                },
            ));
            crate::text::join_lines(&lines)
        },
    }
}

/// The line for a document property, when it has a non-blank value.
pub fn field_line(label: &str, value: Option<String>) -> (r: Option<String>)
    ensures
        match value {
            Some(v) => if crate::text::trim(v@).len() > 0 {
                r matches Some(l) && l@ == label@ + ": "@ + v@
            } else {
                r is None
            },
            None => r is None,
        },
{
    match value {
        Some(v) => {
            if crate::text::str_trim(v.as_str()).is_empty() {
                None
            } else {
                let mut l = label.to_owned();
                push_str(&mut l, ": ");
                push_str(&mut l, v.as_str());
                Some(l)
            }
        },
        None => None,
    }
}

/// `n` written with at least two digits.
pub open spec fn two_digits(n: nat) -> Seq<char> {
    if n < 10 {
        "0"@ + decimal(n)
    } else {
        decimal(n)
    }
}

/// The tags of an audio file that a preview shows.
#[derive(Debug, Clone, PartialEq, Eq)]
pub struct AudioTags {
    pub title: Option<String>,
    pub artist: Option<String>,
    pub album: Option<String>,
    pub year: Option<u16>,
    pub genre: Option<String>,
    pub track: Option<u32>,
}

/// What an audio preview shows.
#[derive(Debug, Clone, PartialEq, Eq)]
pub struct AudioFacts {
    pub duration_secs: u64,
    pub bitrate_kbps: Option<u32>,
    pub sample_rate_hz: Option<u32>,
    pub channels: Option<u8>,
    pub tags: Option<AudioTags>,
}

/// The present lines, in order.
pub open spec fn present_lines(parts: Seq<Option<Seq<char>>>) -> Seq<Seq<char>>
    decreases parts.len(),
{
    if parts.len() == 0 {
        seq![]
    } else {
        let r = present_lines(parts.drop_last());
        match parts.last() {
            Some(l) => r.push(l),
            None => r,
        }
    }
}

/// The views of optional strings.
pub open spec fn opt_views(parts: Seq<Option<String>>) -> Seq<Option<Seq<char>>> {
    parts.map_values(|o: Option<String>| match o {
        Some(s) => Some(s@),
        None => None,
    })
}

/// The present lines of `parts`, or `fallback` alone when none is present.
pub fn collect_lines(parts: Vec<Option<String>>, fallback: &str) -> (lines: Vec<String>)
    ensures
        present_lines(opt_views(parts@)).len() > 0 ==> lines@.map_values(|l: String| l@) == present_lines(
            opt_views(parts@),
        ),
        present_lines(opt_views(parts@)).len() == 0 ==> lines@.map_values(|l: String| l@) == seq![fallback@],
{
    let ghost pv = opt_views(parts@);
    let mut lines: Vec<String> = Vec::new();
    let mut i: usize = 0;
    while i < parts.len()
        invariant
            pv == opt_views(parts@),
            i <= parts@.len(),
            lines@.map_values(|l: String| l@) == present_lines(pv.take(i as int)),
        decreases parts@.len() - i,
    {
        assert(pv.take(i as int + 1).drop_last() =~= pv.take(i as int));
        assert(pv.take(i as int + 1).last() == pv[i as int]);
        match &parts[i] {
            Some(l) => {
                lines.push(l.clone());
                assert(lines@.map_values(|l: String| l@) =~= present_lines(pv.take(i as int + 1)));
            },
            None => {},
        }
        i += 1;
    }
    assert(pv.take(pv.len() as int) =~= pv);
    if lines.len() == 0 {
        lines.push(fallback.to_owned());
        assert(lines@.map_values(|l: String| l@) =~= seq![fallback@]);
    }
    lines
}

/// `prefix`, the number and `suffix`, when there is a number.
pub open spec fn number_line_of(prefix: Seq<char>, n: Option<u64>, suffix: Seq<char>) -> Option<Seq<char>> {
    match n {
        Some(v) => Some(prefix + decimal(v as nat) + suffix),
        None => None,
    }
}

/// `prefix` and the text, when there is a text.
pub open spec fn text_line_of(prefix: Seq<char>, t: Option<String>) -> Option<Seq<char>> {
    match t {
        Some(v) => Some(prefix + v@),
        None => None,
    }
}

fn number_line(prefix: &str, n: Option<u64>, suffix: &str) -> (r: Option<String>)
    ensures
        match r {
            Some(l) => number_line_of(prefix@, n, suffix@) == Some(l@),
            None => number_line_of(prefix@, n, suffix@) is None,
        },
{
    match n {
        Some(v) => {
            let mut l = prefix.to_owned();
            push_decimal(&mut l, v);
            push_str(&mut l, suffix);
            Some(l)
        },
        None => None,
    }
}

fn text_line(prefix: &str, t: &Option<String>) -> (r: Option<String>)
    ensures
        match r {
            Some(l) => text_line_of(prefix@, *t) == Some(l@),
            None => text_line_of(prefix@, *t) is None,
        },
{
    match t {
        Some(v) => {
            let mut l = prefix.to_owned();
            push_str(&mut l, v.as_str());
            Some(l)
        },
        None => None,
    }
}

/// The duration line: minutes and two-digit seconds, when the duration is known.
pub open spec fn duration_line_of(secs: nat) -> Option<Seq<char>> {
    if secs > 0 {
        Some("Duration: "@ + decimal(secs / 60) + ":"@ + two_digits(secs % 60))
    } else {
        None
    }
}

fn duration_line(secs: u64) -> (r: Option<String>)
    ensures
        match r {
            Some(l) => duration_line_of(secs as nat) == Some(l@),
            None => duration_line_of(secs as nat) is None,
        },
{
    if secs == 0 {
        return None;
    }
    let mut l = "Duration: ".to_owned();
    push_decimal(&mut l, secs / 60);
    push_str(&mut l, ":");
    if secs % 60 < 10 {
        push_str(&mut l, "0");
    }
    push_decimal(&mut l, secs % 60);
    Some(l)
}

/// The lines an audio preview may show, in order (each present or not).
pub open spec fn audio_parts_of(facts: AudioFacts, size_line: Option<String>) -> Seq<Option<Seq<char>>> {
    let tag_parts: Seq<Option<Seq<char>>> = match facts.tags {
        Some(t) => seq![
            text_line_of("Title: "@, t.title),
            text_line_of("Artist: "@, t.artist),
            text_line_of("Album: "@, t.album),
            number_line_of("Year: "@, match t.year {
                Some(y) => Some(y as u64),
                None => None,
            }, Seq::<char>::empty()),
            text_line_of("Genre: "@, t.genre),
            number_line_of("Track: "@, match t.track {
                Some(k) => Some(k as u64),
                None => None,
            }, Seq::<char>::empty()),
        ],
        None => seq![],
    };
    seq![
        duration_line_of(facts.duration_secs as nat),
        number_line_of("Bitrate: "@, match facts.bitrate_kbps {
            Some(b) => Some(b as u64),
            None => None,
        }, " kbps"@),
        number_line_of("Sample rate: "@, match facts.sample_rate_hz {
            Some(b) => Some(b as u64),
            None => None,
        }, " Hz"@),
        number_line_of("Channels: "@, match facts.channels {
            Some(b) => Some(b as u64),
            None => None,
        }, Seq::<char>::empty()),
    ] + tag_parts + seq![text_line_of(Seq::<char>::empty(), size_line)]
}

/// The lines of an audio preview: duration, bitrate, sample rate, channels, the
/// tags that are set and the size line, those present in this order; a note
/// when none is.
pub fn audio_lines(facts: &AudioFacts, size_line: Option<String>) -> (lines: Vec<String>)
    ensures
        present_lines(audio_parts_of(*facts, size_line)).len() > 0 ==> lines@.map_values(|l: String| l@)
            == present_lines(audio_parts_of(*facts, size_line)),
        present_lines(audio_parts_of(*facts, size_line)).len() == 0 ==> lines@.map_values(|l: String| l@)
            == seq!["Audio file — no metadata available."@],
{
    proof {
        reveal_strlit("");
    }
    let mut parts: Vec<Option<String>> = Vec::new();
    parts.push(duration_line(facts.duration_secs));
    let br: Option<u64> = match facts.bitrate_kbps {
        Some(b) => Some(b as u64),
        None => None,
    };
    let sr: Option<u64> = match facts.sample_rate_hz {
        Some(b) => Some(b as u64),
        None => None,
    };
    let ch: Option<u64> = match facts.channels {
        Some(b) => Some(b as u64),
        None => None,
    };
    parts.push(number_line("Bitrate: ", br, " kbps"));
    parts.push(number_line("Sample rate: ", sr, " Hz"));
    parts.push(number_line("Channels: ", ch, ""));
    match &facts.tags {
        Some(t) => {
            parts.push(text_line("Title: ", &t.title));
            parts.push(text_line("Artist: ", &t.artist));
            parts.push(text_line("Album: ", &t.album));
            let year: Option<u64> = match t.year {
                Some(y) => Some(y as u64),
                None => None,
            };
            parts.push(number_line("Year: ", year, ""));
            parts.push(text_line("Genre: ", &t.genre));
            let track: Option<u64> = match t.track {
                Some(k) => Some(k as u64),
                None => None,
            };
            parts.push(number_line("Track: ", track, ""));
        },
        None => {},
    }
    parts.push(text_line("", &size_line));
    assert(""@ =~= Seq::<char>::empty());
    assert(opt_views(parts@) =~= audio_parts_of(*facts, size_line));
    collect_lines(parts, "Audio file — no metadata available.")
}

} // verus!
