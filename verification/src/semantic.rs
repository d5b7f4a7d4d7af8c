//! Semantic file classification: exact well-known names first, then compound
//! suffixes such as `.tar.gz`, then the extension, then what the filesystem says.

use vstd::prelude::*;
use crate::model::{CodeSubtype, EntryKind, FileCategory, FileSemantic, FolderKind, PlatformCaseMode};
use crate::paths::{extension_of, file_name_of, path_extension, path_file_name};
use crate::text::{
    ascii_lower, collapse_whitespace, eq_ignore_ascii_case, has_suffix, in_list, join, list_has, str_ends_with,
    str_eq, str_trim, to_ascii_lower, trim, words,
};

verus! {

/// The abstract value of a [`FileSemantic`].
pub struct SemanticView {
    pub category: FileCategory,
    pub code_subtype: Option<CodeSubtype>,
    pub folder_kind: Option<FolderKind>,
    pub rule_hint: Option<Seq<char>>,
}

impl View for FileSemantic {
    type V = SemanticView;

    open spec fn view(&self) -> SemanticView {
        SemanticView {
            category: self.category,
            code_subtype: self.code_subtype,
            folder_kind: self.folder_kind,
            rule_hint: match self.rule_hint {
                Some(r) => Some(r@),
                None => None,
            },
        }
    }
}

/// A semantic decided by the rule named `rule`.
pub open spec fn by_rule(category: FileCategory, code_subtype: Option<CodeSubtype>, rule: Seq<char>) -> SemanticView {
    SemanticView { category, code_subtype, folder_kind: None, rule_hint: Some(rule) }
}

impl FileSemantic {
    fn new(category: FileCategory, code_subtype: Option<CodeSubtype>, rule_hint: &str) -> (s: Self)
        ensures
            s@ == by_rule(category, code_subtype, rule_hint@),
    {
        FileSemantic { category, code_subtype, folder_kind: None, rule_hint: Some(rule_hint.to_owned()) }
    }
}

/// The platform's file-name case mode: case-sensitive on this (Unix) build.
pub fn platform_case_mode_current() -> (m: PlatformCaseMode)
    ensures
        m == PlatformCaseMode::CaseSensitive,
{
    PlatformCaseMode::CaseSensitive
}

/// `name` matches `candidate` under the case mode.
pub open spec fn name_matches(name: Seq<char>, candidate: Seq<char>, mode: PlatformCaseMode) -> bool {
    match mode {
        PlatformCaseMode::CaseSensitive => name == candidate,
        PlatformCaseMode::CaseInsensitive => ascii_lower(name) == ascii_lower(candidate),
    }
}

fn name_match(name: &str, candidate: &str, mode: PlatformCaseMode) -> (r: bool)
    ensures
        r == name_matches(name@, candidate@, mode),
{
    match mode {
        PlatformCaseMode::CaseSensitive => str_eq(name, candidate),
        PlatformCaseMode::CaseInsensitive => eq_ignore_ascii_case(name, candidate),
    }
}

/// Well-known file names, with their category, code subtype and rule name.
pub open spec fn exact_names() -> Seq<(&'static str, FileCategory, Option<CodeSubtype>, &'static str)> {
    seq![
        ("README", FileCategory::Document, None, "exact:README"),
        ("README.md", FileCategory::Code, Some(CodeSubtype::Markdown), "exact:README.md"),
        ("LICENSE", FileCategory::Document, None, "exact:LICENSE"),
        ("COPYING", FileCategory::Document, None, "exact:COPYING"),
        ("Dockerfile", FileCategory::Config, None, "exact:Dockerfile"),
        ("Makefile", FileCategory::Config, None, "exact:Makefile"),
        ("Cargo.toml", FileCategory::Config, Some(CodeSubtype::TOML), "exact:Cargo.toml"),
        ("Cargo.lock", FileCategory::Config, Some(CodeSubtype::TOML), "exact:Cargo.lock"),
        ("package.json", FileCategory::Config, Some(CodeSubtype::JSON), "exact:package.json"),
        ("package-lock.json", FileCategory::Config, Some(CodeSubtype::JSON), "exact:package-lock.json"),
        ("pnpm-lock.yaml", FileCategory::Config, Some(CodeSubtype::YAML), "exact:pnpm-lock.yaml"),
        ("yarn.lock", FileCategory::Config, None, "exact:yarn.lock"),
        ("tsconfig.json", FileCategory::Config, Some(CodeSubtype::JSON), "exact:tsconfig.json"),
        ("vite.config.js", FileCategory::Config, Some(CodeSubtype::JavaScript), "exact:vite.config.js"),
        ("webpack.config.js", FileCategory::Config, Some(CodeSubtype::JavaScript), "exact:webpack.config.js"),
        (".env", FileCategory::Config, None, "exact:.env"),
        (".gitignore", FileCategory::Config, None, "exact:.gitignore"),
        (".gitattributes", FileCategory::Config, None, "exact:.gitattributes"),
        (".editorconfig", FileCategory::Config, None, "exact:.editorconfig"),
        ("CMakeLists.txt", FileCategory::Config, None, "exact:CMakeLists.txt"),
        ("meson.build", FileCategory::Config, None, "exact:meson.build"),
        ("compose.yaml", FileCategory::Config, Some(CodeSubtype::YAML), "exact:compose.yaml"),
        ("compose.yml", FileCategory::Config, Some(CodeSubtype::YAML), "exact:compose.yml"),
        ("docker-compose.yaml", FileCategory::Config, Some(CodeSubtype::YAML), "exact:docker-compose.yaml"),
        ("docker-compose.yml", FileCategory::Config, Some(CodeSubtype::YAML), "exact:docker-compose.yml"),
    ]
}

/// The semantic of the first well-known name, from position `i` on, that `name` matches.
pub open spec fn exact_from(name: Seq<char>, mode: PlatformCaseMode, i: int) -> Option<SemanticView>
    decreases exact_names().len() - i,
{
    if i < 0 || i >= exact_names().len() {
        None
    } else if name_matches(name, exact_names()[i].0@, mode) {
        Some(by_rule(exact_names()[i].1, exact_names()[i].2, exact_names()[i].3@))
    } else {
        exact_from(name, mode, i + 1)
    }
}

/// The semantic of the first well-known name that `name` matches.
pub open spec fn exact_semantic(name: Seq<char>, mode: PlatformCaseMode) -> Option<SemanticView> {
    exact_from(name, mode, 0)
}

fn classify_exact_name(name: &str, mode: PlatformCaseMode) -> (r: Option<FileSemantic>)
    ensures
        match r {
            Some(s) => exact_semantic(name@, mode) == Some(s@),
            None => exact_semantic(name@, mode) is None,
        },
{
    let table: [(&str, FileCategory, Option<CodeSubtype>, &str); 25] = [
        ("README", FileCategory::Document, None, "exact:README"),
        ("README.md", FileCategory::Code, Some(CodeSubtype::Markdown), "exact:README.md"),
        ("LICENSE", FileCategory::Document, None, "exact:LICENSE"),
        ("COPYING", FileCategory::Document, None, "exact:COPYING"),
        ("Dockerfile", FileCategory::Config, None, "exact:Dockerfile"),
        ("Makefile", FileCategory::Config, None, "exact:Makefile"),
        ("Cargo.toml", FileCategory::Config, Some(CodeSubtype::TOML), "exact:Cargo.toml"),
        ("Cargo.lock", FileCategory::Config, Some(CodeSubtype::TOML), "exact:Cargo.lock"),
        ("package.json", FileCategory::Config, Some(CodeSubtype::JSON), "exact:package.json"),
        ("package-lock.json", FileCategory::Config, Some(CodeSubtype::JSON), "exact:package-lock.json"),
        ("pnpm-lock.yaml", FileCategory::Config, Some(CodeSubtype::YAML), "exact:pnpm-lock.yaml"),
        ("yarn.lock", FileCategory::Config, None, "exact:yarn.lock"),
        ("tsconfig.json", FileCategory::Config, Some(CodeSubtype::JSON), "exact:tsconfig.json"),
        ("vite.config.js", FileCategory::Config, Some(CodeSubtype::JavaScript), "exact:vite.config.js"),
        ("webpack.config.js", FileCategory::Config, Some(CodeSubtype::JavaScript), "exact:webpack.config.js"),
        (".env", FileCategory::Config, None, "exact:.env"),
        (".gitignore", FileCategory::Config, None, "exact:.gitignore"),
        (".gitattributes", FileCategory::Config, None, "exact:.gitattributes"),
        (".editorconfig", FileCategory::Config, None, "exact:.editorconfig"),
        ("CMakeLists.txt", FileCategory::Config, None, "exact:CMakeLists.txt"),
        ("meson.build", FileCategory::Config, None, "exact:meson.build"),
        ("compose.yaml", FileCategory::Config, Some(CodeSubtype::YAML), "exact:compose.yaml"),
        ("compose.yml", FileCategory::Config, Some(CodeSubtype::YAML), "exact:compose.yml"),
        ("docker-compose.yaml", FileCategory::Config, Some(CodeSubtype::YAML), "exact:docker-compose.yaml"),
        ("docker-compose.yml", FileCategory::Config, Some(CodeSubtype::YAML), "exact:docker-compose.yml"),
    ];
    assert(table@ =~= exact_names());
    let mut i: usize = 0;
    while i < 25
        invariant
            i <= 25,
            table@ == exact_names(),
            exact_semantic(name@, mode) == exact_from(name@, mode, i as int),
        decreases 25 - i,
    {
        let (candidate, category, subtype, rule) = table[i];
        if name_match(name, candidate, mode) {
            return Some(FileSemantic::new(category, subtype, rule));
        }
        i += 1;
    }
    None
}

/// Compound suffixes recognised before the plain extension.
pub open spec fn special_suffixes() -> Seq<(&'static str, FileCategory, Option<CodeSubtype>, &'static str)> {
    seq![
        (".tar.gz", FileCategory::Archive, None, "special-ext:.tar.gz"),
        (".tar.bz2", FileCategory::Archive, None, "special-ext:.tar.bz2"),
        (".tar.xz", FileCategory::Archive, None, "special-ext:.tar.xz"),
        (".tar.zst", FileCategory::Archive, None, "special-ext:.tar.zst"),
        (".d.ts", FileCategory::Code, Some(CodeSubtype::TypeScript), "special-ext:.d.ts"),
        (".user.js", FileCategory::Code, Some(CodeSubtype::JavaScript), "special-ext:.user.js"),
    ]
}

/// The semantic of the first compound suffix, from position `i` on, that ends `lower`.
pub open spec fn special_from(lower: Seq<char>, i: int) -> Option<SemanticView>
    decreases special_suffixes().len() - i,
{
    if i < 0 || i >= special_suffixes().len() {
        None
    } else if has_suffix(lower, special_suffixes()[i].0@) {
        Some(by_rule(special_suffixes()[i].1, special_suffixes()[i].2, special_suffixes()[i].3@))
    } else {
        special_from(lower, i + 1)
    }
}

/// The semantic of the first compound suffix that ends the lower-cased name.
pub open spec fn special_semantic(name: Seq<char>) -> Option<SemanticView> {
    special_from(ascii_lower(name), 0)
}

fn classify_special_extension(name: &str) -> (r: Option<FileSemantic>)
    ensures
        match r {
            Some(s) => special_semantic(name@) == Some(s@),
            None => special_semantic(name@) is None,
        },
{
    let lower = to_ascii_lower(name);
    let table: [(&str, FileCategory, Option<CodeSubtype>, &str); 6] = [
        (".tar.gz", FileCategory::Archive, None, "special-ext:.tar.gz"),
        (".tar.bz2", FileCategory::Archive, None, "special-ext:.tar.bz2"),
        (".tar.xz", FileCategory::Archive, None, "special-ext:.tar.xz"),
        (".tar.zst", FileCategory::Archive, None, "special-ext:.tar.zst"),
        (".d.ts", FileCategory::Code, Some(CodeSubtype::TypeScript), "special-ext:.d.ts"),
        (".user.js", FileCategory::Code, Some(CodeSubtype::JavaScript), "special-ext:.user.js"),
    ];
    assert(table@ =~= special_suffixes());
    let mut i: usize = 0;
    while i < 6
        invariant
            i <= 6,
            table@ == special_suffixes(),
            lower@ == ascii_lower(name@),
            special_semantic(name@) == special_from(lower@, i as int),
        decreases 6 - i,
    {
        let (suffix, category, subtype, rule) = table[i];
        if str_ends_with(lower.as_str(), suffix) {
            return Some(FileSemantic::new(category, subtype, rule));
        }
        i += 1;
    }
    None
}

/// Extensions of each category, lower-cased, in the order they are checked.
pub open spec fn image_exts() -> Seq<&'static str> {
    seq!["png", "jpg", "jpeg", "gif", "bmp", "tif", "tiff", "webp", "heic", "heif", "avif", "svg", "ico", "icns", "psd", "psb", "ai", "eps", "xcf", "kra", "ora", "raw", "dng", "cr2", "nef", "orf", "arw", "rw2", "pef", "sr2", "svgz", "jxl", "fig", "sketch",]
}

pub open spec fn video_exts() -> Seq<&'static str> {
    seq!["mp4", "mkv", "webm", "avi", "mov", "flv", "wmv", "mpg", "mpeg", "m4v", "3gp", "mts", "m2ts", "ogv", "rm", "rmvb", "f4v",]
}

pub open spec fn audio_exts() -> Seq<&'static str> {
    seq!["mp3", "wav", "flac", "ogg", "oga", "opus", "aac", "m4a", "wma", "aiff", "mid", "midi", "amr", "ac3", "ape",]
}

pub open spec fn archive_exts() -> Seq<&'static str> {
    seq!["zip", "tar", "gz", "bz2", "xz", "7z", "rar", "lz", "lzma", "lz4", "zst", "tgz", "tbz", "txz", "cab", "ar", "cpio", "jar", "war", "ear",]
}

pub open spec fn disk_image_exts() -> Seq<&'static str> {
    seq!["iso", "img", "bin", "cue", "dmg", "qcow", "qcow2", "vmdk", "vdi", "vhd", "vhdx", "ova", "ovf",]
}

pub open spec fn font_exts() -> Seq<&'static str> {
    seq!["ttf", "otf", "woff", "woff2", "eot", "pfb", "pfm"]
}

pub open spec fn pdf_exts() -> Seq<&'static str> {
    seq!["pdf"]
}

pub open spec fn document_exts() -> Seq<&'static str> {
    seq!["doc", "docx", "odt", "pages", "txt", "rtf", "tex", "latex", "epub", "mobi", "azw", "azw3", "fb2",]
}

pub open spec fn spreadsheet_exts() -> Seq<&'static str> {
    seq!["xls", "xlsx", "ods", "numbers", "csv", "tsv"]
}

pub open spec fn presentation_exts() -> Seq<&'static str> {
    seq!["ppt", "pptx", "odp", "key"]
}

pub open spec fn package_exts() -> Seq<&'static str> {
    seq!["deb", "rpm", "pkg", "apk", "flatpak", "flatpakref", "appimage", "snap", "msi", "exe",]
}

pub open spec fn config_exts() -> Seq<&'static str> {
    seq!["ini", "cfg", "conf", "env", "properties", "plist", "lock", "editorconfig", "gitignore", "gitattributes",]
}

pub open spec fn rust_exts() -> Seq<&'static str> {
    seq!["rs"]
}

pub open spec fn js_exts() -> Seq<&'static str> {
    seq!["js", "mjs", "cjs", "jsx"]
}

pub open spec fn ts_exts() -> Seq<&'static str> {
    seq!["ts", "tsx"]
}

pub open spec fn html_exts() -> Seq<&'static str> {
    seq!["html", "htm"]
}

pub open spec fn css_exts() -> Seq<&'static str> {
    seq!["css", "scss", "sass", "less"]
}

pub open spec fn json_exts() -> Seq<&'static str> {
    seq!["json", "jsonc"]
}

pub open spec fn markdown_exts() -> Seq<&'static str> {
    seq!["md", "markdown", "rst", "adoc", "org"]
}

pub open spec fn python_exts() -> Seq<&'static str> {
    seq!["py", "pyc", "pyo", "ipynb"]
}

pub open spec fn shell_exts() -> Seq<&'static str> {
    seq!["sh", "bash", "zsh", "fish"]
}

pub open spec fn toml_exts() -> Seq<&'static str> {
    seq!["toml"]
}

pub open spec fn yaml_exts() -> Seq<&'static str> {
    seq!["yaml", "yml"]
}

pub open spec fn code_other_exts() -> Seq<&'static str> {
    seq!["xml", "c", "h", "cpp", "hpp", "cc", "hh", "go", "mod", "sum", "java", "class", "kt", "kts", "gradle", "cs", "csproj", "sln", "vb", "php", "phtml", "rb", "gemspec", "lua", "swift", "sql",]
}

/// The semantic of a lower-cased, non-empty extension: the first category whose
/// list holds it.
pub open spec fn ext_rule(e: Seq<char>) -> Option<SemanticView> {
    if in_list(e, image_exts()) {
        Some(by_rule(FileCategory::Image, None, "ext:image"@))
    } else if in_list(e, video_exts()) {
        Some(by_rule(FileCategory::Video, None, "ext:video"@))
    } else if in_list(e, audio_exts()) {
        Some(by_rule(FileCategory::Audio, None, "ext:audio"@))
    } else if in_list(e, archive_exts()) {
        Some(by_rule(FileCategory::Archive, None, "ext:archive"@))
    } else if in_list(e, disk_image_exts()) {
        Some(by_rule(FileCategory::DiskImage, None, "ext:disk-image"@))
    } else if in_list(e, font_exts()) {
        Some(by_rule(FileCategory::Font, None, "ext:font"@))
    } else if in_list(e, pdf_exts()) {
        Some(by_rule(FileCategory::Pdf, None, "ext:pdf"@))
    } else if in_list(e, document_exts()) {
        Some(by_rule(FileCategory::Document, None, "ext:document"@))
    } else if in_list(e, spreadsheet_exts()) {
        Some(by_rule(FileCategory::Spreadsheet, None, "ext:spreadsheet"@))
    } else if in_list(e, presentation_exts()) {
        Some(by_rule(FileCategory::Presentation, None, "ext:presentation"@))
    } else if in_list(e, package_exts()) {
        Some(by_rule(FileCategory::Package, None, "ext:package"@))
    } else if in_list(e, config_exts()) {
        Some(by_rule(FileCategory::Config, None, "ext:config"@))
    } else if in_list(e, rust_exts()) {
        Some(by_rule(FileCategory::Code, Some(CodeSubtype::Rust), "ext:code-rust"@))
    } else if in_list(e, js_exts()) {
        Some(by_rule(FileCategory::Code, Some(CodeSubtype::JavaScript), "ext:code-js"@))
    } else if in_list(e, ts_exts()) {
        Some(by_rule(FileCategory::Code, Some(CodeSubtype::TypeScript), "ext:code-ts"@))
    } else if in_list(e, html_exts()) {
        Some(by_rule(FileCategory::Code, Some(CodeSubtype::HTML), "ext:code-html"@))
    } else if in_list(e, css_exts()) {
        Some(by_rule(FileCategory::Code, Some(CodeSubtype::CSS), "ext:code-css"@))
    } else if in_list(e, json_exts()) {
        Some(by_rule(FileCategory::Code, Some(CodeSubtype::JSON), "ext:code-json"@))
    } else if in_list(e, markdown_exts()) {
        Some(by_rule(FileCategory::Code, Some(CodeSubtype::Markdown), "ext:code-markdown"@))
    } else if in_list(e, python_exts()) {
        Some(by_rule(FileCategory::Code, Some(CodeSubtype::Python), "ext:code-python"@))
    } else if in_list(e, shell_exts()) {
        Some(by_rule(FileCategory::Code, Some(CodeSubtype::Shell), "ext:code-shell"@))
    } else if in_list(e, toml_exts()) {
        Some(by_rule(FileCategory::Code, Some(CodeSubtype::TOML), "ext:code-toml"@))
    } else if in_list(e, yaml_exts()) {
        Some(by_rule(FileCategory::Code, Some(CodeSubtype::YAML), "ext:code-yaml"@))
    } else if in_list(e, code_other_exts()) {
        Some(by_rule(FileCategory::Code, Some(CodeSubtype::Other), "ext:code-other"@))
    } else {
        None
    }
}

/// The semantic of the extension of `path`, lower-cased; none for a missing or
/// empty extension.
pub open spec fn extension_semantic(path: Seq<char>) -> Option<SemanticView> {
    let e = match extension_of(path) {
        Some(e) => ascii_lower(e),
        None => Seq::<char>::empty(),
    };
    if e.len() == 0 {
        None
    } else {
        ext_rule(e)
    }
}

fn extension_rule(e: &str) -> (r: Option<FileSemantic>)
    ensures
        match r {
            Some(s) => ext_rule(e@) == Some(s@),
            None => ext_rule(e@) is None,
        },
{
    if {
        let l: [&str; 34] = ["png", "jpg", "jpeg", "gif", "bmp", "tif", "tiff", "webp", "heic", "heif", "avif", "svg", "ico", "icns", "psd", "psb", "ai", "eps", "xcf", "kra", "ora", "raw", "dng", "cr2", "nef", "orf", "arw", "rw2", "pef", "sr2", "svgz", "jxl", "fig", "sketch",];
        assert(l@ =~= image_exts());
        list_has(e, &l)
    } {
        Some(FileSemantic::new(FileCategory::Image, None, "ext:image"))
    } else if {
        let l: [&str; 17] = ["mp4", "mkv", "webm", "avi", "mov", "flv", "wmv", "mpg", "mpeg", "m4v", "3gp", "mts", "m2ts", "ogv", "rm", "rmvb", "f4v",];
        assert(l@ =~= video_exts());
        list_has(e, &l)
    } {
        Some(FileSemantic::new(FileCategory::Video, None, "ext:video"))
    } else if {
        let l: [&str; 15] = ["mp3", "wav", "flac", "ogg", "oga", "opus", "aac", "m4a", "wma", "aiff", "mid", "midi", "amr", "ac3", "ape",];
        assert(l@ =~= audio_exts());
        list_has(e, &l)
    } {
        Some(FileSemantic::new(FileCategory::Audio, None, "ext:audio"))
    } else if {
        let l: [&str; 20] = ["zip", "tar", "gz", "bz2", "xz", "7z", "rar", "lz", "lzma", "lz4", "zst", "tgz", "tbz", "txz", "cab", "ar", "cpio", "jar", "war", "ear",];
        assert(l@ =~= archive_exts());
        list_has(e, &l)
    } {
        Some(FileSemantic::new(FileCategory::Archive, None, "ext:archive"))
    } else if {
        let l: [&str; 13] = ["iso", "img", "bin", "cue", "dmg", "qcow", "qcow2", "vmdk", "vdi", "vhd", "vhdx", "ova", "ovf",];
        assert(l@ =~= disk_image_exts());
        list_has(e, &l)
    } {
        Some(FileSemantic::new(FileCategory::DiskImage, None, "ext:disk-image"))
    } else if {
        let l: [&str; 7] = ["ttf", "otf", "woff", "woff2", "eot", "pfb", "pfm"];
        assert(l@ =~= font_exts());
        list_has(e, &l)
    } {
        Some(FileSemantic::new(FileCategory::Font, None, "ext:font"))
    } else if {
        let l: [&str; 1] = ["pdf"];
        assert(l@ =~= pdf_exts());
        list_has(e, &l)
    } {
        Some(FileSemantic::new(FileCategory::Pdf, None, "ext:pdf"))
    } else if {
        let l: [&str; 13] = ["doc", "docx", "odt", "pages", "txt", "rtf", "tex", "latex", "epub", "mobi", "azw", "azw3", "fb2",];
        assert(l@ =~= document_exts());
        list_has(e, &l)
    } {
        Some(FileSemantic::new(FileCategory::Document, None, "ext:document"))
    } else if {
        let l: [&str; 6] = ["xls", "xlsx", "ods", "numbers", "csv", "tsv"];
        assert(l@ =~= spreadsheet_exts());
        list_has(e, &l)
    } {
        Some(FileSemantic::new(FileCategory::Spreadsheet, None, "ext:spreadsheet"))
    } else if {
        let l: [&str; 4] = ["ppt", "pptx", "odp", "key"];
        assert(l@ =~= presentation_exts());
        list_has(e, &l)
    } {
        Some(FileSemantic::new(FileCategory::Presentation, None, "ext:presentation"))
    } else if {
        let l: [&str; 10] = ["deb", "rpm", "pkg", "apk", "flatpak", "flatpakref", "appimage", "snap", "msi", "exe",];
        assert(l@ =~= package_exts());
        list_has(e, &l)
    } {
        Some(FileSemantic::new(FileCategory::Package, None, "ext:package"))
    } else if {
        let l: [&str; 10] = ["ini", "cfg", "conf", "env", "properties", "plist", "lock", "editorconfig", "gitignore", "gitattributes",];
        assert(l@ =~= config_exts());
        list_has(e, &l)
    } {
        Some(FileSemantic::new(FileCategory::Config, None, "ext:config"))
    } else if {
        let l: [&str; 1] = ["rs"];
        assert(l@ =~= rust_exts());
        list_has(e, &l)
    } {
        Some(FileSemantic::new(FileCategory::Code, Some(CodeSubtype::Rust), "ext:code-rust"))
    } else if {
        let l: [&str; 4] = ["js", "mjs", "cjs", "jsx"];
        assert(l@ =~= js_exts());
        list_has(e, &l)
    } {
        Some(FileSemantic::new(FileCategory::Code, Some(CodeSubtype::JavaScript), "ext:code-js"))
    } else if {
        let l: [&str; 2] = ["ts", "tsx"];
        assert(l@ =~= ts_exts());
        list_has(e, &l)
    } {
        Some(FileSemantic::new(FileCategory::Code, Some(CodeSubtype::TypeScript), "ext:code-ts"))
    } else if {
        let l: [&str; 2] = ["html", "htm"];
        assert(l@ =~= html_exts());
        list_has(e, &l)
    } {
        Some(FileSemantic::new(FileCategory::Code, Some(CodeSubtype::HTML), "ext:code-html"))
    } else if {
        let l: [&str; 4] = ["css", "scss", "sass", "less"];
        assert(l@ =~= css_exts());
        list_has(e, &l)
    } {
        Some(FileSemantic::new(FileCategory::Code, Some(CodeSubtype::CSS), "ext:code-css"))
    } else if {
        let l: [&str; 2] = ["json", "jsonc"];
        assert(l@ =~= json_exts());
        list_has(e, &l)
    } {
        Some(FileSemantic::new(FileCategory::Code, Some(CodeSubtype::JSON), "ext:code-json"))
    } else if {
        let l: [&str; 5] = ["md", "markdown", "rst", "adoc", "org"];
        assert(l@ =~= markdown_exts());
        list_has(e, &l)
    } {
        Some(FileSemantic::new(FileCategory::Code, Some(CodeSubtype::Markdown), "ext:code-markdown"))
    } else if {
        let l: [&str; 4] = ["py", "pyc", "pyo", "ipynb"];
        assert(l@ =~= python_exts());
        list_has(e, &l)
    } {
        Some(FileSemantic::new(FileCategory::Code, Some(CodeSubtype::Python), "ext:code-python"))
    } else if {
        let l: [&str; 4] = ["sh", "bash", "zsh", "fish"];
        assert(l@ =~= shell_exts());
        list_has(e, &l)
    } {
        Some(FileSemantic::new(FileCategory::Code, Some(CodeSubtype::Shell), "ext:code-shell"))
    } else if {
        let l: [&str; 1] = ["toml"];
        assert(l@ =~= toml_exts());
        list_has(e, &l)
    } {
        Some(FileSemantic::new(FileCategory::Code, Some(CodeSubtype::TOML), "ext:code-toml"))
    } else if {
        let l: [&str; 2] = ["yaml", "yml"];
        assert(l@ =~= yaml_exts());
        list_has(e, &l)
    } {
        Some(FileSemantic::new(FileCategory::Code, Some(CodeSubtype::YAML), "ext:code-yaml"))
    } else if {
        let l: [&str; 26] = ["xml", "c", "h", "cpp", "hpp", "cc", "hh", "go", "mod", "sum", "java", "class", "kt", "kts", "gradle", "cs", "csproj", "sln", "vb", "php", "phtml", "rb", "gemspec", "lua", "swift", "sql",];
        assert(l@ =~= code_other_exts());
        list_has(e, &l)
    } {
        Some(FileSemantic::new(FileCategory::Code, Some(CodeSubtype::Other), "ext:code-other"))
    } else {
        None
    }
}

fn classify_extension(path: &str) -> (r: Option<FileSemantic>)
    ensures
        match r {
            Some(s) => extension_semantic(path@) == Some(s@),
            None => extension_semantic(path@) is None,
        },
{
    let ext = match path_extension(path) {
        Some(e) => e,
        None => return None,
    };
    let lower = to_ascii_lower(ext);
    if lower.as_str().is_empty() {
        return None;
    }
    extension_rule(lower.as_str())
}

/// `name` with every `_` and `-` replaced by a space.
pub open spec fn dashes_to_spaces(name: Seq<char>) -> Seq<char> {
    name.map_values(|c: char| if c == '_' || c == '-' { ' ' } else { c })
}

/// A folder name reduced for comparison: `_` and `-` read as spaces, white space
/// trimmed and collapsed to single spaces, ASCII lower case.
pub open spec fn normalized_folder_name(name: Seq<char>) -> Seq<char> {
    ascii_lower(join(words(trim(dashes_to_spaces(name))), seq![' ']))
}

fn normalize_folder_name(name: &str) -> (r: String)
    ensures
        r@ == normalized_folder_name(name@),
{
    let cs = crate::text::chars_of(name);
    let mut replaced = String::new();
    let mut i: usize = 0;
    while i < cs.len()
        invariant
            cs@ == name@,
            i <= cs@.len(),
            replaced@ == dashes_to_spaces(cs@.take(i as int)),
        decreases cs@.len() - i,
    {
        let c = cs[i];
        let d = if c == '_' || c == '-' { ' ' } else { c };
        crate::text::push_char(&mut replaced, d);
        assert(replaced@ =~= dashes_to_spaces(cs@.take(i as int + 1)));
        i += 1;
    }
    assert(cs@.take(cs@.len() as int) =~= cs@);
    let trimmed = str_trim(replaced.as_str());
    let collapsed = collapse_whitespace(trimmed);
    to_ascii_lower(collapsed.as_str())
}

/// Well-known user folder names and their kinds.
pub open spec fn folder_names() -> Seq<(&'static str, FolderKind)> {
    seq![
        ("home", FolderKind::Home), ("my home", FolderKind::Home), ("desktop", FolderKind::Desktop),
        ("my desktop", FolderKind::Desktop), ("documents", FolderKind::Documents),
        ("document", FolderKind::Documents), ("my documents", FolderKind::Documents),
        ("my document", FolderKind::Documents), ("docs", FolderKind::Documents),
        ("downloads", FolderKind::Downloads), ("download", FolderKind::Downloads),
        ("my downloads", FolderKind::Downloads), ("my download", FolderKind::Downloads),
        ("pictures", FolderKind::Pictures), ("picture", FolderKind::Pictures), ("photos", FolderKind::Pictures),
        ("photo", FolderKind::Pictures), ("images", FolderKind::Pictures), ("image", FolderKind::Pictures),
        ("my pictures", FolderKind::Pictures), ("my photos", FolderKind::Pictures), ("music", FolderKind::Music),
        ("audio", FolderKind::Music), ("my music", FolderKind::Music), ("videos", FolderKind::Videos),
        ("video", FolderKind::Videos), ("movies", FolderKind::Videos), ("movie", FolderKind::Videos),
        ("my videos", FolderKind::Videos), ("my movies", FolderKind::Videos), ("public", FolderKind::Public),
        ("templates", FolderKind::Templates),
    ]
}

/// The kind of the first well-known folder name, from position `i` on, equal to `n`.
pub open spec fn folder_from(n: Seq<char>, i: int) -> Option<FolderKind>
    decreases folder_names().len() - i,
{
    if i < 0 || i >= folder_names().len() {
        None
    } else if folder_names()[i].0@ == n {
        Some(folder_names()[i].1)
    } else {
        folder_from(n, i + 1)
    }
}

/// The well-known kind of a folder, matched on its normalized name regardless of
/// the platform case mode.
pub open spec fn folder_kind_of(name: Seq<char>) -> Option<FolderKind> {
    folder_from(normalized_folder_name(name), 0)
}

fn classify_folder_kind(name: &str) -> (r: Option<FolderKind>)
    ensures
        r == folder_kind_of(name@),
{
    let normalized = normalize_folder_name(name);
    let table: [(&str, FolderKind); 32] = [
        ("home", FolderKind::Home), ("my home", FolderKind::Home), ("desktop", FolderKind::Desktop),
        ("my desktop", FolderKind::Desktop), ("documents", FolderKind::Documents),
        ("document", FolderKind::Documents), ("my documents", FolderKind::Documents),
        ("my document", FolderKind::Documents), ("docs", FolderKind::Documents),
        ("downloads", FolderKind::Downloads), ("download", FolderKind::Downloads),
        ("my downloads", FolderKind::Downloads), ("my download", FolderKind::Downloads),
        ("pictures", FolderKind::Pictures), ("picture", FolderKind::Pictures), ("photos", FolderKind::Pictures),
        ("photo", FolderKind::Pictures), ("images", FolderKind::Pictures), ("image", FolderKind::Pictures),
        ("my pictures", FolderKind::Pictures), ("my photos", FolderKind::Pictures), ("music", FolderKind::Music),
        ("audio", FolderKind::Music), ("my music", FolderKind::Music), ("videos", FolderKind::Videos),
        ("video", FolderKind::Videos), ("movies", FolderKind::Videos), ("movie", FolderKind::Videos),
        ("my videos", FolderKind::Videos), ("my movies", FolderKind::Videos), ("public", FolderKind::Public),
        ("templates", FolderKind::Templates),
    ];
    assert(table@ =~= folder_names());
    let mut i: usize = 0;
    while i < 32
        invariant
            i <= 32,
            table@ == folder_names(),
            folder_kind_of(name@) == folder_from(normalized@, i as int),
        decreases 32 - i,
    {
        let (candidate, kind) = table[i];
        if str_eq(normalized.as_str(), candidate) {
            return Some(kind);
        }
        i += 1;
    }
    None
}

/// The semantic of a directory (or a symlink to one) named `name`.
pub open spec fn directory_semantic(name: Seq<char>) -> SemanticView {
    SemanticView {
        category: FileCategory::Directory,
        code_subtype: None,
        folder_kind: folder_kind_of(name),
        rule_hint: Some("fs:directory"@),
    }
}

/// The semantic class of the entry at `path`: a directory or a symlink to one is
/// a directory; otherwise the first of the well-known names, the compound
/// suffixes and the extension that applies decides; otherwise a symlink is a
/// symlink, an executable file is an executable and anything else is unknown.
pub open spec fn semantic_of(
    path: Seq<char>,
    kind: EntryKind,
    is_executable: bool,
    symlink_target_is_dir: Option<bool>,
    mode: PlatformCaseMode,
) -> SemanticView {
    let name = match file_name_of(path) {
        Some(n) => n,
        None => Seq::<char>::empty(),
    };
    if kind == EntryKind::Directory || symlink_target_is_dir == Some(true) {
        directory_semantic(name)
    } else if exact_semantic(name, mode) is Some {
        exact_semantic(name, mode)->0
    } else if special_semantic(name) is Some {
        special_semantic(name)->0
    } else if extension_semantic(path) is Some {
        extension_semantic(path)->0
    } else if kind == EntryKind::Symlink {
        by_rule(FileCategory::Symlink, None, "fs:symlink"@)
    } else if (kind == EntryKind::File || kind == EntryKind::Other) && is_executable {
        by_rule(FileCategory::Executable, None, "fs:executable"@)
    } else {
        by_rule(FileCategory::Unknown, None, "fallback:unknown"@)
    }
}

/// Classify a filesystem entry for styling.
pub fn classify_file(
    path: &str,
    entry_kind: EntryKind,
    is_executable: bool,
    symlink_target_is_dir: Option<bool>,
    platform_case_mode: PlatformCaseMode,
) -> (s: FileSemantic)
    ensures
        s@ == semantic_of(path@, entry_kind, is_executable, symlink_target_is_dir, platform_case_mode),
{
    let file_name = match path_file_name(path) {
        Some(n) => n,
        None => {
            proof {
                reveal_strlit("");
            }
            ""
        },
    };
    assert(file_name@ == match file_name_of(path@) {
        Some(n) => n,
        None => Seq::<char>::empty(),
    });
    if entry_kind == EntryKind::Directory || symlink_target_is_dir == Some(true) {
        let mut sem = FileSemantic::new(FileCategory::Directory, None, "fs:directory");
        sem.folder_kind = classify_folder_kind(file_name);
        return sem;
    }
    match classify_exact_name(file_name, platform_case_mode) {
        Some(s) => return s,
        None => {},
    }
    match classify_special_extension(file_name) {
        Some(s) => return s,
        None => {},
    }
    match classify_extension(path) {
        Some(s) => return s,
        None => {},
    }
    if entry_kind == EntryKind::Symlink {
        FileSemantic::new(FileCategory::Symlink, None, "fs:symlink")
    } else if (entry_kind == EntryKind::File || entry_kind == EntryKind::Other) && is_executable {
        FileSemantic::new(FileCategory::Executable, None, "fs:executable")
    } else {
        FileSemantic::new(FileCategory::Unknown, None, "fallback:unknown")
    }
}

/// An extension is classified by the first list that holds it, in the order
/// image, video, audio, archive, disk image, font, PDF, document, spreadsheet,
/// presentation, package, configuration and the code languages: its category
/// (and code subtype) is the one that names that list, with the rule hint
/// naming it too; an extension in no list has no extension rule.
pub proof fn law_extension_category_is_its_list(e: Seq<char>)
    ensures
        in_list(e, image_exts()) ==> (ext_rule(e) matches Some(v) && v.category == FileCategory::Image && v.code_subtype == None::<CodeSubtype>
            && v.rule_hint == Some("ext:image"@)),
        in_list(e, video_exts()) && !in_list(e, image_exts()) ==> (ext_rule(e) matches Some(v) && v.category == FileCategory::Video && v.code_subtype == None::<CodeSubtype>
            && v.rule_hint == Some("ext:video"@)),
        in_list(e, audio_exts()) && !in_list(e, image_exts()) && !in_list(e, video_exts()) ==> (ext_rule(e) matches Some(v) && v.category == FileCategory::Audio && v.code_subtype == None::<CodeSubtype>
            && v.rule_hint == Some("ext:audio"@)),
        in_list(e, archive_exts()) && !in_list(e, image_exts()) && !in_list(e, video_exts()) && !in_list(e, audio_exts()) ==> (ext_rule(e) matches Some(v) && v.category == FileCategory::Archive && v.code_subtype == None::<CodeSubtype>
            && v.rule_hint == Some("ext:archive"@)),
        in_list(e, disk_image_exts()) && !in_list(e, image_exts()) && !in_list(e, video_exts()) && !in_list(e, audio_exts()) && !in_list(e, archive_exts()) ==> (ext_rule(e) matches Some(v) && v.category == FileCategory::DiskImage && v.code_subtype == None::<CodeSubtype>
            && v.rule_hint == Some("ext:disk-image"@)),
        in_list(e, font_exts()) && !in_list(e, image_exts()) && !in_list(e, video_exts()) && !in_list(e, audio_exts()) && !in_list(e, archive_exts()) && !in_list(e, disk_image_exts()) ==> (ext_rule(e) matches Some(v) && v.category == FileCategory::Font && v.code_subtype == None::<CodeSubtype>
            && v.rule_hint == Some("ext:font"@)),
        in_list(e, pdf_exts()) && !in_list(e, image_exts()) && !in_list(e, video_exts()) && !in_list(e, audio_exts()) && !in_list(e, archive_exts()) && !in_list(e, disk_image_exts()) && !in_list(e, font_exts()) ==> (ext_rule(e) matches Some(v) && v.category == FileCategory::Pdf && v.code_subtype == None::<CodeSubtype>
            && v.rule_hint == Some("ext:pdf"@)),
        in_list(e, document_exts()) && !in_list(e, image_exts()) && !in_list(e, video_exts()) && !in_list(e, audio_exts()) && !in_list(e, archive_exts()) && !in_list(e, disk_image_exts()) && !in_list(e, font_exts()) && !in_list(e, pdf_exts()) ==> (ext_rule(e) matches Some(v) && v.category == FileCategory::Document && v.code_subtype == None::<CodeSubtype>
            && v.rule_hint == Some("ext:document"@)),
        in_list(e, spreadsheet_exts()) && !in_list(e, image_exts()) && !in_list(e, video_exts()) && !in_list(e, audio_exts()) && !in_list(e, archive_exts()) && !in_list(e, disk_image_exts()) && !in_list(e, font_exts()) && !in_list(e, pdf_exts()) && !in_list(e, document_exts()) ==> (ext_rule(e) matches Some(v) && v.category == FileCategory::Spreadsheet && v.code_subtype == None::<CodeSubtype>
            && v.rule_hint == Some("ext:spreadsheet"@)),
        in_list(e, presentation_exts()) && !in_list(e, image_exts()) && !in_list(e, video_exts()) && !in_list(e, audio_exts()) && !in_list(e, archive_exts()) && !in_list(e, disk_image_exts()) && !in_list(e, font_exts()) && !in_list(e, pdf_exts()) && !in_list(e, document_exts()) && !in_list(e, spreadsheet_exts()) ==> (ext_rule(e) matches Some(v) && v.category == FileCategory::Presentation && v.code_subtype == None::<CodeSubtype>
            && v.rule_hint == Some("ext:presentation"@)),
        in_list(e, package_exts()) && !in_list(e, image_exts()) && !in_list(e, video_exts()) && !in_list(e, audio_exts()) && !in_list(e, archive_exts()) && !in_list(e, disk_image_exts()) && !in_list(e, font_exts()) && !in_list(e, pdf_exts()) && !in_list(e, document_exts()) && !in_list(e, spreadsheet_exts()) && !in_list(e, presentation_exts()) ==> (ext_rule(e) matches Some(v) && v.category == FileCategory::Package && v.code_subtype == None::<CodeSubtype>
            && v.rule_hint == Some("ext:package"@)),
        in_list(e, config_exts()) && !in_list(e, image_exts()) && !in_list(e, video_exts()) && !in_list(e, audio_exts()) && !in_list(e, archive_exts()) && !in_list(e, disk_image_exts()) && !in_list(e, font_exts()) && !in_list(e, pdf_exts()) && !in_list(e, document_exts()) && !in_list(e, spreadsheet_exts()) && !in_list(e, presentation_exts()) && !in_list(e, package_exts()) ==> (ext_rule(e) matches Some(v) && v.category == FileCategory::Config && v.code_subtype == None::<CodeSubtype>
            && v.rule_hint == Some("ext:config"@)),
        in_list(e, rust_exts()) && !in_list(e, image_exts()) && !in_list(e, video_exts()) && !in_list(e, audio_exts()) && !in_list(e, archive_exts()) && !in_list(e, disk_image_exts()) && !in_list(e, font_exts()) && !in_list(e, pdf_exts()) && !in_list(e, document_exts()) && !in_list(e, spreadsheet_exts()) && !in_list(e, presentation_exts()) && !in_list(e, package_exts()) && !in_list(e, config_exts()) ==> (ext_rule(e) matches Some(v) && v.category == FileCategory::Code && v.code_subtype == Some(CodeSubtype::Rust)
            && v.rule_hint == Some("ext:code-rust"@)),
        in_list(e, js_exts()) && !in_list(e, image_exts()) && !in_list(e, video_exts()) && !in_list(e, audio_exts()) && !in_list(e, archive_exts()) && !in_list(e, disk_image_exts()) && !in_list(e, font_exts()) && !in_list(e, pdf_exts()) && !in_list(e, document_exts()) && !in_list(e, spreadsheet_exts()) && !in_list(e, presentation_exts()) && !in_list(e, package_exts()) && !in_list(e, config_exts()) && !in_list(e, rust_exts()) ==> (ext_rule(e) matches Some(v) && v.category == FileCategory::Code && v.code_subtype == Some(CodeSubtype::JavaScript)
            && v.rule_hint == Some("ext:code-js"@)),
        in_list(e, ts_exts()) && !in_list(e, image_exts()) && !in_list(e, video_exts()) && !in_list(e, audio_exts()) && !in_list(e, archive_exts()) && !in_list(e, disk_image_exts()) && !in_list(e, font_exts()) && !in_list(e, pdf_exts()) && !in_list(e, document_exts()) && !in_list(e, spreadsheet_exts()) && !in_list(e, presentation_exts()) && !in_list(e, package_exts()) && !in_list(e, config_exts()) && !in_list(e, rust_exts()) && !in_list(e, js_exts()) ==> (ext_rule(e) matches Some(v) && v.category == FileCategory::Code && v.code_subtype == Some(CodeSubtype::TypeScript)
            && v.rule_hint == Some("ext:code-ts"@)),
        in_list(e, html_exts()) && !in_list(e, image_exts()) && !in_list(e, video_exts()) && !in_list(e, audio_exts()) && !in_list(e, archive_exts()) && !in_list(e, disk_image_exts()) && !in_list(e, font_exts()) && !in_list(e, pdf_exts()) && !in_list(e, document_exts()) && !in_list(e, spreadsheet_exts()) && !in_list(e, presentation_exts()) && !in_list(e, package_exts()) && !in_list(e, config_exts()) && !in_list(e, rust_exts()) && !in_list(e, js_exts()) && !in_list(e, ts_exts()) ==> (ext_rule(e) matches Some(v) && v.category == FileCategory::Code && v.code_subtype == Some(CodeSubtype::HTML)
            && v.rule_hint == Some("ext:code-html"@)),
        in_list(e, css_exts()) && !in_list(e, image_exts()) && !in_list(e, video_exts()) && !in_list(e, audio_exts()) && !in_list(e, archive_exts()) && !in_list(e, disk_image_exts()) && !in_list(e, font_exts()) && !in_list(e, pdf_exts()) && !in_list(e, document_exts()) && !in_list(e, spreadsheet_exts()) && !in_list(e, presentation_exts()) && !in_list(e, package_exts()) && !in_list(e, config_exts()) && !in_list(e, rust_exts()) && !in_list(e, js_exts()) && !in_list(e, ts_exts()) && !in_list(e, html_exts()) ==> (ext_rule(e) matches Some(v) && v.category == FileCategory::Code && v.code_subtype == Some(CodeSubtype::CSS)
            && v.rule_hint == Some("ext:code-css"@)),
        in_list(e, json_exts()) && !in_list(e, image_exts()) && !in_list(e, video_exts()) && !in_list(e, audio_exts()) && !in_list(e, archive_exts()) && !in_list(e, disk_image_exts()) && !in_list(e, font_exts()) && !in_list(e, pdf_exts()) && !in_list(e, document_exts()) && !in_list(e, spreadsheet_exts()) && !in_list(e, presentation_exts()) && !in_list(e, package_exts()) && !in_list(e, config_exts()) && !in_list(e, rust_exts()) && !in_list(e, js_exts()) && !in_list(e, ts_exts()) && !in_list(e, html_exts()) && !in_list(e, css_exts()) ==> (ext_rule(e) matches Some(v) && v.category == FileCategory::Code && v.code_subtype == Some(CodeSubtype::JSON)
            && v.rule_hint == Some("ext:code-json"@)),
        in_list(e, markdown_exts()) && !in_list(e, image_exts()) && !in_list(e, video_exts()) && !in_list(e, audio_exts()) && !in_list(e, archive_exts()) && !in_list(e, disk_image_exts()) && !in_list(e, font_exts()) && !in_list(e, pdf_exts()) && !in_list(e, document_exts()) && !in_list(e, spreadsheet_exts()) && !in_list(e, presentation_exts()) && !in_list(e, package_exts()) && !in_list(e, config_exts()) && !in_list(e, rust_exts()) && !in_list(e, js_exts()) && !in_list(e, ts_exts()) && !in_list(e, html_exts()) && !in_list(e, css_exts()) && !in_list(e, json_exts()) ==> (ext_rule(e) matches Some(v) && v.category == FileCategory::Code && v.code_subtype == Some(CodeSubtype::Markdown)
            && v.rule_hint == Some("ext:code-markdown"@)),
        in_list(e, python_exts()) && !in_list(e, image_exts()) && !in_list(e, video_exts()) && !in_list(e, audio_exts()) && !in_list(e, archive_exts()) && !in_list(e, disk_image_exts()) && !in_list(e, font_exts()) && !in_list(e, pdf_exts()) && !in_list(e, document_exts()) && !in_list(e, spreadsheet_exts()) && !in_list(e, presentation_exts()) && !in_list(e, package_exts()) && !in_list(e, config_exts()) && !in_list(e, rust_exts()) && !in_list(e, js_exts()) && !in_list(e, ts_exts()) && !in_list(e, html_exts()) && !in_list(e, css_exts()) && !in_list(e, json_exts()) && !in_list(e, markdown_exts()) ==> (ext_rule(e) matches Some(v) && v.category == FileCategory::Code && v.code_subtype == Some(CodeSubtype::Python)
            && v.rule_hint == Some("ext:code-python"@)),
        in_list(e, shell_exts()) && !in_list(e, image_exts()) && !in_list(e, video_exts()) && !in_list(e, audio_exts()) && !in_list(e, archive_exts()) && !in_list(e, disk_image_exts()) && !in_list(e, font_exts()) && !in_list(e, pdf_exts()) && !in_list(e, document_exts()) && !in_list(e, spreadsheet_exts()) && !in_list(e, presentation_exts()) && !in_list(e, package_exts()) && !in_list(e, config_exts()) && !in_list(e, rust_exts()) && !in_list(e, js_exts()) && !in_list(e, ts_exts()) && !in_list(e, html_exts()) && !in_list(e, css_exts()) && !in_list(e, json_exts()) && !in_list(e, markdown_exts()) && !in_list(e, python_exts()) ==> (ext_rule(e) matches Some(v) && v.category == FileCategory::Code && v.code_subtype == Some(CodeSubtype::Shell)
            && v.rule_hint == Some("ext:code-shell"@)),
        in_list(e, toml_exts()) && !in_list(e, image_exts()) && !in_list(e, video_exts()) && !in_list(e, audio_exts()) && !in_list(e, archive_exts()) && !in_list(e, disk_image_exts()) && !in_list(e, font_exts()) && !in_list(e, pdf_exts()) && !in_list(e, document_exts()) && !in_list(e, spreadsheet_exts()) && !in_list(e, presentation_exts()) && !in_list(e, package_exts()) && !in_list(e, config_exts()) && !in_list(e, rust_exts()) && !in_list(e, js_exts()) && !in_list(e, ts_exts()) && !in_list(e, html_exts()) && !in_list(e, css_exts()) && !in_list(e, json_exts()) && !in_list(e, markdown_exts()) && !in_list(e, python_exts()) && !in_list(e, shell_exts()) ==> (ext_rule(e) matches Some(v) && v.category == FileCategory::Code && v.code_subtype == Some(CodeSubtype::TOML)
            && v.rule_hint == Some("ext:code-toml"@)),
        in_list(e, yaml_exts()) && !in_list(e, image_exts()) && !in_list(e, video_exts()) && !in_list(e, audio_exts()) && !in_list(e, archive_exts()) && !in_list(e, disk_image_exts()) && !in_list(e, font_exts()) && !in_list(e, pdf_exts()) && !in_list(e, document_exts()) && !in_list(e, spreadsheet_exts()) && !in_list(e, presentation_exts()) && !in_list(e, package_exts()) && !in_list(e, config_exts()) && !in_list(e, rust_exts()) && !in_list(e, js_exts()) && !in_list(e, ts_exts()) && !in_list(e, html_exts()) && !in_list(e, css_exts()) && !in_list(e, json_exts()) && !in_list(e, markdown_exts()) && !in_list(e, python_exts()) && !in_list(e, shell_exts()) && !in_list(e, toml_exts()) ==> (ext_rule(e) matches Some(v) && v.category == FileCategory::Code && v.code_subtype == Some(CodeSubtype::YAML)
            && v.rule_hint == Some("ext:code-yaml"@)),
        in_list(e, code_other_exts()) && !in_list(e, image_exts()) && !in_list(e, video_exts()) && !in_list(e, audio_exts()) && !in_list(e, archive_exts()) && !in_list(e, disk_image_exts()) && !in_list(e, font_exts()) && !in_list(e, pdf_exts()) && !in_list(e, document_exts()) && !in_list(e, spreadsheet_exts()) && !in_list(e, presentation_exts()) && !in_list(e, package_exts()) && !in_list(e, config_exts()) && !in_list(e, rust_exts()) && !in_list(e, js_exts()) && !in_list(e, ts_exts()) && !in_list(e, html_exts()) && !in_list(e, css_exts()) && !in_list(e, json_exts()) && !in_list(e, markdown_exts()) && !in_list(e, python_exts()) && !in_list(e, shell_exts()) && !in_list(e, toml_exts()) && !in_list(e, yaml_exts()) ==> (ext_rule(e) matches Some(v) && v.category == FileCategory::Code && v.code_subtype == Some(CodeSubtype::Other)
            && v.rule_hint == Some("ext:code-other"@)),
        !in_list(e, image_exts()) && !in_list(e, video_exts()) && !in_list(e, audio_exts()) && !in_list(e, archive_exts()) && !in_list(e, disk_image_exts()) && !in_list(e, font_exts()) && !in_list(e, pdf_exts()) && !in_list(e, document_exts()) && !in_list(e, spreadsheet_exts()) && !in_list(e, presentation_exts()) && !in_list(e, package_exts()) && !in_list(e, config_exts()) && !in_list(e, rust_exts()) && !in_list(e, js_exts()) && !in_list(e, ts_exts()) && !in_list(e, html_exts()) && !in_list(e, css_exts()) && !in_list(e, json_exts()) && !in_list(e, markdown_exts()) && !in_list(e, python_exts()) && !in_list(e, shell_exts()) && !in_list(e, toml_exts()) && !in_list(e, yaml_exts()) && !in_list(e, code_other_exts()) ==> ext_rule(e) is None,
{
}

/// Once neither a well-known name nor a compound suffix applies, a regular file
/// with a non-empty extension that an extension rule knows is classified by that
/// rule.
pub proof fn law_extension_decides_after_names(
    path: Seq<char>,
    is_executable: bool,
    mode: PlatformCaseMode,
    name: Seq<char>,
    ext: Seq<char>,
)
    requires
        file_name_of(path) == Some(name),
        exact_semantic(name, mode) is None,
        special_semantic(name) is None,
        extension_of(path) == Some(ext),
        ascii_lower(ext).len() > 0,
        ext_rule(ascii_lower(ext)) is Some,
    ensures
        semantic_of(path, EntryKind::File, is_executable, None, mode) == ext_rule(ascii_lower(ext))->0,
{
}

/// A directory, or a symlink to one, is always classified as a directory,
/// whatever its name says.
pub proof fn law_directories_win(
    path: Seq<char>,
    kind: EntryKind,
    is_executable: bool,
    symlink_target_is_dir: Option<bool>,
    mode: PlatformCaseMode,
)
    requires
        kind == EntryKind::Directory || symlink_target_is_dir == Some(true),
    ensures
        semantic_of(path, kind, is_executable, symlink_target_is_dir, mode).category == FileCategory::Directory,
{
}

/// A well-known exact name takes priority over compound suffixes and extensions.
pub proof fn law_exact_name_first(
    path: Seq<char>,
    kind: EntryKind,
    is_executable: bool,
    mode: PlatformCaseMode,
    name: Seq<char>,
)
    requires
        kind != EntryKind::Directory,
        file_name_of(path) == Some(name),
        exact_semantic(name, mode) is Some,
    ensures
        semantic_of(path, kind, is_executable, None, mode) == exact_semantic(name, mode)->0,
{
}

/// Matching a well-known name case-insensitively accepts every name that the
/// case-sensitive mode accepts.
pub proof fn law_case_insensitive_widens(name: Seq<char>, candidate: Seq<char>)
    ensures
        name_matches(name, candidate, PlatformCaseMode::CaseSensitive)
            ==> name_matches(name, candidate, PlatformCaseMode::CaseInsensitive),
{
}

} // verus!
