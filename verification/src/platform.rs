//! The rules of the file operations and of the privileged helper: where a copied
//! or moved entry lands, how permission changes are computed, how the helper's
//! command line is read and how its outcomes are reported. The filesystem calls
//! themselves are the caller's.

use vstd::prelude::*;
use crate::indexer::EntryMeta;
use crate::model::{
    ConflictAction, EntryKind, FileEntry, PrivilegedPayload, PrivilegedResponse, PrivilegedStatus,
};
use crate::paths::{
    extension_of, file_name_of, joined, parent_of, path_extension, path_file_name, path_file_stem, path_join,
    path_parent, stem_of,
};
use crate::text::{
    ascii_lower, chars_of, decimal, has_prefix, push_char, push_decimal, push_str, seq_contains, str_contains,
    str_eq, to_ascii_lower,
};

verus! {

// ── Errors ──────────────────────────────────────────────────────────────────

/// A failed file operation.
#[derive(Debug, Clone, PartialEq, Eq)]
pub enum PlatformError {
    NotAvailable(String),
    Io(String),
    InvalidSource(String),
    InvalidDestination(String),
    DestinationExists(String),
}

/// The text shown for a platform error.
pub open spec fn platform_error_text(e: PlatformError) -> Seq<char> {
    match e {
        PlatformError::NotAvailable(m) => "operation is not available on this platform: "@ + m@,
        PlatformError::Io(m) => "filesystem operation failed: "@ + m@,
        PlatformError::InvalidSource(m) => "invalid source path: "@ + m@,
        PlatformError::InvalidDestination(m) => "destination must be an existing directory: "@ + m@,
        PlatformError::DestinationExists(m) => "destination entry already exists: "@ + m@,
    }
}

impl PlatformError {
    /// The text shown for this error.
    pub fn message(&self) -> (s: String)
        ensures
            s@ == platform_error_text(*self),
    {
        let (prefix, m) = match self {
            PlatformError::NotAvailable(m) => ("operation is not available on this platform: ", m),
            PlatformError::Io(m) => ("filesystem operation failed: ", m),
            PlatformError::InvalidSource(m) => ("invalid source path: ", m),
            PlatformError::InvalidDestination(m) => ("destination must be an existing directory: ", m),
            PlatformError::DestinationExists(m) => ("destination entry already exists: ", m),
        };
        let mut s = prefix.to_owned();
        push_str(&mut s, m.as_str());
        s
    }
}

/// Whether the elevated helper can be used.
#[derive(Debug, Clone, PartialEq, Eq)]
pub enum PrivilegedAvailability {
    Ready,
    Misconfigured(String),
    Unsupported(String),
}

/// The availability of the elevated helper, with the message for what is missing.
pub fn privileged_availability(pkexec_found: bool, helper: &str, helper_found: bool) -> (r: PrivilegedAvailability)
    ensures
        !pkexec_found ==> (r matches PrivilegedAvailability::Misconfigured(m) && m@ == "pkexec not found in PATH"@),
        pkexec_found && !helper_found ==> (r matches PrivilegedAvailability::Misconfigured(m) && m@
            == "Privileged helper '"@ + helper@ + "' not found (set OTTRIN_PRIV_HELPER or use --helper-path)"@),
        pkexec_found && helper_found ==> r == PrivilegedAvailability::Ready,
{
    if !pkexec_found {
        return PrivilegedAvailability::Misconfigured("pkexec not found in PATH".to_owned());
    }
    if !helper_found {
        let mut m = "Privileged helper '".to_owned();
        push_str(&mut m, helper);
        push_str(&mut m, "' not found (set OTTRIN_PRIV_HELPER or use --helper-path)");
        return PrivilegedAvailability::Misconfigured(m);
    }
    PrivilegedAvailability::Ready
}

/// The places where a bundled or installed helper named `name` is looked for,
/// in order, given the folder of the running program.
pub open spec fn helper_candidates_of(exe_dir: Seq<char>, name: Seq<char>) -> Seq<Seq<char>> {
    seq![
        joined(exe_dir, name),
        joined(joined(exe_dir, "../libexec/ottrin"@), name),
        joined(joined(exe_dir, "../lib/ottrin"@), name),
        joined("/usr/libexec/ottrin"@, name),
        joined("/usr/lib/ottrin"@, name),
        joined("/usr/libexec"@, name),
    ]
}

/// The candidate paths of the helper.
pub fn helper_candidates(exe_dir: &str, name: &str) -> (r: Vec<String>)
    ensures
        r@.map_values(|s: String| s@) == helper_candidates_of(exe_dir@, name@),
{
    let mut r: Vec<String> = Vec::new();
    r.push(path_join(exe_dir, name));
    let a = path_join(exe_dir, "../libexec/ottrin");
    r.push(path_join(a.as_str(), name));
    let b = path_join(exe_dir, "../lib/ottrin");
    r.push(path_join(b.as_str(), name));
    r.push(path_join("/usr/libexec/ottrin", name));
    r.push(path_join("/usr/lib/ottrin", name));
    r.push(path_join("/usr/libexec", name));
    assert(r@.map_values(|s: String| s@) =~= helper_candidates_of(exe_dir@, name@));
    r
}

/// The helper to run: an explicit override first, then the environment's choice
/// when it is executable, then a discovered helper, else the bare default name.
pub fn choose_helper(
    override_path: Option<String>,
    env_choice: Option<(String, bool)>,
    discovered: Option<String>,
    default_name: &str,
) -> (r: String)
    ensures
        override_path matches Some(p) ==> r == p,
        override_path is None && (env_choice matches Some((p, ok)) && ok) ==> r == env_choice.unwrap().0,
        override_path is None && !(env_choice matches Some((p, ok)) && ok) && discovered is Some ==> r
            == discovered.unwrap(),
        override_path is None && !(env_choice matches Some((p, ok)) && ok) && discovered is None ==> r@
            == default_name@,
{
    if let Some(p) = override_path {
        return p;
    }
    if let Some((p, ok)) = env_choice {
        if ok {
            return p;
        }
    }
    if let Some(d) = discovered {
        return d;
    }
    default_name.to_owned()
}

/// The helper path given on the command line after position `i`: `--helper-path`
/// followed by a path, or `--helper-path=<path>` with a non-empty path; the last
/// one given wins.
pub open spec fn helper_arg_from(args: Seq<Seq<char>>, i: int, found: Option<Seq<char>>) -> Option<Seq<char>>
    decreases args.len() - i,
{
    if i >= args.len() {
        found
    } else if args[i] == "--helper-path"@ {
        if i + 1 < args.len() {
            helper_arg_from(args, i + 2, Some(args[i + 1]))
        } else {
            helper_arg_from(args, i + 1, found)
        }
    } else if has_prefix(args[i], "--helper-path="@) && args[i].len() > "--helper-path="@.len() {
        helper_arg_from(args, i + 1, Some(args[i].skip("--helper-path="@.len() as int)))
    } else {
        helper_arg_from(args, i + 1, found)
    }
}

/// The helper path given on the command line (the program name first, then
/// the arguments), if any.
pub fn helper_path_from_args(args: &Vec<String>) -> (r: Option<String>)
    ensures
        match r {
            Some(p) => helper_arg_from(args@.map_values(|a: String| a@), 1, None) == Some(p@),
            None => helper_arg_from(args@.map_values(|a: String| a@), 1, None) is None,
        },
{
    let ghost av = args@.map_values(|a: String| a@);
    proof {
        reveal_strlit("--helper-path=");
    }
    let prefix = "--helper-path=";
    let plen = chars_of(prefix).len();
    let mut found: Option<String> = None;
    let mut i: usize = 1;
    if args.len() == 0 {
        return None;
    }
    while i < args.len()
        invariant
            av == args@.map_values(|a: String| a@),
            1 <= i,
            plen == "--helper-path="@.len(),
            prefix@ == "--helper-path="@,
            helper_arg_from(av, 1, None) == helper_arg_from(av, i as int, match found {
                Some(f) => Some(f@),
                None => None,
            }),
        decreases args@.len() - i,
    {
        let a = args[i].as_str();
        assert(av[i as int] == a@);
        if str_eq(a, "--helper-path") {
            if i + 1 < args.len() {
                assert(av[i as int + 1] == args@[i as int + 1]@);
                found = Some(args[i + 1].clone());
                i += 2;
            } else {
                i += 1;
            }
        } else if crate::text::str_starts_with(a, prefix) {
            let cs = chars_of(a);
            if cs.len() > plen {
                let mut v = String::new();
                let mut k: usize = plen;
                while k < cs.len()
                    invariant
                        plen <= k <= cs@.len(),
                        v@ == cs@.subrange(plen as int, k as int),
                    decreases cs@.len() - k,
                {
                    push_char(&mut v, cs[k]);
                    assert(v@ =~= cs@.subrange(plen as int, k as int + 1));
                    k += 1;
                }
                assert(v@ =~= a@.skip(plen as int));
                found = Some(v);
            }
            i += 1;
        } else {
            i += 1;
        }
    }
    found
}

// ── Destinations ────────────────────────────────────────────────────────────

/// Where an entry copied or moved into `dir` lands: `dir` joined with the
/// entry's file name; an error when the source has no file name.
pub fn destination_path(source: &str, dir: &str) -> (r: Result<String, PlatformError>)
    ensures
        match r {
            Ok(d) => file_name_of(source@) matches Some(n) && d@ == joined(dir@, n),
            Err(e) => file_name_of(source@) is None && (e matches PlatformError::InvalidSource(m) && m@ == source@),
        },
{
    match path_file_name(source) {
        Some(n) => Ok(path_join(dir, n)),
        None => Err(PlatformError::InvalidSource(source.to_owned())),
    }
}

/// What to do at a destination.
#[derive(Debug, Clone, PartialEq, Eq)]
pub enum DestinationPlan {
    /// The destination is free: use it.
    Use(String),
    /// It is taken and the entry is skipped.
    Skip,
    /// It is taken: remove what is there, then use it.
    Overwrite(String),
    /// It is taken: use the first free numbered name beside it.
    Rename(String),
}

/// The plan for a destination, by whether it is taken and the conflict policy.
pub fn plan_destination(destination: String, taken: bool, conflict: ConflictAction) -> (r: DestinationPlan)
    ensures
        !taken ==> r == DestinationPlan::Use(destination),
        taken && conflict == ConflictAction::Skip ==> r == DestinationPlan::Skip,
        taken && conflict == ConflictAction::Overwrite ==> r == DestinationPlan::Overwrite(destination),
        taken && conflict == ConflictAction::Rename ==> r == DestinationPlan::Rename(destination),
{
    if !taken {
        return DestinationPlan::Use(destination);
    }
    match conflict {
        ConflictAction::Skip => DestinationPlan::Skip,
        ConflictAction::Overwrite => DestinationPlan::Overwrite(destination),
        ConflictAction::Rename => DestinationPlan::Rename(destination),
    }
}

/// The `i`-th numbered alternative to `base`: `"<stem> (<i>).<ext>"` beside it
/// (`"<stem> (<i>)"` without an extension), the stem being `"item"` when `base`
/// has none.
pub open spec fn numbered_name_of(base: Seq<char>, i: nat) -> Seq<char> {
    let parent = match parent_of(base) {
        Some(p) => p,
        None => Seq::<char>::empty(),
    };
    let stem = match stem_of(base) {
        Some(s) => s,
        None => "item"@,
    };
    let name = match extension_of(base) {
        Some(e) => stem + " ("@ + decimal(i) + ")."@ + e,
        None => stem + " ("@ + decimal(i) + ")"@,
    };
    joined(parent, name)
}

/// The `i`-th numbered alternative name for a taken destination.
pub fn numbered_name(base: &str, i: u64) -> (r: String)
    ensures
        r@ == numbered_name_of(base@, i as nat),
{
    let parent = match path_parent(base) {
        Some(p) => p,
        None => "",
    };
    proof {
        reveal_strlit("");
    }
    assert(""@ =~= Seq::<char>::empty());
    let stem = match path_file_stem(base) {
        Some(s) => s,
        None => "item",
    };
    let mut name = stem.to_owned();
    push_str(&mut name, " (");
    push_decimal(&mut name, i);
    match path_extension(base) {
        Some(e) => {
            push_str(&mut name, ").");
            push_str(&mut name, e);
        },
        None => {
            push_str(&mut name, ")");
        },
    }
    path_join(parent, name.as_str())
}

// ── Permissions ─────────────────────────────────────────────────────────────

/// The permission bits named by the letters of `spec` (`r`, `w`, `x` for all of
/// user, group and others), or the first letter that names none.
pub open spec fn symbolic_bits_of(spec: Seq<char>) -> Result<u32, char>
    decreases spec.len(),
{
    if spec.len() == 0 {
        Ok(0)
    } else {
        match symbolic_bits_of(spec.drop_last()) {
            Err(c) => Err(c),
            Ok(b) => {
                let c = spec.last();
                if c == 'r' {
                    Ok(b | 0o444u32)
                } else if c == 'w' {
                    Ok(b | 0o222u32)
                } else if c == 'x' {
                    Ok(b | 0o111u32)
                } else {
                    Err(c)
                }
            },
        }
    }
}

/// The permission bits named by a symbolic spec such as `"rx"`.
pub fn symbolic_bits(spec: &str) -> (r: Result<u32, String>)
    ensures
        match r {
            Ok(b) => symbolic_bits_of(spec@) == Ok::<u32, char>(b),
            Err(m) => symbolic_bits_of(spec@) matches Err(c) && m@ == "Unknown permission bit: "@.push(c),
        },
{
    let cs = chars_of(spec);
    let mut bits: u32 = 0;
    let mut i: usize = 0;
    while i < cs.len()
        invariant
            cs@ == spec@,
            i <= cs@.len(),
            symbolic_bits_of(cs@.take(i as int)) == Ok::<u32, char>(bits),
        decreases cs@.len() - i,
    {
        let c = cs[i];
        assert(cs@.take(i as int + 1).drop_last() =~= cs@.take(i as int));
        assert(cs@.take(i as int + 1).last() == c);
        if c == 'r' {
            bits = bits | 0o444u32;
        } else if c == 'w' {
            bits = bits | 0o222u32;
        } else if c == 'x' {
            bits = bits | 0o111u32;
        } else {
            let mut m = "Unknown permission bit: ".to_owned();
            push_char(&mut m, c);
            proof {
                lemma_symbolic_err(cs@, i as int + 1);
            }
            return Err(m);
        }
        i += 1;
    }
    assert(cs@.take(cs@.len() as int) =~= cs@);
    Ok(bits)
}

proof fn lemma_symbolic_err(s: Seq<char>, n: int)
    requires
        0 <= n <= s.len(),
        symbolic_bits_of(s.take(n)) is Err,
    ensures
        symbolic_bits_of(s) == symbolic_bits_of(s.take(n)),
    decreases s.len() - n,
{
    if n < s.len() {
        assert(s.take(n + 1).drop_last() =~= s.take(n));
        lemma_symbolic_err(s, n + 1);
    } else {
        assert(s.take(n) =~= s);
    }
}

/// The value of a string of octal digits; none when it is empty, holds another
/// character, or does not fit in 32 bits.
pub open spec fn octal_value(s: Seq<char>) -> Option<u32>
    decreases s.len(),
{
    if s.len() == 0 {
        None
    } else {
        let c = s.last();
        if !('0' <= c && c <= '7') {
            None
        } else {
            let d = (c as int) - ('0' as int);
            let prev: Option<int> = if s.len() == 1 {
                Some(0)
            } else {
                match octal_value(s.drop_last()) {
                    Some(v) => Some(v as int),
                    None => None,
                }
            };
            match prev {
                Some(v) => if v * 8 + d <= u32::MAX {
                    Some((v * 8 + d) as u32)
                } else {
                    None
                },
                None => None,
            }
        }
    }
}

/// Parse a string of octal digits as `u32::from_str_radix(s, 8)` does for text
/// with no sign.
pub fn parse_octal(s: &str) -> (r: Option<u32>)
    ensures
        r == octal_value(s@),
{
    let cs = chars_of(s);
    if cs.len() == 0 {
        return None;
    }
    let mut v: u32 = 0;
    let mut i: usize = 0;
    while i < cs.len()
        invariant
            cs@ == s@,
            0 < cs@.len(),
            i <= cs@.len(),
            i == 0 ==> v == 0,
            i > 0 ==> octal_value(cs@.take(i as int)) == Some(v),
        decreases cs@.len() - i,
    {
        let c = cs[i];
        assert(cs@.take(i as int + 1).drop_last() =~= cs@.take(i as int));
        assert(cs@.take(i as int + 1).last() == c);
        if !('0' <= c && c <= '7') {
            proof {
                lemma_octal_none(cs@, i as int + 1);
            }
            return None;
        }
        let d: u32 = (c as u32) - ('0' as u32);
        if v > (u32::MAX - d) / 8 {
            proof {
                lemma_octal_none(cs@, i as int + 1);
            }
            return None;
        }
        v = v * 8 + d;
        i += 1;
    }
    assert(cs@.take(cs@.len() as int) =~= cs@);
    Some(v)
}

proof fn lemma_octal_none(s: Seq<char>, n: int)
    requires
        1 <= n <= s.len(),
        octal_value(s.take(n)) is None,
    ensures
        octal_value(s) is None,
    decreases s.len() - n,
{
    if n < s.len() {
        assert(s.take(n + 1).drop_last() =~= s.take(n));
        lemma_octal_none(s, n + 1);
    } else {
        assert(s.take(n) =~= s);
    }
}

/// The permission bits a mode text sets on a file whose bits are `current`:
/// `+spec` adds the symbolic bits, `-spec` removes them, anything else is an
/// octal mode.
pub open spec fn new_mode_of(current: u32, mode: Seq<char>) -> Result<u32, Seq<char>> {
    if mode.len() > 0 && mode[0] == '+' {
        match symbolic_bits_of(mode.drop_first()) {
            Ok(b) => Ok(current | b),
            Err(c) => Err("Unknown permission bit: "@.push(c)),
        }
    } else if mode.len() > 0 && mode[0] == '-' {
        match symbolic_bits_of(mode.drop_first()) {
            Ok(b) => Ok(current & !b),
            Err(c) => Err("Unknown permission bit: "@.push(c)),
        }
    } else {
        match octal_value(mode) {
            Some(v) => Ok(v),
            None => Err("Invalid mode: "@ + mode),
        }
    }
}

/// The permission bits after applying a mode text to `current`.
pub fn new_mode(current: u32, mode_str: &str) -> (r: Result<u32, String>)
    ensures
        match r {
            Ok(m) => new_mode_of(current, mode_str@) == Ok::<u32, Seq<char>>(m),
            Err(e) => new_mode_of(current, mode_str@) == Err::<u32, Seq<char>>(e@),
        },
{
    let cs = chars_of(mode_str);
    if cs.len() > 0 && (cs[0] == '+' || cs[0] == '-') {
        let mut rest = String::new();
        let mut k: usize = 1;
        while k < cs.len()
            invariant
                1 <= k <= cs@.len(),
                rest@ == cs@.subrange(1, k as int),
            decreases cs@.len() - k,
        {
            push_char(&mut rest, cs[k]);
            assert(rest@ =~= cs@.subrange(1, k as int + 1));
            k += 1;
        }
        assert(rest@ =~= mode_str@.drop_first());
        let bits = symbolic_bits(rest.as_str())?;
        if cs[0] == '+' {
            Ok(current | bits)
        } else {
            Ok(current & !bits)
        }
    } else {
        match parse_octal(mode_str) {
            Some(v) => Ok(v),
            None => {
                let mut m = "Invalid mode: ".to_owned();
                push_str(&mut m, mode_str);
                Err(m)
            },
        }
    }
}

// ── The privileged helper ───────────────────────────────────────────────────

/// How the helper exchanges its request and response.
#[derive(Debug, Clone, PartialEq, Eq)]
pub enum IoMode {
    /// JSON on standard input and output.
    Stdio,
    /// JSON in two files.
    Files { request_file: String, response_file: String },
}

/// The helper's usage line.
pub open spec fn usage_text() -> Seq<char> {
    "Usage: ottrin-priv-helper --stdio-json OR --request-file <path> --response-file <path>"@
}

/// The state of reading the helper's arguments: the request and response files
/// seen so far, or the error for a flag without its path.
pub open spec fn scan_args(args: Seq<Seq<char>>, i: int, req: Option<Seq<char>>, res: Option<Seq<char>>) -> Result<
    (Option<Seq<char>>, Option<Seq<char>>),
    Seq<char>,
>
    decreases args.len() - i,
{
    if i >= args.len() {
        Ok((req, res))
    } else if args[i] == "--request-file"@ {
        if i + 1 >= args.len() {
            Err("Missing path after --request-file"@)
        } else {
            scan_args(args, i + 2, Some(args[i + 1]), res)
        }
    } else if args[i] == "--response-file"@ {
        if i + 1 >= args.len() {
            Err("Missing path after --response-file"@)
        } else {
            scan_args(args, i + 2, req, Some(args[i + 1]))
        }
    } else {
        scan_args(args, i + 1, req, res)
    }
}

/// The mode the helper's arguments ask for: standard I/O when `--stdio-json`
/// occurs anywhere; else both files, each the argument after its flag (the last
/// such flag wins); else the usage text.
pub open spec fn mode_of(args: Seq<Seq<char>>) -> Result<(Option<Seq<char>>, Option<Seq<char>>), Seq<char>> {
    if args.contains("--stdio-json"@) {
        Ok((None, None))
    } else {
        match scan_args(args, 0, None, None) {
            Err(e) => Err(e),
            Ok((Some(q), Some(s))) => Ok((Some(q), Some(s))),
            Ok(_) => Err(usage_text()),
        }
    }
}

/// Read the helper's arguments.
pub fn parse_mode(args: Vec<String>) -> (r: Result<IoMode, String>)
    ensures
        match r {
            Ok(IoMode::Stdio) => mode_of(args@.map_values(|a: String| a@)) == Ok::<
                (Option<Seq<char>>, Option<Seq<char>>),
                Seq<char>,
            >((None, None)),
            Ok(IoMode::Files { request_file, response_file }) => mode_of(args@.map_values(|a: String| a@)) == Ok::<
                (Option<Seq<char>>, Option<Seq<char>>),
                Seq<char>,
            >((Some(request_file@), Some(response_file@))),
            Err(m) => mode_of(args@.map_values(|a: String| a@)) == Err::<(Option<Seq<char>>, Option<Seq<char>>), Seq<char>>(
                m@,
            ),
        },
{
    let ghost av = args@.map_values(|a: String| a@);
    let mut j: usize = 0;
    while j < args.len()
        invariant
            av == args@.map_values(|a: String| a@),
            j <= args@.len(),
            forall|k: int| 0 <= k < j ==> av[k] != "--stdio-json"@,
        decreases args@.len() - j,
    {
        if str_eq(args[j].as_str(), "--stdio-json") {
            assert(av[j as int] == "--stdio-json"@);
            return Ok(IoMode::Stdio);
        }
        j += 1;
    }
    assert(!av.contains("--stdio-json"@));
    let mut req: Option<String> = None;
    let mut res: Option<String> = None;
    let mut i: usize = 0;
    while i < args.len()
        invariant
            av == args@.map_values(|a: String| a@),
            !av.contains("--stdio-json"@),
            i <= args@.len(),
            scan_args(av, 0, None, None) == scan_args(av, i as int, match req {
                Some(q) => Some(q@),
                None => None,
            }, match res {
                Some(s) => Some(s@),
                None => None,
            }),
        decreases args@.len() - i,
    {
        assert(av[i as int] == args@[i as int]@);
        if str_eq(args[i].as_str(), "--request-file") {
            if i + 1 >= args.len() {
                return Err("Missing path after --request-file".to_owned());
            }
            assert(av[i as int + 1] == args@[i as int + 1]@);
            req = Some(args[i + 1].clone());
            i += 2;
        } else if str_eq(args[i].as_str(), "--response-file") {
            if i + 1 >= args.len() {
                return Err("Missing path after --response-file".to_owned());
            }
            assert(av[i as int + 1] == args@[i as int + 1]@);
            res = Some(args[i + 1].clone());
            i += 2;
        } else {
            i += 1;
        }
    }
    match (req, res) {
        (Some(request_file), Some(response_file)) => Ok(IoMode::Files { request_file, response_file }),
        _ => Err(
            "Usage: ottrin-priv-helper --stdio-json OR --request-file <path> --response-file <path>".to_owned(),
        ),
    }
}

/// The error text for a helper run that wrote nothing on its standard output:
/// when the run failed, its error output, or a fixed text if that is empty; when
/// it succeeded, that no data came back.
pub open spec fn silent_helper_text(exit_ok: bool, stderr: Seq<char>) -> Seq<char> {
    if !exit_ok {
        if stderr.len() == 0 {
            "privileged helper failed"@
        } else {
            stderr
        }
    } else {
        "privileged helper returned no data"@
    }
}

/// The error for a helper run that wrote nothing on its standard output.
pub fn silent_helper_error(exit_ok: bool, stderr: String) -> (e: PlatformError)
    ensures
        e matches PlatformError::Io(m) && m@ == silent_helper_text(exit_ok, stderr@),
{
    if !exit_ok {
        if stderr.as_str().is_empty() {
            PlatformError::Io("privileged helper failed".to_owned())
        } else {
            PlatformError::Io(stderr)
        }
    } else {
        PlatformError::Io("privileged helper returned no data".to_owned())
    }
}

/// The response for a failed operation: denied when its text, lower-cased,
/// mentions a refused permission or access, failed otherwise; the text is kept.
pub open spec fn failure_response_of(message: Seq<char>) -> (PrivilegedStatus, Seq<char>) {
    let lower = ascii_lower(message);
    let denied = seq_contains(lower, "permission denied"@) || seq_contains(lower, "access is denied"@);
    (if denied {
        PrivilegedStatus::Denied
    } else {
        PrivilegedStatus::Failed
    }, message)
}

/// The response for a failed operation with the given error text.
pub fn map_platform_error(message: String) -> (r: PrivilegedResponse)
    ensures
        r.status == failure_response_of(message@).0,
        r.message == Some(message),
        r.payload is None,
{
    let lower = to_ascii_lower(message.as_str());
    let denied = str_contains(lower.as_str(), "permission denied") || str_contains(lower.as_str(), "access is denied");
    PrivilegedResponse {
        status: if denied {
            PrivilegedStatus::Denied
        } else {
            PrivilegedStatus::Failed
        },
        message: Some(message),
        payload: None,
    }
}

/// The response for a file command: success with nothing attached, or the failure.
pub fn file_command_response(outcome: Result<(), PlatformError>) -> (r: PrivilegedResponse)
    ensures
        outcome is Ok ==> r.status == PrivilegedStatus::Success && r.message is None && r.payload is None,
        outcome matches Err(e) ==> (r.status == failure_response_of(platform_error_text(e)).0 && (r.message matches Some(
            m,
        ) && m@ == platform_error_text(e)) && r.payload is None),
{
    match outcome {
        Ok(()) => PrivilegedResponse { status: PrivilegedStatus::Success, message: None, payload: None },
        Err(e) => map_platform_error(e.message()),
    }
}

/// The response for a directory listing: the entries, or the failure.
pub fn listing_response(outcome: Result<Vec<FileEntry>, String>) -> (r: PrivilegedResponse)
    ensures
        outcome matches Ok(v) ==> (r.status == PrivilegedStatus::Success && r.message is None && (r.payload matches Some(
            PrivilegedPayload::Entries(w),
        ) && w@ == v@)),
        outcome matches Err(m) ==> (r.status == failure_response_of(m@).0 && r.message == Some(m) && r.payload is None),
{
    match outcome {
        Ok(entries) => PrivilegedResponse {
            status: PrivilegedStatus::Success,
            message: None,
            payload: Some(PrivilegedPayload::Entries(entries)),
        },
        Err(m) => map_platform_error(m),
    }
}

/// The listing entry for a directory child named `name` at `path`: dot-named
/// children are left out unless hidden ones are shown; sizes only for files, the
/// target's kind only for symlinks.
pub fn listing_entry(name: String, path: String, meta: EntryMeta, show_hidden: bool) -> (r: Option<FileEntry>)
    ensures
        !show_hidden && has_prefix(name@, seq!['.']) ==> r is None,
        show_hidden || !has_prefix(name@, seq!['.']) ==> (r matches Some(e) && e.name == name && e.path == path && e.kind
            == meta.kind && e.is_executable == meta.is_executable && e.symlink_target_is_dir == (if meta.kind
            == EntryKind::Symlink {
            Some(meta.target_is_dir)
        } else {
            None
        }) && e.size_bytes == (if meta.kind == EntryKind::File {
            Some(meta.len)
        } else {
            None
        }) && e.modified_unix_secs == meta.modified_unix_secs),
{
    proof {
        reveal_strlit(".");
    }
    assert("."@ =~= seq!['.']);
    if !show_hidden && crate::text::str_starts_with(name.as_str(), ".") {
        return None;
    }
    Some(
        FileEntry {
            name,
            path,
            kind: meta.kind,
            is_executable: meta.is_executable,
            symlink_target_is_dir: if meta.kind == EntryKind::Symlink {
                Some(meta.target_is_dir)
            } else {
                None
            },
            size_bytes: if meta.kind == EntryKind::File {
                Some(meta.len)
            } else {
                None
            },
            modified_unix_secs: meta.modified_unix_secs,
        },
    )
}

} // verus!
