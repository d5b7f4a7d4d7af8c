//! The locate database: which of its answers are kept, how a schedule for
//! updating it is reported and installed (the unit files, the crontab entry and
//! the messages). Running the commands and touching the files is the caller's.

use vstd::prelude::*;
use crate::paths::{file_name_of, path_file_name, path_has_base, path_starts_with};
use crate::text::{
    decimal, has_prefix, push_decimal, push_str, seq_contains, str_contains, str_starts_with, str_trim,
    str_trim_end, trim, trim_end,
};

verus! {

/// Whether Ottrin's own locate schedule is installed and enabled.
#[derive(Debug, Clone, PartialEq, Eq)]
pub struct LocateScheduleStatus {
    pub source: String,
    pub enabled: bool,
    pub detail: String,
}

/// Whether the system's locate database is kept up to date by a schedule.
#[derive(Debug, Clone, PartialEq, Eq)]
pub struct SystemLocateScheduleStatus {
    pub source: Option<String>,
    pub detail: Option<String>,
    pub needs_setup: bool,
}

/// The tag that marks Ottrin's crontab entry.
pub open spec fn cron_tag() -> Seq<char> {
    "# ottrin-updatedb"@
}

/// The status of Ottrin's schedule: a user timer when its file exists (enabled as
/// `systemctl` reports, or assumed enabled when that cannot be asked), else a
/// tagged crontab entry, else none.
pub fn user_schedule_status(timer_installed: bool, timer_enabled: Option<bool>, crontab: &str) -> (r:
    LocateScheduleStatus)
    ensures
        timer_installed ==> {
            let enabled = match timer_enabled {
                Some(e) => e,
                None => true,
            };
            &&& r.source@ == "systemd user timer"@
            &&& r.enabled == enabled
            &&& r.detail@ == if enabled {
                "Enabled"@
            } else {
                "Installed but disabled"@
            }
        },
        !timer_installed && seq_contains(crontab@, cron_tag()) ==> r.source@ == "crontab"@ && r.enabled && r.detail@
            == "Entry found (# ottrin-updatedb)"@,
        !timer_installed && !seq_contains(crontab@, cron_tag()) ==> r.source@ == "none"@ && !r.enabled && r.detail@
            == "No schedule detected"@,
{
    if timer_installed {
        let enabled = match timer_enabled {
            Some(e) => e,
            None => true,
        };
        return LocateScheduleStatus {
            source: "systemd user timer".to_owned(),
            enabled,
            detail: if enabled {
                "Enabled".to_owned()
            } else {
                "Installed but disabled".to_owned()
            },
        };
    }
    if str_contains(crontab, "# ottrin-updatedb") {
        return LocateScheduleStatus {
            source: "crontab".to_owned(),
            enabled: true,
            detail: "Entry found (# ottrin-updatedb)".to_owned(),
        };
    }
    LocateScheduleStatus { source: "none".to_owned(), enabled: false, detail: "No schedule detected".to_owned() }
}

/// The system timers that keep a locate database fresh, in the order they are looked for.
pub open spec fn system_timers() -> Seq<Seq<char>> {
    seq!["plocate-updatedb.timer"@, "mlocate.timer"@, "updatedb.timer"@]
}

/// The first of the system timers named in `list`.
pub open spec fn first_timer_in(list: Seq<char>) -> Option<Seq<char>> {
    if seq_contains(list, system_timers()[0]) {
        Some(system_timers()[0])
    } else if seq_contains(list, system_timers()[1]) {
        Some(system_timers()[1])
    } else if seq_contains(list, system_timers()[2]) {
        Some(system_timers()[2])
    } else {
        None
    }
}

/// The status of the system's locate schedule, from the listed systemd timers (if
/// they could be listed) and the first cron job found: a known timer first, then
/// the cron job, else a schedule must be set up.
pub fn system_schedule_status(timer_list: Option<&str>, cron_job: Option<&str>) -> (r: SystemLocateScheduleStatus)
    ensures
        ({
            let timer = match timer_list {
                Some(l) => first_timer_in(l@),
                None => None,
            };
            match timer {
                Some(t) => (r.source matches Some(s) && s@ == "systemd"@) && (r.detail matches Some(d) && d@ == t)
                    && !r.needs_setup,
                None => match cron_job {
                    Some(c) => (r.source matches Some(s) && s@ == "cron"@) && (r.detail matches Some(d) && d@ == c@)
                        && !r.needs_setup,
                    None => r.source is None && r.detail is None && r.needs_setup,
                },
            }
        }),
{
    if let Some(list) = timer_list {
        let names: [&str; 3] = ["plocate-updatedb.timer", "mlocate.timer", "updatedb.timer"];
        assert(names@.map_values(|n: &str| n@) =~= system_timers());
        let mut i: usize = 0;
        while i < 3
            invariant
                i <= 3,
                timer_list == Some(list),
                names@.map_values(|n: &str| n@) == system_timers(),
                forall|k: int| 0 <= k < i ==> !seq_contains(list@, system_timers()[k]),
            decreases 3 - i,
        {
            assert(names@[i as int]@ == system_timers()[i as int]);
            if str_contains(list, names[i]) {
                assert(first_timer_in(list@) == Some(system_timers()[i as int])) by {
                    if i >= 1 {
                        assert(!seq_contains(list@, system_timers()[0]));
                    }
                    if i >= 2 {
                        assert(!seq_contains(list@, system_timers()[1]));
                    }
                }
                let name = names[i].to_owned();
                assert(name@ == system_timers()[i as int]);
                let r = SystemLocateScheduleStatus {
                    source: Some("systemd".to_owned()),
                    detail: Some(name),
                    needs_setup: false,
                };
                assert(timer_list == Some(list));
                return r;
            }
            i += 1;
        }
        assert(!seq_contains(list@, system_timers()[0]));
        assert(!seq_contains(list@, system_timers()[1]));
        assert(!seq_contains(list@, system_timers()[2]));
    }
    match cron_job {
        Some(c) => SystemLocateScheduleStatus {
            source: Some("cron".to_owned()),
            detail: Some(c.to_owned()),
            needs_setup: false,
        },
        None => SystemLocateScheduleStatus { source: None, detail: None, needs_setup: true },
    }
}

/// The service unit that updates Ottrin's locate database for `root` into `db`.
pub open spec fn service_unit_text(root: Seq<char>, db: Seq<char>) -> Seq<char> {
    "[Unit]\nDescription=Ottrin locate database update\n\n[Service]\nType=oneshot\nExecStart=/usr/bin/updatedb -l 0 -U "@
        + root + " -o "@ + db + "\n"@
}

/// The service unit text.
pub fn service_unit(root: &str, db: &str) -> (s: String)
    ensures
        s@ == service_unit_text(root@, db@),
{
    let mut s =
        "[Unit]\nDescription=Ottrin locate database update\n\n[Service]\nType=oneshot\nExecStart=/usr/bin/updatedb -l 0 -U "
            .to_owned();
    push_str(&mut s, root);
    push_str(&mut s, " -o ");
    push_str(&mut s, db);
    push_str(&mut s, "\n");
    s
}

/// The timer unit that runs the update on boot and every `hours` hours.
pub open spec fn timer_unit_text(hours: nat) -> Seq<char> {
    "[Unit]\nDescription=Ottrin locate database update timer\n\n[Timer]\nOnBootSec=2min\nOnUnitActiveSec="@ + decimal(
        hours,
    ) + "h\n\n[Install]\nWantedBy=timers.target\n"@
}

/// The timer unit text.
pub fn timer_unit(hours: u32) -> (s: String)
    ensures
        s@ == timer_unit_text(hours as nat),
{
    let mut s = "[Unit]\nDescription=Ottrin locate database update timer\n\n[Timer]\nOnBootSec=2min\nOnUnitActiveSec="
        .to_owned();
    push_decimal(&mut s, hours as u64);
    push_str(&mut s, "h\n\n[Install]\nWantedBy=timers.target\n");
    s
}

/// The message after installing the user timer.
pub fn timer_installed_message(hours: u32) -> (s: String)
    ensures
        s@ == "Systemd user timer installed.\nUpdatedb will run every "@ + decimal(hours as nat)
            + "h and on boot.\nUnit files: ~/.config/systemd/user/ottrin-updatedb.{service,timer}"@,
{
    let mut s = "Systemd user timer installed.\nUpdatedb will run every ".to_owned();
    push_decimal(&mut s, hours as u64);
    push_str(&mut s, "h and on boot.\nUnit files: ~/.config/systemd/user/ottrin-updatedb.{service,timer}");
    s
}

/// What installing the crontab entry does: nothing when the tagged entry is
/// already there, else the new crontab (the old one without trailing white space,
/// a line break, then the tagged entry).
pub open spec fn crontab_update_of(existing: Seq<char>, hours: nat, root: Seq<char>, db: Seq<char>) -> Option<
    Seq<char>,
> {
    if seq_contains(existing, cron_tag()) {
        None
    } else {
        Some(trim_end(existing) + "\n"@ + cron_tag() + "\n0 */"@ + decimal(hours) + " * * * updatedb -l 0 -U "@ + root
            + " -o "@ + db + "\n"@)
    }
}

/// The crontab to install, or none when the entry is already there.
pub fn crontab_update(existing: &str, hours: u32, root: &str, db: &str) -> (r: Option<String>)
    ensures
        match r {
            Some(s) => crontab_update_of(existing@, hours as nat, root@, db@) == Some(s@),
            None => crontab_update_of(existing@, hours as nat, root@, db@) is None,
        },
{
    if str_contains(existing, "# ottrin-updatedb") {
        return None;
    }
    let mut s = str_trim_end(existing).to_owned();
    push_str(&mut s, "\n");
    push_str(&mut s, "# ottrin-updatedb");
    push_str(&mut s, "\n0 */");
    push_decimal(&mut s, hours as u64);
    push_str(&mut s, " * * * updatedb -l 0 -U ");
    push_str(&mut s, root);
    push_str(&mut s, " -o ");
    push_str(&mut s, db);
    push_str(&mut s, "\n");
    Some(s)
}

/// The message after installing the crontab entry, or finding it installed.
pub fn crontab_message(already: bool, hours: u32) -> (s: String)
    ensures
        already ==> s@ == "Crontab entry already installed."@,
        !already ==> s@ == "Crontab entry installed.\nUpdatedb will run every "@ + decimal(hours as nat) + "h."@,
{
    if already {
        return "Crontab entry already installed.".to_owned();
    }
    let mut s = "Crontab entry installed.\nUpdatedb will run every ".to_owned();
    push_decimal(&mut s, hours as u64);
    push_str(&mut s, "h.");
    s
}

/// A line of locate's answer is kept when its path, trimmed, lies under one of the
/// roots and, unless hidden entries are wanted, has a file name not starting with
/// a dot.
pub open spec fn locate_line_kept(line: Seq<char>, roots: Seq<Seq<char>>, include_hidden: bool) -> Option<Seq<char>> {
    let p = trim(line);
    if !(exists|i: int| 0 <= i < roots.len() && path_has_base(p, #[trigger] roots[i])) {
        None
    } else if include_hidden {
        Some(p)
    } else {
        match file_name_of(p) {
            Some(n) => if has_prefix(n, seq!['.']) {
                None
            } else {
                Some(p)
            },
            None => None,
        }
    }
}

/// The path of a line of locate's answer, if the line is kept. `roots` are the
/// indexed roots (the home folder when none are configured).
pub fn locate_line(line: &str, roots: &Vec<String>, include_hidden: bool) -> (r: Option<String>)
    ensures
        match r {
            Some(p) => locate_line_kept(line@, roots@.map_values(|s: String| s@), include_hidden) == Some(p@),
            None => locate_line_kept(line@, roots@.map_values(|s: String| s@), include_hidden) is None,
        },
{
    let ghost rv = roots@.map_values(|s: String| s@);
    let p = str_trim(line);
    let mut i: usize = 0;
    let mut under = false;
    while i < roots.len()
        invariant
            rv == roots@.map_values(|s: String| s@),
            i <= roots@.len(),
            under == exists|k: int| 0 <= k < i && path_has_base(p@, #[trigger] rv[k]),
        decreases roots@.len() - i,
    {
        if path_starts_with(p, roots[i].as_str()) {
            assert(path_has_base(p@, rv[i as int]));
            under = true;
        }
        i += 1;
    }
    if !under {
        return None;
    }
    if include_hidden {
        return Some(p.to_owned());
    }
    proof {
        reveal_strlit(".");
    }
    assert("."@ =~= seq!['.']);
    match path_file_name(p) {
        Some(n) => if str_starts_with(n, ".") {
            None
        } else {
            Some(p.to_owned())
        },
        None => None,
    }
}

/// The value of a run of decimal digits.
pub open spec fn digits_value(d: Seq<char>) -> nat
    decreases d.len(),
{
    if d.len() == 0 {
        0
    } else {
        digits_value(d.drop_last()) * 10 + ((d.last() as nat) - ('0' as nat)) as nat
    }
}

/// `d` is a non-empty run of ASCII digits.
pub open spec fn all_digits(d: Seq<char>) -> bool {
    d.len() > 0 && forall|i: int| 0 <= i < d.len() ==> '0' <= #[trigger] d[i] && d[i] <= '9'
}

/// The count a locate database reports (`locate -c`), read as `usize::from_str`
/// reads the trimmed text: an optional `+` and then decimal digits, for a value
/// that fits.
pub open spec fn count_of(text: Seq<char>) -> Option<usize> {
    let t = trim(text);
    let d = if t.len() > 0 && t[0] == '+' {
        t.drop_first()
    } else {
        t
    };
    if all_digits(d) && digits_value(d) <= usize::MAX {
        Some(digits_value(d) as usize)
    } else {
        None
    }
}

/// The entry count printed by a locate database.
pub fn parse_count(text: &str) -> (r: Option<usize>)
    ensures
        r == count_of(text@),
{
    let t = crate::text::chars_of(str_trim(text));
    let start: usize = if t.len() > 0 && t[0] == '+' {
        1
    } else {
        0
    };
    let ghost d = if t@.len() > 0 && t@[0] == '+' {
        t@.drop_first()
    } else {
        t@
    };
    assert(d =~= t@.skip(start as int));
    if start >= t.len() {
        return None;
    }
    let mut value: usize = 0;
    let mut i: usize = start;
    while i < t.len()
        invariant
            start <= i <= t@.len(),
            t@ == trim(text@),
            d == (if t@.len() > 0 && t@[0] == '+' {
                t@.drop_first()
            } else {
                t@
            }),
            d == t@.skip(start as int),
            value == digits_value(d.take(i - start)),
            forall|j: int| 0 <= j < i - start ==> '0' <= #[trigger] d[j] && d[j] <= '9',
        decreases t@.len() - i,
    {
        let c = t[i];
        assert(d[i - start] == c);
        assert(d.take(i - start + 1).drop_last() =~= d.take(i - start));
        if c < '0' || c > '9' {
            return None;
        }
        let digit = (c as u32 - '0' as u32) as usize;
        assert(digits_value(d.take(i - start + 1)) == value * 10 + digit);
        if value > (usize::MAX - digit) / 10 {
            assert(value * 10 + digit > usize::MAX) by (nonlinear_arith)
                requires
                    value > (usize::MAX - digit) / 10,
                    digit <= 9,
            ;
            proof {
                if all_digits(d) {
                    lemma_digits_grow(d, i - start + 1);
                }
            }
            return None;
        }
        assert(value * 10 + digit <= usize::MAX) by (nonlinear_arith)
            requires
                value <= (usize::MAX - digit) / 10,
                digit <= 9,
        ;
        value = value * 10 + digit;
        i += 1;
    }
    assert(d.take(d.len() as int) =~= d);
    Some(value)
}

/// A run of digits is worth at least any of its prefixes.
proof fn lemma_digits_grow(d: Seq<char>, k: int)
    requires
        0 <= k <= d.len(),
        forall|j: int| 0 <= j < d.len() ==> '0' <= #[trigger] d[j] && d[j] <= '9',
    ensures
        digits_value(d.take(k)) <= digits_value(d),
    decreases d.len() - k,
{
    if k < d.len() {
        lemma_digits_grow(d, k + 1);
        assert(d.take(k + 1).drop_last() =~= d.take(k));
    } else {
        assert(d.take(k) =~= d);
    }
}

} // verus!
