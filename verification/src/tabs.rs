//! The list of open tabs: opening, closing, finding a tab by id, and which tab
//! is active. Times shown for entries are also formatted here.

use vstd::prelude::*;
use crate::model::ViewMode;
use crate::navigation::TabState;
use crate::text::{decimal, push_decimal, push_str};

verus! {

/// The index of the active tab: the stored index, limited to the last tab.
pub open spec fn active_index_of(active: nat, len: nat) -> nat {
    let last: nat = if len == 0 {
        0
    } else {
        (len - 1) as nat
    };
    if active < last {
        active
    } else {
        last
    }
}

/// The index of the active tab.
pub fn active_index(active_tab_idx: usize, len: usize) -> (r: usize)
    ensures
        r == active_index_of(active_tab_idx as nat, len as nat),
{
    let last: usize = if len == 0 {
        0
    } else {
        len - 1
    };
    if active_tab_idx < last {
        active_tab_idx
    } else {
        last
    }
}

/// Open a tab on `dir` with the next id and the given view mode, at the end of
/// the list; its index is returned.
pub fn open_tab(tabs: &mut Vec<TabState>, next_tab_id: &mut u64, dir: String, view_mode: ViewMode) -> (idx: usize)
    requires
        *old(next_tab_id) < u64::MAX,
    ensures
        *final(next_tab_id) == *old(next_tab_id) + 1,
        final(tabs)@.len() == old(tabs)@.len() + 1,
        idx == old(tabs)@.len(),
        final(tabs)@.take(old(tabs)@.len() as int) == old(tabs)@,
        final(tabs)@[idx as int]@.id == *old(next_tab_id),
        final(tabs)@[idx as int]@.current == dir@,
        final(tabs)@[idx as int]@.back.len() == 0,
        final(tabs)@[idx as int]@.forward.len() == 0,
        final(tabs)@[idx as int]@.view_mode == view_mode,
        final(tabs)@[idx as int]@.label is None,
{
    let id = *next_tab_id;
    *next_tab_id = id + 1;
    let mut tab = TabState::new(id, dir);
    tab.view_mode = view_mode;
    tabs.push(tab);
    assert(tabs@.take(tabs@.len() - 1) =~= old(tabs)@);
    tabs.len() - 1
}

/// Close the tab at `idx`, unless it is the last one left. The answer says
/// whether the tab was one side of the linked view (given by the two tab ids),
/// which must then be dissolved; the active index is kept within the list.
pub fn close_tab_at(
    tabs: &mut Vec<TabState>,
    active_tab_idx: &mut usize,
    linked: Option<(u64, u64)>,
    idx: usize,
) -> (unlink: bool)
    requires
        old(tabs)@.len() <= 1 || idx < old(tabs)@.len(),
    ensures
        old(tabs)@.len() <= 1 ==> final(tabs)@ == old(tabs)@ && *final(active_tab_idx) == *old(active_tab_idx)
            && !unlink,
        old(tabs)@.len() > 1 ==> {
            &&& final(tabs)@ == old(tabs)@.remove(idx as int)
            &&& unlink == (linked matches Some((l, r)) && (l == old(tabs)@[idx as int].id || r
                == old(tabs)@[idx as int].id))
            &&& *final(active_tab_idx) == if *old(active_tab_idx) >= final(tabs)@.len() {
                (final(tabs)@.len() - 1) as usize
            } else {
                *old(active_tab_idx)
            }
        },
{
    if tabs.len() <= 1 {
        return false;
    }
    let closing_id = tabs[idx].id;
    let unlink = match linked {
        Some((l, r)) => l == closing_id || r == closing_id,
        None => false,
    };
    tabs.remove(idx);
    if *active_tab_idx >= tabs.len() {
        *active_tab_idx = tabs.len() - 1;
    }
    unlink
}

/// The index of the first tab with the given id.
pub fn tab_idx_by_id(tabs: &Vec<TabState>, id: u64) -> (r: Option<usize>)
    ensures
        match r {
            Some(i) => i < tabs@.len() && tabs@[i as int].id == id && forall|j: int| 0 <= j < i ==> tabs@[j].id != id,
            None => forall|j: int| 0 <= j < tabs@.len() ==> tabs@[j].id != id,
        },
{
    let mut i: usize = 0;
    while i < tabs.len()
        invariant
            i <= tabs@.len(),
            forall|j: int| 0 <= j < i ==> tabs@[j].id != id,
        decreases tabs@.len() - i,
    {
        if tabs[i].id == id {
            return Some(i);
        }
        i += 1;
    }
    None
}

/// The short names of the months.
pub open spec fn month_names() -> Seq<Seq<char>> {
    seq![
        "Jan"@, "Feb"@, "Mar"@, "Apr"@, "May"@, "Jun"@, "Jul"@, "Aug"@, "Sep"@, "Oct"@, "Nov"@, "Dec"@,
    ]
}

/// How long ago `unix_secs` was, seen at `now`: "just now", minutes, hours or days
/// for the last thirty days, else an approximate month and year (years of 365
/// days and months of 30 days from 1970, the month capped at December).
pub open spec fn modified_text(unix_secs: nat, now: nat) -> Seq<char> {
    let ago: nat = if now >= unix_secs {
        (now - unix_secs) as nat
    } else {
        0
    };
    if ago < 60 {
        "just now"@
    } else if ago < 3_600 {
        decimal(ago / 60) + " min ago"@
    } else if ago < 86_400 {
        decimal(ago / 3_600) + " hr ago"@
    } else if ago < 86_400 * 30 {
        decimal(ago / 86_400) + " days ago"@
    } else {
        let days = unix_secs / 86_400;
        let year = 1970 + days / 365;
        let month = (days % 365) / 30;
        let m = if month < 11 {
            month
        } else {
            11
        };
        month_names()[m as int] + " "@ + decimal(year)
    }
}

fn month_name(m: u64) -> (s: &'static str)
    requires
        m <= 11,
    ensures
        s@ == month_names()[m as int],
{
    if m == 0 {
        "Jan"
    } else if m == 1 {
        "Feb"
    } else if m == 2 {
        "Mar"
    } else if m == 3 {
        "Apr"
    } else if m == 4 {
        "May"
    } else if m == 5 {
        "Jun"
    } else if m == 6 {
        "Jul"
    } else if m == 7 {
        "Aug"
    } else if m == 8 {
        "Sep"
    } else if m == 9 {
        "Oct"
    } else if m == 10 {
        "Nov"
    } else {
        "Dec"
    }
}

/// The modification text of a timestamp seen at `now`.
pub fn format_modified_at(unix_secs: u64, now: u64) -> (s: String)
    ensures
        s@ == modified_text(unix_secs as nat, now as nat),
{
    let ago: u64 = if now >= unix_secs {
        now - unix_secs
    } else {
        0
    };
    if ago < 60 {
        return "just now".to_owned();
    }
    let mut s = String::new();
    if ago < 3_600 {
        push_decimal(&mut s, ago / 60);
        push_str(&mut s, " min ago");
    } else if ago < 86_400 {
        push_decimal(&mut s, ago / 3_600);
        push_str(&mut s, " hr ago");
    } else if ago < 86_400 * 30 {
        push_decimal(&mut s, ago / 86_400);
        push_str(&mut s, " days ago");
    } else {
        let days = unix_secs / 86_400;
        let year = 1970 + days / 365;
        let month = (days % 365) / 30;
        let m = if month < 11 {
            month
        } else {
            11
        };
        push_str(&mut s, month_name(m));
        push_str(&mut s, " ");
        push_decimal(&mut s, year);
    }
    s
}

/// The modification text of a timestamp, seen now.
pub fn format_modified(unix_secs: u64) -> (s: String)
    ensures
        exists|now: u64| s@ == modified_text(unix_secs as nat, now as nat),
{
    let now = crate::transfer::now_unix_secs();
    format_modified_at(unix_secs, now)
}

} // verus!
