//! The drop-folder target: the current target, user-pinned targets and a short
//! list of recent targets (most recent first).

use vstd::prelude::*;
use crate::navigation::str_views;
use crate::paths::{path_eq, same_path};

verus! {

/// The most recent targets that are kept.
pub const RECENT_LIMIT: usize = 10;

#[derive(Debug, Clone, PartialEq, Eq, Default)]
pub struct TargetState {
    pub current: Option<String>,
    pub pinned: Vec<String>,
    pub has_ever_set: bool,
    pub recent: Vec<String>,
}

/// The abstract state of the target list.
pub struct TargetView {
    pub current: Option<Seq<char>>,
    pub pinned: Seq<Seq<char>>,
    pub has_ever_set: bool,
    pub recent: Seq<Seq<char>>,
}

impl View for TargetState {
    type V = TargetView;

    open spec fn view(&self) -> TargetView {
        TargetView {
            current: match self.current {
                Some(c) => Some(c@),
                None => None,
            },
            pinned: str_views(self.pinned@),
            has_ever_set: self.has_ever_set,
            recent: str_views(self.recent@),
        }
    }
}

/// The entries of `list` that are not the path `p`.
pub open spec fn without_path(list: Seq<Seq<char>>, p: Seq<char>) -> Seq<Seq<char>> {
    list.filter(|q: Seq<char>| !same_path(q, p))
}

/// Some entry of `list` is the path `p`.
pub open spec fn lists_path(list: Seq<Seq<char>>, p: Seq<char>) -> bool {
    exists|i: int| 0 <= i < list.len() && same_path(#[trigger] list[i], p)
}

/// No entry of `list` is the same path as an entry before it.
pub open spec fn no_repeats(list: Seq<Seq<char>>) -> bool {
    forall|i: int, j: int| 0 <= i < j < list.len() ==> !same_path(#[trigger] list[j], #[trigger] list[i])
}

/// No entry of `list` is the same path as `p` (`list[i] == p` is false for
/// every entry, as `Vec::contains` compares).
pub open spec fn apart(list: Seq<Seq<char>>, p: Seq<char>) -> bool {
    forall|i: int| 0 <= i < list.len() ==> !same_path(#[trigger] list[i], p)
}

/// `p` is the same path as no entry of `list`, with `p` on the left.
pub open spec fn fresh(list: Seq<Seq<char>>, p: Seq<char>) -> bool {
    forall|i: int| 0 <= i < list.len() ==> !same_path(p, #[trigger] list[i])
}

/// The recent list is well kept: at most [`RECENT_LIMIT`] entries, no path
/// twice, and never the current target.
pub open spec fn recent_well_kept(t: TargetView) -> bool {
    &&& t.recent.len() <= RECENT_LIMIT
    &&& no_repeats(t.recent)
    &&& match t.current {
        Some(c) => apart(t.recent, c),
        None => true,
    }
}

/// `old` put in front of `recent`, keeping at most [`RECENT_LIMIT`] entries.
pub open spec fn remember(recent: Seq<Seq<char>>, old: Seq<char>) -> Seq<Seq<char>> {
    let r = seq![old] + recent;
    if r.len() > RECENT_LIMIT {
        r.take(RECENT_LIMIT as int)
    } else {
        r
    }
}

/// The state after making `p` the current target: `p` leaves the recent list,
/// and the previous target, if it is another path and not pinned, becomes the
/// most recent one.
pub open spec fn after_set(t: TargetView, p: Seq<char>) -> TargetView {
    let r = without_path(t.recent, p);
    TargetView {
        current: Some(p),
        has_ever_set: true,
        recent: match t.current {
            Some(o) => if !same_path(o, p) && !lists_path(t.pinned, o) {
                remember(r, o)
            } else {
                r
            },
            None => r,
        },
        pinned: t.pinned,
    }
}

/// The state after clearing the target: the previous target, unless pinned,
/// becomes the most recent one.
pub open spec fn after_clear(t: TargetView) -> TargetView {
    TargetView {
        current: None,
        recent: match t.current {
            Some(c) => if !lists_path(t.pinned, c) {
                remember(t.recent, c)
            } else {
                t.recent
            },
            None => t.recent,
        },
        ..t
    }
}

/// The state after pinning `p`: it leaves the recent list and, unless already
/// pinned, is put first among the pinned targets.
pub open spec fn after_pin(t: TargetView, p: Seq<char>) -> TargetView {
    TargetView {
        recent: without_path(t.recent, p),
        pinned: if lists_path(t.pinned, p) {
            t.pinned
        } else {
            seq![p] + t.pinned
        },
        ..t
    }
}

/// The state after unpinning `p`: every pinned entry that is `p` is removed.
pub open spec fn after_unpin(t: TargetView, p: Seq<char>) -> TargetView {
    TargetView { pinned: without_path(t.pinned, p), ..t }
}

/// `s` with the entries at `i` and `j` exchanged.
pub open spec fn swapped<A>(s: Seq<A>, i: int, j: int) -> Seq<A> {
    s.update(i, s[j]).update(j, s[i])
}

/// The state after moving the pin at `index` one place up (no change for the
/// first pin or an index past the end).
pub open spec fn after_move_up(t: TargetView, index: int) -> TargetView {
    if index == 0 || index >= t.pinned.len() {
        t
    } else {
        TargetView { pinned: swapped(t.pinned, index, index - 1), ..t }
    }
}

/// The state after moving the pin at `index` one place down (no change for the
/// last pin or an index past the end).
pub open spec fn after_move_down(t: TargetView, index: int) -> TargetView {
    if index + 1 >= t.pinned.len() {
        t
    } else {
        TargetView { pinned: swapped(t.pinned, index, index + 1), ..t }
    }
}

/// Keeps the entries of `v` that are not the path `p`, in order.
fn retain_other_paths(v: &mut Vec<String>, p: &str)
    ensures
        str_views(final(v)@) == without_path(str_views(old(v)@), p@),
{
    let mut kept: Vec<String> = Vec::new();
    let mut i: usize = 0;
    while i < v.len()
        invariant
            i <= v@.len(),
            v@ == old(v)@,
            str_views(kept@) == without_path(str_views(v@).take(i as int), p@),
        decreases v@.len() - i,
    {
        let ghost before = str_views(v@).take(i as int);
        let ghost next = str_views(v@).take(i as int + 1);
        assert(next.drop_last() =~= before);
        assert(next.last() == v@[i as int]@);
        reveal_with_fuel(Seq::filter, 1);
        if !path_eq(v[i].as_str(), p) {
            kept.push(v[i].clone());
            assert(str_views(kept@) =~= without_path(before, p@).push(v@[i as int]@));
        } else {
            assert(str_views(kept@) =~= without_path(before, p@));
        }
        assert(str_views(kept@) == without_path(next, p@));
        i += 1;
    }
    assert(str_views(v@).take(v@.len() as int) =~= str_views(v@));
    *v = kept;
}

/// Keeping only some entries of a list keeps every entry apart from `x`, and
/// `x` fresh with respect to them.
proof fn lemma_filter_apart(s: Seq<Seq<char>>, pred: spec_fn(Seq<char>) -> bool, x: Seq<char>)
    ensures
        apart(s, x) ==> apart(s.filter(pred), x),
        fresh(s, x) ==> fresh(s.filter(pred), x),
{
    broadcast use vstd::seq_lib::group_filter_ensures;

    let f = s.filter(pred);
    assert forall|i: int| 0 <= i < f.len() implies exists|j: int| 0 <= j < s.len() && s[j] == #[trigger] f[i] by {
        assert(f.contains(f[i]));
        s.lemma_filter_contains_rev(pred, f[i]);
    }
}

/// Keeping only some entries of a list with no path twice leaves no path twice.
proof fn lemma_filter_no_repeats(s: Seq<Seq<char>>, pred: spec_fn(Seq<char>) -> bool)
    requires
        no_repeats(s),
    ensures
        no_repeats(s.filter(pred)),
    decreases s.len(),
{
    reveal_with_fuel(Seq::filter, 1);
    if s.len() > 0 {
        let d = s.drop_last();
        let last = s.last();
        assert forall|i: int, j: int| 0 <= i < j < d.len() implies !same_path(#[trigger] d[j], #[trigger] d[i]) by {
            assert(d[i] == s[i] && d[j] == s[j]);
        }
        lemma_filter_no_repeats(d, pred);
        assert forall|i: int| 0 <= i < d.len() implies !same_path(last, #[trigger] d[i]) by {
            assert(d[i] == s[i]);
            assert(last == s[s.len() - 1]);
        }
        lemma_filter_apart(d, pred, last);
        let f = d.filter(pred);
        if pred(last) {
            let g = f.push(last);
            assert forall|i: int, j: int| 0 <= i < j < g.len() implies !same_path(#[trigger] g[j], #[trigger] g[i]) by {
                assert(g[i] == f[i]);
                if j < f.len() {
                    assert(g[j] == f[j]);
                }
            }
        }
    }
}

/// Dropping the entries that are the path `p` keeps a list free of repeats,
/// keeps entries apart from `x`, and does not lengthen it.
proof fn lemma_without_path_kept(list: Seq<Seq<char>>, p: Seq<char>, x: Seq<char>)
    ensures
        no_repeats(list) ==> no_repeats(without_path(list, p)),
        apart(list, x) ==> apart(without_path(list, p), x),
        apart(without_path(list, p), p),
        without_path(list, p).len() <= list.len(),
{
    broadcast use vstd::seq_lib::group_filter_ensures;

    let pred = |q: Seq<char>| !same_path(q, p);
    list.lemma_filter_len(pred);
    if no_repeats(list) {
        lemma_filter_no_repeats(list, pred);
    }
    lemma_filter_apart(list, pred, x);
    let w = list.filter(pred);
    assert forall|i: int| 0 <= i < w.len() implies !same_path(#[trigger] w[i], p) by {
        assert(pred(w[i]));
    }
}

/// Putting `o`, which no entry of `r` equals, in front of `r` and keeping at
/// most [`RECENT_LIMIT`] entries leaves no path twice; and when neither `o` nor
/// any entry of `r` is the path `x`, no entry of the result is.
proof fn lemma_remember_kept(r: Seq<Seq<char>>, o: Seq<char>, x: Seq<char>)
    requires
        no_repeats(r),
        apart(r, o),
    ensures
        no_repeats(remember(r, o)),
        remember(r, o).len() <= RECENT_LIMIT,
        apart(r, x) && !same_path(o, x) ==> apart(remember(r, o), x),
{
    let g = seq![o] + r;
    assert forall|i: int, j: int| 0 <= i < j < g.len() implies !same_path(#[trigger] g[j], #[trigger] g[i]) by {
        assert(g[j] == r[j - 1]);
        if i > 0 {
            assert(g[i] == r[i - 1]);
        }
    }
    if apart(r, x) && !same_path(o, x) {
        assert forall|i: int| 0 <= i < g.len() implies !same_path(#[trigger] g[i], x) by {
            if i > 0 {
                assert(g[i] == r[i - 1]);
            }
        }
    }
    let m = remember(r, o);
    if g.len() > RECENT_LIMIT {
        assert forall|i: int, j: int| 0 <= i < j < m.len() implies !same_path(#[trigger] m[j], #[trigger] m[i]) by {
            assert(m[i] == g[i] && m[j] == g[j]);
        }
        if apart(r, x) && !same_path(o, x) {
            assert forall|i: int| 0 <= i < m.len() implies !same_path(#[trigger] m[i], x) by {
                assert(m[i] == g[i]);
            }
        }
    }
}

/// Whether some entry of `v` is the path `p`.
pub(crate) fn any_is_path(v: &Vec<String>, p: &str) -> (r: bool)
    ensures
        r == lists_path(str_views(v@), p@),
{
    let mut i: usize = 0;
    while i < v.len()
        invariant
            i <= v@.len(),
            forall|j: int| 0 <= j < i ==> !same_path(#[trigger] str_views(v@)[j], p@),
        decreases v@.len() - i,
    {
        if path_eq(v[i].as_str(), p) {
            assert(same_path(str_views(v@)[i as int], p@));
            return true;
        }
        i += 1;
    }
    false
}

/// Puts `prev` in front of `recent`, keeping at most [`RECENT_LIMIT`] entries.
fn remember_recent(recent: &mut Vec<String>, prev: String)
    ensures
        str_views(final(recent)@) == remember(str_views(old(recent)@), prev@),
{
    recent.insert(0, prev);
    if recent.len() > RECENT_LIMIT {
        recent.truncate(RECENT_LIMIT);
    }
    assert(str_views(recent@) =~= remember(str_views(old(recent)@), prev@));
}

impl TargetState {
    /// Make `path` the current target.
    pub fn set(&mut self, path: String)
        ensures
            final(self)@ == after_set(old(self)@, path@),
            recent_well_kept(old(self)@) ==> recent_well_kept(final(self)@),
    {
        proof {
            if recent_well_kept(old(self)@) {
                law_set_keeps_recent_well_kept(old(self)@, path@);
            }
        }
        self.has_ever_set = true;
        retain_other_paths(&mut self.recent, path.as_str());
        let previous = self.current.take();
        match previous {
            Some(o) => {
                if !path_eq(o.as_str(), path.as_str()) && !any_is_path(&self.pinned, o.as_str()) {
                    remember_recent(&mut self.recent, o);
                }
            },
            None => {},
        }
        self.current = Some(path);
    }

    /// Clear the current target, remembering it as recent unless it is pinned.
    pub fn clear(&mut self)
        ensures
            final(self)@ == after_clear(old(self)@),
            recent_well_kept(old(self)@) ==> recent_well_kept(final(self)@),
    {
        proof {
            if recent_well_kept(old(self)@) {
                law_clear_pin_keep_recent_well_kept(old(self)@, Seq::<char>::empty());
            }
        }
        let previous = self.current.take();
        match previous {
            Some(c) => {
                if !any_is_path(&self.pinned, c.as_str()) {
                    remember_recent(&mut self.recent, c);
                }
            },
            None => {},
        }
    }

    pub fn is_set(&self) -> (r: bool)
        ensures
            r == self@.current is Some,
    {
        self.current.is_some()
    }

    /// Pin `path` as a target.
    pub fn pin(&mut self, path: String)
        ensures
            final(self)@ == after_pin(old(self)@, path@),
            recent_well_kept(old(self)@) ==> recent_well_kept(final(self)@),
    {
        proof {
            if recent_well_kept(old(self)@) {
                law_clear_pin_keep_recent_well_kept(old(self)@, path@);
            }
        }
        retain_other_paths(&mut self.recent, path.as_str());
        if !any_is_path(&self.pinned, path.as_str()) {
            self.pinned.insert(0, path);
            assert(str_views(self.pinned@) =~= seq![path@] + str_views(old(self).pinned@));
        }
    }

    /// Remove `path` from the pinned targets.
    pub fn unpin(&mut self, path: &String)
        ensures
            final(self)@ == after_unpin(old(self)@, path@),
            recent_well_kept(old(self)@) ==> recent_well_kept(final(self)@),
    {
        retain_other_paths(&mut self.pinned, path.as_str());
    }

    /// Move the pin at `index` one place towards the front.
    pub fn move_pin_up(&mut self, index: usize)
        ensures
            final(self)@ == after_move_up(old(self)@, index as int),
            recent_well_kept(old(self)@) ==> recent_well_kept(final(self)@),
    {
        if index == 0 || index >= self.pinned.len() {
            return;
        }
        swap_entries(&mut self.pinned, index, index - 1);
    }

    /// Move the pin at `index` one place towards the back.
    pub fn move_pin_down(&mut self, index: usize)
        requires
            index < usize::MAX,
        ensures
            final(self)@ == after_move_down(old(self)@, index as int),
            recent_well_kept(old(self)@) ==> recent_well_kept(final(self)@),
    {
        if index + 1 >= self.pinned.len() {
            return;
        }
        swap_entries(&mut self.pinned, index, index + 1);
    }
}

/// Exchanges the entries at `i` and `j`.
fn swap_entries(v: &mut Vec<String>, i: usize, j: usize)
    requires
        i < old(v)@.len(),
        j < old(v)@.len(),
    ensures
        str_views(final(v)@) == swapped(str_views(old(v)@), i as int, j as int),
{
    let ghost w = str_views(v@);
    let a = v[i].clone();
    let b = v[j].clone();
    assert(a@ == w[i as int] && b@ == w[j as int]);
    v.set(i, b);
    v.set(j, a);
    let ghost sw = swapped(w, i as int, j as int);
    assert(v@.len() == w.len());
    assert forall|k: int| 0 <= k < sw.len() implies #[trigger] str_views(v@)[k] == sw[k] by {
        assert(str_views(v@)[k] == v@[k]@);
        if k == j {
            assert(v@[k] == a);
        } else if k == i {
            assert(v@[k] == b);
        } else {
            assert(v@[k] == old(v)@[k]);
            assert(w[k] == old(v)@[k]@);
        }
    }
    assert(str_views(v@) =~= sw);
}

/// The recent list never grows past [`RECENT_LIMIT`] entries.
pub proof fn law_recent_bounded(t: TargetView, p: Seq<char>)
    requires
        t.recent.len() <= RECENT_LIMIT,
    ensures
        after_set(t, p).recent.len() <= RECENT_LIMIT,
        after_clear(t).recent.len() <= RECENT_LIMIT,
        after_pin(t, p).recent.len() <= RECENT_LIMIT,
{
    let pred = |q: Seq<char>| !same_path(q, p);
    t.recent.lemma_filter_len(pred);
}

/// Making `p` the current target keeps the recent list well kept: at most
/// [`RECENT_LIMIT`] entries, none the same path as an earlier one, and none the
/// current target.
pub proof fn law_set_keeps_recent_well_kept(t: TargetView, p: Seq<char>)
    requires
        recent_well_kept(t),
    ensures
        recent_well_kept(after_set(t, p)),
{
    let x = match t.current {
        Some(o) => o,
        None => p,
    };
    lemma_without_path_kept(t.recent, p, x);
    let r = without_path(t.recent, p);
    lemma_without_path_kept(t.recent, p, p);
    match t.current {
        Some(o) => {
            if !same_path(o, p) && !lists_path(t.pinned, o) {
                lemma_remember_kept(r, o, p);
            }
        },
        None => {},
    }
}

/// Clearing the target, pinning a path, unpinning one and moving a pin each
/// keep the recent list well kept.
pub proof fn law_clear_pin_keep_recent_well_kept(t: TargetView, p: Seq<char>)
    requires
        recent_well_kept(t),
    ensures
        recent_well_kept(after_clear(t)),
        recent_well_kept(after_pin(t, p)),
        recent_well_kept(after_unpin(t, p)),
        forall|i: int| recent_well_kept(#[trigger] after_move_up(t, i)),
        forall|i: int| recent_well_kept(#[trigger] after_move_down(t, i)),
{
    match t.current {
        Some(c) => {
            if !lists_path(t.pinned, c) {
                lemma_remember_kept(t.recent, c, c);
            }
            lemma_without_path_kept(t.recent, p, c);
        },
        None => {
            lemma_without_path_kept(t.recent, p, p);
        },
    }
}

/// After `set(p)`, `p` is the current target and no recent entry is `p`.
pub proof fn law_set_current_not_recent(t: TargetView, p: Seq<char>)
    ensures
        after_set(t, p).current == Some(p),
        after_set(t, p).has_ever_set,
        forall|i: int| 0 <= i < after_set(t, p).recent.len()
            ==> !same_path(#[trigger] after_set(t, p).recent[i], p),
{
    let pred = |q: Seq<char>| !same_path(q, p);
    let r = without_path(t.recent, p);
    assert forall|i: int| 0 <= i < r.len() implies !same_path(#[trigger] r[i], p) by {
        broadcast use vstd::seq_lib::group_filter_ensures;
    }
    let n = after_set(t, p).recent;
    assert forall|i: int| 0 <= i < n.len() implies !same_path(#[trigger] n[i], p) by {
        match t.current {
            Some(o) => {
                if !same_path(o, p) && !lists_path(t.pinned, o) {
                    let s = seq![o] + r;
                    if i > 0 {
                        assert(n[i] == s[i]);
                        assert(s[i] == r[i - 1]);
                    }
                }
            },
            None => {},
        }
    }
}

/// After `pin(p)`, `p` is among the pinned targets and no recent entry is `p`;
/// after `unpin(p)` no pinned entry is `p`.
pub proof fn law_pin_unpin(t: TargetView, p: Seq<char>)
    ensures
        exists|i: int| 0 <= i < after_pin(t, p).pinned.len()
            && (#[trigger] after_pin(t, p).pinned[i] == p || same_path(after_pin(t, p).pinned[i], p)),
        !lists_path(after_pin(t, p).recent, p),
        !lists_path(after_unpin(t, p).pinned, p),
{
    broadcast use vstd::seq_lib::group_filter_ensures;

    let pins = after_pin(t, p).pinned;
    if lists_path(t.pinned, p) {
        let i = choose|i: int| 0 <= i < t.pinned.len() && same_path(#[trigger] t.pinned[i], p);
        assert(pins[i] == t.pinned[i]);
    } else {
        assert(pins[0] == p);
    }
}

/// Moving a pin up and then down again from its new place restores the list.
pub proof fn law_move_up_then_down(t: TargetView, index: int)
    requires
        0 < index < t.pinned.len(),
    ensures
        after_move_down(after_move_up(t, index), index - 1) == t,
{
    assert(swapped(swapped(t.pinned, index, index - 1), index - 1, index) =~= t.pinned);
}

} // verus!
