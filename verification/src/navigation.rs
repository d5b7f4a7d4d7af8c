//! Per-tab navigation state with back/forward history.

use vstd::prelude::*;
use crate::model::{SortBy, SortConfig, ViewMode};
use crate::paths::{file_name_of, parent_of, path_eq, path_file_name, path_parent, same_path};

verus! {

/// A tab: its current directory, the back and forward history stacks (top of the
/// stack last), its view settings and an optional custom label.
#[derive(Debug, Clone, PartialEq, Eq)]
pub struct TabState {
    pub id: u64,
    pub current_dir: String,
    pub history_back: Vec<String>,
    pub history_forward: Vec<String>,
    pub view_mode: ViewMode,
    pub sort: SortConfig,
    pub label: Option<String>,
}

/// The abstract state of a tab.
pub struct TabView {
    pub id: u64,
    pub current: Seq<char>,
    pub back: Seq<Seq<char>>,
    pub forward: Seq<Seq<char>>,
    pub view_mode: ViewMode,
    pub sort: SortConfig,
    pub label: Option<Seq<char>>,
}

pub open spec fn str_views(v: Seq<String>) -> Seq<Seq<char>> {
    v.map_values(|s: String| s@)
}

impl View for TabState {
    type V = TabView;

    open spec fn view(&self) -> TabView {
        TabView {
            id: self.id,
            current: self.current_dir@,
            back: str_views(self.history_back@),
            forward: str_views(self.history_forward@),
            view_mode: self.view_mode,
            sort: self.sort,
            label: match self.label {
                Some(l) => Some(l@),
                None => None,
            },
        }
    }
}

/// The state after navigating to `dir`: unchanged when `dir` is the current
/// directory, otherwise the current directory is pushed on the back stack and
/// the forward stack is emptied.
pub open spec fn after_navigate_to(t: TabView, dir: Seq<char>) -> TabView {
    if same_path(dir, t.current) {
        t
    } else {
        TabView { current: dir, back: t.back.push(t.current), forward: seq![], ..t }
    }
}

/// The state after going back: the top of the back stack becomes current and
/// the old current directory is pushed on the forward stack.
pub open spec fn after_back(t: TabView) -> TabView {
    if t.back.len() == 0 {
        t
    } else {
        TabView { current: t.back.last(), back: t.back.drop_last(), forward: t.forward.push(t.current), ..t }
    }
}

/// The state after going forward, the mirror of [`after_back`].
pub open spec fn after_forward(t: TabView) -> TabView {
    if t.forward.len() == 0 {
        t
    } else {
        TabView { current: t.forward.last(), forward: t.forward.drop_last(), back: t.back.push(t.current), ..t }
    }
}

/// The state after going up one level: navigation to the parent, when there is one.
pub open spec fn after_up(t: TabView) -> TabView {
    match parent_of(t.current) {
        Some(p) => after_navigate_to(t, p),
        None => t,
    }
}

/// The name shown on a tab: its label, else the final component of its directory,
/// else the whole directory path.
pub open spec fn display_name_of(t: TabView) -> Seq<char> {
    match t.label {
        Some(l) => l,
        None => match file_name_of(t.current) {
            Some(n) => n,
            None => t.current,
        },
    }
}

impl TabState {
    /// A new tab showing `dir` with empty history, the Miller view and name sorting.
    pub fn new(id: u64, dir: String) -> (t: Self)
        ensures
            t@.id == id,
            t@.current == dir@,
            t@.back.len() == 0,
            t@.forward.len() == 0,
            t@.view_mode == ViewMode::Miller,
            t@.sort == (SortConfig { by: SortBy::Name, ascending: true }),
            t@.label is None,
    {
        let t = TabState {
            id,
            current_dir: dir,
            history_back: Vec::new(),
            history_forward: Vec::new(),
            view_mode: ViewMode::Miller,
            sort: SortConfig { by: SortBy::Name, ascending: true },
            label: None,
        };
        assert(t@.back =~= Seq::<Seq<char>>::empty());
        assert(t@.forward =~= Seq::<Seq<char>>::empty());
        t
    }

    /// Navigate to a new directory, pushing the current one onto the back stack.
    pub fn navigate_to(&mut self, dir: String)
        ensures
            final(self)@ == after_navigate_to(old(self)@, dir@),
    {
        if path_eq(dir.as_str(), self.current_dir.as_str()) {
            return;
        }
        let mut old_dir = dir;
        std::mem::swap(&mut self.current_dir, &mut old_dir);
        self.history_back.push(old_dir);
        self.history_forward.clear();
        assert(self@.back =~= old(self)@.back.push(old(self)@.current));
        assert(self@.forward =~= Seq::<Seq<char>>::empty());
    }

    /// Navigate up one filesystem level; `false` when the directory has no parent.
    pub fn navigate_up(&mut self) -> (moved: bool)
        ensures
            moved == parent_of(old(self)@.current) is Some,
            final(self)@ == after_up(old(self)@),
    {
        let parent = match path_parent(self.current_dir.as_str()) {
            Some(p) => Some(p.to_owned()),
            None => None,
        };
        match parent {
            Some(p) => {
                self.navigate_to(p);
                true
            },
            None => false,
        }
    }

    /// Go back in history; `false` when there is nothing to go back to.
    pub fn navigate_back(&mut self) -> (moved: bool)
        ensures
            moved == (old(self)@.back.len() > 0),
            final(self)@ == after_back(old(self)@),
    {
        match self.history_back.pop() {
            Some(prev) => {
                let mut current = prev;
                std::mem::swap(&mut self.current_dir, &mut current);
                self.history_forward.push(current);
                assert(self@.back =~= old(self)@.back.drop_last());
                assert(self@.forward =~= old(self)@.forward.push(old(self)@.current));
                true
            },
            None => false,
        }
    }

    /// Go forward in history; `false` when there is nothing to go forward to.
    pub fn navigate_forward(&mut self) -> (moved: bool)
        ensures
            moved == (old(self)@.forward.len() > 0),
            final(self)@ == after_forward(old(self)@),
    {
        match self.history_forward.pop() {
            Some(next) => {
                let mut current = next;
                std::mem::swap(&mut self.current_dir, &mut current);
                self.history_back.push(current);
                assert(self@.forward =~= old(self)@.forward.drop_last());
                assert(self@.back =~= old(self)@.back.push(old(self)@.current));
                true
            },
            None => false,
        }
    }

    pub fn can_go_back(&self) -> (r: bool)
        ensures
            r == (self@.back.len() > 0),
    {
        !self.history_back.is_empty()
    }

    pub fn can_go_forward(&self) -> (r: bool)
        ensures
            r == (self@.forward.len() > 0),
    {
        !self.history_forward.is_empty()
    }

    pub fn can_go_up(&self) -> (r: bool)
        ensures
            r == parent_of(self@.current) is Some,
    {
        path_parent(self.current_dir.as_str()).is_some()
    }

    /// The display name for this tab's label.
    pub fn display_name(&self) -> (r: &str)
        ensures
            r@ == display_name_of(self@),
    {
        match &self.label {
            Some(l) => l.as_str(),
            None => match path_file_name(self.current_dir.as_str()) {
                Some(n) => n,
                None => self.current_dir.as_str(),
            },
        }
    }
}

/// Going back right after navigating to a different directory restores the
/// directory and the back history of before, and leaves the directory navigated
/// to as the only forward entry.
pub proof fn law_back_undoes_navigate(t: TabView, dir: Seq<char>)
    requires
        !same_path(dir, t.current),
    ensures
        after_back(after_navigate_to(t, dir)).current == t.current,
        after_back(after_navigate_to(t, dir)).back == t.back,
        after_back(after_navigate_to(t, dir)).forward == seq![dir],
{
    assert(t.back.push(t.current).drop_last() =~= t.back);
    assert(Seq::<Seq<char>>::empty().push(dir) =~= seq![dir]);
}

/// Going forward right after going back restores the state of before.
pub proof fn law_forward_undoes_back(t: TabView)
    requires
        t.back.len() > 0,
    ensures
        after_forward(after_back(t)) == t,
{
    assert(t.forward.push(t.current).drop_last() =~= t.forward);
    assert(t.back.drop_last().push(t.back.last()) =~= t.back);
}

/// Going back right after going forward restores the state of before.
pub proof fn law_back_undoes_forward(t: TabView)
    requires
        t.forward.len() > 0,
    ensures
        after_back(after_forward(t)) == t,
{
    assert(t.back.push(t.current).drop_last() =~= t.back);
    assert(t.forward.drop_last().push(t.forward.last()) =~= t.forward);
}

/// Navigating to a directory always leaves nothing to go forward to, unless the
/// directory is the current one, in which case nothing changes.
pub proof fn law_navigate_clears_forward(t: TabView, dir: Seq<char>)
    ensures
        same_path(dir, t.current) ==> after_navigate_to(t, dir) == t,
        !same_path(dir, t.current) ==> after_navigate_to(t, dir).forward.len() == 0
            && after_navigate_to(t, dir).current == dir,
{
}

} // verus!
