//! The list of workspaces.
use vstd::prelude::*;
use vstd::string::*;

use crate::text::optional_text;

verus! {

/// A workspace, as far as the window decides about it.
#[derive(Debug, PartialEq)]
pub struct Workspace {
    pub id: String,
    pub name: String,
    /// Pinned to the top of the list.
    pub favorite: bool,
    /// Something happened in it that has not been seen, in no tab in particular.
    pub unread: bool,
    /// The directory that its terminal was in last.
    pub cwd: Option<String>,
    /// The folder that it was opened with.
    pub folder_path: Option<String>,
}

/// What a [`Workspace`] stands for.
pub ghost struct WorkspaceView {
    pub id: Seq<char>,
    pub name: Seq<char>,
    pub favorite: bool,
    pub unread: bool,
    pub cwd: Option<Seq<char>>,
    pub folder_path: Option<Seq<char>>,
}

impl View for Workspace {
    type V = WorkspaceView;

    open spec fn view(&self) -> WorkspaceView {
        WorkspaceView {
            id: self.id@,
            name: self.name@,
            favorite: self.favorite,
            unread: self.unread,
            cwd: optional_text(self.cwd),
            folder_path: optional_text(self.folder_path),
        }
    }
}

/// The views of a list of workspaces.
pub open spec fn workspace_views(workspaces: Seq<Workspace>) -> Seq<WorkspaceView> {
    Seq::new(workspaces.len(), |i: int| workspaces[i]@)
}

/// The workspaces of the window, and which of them is shown.
#[derive(Debug, PartialEq)]
pub struct Workspaces {
    pub list: Vec<Workspace>,
    pub active_idx: usize,
}

impl Workspaces {
    pub open spec fn views(self) -> Seq<WorkspaceView> {
        workspace_views(self.list@)
    }

    /// The workspace that is shown.
    pub open spec fn active(self) -> Option<WorkspaceView> {
        if self.active_idx < self.list@.len() {
            Some(self.list@[self.active_idx as int]@)
        } else {
            None
        }
    }

    pub fn active_workspace(&self) -> (r: Option<&Workspace>)
        ensures
            self.active() == (match r {
                Some(w) => Some(w@),
                None => None,
            }),
            r is Some == (self.active_idx < self.list@.len()),
    {
        if self.active_idx < self.list.len() {
            Some(&self.list[self.active_idx])
        } else {
            None
        }
    }
}

/// The position of the first element that has a property.
pub open spec fn first_where<A>(s: Seq<A>, p: spec_fn(A) -> bool) -> Option<int>
    decreases s.len(),
{
    if s.len() == 0 {
        None
    } else {
        match first_where(s.drop_last(), p) {
            Some(i) => Some(i),
            None => if p(s.last()) {
                Some(s.len() - 1)
            } else {
                None
            },
        }
    }
}

/// What the first position with a property is.
pub proof fn lemma_first_where<A>(s: Seq<A>, p: spec_fn(A) -> bool)
    ensures
        match first_where(s, p) {
            Some(i) => 0 <= i < s.len() && p(s[i]) && forall|j: int|
                0 <= j < i ==> !p(#[trigger] s[j]),
            None => forall|j: int| 0 <= j < s.len() ==> !p(#[trigger] s[j]),
        },
    decreases s.len(),
{
    if s.len() > 0 {
        let front = s.drop_last();
        lemma_first_where(front, p);
        match first_where(front, p) {
            Some(i) => {
                assert(s[i] == front[i]);
                assert forall|j: int| 0 <= j < i implies !p(#[trigger] s[j]) by {
                    assert(front[j] == s[j]);
                }
            },
            None => {
                assert forall|j: int| 0 <= j < s.len() - 1 implies !p(#[trigger] s[j]) by {
                    assert(front[j] == s[j]);
                }
            },
        }
    }
}

/// A position that has a property where no earlier one does is the first.
pub proof fn lemma_is_first<A>(s: Seq<A>, p: spec_fn(A) -> bool, i: int)
    requires
        0 <= i < s.len(),
        p(s[i]),
        forall|j: int| 0 <= j < i ==> !p(#[trigger] s[j]),
    ensures
        first_where(s, p) == Some(i),
{
    lemma_first_where(s, p);
    match first_where(s, p) {
        Some(k) => {
            if k < i {
                assert(!p(s[k]));
            } else if i < k {
                assert(!p(s[i]));
            }
        },
        None => {
            assert(!p(s[i]));
        },
    }
}

pub open spec fn has_id(id: Seq<char>) -> spec_fn(WorkspaceView) -> bool {
    |w: WorkspaceView| w.id == id
}

pub open spec fn has_name(name: Seq<char>) -> spec_fn(WorkspaceView) -> bool {
    |w: WorkspaceView| w.name == name
}

/// The position of a number that stands for `None` where it is missing.
pub open spec fn as_int(i: Option<usize>) -> Option<int> {
    match i {
        Some(i) => Some(i as int),
        None => None,
    }
}

/// The position of the workspace with an identifier.
#[verifier::loop_isolation(false)]
pub fn index_of_id(workspaces: &Vec<Workspace>, id: &str) -> (r: Option<usize>)
    ensures
        as_int(r) == first_where(workspace_views(workspaces@), has_id(id@)),
        r matches Some(i) ==> i < workspaces@.len() && workspaces@[i as int].id@ == id@,
{
    let ghost views = workspace_views(workspaces@);
    let ghost p = has_id(id@);
    let mut i: usize = 0;
    while i < workspaces.len()
        invariant
            i <= workspaces@.len(),
            forall|j: int| 0 <= j < i ==> !p(#[trigger] views[j]),
        decreases workspaces@.len() - i,
    {
        assert(views[i as int] == workspaces@[i as int]@);
        if crate::text::same(workspaces[i].id.as_str(), id) {
            proof {
                lemma_is_first(views, p, i as int);
            }
            return Some(i);
        }
        i += 1;
    }
    proof {
        lemma_first_where(views, p);
    }
    None
}

/// The position of the first workspace with a name.
#[verifier::loop_isolation(false)]
pub fn index_of_name(workspaces: &Vec<Workspace>, name: &str) -> (r: Option<usize>)
    ensures
        as_int(r) == first_where(workspace_views(workspaces@), has_name(name@)),
        r matches Some(i) ==> i < workspaces@.len() && workspaces@[i as int].name@ == name@,
{
    let ghost views = workspace_views(workspaces@);
    let ghost p = has_name(name@);
    let mut i: usize = 0;
    while i < workspaces.len()
        invariant
            i <= workspaces@.len(),
            forall|j: int| 0 <= j < i ==> !p(#[trigger] views[j]),
        decreases workspaces@.len() - i,
    {
        assert(views[i as int] == workspaces@[i as int]@);
        if crate::text::same(workspaces[i].name.as_str(), name) {
            proof {
                lemma_is_first(views, p, i as int);
            }
            return Some(i);
        }
        i += 1;
    }
    proof {
        lemma_first_where(views, p);
    }
    None
}

/// The favorite marks of a list of workspaces.
pub open spec fn favorite_flags(workspaces: Seq<WorkspaceView>) -> Seq<bool> {
    Seq::new(workspaces.len(), |i: int| workspaces[i].favorite)
}

/// How many marks are set before the first that is not.
pub open spec fn leading(flags: Seq<bool>) -> nat
    decreases flags.len(),
{
    if flags.len() > 0 && flags[0] {
        1 + leading(flags.skip(1))
    } else {
        0
    }
}

/// What the number of leading marks is.
pub proof fn lemma_leading(flags: Seq<bool>)
    ensures
        leading(flags) <= flags.len(),
        forall|i: int| 0 <= i < leading(flags) ==> #[trigger] flags[i],
        leading(flags) < flags.len() ==> !flags[leading(flags) as int],
    decreases flags.len(),
{
    if flags.len() > 0 && flags[0] {
        lemma_leading(flags.skip(1));
        assert forall|i: int| 0 <= i < leading(flags) implies #[trigger] flags[i] by {
            if i > 0 {
                assert(flags.skip(1)[i - 1] == flags[i]);
            }
        }
    }
}

proof fn lemma_leading_is(flags: Seq<bool>, n: int)
    requires
        0 <= n <= flags.len(),
        forall|i: int| 0 <= i < n ==> #[trigger] flags[i],
        n < flags.len() ==> !flags[n],
    ensures
        leading(flags) == n,
{
    lemma_leading(flags);
    if leading(flags) < n {
        assert(flags[leading(flags) as int]);
    }
}

/// How many workspaces are pinned at the top of the list.
pub fn favorites_prefix_len(flags: &Vec<bool>) -> (r: usize)
    ensures
        r == leading(flags@),
        r <= flags@.len(),
{
    let mut i: usize = 0;
    while i < flags.len() && flags[i]
        invariant
            i <= flags@.len(),
            forall|j: int| 0 <= j < i ==> #[trigger] flags@[j],
        decreases flags@.len() - i,
    {
        i += 1;
    }
    proof {
        lemma_leading_is(flags@, i as int);
    }
    i
}

/// A place in the list that keeps pinned workspaces on top: no later than the end
/// of the pinned ones for a pinned workspace, no earlier for another.
pub open spec fn pinned_place(flags: Seq<bool>, favorite: bool, proposed: int) -> int {
    let top = leading(flags) as int;
    if favorite {
        if proposed < top {
            proposed
        } else {
            top
        }
    } else {
        if proposed > top {
            proposed
        } else {
            top
        }
    }
}

pub fn clamp_workspace_insert_index_for_pinning(
    favorite_flags_after_removal: &Vec<bool>,
    moving_is_favorite: bool,
    proposed_index: usize,
) -> (r: usize)
    ensures
        r == pinned_place(favorite_flags_after_removal@, moving_is_favorite, proposed_index as int),
        r <= favorite_flags_after_removal@.len() || r == proposed_index,
{
    let top: usize = favorites_prefix_len(favorite_flags_after_removal);
    if moving_is_favorite {
        if proposed_index < top {
            proposed_index
        } else {
            top
        }
    } else {
        if proposed_index > top {
            proposed_index
        } else {
            top
        }
    }
}

fn flags_of(workspaces: &Vec<Workspace>) -> (r: Vec<bool>)
    ensures
        r@ == favorite_flags(workspace_views(workspaces@)),
{
    let mut flags: Vec<bool> = Vec::new();
    let mut i: usize = 0;
    while i < workspaces.len()
        invariant
            i <= workspaces@.len(),
            flags@ =~= favorite_flags(workspace_views(workspaces@)).take(i as int),
        decreases workspaces@.len() - i,
    {
        flags.push(workspaces[i].favorite);
        i += 1;
    }
    assert(flags@ =~= favorite_flags(workspace_views(workspaces@)));
    flags
}

/// A list of workspaces and the position of the one that is shown.
pub ghost struct Arrangement {
    pub list: Seq<WorkspaceView>,
    pub active: int,
}

/// The position at which the workspace that was shown is found again by its
/// identifier.
pub open spec fn followed(before: Arrangement, list: Seq<WorkspaceView>) -> int {
    if 0 <= before.active < before.list.len() {
        match first_where(list, has_id(before.list[before.active].id)) {
            Some(i) => i,
            None => before.active,
        }
    } else {
        before.active
    }
}

/// The list after dragging one workspace onto another, above or below it: the
/// moved one goes next to the other, but pinned workspaces stay on top. `None`
/// where there is nothing to move.
pub open spec fn reordered(
    before: Arrangement,
    source: Seq<char>,
    target: Seq<char>,
    below: bool,
) -> Option<Arrangement> {
    match (
        first_where(before.list, has_id(source)),
        first_where(before.list, has_id(target)),
    ) {
        (Some(from), Some(onto)) => if from == onto {
            None
        } else {
            let rest = before.list.remove(from);
            let moving = before.list[from];
            let at = first_where(rest, has_id(target))->0 + if below {
                1int
            } else {
                0int
            };
            let list = rest.insert(pinned_place(favorite_flags(rest), moving.favorite, at), moving);
            Some(Arrangement { list, active: followed(before, list) })
        },
        _ => None,
    }
}

/// The list after pinning or unpinning a workspace: it goes to the end of the
/// pinned ones. `None` where there is no such workspace.
pub open spec fn favorite_toggled(before: Arrangement, id: Seq<char>) -> Option<Arrangement> {
    match first_where(before.list, has_id(id)) {
        Some(at) => {
            let rest = before.list.remove(at);
            let moving = WorkspaceView {
                favorite: !before.list[at].favorite,
                ..before.list[at]
            };
            let list = rest.insert(leading(favorite_flags(rest)) as int, moving);
            Some(Arrangement { list, active: followed(before, list) })
        },
        None => None,
    }
}

/// The identifiers of a list of workspaces.
pub open spec fn ids(workspaces: Seq<WorkspaceView>) -> Seq<Seq<char>> {
    Seq::new(workspaces.len(), |i: int| workspaces[i].id)
}

pub open spec fn is_text(text: Seq<char>) -> spec_fn(Seq<char>) -> bool {
    |x: Seq<char>| x == text
}

/// The workspace to show after one was removed: the preferred one if it is there,
/// else the one that took the place of the removed one, or the last.
pub open spec fn next_active(
    remaining: Seq<Seq<char>>,
    preferred: Option<Seq<char>>,
    removed: int,
) -> int {
    let slot = if removed < remaining.len() {
        removed
    } else {
        remaining.len() - 1
    };
    if remaining.len() == 0 {
        0
    } else {
        match preferred {
            Some(id) => match first_where(remaining, is_text(id)) {
                Some(i) => i,
                None => slot,
            },
            None => slot,
        }
    }
}

/// The contents of a list of strings.
pub open spec fn texts(strings: Seq<String>) -> Seq<Seq<char>> {
    Seq::new(strings.len(), |i: int| strings[i]@)
}

#[verifier::loop_isolation(false)]
pub fn next_active_workspace_index(
    remaining_workspace_ids: &Vec<String>,
    preferred_active_workspace_id: Option<&str>,
    removed_idx: usize,
) -> (r: usize)
    ensures
        r == next_active(
            texts(remaining_workspace_ids@),
            crate::text::optional_str(preferred_active_workspace_id),
            removed_idx as int,
        ),
        remaining_workspace_ids@.len() > 0 ==> r < remaining_workspace_ids@.len(),
{
    let ghost all = texts(remaining_workspace_ids@);
    if remaining_workspace_ids.len() == 0 {
        return 0;
    }
    if let Some(preferred) = preferred_active_workspace_id {
        let ghost p = is_text(preferred@);
        let mut i: usize = 0;
        while i < remaining_workspace_ids.len()
            invariant
                i <= remaining_workspace_ids@.len(),
                forall|j: int| 0 <= j < i ==> !p(#[trigger] all[j]),
            decreases remaining_workspace_ids@.len() - i,
        {
            assert(all[i as int] == remaining_workspace_ids@[i as int]@);
            if crate::text::same(remaining_workspace_ids[i].as_str(), preferred) {
                proof {
                    lemma_is_first(all, p, i as int);
                }
                return i;
            }
            i += 1;
        }
        proof {
            lemma_first_where(all, p);
        }
    }
    if removed_idx < remaining_workspace_ids.len() {
        removed_idx
    } else {
        remaining_workspace_ids.len() - 1
    }
}

/// The list after closing a workspace. `None` where there is no such workspace.
pub open spec fn closed(
    before: Arrangement,
    id: Seq<char>,
    preferred: Option<Seq<char>>,
) -> Option<Arrangement> {
    match first_where(before.list, has_id(id)) {
        Some(at) => {
            let rest = before.list.remove(at);
            let wanted = match preferred {
                Some(id) => Some(id),
                None => shown_id(before),
            };
            Some(Arrangement { list: rest, active: next_active(ids(rest), wanted, at) })
        },
        None => None,
    }
}

/// What switching to a workspace comes to.
#[derive(Clone, Copy, Debug, PartialEq, Eq, Structural)]
pub enum SwitchOutcome {
    /// There is no such workspace: nothing happens.
    OutOfRange,
    /// It is shown already: its visible tab counts as seen.
    AlreadyActive,
    /// It is shown now: its visible tab counts as seen, it gets the focus at the
    /// next idle moment, and the session is saved.
    Switched,
}

proof fn lemma_remove_view(list: Seq<Workspace>, i: int)
    requires
        0 <= i < list.len(),
    ensures
        workspace_views(list.remove(i)) == workspace_views(list).remove(i),
{
    assert(workspace_views(list.remove(i)) =~= workspace_views(list).remove(i));
}

proof fn lemma_insert_view(list: Seq<Workspace>, i: int, w: Workspace)
    requires
        0 <= i <= list.len(),
    ensures
        workspace_views(list.insert(i, w)) == workspace_views(list).insert(i, w@),
{
    assert(workspace_views(list.insert(i, w)) =~= workspace_views(list).insert(i, w@));
}

impl Workspaces {
    pub open spec fn arrangement(self) -> Arrangement {
        Arrangement { list: self.views(), active: self.active_idx as int }
    }

    /// One of the workspaces is shown, if there are any.
    pub open spec fn wf(self) -> bool {
        self.list@.len() > 0 ==> self.active_idx < self.list@.len()
    }

    /// No workspaces.
    pub fn new() -> (r: Self)
        ensures
            r.list@.len() == 0,
            r.active_idx == 0,
            r.wf(),
    {
        Workspaces { list: Vec::new(), active_idx: 0 }
    }

    /// Adds a workspace at the end and shows it.
    pub fn push(&mut self, workspace: Workspace)
        ensures
            final(self).views() == old(self).views().push(workspace@),
            final(self).active_idx == old(self).list@.len(),
            final(self).wf(),
    {
        self.active_idx = self.list.len();
        self.list.push(workspace);
        assert(self.views() =~= old(self).views().push(workspace@));
    }

    /// The identifier of the workspace that is shown.
    pub fn active_id(&self) -> (r: Option<String>)
        ensures
            optional_text(r) == shown_id(self.arrangement()),
    {
        match self.active_workspace() {
            Some(workspace) => Some(workspace.id.clone()),
            None => None,
        }
    }

    /// Shows the workspace again that was shown before, by its identifier.
    fn follow(&mut self, Ghost(before): Ghost<Arrangement>, id: Option<String>)
        requires
            before.active == old(self).active_idx,
            match id {
                Some(id) => 0 <= before.active < before.list.len() && id@
                    == before.list[before.active].id,
                None => !(0 <= before.active < before.list.len()),
            },
        ensures
            final(self).list == old(self).list,
            final(self).active_idx == followed(before, old(self).views()),
    {
        if let Some(id) = id {
            if let Some(i) = index_of_id(&self.list, id.as_str()) {
                self.active_idx = i;
            }
        }
    }

    /// Moves a workspace next to another. Says whether it moved.
    pub fn reorder_workspace_by_id(
        &mut self,
        source_id: &str,
        target_id: &str,
        drop_below: bool,
    ) -> (r: bool)
        ensures
            match reordered(old(self).arrangement(), source_id@, target_id@, drop_below) {
                Some(after) => r && final(self).arrangement() == after,
                None => !r && *final(self) == *old(self),
            },
            r && distinct_ids(old(self).views()) && pinned_first(old(self).views())
                ==> stands_beside(final(self).views(), source_id@, target_id@, drop_below),
    {
        let ghost before = self.arrangement();
        let source = match index_of_id(&self.list, source_id) {
            Some(i) => i,
            None => {
                return false;
            },
        };
        let target = match index_of_id(&self.list, target_id) {
            Some(i) => i,
            None => {
                return false;
            },
        };
        if source == target {
            return false;
        }
        let active_id = self.active_id();
        proof {
            lemma_remove_view(self.list@, source as int);
        }
        let moving = self.list.remove(source);
        let ghost rest = before.list.remove(source as int);
        proof {
            let k = if target < source {
                target as int
            } else {
                target - 1
            };
            assert(rest[k] == before.list[target as int]);
            lemma_first_where(rest, has_id(target_id@));
            if first_where(rest, has_id(target_id@)) is None {
                assert(!has_id(target_id@)(rest[k]));
            }
        }
        let onto = match index_of_id(&self.list, target_id) {
            Some(i) => i,
            None => {
                assert(false);
                0
            },
        };
        let raw: usize = if drop_below {
            onto + 1
        } else {
            onto
        };
        let flags = flags_of(&self.list);
        let at = clamp_workspace_insert_index_for_pinning(&flags, moving.favorite, raw);
        proof {
            lemma_insert_view(self.list@, at as int, moving);
        }
        self.list.insert(at, moving);
        self.follow(Ghost(before), active_id);
        proof {
            if distinct_ids(before.list) && pinned_first(before.list) {
                lemma_dropped_beside(before, source_id@, target_id@, drop_below);
            }
        }
        true
    }

    /// Pins or unpins a workspace. Says whether there is such a workspace.
    pub fn toggle_workspace_favorite(&mut self, workspace_id: &str) -> (r: bool)
        ensures
            match favorite_toggled(old(self).arrangement(), workspace_id@) {
                Some(after) => r && final(self).arrangement() == after,
                None => !r && *final(self) == *old(self),
            },
    {
        let ghost before = self.arrangement();
        let at = match index_of_id(&self.list, workspace_id) {
            Some(i) => i,
            None => {
                return false;
            },
        };
        let active_id = self.active_id();
        proof {
            lemma_remove_view(self.list@, at as int);
        }
        let mut moving = self.list.remove(at);
        moving.favorite = !moving.favorite;
        let flags = flags_of(&self.list);
        let place = favorites_prefix_len(&flags);
        proof {
            lemma_insert_view(self.list@, place as int, moving);
        }
        self.list.insert(place, moving);
        self.follow(Ghost(before), active_id);
        true
    }

    /// Closes a workspace. `preferred` names the workspace to show then; without
    /// it the one that is shown stays. Says whether there is such a workspace.
    pub fn close_workspace_by_id(&mut self, id: &str, preferred: Option<&str>) -> (r: bool)
        ensures
            match closed(
                old(self).arrangement(),
                id@,
                crate::text::optional_str(preferred),
            ) {
                Some(after) => r && final(self).arrangement() == after && final(self).wf(),
                None => !r && *final(self) == *old(self),
            },
    {
        let ghost before = self.arrangement();
        let at = match index_of_id(&self.list, id) {
            Some(i) => i,
            None => {
                return false;
            },
        };
        let active_id = self.active_id();
        proof {
            lemma_remove_view(self.list@, at as int);
        }
        self.list.remove(at);
        let ghost rest = before.list.remove(at as int);
        let remaining = self.workspace_ids();
        assert(texts(remaining@) =~= ids(rest));
        self.active_idx = match preferred {
            Some(preferred) => next_active_workspace_index(&remaining, Some(preferred), at),
            None => match active_id {
                Some(active) => next_active_workspace_index(&remaining, Some(active.as_str()), at),
                None => next_active_workspace_index(&remaining, None, at),
            },
        };
        true
    }

    fn workspace_ids(&self) -> (r: Vec<String>)
        ensures
            texts(r@) == ids(self.views()),
    {
        let mut out: Vec<String> = Vec::new();
        let mut i: usize = 0;
        while i < self.list.len()
            invariant
                i <= self.list@.len(),
                texts(out@) =~= ids(self.views()).take(i as int),
            decreases self.list@.len() - i,
        {
            let ghost before = out@;
            out.push(self.list[i].id.clone());
            assert(texts(out@) =~= texts(before).push(self.views()[i as int].id));
            i += 1;
        }
        assert(texts(out@) =~= ids(self.views()));
        out
    }

    /// Shows another workspace.
    pub fn switch_workspace(&mut self, idx: usize) -> (r: SwitchOutcome)
        ensures
            r == (if idx >= old(self).list@.len() {
                SwitchOutcome::OutOfRange
            } else if idx == old(self).active_idx {
                SwitchOutcome::AlreadyActive
            } else {
                SwitchOutcome::Switched
            }),
            final(self).list == old(self).list,
            final(self).active_idx == (if idx < old(self).list@.len() {
                idx
            } else {
                old(self).active_idx
            }),
    {
        if idx >= self.list.len() {
            return SwitchOutcome::OutOfRange;
        }
        if idx == self.active_idx {
            return SwitchOutcome::AlreadyActive;
        }
        self.active_idx = idx;
        SwitchOutcome::Switched
    }

    /// The workspace some steps on from the one that is shown, around the end of
    /// the list; none where there is no other.
    pub fn cycle_target(&self, direction: i32) -> (r: Option<usize>)
        ensures
            r is Some == (self.list@.len() > 1),
            r matches Some(i) ==> i == (self.active_idx + direction) % self.list@.len() as int,
            r matches Some(i) ==> i < self.list@.len(),
            r matches Some(i) ==> (direction == 1 && self.active_idx + 1 < self.list@.len() ==> i
                == self.active_idx + 1),
            r matches Some(i) ==> (direction == -1 && 0 < self.active_idx < self.list@.len() ==> i
                == self.active_idx - 1),
    {
        let len: usize = self.list.len();
        if len <= 1 {
            return None;
        }
        let sum: i128 = self.active_idx as i128 + direction as i128;
        proof {
            if 0 <= sum < len {
                vstd::arithmetic::div_mod::lemma_small_mod(sum as nat, len as nat);
            }
        }
        if sum >= 0 {
            Some((sum as u128 % len as u128) as usize)
        } else {
            let back: u128 = (-sum) as u128 % len as u128;
            proof {
                lemma_negative_remainder(sum as int, len as int);
            }
            if back == 0 {
                Some(0)
            } else {
                Some((len as u128 - back) as usize)
            }
        }
    }

    /// The position of the last workspace.
    pub fn last_workspace(&self) -> (r: Option<usize>)
        ensures
            r == (if self.list@.len() == 0 {
                None
            } else {
                Some((self.list@.len() - 1) as usize)
            }),
    {
        if self.list.len() == 0 {
            None
        } else {
            Some(self.list.len() - 1)
        }
    }

    /// The workspace to show when a session is restored: the one that was shown,
    /// or the last where there are fewer.
    pub fn restore_target(&self, index: usize) -> (r: Option<usize>)
        ensures
            r == (if self.list@.len() == 0 {
                None
            } else if index < self.list@.len() {
                Some(index)
            } else {
                Some((self.list@.len() - 1) as usize)
            }),
    {
        if self.list.len() == 0 {
            None
        } else if index < self.list.len() {
            Some(index)
        } else {
            Some(self.list.len() - 1)
        }
    }

    /// Notes the directory that the terminal of a workspace is in now. Says whether
    /// there is such a workspace.
    pub fn set_cwd(&mut self, workspace_id: &str, pwd: &str) -> (r: bool)
        ensures
            final(self).active_idx == old(self).active_idx,
            match first_where(old(self).views(), has_id(workspace_id@)) {
                Some(i) => r && final(self).views() == old(self).views().update(
                    i,
                    WorkspaceView { cwd: Some(pwd@), ..old(self).views()[i] },
                ),
                None => !r && *final(self) == *old(self),
            },
            forall|j: int|
                0 <= j < old(self).views().len() && (#[trigger] old(self).views()[j]).id
                    != workspace_id@ ==> final(self).views()[j] == old(self).views()[j],
            final(self).views().len() == old(self).views().len(),
    {
        match index_of_id(&self.list, workspace_id) {
            Some(i) => {
                self.list[i].cwd = Some(pwd.to_owned());
                assert(self.views() =~= old(self).views().update(
                    i as int,
                    WorkspaceView { cwd: Some(pwd@), ..old(self).views()[i as int] },
                ));
                true
            },
            None => false,
        }
    }

    /// Gives the workspace at a position another name.
    pub fn rename_at(&mut self, index: usize, name: &str)
        requires
            index < old(self).list@.len(),
        ensures
            final(self).active_idx == old(self).active_idx,
            final(self).views() == old(self).views().update(
                index as int,
                WorkspaceView { name: name@, ..old(self).views()[index as int] },
            ),
    {
        self.list[index].name = name.to_owned();
        assert(self.views() =~= old(self).views().update(
            index as int,
            WorkspaceView { name: name@, ..old(self).views()[index as int] },
        ));
    }

    /// Ends the renaming of a workspace with what was typed: white space around
    /// it is dropped, and nothing typed means no change. Says whether the session
    /// is to be saved, and with which label.
    pub fn commit_rename(&mut self, workspace_id: &str, typed: &str) -> (r: Option<String>)
        ensures
            final(self).active_idx == old(self).active_idx,
            ({
                let name = crate::text::trimmed(typed@);
                if name.len() == 0 {
                    r is None && *final(self) == *old(self)
                } else {
                    &&& r matches Some(label) && label@ == name
                    &&& match first_where(old(self).views(), has_id(workspace_id@)) {
                        Some(i) => final(self).views() == old(self).views().update(
                            i,
                            WorkspaceView { name, ..old(self).views()[i] },
                        ),
                        None => *final(self) == *old(self),
                    }
                }
            }),
            forall|j: int|
                0 <= j < old(self).views().len() && (#[trigger] old(self).views()[j]).id
                    != workspace_id@ ==> final(self).views()[j] == old(self).views()[j],
            final(self).views().len() == old(self).views().len(),
    {
        let name = crate::text::trim(typed);
        if name.is_empty() {
            return None;
        }
        if let Some(i) = index_of_id(&self.list, workspace_id) {
            self.rename_at(i, name);
        }
        Some(name.to_owned())
    }
}

proof fn lemma_negative_remainder(sum: int, len: int)
    requires
        sum < 0,
        len > 0,
    ensures
        (-sum) % len == 0 ==> sum % len == 0,
        (-sum) % len != 0 ==> sum % len == len - (-sum) % len,
{
    let q = (-sum) / len;
    let m = (-sum) % len;
    vstd::arithmetic::div_mod::lemma_fundamental_div_mod(-sum, len);
    assert(sum == -(len * q) - m);
    if m == 0 {
        assert(sum == len * (-q)) by (nonlinear_arith)
            requires
                sum == -(len * q) - m,
                m == 0,
        ;
        vstd::arithmetic::div_mod::lemma_fundamental_div_mod_converse(sum, len, -q, 0);
    } else {
        assert(sum == len * (-q - 1) + (len - m)) by (nonlinear_arith)
            requires
                sum == -(len * q) - m,
        ;
        vstd::arithmetic::div_mod::lemma_fundamental_div_mod_converse(sum, len, -q - 1, len - m);
    }
}

/// Pinned workspaces come before all others.
pub open spec fn pinned_first(list: Seq<WorkspaceView>) -> bool {
    forall|i: int, j: int|
        0 <= i < j < list.len() && (#[trigger] list[j]).favorite ==> (#[trigger] list[i]).favorite
}

/// No two workspaces have the same identifier.
pub open spec fn distinct_ids(list: Seq<WorkspaceView>) -> bool {
    forall|i: int, j: int|
        0 <= i < list.len() && 0 <= j < list.len() && (#[trigger] list[i]).id == (
        #[trigger] list[j]).id ==> i == j
}

proof fn lemma_pinned_insert(rest: Seq<WorkspaceView>, at: int, moving: WorkspaceView)
    requires
        pinned_first(rest),
        0 <= at <= rest.len(),
        moving.favorite ==> at <= leading(favorite_flags(rest)),
        !moving.favorite ==> at >= leading(favorite_flags(rest)),
    ensures
        pinned_first(rest.insert(at, moving)),
{
    let flags = favorite_flags(rest);
    let list = rest.insert(at, moving);
    let top = leading(flags) as int;
    lemma_leading(flags);
    assert forall|k: int| 0 <= k < rest.len() implies (#[trigger] rest[k]).favorite == (k
        < top) by {
        assert(flags[k] == rest[k].favorite);
        if k >= top && rest[k].favorite {
            assert(flags[top] == rest[top].favorite);
            if k > top {
                assert(rest[top].favorite);
            }
        }
    }
    assert forall|i: int, j: int|
        0 <= i < j < list.len() && (#[trigger] list[j]).favorite implies (
    #[trigger] list[i]).favorite by {
        let a = if i < at {
            rest[i]
        } else if i == at {
            moving
        } else {
            rest[i - 1]
        };
        let b = if j < at {
            rest[j]
        } else if j == at {
            moving
        } else {
            rest[j - 1]
        };
        assert(list[i] == a);
        assert(list[j] == b);
    }
}

proof fn lemma_pinned_remove(list: Seq<WorkspaceView>, at: int)
    requires
        pinned_first(list),
        0 <= at < list.len(),
    ensures
        pinned_first(list.remove(at)),
{
    let rest = list.remove(at);
    assert forall|i: int, j: int|
        0 <= i < j < rest.len() && (#[trigger] rest[j]).favorite implies (
    #[trigger] rest[i]).favorite by {
        let a = if i < at {
            i
        } else {
            i + 1
        };
        let b = if j < at {
            j
        } else {
            j + 1
        };
        assert(rest[i] == list[a]);
        assert(rest[j] == list[b]);
    }
}

/// Dragging a workspace never puts one that is not pinned above a pinned one.
pub proof fn lemma_reorder_keeps_pinned_first(
    before: Arrangement,
    source: Seq<char>,
    target: Seq<char>,
    below: bool,
)
    requires
        pinned_first(before.list),
    ensures
        reordered(before, source, target, below) matches Some(after) ==> pinned_first(after.list),
{
    if let Some(after) = reordered(before, source, target, below) {
        lemma_first_where(before.list, has_id(source));
        lemma_first_where(before.list, has_id(target));
        let from = first_where(before.list, has_id(source))->0;
        let rest = before.list.remove(from);
        lemma_pinned_remove(before.list, from);
        lemma_target_remains(before.list, source, target);
        lemma_leading(favorite_flags(rest));
        let at = first_where(rest, has_id(target))->0 + if below {
            1int
        } else {
            0int
        };
        lemma_pinned_insert(
            rest,
            pinned_place(favorite_flags(rest), before.list[from].favorite, at),
            before.list[from],
        );
    }
}

/// The workspace that another is dragged onto is still there when the dragged one
/// is taken out.
proof fn lemma_target_remains(list: Seq<WorkspaceView>, source: Seq<char>, target: Seq<char>)
    requires
        first_where(list, has_id(source)) is Some,
        first_where(list, has_id(target)) is Some,
        first_where(list, has_id(source)) != first_where(list, has_id(target)),
    ensures
        ({
            let rest = list.remove(first_where(list, has_id(source))->0);
            first_where(rest, has_id(target)) matches Some(i) && 0 <= i < rest.len()
        }),
{
    lemma_first_where(list, has_id(source));
    lemma_first_where(list, has_id(target));
    let from = first_where(list, has_id(source))->0;
    let onto = first_where(list, has_id(target))->0;
    let rest = list.remove(from);
    let k = if onto < from {
        onto
    } else {
        onto - 1
    };
    assert(rest[k] == list[onto]);
    lemma_first_where(rest, has_id(target));
    if first_where(rest, has_id(target)) is None {
        assert(!has_id(target)(rest[k]));
    }
}

/// Pinning or unpinning a workspace keeps the pinned ones on top.
pub proof fn lemma_toggle_keeps_pinned_first(before: Arrangement, id: Seq<char>)
    requires
        pinned_first(before.list),
    ensures
        favorite_toggled(before, id) matches Some(after) ==> pinned_first(after.list),
{
    lemma_first_where(before.list, has_id(id));
    if let Some(at) = first_where(before.list, has_id(id)) {
        let rest = before.list.remove(at);
        lemma_pinned_remove(before.list, at);
        lemma_leading(favorite_flags(rest));
        let moving = WorkspaceView { favorite: !before.list[at].favorite, ..before.list[at] };
        lemma_pinned_insert(rest, leading(favorite_flags(rest)) as int, moving);
    }
}

/// Dragging a workspace keeps all workspaces as they are: only their order
/// changes.
pub proof fn lemma_reorder_permutes(
    before: Arrangement,
    source: Seq<char>,
    target: Seq<char>,
    below: bool,
)
    ensures
        reordered(before, source, target, below) matches Some(after) ==> after.list.to_multiset()
            == before.list.to_multiset(),
{
    if let Some(after) = reordered(before, source, target, below) {
        lemma_first_where(before.list, has_id(source));
        lemma_first_where(before.list, has_id(target));
        let from = first_where(before.list, has_id(source))->0;
        let rest = before.list.remove(from);
        lemma_target_remains(before.list, source, target);
        lemma_leading(favorite_flags(rest));
        let at = first_where(rest, has_id(target))->0 + if below {
            1int
        } else {
            0int
        };
        let place = pinned_place(favorite_flags(rest), before.list[from].favorite, at);
        lemma_insert_multiset(rest, place, before.list[from]);
        lemma_insert_multiset(rest, from, before.list[from]);
        assert(rest.insert(from, before.list[from]) =~= before.list);
    }
}

proof fn lemma_insert_multiset(s: Seq<WorkspaceView>, at: int, x: WorkspaceView)
    requires
        0 <= at <= s.len(),
    ensures
        s.insert(at, x).to_multiset() == s.to_multiset().insert(x),
{
    broadcast use vstd::seq_lib::group_to_multiset_ensures;

    assert(s.insert(at, x).remove(at) =~= s);
    assert(s.insert(at, x)[at] == x);
    assert(s.insert(at, x).to_multiset().remove(x) =~= s.to_multiset());
    assert(s.insert(at, x).to_multiset().count(x) > 0) by {
        assert(s.insert(at, x).contains(x));
    }
    assert(s.insert(at, x).to_multiset() =~= s.to_multiset().insert(x));
}

/// Dragging a workspace does not change which one is shown.
pub proof fn lemma_reorder_keeps_active(
    before: Arrangement,
    source: Seq<char>,
    target: Seq<char>,
    below: bool,
)
    requires
        distinct_ids(before.list),
        0 <= before.active < before.list.len(),
    ensures
        reordered(before, source, target, below) matches Some(after) ==> {
            &&& 0 <= after.active < after.list.len()
            &&& after.list[after.active] == before.list[before.active]
        },
{
    if let Some(after) = reordered(before, source, target, below) {
        lemma_first_where(before.list, has_id(source));
        lemma_first_where(before.list, has_id(target));
        let from = first_where(before.list, has_id(source))->0;
        let rest = before.list.remove(from);
        lemma_target_remains(before.list, source, target);
        lemma_leading(favorite_flags(rest));
        let at = first_where(rest, has_id(target))->0 + if below {
            1int
        } else {
            0int
        };
        let place = pinned_place(favorite_flags(rest), before.list[from].favorite, at);
        lemma_moved_active_found(before, from, place, before.list[from]);
    }
}

/// Where a moved element and the shown one are after a move, by identifier.
proof fn lemma_moved_active_found(
    before: Arrangement,
    from: int,
    place: int,
    moving: WorkspaceView,
)
    requires
        distinct_ids(before.list),
        0 <= before.active < before.list.len(),
        0 <= from < before.list.len(),
        0 <= place < before.list.len(),
        moving.id == before.list[from].id,
    ensures
        ({
            let list = before.list.remove(from).insert(place, moving);
            let active = followed(before, list);
            &&& 0 <= active < list.len()
            &&& list[active] == (if before.active == from {
                moving
            } else {
                before.list[before.active]
            })
        }),
{
    let rest = before.list.remove(from);
    let list = rest.insert(place, moving);
    let id = before.list[before.active].id;
    let p = has_id(id);
    let in_rest = if before.active < from {
        before.active
    } else {
        before.active - 1
    };
    let k = if before.active == from {
        place
    } else if in_rest < place {
        in_rest
    } else {
        in_rest + 1
    };
    assert(list[k].id == id);
    assert forall|j: int| 0 <= j < k implies !p(#[trigger] list[j]) by {
        let origin = if j < place {
            if j < from {
                j
            } else {
                j + 1
            }
        } else if j == place {
            from
        } else {
            if j - 1 < from {
                j - 1
            } else {
                j
            }
        };
        assert(list[j].id == before.list[origin].id);
        assert(origin != before.active);
    }
    lemma_is_first(list, p, k);
}

/// Pinning or unpinning a workspace does not change which one is shown.
pub proof fn lemma_toggle_keeps_active(before: Arrangement, id: Seq<char>)
    requires
        distinct_ids(before.list),
        0 <= before.active < before.list.len(),
    ensures
        favorite_toggled(before, id) matches Some(after) ==> {
            &&& 0 <= after.active < after.list.len()
            &&& after.list[after.active].id == before.list[before.active].id
        },
{
    lemma_first_where(before.list, has_id(id));
    if let Some(at) = first_where(before.list, has_id(id)) {
        let rest = before.list.remove(at);
        lemma_leading(favorite_flags(rest));
        let moving = WorkspaceView { favorite: !before.list[at].favorite, ..before.list[at] };
        lemma_moved_active_found(before, at, leading(favorite_flags(rest)) as int, moving);
    }
}

/// Closing another workspace does not change which one is shown, and after any
/// closing one is shown as long as there is one.
pub proof fn lemma_close_keeps_active(before: Arrangement, id: Seq<char>)
    requires
        distinct_ids(before.list),
        0 <= before.active < before.list.len(),
    ensures
        closed(before, id, None) matches Some(after) ==> {
            &&& after.list.len() == before.list.len() - 1
            &&& after.list.len() > 0 ==> 0 <= after.active < after.list.len()
            &&& before.list[before.active].id != id ==> after.list[after.active]
                == before.list[before.active]
        },
{
    lemma_first_where(before.list, has_id(id));
    if let Some(at) = first_where(before.list, has_id(id)) {
        let rest = before.list.remove(at);
        let wanted = before.list[before.active].id;
        let all = ids(rest);
        let p = is_text(wanted);
        lemma_first_where(all, p);
        if wanted != id {
            let k = if before.active < at {
                before.active
            } else {
                before.active - 1
            };
            assert(rest[k] == before.list[before.active]);
            assert(all[k] == wanted);
            assert forall|j: int| 0 <= j < k implies !p(#[trigger] all[j]) by {
                let origin = if j < at {
                    j
                } else {
                    j + 1
                };
                assert(rest[j] == before.list[origin]);
            }
            lemma_is_first(all, p, k);
        }
    }
}

/// The identifier of the workspace that is shown.
pub open spec fn shown_id(before: Arrangement) -> Option<Seq<char>> {
    if 0 <= before.active < before.list.len() {
        Some(before.list[before.active].id)
    } else {
        None
    }
}

/// A workspace that was opened for a tab and closed again, because the tab could
/// not move there, leaves the list and the shown workspace as they were.
pub proof fn lemma_abandoned_workspace_leaves_no_trace(before: Arrangement, opened: WorkspaceView)
    requires
        distinct_ids(before.list),
        0 <= before.active < before.list.len() || (before.list.len() == 0 && before.active == 0),
        first_where(before.list, has_id(opened.id)) is None,
    ensures
        closed(
            Arrangement {
                list: before.list.push(opened),
                active: before.list.len() as int,
            },
            opened.id,
            shown_id(before),
        ) == Some(before),
{
    let list = before.list.push(opened);
    let last = before.list.len() as int;
    lemma_first_where(before.list, has_id(opened.id));
    assert forall|j: int| 0 <= j < last implies !has_id(opened.id)(#[trigger] list[j]) by {
        assert(list[j] == before.list[j]);
    }
    lemma_is_first(list, has_id(opened.id), last);
    assert(list.remove(last) =~= before.list);
    if before.list.len() > 0 {
        let all = ids(before.list);
        let p = is_text(before.list[before.active].id);
        assert forall|j: int| 0 <= j < before.active implies !p(#[trigger] all[j]) by {
            assert(all[j] == before.list[j].id);
        }
        lemma_is_first(all, p, before.active);
    }
}

/// Stepping on and stepping back leads to the workspace that was shown.
pub proof fn lemma_cycle_there_and_back(active: int, len: int)
    requires
        0 <= active < len,
        len > 1,
    ensures
        (((active + 1) % len) - 1) % len == active,
        (((active - 1) % len) + 1) % len == active,
{
    if active + 1 == len {
        assert((active + 1) % len == 0) by (nonlinear_arith)
            requires
                active + 1 == len,
                len > 1,
        ;
        assert((-1int) % len == len - 1) by (nonlinear_arith)
            requires
                len > 1,
        ;
    } else {
        vstd::arithmetic::div_mod::lemma_small_mod((active + 1) as nat, len as nat);
    }
    vstd::arithmetic::div_mod::lemma_small_mod(active as nat, len as nat);
    if active == 0 {
        assert((-1int) % len == len - 1) by (nonlinear_arith)
            requires
                len > 1,
        ;
        assert(len % len == 0) by (nonlinear_arith)
            requires
                len > 1,
        ;
    } else {
        vstd::arithmetic::div_mod::lemma_small_mod((active - 1) as nat, len as nat);
    }
}

/// Where the pinned workspaces of a list end.
proof fn lemma_pinned_end(list: Seq<WorkspaceView>)
    requires
        pinned_first(list),
    ensures
        leading(favorite_flags(list)) <= list.len(),
        forall|k: int|
            0 <= k < list.len() ==> (#[trigger] list[k]).favorite == (k < leading(
                favorite_flags(list),
            )),
{
    let flags = favorite_flags(list);
    let top = leading(flags) as int;
    lemma_leading(flags);
    assert forall|k: int| 0 <= k < list.len() implies (#[trigger] list[k]).favorite == (k
        < top) by {
        assert(flags[k] == list[k].favorite);
        if k >= top && list[k].favorite {
            assert(flags[top] == list[top].favorite);
            if k > top {
                assert(list[top].favorite);
            }
        }
    }
}

/// A workspace that is dropped above another of its kind stands directly before it
/// then, one that is dropped below it directly after it. A pinned workspace that is
/// dropped onto one that is not goes to the end of the pinned ones, and one that is
/// not pinned comes first after them. All others keep their order.
///
/// Gives the place of the workspace that was moved.
pub proof fn lemma_dropped_next_to(
    before: Arrangement,
    from: int,
    onto: int,
    below: bool,
) -> (at: int)
    requires
        distinct_ids(before.list),
        pinned_first(before.list),
        0 <= from < before.list.len(),
        0 <= onto < before.list.len(),
        from != onto,
    ensures
        reordered(before, before.list[from].id, before.list[onto].id, below) matches Some(after)
            && ({
            let moved = before.list[from];
            let target = before.list[onto];
            &&& after.list.len() == before.list.len()
            &&& 0 <= at < after.list.len()
            &&& after.list[at] == moved
            &&& after.list.remove(at) == before.list.remove(from)
            &&& moved.favorite == target.favorite && !below ==> at + 1 < after.list.len()
                && after.list[at + 1] == target
            &&& moved.favorite == target.favorite && below ==> at > 0 && after.list[at - 1]
                == target
            &&& moved.favorite != target.favorite ==> forall|j: int|
                0 <= j < after.list.len() && j != at ==> (#[trigger] after.list[j]).favorite == (j
                    < at)
        }),
{
    let list = before.list;
    let moved = list[from];
    let target = list[onto];
    assert forall|j: int| 0 <= j < from implies !has_id(moved.id)(#[trigger] list[j]) by {}
    assert forall|j: int| 0 <= j < onto implies !has_id(target.id)(#[trigger] list[j]) by {}
    lemma_is_first(list, has_id(moved.id), from);
    lemma_is_first(list, has_id(target.id), onto);
    let rest = list.remove(from);
    let k = if onto < from {
        onto
    } else {
        onto - 1
    };
    assert(rest[k] == target);
    assert forall|j: int| 0 <= j < k implies !has_id(target.id)(#[trigger] rest[j]) by {
        let origin = if j < from {
            j
        } else {
            j + 1
        };
        assert(rest[j] == list[origin]);
    }
    lemma_is_first(rest, has_id(target.id), k);
    lemma_pinned_remove(list, from);
    lemma_pinned_end(rest);
    let after = reordered(before, moved.id, target.id, below)->0;
    let raw = k + if below {
        1int
    } else {
        0int
    };
    let at = pinned_place(favorite_flags(rest), moved.favorite, raw);
    assert(after.list.remove(at) =~= rest);
    at
}

/// Whether a workspace stands directly below another, or directly above it, where
/// both are pinned or neither is.
pub open spec fn stands_beside(
    list: Seq<WorkspaceView>,
    source: Seq<char>,
    target: Seq<char>,
    below: bool,
) -> bool {
    forall|i: int, j: int|
        0 <= i < list.len() && 0 <= j < list.len() && (#[trigger] list[i]).id == source && (
        #[trigger] list[j]).id == target && list[i].favorite == list[j].favorite ==> i == (if below {
            j + 1
        } else {
            j - 1
        })
}

/// A workspace that was dropped stands on the side of the other that it was dropped
/// on.
pub proof fn lemma_dropped_beside(
    before: Arrangement,
    source: Seq<char>,
    target: Seq<char>,
    below: bool,
)
    requires
        distinct_ids(before.list),
        pinned_first(before.list),
        reordered(before, source, target, below) is Some,
    ensures
        stands_beside(reordered(before, source, target, below)->0.list, source, target, below),
{
    let list = before.list;
    lemma_first_where(list, has_id(source));
    lemma_first_where(list, has_id(target));
    let from = first_where(list, has_id(source))->0;
    let onto = first_where(list, has_id(target))->0;
    assert(has_id(source)(list[from]));
    assert(has_id(target)(list[onto]));
    let at = lemma_dropped_next_to(before, from, onto, below);
    let after = reordered(before, source, target, below)->0.list;
    assert forall|i: int, j: int|
        0 <= i < after.len() && 0 <= j < after.len() && (#[trigger] after[i]).id == (
        #[trigger] after[j]).id implies i == j by {
        lemma_origin(list, after, from, at, i);
        lemma_origin(list, after, from, at, j);
    }
    assert(after[at].id == source);
    assert forall|i: int, j: int|
        0 <= i < after.len() && 0 <= j < after.len() && (#[trigger] after[i]).id == source && (
        #[trigger] after[j]).id == target && after[i].favorite == after[j].favorite implies i == (
    if below {
        j + 1
    } else {
        j - 1
    }) by {
        assert(i == at);
        lemma_origin(list, after, from, at, j);
        assert(after[j] == list[onto]);
        if below {
            assert(after[at - 1].id == after[j].id);
        } else {
            assert(after[at + 1].id == after[j].id);
        }
    }
}

proof fn lemma_origin(
    list: Seq<WorkspaceView>,
    after: Seq<WorkspaceView>,
    from: int,
    at: int,
    i: int,
)
    requires
        0 <= from < list.len(),
        0 <= at < after.len(),
        0 <= i < after.len(),
        after.len() == list.len(),
        after[at] == list[from],
        after.remove(at) == list.remove(from),
    ensures
        ({
            let k = if i < at {
                i
            } else {
                i - 1
            };
            let origin = if i == at {
                from
            } else if k < from {
                k
            } else {
                k + 1
            };
            after[i] == list[origin]
        }),
{
    let k = if i < at {
        i
    } else {
        i - 1
    };
    if i != at {
        assert(after.remove(at)[k] == after[i]);
        assert(list.remove(from)[k] == list[if k < from {
            k
        } else {
            k + 1
        }]);
    }
}

/// A drag that leads nowhere: onto itself, or of or onto what is not there.
pub proof fn lemma_nothing_to_reorder(
    before: Arrangement,
    source: Seq<char>,
    target: Seq<char>,
    below: bool,
)
    ensures
        source == target ==> reordered(before, source, target, below) is None,
        (forall|i: int| 0 <= i < before.list.len() ==> (#[trigger] before.list[i]).id != source)
            ==> reordered(before, source, target, below) is None,
        (forall|i: int| 0 <= i < before.list.len() ==> (#[trigger] before.list[i]).id != target)
            ==> reordered(before, source, target, below) is None,
{
    lemma_first_where(before.list, has_id(source));
    lemma_first_where(before.list, has_id(target));
}

/// Pinning puts a workspace behind all that are pinned, unpinning in front of all that
/// are not. Its mark is all that changes of it, and all others keep their order.
///
/// Gives the place of the workspace.
pub proof fn lemma_toggled_between(before: Arrangement, from: int) -> (at: int)
    requires
        distinct_ids(before.list),
        pinned_first(before.list),
        0 <= from < before.list.len(),
    ensures
        favorite_toggled(before, before.list[from].id) matches Some(after) && ({
            let was = before.list[from];
            &&& after.list.len() == before.list.len()
            &&& 0 <= at < after.list.len()
            &&& after.list.remove(at) == before.list.remove(from)
            &&& after.list[at].favorite != was.favorite
            &&& after.list[at].id == was.id && after.list[at].name == was.name
            &&& after.list[at].unread == was.unread && after.list[at].cwd == was.cwd
            &&& after.list[at].folder_path == was.folder_path
            &&& forall|j: int|
                0 <= j < after.list.len() && j != at ==> (#[trigger] after.list[j]).favorite == (j
                    < at)
        }),
{
    let list = before.list;
    assert forall|j: int| 0 <= j < from implies !has_id(list[from].id)(#[trigger] list[j]) by {}
    lemma_is_first(list, has_id(list[from].id), from);
    let rest = list.remove(from);
    lemma_pinned_remove(list, from);
    lemma_pinned_end(rest);
    let at = leading(favorite_flags(rest)) as int;
    let after = favorite_toggled(before, list[from].id)->0;
    assert(after.list.remove(at) =~= rest);
    at
}

/// Closing a workspace takes it out and keeps the order of all others. A workspace that
/// is asked for is shown then. Otherwise the one that was shown stays; if that was the
/// closed one, the next one takes its place, or the one before it where it was the
/// last.
pub proof fn lemma_closed_takes_out(before: Arrangement, at: int, wanted: int)
    requires
        distinct_ids(before.list),
        0 <= before.active < before.list.len(),
        0 <= at < before.list.len(),
        0 <= wanted < before.list.len(),
        wanted != at,
    ensures
        ({
            let id = before.list[at].id;
            &&& closed(before, id, None) matches Some(after)
            &&& closed(before, id, Some(before.list[wanted].id)) matches Some(asked)
            &&& asked.list == after.list
            &&& after.list.len() == before.list.len() - 1
            &&& forall|i: int| 0 <= i < at ==> after.list[i] == before.list[i]
            &&& forall|i: int| at < i < before.list.len() ==> after.list[i - 1] == before.list[i]
            &&& 0 <= asked.active < asked.list.len() && asked.list[asked.active]
                == before.list[wanted]
            &&& 0 <= after.active < after.list.len()
            &&& before.active != at ==> after.list[after.active] == before.list[before.active]
            &&& before.active == at && at + 1 < before.list.len() ==> after.list[after.active]
                == before.list[at + 1]
            &&& before.active == at && at + 1 == before.list.len() ==> after.list[after.active]
                == before.list[at - 1]
        }),
{
    let list = before.list;
    let id = list[at].id;
    assert forall|j: int| 0 <= j < at implies !has_id(id)(#[trigger] list[j]) by {}
    lemma_is_first(list, has_id(id), at);
    let rest = list.remove(at);
    lemma_found_in_rest(list, at, wanted);
    if before.active != at {
        lemma_found_in_rest(list, at, before.active);
    } else {
        lemma_first_where(ids(rest), is_text(id));
        if let Some(k) = first_where(ids(rest), is_text(id)) {
            let origin = if k < at {
                k
            } else {
                k + 1
            };
            assert(rest[k] == list[origin]);
        }
    }
}

proof fn lemma_found_in_rest(list: Seq<WorkspaceView>, at: int, i: int)
    requires
        distinct_ids(list),
        0 <= at < list.len(),
        0 <= i < list.len(),
        i != at,
    ensures
        ({
            let rest = list.remove(at);
            let k = if i < at {
                i
            } else {
                i - 1
            };
            first_where(ids(rest), is_text(list[i].id)) == Some(k) && rest[k] == list[i]
        }),
{
    let rest = list.remove(at);
    let all = ids(rest);
    let k = if i < at {
        i
    } else {
        i - 1
    };
    assert(rest[k] == list[i]);
    assert(all[k] == list[i].id);
    assert forall|j: int| 0 <= j < k implies !is_text(list[i].id)(#[trigger] all[j]) by {
        let origin = if j < at {
            j
        } else {
            j + 1
        };
        assert(rest[j] == list[origin]);
    }
    lemma_is_first(all, is_text(list[i].id), k);
}

/// The workspace that was shown stays shown wherever it is moved to; where it is not
/// in the list any more, the place that is shown stays the same.
pub proof fn lemma_shown_workspace_is_followed(before: Arrangement, list: Seq<WorkspaceView>)
    ensures
        ({
            let active = followed(before, list);
            let shown = 0 <= before.active < before.list.len();
            &&& shown && (exists|i: int|
                0 <= i < list.len() && (#[trigger] list[i]).id == before.list[before.active].id)
                ==> 0 <= active < list.len() && list[active].id == before.list[before.active].id
            &&& !shown || (forall|i: int|
                0 <= i < list.len() ==> (#[trigger] list[i]).id != before.list[before.active].id)
                ==> active == before.active
        }),
{
    if 0 <= before.active < before.list.len() {
        let p = has_id(before.list[before.active].id);
        lemma_first_where(list, p);
        if exists|i: int|
            0 <= i < list.len() && (#[trigger] list[i]).id == before.list[before.active].id {
            let i = choose|i: int|
                0 <= i < list.len() && (#[trigger] list[i]).id == before.list[before.active].id;
            assert(p(list[i]));
        }
        if let Some(i) = first_where(list, p) {
            assert(p(list[i]));
        }
    }
}

} // verus!
