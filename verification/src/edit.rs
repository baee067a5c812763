use vstd::prelude::*;
use vstd::string::StrSliceExecFns;
use crate::char_index::{CharIndex, CharIndexRange};
use crate::error::EditorError;
use crate::selection::{Selection, SelectionView};
use crate::sorting::{order_by_key, sort_indices};

verus! {

/// The text of `range` is to be replaced with `new`.
#[derive(Clone, Debug, PartialEq, Eq)]
pub struct Edit {
    pub range: CharIndexRange,
    pub new: String,
}

/// What an `Edit` holds, as mathematical values.
pub struct EditView {
    pub range: CharIndexRange,
    pub new: Seq<char>,
}

impl View for Edit {
    type V = EditView;

    open spec fn view(&self) -> EditView {
        EditView { range: self.range, new: self.new@ }
    }
}

/// One step of a cursor: a change of the text, or the selection that the cursor ends with.
#[derive(Clone, Debug, PartialEq, Eq)]
pub enum Action {
    Select(Selection),
    Edit(Edit),
}

/// What an `Action` holds, as mathematical values.
pub enum ActionView {
    Select(SelectionView),
    Edit(EditView),
}

impl View for Action {
    type V = ActionView;

    open spec fn view(&self) -> ActionView {
        match self {
            Action::Select(s) => ActionView::Select(s@),
            Action::Edit(e) => ActionView::Edit(e@),
        }
    }
}

/// The steps of one cursor, in order. Each edit is told in the coordinates of the text as the
/// group's earlier edits leave it, each selection in those of the text as the whole group
/// leaves it.
#[derive(Clone, Debug, PartialEq, Eq)]
pub struct ActionGroup {
    pub actions: Vec<Action>,
}

impl View for ActionGroup {
    type V = Seq<ActionView>;

    open spec fn view(&self) -> Seq<ActionView> {
        Seq::new(self.actions@.len(), |i: int| self.actions@[i]@)
    }
}

/// The views of the groups of a list.
pub open spec fn groups_view(groups: Seq<ActionGroup>) -> Seq<Seq<ActionView>> {
    Seq::new(groups.len(), |i: int| groups[i]@)
}

/// The number of characters that the first `n` actions put in.
pub open spec fn inserted_upto(actions: Seq<ActionView>, n: int) -> nat
    decreases n,
{
    if n <= 0 {
        0
    } else {
        inserted_upto(actions, n - 1) + match actions[n - 1] {
            ActionView::Edit(e) => e.new.len(),
            ActionView::Select(_) => 0,
        }
    }
}

/// The number of characters that the first `n` actions take out.
pub open spec fn removed_upto(actions: Seq<ActionView>, n: int) -> nat
    decreases n,
{
    if n <= 0 {
        0
    } else {
        removed_upto(actions, n - 1) + match actions[n - 1] {
            ActionView::Edit(e) => e.range.spec_len(),
            ActionView::Select(_) => 0,
        }
    }
}

/// The leftmost start among the edits of the first `n` actions.
pub open spec fn leftmost_edit_upto(actions: Seq<ActionView>, n: int) -> Option<usize>
    decreases n,
{
    if n <= 0 {
        None
    } else {
        let rest = leftmost_edit_upto(actions, n - 1);
        match actions[n - 1] {
            ActionView::Edit(e) => match rest {
                Some(m) if m <= e.range.start.0 => Some(m),
                _ => Some(e.range.start.0),
            },
            ActionView::Select(_) => rest,
        }
    }
}

/// The leftmost start among the selections of the first `n` actions.
pub open spec fn leftmost_select_upto(actions: Seq<ActionView>, n: int) -> Option<usize>
    decreases n,
{
    if n <= 0 {
        None
    } else {
        let rest = leftmost_select_upto(actions, n - 1);
        match actions[n - 1] {
            ActionView::Select(s) => match rest {
                Some(m) if m <= s.range.start.0 => Some(m),
                _ => Some(s.range.start.0),
            },
            ActionView::Edit(_) => rest,
        }
    }
}

/// Where a group stands in the document: the leftmost start of its edits; of its selections
/// where it has no edit; zero where it has no action.
pub open spec fn group_key(actions: Seq<ActionView>) -> usize {
    match leftmost_edit_upto(actions, actions.len() as int) {
        Some(m) => m,
        None => match leftmost_select_upto(actions, actions.len() as int) {
            Some(m) => m,
            None => 0,
        },
    }
}

/// Whether an edit among the first `n` actions covers text in common with `range`.
pub open spec fn edits_intersect_upto(actions: Seq<ActionView>, n: int, range: CharIndexRange) -> bool
    decreases n,
{
    if n <= 0 {
        false
    } else {
        edits_intersect_upto(actions, n - 1, range) || match actions[n - 1] {
            ActionView::Edit(e) => e.range.spec_intersects(range),
            ActionView::Select(_) => false,
        }
    }
}

/// Whether an edit among the first `n` actions of `a` covers text in common with an edit of `b`.
pub open spec fn groups_overlap_upto(a: Seq<ActionView>, n: int, b: Seq<ActionView>) -> bool
    decreases n,
{
    if n <= 0 {
        false
    } else {
        groups_overlap_upto(a, n - 1, b) || match a[n - 1] {
            ActionView::Edit(e) => edits_intersect_upto(b, b.len() as int, e.range),
            ActionView::Select(_) => false,
        }
    }
}

/// Whether an edit of group `a` covers text in common with an edit of group `b`.
pub open spec fn groups_overlap(a: Seq<ActionView>, b: Seq<ActionView>) -> bool {
    groups_overlap_upto(a, a.len() as int, b)
}

/// Whether two different groups hold edits that cover text in common.
pub open spec fn any_overlap(groups: Seq<Seq<ActionView>>) -> bool {
    exists|i: int, j: int|
        0 <= i < j < groups.len() && #[trigger] groups_overlap(groups[i], groups[j])
}

/// `index` moved right by `grow` and left by `shrink`, where that is an index.
pub open spec fn shifted(index: usize, grow: nat, shrink: nat) -> Option<usize> {
    if 0 <= index + grow - shrink <= usize::MAX {
        Some((index + grow - shrink) as usize)
    } else {
        None
    }
}

/// Both ends of `range` moved right by `grow` and left by `shrink`.
pub open spec fn shifted_range(range: CharIndexRange, grow: nat, shrink: nat) -> Option<
    CharIndexRange,
> {
    match (shifted(range.start.0, grow, shrink), shifted(range.end.0, grow, shrink)) {
        (Some(s), Some(e)) => Some(CharIndexRange { start: CharIndex(s), end: CharIndex(e) }),
        _ => None,
    }
}

/// An action moved right by `grow` and left by `shrink`: the range of an edit, the range and
/// the anchor of a selection.
pub open spec fn shifted_action(action: ActionView, grow: nat, shrink: nat) -> Option<ActionView> {
    match action {
        ActionView::Edit(e) => match shifted_range(e.range, grow, shrink) {
            Some(r) => Some(ActionView::Edit(EditView { range: r, new: e.new })),
            None => None,
        },
        ActionView::Select(s) => match shifted_range(s.range, grow, shrink) {
            Some(r) => match s.initial_range {
                None => Some(ActionView::Select(SelectionView { range: r, ..s })),
                Some(i) => match shifted_range(i, grow, shrink) {
                    Some(ri) => Some(
                        ActionView::Select(SelectionView { range: r, initial_range: Some(ri), ..s }),
                    ),
                    None => None,
                },
            },
            None => None,
        },
    }
}

/// The first `n` actions, each moved right by `grow` and left by `shrink`.
pub open spec fn shifted_actions_upto(
    actions: Seq<ActionView>,
    n: int,
    grow: nat,
    shrink: nat,
) -> Option<Seq<ActionView>>
    decreases n,
{
    if n <= 0 {
        Some(Seq::empty())
    } else {
        match (
            shifted_actions_upto(actions, n - 1, grow, shrink),
            shifted_action(actions[n - 1], grow, shrink),
        ) {
            (Some(acc), Some(a)) => Some(acc.push(a)),
            _ => None,
        }
    }
}

/// The key of each group.
pub open spec fn group_keys(groups: Seq<Seq<ActionView>>) -> Seq<(usize, usize)> {
    Seq::new(groups.len(), |i: int| (group_key(groups[i]), 0usize))
}

/// The characters put in by the first `k` groups of `order`.
pub open spec fn grow_before(groups: Seq<Seq<ActionView>>, order: Seq<usize>, k: int) -> nat
    decreases k,
{
    if k <= 0 {
        0
    } else {
        grow_before(groups, order, k - 1) + inserted_upto(
            groups[order[k - 1] as int],
            groups[order[k - 1] as int].len() as int,
        )
    }
}

/// The characters taken out by the first `k` groups of `order`.
pub open spec fn shrink_before(groups: Seq<Seq<ActionView>>, order: Seq<usize>, k: int) -> nat
    decreases k,
{
    if k <= 0 {
        0
    } else {
        shrink_before(groups, order, k - 1) + removed_upto(
            groups[order[k - 1] as int],
            groups[order[k - 1] as int].len() as int,
        )
    }
}

/// The actions of the first `k` groups of `order`, one group after the other, each group moved
/// by what the groups before it put in and took out. `None` where a moved index is no index, or
/// a count of characters put in or taken out is beyond the largest index.
pub open spec fn flattened_upto(groups: Seq<Seq<ActionView>>, order: Seq<usize>, k: int) -> Option<
    Seq<ActionView>,
>
    decreases k,
{
    if k <= 0 {
        Some(Seq::empty())
    } else {
        let g = groups[order[k - 1] as int];
        let grow = grow_before(groups, order, k - 1);
        let shrink = shrink_before(groups, order, k - 1);
        if grow_before(groups, order, k) > usize::MAX || shrink_before(groups, order, k)
            > usize::MAX {
            None
        } else {
            match (
                flattened_upto(groups, order, k - 1),
                shifted_actions_upto(g, g.len() as int, grow, shrink),
            ) {
                (Some(acc), Some(moved)) => Some(acc + moved),
                _ => None,
            }
        }
    }
}

/// The number of selections among the first `n` actions.
pub open spec fn selects_upto(actions: Seq<ActionView>, n: int) -> nat
    decreases n,
{
    if n <= 0 {
        0
    } else {
        selects_upto(actions, n - 1) + match actions[n - 1] {
            ActionView::Select(_) => 1nat,
            ActionView::Edit(_) => 0nat,
        }
    }
}

/// The number of selections in the first `k` groups of `order`.
pub open spec fn selects_before(groups: Seq<Seq<ActionView>>, order: Seq<usize>, k: int) -> nat
    decreases k,
{
    if k <= 0 {
        0
    } else {
        selects_before(groups, order, k - 1) + selects_upto(
            groups[order[k - 1] as int],
            groups[order[k - 1] as int].len() as int,
        )
    }
}

/// The place of `g` among the first `k` entries of `order`, or `k` where it is not there.
pub open spec fn place_of(order: Seq<usize>, g: usize, k: int) -> int
    decreases k,
{
    if k <= 0 {
        0
    } else if place_of(order, g, k - 1) < k - 1 {
        place_of(order, g, k - 1)
    } else if order[k - 1] == g {
        k - 1
    } else {
        k
    }
}

/// What a transaction made of `groups` holds: the groups in document order, made one list, and
/// the place among its selections of the first selection of the group that was given first.
pub open spec fn normalized(groups: Seq<Seq<ActionView>>) -> Result<
    (Seq<ActionView>, nat),
    EditorError,
> {
    let order = order_by_key(group_keys(groups), groups.len() as int);
    if any_overlap(groups) {
        Err(EditorError::OverlappingEdits)
    } else {
        match flattened_upto(groups, order, groups.len() as int) {
            None => Err(EditorError::OutOfBounds),
            Some(actions) => Ok(
                (actions, selects_before(groups, order, place_of(order, 0, order.len() as int))),
            ),
        }
    }
}

impl Edit {
    /// The number of characters put in.
    pub fn new_len(&self) -> (n: usize)
        ensures
            n == self@.new.len(),
    {
        self.new.as_str().unicode_len()
    }

    /// A copy of the edit.
    pub fn duplicate(&self) -> (r: Edit)
        ensures
            r@ == self@,
    {
        Edit { range: self.range, new: self.new.clone() }
    }

    /// The end of the text put in.
    pub fn end(&self) -> (r: Option<usize>)
        ensures
            r == (if self.range.start.0 + self@.new.len() <= usize::MAX {
                Some((self.range.start.0 + self@.new.len()) as usize)
            } else {
                None
            }),
    {
        self.range.start.0.checked_add(self.new_len())
    }
}

impl Action {
    /// A copy of the action.
    pub fn duplicate(&self) -> (r: Action)
        ensures
            r@ == self@,
    {
        match self {
            Action::Select(s) => Action::Select(s.duplicate()),
            Action::Edit(e) => Action::Edit(e.duplicate()),
        }
    }
}

/// An index moved forward by `grow` and back by `shrink`; `None` where that is no index.
fn shift_index(index: usize, grow: usize, shrink: usize) -> (r: Option<usize>)
    ensures
        r == shifted(index, grow as nat, shrink as nat),
{
    if grow >= shrink {
        index.checked_add(grow - shrink)
    } else if index >= shrink - grow {
        Some(index - (shrink - grow))
    } else {
        None
    }
}

/// Both ends of a range moved forward by `grow` and back by `shrink`; `None` where one of them is
/// then no index.
fn shift_range(range: CharIndexRange, grow: usize, shrink: usize) -> (r: Option<CharIndexRange>)
    ensures
        r == shifted_range(range, grow as nat, shrink as nat),
{
    match (shift_index(range.start.0, grow, shrink), shift_index(range.end.0, grow, shrink)) {
        (Some(s), Some(e)) => Some(CharIndexRange { start: CharIndex(s), end: CharIndex(e) }),
        _ => None,
    }
}

impl Action {
    /// The action moved right by `grow` and left by `shrink`; `None` where that leaves the
    /// indices.
    pub fn shifted_by(&self, grow: usize, shrink: usize) -> (r: Option<Action>)
        ensures
            match shifted_action(self@, grow as nat, shrink as nat) {
                Some(a) => r.is_some() && r.unwrap()@ == a,
                None => r.is_none(),
            },
    {
        match self {
            Action::Edit(e) => match shift_range(e.range, grow, shrink) {
                Some(r) => Some(Action::Edit(Edit { range: r, new: e.new.clone() })),
                None => None,
            },
            Action::Select(s) => match shift_range(s.range, grow, shrink) {
                Some(r) => match s.initial_range {
                    None => Some(Action::Select(s.duplicate().set_range(r))),
                    Some(i) => match shift_range(i, grow, shrink) {
                        Some(ri) => Some(
                            Action::Select(s.duplicate().set_range(r).set_initial_range(Some(ri))),
                        ),
                        None => None,
                    },
                },
                None => None,
            },
        }
    }
}

/// The characters put in and taken out only grow in number as more actions are counted.
proof fn lemma_counts_monotonic(actions: Seq<ActionView>, i: int, j: int)
    requires
        0 <= i <= j,
    ensures
        inserted_upto(actions, i) <= inserted_upto(actions, j),
        removed_upto(actions, i) <= removed_upto(actions, j),
    decreases j - i,
{
    if i < j {
        lemma_counts_monotonic(actions, i, j - 1);
    }
}

/// Once an action cannot be shifted, the group cannot, however many more actions follow.
proof fn lemma_shifted_none_stays(actions: Seq<ActionView>, i: int, j: int, grow: nat, shrink: nat)
    requires
        0 <= i <= j,
        shifted_actions_upto(actions, i, grow, shrink).is_none(),
    ensures
        shifted_actions_upto(actions, j, grow, shrink).is_none(),
    decreases j - i,
{
    if i < j {
        lemma_shifted_none_stays(actions, i, j - 1, grow, shrink);
    }
}

/// An edit that meets a range still meets it as more actions are looked at.
proof fn lemma_edits_intersect_stays(actions: Seq<ActionView>, i: int, j: int, range: CharIndexRange)
    requires
        0 <= i <= j,
        edits_intersect_upto(actions, i, range),
    ensures
        edits_intersect_upto(actions, j, range),
    decreases j - i,
{
    if i < j {
        lemma_edits_intersect_stays(actions, i, j - 1, range);
    }
}

/// Two groups that overlap still overlap as more actions of the first are looked at.
proof fn lemma_groups_overlap_stays(a: Seq<ActionView>, i: int, j: int, b: Seq<ActionView>)
    requires
        0 <= i <= j,
        groups_overlap_upto(a, i, b),
    ensures
        groups_overlap_upto(a, j, b),
    decreases j - i,
{
    if i < j {
        lemma_groups_overlap_stays(a, i, j - 1, b);
    }
}

impl ActionGroup {
    /// The group of these actions.
    pub fn new(actions: Vec<Action>) -> (g: ActionGroup)
        ensures
            g.actions == actions,
    {
        ActionGroup { actions }
    }

    /// A copy of the group.
    pub fn duplicate(&self) -> (r: ActionGroup)
        ensures
            r@ == self@,
    {
        let mut actions: Vec<Action> = Vec::new();
        let mut i: usize = 0;
        while i < self.actions.len()
            invariant
                i <= self.actions.len(),
                actions@.len() == i,
                forall|k: int| 0 <= k < i ==> actions@[k]@ == self.actions@[k]@,
            decreases self.actions.len() - i,
        {
            actions.push(self.actions[i].duplicate());
            i += 1;
        }
        let r = ActionGroup { actions };
        assert(r@ =~= self@);
        r
    }

    /// Where the group stands in the document.
    pub fn start(&self) -> (k: usize)
        ensures
            k == group_key(self@),
    {
        let mut edits: Option<usize> = None;
        let mut selects: Option<usize> = None;
        let mut i: usize = 0;
        while i < self.actions.len()
            invariant
                i <= self.actions.len(),
                edits == leftmost_edit_upto(self@, i as int),
                selects == leftmost_select_upto(self@, i as int),
            decreases self.actions.len() - i,
        {
            match &self.actions[i] {
                Action::Edit(e) => {
                    edits = match edits {
                        Some(m) if m <= e.range.start.0 => Some(m),
                        _ => Some(e.range.start.0),
                    };
                },
                Action::Select(s) => {
                    selects = match selects {
                        Some(m) if m <= s.range.start.0 => Some(m),
                        _ => Some(s.range.start.0),
                    };
                },
            }
            i += 1;
        }
        match edits {
            Some(m) => m,
            None => match selects {
                Some(m) => m,
                None => 0,
            },
        }
    }

    /// The number of characters that the group puts in and the number that it takes out;
    /// `None` where one of them is beyond the largest index.
    pub fn counts(&self) -> (r: Option<(usize, usize)>)
        ensures
            match r {
                Some((grow, shrink)) => grow == inserted_upto(self@, self@.len() as int) && shrink
                    == removed_upto(self@, self@.len() as int),
                None => inserted_upto(self@, self@.len() as int) > usize::MAX || removed_upto(
                    self@,
                    self@.len() as int,
                ) > usize::MAX,
            },
    {
        let mut grow: usize = 0;
        let mut shrink: usize = 0;
        let mut i: usize = 0;
        while i < self.actions.len()
            invariant
                i <= self.actions.len(),
                grow == inserted_upto(self@, i as int),
                shrink == removed_upto(self@, i as int),
            decreases self.actions.len() - i,
        {
            if let Action::Edit(e) = &self.actions[i] {
                let added: Option<usize> = grow.checked_add(e.new_len());
                let taken: Option<usize> = shrink.checked_add(e.range.len());
                proof {
                    lemma_counts_monotonic(self@, i + 1, self@.len() as int);
                }
                match (added, taken) {
                    (Some(a), Some(t)) => {
                        grow = a;
                        shrink = t;
                    },
                    _ => {
                        return None;
                    },
                }
            }
            i += 1;
        }
        Some((grow, shrink))
    }

    /// The number of selections in the group.
    pub fn count_selects(&self) -> (n: usize)
        ensures
            n == selects_upto(self@, self@.len() as int),
    {
        let mut n: usize = 0;
        let mut i: usize = 0;
        while i < self.actions.len()
            invariant
                i <= self.actions.len(),
                n == selects_upto(self@, i as int),
                n <= i,
            decreases self.actions.len() - i,
        {
            if let Action::Select(_) = &self.actions[i] {
                n += 1;
            }
            i += 1;
        }
        n
    }

    /// Whether an edit of the group covers text in common with `range`.
    pub fn intersects(&self, range: &CharIndexRange) -> (b: bool)
        ensures
            b == edits_intersect_upto(self@, self@.len() as int, *range),
    {
        let mut i: usize = 0;
        while i < self.actions.len()
            invariant
                i <= self.actions.len(),
                !edits_intersect_upto(self@, i as int, *range),
            decreases self.actions.len() - i,
        {
            if let Action::Edit(e) = &self.actions[i] {
                if e.range.intersects(range) {
                    proof {
                        lemma_edits_intersect_stays(self@, i + 1, self@.len() as int, *range);
                    }
                    return true;
                }
            }
            i += 1;
        }
        false
    }

    /// Whether an edit of the group covers text in common with an edit of `other`.
    pub fn overlaps(&self, other: &ActionGroup) -> (b: bool)
        ensures
            b == groups_overlap(self@, other@),
    {
        let mut i: usize = 0;
        while i < self.actions.len()
            invariant
                i <= self.actions.len(),
                !groups_overlap_upto(self@, i as int, other@),
            decreases self.actions.len() - i,
        {
            if let Action::Edit(e) = &self.actions[i] {
                if other.intersects(&e.range) {
                    proof {
                        lemma_groups_overlap_stays(self@, i + 1, self@.len() as int, other@);
                    }
                    return true;
                }
            }
            i += 1;
        }
        false
    }

    /// The actions of the group, each moved right by `grow` and left by `shrink`; `None` where
    /// that leaves the indices.
    pub fn shifted_by(&self, grow: usize, shrink: usize) -> (r: Option<Vec<Action>>)
        ensures
            match shifted_actions_upto(self@, self@.len() as int, grow as nat, shrink as nat) {
                Some(moved) => r.is_some() && actions_view(r.unwrap()@) == moved,
                None => r.is_none(),
            },
    {
        let mut moved: Vec<Action> = Vec::new();
        let mut i: usize = 0;
        while i < self.actions.len()
            invariant
                i <= self.actions.len(),
                shifted_actions_upto(self@, i as int, grow as nat, shrink as nat) == Some(
                    actions_view(moved@),
                ),
            decreases self.actions.len() - i,
        {
            match self.actions[i].shifted_by(grow, shrink) {
                Some(a) => {
                    proof {
                        assert(actions_view(moved@.push(a)) =~= actions_view(moved@).push(a@));
                    }
                    moved.push(a);
                },
                None => {
                    proof {
                        lemma_shifted_none_stays(
                            self@,
                            i + 1,
                            self@.len() as int,
                            grow as nat,
                            shrink as nat,
                        );
                    }
                    return None;
                },
            }
            i += 1;
        }
        proof {
            assert(actions_view(moved@) =~= shifted_actions_upto(
                self@,
                self@.len() as int,
                grow as nat,
                shrink as nat,
            ).unwrap());
        }
        Some(moved)
    }
}

/// The views of the actions of a list.
pub open spec fn actions_view(actions: Seq<Action>) -> Seq<ActionView> {
    Seq::new(actions.len(), |i: int| actions[i]@)
}

/// Edits and selections of all cursors as one list, to be applied as a whole: each edit in the
/// coordinates of the text as the edits before it leave it, each selection in those of the text
/// as the edits up to it leave it.
#[derive(Clone, Debug, PartialEq, Eq)]
pub struct EditTransaction {
    pub actions: Vec<Action>,
    /// The place, among the selections of `actions`, of the one that becomes the primary
    /// selection.
    pub primary: usize,
}

impl View for EditTransaction {
    type V = (Seq<ActionView>, nat);

    open spec fn view(&self) -> (Seq<ActionView>, nat) {
        (actions_view(self.actions@), self.primary as nat)
    }
}

/// The edits among the first `n` actions, in order.
pub open spec fn edits_upto(actions: Seq<ActionView>, n: int) -> Seq<EditView>
    decreases n,
{
    if n <= 0 {
        Seq::empty()
    } else {
        match actions[n - 1] {
            ActionView::Edit(e) => edits_upto(actions, n - 1).push(e),
            ActionView::Select(_) => edits_upto(actions, n - 1),
        }
    }
}

/// The edits of a list of actions, in order.
pub open spec fn edits_of(actions: Seq<ActionView>) -> Seq<EditView> {
    edits_upto(actions, actions.len() as int)
}

/// The selections among the first `n` actions, in order.
pub open spec fn selections_upto(actions: Seq<ActionView>, n: int) -> Seq<SelectionView>
    decreases n,
{
    if n <= 0 {
        Seq::empty()
    } else {
        match actions[n - 1] {
            ActionView::Select(s) => selections_upto(actions, n - 1).push(s),
            ActionView::Edit(_) => selections_upto(actions, n - 1),
        }
    }
}

/// The selections of a list of actions, in order.
pub open spec fn selections_of(actions: Seq<ActionView>) -> Seq<SelectionView> {
    selections_upto(actions, actions.len() as int)
}

/// The views of the selections of a list.
pub open spec fn selections_view(selections: Seq<Selection>) -> Seq<SelectionView> {
    Seq::new(selections.len(), |i: int| selections[i]@)
}

/// The views of the edits of a list.
pub open spec fn edit_views(edits: Seq<Edit>) -> Seq<EditView> {
    Seq::new(edits.len(), |i: int| edits[i]@)
}

/// Once a group cannot be laid out, the refusal stays as more groups follow.
proof fn lemma_flattened_none_stays(
    groups: Seq<Seq<ActionView>>,
    order: Seq<usize>,
    i: int,
    j: int,
)
    requires
        0 <= i <= j,
        flattened_upto(groups, order, i).is_none(),
    ensures
        flattened_upto(groups, order, j).is_none(),
    decreases j - i,
{
    if i < j {
        lemma_flattened_none_stays(groups, order, i, j - 1);
    }
}

/// The indices of the groups in document order, groups with the same start in the order given.
fn sort_by_start(groups: &Vec<ActionGroup>) -> (order: Vec<usize>)
    ensures
        order@ == order_by_key(group_keys(groups_view(groups@)), groups@.len() as int),
        order@.len() == groups@.len(),
        forall|k: int| 0 <= k < order@.len() ==> 0 <= #[trigger] order@[k] < groups@.len(),
{
    let ghost all = group_keys(groups_view(groups@));
    let mut keys: Vec<(usize, usize)> = Vec::new();
    let mut i: usize = 0;
    while i < groups.len()
        invariant
            i <= groups.len(),
            keys@.len() == i,
            all == group_keys(groups_view(groups@)),
            forall|k: int| 0 <= k < i ==> keys@[k] == all[k],
        decreases groups.len() - i,
    {
        keys.push((groups[i].start(), 0));
        i += 1;
    }
    assert(keys@ =~= all);
    sort_indices(&keys)
}

impl EditTransaction {
    /// The transaction of the cursors' groups: the groups in document order, each moved by what
    /// the groups before it put in and took out. Refused where edits of two groups cover common
    /// text, and where a moved index is no index.
    pub fn from_action_groups(groups: Vec<ActionGroup>) -> (r: Result<EditTransaction, EditorError>)
        ensures
            match normalized(groups_view(groups@)) {
                Ok(t) => r.is_ok() && r.unwrap()@ == t,
                Err(e) => r == Err::<EditTransaction, EditorError>(e),
            },
    {
        let ghost views = groups_view(groups@);
        let n: usize = groups.len();
        let mut i: usize = 0;
        while i < n
            invariant
                i <= n,
                n == groups@.len(),
                views == groups_view(groups@),
                forall|a: int, b: int| 0 <= a < i && a < b < n ==> !groups_overlap(views[a], views[b]),
            decreases n - i,
        {
            let mut j: usize = i + 1;
            while j < n
                invariant
                    i < j <= n,
                    n == groups@.len(),
                    views == groups_view(groups@),
                    forall|b: int| i < b < j ==> !groups_overlap(views[i as int], views[b]),
                decreases n - j,
            {
                if groups[i].overlaps(&groups[j]) {
                    assert(groups_overlap(views[i as int], views[j as int]));
                    return Err(EditorError::OverlappingEdits);
                }
                j += 1;
            }
            i += 1;
        }
        assert(!any_overlap(views));
        let order: Vec<usize> = sort_by_start(&groups);
        let mut actions: Vec<Action> = Vec::new();
        let mut grow: usize = 0;
        let mut shrink: usize = 0;
        let mut primary: usize = 0;
        let mut selects: usize = 0;
        let mut found: bool = false;
        let mut k: usize = 0;
        while k < n
            invariant
                k <= n,
                n == groups@.len(),
                order@.len() == n,
                views == groups_view(groups@),
                forall|x: int| 0 <= x < order@.len() ==> 0 <= #[trigger] order@[x] < n,
                !any_overlap(views),
                order@ == order_by_key(group_keys(views), n as int),
                flattened_upto(views, order@, k as int) == Some(actions_view(actions@)),
                grow == grow_before(views, order@, k as int),
                shrink == shrink_before(views, order@, k as int),
                found == (place_of(order@, 0, k as int) < k),
                found ==> primary == selects_before(views, order@, place_of(order@, 0, k as int)),
                !found ==> selects == selects_before(views, order@, k as int),
                actions@.len() >= selects,
            decreases n - k,
        {
            let group: &ActionGroup = &groups[order[k]];
            assert(group@ == views[order@[k as int] as int]);
            let moved: Option<Vec<Action>> = group.shifted_by(grow, shrink);
            let counts: Option<(usize, usize)> = group.counts();
            let totals: Option<(usize, usize)> = match counts {
                Some((a, t)) => match (grow.checked_add(a), shrink.checked_add(t)) {
                    (Some(x), Some(y)) => Some((x, y)),
                    _ => None,
                },
                None => None,
            };
            match (moved, totals) {
                (Some(mut m), Some((x, y))) => {
                    let c: usize = group.count_selects();
                    let first: bool = order[k] == 0;
                    proof {
                        lemma_selects_bound(group@, group@.len() as int);
                        lemma_shifted_len(group@, group@.len() as int, grow as nat, shrink as nat);
                        assert(actions_view(m@).len() == m@.len());
                        assert(c <= m@.len());
                        assert(actions_view(actions@ + m@) =~= actions_view(actions@) + actions_view(
                            m@,
                        ));
                    }
                    let ghost before = actions@.len();
                    let ghost added = m@.len();
                    actions.append(&mut m);
                    let total: usize = actions.len();
                    assert(total == before + added);
                    if !found {
                        if first {
                            found = true;
                            primary = selects;
                        } else {
                            selects = selects + c;
                        }
                    }
                    grow = x;
                    shrink = y;
                },
                _ => {
                    proof {
                        assert(flattened_upto(views, order@, k + 1).is_none());
                        lemma_flattened_none_stays(views, order@, k + 1, n as int);
                    }
                    return Err(EditorError::OutOfBounds);
                },
            }
            k += 1;
        }
        if !found {
            primary = selects;
        }
        Ok(EditTransaction { actions, primary })
    }
}

/// There are no more selections among the first `n` actions than actions.
proof fn lemma_selects_bound(actions: Seq<ActionView>, n: int)
    requires
        0 <= n,
    ensures
        selects_upto(actions, n) <= n,
    decreases n,
{
    if n > 0 {
        lemma_selects_bound(actions, n - 1);
    }
}

/// Shifting keeps the number of actions.
proof fn lemma_shifted_len(actions: Seq<ActionView>, n: int, grow: nat, shrink: nat)
    requires
        0 <= n,
        shifted_actions_upto(actions, n, grow, shrink).is_some(),
    ensures
        shifted_actions_upto(actions, n, grow, shrink).unwrap().len() == n,
    decreases n,
{
    if n > 0 {
        lemma_shifted_len(actions, n - 1, grow, shrink);
    }
}

/// The smallest range that covers the first `n` actions, each taken in the text as the
/// transaction leaves it: an edit from its start to the end of what it puts in, a selection as
/// it is. `None` where there is no action.
pub open spec fn covered_upto(actions: Seq<ActionView>, n: int) -> Option<CharIndexRange>
    decreases n,
{
    if n <= 0 {
        None
    } else {
        let mine = match actions[n - 1] {
            ActionView::Edit(e) => CharIndexRange {
                start: e.range.start,
                end: CharIndex(
                    if e.range.start.0 + e.new.len() <= usize::MAX {
                        (e.range.start.0 + e.new.len()) as usize
                    } else {
                        usize::MAX
                    },
                ),
            },
            ActionView::Select(s) => s.range,
        };
        match covered_upto(actions, n - 1) {
            Some(r) => Some(r.spec_hull(mine)),
            None => Some(mine),
        }
    }
}

impl EditTransaction {
    /// The selections that the transaction names, in order.
    pub fn selections(&self) -> (r: Vec<Selection>)
        ensures
            selections_view(r@) == selections_of(self@.0),
    {
        let ghost views = self@.0;
        let mut r: Vec<Selection> = Vec::new();
        let mut i: usize = 0;
        while i < self.actions.len()
            invariant
                i <= self.actions.len(),
                views == actions_view(self.actions@),
                selections_view(r@) == selections_upto(views, i as int),
            decreases self.actions.len() - i,
        {
            if let Action::Select(s) = &self.actions[i] {
                let ghost before = selections_view(r@);
                let copy: Selection = s.duplicate();
                r.push(copy);
                assert(selections_view(r@) =~= before.push(copy@));
            }
            i += 1;
        }
        r
    }

    /// The edits of the transaction, in order.
    pub fn edits(&self) -> (r: Vec<Edit>)
        ensures
            edit_views(r@) == edits_of(self@.0),
    {
        let ghost views = self@.0;
        let mut r: Vec<Edit> = Vec::new();
        let mut i: usize = 0;
        while i < self.actions.len()
            invariant
                i <= self.actions.len(),
                views == actions_view(self.actions@),
                edit_views(r@) == edits_upto(views, i as int),
            decreases self.actions.len() - i,
        {
            if let Action::Edit(e) = &self.actions[i] {
                let ghost before = edit_views(r@);
                let copy: Edit = e.duplicate();
                r.push(copy);
                assert(edit_views(r@) =~= before.push(copy@));
            }
            i += 1;
        }
        r
    }

    /// The smallest range that covers all that the transaction touches, in the text as it
    /// leaves it.
    pub fn range(&self) -> (r: Option<CharIndexRange>)
        ensures
            r == covered_upto(self@.0, self@.0.len() as int),
    {
        let ghost views = self@.0;
        let mut r: Option<CharIndexRange> = None;
        let mut i: usize = 0;
        while i < self.actions.len()
            invariant
                i <= self.actions.len(),
                views == actions_view(self.actions@),
                r == covered_upto(views, i as int),
            decreases self.actions.len() - i,
        {
            let mine: CharIndexRange = match &self.actions[i] {
                Action::Edit(e) => CharIndexRange {
                    start: e.range.start,
                    end: CharIndex(
                        match e.range.start.0.checked_add(e.new_len()) {
                            Some(v) => v,
                            None => usize::MAX,
                        },
                    ),
                },
                Action::Select(s) => s.range,
            };
            r = match r {
                Some(all) => Some(all.hull(&mine)),
                None => Some(mine),
            };
            i += 1;
        }
        r
    }

    /// The transactions as one: each as the group of one cursor.
    pub fn merge(transactions: Vec<EditTransaction>) -> (r: Result<EditTransaction, EditorError>)
        ensures
            match normalized(transaction_groups(transactions@)) {
                Ok(t) => r.is_ok() && r.unwrap()@ == t,
                Err(e) => r == Err::<EditTransaction, EditorError>(e),
            },
    {
        let mut groups: Vec<ActionGroup> = Vec::new();
        let mut i: usize = 0;
        while i < transactions.len()
            invariant
                i <= transactions.len(),
                groups@.len() == i,
                forall|k: int| 0 <= k < i ==> groups@[k]@ == transactions@[k]@.0,
            decreases transactions.len() - i,
        {
            let mut actions: Vec<Action> = Vec::new();
            let mut j: usize = 0;
            while j < transactions[i].actions.len()
                invariant
                    i < transactions.len(),
                    j <= transactions@[i as int].actions@.len(),
                    actions@.len() == j,
                    forall|k: int| 0 <= k < j ==> actions@[k]@ == transactions@[i as int].actions@[k]@,
                decreases transactions@[i as int].actions@.len() - j,
            {
                actions.push(transactions[i].actions[j].duplicate());
                j += 1;
            }
            let g = ActionGroup { actions };
            assert(g@ =~= transactions@[i as int]@.0);
            groups.push(g);
            i += 1;
        }
        assert(groups_view(groups@) =~= transaction_groups(transactions@));
        EditTransaction::from_action_groups(groups)
    }
}

/// The actions of each transaction as one group.
pub open spec fn transaction_groups(transactions: Seq<EditTransaction>) -> Seq<Seq<ActionView>> {
    Seq::new(transactions.len(), |i: int| transactions[i]@.0)
}

} // verus!
