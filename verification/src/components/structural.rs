use vstd::prelude::*;
use crate::buffer::{text_after, tree_of};
use crate::app::Dispatch;
use crate::buffer::{Buffer, BufferView, has_error_at, node_of_selection};
use crate::components::actions::{
    exchange_actions, exchange_groups, is_blank, is_blank_text, raise_actions, raise_group, within,
};
use crate::components::editing::{as_it_is, outcome, transaction_effect};
use crate::components::editor::{Editor, EditorView, Movement};
use crate::edit::{
    ActionGroup, ActionView, EditTransaction, covered_upto, groups_view, normalized, selections_of,
    selections_view, transaction_groups,
};
use crate::error::EditorError;
use crate::selection::{
    Selection, SelectionMode, SelectionModeView, SelectionSet, SelectionView, views_of,
};
use crate::selection_mode::{get_selection, moved_selection};
use crate::syntax::{SyntaxNode, node_len};

verus! {

/// The two changes that keep the structure of the text: exchanging a selection with another,
/// and raising it over another.
#[derive(Clone, Copy, Debug, PartialEq, Eq, Structural)]
pub enum Transform {
    Exchange,
    Raise,
}

/// The groups of one cursor for a change of the selection `current` with regard to `target`.
pub open spec fn transform_groups(
    text: Seq<char>,
    kind: Transform,
    current: SelectionView,
    target: SelectionView,
) -> Option<Seq<Seq<ActionView>>> {
    match kind {
        Transform::Exchange => match exchange_actions(text, current, target) {
            Some((first, second)) => Some(seq![first, second]),
            None => None,
        },
        Transform::Raise => match raise_actions(text, current, target) {
            Some(group) => Some(seq![group]),
            None => None,
        },
    }
}

/// The actions of one cursor for a change of `current` with regard to `target`, as one list in
/// document order.
pub open spec fn transform_actions(
    text: Seq<char>,
    kind: Transform,
    current: SelectionView,
    target: SelectionView,
) -> Option<Seq<ActionView>> {
    match transform_groups(text, kind, current, target) {
        Some(groups) => match normalized(groups) {
            Ok((actions, _)) => Some(actions),
            Err(_) => None,
        },
        None => None,
    }
}

/// Whether a node has the kind and the length in bytes of another.
pub open spec fn same_shape(a: SyntaxNode, b: SyntaxNode) -> bool {
    a.kind_id == b.kind_id && node_len(a) == node_len(b)
}

/// Whether a change has kept the structure of the text: the node of every selection that the
/// actions name has, in the buffer after the change, the kind and the length in bytes of the
/// node that `current` stood for before it, and no syntax error lies where the actions
/// reached.
pub open spec fn structure_kept(
    before: BufferView,
    after: BufferView,
    current: SelectionView,
    actions: Seq<ActionView>,
) -> bool {
    match node_of_selection(before, current.range) {
        Some(node) => {
            &&& forall|i: int|
                0 <= i < selections_of(actions).len() ==> match node_of_selection(
                    after,
                    (#[trigger] selections_of(actions)[i]).range,
                ) {
                    Some(n) => same_shape(n, node),
                    None => false,
                }
            &&& match covered_upto(actions, actions.len() as int) {
                Some(r) => !has_error_at(after, r),
                None => true,
            }
        },
        None => false,
    }
}

/// Whether a change has kept the structure of the text.
pub fn keeps_structure(before: &Buffer, after: &Buffer, current: &Selection, transaction: &EditTransaction) -> (b:
    bool)
    requires
        before.wf(),
        after.wf(),
    ensures
        b == structure_kept(before@, after@, current@, transaction@.0),
{
    let node: SyntaxNode = match before.get_current_node(current) {
        Some(n) => n,
        None => {
            return false;
        },
    };
    let selections: Vec<Selection> = transaction.selections();
    let mut i: usize = 0;
    while i < selections.len()
        invariant
            i <= selections.len(),
            after.wf(),
            node_of_selection(before@, current@.range) == Some(node),
            selections_view(selections@) == selections_of(transaction@.0),
            forall|k: int|
                0 <= k < i ==> match node_of_selection(
                    after@,
                    (#[trigger] selections_of(transaction@.0)[k]).range,
                ) {
                    Some(n) => same_shape(n, node),
                    None => false,
                },
        decreases selections.len() - i,
    {
        assert(selections_view(selections@)[i as int] == selections@[i as int]@);
        match after.get_current_node(&selections[i]) {
            Some(n) => {
                let same: bool = n.kind_id == node.kind_id && n.end_byte >= n.start_byte
                    && node.end_byte >= node.start_byte && n.end_byte - n.start_byte
                    == node.end_byte - node.start_byte;
                let same_reversed: bool = n.kind_id == node.kind_id && n.end_byte < n.start_byte
                    && node.end_byte < node.start_byte && n.start_byte - n.end_byte
                    == node.start_byte - node.end_byte;
                if !(same || same_reversed) {
                    assert(selections_of(transaction@.0)[i as int] == selections@[i as int]@);
                    assert(!same_shape(n, node));
                    return false;
                }
            },
            None => {
                assert(selections_of(transaction@.0)[i as int] == selections@[i as int]@);
                return false;
            },
        }
        i += 1;
    }
    match transaction.range() {
        Some(r) => !after.has_syntax_error_at(r),
        None => true,
    }
}

/// The transaction of one cursor for a change of `current` with regard to `target`.
pub fn transform_transaction(buffer: &Buffer, kind: Transform, current: &Selection, target: &Selection) -> (r:
    Option<EditTransaction>)
    ensures
        match transform_actions(buffer@.text, kind, current@, target@) {
            Some(actions) => r.is_some() && r.unwrap()@.0 == actions,
            None => r.is_none(),
        },
{
    let mut groups: Vec<ActionGroup> = Vec::new();
    match kind {
        Transform::Exchange => match exchange_groups(buffer, current, target) {
            Some((first, second)) => {
                groups.push(first);
                groups.push(second);
                assert(groups_view(groups@) =~= seq![first@, second@]);
            },
            None => {
                return None;
            },
        },
        Transform::Raise => match raise_group(buffer, current, target) {
            Some(group) => {
                groups.push(group);
                assert(groups_view(groups@) =~= seq![group@]);
            },
            None => {
                return None;
            },
        },
    }
    match EditTransaction::from_action_groups(groups) {
        Ok(t) => Some(t),
        Err(_) => None,
    }
}

/// Whether a target lets a change go through, by what a trial on a copy of the buffer shows:
/// always, in a mode that does not go by the nodes of the syntax tree; else where the target is
/// not blank and the structure is kept.
pub open spec fn accepted(
    before: BufferView,
    after: BufferView,
    mode: SelectionModeView,
    current: SelectionView,
    target: SelectionView,
    actions: Seq<ActionView>,
) -> bool {
    !mode.is_node() || (within(target.extended_range(), before.text) && !is_blank(
        before.text.subrange(
            target.extended_range().start.0 as int,
            target.extended_range().end.0 as int,
        ),
    ) && structure_kept(before, after, current, actions))
}

/// Whether a target lets a change go through, given the buffer as a trial of the change left
/// it.
pub fn accepts(
    before: &Buffer,
    after: &Buffer,
    mode: &SelectionMode,
    current: &Selection,
    target: &Selection,
    transaction: &EditTransaction,
) -> (b: bool)
    requires
        before.wf(),
        after.wf(),
    ensures
        b == accepted(before@, after@, mode@, current@, target@, transaction@.0),
{
    if !mode.is_node() {
        return true;
    }
    let solid: bool = match before.slice(&target.extended_range()) {
        Ok(text) => !is_blank_text(text.as_str()),
        Err(_) => false,
    };
    solid && keeps_structure(before, after, current, transaction)
}

/// The actions of a change of `current` with regard to `target`, where there are such actions
/// and they can be applied to the text.
pub open spec fn applicable(
    text: Seq<char>,
    kind: Transform,
    current: SelectionView,
    target: SelectionView,
) -> Option<Seq<ActionView>> {
    match transform_actions(text, kind, current, target) {
        Some(actions) => if text_after(text, actions, actions.len() as int) is Ok {
            Some(actions)
        } else {
            None
        },
        None => None,
    }
}

/// The buffer as a trial of a change leaves it, as far as its text and its syntax tree go: the
/// text that the actions make, and the tree that this text has under the grammar.
pub open spec fn tried(b: BufferView, actions: Seq<ActionView>) -> BufferView {
    match text_after(b.text, actions, actions.len() as int) {
        Ok(text) => BufferView { text, tree: tree_of(b.language, text), ..b },
        Err(_) => b,
    }
}

/// The actions of a change of `current` with regard to `target`, where the change goes
/// through: it can be applied, and the target is accepted by what the trial shows.
pub open spec fn passing(
    v: EditorView,
    kind: Transform,
    current: SelectionView,
    target: SelectionView,
) -> Option<Seq<ActionView>> {
    match applicable(v.buffer.text, kind, current, target) {
        Some(actions) => if accepted(
            v.buffer,
            tried(v.buffer, actions),
            v.selection_set.mode,
            current,
            target,
            actions,
        ) {
            Some(actions)
        } else {
            None
        },
        None => None,
    }
}

/// Whether a target is accepted depends on the text and the syntax tree of the trial alone.
pub proof fn lemma_accepted_reads(
    before: BufferView,
    a: BufferView,
    b: BufferView,
    mode: SelectionModeView,
    current: SelectionView,
    target: SelectionView,
    actions: Seq<ActionView>,
)
    requires
        a.text == b.text,
        a.tree == b.tree,
    ensures
        accepted(before, a, mode, current, target, actions) == accepted(
            before,
            b,
            mode,
            current,
            target,
            actions,
        ),
        structure_kept(before, a, current, actions) == structure_kept(before, b, current, actions),
{
    assert forall|r: crate::char_index::CharIndexRange|
        node_of_selection(a, r) == node_of_selection(b, r) && has_error_at(a, r) == has_error_at(
            b,
            r,
        ) by {}
}

/// The first target whose change goes through, looked for from `target` on by going on with
/// `movement` at most `fuel` times. `None` where the movement comes back to `current`, comes
/// to rest or is refused before such a target is found.
pub open spec fn first_applicable(
    v: EditorView,
    current: SelectionView,
    kind: Transform,
    movement: Movement,
    target: SelectionView,
    fuel: nat,
) -> Option<(SelectionView, Seq<ActionView>)>
    decreases fuel,
{
    if target == current {
        None
    } else {
        match passing(v, kind, current, target) {
            Some(actions) => Some((target, actions)),
            None => if fuel == 0 {
                None
            } else {
                match moved_selection(
                    v.buffer,
                    target,
                    v.selection_set.mode,
                    movement,
                    v.selection_set.filters,
                ) {
                    Ok(next) => if next == target {
                        None
                    } else {
                        first_applicable(v, current, kind, movement, next, (fuel - 1) as nat)
                    },
                    Err(_) => None,
                }
            },
        }
    }
}

/// The first target of a movement from `current` whose change goes through, with its actions;
/// the movement is followed no more often than the text has bytes.
pub open spec fn first_target(
    v: EditorView,
    current: SelectionView,
    kind: Transform,
    movement: Movement,
) -> Option<(SelectionView, Seq<ActionView>)> {
    match moved_selection(v.buffer, current, v.selection_set.mode, movement, v.selection_set.filters) {
        Ok(target) => first_applicable(
            v,
            current,
            kind,
            movement,
            target,
            crate::text::byte_len(v.buffer.text),
        ),
        Err(_) => None,
    }
}

impl Editor {
    /// Looks for the first target, going on from `current` by `movement`, with regard to which
    /// the change goes through; each candidate is tried on a copy of the buffer. `None` where
    /// the movement leads nowhere or comes to rest before such a target is found. In a mode
    /// that does not go by the nodes of the syntax tree every change that can be applied goes
    /// through; in the other modes the target must not be blank, and the syntax tree of the
    /// text that the change makes must keep the structure.
    pub fn get_valid_selection(&self, current: &Selection, kind: Transform, movement: &Movement) -> (r:
        Option<(Selection, EditTransaction)>)
        requires
            self.wf(),
        ensures
            match first_target(self@, current@, kind, *movement) {
                Some((target, actions)) => r.is_some() && r.unwrap().0@ == target
                    && r.unwrap().1@.0 == actions,
                None => r.is_none(),
            },
            match r {
                Some((target, transaction)) => target@ != current@ && passing(
                    self@,
                    kind,
                    current@,
                    target@,
                ) == Some(transaction@.0),
                None => true,
            },
    {
        let mut target: Selection = match get_selection(
            &self.buffer,
            current,
            &self.selection_set.mode,
            movement,
            &self.selection_set.filters,
        ) {
            Ok(t) => t,
            Err(_) => {
                return None;
            },
        };
        let mut fuel: usize = self.buffer.len_bytes();
        loop
            invariant
                self.wf(),
                first_target(self@, current@, kind, *movement) == first_applicable(
                    self@,
                    current@,
                    kind,
                    *movement,
                    target@,
                    fuel as nat,
                ),
            decreases fuel,
        {
            if target.same(current) {
                return None;
            }
            match transform_transaction(&self.buffer, kind, current, &target) {
                Some(transaction) => {
                    let mut trial: Buffer = self.buffer.duplicate();
                    let applied = trial.apply_edit_transaction(
                        &transaction,
                        self.selection_set.duplicate(),
                    );
                    proof {
                        if applied.is_ok() {
                            trial.lemma_wf();
                            lemma_accepted_reads(
                                self@.buffer,
                                trial@,
                                tried(self@.buffer, transaction@.0),
                                self@.selection_set.mode,
                                current@,
                                target@,
                                transaction@.0,
                            );
                        }
                    }
                    if applied.is_ok() && accepts(
                        &self.buffer,
                        &trial,
                        &self.selection_set.mode,
                        current,
                        &target,
                        &transaction,
                    ) {
                        return Some((target, transaction));
                    }
                },
                None => {},
            }
            if fuel == 0 {
                return None;
            }
            fuel -= 1;
            let next: Selection = match get_selection(
                &self.buffer,
                &target,
                &self.selection_set.mode,
                movement,
                &self.selection_set.filters,
            ) {
                Ok(t) => t,
                Err(_) => {
                    return None;
                },
            };
            if next.same(&target) {
                return None;
            }
            target = next;
        }
    }
}

/// The actions of those among the first `n` cursors that have a target, each cursor's as one
/// group.
pub open spec fn chosen_groups(
    text: Seq<char>,
    kind: Transform,
    selections: Seq<SelectionView>,
    targets: Seq<Option<SelectionView>>,
    n: int,
) -> Seq<Seq<ActionView>>
    decreases n,
{
    if n <= 0 {
        Seq::empty()
    } else {
        let rest = chosen_groups(text, kind, selections, targets, n - 1);
        match targets[n - 1] {
            Some(t) => match transform_actions(text, kind, selections[n - 1], t) {
                Some(actions) => rest.push(actions),
                None => rest,
            },
            None => rest,
        }
    }
}

/// The target of a search, without its actions.
pub open spec fn target_of(found: Option<(SelectionView, Seq<ActionView>)>) -> Option<
    SelectionView,
> {
    match found {
        Some((target, _)) => Some(target),
        None => None,
    }
}

/// Whether the buffer that a change leaves is checked once more: with one cursor in a mode that
/// goes by the nodes of the syntax tree, and one group of actions.
pub open spec fn is_checked(before: EditorView, groups: Seq<Seq<ActionView>>) -> bool {
    before.selection_set.secondary.len() == 0 && before.selection_set.mode.is_node()
        && groups.len() == 1
}

/// How a change settles: the transaction of `groups` leads from `before` to `mid` with the
/// result `done`; where it is checked and the structure is not kept in `mid`, the editor goes
/// back to where it was and nothing is asked of the surroundings; else `mid` and `done` stand.
pub open spec fn settled(
    before: EditorView,
    after: EditorView,
    groups: Seq<Seq<ActionView>>,
    checked: bool,
    mid: EditorView,
    done: Result<Vec<Dispatch>, EditorError>,
    r: Result<Vec<Dispatch>, EditorError>,
) -> bool {
    &&& transaction_effect(before, mid, groups, done, as_it_is())
    &&& if done.is_ok() && checked && !structure_kept(
        before.buffer,
        mid.buffer,
        before.selection_set.primary,
        outcome(before.buffer.text, groups).unwrap().0,
    ) {
        after == before && r.is_ok() && r.unwrap()@.len() == 0
    } else {
        after == mid && r == done
    }
}

/// What a change that keeps the structure does to an editor, given the target found for each
/// cursor: the first on the way of `movement` from the cursor with regard to which the change
/// goes through, or none. The changes of the cursors go through as one transaction. With one
/// cursor in a mode that goes by the nodes of the syntax tree, the buffer as the transaction
/// leaves it is checked once more: where the structure is not kept in it, the editor stays as
/// it was.
pub open spec fn transformed(
    before: EditorView,
    after: EditorView,
    kind: Transform,
    movement: Movement,
    targets: Seq<Option<SelectionView>>,
    r: Result<Vec<Dispatch>, EditorError>,
) -> bool {
    let groups = chosen_groups(
        before.buffer.text,
        kind,
        before.selection_set.all(),
        targets,
        before.selection_set.all().len() as int,
    );
    let checked = is_checked(before, groups);
    &&& targets.len() == before.selection_set.all().len()
    &&& forall|k: int|
        0 <= k < targets.len() ==> #[trigger] targets[k] == target_of(
            first_target(before, before.selection_set.all()[k], kind, movement),
        )
    &&& exists|mid: EditorView, done: Result<Vec<Dispatch>, EditorError>|
        settled(before, after, groups, checked, mid, done, r)
}

/// Where a change of one cursor in a mode that goes by the nodes of the syntax tree has gone
/// through, the node of every selection that the change names has the kind of the node that
/// the cursor stood for before.
pub proof fn lemma_transform_keeps_kind(
    before: EditorView,
    after: EditorView,
    kind: Transform,
    movement: Movement,
    targets: Seq<Option<SelectionView>>,
    r: Result<Vec<Dispatch>, EditorError>,
    i: int,
)
    requires
        transformed(before, after, kind, movement, targets, r),
        after != before,
        r.is_ok(),
        before.selection_set.secondary.len() == 0,
        before.selection_set.mode.is_node(),
        chosen_groups(before.buffer.text, kind, before.selection_set.all(), targets, 1).len() == 1,
        0 <= i < selections_of(
            outcome(
                before.buffer.text,
                chosen_groups(before.buffer.text, kind, before.selection_set.all(), targets, 1),
            ).unwrap().0,
        ).len(),
    ensures
        node_of_selection(before.buffer, before.selection_set.primary.range).is_some(),
        node_of_selection(
            after.buffer,
            selections_of(
                outcome(
                    before.buffer.text,
                    chosen_groups(before.buffer.text, kind, before.selection_set.all(), targets, 1),
                ).unwrap().0,
            )[i].range,
        ).is_some(),
        node_of_selection(
            after.buffer,
            selections_of(
                outcome(
                    before.buffer.text,
                    chosen_groups(before.buffer.text, kind, before.selection_set.all(), targets, 1),
                ).unwrap().0,
            )[i].range,
        ).unwrap().kind_id == node_of_selection(
            before.buffer,
            before.selection_set.primary.range,
        ).unwrap().kind_id,
{
    assert(before.selection_set.all().len() == 1);
    let groups = chosen_groups(before.buffer.text, kind, before.selection_set.all(), targets, 1);
    let (mid, done) = choose|mid: EditorView, done: Result<Vec<Dispatch>, EditorError>|
        settled(before, after, groups, true, mid, done, r);
    assert(after == mid && r == done);
}

impl Editor {
    /// The target of every cursor, and the groups of actions of the cursors that have one.
    fn gather(&self, kind: Transform, movement: &Movement) -> (r: (
        Vec<ActionGroup>,
        Ghost<Seq<Option<SelectionView>>>,
    ))
        requires
            self.wf(),
        ensures
            r.1@.len() == self@.selection_set.all().len(),
            forall|k: int|
                0 <= k < r.1@.len() ==> #[trigger] r.1@[k] == target_of(
                    first_target(self@, self@.selection_set.all()[k], kind, *movement),
                ),
            groups_view(r.0@) == chosen_groups(
                self@.buffer.text,
                kind,
                self@.selection_set.all(),
                r.1@,
                self@.selection_set.all().len() as int,
            ),
    {
        let ghost before = self@;
        let ghost text = self@.buffer.text;
        let selections: Vec<Selection> = self.selection_set.selections();
        let ghost mut targets: Seq<Option<SelectionView>> = Seq::empty();
        let mut groups: Vec<ActionGroup> = Vec::new();
        let mut i: usize = 0;
        while i < selections.len()
            invariant
                i <= selections.len(),
                self.wf(),
                before == self@,
                text == before.buffer.text,
                views_of(selections@) == before.selection_set.all(),
                targets.len() == i,
                forall|k: int|
                    0 <= k < i ==> #[trigger] targets[k] == target_of(
                        first_target(before, before.selection_set.all()[k], kind, *movement),
                    ),
                groups_view(groups@) == chosen_groups(
                    text,
                    kind,
                    before.selection_set.all(),
                    targets,
                    i as int,
                ),
            decreases selections.len() - i,
        {
            assert(views_of(selections@)[i as int] == selections@[i as int]@);
            let ghost earlier = targets;
            match self.get_valid_selection(&selections[i], kind, movement) {
                Some((target, transaction)) => {
                    proof {
                        targets = targets.push(Some(target@));
                    }
                    let g = ActionGroup { actions: transaction.actions };
                    assert(g@ =~= transaction@.0);
                    crate::components::editing::push_group(&mut groups, g);
                },
                None => {
                    proof {
                        targets = targets.push(None);
                    }
                },
            }
            proof {
                lemma_chosen_prefix(text, kind, before.selection_set.all(), earlier, targets, i as int);
            }
            i += 1;
        }
        (groups, Ghost(targets))
    }

    /// Applies the groups of a change as one transaction. With one cursor in a mode that goes
    /// by the nodes of the syntax tree and one group, the editor goes back to where it was
    /// where the structure is not kept.
    fn settle(&mut self, groups: Vec<ActionGroup>) -> (r: Result<Vec<Dispatch>, EditorError>)
        requires
            old(self).wf(),
        ensures
            final(self).wf(),
            exists|mid: EditorView, done: Result<Vec<Dispatch>, EditorError>|
                settled(
                    old(self)@,
                    final(self)@,
                    groups_view(groups@),
                    is_checked(old(self)@, groups_view(groups@)),
                    mid,
                    done,
                    r,
                ),
    {
        let ghost before = self@;
        let ghost all = groups_view(groups@);
        let selections: Vec<Selection> = self.selection_set.selections();
        let checked: bool = selections.len() == 1 && self.selection_set.mode.is_node()
            && groups.len() == 1;
        assert(views_of(selections@).len() == selections@.len());
        assert(checked == is_checked(before, all));
        let transaction: EditTransaction = match EditTransaction::from_action_groups(groups) {
            Ok(t) => t,
            Err(e) => {
                let ghost refused = Err::<Vec<Dispatch>, EditorError>(e);
                assert(settled(before, self@, all, checked, self@, refused, refused));
                return Err(e);
            },
        };
        let buffer: Buffer = self.buffer.duplicate();
        let selection_set: SelectionSet = self.selection_set.duplicate();
        let scroll_offset: u16 = self.scroll_offset;
        let alignment = self.current_view_alignment;
        let r = self.apply_edit_transaction(&transaction);
        let ghost mid = self@;
        if r.is_ok() && checked {
            assert(views_of(selections@)[0] == selections@[0]@);
            assert(before.selection_set.all()[0] == before.selection_set.primary);
            if !keeps_structure(&buffer, &self.buffer, &selections[0], &transaction) {
                self.buffer = buffer;
                self.selection_set = selection_set;
                self.scroll_offset = scroll_offset;
                self.current_view_alignment = alignment;
                let none: Vec<Dispatch> = Vec::new();
                let ghost nothing = Ok::<Vec<Dispatch>, EditorError>(none);
                assert(settled(before, self@, all, checked, mid, r, nothing));
                return Ok(none);
            }
        }
        assert(settled(before, self@, all, checked, mid, r, r));
        r
    }

    /// Changes every selection with regard to the first target, going on by `movement`, that
    /// lets the change go through.
    pub fn transform(&mut self, kind: Transform, movement: Movement) -> (r: Result<
        Vec<Dispatch>,
        EditorError,
    >)
        requires
            old(self).wf(),
        ensures
            final(self).wf(),
            exists|targets: Seq<Option<SelectionView>>|
                transformed(old(self)@, final(self)@, kind, movement, targets, r),
    {
        let (groups, Ghost(targets)) = self.gather(kind, &movement);
        let r = self.settle(groups);
        assert(transformed(old(self)@, self@, kind, movement, targets, r));
        r
    }

    /// Exchanges every selection with the element that `movement` leads to, or the first
    /// beyond it with which the structure of the text is kept.
    pub fn exchange(&mut self, movement: Movement) -> (r: Result<Vec<Dispatch>, EditorError>)
        requires
            old(self).wf(),
        ensures
            final(self).wf(),
            exists|targets: Seq<Option<SelectionView>>|
                transformed(old(self)@, final(self)@, Transform::Exchange, movement, targets, r),
    {
        self.transform(Transform::Exchange, movement)
    }

    /// Puts every selection in the place of what it and the element that `movement` leads to
    /// cover, or the first element beyond with which the structure of the text is kept.
    pub fn replace(&mut self, movement: Movement) -> (r: Result<Vec<Dispatch>, EditorError>)
        requires
            old(self).wf(),
        ensures
            final(self).wf(),
            exists|targets: Seq<Option<SelectionView>>|
                transformed(old(self)@, final(self)@, Transform::Raise, movement, targets, r),
    {
        self.transform(Transform::Raise, movement)
    }
}

/// The groups chosen for the first `n` selections depend on the first `n` targets alone.
proof fn lemma_chosen_prefix(
    text: Seq<char>,
    kind: Transform,
    selections: Seq<SelectionView>,
    a: Seq<Option<SelectionView>>,
    b: Seq<Option<SelectionView>>,
    n: int,
)
    requires
        0 <= n <= a.len(),
        n <= b.len(),
        forall|k: int| 0 <= k < n ==> a[k] == b[k],
    ensures
        chosen_groups(text, kind, selections, a, n) == chosen_groups(text, kind, selections, b, n),
    decreases n,
{
    if n > 0 {
        lemma_chosen_prefix(text, kind, selections, a, b, n - 1);
    }
}

} // verus!
