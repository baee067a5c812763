use editor_core::char_index::{ByteRange, CharIndexRange};
use editor_core::edit::{Action, ActionGroup, Edit, EditTransaction};
use editor_core::error::EditorError;
use editor_core::overlay::{map_range_exec, map_ranges_exec, replacement_of};
use editor_core::selection::Selection;
use editor_core::selection_mode::{
    current_index, keep_valid, next_index, pick, previous_index, sort_ranges,
};
use editor_core::components::editor::Movement;
use editor_core::sorting::sort_indices;

fn edit(start: usize, end: usize, new: &str) -> Action {
    Action::Edit(Edit {
        range: CharIndexRange::new(start, end),
        new: new.to_string(),
    })
}

fn select(start: usize, end: usize) -> Action {
    Action::Select(Selection::new(CharIndexRange::new(start, end)))
}

fn ranges(pairs: &[(usize, usize)]) -> Vec<ByteRange> {
    pairs.iter().map(|(a, b)| ByteRange::new(*a, *b)).collect()
}

#[test]
fn groups_go_in_document_order_and_later_ones_are_shifted() {
    let transaction = EditTransaction::from_action_groups(vec![
        ActionGroup::new(vec![edit(10, 12, "abcd"), select(10, 14)]),
        ActionGroup::new(vec![edit(2, 5, ""), select(2, 3)]),
        ActionGroup::new(vec![edit(20, 20, "x"), select(20, 21)]),
    ])
    .unwrap();
    assert_eq!(
        transaction.actions,
        vec![
            edit(2, 5, ""),
            select(2, 3),
            edit(7, 9, "abcd"),
            select(7, 11),
            edit(19, 19, "x"),
            select(19, 20),
        ]
    );
    assert_eq!(transaction.primary, 1);
    assert_eq!(transaction.selections().len(), 3);
    assert_eq!(transaction.edits().len(), 3);
    assert_eq!(transaction.range(), Some(CharIndexRange::new(2, 20)));
}

#[test]
fn overlapping_edits_are_refused() {
    let overlapping = EditTransaction::from_action_groups(vec![
        ActionGroup::new(vec![edit(0, 5, "a")]),
        ActionGroup::new(vec![edit(4, 8, "b")]),
    ]);
    assert_eq!(overlapping.unwrap_err(), EditorError::OverlappingEdits);
    let touching = EditTransaction::from_action_groups(vec![
        ActionGroup::new(vec![edit(0, 5, "a")]),
        ActionGroup::new(vec![edit(5, 8, "b")]),
    ]);
    assert!(touching.is_ok());
    let same_point = EditTransaction::from_action_groups(vec![
        ActionGroup::new(vec![edit(3, 3, "a")]),
        ActionGroup::new(vec![edit(3, 3, "b")]),
    ])
    .unwrap();
    assert_eq!(same_point.actions, vec![edit(3, 3, "a"), edit(4, 4, "b")]);
    let inside = EditTransaction::from_action_groups(vec![
        ActionGroup::new(vec![edit(2, 9, "")]),
        ActionGroup::new(vec![edit(4, 4, "b")]),
    ]);
    assert_eq!(inside.unwrap_err(), EditorError::OverlappingEdits);
}

#[test]
fn a_shift_below_zero_is_refused() {
    let transaction = EditTransaction::from_action_groups(vec![
        ActionGroup::new(vec![edit(0, 9, "")]),
        ActionGroup::new(vec![select(3, 4)]),
    ]);
    assert_eq!(transaction.unwrap_err(), EditorError::OutOfBounds);
}

#[test]
fn no_group_makes_an_empty_transaction() {
    let transaction = EditTransaction::from_action_groups(vec![]).unwrap();
    assert!(transaction.actions.is_empty());
    assert_eq!(transaction.range(), None);
    let merged = EditTransaction::merge(vec![]).unwrap();
    assert!(merged.actions.is_empty());
}

#[test]
fn merged_transactions_shift_one_another() {
    let first =
        EditTransaction::from_action_groups(vec![ActionGroup::new(vec![edit(5, 5, "ab")])])
            .unwrap();
    let second =
        EditTransaction::from_action_groups(vec![ActionGroup::new(vec![edit(1, 2, "")])]).unwrap();
    let merged = EditTransaction::merge(vec![first, second]).unwrap();
    assert_eq!(merged.actions, vec![edit(1, 2, ""), edit(4, 4, "ab")]);
}

#[test]
fn a_group_tells_its_start_counts_and_overlaps() {
    let group = ActionGroup::new(vec![select(1, 2), edit(7, 9, "abc"), edit(4, 5, "")]);
    assert_eq!(group.start(), 4);
    assert_eq!(group.counts(), Some((3, 3)));
    assert_eq!(group.count_selects(), 1);
    assert!(group.intersects(&CharIndexRange::new(8, 20)));
    assert!(!group.intersects(&CharIndexRange::new(5, 7)));
    assert!(group.overlaps(&ActionGroup::new(vec![edit(8, 8, "z")])));
    assert!(!group.overlaps(&ActionGroup::new(vec![select(8, 9)])));
    assert_eq!(ActionGroup::new(vec![select(6, 9)]).start(), 6);
    assert_eq!(ActionGroup::new(vec![]).start(), 0);
    assert_eq!(
        group.shifted_by(2, 5),
        None
    );
    assert_eq!(
        group.shifted_by(5, 2).unwrap(),
        vec![select(4, 5), edit(10, 12, "abc"), edit(7, 8, "")]
    );
}

#[test]
fn ranges_move_with_edits() {
    let replace = Edit {
        range: CharIndexRange::new(4, 8),
        new: "xy".to_string(),
    };
    assert_eq!(
        map_range_exec(CharIndexRange::new(0, 3), &replace),
        CharIndexRange::new(0, 3)
    );
    assert_eq!(
        map_range_exec(CharIndexRange::new(10, 12), &replace),
        CharIndexRange::new(8, 10)
    );
    assert_eq!(
        map_range_exec(CharIndexRange::new(5, 7), &replace),
        CharIndexRange::new(4, 4)
    );
    assert_eq!(
        map_range_exec(CharIndexRange::new(2, 6), &replace),
        CharIndexRange::new(2, 4)
    );
    assert_eq!(
        map_range_exec(CharIndexRange::new(6, 9), &replace),
        CharIndexRange::new(4, 7)
    );
    let insert = Edit {
        range: CharIndexRange::new(3, 3),
        new: "abc".to_string(),
    };
    assert_eq!(
        map_range_exec(CharIndexRange::new(3, 5), &insert),
        CharIndexRange::new(6, 8)
    );
    assert_eq!(
        map_range_exec(CharIndexRange::new(1, 3), &insert),
        CharIndexRange::new(1, 6)
    );
    assert_eq!(
        map_ranges_exec(
            &vec![CharIndexRange::new(10, 12)],
            &vec![edit(0, 2, ""), select(0, 1), edit(0, 0, "abcd")]
        ),
        vec![CharIndexRange::new(12, 14)]
    );
}

#[test]
fn indices_are_sorted_stably() {
    let keys = vec![(3, 0), (1, 5), (3, 0), (1, 2), (0, 9)];
    assert_eq!(sort_indices(&keys), vec![4, 3, 1, 0, 2]);
    assert_eq!(sort_indices(&vec![]), Vec::<usize>::new());
    assert_eq!(
        sort_ranges(&ranges(&[(5, 6), (1, 9), (1, 2)])),
        ranges(&[(1, 2), (1, 9), (5, 6)])
    );
    assert_eq!(
        keep_valid(&ranges(&[(0, 0), (1, 3), (4, 2), (5, 20), (6, 10)]), 10),
        ranges(&[(1, 3), (6, 10)])
    );
}

#[test]
fn movements_pick_among_elements() {
    let elements = ranges(&[(0, 3), (4, 7), (4, 5), (9, 12)]);
    assert_eq!(next_index(&elements, 4), Some(3));
    assert_eq!(next_index(&elements, 9), None);
    assert_eq!(previous_index(&elements, 4), Some(0));
    assert_eq!(previous_index(&elements, 0), None);
    assert_eq!(current_index(&elements, 4), Some(2));
    assert_eq!(current_index(&elements, 6), Some(1));
    assert_eq!(current_index(&elements, 3), Some(0));
    assert_eq!(current_index(&elements, 8), Some(3));
    assert_eq!(current_index(&elements, 13), Some(3));
    assert_eq!(current_index(&vec![], 13), None);
    let cursor = ByteRange::new(4, 7);
    assert_eq!(pick(&elements, cursor, &Movement::First), Some(elements[0]));
    assert_eq!(pick(&elements, cursor, &Movement::Last), Some(elements[3]));
    assert_eq!(pick(&elements, cursor, &Movement::Down), Some(elements[3]));
    assert_eq!(pick(&elements, cursor, &Movement::Up), Some(elements[0]));
    assert_eq!(
        pick(&elements, cursor, &Movement::Index(2)),
        Some(elements[2])
    );
    assert_eq!(pick(&elements, cursor, &Movement::Index(4)), None);
    assert_eq!(pick(&elements, cursor, &Movement::Parent), None);
}

#[test]
fn one_edit_leads_from_a_text_to_another() {
    let chars = |s: &str| -> Vec<char> { s.chars().collect() };
    let e = replacement_of(&chars("foo bar spim"), &chars("bar spim"));
    assert_eq!(e.range, CharIndexRange::new(0, 4));
    assert_eq!(e.new, "");
    let e = replacement_of(&chars("bar spim"), &chars("foo bar spim"));
    assert_eq!(e.range, CharIndexRange::new(0, 0));
    assert_eq!(e.new, "foo ");
    let e = replacement_of(&chars("abcabc"), &chars("abc"));
    assert_eq!(e.range, CharIndexRange::new(3, 6));
    assert_eq!(e.new, "");
    let e = replacement_of(&chars("a-x-z"), &chars("a-yy-z"));
    assert_eq!(e.range, CharIndexRange::new(2, 3));
    assert_eq!(e.new, "yy");
    let e = replacement_of(&chars("same"), &chars("same"));
    assert_eq!(e.range, CharIndexRange::new(4, 4));
    assert_eq!(e.new, "");
    let e = replacement_of(&chars(""), &chars("new"));
    assert_eq!(e.range, CharIndexRange::new(0, 0));
    assert_eq!(e.new, "new");
}

#[test]
fn previous_undoes_next_among_ascending_elements() {
    let elements = ranges(&[(0, 3), (4, 7), (9, 12), (12, 13), (20, 20)]);
    for (i, element) in elements.iter().enumerate() {
        if let Some(next) = next_index(&elements, element.start) {
            assert_eq!(next, i + 1);
            assert_eq!(previous_index(&elements, elements[next].start), Some(i));
        } else {
            assert_eq!(i, elements.len() - 1);
        }
        if let Some(previous) = previous_index(&elements, element.start) {
            assert_eq!(previous + 1, i);
            assert_eq!(next_index(&elements, elements[previous].start), Some(i));
        } else {
            assert_eq!(i, 0);
        }
    }
}
