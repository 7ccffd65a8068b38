use home_cook_book::entries::{
    add_entry, entries_into_signals, fetch_entries_from_signals, is_first_entry, is_last_entry, move_entry_down,
    move_entry_up, remove_entry,
};
use home_cook_book::recipe::{RecipeNote, RecipeTag};

fn note(x: &str) -> RecipeNote {
    RecipeNote { content: x.to_string() }
}

#[test]
fn numbering_entries() {
    let v = entries_into_signals(Some(vec![note("a"), note("b")]));
    assert_eq!(v, vec![(0, note("a")), (1, note("b"))]);
    assert_eq!(entries_into_signals::<RecipeNote>(None), vec![]);
}

#[test]
fn fetching_entries_drops_empty_ones() {
    assert_eq!(fetch_entries_from_signals::<RecipeNote>(vec![]), None);
    assert_eq!(fetch_entries_from_signals(vec![(0, note("")), (1, note("x"))]), Some(vec![note("x")]));
    assert_eq!(fetch_entries_from_signals(vec![(0, note(""))]), Some(vec![]));
}

#[test]
fn add_move_remove() {
    let mut v = entries_into_signals(Some(vec![note("a"), note("b"), note("c")]));
    add_entry(&mut v);
    assert_eq!(v[3], (3, note("")));
    move_entry_up(&mut v, 2);
    assert_eq!(v, vec![(0, note("a")), (2, note("c")), (1, note("b")), (3, note(""))]);
    move_entry_down(&mut v, 2);
    assert_eq!(v, vec![(0, note("a")), (1, note("b")), (2, note("c")), (3, note(""))]);
    move_entry_up(&mut v, 0);
    move_entry_down(&mut v, 3);
    move_entry_up(&mut v, 99);
    assert_eq!(v, vec![(0, note("a")), (1, note("b")), (2, note("c")), (3, note(""))]);
    move_entry_down(&mut v, 0);
    remove_entry(&mut v, 2);
    assert_eq!(v, vec![(0, note("b")), (1, note("a")), (2, note(""))]);
    assert!(is_first_entry(&v, 0));
    assert!(!is_first_entry(&v, 1));
    assert!(is_last_entry(&v, 2));
    let mut t = vec![(0u16, RecipeTag { name: "x".to_string() })];
    remove_entry(&mut t, 0);
    assert!(t.is_empty());
}

#[test]
fn unchanged_lists_gather_back() {
    let tags = vec![RecipeTag { name: "a".to_string() }, RecipeTag { name: "".to_string() }, RecipeTag { name: "b".to_string() }];
    let gathered = fetch_entries_from_signals(entries_into_signals(Some(tags)));
    assert_eq!(gathered, Some(vec![RecipeTag { name: "a".to_string() }, RecipeTag { name: "b".to_string() }]));
    assert_eq!(fetch_entries_from_signals(entries_into_signals::<RecipeNote>(Some(vec![]))), None);
    assert_eq!(fetch_entries_from_signals(entries_into_signals::<RecipeNote>(None)), None);
}
