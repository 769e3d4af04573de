use notes_reminder::selection::{
    get_remind_note_id, least_repeated, min_repeat_count, pick_note_id, SelectionError,
};

const A: u128 = 0xa;
const B: u128 = 0xb;
const C: u128 = 0xc;

#[test]
fn empty_statistics_fail() {
    let stats: Vec<(u128, i64)> = vec![];
    assert_eq!(get_remind_note_id(&stats), Err(SelectionError::EmptyCandidateSet));
    assert_eq!(pick_note_id(&stats, 3), Err(SelectionError::EmptyCandidateSet));
    assert_eq!(min_repeat_count(&stats), None);
    assert!(least_repeated(&stats).is_empty());
}

#[test]
fn ties_are_split_evenly_and_the_larger_count_is_never_picked() {
    let stats = vec![(A, 0), (B, 0), (C, 5)];
    let mut a = 0;
    let mut b = 0;
    for _ in 0..4000 {
        match get_remind_note_id(&stats) {
            Ok(id) if id == A => a += 1,
            Ok(id) if id == B => b += 1,
            other => panic!("unexpected pick {:?}", other),
        }
    }
    assert_eq!(a + b, 4000);
    assert!(a > 1600 && b > 1600, "split {} / {}", a, b);
}

#[test]
fn single_minimum_is_always_picked() {
    let stats = vec![(A, 3), (B, 1), (C, 2)];
    for _ in 0..100 {
        assert_eq!(get_remind_note_id(&stats), Ok(B));
    }
    for draw in 0..10 {
        assert_eq!(pick_note_id(&stats, draw), Ok(B));
    }
}

#[test]
fn picked_note_has_the_minimum_count() {
    let stats = vec![(A, 7), (B, 4), (C, 4), (0xd, 9)];
    assert_eq!(min_repeat_count(&stats), Some(4));
    assert_eq!(least_repeated(&stats), vec![B, C]);
    let id = get_remind_note_id(&stats).unwrap();
    assert!(id == B || id == C);
}

#[test]
fn draw_selects_by_position_among_candidates() {
    let stats = vec![(A, 0), (B, 2), (C, 0)];
    assert_eq!(pick_note_id(&stats, 0), Ok(A));
    assert_eq!(pick_note_id(&stats, 1), Ok(C));
    assert_eq!(pick_note_id(&stats, 2), Ok(A));
}

#[test]
fn negative_and_large_counts_compare_as_integers() {
    let stats = vec![(A, i64::MAX), (B, -1), (C, 0)];
    assert_eq!(min_repeat_count(&stats), Some(-1));
    assert_eq!(get_remind_note_id(&stats), Ok(B));
}
