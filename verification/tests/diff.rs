use list_imd::{IterImdExt, ListImd};

#[test]
pub fn test() {
    let first: Vec<u64> = vec![1, 2, 3, 4, 5];
    let second: Vec<u64> = vec![1, 2, 4, 5, 6];

    let mut joined = first.iter_list_imd(second);

    assert_eq!(joined.next(), Some(ListImd::Modify(1, 1)));
    assert_eq!(joined.next(), Some(ListImd::Modify(2, 2)));
    assert_eq!(joined.next(), Some(ListImd::Modify(4, 4)));
    assert_eq!(joined.next(), Some(ListImd::Modify(5, 5)));
    assert_eq!(joined.next(), Some(ListImd::Insert(6)));
    assert_eq!(joined.next(), Some(ListImd::Delete(3)));

    let first: Vec<u64> = vec![1, 2, 4];
    let second: Vec<u64> = vec![1, 3, 4];

    let mut joined = first.iter_list_imd(second);

    assert_eq!(joined.next(), Some(ListImd::Modify(1, 1)));
    assert_eq!(joined.next(), Some(ListImd::Insert(3)));
    assert_eq!(joined.next(), Some(ListImd::Modify(4, 4)));
    assert_eq!(joined.next(), Some(ListImd::Delete(2)));

    let first: Vec<u64> = vec!['a' as u64, 'b' as u64, 'c' as u64];
    let second: Vec<u64> = vec!['a' as u64, 'c' as u64, 'd' as u64];

    let mut joined = first.iter_list_imd_indexed(second);

    assert_eq!(
        joined.next(),
        Some(ListImd::Modify((0, 'a' as u64), (0, 'a' as u64)))
    );
    assert_eq!(
        joined.next(),
        Some(ListImd::Modify((2, 'c' as u64), (1, 'c' as u64)))
    );
    assert_eq!(joined.next(), Some(ListImd::Insert((2, 'd' as u64))));
    assert_eq!(joined.next(), Some(ListImd::Delete((1, 'b' as u64))));
}

fn collect_all(mut it: list_imd::iterators::IterImd) -> Vec<ListImd<u64, u64>> {
    let mut out = Vec::new();
    while let Some(x) = it.next() {
        out.push(x);
    }
    out
}

#[test]
fn completeness_every_key_answered_once() {
    let prev: Vec<u64> = vec![1, 2, 3];
    let next: Vec<u64> = vec![2, 4];
    let out = collect_all(prev.iter_list_imd(next));
    assert_eq!(
        out,
        vec![
            ListImd::Modify(2, 2),
            ListImd::Insert(4),
            ListImd::Delete(1),
            ListImd::Delete(3),
        ]
    );
}

#[test]
fn ordering_inserts_and_modifies_before_deletes() {
    let prev: Vec<u64> = vec![7, 8, 9, 10];
    let next: Vec<u64> = vec![11, 9, 7];
    let out = collect_all(prev.iter_list_imd(next));
    // One Insert/Modify per "next" element, in "next" order.
    assert!(matches!(out[0], ListImd::Insert(11)));
    assert!(matches!(out[1], ListImd::Modify(9, 9)));
    assert!(matches!(out[2], ListImd::Modify(7, 7)));
    // Then the deletions, in "previous" order.
    assert!(matches!(out[3], ListImd::Delete(8)));
    assert!(matches!(out[4], ListImd::Delete(10)));
    assert_eq!(out.len(), 5);
}

#[test]
fn determinism_same_inputs_same_outputs() {
    let prev: Vec<u64> = vec![3, 1, 4, 1, 5];
    let next: Vec<u64> = vec![9, 2, 6, 5, 3];
    let out1 = collect_all(prev.clone().iter_list_imd(next.clone()));
    let out2 = collect_all(prev.iter_list_imd(next));
    assert_eq!(out1, out2);
}

#[test]
fn indexed_move_detection_reports_both_positions() {
    let prev: Vec<u64> = vec!['x' as u64, 'y' as u64];
    let next: Vec<u64> = vec!['y' as u64, 'x' as u64];
    let mut it = prev.iter_list_imd_indexed(next);
    assert_eq!(
        it.next(),
        Some(ListImd::Modify((1, 'y' as u64), (0, 'y' as u64)))
    );
    assert_eq!(
        it.next(),
        Some(ListImd::Modify((0, 'x' as u64), (1, 'x' as u64)))
    );
    assert_eq!(it.next(), None);
}

#[test]
fn boundary_empty_prev_all_inserts() {
    let prev: Vec<u64> = vec![];
    let next: Vec<u64> = vec![4, 5, 6];
    let out = collect_all(prev.iter_list_imd(next));
    assert_eq!(
        out,
        vec![ListImd::Insert(4), ListImd::Insert(5), ListImd::Insert(6)]
    );
}

#[test]
fn boundary_empty_next_all_deletes() {
    let prev: Vec<u64> = vec![4, 5, 6];
    let next: Vec<u64> = vec![];
    let out = collect_all(prev.iter_list_imd(next));
    assert_eq!(
        out,
        vec![ListImd::Delete(4), ListImd::Delete(5), ListImd::Delete(6)]
    );
}

#[test]
fn boundary_both_empty() {
    let prev: Vec<u64> = vec![];
    let next: Vec<u64> = vec![];
    let mut it = prev.iter_list_imd(next);
    assert_eq!(it.next(), None);
    assert_eq!(it.next(), None);
}

#[test]
fn mapped_matches_by_derived_keys() {
    // Values carry data; keys are derived separately, position by position.
    let prev: Vec<u64> = vec![10, 20, 30];
    let prev_keys: Vec<u64> = vec![1, 2, 3];
    let next: Vec<u64> = vec![200, 400];
    let next_keys: Vec<u64> = vec![2, 4];
    let mut it = prev.iter_list_imd_mapped(next, prev_keys, next_keys);
    assert_eq!(it.next(), Some(ListImd::Modify(20, 200)));
    assert_eq!(it.next(), Some(ListImd::Insert(400)));
    assert_eq!(it.next(), Some(ListImd::Delete(10)));
    assert_eq!(it.next(), Some(ListImd::Delete(30)));
    assert_eq!(it.next(), None);
}

#[test]
fn indexed_mapped_matches_by_derived_keys() {
    let prev: Vec<u64> = vec![10, 20];
    let prev_keys: Vec<u64> = vec![1, 2];
    let next: Vec<u64> = vec![99, 20];
    let next_keys: Vec<u64> = vec![3, 2];
    let mut it = prev.iter_list_imd_indexed_mapped(next, prev_keys, next_keys);
    assert_eq!(it.next(), Some(ListImd::Insert((0, 99))));
    assert_eq!(it.next(), Some(ListImd::Modify((1, 20), (1, 20))));
    assert_eq!(it.next(), Some(ListImd::Delete((0, 10))));
    assert_eq!(it.next(), None);
}

#[test]
fn duplicate_keys_last_write_wins_in_map() {
    // Two previous entries share a key: the later value replaces the
    // earlier one, at the earlier one's position.
    let prev: Vec<u64> = vec![10, 20];
    let prev_keys: Vec<u64> = vec![1, 1];
    let next: Vec<u64> = vec![99];
    let next_keys: Vec<u64> = vec![1];
    let mut it = prev.iter_list_imd_mapped(next, prev_keys, next_keys);
    assert_eq!(it.next(), Some(ListImd::Modify(20, 99)));
    assert_eq!(it.next(), None);
}

#[test]
fn duplicate_elements_dedupe_in_set() {
    let prev: Vec<u64> = vec![5, 5];
    let next: Vec<u64> = vec![];
    let out = collect_all(prev.iter_list_imd(next));
    assert_eq!(out, vec![ListImd::Delete(5)]);
}

#[test]
fn matched_key_is_consumed() {
    // A second "next" element with an already-matched key is an insertion.
    let prev: Vec<u64> = vec![1];
    let next: Vec<u64> = vec![1, 1];
    let out = collect_all(prev.iter_list_imd(next));
    assert_eq!(out, vec![ListImd::Modify(1, 1), ListImd::Insert(1)]);
}

#[test]
fn exhausted_iterator_stays_exhausted() {
    let prev: Vec<u64> = vec![1, 2];
    let next: Vec<u64> = vec![2];
    let mut it = prev.iter_list_imd(next);
    assert_eq!(it.next(), Some(ListImd::Modify(2, 2)));
    assert_eq!(it.next(), Some(ListImd::Delete(1)));
    assert_eq!(it.next(), None);
    assert_eq!(it.next(), None);
}
