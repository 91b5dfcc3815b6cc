use local_memory::engine::ranking::foremost;
use local_memory::engine::ranking::strip_keys;

#[test]
fn foremost_orders_by_key() {
    let items = vec![(5u64, 'a'), (3, 'b'), (9, 'c'), (1, 'd')];
    assert_eq!(foremost(items, 10), vec![(1, 'd'), (3, 'b'), (5, 'a'), (9, 'c')]);
}

#[test]
fn foremost_keeps_the_limit() {
    let items = vec![(5u64, 'a'), (3, 'b'), (9, 'c'), (1, 'd')];
    assert_eq!(foremost(items.clone(), 2), vec![(1, 'd'), (3, 'b')]);
    assert_eq!(foremost(items.clone(), 1), vec![(1, 'd')]);
    assert_eq!(foremost(items.clone(), 4), vec![(1, 'd'), (3, 'b'), (5, 'a'), (9, 'c')]);
    assert_eq!(foremost(items, 0), vec![]);
}

#[test]
fn foremost_of_nothing_is_nothing() {
    let items: Vec<(u64, char)> = vec![];
    assert_eq!(foremost(items, 3), vec![]);
}

#[test]
fn foremost_keeps_equal_keys_in_their_order() {
    let items = vec![(2u64, 'a'), (1, 'b'), (2, 'c'), (1, 'd'), (2, 'e')];
    assert_eq!(
        foremost(items.clone(), 5),
        vec![(1, 'b'), (1, 'd'), (2, 'a'), (2, 'c'), (2, 'e')]
    );
    assert_eq!(foremost(items.clone(), 3), vec![(1, 'b'), (1, 'd'), (2, 'a')]);
    assert_eq!(foremost(items, 4), vec![(1, 'b'), (1, 'd'), (2, 'a'), (2, 'c')]);
}

#[test]
fn foremost_agrees_with_a_stable_sort() {
    let mut state: u32 = 99;
    for len in [0usize, 1, 2, 5, 17, 100, 500] {
        let mut items = Vec::with_capacity(len);
        for place in 0..len {
            state = state.wrapping_mul(1_664_525).wrapping_add(1_013_904_223);
            items.push((((state >> 16) % 23) as u64, place));
        }
        let mut sorted = items.clone();
        sorted.sort_by_key(|item| item.0);
        for limit in [0usize, 1, 3, len / 2, len, len + 5] {
            let mut expected = sorted.clone();
            expected.truncate(limit);
            assert_eq!(foremost(items.clone(), limit), expected);
        }
    }
}

#[test]
fn strip_keys_keeps_the_items() {
    assert_eq!(strip_keys(vec![(1u64, 'x'), (7, 'y')]), vec!['x', 'y']);
    assert_eq!(strip_keys(Vec::<(u64, char)>::new()), Vec::<char>::new());
}
