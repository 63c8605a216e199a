use n_orbital::{
    massive_pairs, ordered_pair_count, test_massive_pairs, unordered_pair_count, LIST_LIMIT,
};


#[test]
fn massive_pairs_of_four_come_in_lexicographic_order() {
    assert_eq!(
        massive_pairs(4),
        Some(vec![(0, 1), (0, 2), (0, 3), (1, 2), (1, 3), (2, 3)])
    );
}

#[test]
fn massive_pairs_of_two_is_the_one_pair() {
    assert_eq!(massive_pairs(2), Some(vec![(0, 1)]));
}

#[test]
fn fewer_than_two_massive_bodies_give_no_pair() {
    assert_eq!(massive_pairs(0), Some(vec![]));
    assert_eq!(massive_pairs(1), Some(vec![]));
}

#[test]
fn test_massive_pairs_come_test_by_test() {
    assert_eq!(
        test_massive_pairs(2, 3),
        Some(vec![(0, 0), (0, 1), (0, 2), (1, 0), (1, 1), (1, 2)])
    );
}

#[test]
fn test_massive_pairs_are_not_symmetric_in_their_arguments() {
    assert_eq!(test_massive_pairs(1, 2), Some(vec![(0, 0), (0, 1)]));
    assert_eq!(test_massive_pairs(2, 1), Some(vec![(0, 0), (1, 0)]));
}

#[test]
fn no_test_particle_or_no_massive_body_gives_no_pair() {
    assert_eq!(test_massive_pairs(0, 5), Some(vec![]));
    assert_eq!(test_massive_pairs(5, 0), Some(vec![]));
    assert_eq!(test_massive_pairs(0, 0), Some(vec![]));
}

#[test]
fn every_unordered_pair_is_listed_exactly_once() {
    let n = 9;
    let pairs = massive_pairs(n).unwrap();
    assert_eq!(pairs.len(), n * (n - 1) / 2);
    for a in 0..n {
        for b in 0..n {
            let seen = pairs
                .iter()
                .filter(|&&(x, y)| (x, y) == (a, b) || (x, y) == (b, a))
                .count();
            assert_eq!(seen, if a == b { 0 } else { 1 }, "pair ({a}, {b})");
        }
    }
}

#[test]
fn every_listed_unordered_pair_has_its_lower_index_first() {
    for &(a, b) in massive_pairs(12).unwrap().iter() {
        assert!(a < b && b < 12);
    }
}

#[test]
fn every_ordered_pair_is_listed_exactly_once_at_its_place() {
    let (tests, massives) = (5, 7);
    let pairs = test_massive_pairs(tests, massives).unwrap();
    assert_eq!(pairs.len(), tests * massives);
    for t in 0..tests {
        for m in 0..massives {
            assert_eq!(pairs[t * massives + m], (t, m));
            assert_eq!(pairs.iter().filter(|&&p| p == (t, m)).count(), 1);
        }
    }
}

#[test]
fn pair_counts_follow_the_formulas() {
    assert_eq!(ordered_pair_count(3, 4), Some(12));
    assert_eq!(ordered_pair_count(0, 4), Some(0));
    assert_eq!(unordered_pair_count(0), Some(0));
    assert_eq!(unordered_pair_count(1), Some(0));
    assert_eq!(unordered_pair_count(2), Some(1));
    assert_eq!(unordered_pair_count(4), Some(6));
    assert_eq!(unordered_pair_count(5), Some(10));
    assert_eq!(unordered_pair_count(1000), Some(499_500));
    assert_eq!(unordered_pair_count(1001), Some(500_500));
}

#[test]
fn pair_counts_agree_with_the_lists() {
    for n in 0..20 {
        assert_eq!(unordered_pair_count(n), Some(massive_pairs(n).unwrap().len()));
        assert_eq!(
            ordered_pair_count(n, 3),
            Some(test_massive_pairs(n, 3).unwrap().len())
        );
    }
}

#[test]
fn a_count_at_the_limit_is_given_and_one_above_is_not() {
    assert_eq!(ordered_pair_count(LIST_LIMIT, 1), Some(LIST_LIMIT));
    assert_eq!(ordered_pair_count(1, LIST_LIMIT), Some(LIST_LIMIT));
    assert_eq!(ordered_pair_count(LIST_LIMIT + 1, 1), None);
    assert_eq!(ordered_pair_count(1, LIST_LIMIT + 1), None);
    assert_eq!(ordered_pair_count(usize::MAX, usize::MAX), None);
    assert_eq!(ordered_pair_count(usize::MAX, 0), Some(0));
}

#[test]
fn an_unordered_count_that_overflows_is_not_given() {
    assert_eq!(unordered_pair_count(usize::MAX), None);
    assert_eq!(unordered_pair_count(usize::MAX - 1), None);
    assert_eq!(unordered_pair_count(1 << 40), None);
}

#[test]
fn lists_too_long_to_hold_are_refused() {
    assert_eq!(test_massive_pairs(usize::MAX, 2), None);
    assert_eq!(test_massive_pairs(LIST_LIMIT + 1, 1), None);
    assert_eq!(massive_pairs(usize::MAX), None);
    assert_eq!(massive_pairs(1 << 40), None);
}
