use dcs_kneeboard::rank::{best_of, rank};
use dcs_kneeboard::similarity::{positive, similarity, single_key, FULL_KEY, SAME};

const WORDS: [&str; 7] = ["", "next", "nest", "previous page", "next page", "näxt", "x"];

#[test]
fn similarity_is_that_of_jaro_and_winkler() {
    for a in WORDS {
        for b in WORDS {
            assert_eq!(similarity(a, b), strsim::jaro_winkler(a, b).to_bits());
        }
    }
    assert_eq!(f64::from_bits(similarity("martha", "marhta")), 0.9611111111111111);
    assert_eq!(similarity("next", "next"), SAME);
    assert_eq!(similarity("next", ""), 0);
}

#[test]
fn keys_are_numbers_in_single_precision() {
    for x in [0.5_f64, 0.7, 0.8, 0.85, 0.9611111111111111, 1.0 / 3.0, 1.0, 0.999999999999] {
        let key = single_key(x.to_bits());
        assert_eq!(f64::from_bits(key << 29), f64::from(x as f32));
    }
    assert_eq!(single_key(SAME), FULL_KEY);
}

#[test]
fn rounding_keeps_the_order() {
    let mut last = 0;
    for i in 1..=1000 {
        let key = single_key((f64::from(i) / 1000.0).to_bits());
        assert!(key >= last);
        last = key;
    }
}

#[test]
fn only_numbers_above_zero_are_positive() {
    assert!(positive(0.85_f64.to_bits()));
    assert!(!positive(0.0_f64.to_bits()));
    assert!(!positive((-0.0_f64).to_bits()));
    assert!(!positive((-1.0_f64).to_bits()));
}

#[test]
fn the_first_of_equals_ranks_first() {
    assert_eq!(rank(&vec![3, 9, 3, 7]), vec![1, 3, 0, 2]);
    assert_eq!(rank(&Vec::new()), Vec::<usize>::new());
}

#[test]
fn the_best_reach_the_threshold() {
    assert_eq!(best_of(&vec![3, 9, 3, 7], 3, 3), vec![1, 3, 0]);
    assert_eq!(best_of(&vec![3, 9, 3, 7], 8, 3), vec![1]);
    assert_eq!(best_of(&vec![3, 9], 10, 3), Vec::<usize>::new());
}
