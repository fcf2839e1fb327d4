use drone_defense::rng::{draw_below, DEFAULT_SEED};
use drone_defense::text::numbered_label;
use drone_defense::{rand_id, SimRng};

#[test]
fn generator_follows_the_congruence() {
    let mut r = SimRng::new(DEFAULT_SEED);
    assert_eq!(r.next_u32(), 134732914);
    assert_eq!(r.next_u32(), 2184794250);
    assert_eq!(r.next_u32(), 141776306);
}

#[test]
fn same_seed_same_sequence() {
    let mut a = SimRng::new(99);
    let mut b = SimRng::new(99);
    for _ in 0..50 {
        assert_eq!(a.next_u32(), b.next_u32());
    }
}

#[test]
fn identifier_numbers_from_draws() {
    let mut r = SimRng::new(DEFAULT_SEED);
    let got: Vec<u32> = (0..6).map(|_| rand_id(&mut r)).collect();
    assert_eq!(got, vec![12, 55, 12, 30, 74, 26]);
}

#[test]
fn identifier_numbers_stay_in_range() {
    let mut r = SimRng::new(7);
    for _ in 0..10000 {
        let n = rand_id(&mut r);
        assert!((10..=100).contains(&n));
    }
}

#[test]
fn draw_thresholds_are_exact() {
    assert!(draw_below(1417339207, 33));
    assert!(!draw_below(1417339208, 33));
    assert!(draw_below(2834678414, 66));
    assert!(!draw_below(2834678415, 66));
    assert!(!draw_below(u32::MAX, 100));
    assert!(draw_below(0, 1));
}

#[test]
fn labels_are_zero_padded() {
    assert_eq!(numbered_label("DRN-ATTK-", 7, ""), "DRN-ATTK-07");
    assert_eq!(numbered_label("DRN-SURV-", 42, ""), "DRN-SURV-42");
    assert_eq!(numbered_label("DRN-SWRM-", 100, "B"), "DRN-SWRM-100B");
    assert_eq!(numbered_label("", 0, ""), "00");
    assert_eq!(numbered_label("x", 4294967295, "y"), "x4294967295y");
}
