use roll_sim::{raise_max, Tally, TOTAL_TRIALS};

fn reduce(results: &[u32]) -> Tally {
    let mut tally = Tally::new();
    for r in results {
        tally.record(*r);
    }
    tally
}

#[test]
fn total_trials_is_one_billion() {
    assert_eq!(TOTAL_TRIALS, 1_000_000_000);
}

#[test]
fn raise_max_takes_the_larger() {
    assert_eq!(raise_max(0, 5), 5);
    assert_eq!(raise_max(7, 5), 7);
    assert_eq!(raise_max(5, 5), 5);
    assert_eq!(raise_max(0, 0), 0);
    assert_eq!(raise_max(u32::MAX, 3), u32::MAX);
    assert_eq!(raise_max(3, u32::MAX), u32::MAX);
}

#[test]
fn empty_tally_has_zero_maximum_and_zero_count() {
    let tally = Tally::new();
    assert_eq!(tally.max_ones(), 0);
    assert_eq!(tally.completed(), 0);
}

#[test]
fn record_returns_the_count_before_it() {
    let mut tally = Tally::new();
    assert_eq!(tally.record(58), 0);
    assert_eq!(tally.record(61), 1);
    assert_eq!(tally.record(12), 2);
    assert_eq!(tally.completed(), 3);
}

#[test]
fn tally_counts_every_trial_once() {
    let mut tally = Tally::new();
    for i in 0..1000u64 {
        assert_eq!(tally.completed(), i);
        tally.record(57);
    }
    assert_eq!(tally.completed(), 1000);
}

#[test]
fn tally_holds_the_largest_result() {
    let tally = reduce(&[58, 61, 55, 70, 70, 12]);
    assert_eq!(tally.max_ones(), 70);
    assert_eq!(tally.completed(), 6);
    assert_eq!(reduce(&[0, 0, 0]).max_ones(), 0);
    assert_eq!(reduce(&[231]).max_ones(), 231);
}

#[test]
fn tally_maximum_never_falls() {
    let mut tally = Tally::new();
    let mut last = 0;
    for r in [40u32, 62, 61, 62, 3, 80, 79, 0, 81] {
        tally.record(r);
        let now = tally.max_ones();
        assert!(now >= last);
        assert!(now >= r);
        last = now;
    }
    assert_eq!(last, 81);
}

#[test]
fn tally_maximum_does_not_depend_on_the_order() {
    let forward = reduce(&[58, 61, 55, 70, 12, 64]);
    let backward = reduce(&[64, 12, 70, 55, 61, 58]);
    let shuffled = reduce(&[70, 58, 64, 61, 12, 55]);
    assert_eq!(forward.max_ones(), 70);
    assert_eq!(backward.max_ones(), 70);
    assert_eq!(shuffled.max_ones(), 70);
}
