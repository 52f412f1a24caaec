use sdr_dsp::{
    center_offset, polyphase_layout, subfilter_start, TapHistory, INTERP_FACTOR, NUM_COEFFS,
    NUM_TAPS, RRC_ORDER,
};

#[test]
fn sizes_follow_the_design_order() {
    assert_eq!(NUM_TAPS, RRC_ORDER * 2 + 1);
    assert_eq!(NUM_COEFFS, NUM_TAPS * INTERP_FACTOR);
    assert_eq!(NUM_TAPS, 65);
    assert_eq!(NUM_COEFFS, 325);
}

#[test]
fn new_history_holds_the_fill_value() {
    let h = TapHistory::new(7_i32);
    for k in 0..NUM_TAPS {
        assert_eq!(h.sample(k), 7);
    }
}

#[test]
fn push_shifts_the_window_by_one() {
    let mut h = TapHistory::new(0_i32);
    h.push(5);
    assert_eq!(h.sample(NUM_TAPS - 1), 5);
    assert_eq!(h.sample(NUM_TAPS - 2), 0);
    assert_eq!(h.sample(0), 0);
    h.push(6);
    assert_eq!(h.sample(NUM_TAPS - 1), 6);
    assert_eq!(h.sample(NUM_TAPS - 2), 5);
}

#[test]
fn history_keeps_the_last_num_taps_samples_oldest_first() {
    let mut h = TapHistory::new(-1_i64);
    let total = 3 * NUM_TAPS + 17;
    for n in 0..total {
        h.push(n as i64);
    }
    for k in 0..NUM_TAPS {
        assert_eq!(h.sample(k), (total - NUM_TAPS + k) as i64);
    }
}

#[test]
fn partially_filled_history_keeps_the_fill_in_front() {
    let mut h = TapHistory::new(-1_i32);
    for n in 0..10 {
        h.push(n);
    }
    for k in 0..NUM_TAPS - 10 {
        assert_eq!(h.sample(k), -1);
    }
    for k in 0..10 {
        assert_eq!(h.sample(NUM_TAPS - 10 + k), k as i32);
    }
}

#[test]
fn layout_is_subfilter_major_decimation_of_the_prototype() {
    let v = polyphase_layout();
    assert_eq!(v.len(), NUM_COEFFS);
    assert_eq!(v[0], 0);
    assert_eq!(v[1], 5);
    assert_eq!(v[NUM_TAPS - 1], 320);
    assert_eq!(v[NUM_TAPS], 1);
    assert_eq!(v[NUM_TAPS + 2], 11);
    assert_eq!(v[NUM_COEFFS - 1], 324);
}

#[test]
fn layout_is_a_permutation_of_the_prototype() {
    let v = polyphase_layout();
    let mut seen = vec![false; NUM_COEFFS];
    for &s in &v {
        assert!(s < NUM_COEFFS);
        assert!(!seen[s]);
        seen[s] = true;
    }
    assert!(seen.iter().all(|&b| b));
}

#[test]
fn subfilter_start_walks_the_bank_in_reverse() {
    assert_eq!(subfilter_start(0), Some(4 * NUM_TAPS));
    assert_eq!(subfilter_start(1), Some(3 * NUM_TAPS));
    assert_eq!(subfilter_start(4), Some(0));
}

#[test]
fn subfilter_start_rejects_out_of_range_phase() {
    assert_eq!(subfilter_start(INTERP_FACTOR), None);
    assert_eq!(subfilter_start(usize::MAX), None);
}

#[test]
fn phase_walk_reads_every_prototype_tap_once() {
    let v = polyphase_layout();
    let mut seen = vec![false; NUM_COEFFS];
    for phase in 0..INTERP_FACTOR {
        let base = subfilter_start(phase).unwrap();
        for k in 0..NUM_TAPS {
            let s = v[base + k];
            assert_eq!(s, k * INTERP_FACTOR + INTERP_FACTOR - 1 - phase);
            assert!(!seen[s]);
            seen[s] = true;
        }
    }
    assert!(seen.iter().all(|&b| b));
}

#[test]
fn center_offset_is_zero_only_at_the_center_tap() {
    assert_eq!(center_offset(NUM_COEFFS / 2, NUM_COEFFS), 0);
    assert_eq!(center_offset(0, NUM_COEFFS), 162);
    assert_eq!(center_offset(NUM_COEFFS - 1, NUM_COEFFS), 162);
    assert_eq!(center_offset(157, NUM_COEFFS), 5);
    assert_eq!(center_offset(167, NUM_COEFFS), 5);
    assert_eq!(center_offset(0, 1), 0);
    assert_eq!(center_offset(3, 1), 3);
}

#[test]
fn histories_fed_the_same_last_samples_agree() {
    let mut a = TapHistory::new(0_i32);
    let mut b = TapHistory::new(99_i32);
    for n in 0..40 {
        a.push(n * 3);
    }
    for n in 0..7 {
        b.push(-n);
    }
    for n in 0..NUM_TAPS {
        a.push(1000 + n as i32);
        b.push(1000 + n as i32);
    }
    for k in 0..NUM_TAPS {
        assert_eq!(a.sample(k), b.sample(k));
        assert_eq!(a.sample(k), 1000 + k as i32);
    }
}
