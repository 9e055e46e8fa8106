use keeper_core::limiter::OrderSlotLimiter;

#[test]
fn order_slot_limiter_allows_first_event_in_generation() {
    let mut limiter = OrderSlotLimiter::<40>::new();
    assert!(limiter.allow_event(10, 7));
}

#[test]
fn order_slot_limiter_rejects_duplicate_in_same_generation() {
    let mut limiter = OrderSlotLimiter::<40>::new();
    assert!(limiter.allow_event(10, 7));
    assert!(!limiter.allow_event(10, 7));
}

#[test]
fn order_slot_limiter_rejects_ids_from_g2_to_g4() {
    let mut limiter = OrderSlotLimiter::<40>::new();
    assert!(limiter.allow_event(10, 7));
    // g-2: rejected
    assert!(!limiter.allow_event(12, 7));
    // g-3: rejected
    assert!(!limiter.allow_event(13, 7));
    // g-4: rejected
    assert!(!limiter.allow_event(14, 7));
}

#[test]
fn order_slot_limiter_allows_id_from_previous_generation_gap() {
    let mut limiter = OrderSlotLimiter::<40>::new();
    assert!(limiter.allow_event(10, 7));
    // g-1 is NOT checked by allow_event (only g-2..=g-4)
    assert!(limiter.allow_event(11, 7));
}

#[test]
fn order_slot_limiter_reallows_after_past_window() {
    let mut limiter = OrderSlotLimiter::<40>::new();
    assert!(limiter.allow_event(10, 7));
    // g-5 = 10, outside the g-2..=g-4 window
    assert!(limiter.allow_event(15, 7));
}

#[test]
fn order_slot_limiter_check_event_includes_g1() {
    let mut limiter = OrderSlotLimiter::<40>::new();
    assert!(limiter.allow_event(10, 7));
    assert!(!limiter._check_event(11, 7));
    assert!(limiter._check_event(15, 7));
}

#[test]
fn order_slot_limiter_wraps_after_n_generations() {
    let mut limiter = OrderSlotLimiter::<40>::new();
    assert!(limiter.allow_event(0, 7));
    // 40 generations later the same bucket is recycled, generation is
    // replaced, and the old id is forgotten.
    assert!(limiter.allow_event(40, 7));
    // A distinct generation in the same bucket then stores its own ids.
    assert!(limiter.allow_event(80, 8));
    assert!(!limiter.allow_event(80, 8));
}

#[test]
fn order_slot_limiter_distinct_ids_in_same_generation() {
    let mut limiter = OrderSlotLimiter::<40>::new();
    assert!(limiter.allow_event(10, 1));
    assert!(limiter.allow_event(10, 2));
    assert!(limiter.allow_event(10, 3));
}

#[test]
fn limiter_finds_ids_inserted_out_of_order() {
    let mut limiter = OrderSlotLimiter::<40>::new();
    for id in [50u32, 10, 40, 20, 30, u32::MAX, 0] {
        assert!(limiter.allow_event(100, id));
    }
    for id in [50u32, 10, 40, 20, 30, u32::MAX, 0] {
        assert!(!limiter.allow_event(100, id));
        assert!(!limiter._check_event(101, id));
        assert!(!limiter.allow_event(104, id));
    }
    assert!(limiter.allow_event(100, 25));
}

#[test]
fn limiter_record_survives_events_of_other_buckets() {
    let mut limiter = OrderSlotLimiter::<8>::new();
    assert!(limiter.allow_event(10, 7));
    assert!(limiter.allow_event(11, 1));
    assert!(limiter.allow_event(12, 2));
    assert!(limiter.allow_event(9, 3));
    assert!(!limiter.allow_event(13, 7));
}

#[test]
fn limiter_refused_event_still_recycles_its_bucket() {
    let mut limiter = OrderSlotLimiter::<5>::new();
    assert!(limiter.allow_event(10, 7));
    assert!(limiter.allow_event(8, 9));
    // 13 shares a bucket with 8 and is refused because of generation 10.
    assert!(!limiter.allow_event(13, 7));
    assert!(limiter._check_event(9, 9));
}

#[test]
fn limiter_with_few_buckets_forgets_inside_the_window() {
    let mut limiter = OrderSlotLimiter::<2>::new();
    assert!(limiter.allow_event(10, 7));
    assert!(limiter.allow_event(12, 7));
}

#[test]
fn limiter_counts_the_first_generation_at_the_start() {
    // Before generation four the window is cut off at generation zero.
    let mut limiter = OrderSlotLimiter::<40>::new();
    assert!(limiter.allow_event(0, 7));
    assert!(!limiter.allow_event(0, 7));
    assert!(!limiter.allow_event(1, 7));
    assert!(!limiter._check_event(0, 7));
    assert!(limiter.allow_event(5, 7));
    assert!(limiter.allow_event(u64::MAX, 7));
}

#[test]
fn limiter_check_covers_decision() {
    let mut limiter = OrderSlotLimiter::<40>::new();
    assert!(limiter.allow_event(20, 1));
    for g in 15u64..30 {
        if limiter._check_event(g, 1) && g != 20 {
            let mut other = OrderSlotLimiter::<40>::new();
            assert!(other.allow_event(20, 1));
            assert!(other.allow_event(g, 1));
        }
    }
}

#[test]
fn events_in_order_pass_exactly_when_the_window_is_clear() {
    let mut limiter = OrderSlotLimiter::<5>::new();
    let mut admitted: Vec<(u64, u32)> = Vec::new();
    for g in [0u64, 0, 1, 1, 2, 3, 3, 4, 6, 6, 7, 9, 14, 15, 16, 17, 18, 19] {
        for id in [1u32, 2, 1] {
            if id == 2 && g % 3 == 1 {
                continue;
            }
            let blocked = admitted.iter().any(|(e, i)| {
                *i == id && (*e == g || (*e + 2 <= g && g <= *e + 4) || (*e == 0 && g == 1))
            });
            assert_eq!(limiter.allow_event(g, id), !blocked);
            if !blocked {
                admitted.push((g, id));
            }
        }
    }
    assert!(!admitted.is_empty());
}

#[test]
fn limiter_repeat_changes_nothing() {
    for first in 0..12u64 {
        let mut once = OrderSlotLimiter::<5>::new();
        let mut twice = OrderSlotLimiter::<5>::new();
        for g in 0..first {
            once.allow_event(g, 7 + (g % 2) as u32);
            twice.allow_event(g, 7 + (g % 2) as u32);
        }
        once.allow_event(first, 7);
        twice.allow_event(first, 7);
        assert!(!twice.allow_event(first, 7));
        for g in 0..24u64 {
            for id in 6..10u32 {
                assert_eq!(once._check_event(g, id), twice._check_event(g, id));
                assert_eq!(once.allow_event(g, id), twice.allow_event(g, id));
            }
        }
    }
}
