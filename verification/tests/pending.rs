use keeper_core::intent::TxIntent;
use keeper_core::pending::{PendingTxMeta, PendingTxs};
use solana_sdk::signature::Signature;

#[test]
fn pending_txs_fifo_confirm() {
    let mut pending = PendingTxs::<4>::new();
    let sigs: Vec<Signature> = (0..3).map(|_| Signature::new_unique()).collect();
    for (i, sig) in sigs.iter().enumerate() {
        pending.insert(PendingTxMeta::new(*sig, TxIntent::Nothing, i as u64 + 1).expect("clock"));
    }
    for (i, sig) in sigs.iter().enumerate() {
        let meta = pending.confirm(sig).expect("present");
        assert_eq!(meta.cu_limit, i as u64 + 1);
    }
}

#[test]
fn pending_txs_confirm_missing_returns_none() {
    let mut pending = PendingTxs::<4>::new();
    assert!(pending.confirm(&Signature::new_unique()).is_none());
}

#[test]
fn pending_txs_overwrites_oldest_when_full() {
    let mut pending = PendingTxs::<4>::new();
    let sigs: Vec<Signature> = (0..5).map(|_| Signature::new_unique()).collect();
    for sig in &sigs {
        pending.insert(PendingTxMeta::new(*sig, TxIntent::Nothing, 0).expect("clock"));
    }
    // size stays capped at N
    assert!(pending.confirm(&sigs[0]).is_none()); // overwritten
    for sig in &sigs[1..] {
        assert!(pending.confirm(sig).is_some());
    }
}

#[test]
fn pending_txs_confirm_does_not_remove() {
    let mut pending = PendingTxs::<4>::new();
    let sig = Signature::new_unique();
    pending.insert(PendingTxMeta::new(sig, TxIntent::Nothing, 0).expect("clock"));
    assert!(pending.confirm(&sig).is_some());
    assert!(pending.confirm(&sig).is_some());
}

#[test]
fn ring_keeps_the_latest_over_many_laps() {
    let mut pending = PendingTxs::<3>::new();
    let sigs: Vec<Signature> = (0..20u8).map(|i| Signature::from([i; 64])).collect();
    for (i, sig) in sigs.iter().enumerate() {
        pending.insert(PendingTxMeta::sent_at(*sig, TxIntent::Nothing, i as u64, 9));
        for (j, earlier) in sigs.iter().enumerate() {
            let found = pending.confirm(earlier);
            if j <= i && i - j < 3 {
                assert_eq!(found.expect("held").cu_limit, j as u64);
            } else {
                assert!(found.is_none());
            }
        }
    }
}

#[test]
fn ring_of_one_holds_the_last() {
    let mut pending = PendingTxs::<1>::new();
    let a = Signature::from([1u8; 64]);
    let b = Signature::from([2u8; 64]);
    pending.insert(PendingTxMeta::sent_at(a, TxIntent::Nothing, 1, 0));
    pending.insert(PendingTxMeta::sent_at(b, TxIntent::Nothing, 2, 0));
    assert!(pending.confirm(&a).is_none());
    assert_eq!(pending.confirm(&b).expect("held").cu_limit, 2);
}

#[test]
fn ring_confirms_the_oldest_of_equal_signatures() {
    let mut pending = PendingTxs::<4>::new();
    let sig = Signature::from([3u8; 64]);
    pending.insert(PendingTxMeta::sent_at(sig, TxIntent::Nothing, 1, 0));
    pending.insert(PendingTxMeta::sent_at(sig, TxIntent::Nothing, 2, 0));
    assert_eq!(pending.confirm(&sig).expect("held").cu_limit, 1);
}

#[test]
fn signatures_that_differ_in_one_byte_are_told_apart() {
    let mut pending = PendingTxs::<4>::new();
    let mut bytes = [7u8; 64];
    let sig = Signature::from(bytes);
    bytes[63] = 8;
    let other = Signature::from(bytes);
    pending.insert(PendingTxMeta::sent_at(sig, TxIntent::Nothing, 1, 0));
    assert!(pending.confirm(&other).is_none());
    assert!(pending.confirm(&sig).is_some());
}

#[test]
fn meta_carries_what_it_was_made_of() {
    let sig = Signature::from([5u8; 64]);
    let intent = TxIntent::LimitUncross {
        slot: 42,
        _market_index: 1,
        _taker_order_id: 2,
        _maker_order_id: 3,
    };
    let meta = PendingTxMeta::sent_at(sig, intent, 17, (1u128 << 64) + 5);
    assert_eq!(meta.signature, sig);
    assert_eq!(meta.intent.slot(), Some(42));
    assert_eq!(meta.cu_limit, 17);
    assert_eq!(meta._ts, 5);
    let copy = meta.clone();
    assert_eq!(copy.signature, sig);
    assert_eq!(copy.intent.slot(), Some(42));
    assert_eq!(copy.cu_limit, 17);
    assert_eq!(copy._ts, 5);
}

#[test]
fn meta_is_stamped_with_the_clock() {
    let before = std::time::UNIX_EPOCH.elapsed().expect("clock").as_millis() as u64;
    let meta = PendingTxMeta::new(Signature::from([5u8; 64]), TxIntent::Nothing, 17).expect("clock");
    let after = std::time::UNIX_EPOCH.elapsed().expect("clock").as_millis() as u64;
    assert!(before <= meta._ts && meta._ts <= after);
}

#[test]
fn default_meta_is_blank() {
    let meta = PendingTxMeta::default();
    assert_eq!(meta.signature, Signature::default());
    assert!(matches!(meta.intent, TxIntent::Nothing));
    assert_eq!(meta.cu_limit, 0);
    assert_eq!(meta._ts, 0);
}

#[test]
fn clock_before_the_epoch_gives_no_record() {
    let sig = Signature::from([5u8; 64]);
    assert!(PendingTxMeta::sent_by(sig, TxIntent::Nothing, 17, None).is_none());
    let at_epoch = PendingTxMeta::sent_by(sig, TxIntent::Nothing, 17, Some(0)).expect("record");
    assert_eq!(at_epoch._ts, 0);
    let later = PendingTxMeta::sent_by(sig, TxIntent::Nothing, 17, Some(1_700_000_000_123))
        .expect("record");
    assert_eq!(later.signature, sig);
    assert!(matches!(later.intent, TxIntent::Nothing));
    assert_eq!(later.cu_limit, 17);
    assert_eq!(later._ts, 1_700_000_000_123);
}
