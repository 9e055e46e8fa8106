use keeper_core::intent::{L3Order, MakerCrosses, TxIntent};
use solana_sdk::pubkey::Pubkey;

fn crosses(has_vamm: bool) -> MakerCrosses {
    MakerCrosses {
        has_vamm_cross: has_vamm,
        ..Default::default()
    }
}

fn two_crosses(has_vamm: bool) -> MakerCrosses {
    let order = |order_id| L3Order { price: 100, size: 10, order_id, user: Pubkey::default() };
    MakerCrosses {
        orders: vec![(order(1), 4), (order(2), 6)],
        slot: 77,
        has_vamm_cross: has_vamm,
    }
}

#[test]
fn tx_intent_label_mapping() {
    assert_eq!(TxIntent::Nothing.label(), "none");
    assert_eq!(TxIntent::LimitUncross { slot: 1, _market_index: 0, _taker_order_id: 0, _maker_order_id: 0 }.label(), "limit_uncross");
    assert_eq!(TxIntent::AuctionFill { _taker_order_id: 0, has_trigger: false, maker_crosses: crosses(false) }.label(), "auction_fill");
    assert_eq!(TxIntent::AuctionFill { _taker_order_id: 0, has_trigger: false, maker_crosses: crosses(true) }.label(), "auction_fill_vamm");
    assert_eq!(TxIntent::LiquidateWithFill { _market_index: 0, liquidatee: Pubkey::default(), slot: 0 }.label(), "liq_with_fill");
    assert_eq!(TxIntent::LiquidatePerp { _market_index: 0, liquidatee: Pubkey::default(), slot: 0 }.label(), "liq_perp");
    assert_eq!(TxIntent::LiquidateSpot { _asset_market_index: 0, _liability_market_index: 0, liquidatee: Pubkey::default(), slot: 0 }.label(), "liq_spot");
    assert_eq!(TxIntent::Derisk { _market_index: 0, _subaccount: Pubkey::default() }.label(), "derisk");
    assert_eq!(TxIntent::SettlePnl { _market_index: 0, _subaccount: Pubkey::default() }.label(), "settle_pnl");

    // The labels of swift fills read the other way round than those of auction fills.
    assert_eq!(TxIntent::SwiftFill { maker_crosses: crosses(false) }.label(), "swift_fill_vamm");
    assert_eq!(TxIntent::SwiftFill { maker_crosses: crosses(true) }.label(), "swift_fill");
}

#[test]
fn tx_intent_expected_fill_count() {
    assert_eq!(TxIntent::Nothing.expected_fill_count(), 0);
    assert_eq!(TxIntent::AuctionFill { _taker_order_id: 0, has_trigger: false, maker_crosses: crosses(false) }.expected_fill_count(), 0);
    assert_eq!(TxIntent::AuctionFill { _taker_order_id: 0, has_trigger: false, maker_crosses: crosses(true) }.expected_fill_count(), 1);
    assert_eq!(TxIntent::SwiftFill { maker_crosses: crosses(true) }.expected_fill_count(), 1);
    assert_eq!(TxIntent::LimitUncross { slot: 1, _market_index: 0, _taker_order_id: 0, _maker_order_id: 0 }.expected_fill_count(), 1);
    assert_eq!(TxIntent::LiquidateWithFill { _market_index: 0, liquidatee: Pubkey::default(), slot: 0 }.expected_fill_count(), 1);
    assert_eq!(TxIntent::LiquidatePerp { _market_index: 0, liquidatee: Pubkey::default(), slot: 0 }.expected_fill_count(), 0);
    assert_eq!(TxIntent::LiquidateSpot { _asset_market_index: 0, _liability_market_index: 0, liquidatee: Pubkey::default(), slot: 0 }.expected_fill_count(), 0);
    assert_eq!(TxIntent::Derisk { _market_index: 0, _subaccount: Pubkey::default() }.expected_fill_count(), 0);
}

#[test]
fn tx_intent_expected_trigger() {
    let t = TxIntent::AuctionFill { _taker_order_id: 0, has_trigger: true, maker_crosses: crosses(false) };
    assert!(t.expected_trigger());
    let t = TxIntent::AuctionFill { _taker_order_id: 0, has_trigger: false, maker_crosses: crosses(false) };
    assert!(!t.expected_trigger());
    assert!(!TxIntent::LimitUncross { slot: 1, _market_index: 0, _taker_order_id: 0, _maker_order_id: 0 }.expected_trigger());
}

#[test]
fn tx_intent_slot_liquidatee_and_is_liquidation() {
    let pk = Pubkey::new_unique();
    assert_eq!(TxIntent::Nothing.slot(), None);
    assert_eq!(TxIntent::LimitUncross { slot: 42, _market_index: 0, _taker_order_id: 0, _maker_order_id: 0 }.slot(), Some(42));
    assert_eq!(TxIntent::LiquidateSpot { _asset_market_index: 0, _liability_market_index: 1, liquidatee: pk, slot: 7 }.slot(), Some(7));
    assert_eq!(TxIntent::LiquidateSpot { _asset_market_index: 0, _liability_market_index: 1, liquidatee: pk, slot: 7 }.liquidatee(), Some(pk));
    assert!(TxIntent::LiquidateWithFill { _market_index: 0, liquidatee: pk, slot: 0 }.is_liquidation());
    assert!(TxIntent::LiquidateSpot { _asset_market_index: 0, _liability_market_index: 1, liquidatee: pk, slot: 0 }.is_liquidation());
    assert!(!TxIntent::AuctionFill { _taker_order_id: 0, has_trigger: false, maker_crosses: crosses(false) }.is_liquidation());
    assert!(!TxIntent::Nothing.is_liquidation());
}

#[test]
fn crosses_are_handed_out_with_their_slot() {
    let intent = TxIntent::AuctionFill { _taker_order_id: 9, has_trigger: true, maker_crosses: two_crosses(true) };
    let (orders, slot) = intent.crosses_and_slot();
    assert_eq!(slot, 77);
    assert_eq!(orders.len(), 2);
    assert_eq!((orders[0].0.order_id, orders[0].1), (1, 4));
    assert_eq!((orders[1].0.order_id, orders[1].1), (2, 6));
    assert_eq!(intent.expected_fill_count(), 3);
    assert_eq!(intent.slot(), None);

    let swift = TxIntent::SwiftFill { maker_crosses: two_crosses(false) };
    let (orders, slot) = swift.crosses_and_slot();
    assert_eq!((orders.len(), slot), (2, 77));
    assert_eq!(swift.expected_fill_count(), 2);
}

#[test]
fn intents_without_crosses_refer_to_their_own_slot() {
    let pk = Pubkey::new_unique();
    let with_slot = [
        TxIntent::_VAMMTakerFill { slot: 5, _market_index: 0, _maker_order_id: 0 },
        TxIntent::LimitUncross { slot: 5, _market_index: 0, _taker_order_id: 0, _maker_order_id: 0 },
        TxIntent::LiquidateWithFill { _market_index: 0, liquidatee: pk, slot: 5 },
        TxIntent::LiquidatePerp { _market_index: 0, liquidatee: pk, slot: 5 },
        TxIntent::_LiquidatePerpPnlForDeposit { perp_market_index: 0, spot_market_index: 0, liquidatee: pk, slot: 5 },
        TxIntent::_LiquidateBorrowForPerpPnl { perp_market_index: 0, spot_market_index: 0, liquidatee: pk, slot: 5 },
        TxIntent::LiquidateSpot { _asset_market_index: 0, _liability_market_index: 1, liquidatee: pk, slot: 5 },
    ];
    for intent in &with_slot {
        let (orders, slot) = intent.crosses_and_slot();
        assert!(orders.is_empty());
        assert_eq!(slot, 5);
        assert_eq!(intent.slot(), Some(5));
        assert_eq!(intent.is_liquidation(), intent.liquidatee() == Some(pk));
    }
    for intent in [
        TxIntent::Nothing,
        TxIntent::Derisk { _market_index: 0, _subaccount: pk },
        TxIntent::SettlePnl { _market_index: 0, _subaccount: pk },
    ] {
        let (orders, slot) = intent.crosses_and_slot();
        assert!(orders.is_empty());
        assert_eq!(slot, 0);
        assert_eq!(intent.slot(), None);
        assert_eq!(intent.liquidatee(), None);
        assert!(!intent.is_liquidation());
    }
}

#[test]
fn labels_are_distinct() {
    let pk = Pubkey::default();
    let labels = [
        TxIntent::Nothing.label(),
        TxIntent::AuctionFill { _taker_order_id: 0, has_trigger: false, maker_crosses: crosses(false) }.label(),
        TxIntent::AuctionFill { _taker_order_id: 0, has_trigger: false, maker_crosses: crosses(true) }.label(),
        TxIntent::SwiftFill { maker_crosses: crosses(false) }.label(),
        TxIntent::SwiftFill { maker_crosses: crosses(true) }.label(),
        TxIntent::_VAMMTakerFill { slot: 0, _market_index: 0, _maker_order_id: 0 }.label(),
        TxIntent::LimitUncross { slot: 0, _market_index: 0, _taker_order_id: 0, _maker_order_id: 0 }.label(),
        TxIntent::LiquidateWithFill { _market_index: 0, liquidatee: pk, slot: 0 }.label(),
        TxIntent::LiquidatePerp { _market_index: 0, liquidatee: pk, slot: 0 }.label(),
        TxIntent::_LiquidatePerpPnlForDeposit { perp_market_index: 0, spot_market_index: 0, liquidatee: pk, slot: 0 }.label(),
        TxIntent::_LiquidateBorrowForPerpPnl { perp_market_index: 0, spot_market_index: 0, liquidatee: pk, slot: 0 }.label(),
        TxIntent::LiquidateSpot { _asset_market_index: 0, _liability_market_index: 0, liquidatee: pk, slot: 0 }.label(),
        TxIntent::Derisk { _market_index: 0, _subaccount: pk }.label(),
        TxIntent::SettlePnl { _market_index: 0, _subaccount: pk }.label(),
    ];
    assert_eq!(labels[5], "vamm_taker");
    assert_eq!(labels[9], "liq_perp_pnl_for_deposit");
    assert_eq!(labels[10], "liq_borrow_for_perp_pnl");
    for i in 0..labels.len() {
        for j in 0..i {
            assert_ne!(labels[i], labels[j]);
        }
    }
}

#[test]
fn clones_answer_alike() {
    let pk = Pubkey::new_unique();
    let intents = [
        TxIntent::default(),
        TxIntent::AuctionFill { _taker_order_id: 3, has_trigger: true, maker_crosses: two_crosses(true) },
        TxIntent::SwiftFill { maker_crosses: two_crosses(false) },
        TxIntent::_VAMMTakerFill { slot: 1, _market_index: 0, _maker_order_id: 0 },
        TxIntent::LimitUncross { slot: 2, _market_index: 0, _taker_order_id: 0, _maker_order_id: 0 },
        TxIntent::LiquidateWithFill { _market_index: 0, liquidatee: pk, slot: 3 },
        TxIntent::LiquidatePerp { _market_index: 0, liquidatee: pk, slot: 4 },
        TxIntent::_LiquidatePerpPnlForDeposit { perp_market_index: 0, spot_market_index: 0, liquidatee: pk, slot: 5 },
        TxIntent::_LiquidateBorrowForPerpPnl { perp_market_index: 0, spot_market_index: 0, liquidatee: pk, slot: 6 },
        TxIntent::LiquidateSpot { _asset_market_index: 0, _liability_market_index: 0, liquidatee: pk, slot: 7 },
        TxIntent::Derisk { _market_index: 0, _subaccount: pk },
        TxIntent::SettlePnl { _market_index: 0, _subaccount: pk },
    ];
    for intent in &intents {
        let copy = intent.clone();
        assert_eq!(copy.label(), intent.label());
        assert_eq!(copy.expected_fill_count(), intent.expected_fill_count());
        assert_eq!(copy.expected_trigger(), intent.expected_trigger());
        assert_eq!(copy.slot(), intent.slot());
        assert_eq!(copy.liquidatee(), intent.liquidatee());
        assert_eq!(copy.is_liquidation(), intent.is_liquidation());
        assert_eq!(copy.crosses_and_slot().1, intent.crosses_and_slot().1);
        assert_eq!(copy.crosses_and_slot().0.len(), intent.crosses_and_slot().0.len());
    }
}
