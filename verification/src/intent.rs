//! What a transaction was sent for.

use solana_sdk::pubkey::Pubkey;
use vstd::prelude::*;

verus! {

/// A resting order of the order book.
#[derive(Clone, Copy, Debug)]
pub struct L3Order {
    pub price: u64,
    pub size: u64,
    pub order_id: u32,
    pub user: Pubkey,
}

/// The resting orders that a taker order crosses, each with the size to be filled, as
/// they stood at `slot`.
#[derive(Debug)]
pub struct MakerCrosses {
    pub orders: Vec<(L3Order, u64)>,
    pub slot: u64,
    pub has_vamm_cross: bool,
}

/// The mathematical value of a [`MakerCrosses`].
#[verifier::ext_equal]
pub struct MakerCrossesView {
    pub orders: Seq<(L3Order, u64)>,
    pub slot: u64,
    pub has_vamm_cross: bool,
}

impl View for MakerCrosses {
    type V = MakerCrossesView;

    open spec fn view(&self) -> MakerCrossesView {
        MakerCrossesView {
            orders: self.orders@,
            slot: self.slot,
            has_vamm_cross: self.has_vamm_cross,
        }
    }
}

impl MakerCrosses {
    /// One fill per crossed order, and one more if the AMM is crossed too.
    pub open spec fn fill_count(self) -> nat {
        self.orders@.len() + if self.has_vamm_cross {
            1nat
        } else {
            0nat
        }
    }
}

impl Default for MakerCrosses {
    fn default() -> (crosses: Self)
        ensures
            crosses@ == (MakerCrossesView { orders: Seq::empty(), slot: 0, has_vamm_cross: false }),
    {
        MakerCrosses { orders: Vec::new(), slot: 0, has_vamm_cross: false }
    }
}

impl Clone for MakerCrosses {
    fn clone(&self) -> (copy: Self)
        ensures
            copy@ == self@,
    {
        MakerCrosses {
            orders: copy_orders(&self.orders),
            slot: self.slot,
            has_vamm_cross: self.has_vamm_cross,
        }
    }
}

/// A copy of a list of crossed orders.
fn copy_orders(orders: &Vec<(L3Order, u64)>) -> (copy: Vec<(L3Order, u64)>)
    ensures
        copy@ == orders@,
{
    let mut copy: Vec<(L3Order, u64)> = Vec::new();
    let mut i: usize = 0;
    while i < orders.len()
        invariant
            i <= orders@.len(),
            copy@ == orders@.take(i as int),
        decreases orders@.len() - i,
    {
        copy.push(orders[i]);
        i = i + 1;
        assert(orders@.take(i as int) =~= orders@.take(i - 1).push(orders@[i - 1]));
    }
    assert(orders@.take(orders@.len() as int) =~= orders@);
    copy
}

/// The purpose of a transaction, with what is needed to judge its outcome.
#[derive(Debug)]
pub enum TxIntent {
    /// No purpose on record.
    Nothing,
    AuctionFill { _taker_order_id: u32, has_trigger: bool, maker_crosses: MakerCrosses },
    SwiftFill { maker_crosses: MakerCrosses },
    _VAMMTakerFill { slot: u64, _market_index: u16, _maker_order_id: u32 },
    /// Limit orders crossed.
    LimitUncross { slot: u64, _market_index: u16, _taker_order_id: u32, _maker_order_id: u32 },
    LiquidateWithFill { _market_index: u16, liquidatee: Pubkey, slot: u64 },
    LiquidatePerp { _market_index: u16, liquidatee: Pubkey, slot: u64 },
    _LiquidatePerpPnlForDeposit {
        perp_market_index: u16,
        spot_market_index: u16,
        liquidatee: Pubkey,
        slot: u64,
    },
    _LiquidateBorrowForPerpPnl {
        perp_market_index: u16,
        spot_market_index: u16,
        liquidatee: Pubkey,
        slot: u64,
    },
    LiquidateSpot {
        _asset_market_index: u16,
        _liability_market_index: u16,
        liquidatee: Pubkey,
        slot: u64,
    },
    Derisk { _market_index: u16, _subaccount: Pubkey },
    SettlePnl { _market_index: u16, _subaccount: Pubkey },
}

/// Whether two intents are the same, lists of crossed orders being compared by content.
pub open spec fn same_intent(a: TxIntent, b: TxIntent) -> bool {
    match (a, b) {
        (
            TxIntent::AuctionFill { _taker_order_id: t1, has_trigger: h1, maker_crosses: c1 },
            TxIntent::AuctionFill { _taker_order_id: t2, has_trigger: h2, maker_crosses: c2 },
        ) => t1 == t2 && h1 == h2 && c1@ == c2@,
        (
            TxIntent::SwiftFill { maker_crosses: c1 },
            TxIntent::SwiftFill { maker_crosses: c2 },
        ) => c1@ == c2@,
        _ => a == b,
    }
}

impl Default for TxIntent {
    fn default() -> (intent: Self)
        ensures
            intent == TxIntent::Nothing,
    {
        TxIntent::Nothing
    }
}

impl Clone for TxIntent {
    fn clone(&self) -> (copy: Self)
        ensures
            same_intent(copy, *self),
    {
        match self {
            TxIntent::Nothing => TxIntent::Nothing,
            TxIntent::AuctionFill { _taker_order_id, has_trigger, maker_crosses } => {
                TxIntent::AuctionFill {
                    _taker_order_id: *_taker_order_id,
                    has_trigger: *has_trigger,
                    maker_crosses: maker_crosses.clone(),
                }
            },
            TxIntent::SwiftFill { maker_crosses } => {
                TxIntent::SwiftFill { maker_crosses: maker_crosses.clone() }
            },
            TxIntent::_VAMMTakerFill { slot, _market_index, _maker_order_id } => {
                TxIntent::_VAMMTakerFill {
                    slot: *slot,
                    _market_index: *_market_index,
                    _maker_order_id: *_maker_order_id,
                }
            },
            TxIntent::LimitUncross { slot, _market_index, _taker_order_id, _maker_order_id } => {
                TxIntent::LimitUncross {
                    slot: *slot,
                    _market_index: *_market_index,
                    _taker_order_id: *_taker_order_id,
                    _maker_order_id: *_maker_order_id,
                }
            },
            TxIntent::LiquidateWithFill { _market_index, liquidatee, slot } => {
                TxIntent::LiquidateWithFill {
                    _market_index: *_market_index,
                    liquidatee: *liquidatee,
                    slot: *slot,
                }
            },
            TxIntent::LiquidatePerp { _market_index, liquidatee, slot } => {
                TxIntent::LiquidatePerp {
                    _market_index: *_market_index,
                    liquidatee: *liquidatee,
                    slot: *slot,
                }
            },
            TxIntent::_LiquidatePerpPnlForDeposit {
                perp_market_index,
                spot_market_index,
                liquidatee,
                slot,
            } => {
                TxIntent::_LiquidatePerpPnlForDeposit {
                    perp_market_index: *perp_market_index,
                    spot_market_index: *spot_market_index,
                    liquidatee: *liquidatee,
                    slot: *slot,
                }
            },
            TxIntent::_LiquidateBorrowForPerpPnl {
                perp_market_index,
                spot_market_index,
                liquidatee,
                slot,
            } => {
                TxIntent::_LiquidateBorrowForPerpPnl {
                    perp_market_index: *perp_market_index,
                    spot_market_index: *spot_market_index,
                    liquidatee: *liquidatee,
                    slot: *slot,
                }
            },
            TxIntent::LiquidateSpot {
                _asset_market_index,
                _liability_market_index,
                liquidatee,
                slot,
            } => {
                TxIntent::LiquidateSpot {
                    _asset_market_index: *_asset_market_index,
                    _liability_market_index: *_liability_market_index,
                    liquidatee: *liquidatee,
                    slot: *slot,
                }
            },
            TxIntent::Derisk { _market_index, _subaccount } => {
                TxIntent::Derisk { _market_index: *_market_index, _subaccount: *_subaccount }
            },
            TxIntent::SettlePnl { _market_index, _subaccount } => {
                TxIntent::SettlePnl { _market_index: *_market_index, _subaccount: *_subaccount }
            },
        }
    }
}

impl TxIntent {
    /// The name under which the intent is reported.
    pub open spec fn label_text(self) -> Seq<char> {
        match self {
            TxIntent::Nothing => "none"@,
            TxIntent::AuctionFill { maker_crosses, .. } => if maker_crosses.has_vamm_cross {
                "auction_fill_vamm"@
            } else {
                "auction_fill"@
            },
            TxIntent::SwiftFill { maker_crosses } => if maker_crosses.has_vamm_cross {
                "swift_fill"@
            } else {
                "swift_fill_vamm"@
            },
            TxIntent::_VAMMTakerFill { .. } => "vamm_taker"@,
            TxIntent::LimitUncross { .. } => "limit_uncross"@,
            TxIntent::LiquidateWithFill { .. } => "liq_with_fill"@,
            TxIntent::LiquidatePerp { .. } => "liq_perp"@,
            TxIntent::_LiquidatePerpPnlForDeposit { .. } => "liq_perp_pnl_for_deposit"@,
            TxIntent::_LiquidateBorrowForPerpPnl { .. } => "liq_borrow_for_perp_pnl"@,
            TxIntent::LiquidateSpot { .. } => "liq_spot"@,
            TxIntent::Derisk { .. } => "derisk"@,
            TxIntent::SettlePnl { .. } => "settle_pnl"@,
        }
    }

    /// The crossed orders of a fill against resting makers.
    pub open spec fn maker_crosses(self) -> Option<MakerCrosses> {
        match self {
            TxIntent::AuctionFill { maker_crosses, .. } => Some(maker_crosses),
            TxIntent::SwiftFill { maker_crosses } => Some(maker_crosses),
            _ => None,
        }
    }

    /// How many fills the transaction should produce.
    pub open spec fn fill_count(self) -> nat {
        if let Some(crosses) = self.maker_crosses() {
            crosses.fill_count()
        } else if self is _VAMMTakerFill || self is LimitUncross || self is LiquidateWithFill {
            1
        } else {
            0
        }
    }

    /// Whether the transaction should trigger the taker order: only auction fills can.
    pub open spec fn triggers_taker(self) -> bool {
        self matches TxIntent::AuctionFill { has_trigger, .. } && has_trigger
    }

    /// Whether the intent is one of the liquidations.
    pub open spec fn liquidates(self) -> bool {
        ||| self is LiquidateWithFill
        ||| self is LiquidatePerp
        ||| self is _LiquidatePerpPnlForDeposit
        ||| self is _LiquidateBorrowForPerpPnl
        ||| self is LiquidateSpot
    }

    /// The slot that the intent itself carries.
    pub open spec fn own_slot(self) -> Option<u64> {
        match self {
            TxIntent::_VAMMTakerFill { slot, .. } => Some(slot),
            TxIntent::LimitUncross { slot, .. } => Some(slot),
            TxIntent::LiquidateWithFill { slot, .. } => Some(slot),
            TxIntent::LiquidatePerp { slot, .. } => Some(slot),
            TxIntent::_LiquidatePerpPnlForDeposit { slot, .. } => Some(slot),
            TxIntent::_LiquidateBorrowForPerpPnl { slot, .. } => Some(slot),
            TxIntent::LiquidateSpot { slot, .. } => Some(slot),
            _ => None,
        }
    }

    /// The account that the intent liquidates.
    pub open spec fn liquidated_account(self) -> Option<Pubkey> {
        match self {
            TxIntent::LiquidateWithFill { liquidatee, .. } => Some(liquidatee),
            TxIntent::LiquidatePerp { liquidatee, .. } => Some(liquidatee),
            TxIntent::_LiquidatePerpPnlForDeposit { liquidatee, .. } => Some(liquidatee),
            TxIntent::_LiquidateBorrowForPerpPnl { liquidatee, .. } => Some(liquidatee),
            TxIntent::LiquidateSpot { liquidatee, .. } => Some(liquidatee),
            _ => None,
        }
    }

    /// Crossed orders of the intent; none unless it fills against resting makers.
    pub open spec fn crossed_orders(self) -> Seq<(L3Order, u64)> {
        match self.maker_crosses() {
            Some(crosses) => crosses.orders@,
            None => Seq::empty(),
        }
    }

    /// The slot of the crosses, else the intent's own slot, else zero.
    pub open spec fn reference_slot(self) -> u64 {
        match (self.maker_crosses(), self.own_slot()) {
            (Some(crosses), _) => crosses.slot,
            (None, Some(slot)) => slot,
            (None, None) => 0,
        }
    }

    /// The name under which the intent is reported.
    pub fn label(&self) -> (text: &'static str)
        ensures
            text@ == self.label_text(),
    {
        match self {
            TxIntent::Nothing => "none",
            TxIntent::AuctionFill { maker_crosses, .. } => {
                if maker_crosses.has_vamm_cross {
                    "auction_fill_vamm"
                } else {
                    "auction_fill"
                }
            },
            TxIntent::SwiftFill { maker_crosses, .. } => {
                if maker_crosses.has_vamm_cross {
                    "swift_fill"
                } else {
                    "swift_fill_vamm"
                }
            },
            TxIntent::LimitUncross { .. } => "limit_uncross",
            TxIntent::_VAMMTakerFill { .. } => "vamm_taker",
            TxIntent::LiquidateWithFill { .. } => "liq_with_fill",
            TxIntent::LiquidatePerp { .. } => "liq_perp",
            TxIntent::_LiquidatePerpPnlForDeposit { .. } => "liq_perp_pnl_for_deposit",
            TxIntent::_LiquidateBorrowForPerpPnl { .. } => "liq_borrow_for_perp_pnl",
            TxIntent::LiquidateSpot { .. } => "liq_spot",
            TxIntent::Derisk { .. } => "derisk",
            TxIntent::SettlePnl { .. } => "settle_pnl",
        }
    }

    /// How many fills the transaction should produce.
    pub fn expected_fill_count(&self) -> (count: usize)
        requires
            self.fill_count() <= usize::MAX,
        ensures
            count == self.fill_count(),
    {
        match self {
            TxIntent::Nothing => 0,
            TxIntent::AuctionFill { maker_crosses, .. } => {
                maker_crosses.orders.len() + if maker_crosses.has_vamm_cross {
                    1
                } else {
                    0
                }
            },
            TxIntent::SwiftFill { maker_crosses, .. } => {
                maker_crosses.orders.len() + if maker_crosses.has_vamm_cross {
                    1
                } else {
                    0
                }
            },
            TxIntent::_VAMMTakerFill { .. } => 1,
            TxIntent::LimitUncross { .. } => 1,
            TxIntent::LiquidateWithFill { .. } => 1,
            TxIntent::LiquidatePerp { .. } => 0,
            TxIntent::_LiquidatePerpPnlForDeposit { .. } => 0,
            TxIntent::_LiquidateBorrowForPerpPnl { .. } => 0,
            TxIntent::LiquidateSpot { .. } => 0,
            TxIntent::Derisk { .. } => 0,
            TxIntent::SettlePnl { .. } => 0,
        }
    }

    /// Whether the transaction was expected to trigger the taker order.
    pub fn expected_trigger(&self) -> (triggers: bool)
        ensures
            triggers == self.triggers_taker(),
    {
        match self {
            TxIntent::AuctionFill { has_trigger, .. } => *has_trigger,
            _ => false,
        }
    }

    /// The orders crossed and the slot that the intent refers to.
    pub fn crosses_and_slot(&self) -> (crosses: (Vec<(L3Order, u64)>, u64))
        ensures
            crosses.0@ == self.crossed_orders(),
            crosses.1 == self.reference_slot(),
    {
        match self {
            TxIntent::Nothing => (Vec::new(), 0),
            TxIntent::AuctionFill { maker_crosses, .. } => {
                (copy_orders(&maker_crosses.orders), maker_crosses.slot)
            },
            TxIntent::SwiftFill { maker_crosses, .. } => {
                (copy_orders(&maker_crosses.orders), maker_crosses.slot)
            },
            TxIntent::_VAMMTakerFill { slot, .. } => (Vec::new(), *slot),
            TxIntent::LimitUncross { slot, .. } => (Vec::new(), *slot),
            TxIntent::LiquidateWithFill { slot, .. } => (Vec::new(), *slot),
            TxIntent::LiquidatePerp { slot, .. } => (Vec::new(), *slot),
            TxIntent::_LiquidatePerpPnlForDeposit { slot, .. } => (Vec::new(), *slot),
            TxIntent::_LiquidateBorrowForPerpPnl { slot, .. } => (Vec::new(), *slot),
            TxIntent::LiquidateSpot { slot, .. } => (Vec::new(), *slot),
            TxIntent::Derisk { .. } => (Vec::new(), 0),
            TxIntent::SettlePnl { .. } => (Vec::new(), 0),
        }
    }

    /// The slot that the intent itself carries.
    pub fn slot(&self) -> (own: Option<u64>)
        ensures
            own == self.own_slot(),
    {
        match self {
            TxIntent::_VAMMTakerFill { slot, .. }
            | TxIntent::LimitUncross { slot, .. }
            | TxIntent::LiquidateWithFill { slot, .. }
            | TxIntent::LiquidatePerp { slot, .. }
            | TxIntent::_LiquidatePerpPnlForDeposit { slot, .. }
            | TxIntent::_LiquidateBorrowForPerpPnl { slot, .. }
            | TxIntent::LiquidateSpot { slot, .. } => Some(*slot),
            _ => None,
        }
    }

    /// The account being liquidated, if this is a liquidation.
    pub fn liquidatee(&self) -> (account: Option<Pubkey>)
        ensures
            account == self.liquidated_account(),
    {
        match self {
            TxIntent::LiquidateWithFill { liquidatee, .. }
            | TxIntent::LiquidatePerp { liquidatee, .. }
            | TxIntent::_LiquidatePerpPnlForDeposit { liquidatee, .. }
            | TxIntent::_LiquidateBorrowForPerpPnl { liquidatee, .. }
            | TxIntent::LiquidateSpot { liquidatee, .. } => Some(*liquidatee),
            _ => None,
        }
    }

    /// Whether this is a liquidation.
    pub fn is_liquidation(&self) -> (liquidation: bool)
        ensures
            liquidation == self.liquidates(),
    {
        matches!(
            self,
            TxIntent::LiquidateWithFill { .. }
                | TxIntent::LiquidatePerp { .. }
                | TxIntent::_LiquidatePerpPnlForDeposit { .. }
                | TxIntent::_LiquidateBorrowForPerpPnl { .. }
                | TxIntent::LiquidateSpot { .. }
        )
    }
}

/// Exactly the liquidations name an account, and each of them carries a slot.
pub proof fn law_liquidations_name_account_and_slot(intent: TxIntent)
    ensures
        intent.liquidates() <==> intent.liquidated_account() is Some,
        intent.liquidates() ==> intent.own_slot() is Some,
{
}

/// An intent with a slot of its own has no crossed orders and refers to that slot.
pub proof fn law_own_slot_means_no_crosses(intent: TxIntent)
    ensures
        intent.own_slot() matches Some(slot) ==> {
            &&& intent.reference_slot() == slot
            &&& intent.crossed_orders() == Seq::<(L3Order, u64)>::empty()
        },
{
}

/// Every crossed order is expected to be filled, with at most one further fill besides.
pub proof fn law_every_cross_is_filled(intent: TxIntent)
    ensures
        intent.crossed_orders().len() <= intent.fill_count() <= intent.crossed_orders().len() + 1,
{
}

/// Intents that are the same answer every question alike.
pub proof fn law_same_intents_agree(a: TxIntent, b: TxIntent)
    requires
        same_intent(a, b),
    ensures
        a.label_text() == b.label_text(),
        a.fill_count() == b.fill_count(),
        a.triggers_taker() == b.triggers_taker(),
        a.liquidates() == b.liquidates(),
        a.own_slot() == b.own_slot(),
        a.liquidated_account() == b.liquidated_account(),
        a.crossed_orders() == b.crossed_orders(),
        a.reference_slot() == b.reference_slot(),
{
}

/// A label belongs to one kind of intent only, and for fills against makers it also
/// tells whether the AMM is crossed.
pub proof fn law_label_identifies_kind(a: TxIntent, b: TxIntent)
    requires
        a.label_text() == b.label_text(),
    ensures
        a is Nothing <==> b is Nothing,
        a is AuctionFill <==> b is AuctionFill,
        a is SwiftFill <==> b is SwiftFill,
        a is _VAMMTakerFill <==> b is _VAMMTakerFill,
        a is LimitUncross <==> b is LimitUncross,
        a is LiquidateWithFill <==> b is LiquidateWithFill,
        a is LiquidatePerp <==> b is LiquidatePerp,
        a is _LiquidatePerpPnlForDeposit <==> b is _LiquidatePerpPnlForDeposit,
        a is _LiquidateBorrowForPerpPnl <==> b is _LiquidateBorrowForPerpPnl,
        a is LiquidateSpot <==> b is LiquidateSpot,
        a is Derisk <==> b is Derisk,
        a is SettlePnl <==> b is SettlePnl,
        match (a.maker_crosses(), b.maker_crosses()) {
            (Some(x), Some(y)) => x.has_vamm_cross == y.has_vamm_cross,
            _ => true,
        },
{
    lemma_labels_differ();
}

/// No two labels are the same text.
proof fn lemma_labels_differ()
    ensures
        seq![
            "none"@,
            "auction_fill_vamm"@,
            "auction_fill"@,
            "swift_fill"@,
            "swift_fill_vamm"@,
            "vamm_taker"@,
            "limit_uncross"@,
            "liq_with_fill"@,
            "liq_perp"@,
            "liq_perp_pnl_for_deposit"@,
            "liq_borrow_for_perp_pnl"@,
            "liq_spot"@,
            "derisk"@,
            "settle_pnl"@,
        ].no_duplicates(),
{
    reveal_strlit("none");
    reveal_strlit("auction_fill_vamm");
    reveal_strlit("auction_fill");
    reveal_strlit("swift_fill");
    reveal_strlit("swift_fill_vamm");
    reveal_strlit("vamm_taker");
    reveal_strlit("limit_uncross");
    reveal_strlit("liq_with_fill");
    reveal_strlit("liq_perp");
    reveal_strlit("liq_perp_pnl_for_deposit");
    reveal_strlit("liq_borrow_for_perp_pnl");
    reveal_strlit("liq_spot");
    reveal_strlit("derisk");
    reveal_strlit("settle_pnl");
    assert("none"@.len() == 4);
    assert("auction_fill_vamm"@.len() == 17);
    assert("auction_fill"@.len() == 12);
    assert("swift_fill"@.len() == 10);
    assert("swift_fill_vamm"@.len() == 15);
    assert("vamm_taker"@.len() == 10);
    assert("limit_uncross"@.len() == 13);
    assert("liq_with_fill"@.len() == 13);
    assert("liq_perp"@.len() == 8);
    assert("liq_perp_pnl_for_deposit"@.len() == 24);
    assert("liq_borrow_for_perp_pnl"@.len() == 23);
    assert("liq_spot"@.len() == 8);
    assert("derisk"@.len() == 6);
    assert("settle_pnl"@.len() == 10);
    // Labels of equal length differ in a character.
    assert("swift_fill"@[1] != "vamm_taker"@[1]);
    assert("swift_fill"@[1] != "settle_pnl"@[1]);
    assert("vamm_taker"@[1] != "settle_pnl"@[1]);
    assert("limit_uncross"@[2] != "liq_with_fill"@[2]);
    assert("liq_perp"@[4] != "liq_spot"@[4]);
}

/// A fill against makers produces one fill per crossed order and one more just when the
/// AMM is crossed too, whoever sends it and whether or not it triggers the taker order. Of
/// the others, a fill of a taker by the AMM, an uncross of two limit orders and a
/// liquidation with a fill produce one each, and the rest none.
pub proof fn law_fills_by_kind(intent: &TxIntent, count: usize)
    requires
        call_ensures(TxIntent::expected_fill_count, (intent,), count),
    ensures
        match *intent {
            TxIntent::AuctionFill { maker_crosses, .. } => {
                &&& maker_crosses.has_vamm_cross ==> count == maker_crosses.orders@.len() + 1
                &&& !maker_crosses.has_vamm_cross ==> count == maker_crosses.orders@.len()
            },
            TxIntent::SwiftFill { maker_crosses } => {
                &&& maker_crosses.has_vamm_cross ==> count == maker_crosses.orders@.len() + 1
                &&& !maker_crosses.has_vamm_cross ==> count == maker_crosses.orders@.len()
            },
            TxIntent::_VAMMTakerFill { .. } => count == 1,
            TxIntent::LimitUncross { .. } => count == 1,
            TxIntent::LiquidateWithFill { .. } => count == 1,
            _ => count == 0,
        },
{
}

/// Auction and swift fills against the same crosses produce the same fills: neither the
/// taker order nor its trigger makes a difference.
pub proof fn law_fills_depend_on_crosses_alone(
    taker_order_id: u32,
    has_trigger: bool,
    crosses: MakerCrosses,
    auction: usize,
    swift: usize,
)
    requires
        call_ensures(
            TxIntent::expected_fill_count,
            (&TxIntent::AuctionFill {
                _taker_order_id: taker_order_id,
                has_trigger,
                maker_crosses: crosses,
            },),
            auction,
        ),
        call_ensures(
            TxIntent::expected_fill_count,
            (&TxIntent::SwiftFill { maker_crosses: crosses },),
            swift,
        ),
    ensures
        auction == swift,
        auction >= crosses.orders@.len(),
        auction == crosses.orders@.len() <==> !crosses.has_vamm_cross,
{
}

/// The number of fills can be counted for every intent whose crossed orders leave room for
/// one more.
pub proof fn law_fills_can_be_counted(intent: &TxIntent)
    requires
        match *intent {
            TxIntent::AuctionFill { maker_crosses, .. } => maker_crosses.orders@.len()
                < usize::MAX,
            TxIntent::SwiftFill { maker_crosses } => maker_crosses.orders@.len() < usize::MAX,
            _ => true,
        },
    ensures
        call_requires(TxIntent::expected_fill_count, (intent,)),
{
}

/// Only an auction fill triggers its taker order, and it does so just when it says so.
pub proof fn law_trigger_is_of_auction_fills(intent: &TxIntent, triggers: bool)
    requires
        call_ensures(TxIntent::expected_trigger, (intent,), triggers),
    ensures
        triggers ==> intent is AuctionFill,
        intent is AuctionFill ==> triggers == intent->AuctionFill_has_trigger,
{
}

/// A fill against makers refers to its crossed orders and their slot; any other intent
/// refers to no orders, and to the slot that it carries, or to slot zero.
pub proof fn law_crosses_and_slot_by_kind(intent: &TxIntent, orders: Vec<(L3Order, u64)>, at: u64)
    requires
        call_ensures(TxIntent::crosses_and_slot, (intent,), (orders, at)),
    ensures
        match *intent {
            TxIntent::AuctionFill { maker_crosses, .. } => orders@ == maker_crosses.orders@ && at
                == maker_crosses.slot,
            TxIntent::SwiftFill { maker_crosses } => orders@ == maker_crosses.orders@ && at
                == maker_crosses.slot,
            TxIntent::_VAMMTakerFill { slot, .. } => orders@.len() == 0 && at == slot,
            TxIntent::LimitUncross { slot, .. } => orders@.len() == 0 && at == slot,
            TxIntent::LiquidateWithFill { slot, .. } => orders@.len() == 0 && at == slot,
            TxIntent::LiquidatePerp { slot, .. } => orders@.len() == 0 && at == slot,
            TxIntent::_LiquidatePerpPnlForDeposit { slot, .. } => orders@.len() == 0 && at == slot,
            TxIntent::_LiquidateBorrowForPerpPnl { slot, .. } => orders@.len() == 0 && at == slot,
            TxIntent::LiquidateSpot { slot, .. } => orders@.len() == 0 && at == slot,
            _ => orders@.len() == 0 && at == 0,
        },
{
}

/// The slot of an intent is the one that its kind carries: fills against makers carry
/// theirs with the crosses, and three kinds carry none. Where there is one, it is also
/// the slot that the intent refers to.
pub proof fn law_slot_by_kind(
    intent: &TxIntent,
    own: Option<u64>,
    orders: Vec<(L3Order, u64)>,
    at: u64,
)
    requires
        call_ensures(TxIntent::slot, (intent,), own),
        call_ensures(TxIntent::crosses_and_slot, (intent,), (orders, at)),
    ensures
        own is None <==> {
            ||| intent is Nothing
            ||| intent is AuctionFill
            ||| intent is SwiftFill
            ||| intent is Derisk
            ||| intent is SettlePnl
        },
        own matches Some(slot) ==> slot == at,
{
    law_crosses_and_slot_by_kind(intent, orders, at);
}

/// An intent is a liquidation just when it is of one of the five liquidating kinds, and
/// then the account to liquidate is the one that it carries; no other intent has one.
pub proof fn law_liquidatee_by_kind(
    intent: &TxIntent,
    account: Option<Pubkey>,
    liquidation: bool,
)
    requires
        call_ensures(TxIntent::liquidatee, (intent,), account),
        call_ensures(TxIntent::is_liquidation, (intent,), liquidation),
    ensures
        liquidation == (account is Some),
        match *intent {
            TxIntent::LiquidateWithFill { liquidatee, .. } => account == Some(liquidatee),
            TxIntent::LiquidatePerp { liquidatee, .. } => account == Some(liquidatee),
            TxIntent::_LiquidatePerpPnlForDeposit { liquidatee, .. } => account == Some(liquidatee),
            TxIntent::_LiquidateBorrowForPerpPnl { liquidatee, .. } => account == Some(liquidatee),
            TxIntent::LiquidateSpot { liquidatee, .. } => account == Some(liquidatee),
            _ => account is None,
        },
{
}

/// Each label is given to one kind of intent and to no other; a fill against makers has
/// two, of which an auction fill takes the longer and a swift fill the shorter if the AMM is
/// crossed.
pub proof fn law_label_is_of_kind(intent: &TxIntent, text: &'static str)
    requires
        call_ensures(TxIntent::label, (intent,), text),
    ensures
        text@ == "none"@ <==> intent is Nothing,
        text@ == "auction_fill_vamm"@ <==> intent is AuctionFill
            && intent->AuctionFill_maker_crosses.has_vamm_cross,
        text@ == "auction_fill"@ <==> intent is AuctionFill
            && !intent->AuctionFill_maker_crosses.has_vamm_cross,
        text@ == "swift_fill"@ <==> intent is SwiftFill
            && intent->SwiftFill_maker_crosses.has_vamm_cross,
        text@ == "swift_fill_vamm"@ <==> intent is SwiftFill
            && !intent->SwiftFill_maker_crosses.has_vamm_cross,
        text@ == "vamm_taker"@ <==> intent is _VAMMTakerFill,
        text@ == "limit_uncross"@ <==> intent is LimitUncross,
        text@ == "liq_with_fill"@ <==> intent is LiquidateWithFill,
        text@ == "liq_perp"@ <==> intent is LiquidatePerp,
        text@ == "liq_perp_pnl_for_deposit"@ <==> intent is _LiquidatePerpPnlForDeposit,
        text@ == "liq_borrow_for_perp_pnl"@ <==> intent is _LiquidateBorrowForPerpPnl,
        text@ == "liq_spot"@ <==> intent is LiquidateSpot,
        text@ == "derisk"@ <==> intent is Derisk,
        text@ == "settle_pnl"@ <==> intent is SettlePnl,
{
    lemma_labels_differ();
}

/// Intents count as the same just when they are of one kind and hold the same: every
/// field, and of crossed orders every order with its size.
pub proof fn law_same_intents_hold_the_same(a: TxIntent, b: TxIntent)
    ensures
        same_intent(a, a),
        same_intent(a, b) ==> same_intent(b, a),
        same_intent(a, b) && !(a is AuctionFill) && !(a is SwiftFill) ==> a == b,
        same_intent(a, b) && a is AuctionFill ==> {
            &&& b is AuctionFill
            &&& a->AuctionFill__taker_order_id == b->AuctionFill__taker_order_id
            &&& a->AuctionFill_has_trigger == b->AuctionFill_has_trigger
            &&& a->AuctionFill_maker_crosses.orders@ == b->AuctionFill_maker_crosses.orders@
            &&& a->AuctionFill_maker_crosses.slot == b->AuctionFill_maker_crosses.slot
            &&& a->AuctionFill_maker_crosses.has_vamm_cross
                == b->AuctionFill_maker_crosses.has_vamm_cross
        },
        same_intent(a, b) && a is SwiftFill ==> {
            &&& b is SwiftFill
            &&& a->SwiftFill_maker_crosses.orders@ == b->SwiftFill_maker_crosses.orders@
            &&& a->SwiftFill_maker_crosses.slot == b->SwiftFill_maker_crosses.slot
            &&& a->SwiftFill_maker_crosses.has_vamm_cross
                == b->SwiftFill_maker_crosses.has_vamm_cross
        },
{
}

/// A copy of an intent is the same intent, and a copy of crossed orders holds the same.
pub proof fn law_copies_are_the_same(
    intent: &TxIntent,
    copy: TxIntent,
    crosses: &MakerCrosses,
    crosses_copy: MakerCrosses,
)
    requires
        call_ensures(TxIntent::clone, (intent,), copy),
        call_ensures(MakerCrosses::clone, (crosses,), crosses_copy),
    ensures
        same_intent(copy, *intent),
        crosses_copy.orders@ == crosses.orders@,
        crosses_copy.slot == crosses.slot,
        crosses_copy.has_vamm_cross == crosses.has_vamm_cross,
{
}

/// By default there is no purpose, and nothing is crossed.
pub proof fn law_defaults_are_blank(intent: TxIntent, crosses: MakerCrosses)
    requires
        call_ensures(TxIntent::default, (), intent),
        call_ensures(MakerCrosses::default, (), crosses),
    ensures
        intent is Nothing,
        crosses.orders@.len() == 0,
        crosses.slot == 0,
        !crosses.has_vamm_cross,
{
}

} // verus!
