use keeper_core::liquidation::{
    cluster, rpc_url, spot_borrow_count, Cluster, SpotBalanceType, SpotPosition,
};

fn position(balance_type: SpotBalanceType, available: bool) -> SpotPosition {
    SpotPosition { balance_type, available }
}

#[test]
fn only_borrows_in_use_count() {
    assert_eq!(spot_borrow_count(&[]), 0);
    assert_eq!(
        spot_borrow_count(&[
            position(SpotBalanceType::Deposit, false),
            position(SpotBalanceType::Borrow, true),
            position(SpotBalanceType::Deposit, true),
        ]),
        0
    );
    assert_eq!(
        spot_borrow_count(&[
            position(SpotBalanceType::Borrow, false),
            position(SpotBalanceType::Deposit, false),
            position(SpotBalanceType::Borrow, false),
        ]),
        2
    );
}

#[test]
fn network_decides_the_default_endpoint() {
    assert_eq!(cluster(true), Cluster::MainNet);
    assert_eq!(cluster(false), Cluster::DevNet);
    assert_eq!(rpc_url(None, true), "https://api.mainnet-beta.solana.com");
    assert_eq!(rpc_url(None, false), "https://api.devnet.solana.com");
    assert_eq!(rpc_url(Some("http://localhost:8899".to_string()), true), "http://localhost:8899");
}
