//! Decisions of the one-shot spot liquidation.

use vstd::prelude::*;

verus! {

/// Which side a spot balance is on.
#[derive(Clone, Copy, Debug, PartialEq, Eq, Structural)]
pub enum SpotBalanceType {
    Deposit,
    Borrow,
}

/// A spot position of an account. An available position is a free place, not in use.
#[derive(Clone, Copy, Debug, PartialEq, Eq, Structural)]
pub struct SpotPosition {
    pub balance_type: SpotBalanceType,
    pub available: bool,
}

/// The networks that a keeper can run on.
#[derive(Clone, Copy, Debug, PartialEq, Eq, Structural)]
pub enum Cluster {
    MainNet,
    DevNet,
}

impl SpotPosition {
    /// Whether this is a borrow in use.
    pub open spec fn is_open_borrow(self) -> bool {
        self.balance_type == SpotBalanceType::Borrow && !self.available
    }
}

/// How many of the positions are borrows in use.
pub open spec fn open_borrows(positions: Seq<SpotPosition>) -> nat {
    positions.filter(|p: SpotPosition| p.is_open_borrow()).len()
}

/// Counts the borrows in use. An account without any has nothing to liquidate.
pub fn spot_borrow_count(positions: &[SpotPosition]) -> (count: usize)
    ensures
        count == open_borrows(positions@),
{
    let ghost wanted = |p: SpotPosition| p.is_open_borrow();
    let mut count: usize = 0;
    let mut i: usize = 0;
    proof {
        reveal(Seq::filter);
    }
    while i < positions.len()
        invariant
            i <= positions@.len(),
            count <= i,
            wanted == (|p: SpotPosition| p.is_open_borrow()),
            count == positions@.take(i as int).filter(wanted).len(),
        decreases positions@.len() - i,
    {
        let position = positions[i];
        proof {
            reveal(Seq::filter);
            let upto = positions@.take(i + 1);
            assert(upto.drop_last() =~= positions@.take(i as int));
            assert(upto.last() == position);
        }
        if position.balance_type == SpotBalanceType::Borrow && !position.available {
            count = count + 1;
        }
        i = i + 1;
    }
    assert(positions@.take(positions@.len() as int) =~= positions@);
    count
}

/// The network to run on.
pub fn cluster(mainnet: bool) -> (cluster: Cluster)
    ensures
        cluster == if mainnet {
            Cluster::MainNet
        } else {
            Cluster::DevNet
        },
{
    if mainnet {
        Cluster::MainNet
    } else {
        Cluster::DevNet
    }
}

/// The RPC endpoint to use: the one given, else the public one of the network.
pub fn rpc_url(given: Option<String>, mainnet: bool) -> (url: String)
    ensures
        url@ == match given {
            Some(g) => g@,
            None => if mainnet {
                "https://api.mainnet-beta.solana.com"@
            } else {
                "https://api.devnet.solana.com"@
            },
        },
{
    match given {
        Some(url) => url,
        None => {
            if mainnet {
                "https://api.mainnet-beta.solana.com".to_owned()
            } else {
                "https://api.devnet.solana.com".to_owned()
            }
        },
    }
}

/// An account has nothing to liquidate just when none of its positions is a borrow in use.
pub proof fn law_no_borrows_means_none_open(positions: Seq<SpotPosition>)
    ensures
        open_borrows(positions) == 0 <==> forall|i: int|
            0 <= i < positions.len() ==> !(#[trigger] positions[i]).is_open_borrow(),
    decreases positions.len(),
{
    reveal(Seq::filter);
    if positions.len() > 0 {
        law_no_borrows_means_none_open(positions.drop_last());
        let rest = positions.drop_last();
        assert(forall|i: int| 0 <= i < rest.len() ==> positions[i] == #[trigger] rest[i]);
        assert(forall|i: int| 0 <= i < rest.len() ==> rest[i] == #[trigger] positions[i]);
    }
}

/// Each further position raises the count by one just when it is a borrow that is not
/// available; no positions count none.
pub proof fn law_each_open_borrow_counts_once(
    positions: &[SpotPosition],
    longer: &[SpotPosition],
    added: SpotPosition,
    count: usize,
    longer_count: usize,
)
    requires
        longer@ == positions@.push(added),
        call_ensures(spot_borrow_count, (positions,), count),
        call_ensures(spot_borrow_count, (longer,), longer_count),
    ensures
        positions@.len() == 0 ==> count == 0,
        count <= positions@.len(),
        added.balance_type == SpotBalanceType::Borrow && !added.available ==> longer_count == count
            + 1,
        added.balance_type == SpotBalanceType::Deposit || added.available ==> longer_count == count,
{
    let wanted = |p: SpotPosition| p.is_open_borrow();
    reveal(Seq::filter);
    assert(longer@.drop_last() =~= positions@);
    positions@.lemma_filter_len_push(wanted, added);
    lemma_count_is_bounded(positions@);
}

/// There are never more borrows in use than positions.
proof fn lemma_count_is_bounded(positions: Seq<SpotPosition>)
    ensures
        open_borrows(positions) <= positions.len(),
    decreases positions.len(),
{
    reveal(Seq::filter);
    if positions.len() > 0 {
        lemma_count_is_bounded(positions.drop_last());
    }
}

/// The order of the positions makes no difference, nor does how they are split: the counts
/// of two parts add up to the count of the whole.
pub proof fn law_counts_add_up(a: Seq<SpotPosition>, b: Seq<SpotPosition>)
    ensures
        open_borrows(a + b) == open_borrows(a) + open_borrows(b),
        open_borrows(a + b) == open_borrows(b + a),
{
    lemma_counts_add_up(a, b);
    lemma_counts_add_up(b, a);
}

/// The count of a list and another after it.
proof fn lemma_counts_add_up(a: Seq<SpotPosition>, b: Seq<SpotPosition>)
    ensures
        open_borrows(a + b) == open_borrows(a) + open_borrows(b),
    decreases b.len(),
{
    reveal(Seq::filter);
    if b.len() == 0 {
        assert(a + b =~= a);
    } else {
        lemma_counts_add_up(a, b.drop_last());
        assert((a + b).drop_last() =~= a + b.drop_last());
    }
}

/// There is something to liquidate just when some position is a borrow that is not
/// available.
pub proof fn law_something_to_liquidate(positions: &[SpotPosition], count: usize)
    requires
        call_ensures(spot_borrow_count, (positions,), count),
    ensures
        count > 0 <==> exists|i: int|
            0 <= i < positions@.len() && (#[trigger] positions@[i]).balance_type
                == SpotBalanceType::Borrow && !positions@[i].available,
{
    law_no_borrows_means_none_open(positions@);
    if count > 0 {
        let i = choose|i: int|
            0 <= i < positions@.len() && (#[trigger] positions@[i]).is_open_borrow();
        assert(positions@[i].balance_type == SpotBalanceType::Borrow);
    }
}

/// The endpoint given is the one used. Without one, the network decides, and the two
/// networks have different endpoints.
pub proof fn law_endpoint_follows_choice(
    given: String,
    mainnet: bool,
    chosen: String,
    main: String,
    dev: String,
    network: Cluster,
)
    requires
        call_ensures(rpc_url, (Some(given), mainnet), chosen),
        call_ensures(rpc_url, (None, true), main),
        call_ensures(rpc_url, (None, false), dev),
        call_ensures(cluster, (mainnet,), network),
    ensures
        chosen@ == given@,
        main@ == "https://api.mainnet-beta.solana.com"@,
        dev@ == "https://api.devnet.solana.com"@,
        main@ != dev@,
        network == Cluster::MainNet <==> mainnet,
{
    reveal_strlit("https://api.mainnet-beta.solana.com");
    reveal_strlit("https://api.devnet.solana.com");
    assert(main@[12] != dev@[12]);
}

} // verus!
