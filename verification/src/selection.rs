//! Which price feeds to subscribe.

use std::collections::HashSet;
use vstd::prelude::*;

verus! {

/// The feeds to subscribe, each once, and those of them that were asked for by id.
pub struct FeedSelection {
    pub feed_ids: Vec<u32>,
    pub extra_feeds: HashSet<u32>,
}

/// Whether a feed is wanted: some perp or spot market is priced by it, or it was asked
/// for by id. A market without a feed is a `None`.
pub open spec fn is_wanted(
    perp_feeds: Seq<Option<u32>>,
    spot_feeds: Seq<Option<u32>>,
    extra_feed_ids: Seq<u32>,
    feed_id: u32,
) -> bool {
    ||| perp_feeds.contains(Some(feed_id))
    ||| spot_feeds.contains(Some(feed_id))
    ||| extra_feed_ids.contains(feed_id)
}

/// A list under construction, without repeats, and the set of what it holds.
spec fn in_step(feed_ids: Seq<u32>, seen: Set<u32>) -> bool {
    &&& feed_ids.no_duplicates()
    &&& forall|f: u32| #[trigger] feed_ids.contains(f) <==> seen.contains(f)
}

/// Adds a feed to the list unless it is there already.
fn add_feed(feed_ids: &mut Vec<u32>, seen: &mut HashSet<u32>, feed_id: u32)
    requires
        in_step(old(feed_ids)@, old(seen)@),
    ensures
        in_step(final(feed_ids)@, final(seen)@),
        final(seen)@ == old(seen)@.insert(feed_id),
{
    broadcast use vstd::std_specs::hash::group_hash_axioms;

    if seen.insert(feed_id) {
        let ghost before = feed_ids@;
        feed_ids.push(feed_id);
        proof {
            let after = feed_ids@;
            assert forall|f: u32| #[trigger] after.contains(f) <==> seen@.contains(f) by {
                if after.contains(f) && f != feed_id {
                    let i = after.index_of(f);
                    assert(before[i] == f);
                }
                if before.contains(f) {
                    let i = before.index_of(f);
                    assert(after[i] == f);
                }
                assert(after[before.len() as int] == feed_id);
            }
            assert(!before.contains(feed_id));
            assert forall|i: int, j: int|
                0 <= i < after.len() && 0 <= j < after.len() && i != j implies after[i]
                != after[j] by {
                if i < before.len() {
                    assert(before.contains(before[i]));
                }
                if j < before.len() {
                    assert(before.contains(before[j]));
                }
            }
        }
    }
}

/// Adds the feeds of a list of markets.
fn add_market_feeds(feed_ids: &mut Vec<u32>, seen: &mut HashSet<u32>, feeds: &[Option<u32>])
    requires
        in_step(old(feed_ids)@, old(seen)@),
    ensures
        in_step(final(feed_ids)@, final(seen)@),
        forall|f: u32| #[trigger]
            final(seen)@.contains(f) <==> old(seen)@.contains(f) || feeds@.contains(Some(f)),
{
    let mut i: usize = 0;
    while i < feeds.len()
        invariant
            i <= feeds@.len(),
            in_step(feed_ids@, seen@),
            forall|f: u32| #[trigger]
                seen@.contains(f) <==> old(seen)@.contains(f) || feeds@.take(i as int).contains(
                    Some(f),
                ),
        decreases feeds@.len() - i,
    {
        proof {
            lemma_take_contains(feeds@, i as int);
        }
        if let Some(feed_id) = feeds[i] {
            add_feed(feed_ids, seen, feed_id);
        }
        i = i + 1;
    }
    assert(feeds@.take(feeds@.len() as int) =~= feeds@);
}

/// Chooses the feeds to subscribe from the feeds of the perp markets, those of the spot
/// markets, and feeds given by id. The order of the list is not part of the contract.
pub fn select_feeds(
    perp_feeds: &[Option<u32>],
    spot_feeds: &[Option<u32>],
    extra_feed_ids: &[u32],
) -> (selection: FeedSelection)
    ensures
        selection.feed_ids@.no_duplicates(),
        forall|f: u32| #[trigger]
            selection.feed_ids@.contains(f) <==> is_wanted(
                perp_feeds@,
                spot_feeds@,
                extra_feed_ids@,
                f,
            ),
        selection.extra_feeds@ == extra_feed_ids@.to_set(),
        forall|f: u32| #[trigger]
            selection.extra_feeds@.contains(f) ==> selection.feed_ids@.contains(f),
{
    broadcast use vstd::std_specs::hash::group_hash_axioms;

    let mut feed_ids: Vec<u32> = Vec::new();
    let mut seen: HashSet<u32> = HashSet::new();
    add_market_feeds(&mut feed_ids, &mut seen, perp_feeds);
    add_market_feeds(&mut feed_ids, &mut seen, spot_feeds);

    let mut extra_feeds: HashSet<u32> = HashSet::new();
    let ghost from_markets = seen@;
    let mut i: usize = 0;
    while i < extra_feed_ids.len()
        invariant
            i <= extra_feed_ids@.len(),
            in_step(feed_ids@, seen@),
            forall|f: u32| #[trigger]
                extra_feeds@.contains(f) <==> extra_feed_ids@.take(i as int).contains(f),
            forall|f: u32| #[trigger]
                seen@.contains(f) <==> from_markets.contains(f) || extra_feed_ids@.take(
                    i as int,
                ).contains(f),
        decreases extra_feed_ids@.len() - i,
    {
        proof {
            lemma_take_contains(extra_feed_ids@, i as int);
        }
        extra_feeds.insert(extra_feed_ids[i]);
        add_feed(&mut feed_ids, &mut seen, extra_feed_ids[i]);
        i = i + 1;
    }
    assert(extra_feed_ids@.take(extra_feed_ids@.len() as int) =~= extra_feed_ids@);
    assert(extra_feeds@ =~= extra_feed_ids@.to_set());
    FeedSelection { feed_ids, extra_feeds }
}

/// A prefix grown by one item contains what it did before and that item.
proof fn lemma_take_contains<T>(s: Seq<T>, i: int)
    requires
        0 <= i < s.len(),
    ensures
        forall|x: T| #[trigger]
            s.take(i + 1).contains(x) <==> s.take(i).contains(x) || x == s[i],
{
    assert forall|x: T| #[trigger]
        s.take(i + 1).contains(x) <==> s.take(i).contains(x) || x == s[i] by {
        if s.take(i + 1).contains(x) {
            let k = s.take(i + 1).index_of(x);
            if k < i {
                assert(s.take(i)[k] == x);
            }
        }
        if s.take(i).contains(x) {
            let k = s.take(i).index_of(x);
            assert(s.take(i + 1)[k] == x);
        }
        assert(s.take(i + 1)[i] == s[i]);
    }
}

/// The list holds each feed of a perp market, each feed of a spot market and each feed asked
/// for by id, once, and no other; the set holds just those asked for by id.
pub proof fn law_selection_is_what_was_asked_for(
    perp_feeds: &[Option<u32>],
    spot_feeds: &[Option<u32>],
    extra_feed_ids: &[u32],
    selection: FeedSelection,
)
    requires
        call_ensures(select_feeds, (perp_feeds, spot_feeds, extra_feed_ids), selection),
    ensures
        forall|i: int|
            0 <= i < perp_feeds@.len() ==> ((#[trigger] perp_feeds@[i]) matches Some(f)
                ==> selection.feed_ids@.contains(f)),
        forall|i: int|
            0 <= i < spot_feeds@.len() ==> ((#[trigger] spot_feeds@[i]) matches Some(f)
                ==> selection.feed_ids@.contains(f)),
        forall|i: int|
            0 <= i < extra_feed_ids@.len() ==> selection.feed_ids@.contains(
                #[trigger] extra_feed_ids@[i],
            ) && selection.extra_feeds@.contains(extra_feed_ids@[i]),
        forall|f: u32| #[trigger]
            selection.feed_ids@.contains(f) ==> {
                ||| exists|i: int| 0 <= i < perp_feeds@.len() && #[trigger] perp_feeds@[i] == Some(f)
                ||| exists|i: int| 0 <= i < spot_feeds@.len() && #[trigger] spot_feeds@[i] == Some(f)
                ||| exists|i: int| 0 <= i < extra_feed_ids@.len() && #[trigger] extra_feed_ids@[i]
                    == f
            },
        forall|f: u32| #[trigger]
            selection.extra_feeds@.contains(f) ==> exists|i: int|
                0 <= i < extra_feed_ids@.len() && #[trigger] extra_feed_ids@[i] == f,
        forall|k: int, m: int|
            0 <= k < m < selection.feed_ids@.len() ==> selection.feed_ids@[k]
                != selection.feed_ids@[m],
{
    let list = selection.feed_ids@;
    assert forall|i: int| 0 <= i < perp_feeds@.len() implies ((#[trigger] perp_feeds@[i]) matches
        Some(f) ==> list.contains(f)) by {
        if let Some(f) = perp_feeds@[i] {
            assert(perp_feeds@.contains(Some(f)));
            assert(is_wanted(perp_feeds@, spot_feeds@, extra_feed_ids@, f));
        }
    }
    assert forall|i: int| 0 <= i < spot_feeds@.len() implies ((#[trigger] spot_feeds@[i]) matches
        Some(f) ==> list.contains(f)) by {
        if let Some(f) = spot_feeds@[i] {
            assert(spot_feeds@.contains(Some(f)));
            assert(is_wanted(perp_feeds@, spot_feeds@, extra_feed_ids@, f));
        }
    }
    assert forall|i: int| 0 <= i < extra_feed_ids@.len() implies list.contains(
        #[trigger] extra_feed_ids@[i],
    ) && selection.extra_feeds@.contains(extra_feed_ids@[i]) by {
        assert(extra_feed_ids@.contains(extra_feed_ids@[i]));
    }
    assert forall|f: u32| #[trigger] selection.extra_feeds@.contains(f) implies exists|i: int|
        0 <= i < extra_feed_ids@.len() && #[trigger] extra_feed_ids@[i] == f by {
        assert(extra_feed_ids@.contains(f));
    }
}

} // verus!
