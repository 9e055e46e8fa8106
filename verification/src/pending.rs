//! Transactions that were sent and not yet confirmed.

use crate::intent::{same_intent, TxIntent};
use crate::outside::{same_signature, unix_time_ms};
use solana_sdk::signature::Signature;
use vstd::prelude::*;

verus! {

/// A sent transaction: its signature, why it was sent, its compute limit and when it was
/// sent, in milliseconds since the Unix epoch.
#[derive(Debug, Default)]
pub struct PendingTxMeta {
    pub signature: Signature,
    pub intent: TxIntent,
    pub cu_limit: u64,
    pub _ts: u64,
}

/// Whether two records are the same, intents being compared by content.
pub open spec fn same_meta(a: PendingTxMeta, b: PendingTxMeta) -> bool {
    &&& a.signature == b.signature
    &&& same_intent(a.intent, b.intent)
    &&& a.cu_limit == b.cu_limit
    &&& a._ts == b._ts
}

impl Clone for PendingTxMeta {
    fn clone(&self) -> (copy: Self)
        ensures
            same_meta(copy, *self),
    {
        PendingTxMeta {
            signature: self.signature,
            intent: self.intent.clone(),
            cu_limit: self.cu_limit,
            _ts: self._ts,
        }
    }
}

/// Whether `reading` is what the clock may give when it is asked: the milliseconds since
/// the Unix epoch, or nothing if it is set to an earlier time. Which readings these are
/// depends on the machine, and nothing more is known of them.
pub closed spec fn clock_gives(reading: Option<u128>) -> bool {
    call_ensures(unix_time_ms, (), reading)
}

impl PendingTxMeta {
    /// A record of a transaction sent now. There is none just when the clock gives no
    /// reading, being set before the Unix epoch.
    pub fn new(sig: Signature, intent: TxIntent, cu_limit: u64) -> (meta: Option<Self>)
        ensures
            meta matches Some(m) ==> {
                &&& m.signature == sig
                &&& m.intent == intent
                &&& m.cu_limit == cu_limit
            },
            exists|reading: Option<u128>| #[trigger]
                clock_gives(reading) && match reading {
                    Some(now_ms) => {
                        &&& meta matches Some(m)
                        &&& m._ts == now_ms % 0x1_0000_0000_0000_0000
                    },
                    None => meta is None,
                },
    {
        // The clock is called as a value, so that the contract can speak of its answer.
        let clock = unix_time_ms;
        let reading: Option<u128> = clock();
        assert(clock_gives(reading));
        Self::sent_by(sig, intent, cu_limit, reading)
    }

    /// A record of a transaction sent at the time that a clock shows, in milliseconds
    /// since the Unix epoch. There is none just when the clock gives no reading.
    pub fn sent_by(
        sig: Signature,
        intent: TxIntent,
        cu_limit: u64,
        reading: Option<u128>,
    ) -> (meta: Option<Self>)
        ensures
            meta is Some <==> reading is Some,
            meta matches Some(m) ==> {
                &&& m.signature == sig
                &&& m.intent == intent
                &&& m.cu_limit == cu_limit
                &&& m._ts == reading->0 % 0x1_0000_0000_0000_0000
            },
    {
        match reading {
            Some(now_ms) => Some(Self::sent_at(sig, intent, cu_limit, now_ms)),
            None => None,
        }
    }

    /// A record of a transaction sent `now_ms` milliseconds after the Unix epoch, of
    /// which the low 64 bits are kept.
    pub fn sent_at(sig: Signature, intent: TxIntent, cu_limit: u64, now_ms: u128) -> (meta: Self)
        ensures
            meta.signature == sig,
            meta.intent == intent,
            meta.cu_limit == cu_limit,
            meta._ts == now_ms % 0x1_0000_0000_0000_0000,
    {
        let ts: u64 = #[verifier::truncate] (now_ms as u64);
        assert(now_ms as u64 == now_ms % 0x1_0000_0000_0000_0000) by (bit_vector);
        PendingTxMeta { signature: sig, intent, cu_limit, _ts: ts }
    }
}

/// A ring that holds the last `N` transactions sent, oldest first.
pub struct PendingTxs<const N: usize> {
    buffer: Vec<PendingTxMeta>,
    head: usize,
    tail: usize,
    size: usize,
}

/// What a ring of `n` places holds after `item` is added to `held`: a full ring loses
/// its oldest item.
pub open spec fn ring_insert(
    held: Seq<PendingTxMeta>,
    n: nat,
    item: PendingTxMeta,
) -> Seq<PendingTxMeta> {
    if held.len() == n {
        held.drop_first().push(item)
    } else {
        held.push(item)
    }
}

/// What a ring of `n` places holds after `items` are added to `held` one by one.
pub open spec fn ring_insert_all(
    held: Seq<PendingTxMeta>,
    n: nat,
    items: Seq<PendingTxMeta>,
) -> Seq<PendingTxMeta>
    decreases items.len(),
{
    if items.len() == 0 {
        held
    } else {
        ring_insert(ring_insert_all(held, n, items.drop_last()), n, items.last())
    }
}

/// Position `i` is the first that holds a transaction with signature `sig`.
pub open spec fn first_with_signature(held: Seq<PendingTxMeta>, i: int, sig: Signature) -> bool {
    &&& 0 <= i < held.len()
    &&& held[i].signature == sig
    &&& forall|j: int| 0 <= j < i ==> (#[trigger] held[j]).signature != sig
}

/// Whether some transaction held has signature `sig`.
pub open spec fn has_signature(held: Seq<PendingTxMeta>, sig: Signature) -> bool {
    exists|i: int| 0 <= i < held.len() && (#[trigger] held[i]).signature == sig
}

impl<const N: usize> View for PendingTxs<N> {
    type V = Seq<PendingTxMeta>;

    closed spec fn view(&self) -> Seq<PendingTxMeta> {
        Seq::new(self.size as nat, |i: int| self.buffer@[(self.head + i) % (N as int)])
    }
}

impl<const N: usize> PendingTxs<N> {
    /// The buffer fills up from its start, and from then on wraps around.
    pub closed spec fn wf(self) -> bool {
        &&& self.buffer@.len() == self.size
        &&& self.size <= N
        &&& self.size < N ==> self.head == 0 && self.tail == self.size
        &&& self.size == N ==> self.head == self.tail
        &&& N > 0 ==> self.head < N
        &&& N == 0 ==> self.head == 0
    }

    /// A ring that holds nothing.
    pub fn new() -> (ring: Self)
        ensures
            ring.wf(),
            ring@ == Seq::<PendingTxMeta>::empty(),
    {
        PendingTxs { buffer: Vec::new(), head: 0, tail: 0, size: 0 }
    }

    /// Adds an item, overwriting the oldest if the ring is full.
    pub fn insert(&mut self, item: PendingTxMeta)
        requires
            N > 0,
            old(self).wf(),
        ensures
            final(self).wf(),
            final(self)@ == ring_insert(old(self)@, N as nat, item),
    {
        let ghost before = *self;
        if self.size == N {
            self.buffer.set(self.tail, item);
        } else {
            self.buffer.push(item);
        }
        self.tail = (self.tail + 1) % N;
        if self.size == N {
            self.head = (self.head + 1) % N;
        } else {
            self.size = self.size + 1;
        }
        proof {
            let n = N as int;
            let held = ring_insert(before@, N as nat, item);
            lemma_ring_index(before.tail as int, 1, n);
            assert forall|i: int| 0 <= i < held.len() implies self@[i] == held[i] by {
                lemma_ring_index(before.head as int, i, n);
                lemma_ring_index(before.head as int, i + 1, n);
                lemma_ring_index(self.head as int, i, n);
            }
            assert(self@ =~= held);
        }
    }

    /// The first item with signature `sig`, oldest first. The item stays in the ring.
    pub fn confirm(&mut self, sig: &Signature) -> (found: Option<PendingTxMeta>)
        requires
            old(self).wf(),
        ensures
            *final(self) == *old(self),
            match found {
                Some(meta) => exists|i: int|
                    #![trigger old(self)@[i]]
                    first_with_signature(old(self)@, i, *sig) && same_meta(meta, old(self)@[i]),
                None => !has_signature(old(self)@, *sig),
            },
    {
        let mut i: usize = 0;
        while i < self.size
            invariant
                i <= self.size,
                self.wf(),
                *self == *old(self),
                forall|j: int| 0 <= j < i ==> (#[trigger] self@[j]).signature != *sig,
            decreases self.size - i,
        {
            let until_end: usize = N - self.head;
            let idx: usize = if i < until_end {
                self.head + i
            } else {
                i - until_end
            };
            proof {
                lemma_ring_index(self.head as int, i as int, N as int);
            }
            assert(self.buffer@[idx as int] == self@[i as int]);
            if same_signature(&self.buffer[idx].signature, sig) {
                assert(first_with_signature(self@, i as int, *sig));
                return Some(self.buffer[idx].clone());
            }
            i = i + 1;
        }
        None
    }
}

/// A ring never holds more than it has places for, and adding to it fills a free place.
pub proof fn law_ring_never_overfills(held: Seq<PendingTxMeta>, n: nat, item: PendingTxMeta)
    requires
        n > 0,
        held.len() <= n,
    ensures
        ring_insert(held, n, item).len() == if held.len() == n {
            n
        } else {
            held.len() + 1
        },
{
}

/// After any run of additions a ring holds the latest items, in the order in which they
/// came: all of them while they fit, and the last `n` of them after that.
pub proof fn law_ring_keeps_latest(
    held: Seq<PendingTxMeta>,
    n: nat,
    items: Seq<PendingTxMeta>,
)
    requires
        n > 0,
        held.len() <= n,
    ensures
        ring_insert_all(held, n, items) == {
            let all = held + items;
            if all.len() <= n {
                all
            } else {
                all.skip(all.len() - n)
            }
        },
    decreases items.len(),
{
    let all = held + items;
    if items.len() == 0 {
        assert(all =~= held);
    } else {
        law_ring_keeps_latest(held, n, items.drop_last());
        let before = held + items.drop_last();
        assert(all =~= before.push(items.last()));
        if before.len() < n {
        } else if before.len() == n {
            assert(all.skip(1) =~= before.drop_first().push(items.last()));
        } else {
            assert(all.skip(all.len() - n) =~= before.skip(before.len() - n).drop_first().push(
                items.last(),
            ));
        }
    }
}

/// What was just added is found by its signature.
pub proof fn law_added_is_found(held: Seq<PendingTxMeta>, n: nat, item: PendingTxMeta)
    requires
        n > 0,
        held.len() <= n,
    ensures
        has_signature(ring_insert(held, n, item), item.signature),
{
    let after = ring_insert(held, n, item);
    assert(after[after.len() - 1].signature == item.signature);
}

/// Adding to a full ring overwrites the oldest item, and only that one: a signature that
/// neither the others nor the new item have is no longer found, and the others keep
/// their order.
pub proof fn law_full_ring_drops_oldest(
    held: Seq<PendingTxMeta>,
    n: nat,
    item: PendingTxMeta,
    sig: Signature,
)
    requires
        n > 0,
        held.len() == n,
    ensures
        forall|i: int| 0 <= i < n - 1 ==> ring_insert(held, n, item)[i] == held[i + 1],
        has_signature(ring_insert(held, n, item), sig) <==> item.signature == sig || has_signature(
            held.drop_first(),
            sig,
        ),
{
    let after = ring_insert(held, n, item);
    let rest = held.drop_first();
    assert(after =~= rest.push(item));
    if item.signature == sig {
        assert(after[n - 1].signature == sig);
    }
    if has_signature(rest, sig) {
        let i = choose|i: int| 0 <= i < rest.len() && (#[trigger] rest[i]).signature == sig;
        assert(after[i].signature == sig);
    }
    if has_signature(after, sig) && item.signature != sig {
        let i = choose|i: int| 0 <= i < after.len() && (#[trigger] after[i]).signature == sig;
        assert(rest[i].signature == sig);
    }
}

/// Position `head + i` of a ring, reduced to the ring without a division.
proof fn lemma_ring_index(head: int, i: int, n: int)
    requires
        0 <= head < n,
        0 <= i <= n,
    ensures
        (head + i) % n == if i < n - head {
            head + i
        } else {
            i - (n - head)
        },
{
    if head + i < n {
        vstd::arithmetic::div_mod::lemma_small_mod((head + i) as nat, n as nat);
    } else {
        vstd::arithmetic::div_mod::lemma_mod_sub_multiples_vanish(head + i, n);
        vstd::arithmetic::div_mod::lemma_small_mod((head + i - n) as nat, n as nat);
    }
}

/// The clock that stamps the records is the clock of the machine: a reading counts as its
/// own just when asking it gave that reading.
proof fn lemma_clock_is_asked(reading: Option<u128>)
    ensures
        clock_gives(reading) <==> call_ensures(unix_time_ms, (), reading),
{
}

/// There is a record just when the clock gives a reading, whatever the transaction, and
/// the record holds the transaction as it was given and the low 64 bits of the reading.
pub proof fn law_every_transaction_is_recorded(
    sig: Signature,
    intent: TxIntent,
    cu_limit: u64,
    meta: Option<PendingTxMeta>,
)
    requires
        call_ensures(PendingTxMeta::new, (sig, intent, cu_limit), meta),
    ensures
        exists|reading: Option<u128>| #[trigger]
            clock_gives(reading) && match reading {
                Some(now_ms) => meta == Some(
                    PendingTxMeta {
                        signature: sig,
                        intent,
                        cu_limit,
                        _ts: (now_ms % 0x1_0000_0000_0000_0000) as u64,
                    },
                ),
                None => meta is None,
            },
        (forall|reading: Option<u128>| #[trigger] clock_gives(reading) ==> reading is Some)
            ==> meta is Some,
{
    let reading = choose|reading: Option<u128>| #[trigger]
        clock_gives(reading) && match reading {
            Some(now_ms) => {
                &&& meta matches Some(m)
                &&& m._ts == now_ms % 0x1_0000_0000_0000_0000
            },
            None => meta is None,
        };
    assert(clock_gives(reading));
}

/// A record holds the transaction as it was given and its time, which is exact as long as
/// it fits 64 bits and starts over after that; without a time there is no record.
pub proof fn law_record_holds_transaction_and_time(
    sig: Signature,
    intent: TxIntent,
    cu_limit: u64,
    now_ms: u128,
    meta: PendingTxMeta,
    by_clock: Option<PendingTxMeta>,
    without_clock: Option<PendingTxMeta>,
)
    requires
        call_ensures(PendingTxMeta::sent_at, (sig, intent, cu_limit, now_ms), meta),
        call_ensures(PendingTxMeta::sent_by, (sig, intent, cu_limit, Some(now_ms)), by_clock),
        call_ensures(PendingTxMeta::sent_by, (sig, intent, cu_limit, None), without_clock),
    ensures
        meta.signature == sig,
        meta.intent == intent,
        meta.cu_limit == cu_limit,
        now_ms <= 0xffff_ffff_ffff_ffff ==> meta._ts == now_ms,
        exists|laps: int| now_ms == meta._ts + #[trigger] (laps * 0x1_0000_0000_0000_0000),
        by_clock == Some(meta),
        without_clock is None,
{
    let laps = now_ms as int / 0x1_0000_0000_0000_0000;
    assert(now_ms == meta._ts + laps * 0x1_0000_0000_0000_0000);
}

/// Records that count as the same hold the same transaction, sent at the same time.
pub proof fn law_same_records_agree(a: PendingTxMeta, b: PendingTxMeta)
    ensures
        same_meta(a, b) <==> a.signature == b.signature && a.cu_limit == b.cu_limit && a._ts
            == b._ts && same_intent(a.intent, b.intent),
{
}

/// A new ring is empty. An item that is added becomes the newest; it displaces the oldest
/// just when all `N` places are taken, and the others stay in order.
pub proof fn law_ring_adds_newest<const N: usize>(
    fresh: PendingTxs<N>,
    ring: &mut PendingTxs<N>,
    item: PendingTxMeta,
)
    requires
        N > 0,
        call_ensures(PendingTxs::<N>::new, (), fresh),
        old(ring).wf(),
        call_ensures(PendingTxs::<N>::insert, (ring, item), ()),
    ensures
        fresh.wf(),
        fresh@.len() == 0,
        final(ring).wf(),
        old(ring)@.len() <= N,
        final(ring)@.len() == if old(ring)@.len() < N {
            old(ring)@.len() + 1
        } else {
            N as nat
        },
        final(ring)@.last() == item,
        forall|i: int|
            0 <= i < final(ring)@.len() - 1 ==> #[trigger] final(ring)@[i] == old(ring)@[i
                + old(ring)@.len() + 1 - final(ring)@.len()],
{
}

/// Asking for a signature changes nothing. It gives the oldest transaction held with that
/// signature, and none just when there is none.
pub proof fn law_confirm_gives_oldest<const N: usize>(
    ring: &mut PendingTxs<N>,
    sig: &Signature,
    found: Option<PendingTxMeta>,
)
    requires
        old(ring).wf(),
        call_ensures(PendingTxs::<N>::confirm, (ring, sig), found),
    ensures
        *final(ring) == *old(ring),
        found is None <==> forall|i: int|
            0 <= i < old(ring)@.len() ==> (#[trigger] old(ring)@[i]).signature != *sig,
        found matches Some(meta) ==> exists|i: int|
            #![trigger old(ring)@[i]]
            0 <= i < old(ring)@.len() && meta.signature == *sig && old(ring)@[i].signature == *sig
                && meta.cu_limit == old(ring)@[i].cu_limit && meta._ts == old(ring)@[i]._ts
                && same_intent(meta.intent, old(ring)@[i].intent) && forall|j: int|
                0 <= j < i ==> (#[trigger] old(ring)@[j]).signature != *sig,
{
    if let Some(meta) = found {
        let i = choose|i: int|
            #![trigger old(ring)@[i]]
            first_with_signature(old(ring)@, i, *sig) && same_meta(meta, old(ring)@[i]);
        assert(old(ring)@[i].signature == *sig);
    }
}

/// A transaction that was added is what its signature finds, as long as no older one in
/// the ring has the same signature.
pub proof fn law_confirm_gives_back_what_was_added<const N: usize>(
    before: PendingTxs<N>,
    ring: &mut PendingTxs<N>,
    item: PendingTxMeta,
    found: Option<PendingTxMeta>,
)
    requires
        N > 0,
        old(ring).wf(),
        before == *old(ring),
        forall|i: int|
            0 <= i < before@.len() ==> (#[trigger] before@[i]).signature != item.signature,
        call_ensures(PendingTxs::<N>::insert, (ring, item), ()),
        exists|later: &mut PendingTxs<N>|
            *later == *final(ring) && #[trigger] call_ensures(
                PendingTxs::<N>::confirm,
                (later, &item.signature),
                found,
            ),
    ensures
        found is Some,
        found->0.signature == item.signature,
        found->0.cu_limit == item.cu_limit,
        found->0._ts == item._ts,
        same_intent(found->0.intent, item.intent),
{
    let held = final(ring)@;
    assert(held[held.len() - 1] == item);
    assert forall|i: int| 0 <= i < held.len() - 1 implies (#[trigger] held[i]).signature
        != item.signature by {
        assert(held[i] == before@[i + before@.len() + 1 - held.len()]);
    }
}

} // verus!
