//! Rate limiting of order events.
//!
//! Events carry a generation (a slot number) and an order id. The limiter keeps, for
//! the last generations it has seen, the ids that it let through, in a ring of `N`
//! buckets: generation `g` lives in bucket `g % N` and displaces whatever generation
//! was there before.

use vstd::prelude::*;

verus! {

/// Remembers which order ids were let through in recent generations.
pub struct OrderSlotLimiter<const N: usize> {
    slots: Vec<Vec<u32>>,
    generations: Vec<u64>,
}

/// `g - i`, but never below the first generation.
pub open spec fn generations_back(g: u64, i: u64) -> u64 {
    if g >= i {
        (g - i) as u64
    } else {
        0
    }
}

/// Whether `ids` is in strictly increasing order.
pub open spec fn strictly_increasing(ids: Seq<u32>) -> bool {
    forall|i: int, j: int| 0 <= i < j < ids.len() ==> ids[i] < ids[j]
}

/// The bucket of generation `g` in an `n`-bucket ring.
pub open spec fn bucket_of(n: usize, g: u64) -> int {
    (g % (n as u64)) as int
}

/// Whether two generations share a bucket of an `n`-bucket ring.
pub open spec fn same_bucket(n: usize, g: u64, h: u64) -> bool {
    bucket_of(n, g) == bucket_of(n, h)
}

impl<const N: usize> OrderSlotLimiter<N> {
    /// The generation that holds bucket `b`.
    pub closed spec fn bucket_generation(self, b: int) -> u64 {
        self.generations@[b]
    }

    /// The ids in bucket `b`.
    pub closed spec fn bucket_ids(self, b: int) -> Seq<u32> {
        self.slots@[b]@
    }

    /// Whether there are `n` buckets.
    pub closed spec fn has_buckets(self, n: nat) -> bool {
        self.slots@.len() == n && self.generations@.len() == n
    }

    /// Whether bucket `b` is in order: its ids are sorted without repeats, and the
    /// generation that holds it belongs there, unless the bucket was never used.
    pub open spec fn bucket_in_order(self, b: int) -> bool {
        &&& strictly_increasing(self.bucket_ids(b))
        &&& {
            ||| self.bucket_generation(b) % (N as u64) == b
            ||| self.bucket_generation(b) == 0 && self.bucket_ids(b).len() == 0
        }
    }

    /// There is one bucket per ring position, and every bucket is in order.
    pub open spec fn wf(self) -> bool {
        &&& self.has_buckets(N as nat)
        &&& forall|b: int| 0 <= b < N ==> #[trigger] self.bucket_in_order(b)
    }

    /// The ids in the bucket of generation `g` if the bucket belongs to `g`, and none if
    /// another generation holds the bucket.
    pub open spec fn ids_of(self, g: u64) -> Seq<u32> {
        if self.bucket_generation(bucket_of(N, g)) == g {
            self.bucket_ids(bucket_of(N, g))
        } else {
            Seq::empty()
        }
    }

    /// The ids on record for generation `g`.
    pub open spec fn recorded(self, g: u64) -> Set<u32> {
        self.ids_of(g).to_set()
    }

    /// What is left on record for generation `h` once the bucket of `g` belongs to `g`.
    pub open spec fn kept(self, g: u64, h: u64) -> Set<u32> {
        if h != g && same_bucket(N, g, h) {
            Set::empty()
        } else {
            self.recorded(h)
        }
    }

    /// Whether an event `(g, id)` is let through: its id is neither on record for `g`
    /// itself nor for the generations two, three and four before it.
    pub open spec fn admits(self, g: u64, id: u32) -> bool {
        &&& !self.kept(g, g).contains(id)
        &&& !self.kept(g, generations_back(g, 2)).contains(id)
        &&& !self.kept(g, generations_back(g, 3)).contains(id)
        &&& !self.kept(g, generations_back(g, 4)).contains(id)
    }

    /// Whether every bucket but `b` is the same in `self` and `next`: it belongs to the
    /// same generation and has the same ids.
    pub open spec fn same_but_for(self, b: int, next: Self) -> bool {
        forall|c: int|
            #![trigger next.bucket_generation(c)]
            #![trigger next.bucket_ids(c)]
            0 <= c < N && c != b ==> next.bucket_generation(c) == self.bucket_generation(c)
                && next.bucket_ids(c) == self.bucket_ids(c)
    }

    /// `next` is `self` after the event `(g, id)`: the bucket of `g` belongs to `g` and
    /// has lost the ids of any other generation, the id is sorted into it if the event was
    /// let through, and every other bucket is as it was.
    pub open spec fn steps_to(self, g: u64, id: u32, next: Self) -> bool {
        let b = bucket_of(N, g);
        &&& next.bucket_generation(b) == g
        &&& if self.admits(g, id) {
            &&& strictly_increasing(next.bucket_ids(b))
            &&& next.bucket_ids(b).to_set() == self.ids_of(g).to_set().insert(id)
        } else {
            next.bucket_ids(b) == self.ids_of(g)
        }
        &&& self.same_but_for(b, next)
    }

    /// `next` is `self` once the bucket of `g` belongs to `g`.
    spec fn taken_over(self, g: u64, next: Self) -> bool {
        &&& next.bucket_generation(bucket_of(N, g)) == g
        &&& next.bucket_ids(bucket_of(N, g)) == self.ids_of(g)
        &&& self.same_but_for(bucket_of(N, g), next)
    }

    /// The ids on record for generation `h` after the event `(g, id)`.
    pub open spec fn recorded_after(self, g: u64, id: u32, h: u64) -> Set<u32> {
        if h == g && self.admits(g, id) {
            self.kept(g, h).insert(id)
        } else {
            self.kept(g, h)
        }
    }

    /// Whether no generation from one to four before `g` has `id` on record.
    pub open spec fn passes_check(self, g: u64, id: u32) -> bool {
        &&& !self.recorded(generations_back(g, 1)).contains(id)
        &&& !self.recorded(generations_back(g, 2)).contains(id)
        &&& !self.recorded(generations_back(g, 3)).contains(id)
        &&& !self.recorded(generations_back(g, 4)).contains(id)
    }

    /// A limiter with nothing on record: every bucket is empty and belongs to the first
    /// generation.
    pub fn new() -> (limiter: Self)
        ensures
            limiter.wf(),
            forall|b: int|
                0 <= b < N ==> #[trigger] limiter.bucket_generation(b) == 0 && limiter.bucket_ids(b)
                    == Seq::<u32>::empty(),
            N > 0 ==> forall|g: u64| #[trigger] limiter.recorded(g) == Set::<u32>::empty(),
    {
        let mut slots: Vec<Vec<u32>> = Vec::new();
        let mut generations: Vec<u64> = Vec::new();
        let mut i: usize = 0;
        while i < N
            invariant
                i <= N,
                slots@.len() == i,
                generations@.len() == i,
                forall|b: int| 0 <= b < i ==> (#[trigger] slots@[b])@ == Seq::<u32>::empty(),
                forall|b: int| 0 <= b < i ==> #[trigger] generations@[b] == 0,
            decreases N - i,
        {
            slots.push(Vec::new());
            generations.push(0);
            i = i + 1;
        }
        let limiter = Self { slots, generations };
        proof {
            assert forall|b: int| 0 <= b < N implies #[trigger] limiter.bucket_generation(b) == 0
                && limiter.bucket_ids(b) == Seq::<u32>::empty() by {
                assert(limiter.slots@[b]@ == Seq::<u32>::empty());
            }
            assert forall|g: u64| N > 0 implies #[trigger] limiter.recorded(g) == Set::<
                u32,
            >::empty() by {
                assert(limiter.bucket_generation(bucket_of(N, g)) == 0);
                assert(Seq::<u32>::empty().to_set() =~= Set::<u32>::empty());
            }
        }
        limiter
    }

    /// Whether `id` is on record for generation `g`.
    fn is_recorded(&self, g: u64, id: u32) -> (found: bool)
        requires
            N > 0,
            self.wf(),
        ensures
            found == self.recorded(g).contains(id),
    {
        let idx: usize = (g % N as u64) as usize;
        if self.generations[idx] == g {
            assert(self.bucket_in_order(idx as int));
            match search(&self.slots[idx], id) {
                Ok(_) => true,
                Err(_) => false,
            }
        } else {
            false
        }
    }

    /// Decides whether the event `(g, id)` is let through, and records it if so.
    pub fn allow_event(&mut self, g: u64, id: u32) -> (allowed: bool)
        requires
            N > 0,
            old(self).wf(),
        ensures
            final(self).wf(),
            allowed == old(self).admits(g, id),
            old(self).steps_to(g, id, *final(self)),
            forall|h: u64| #[trigger]
                final(self).recorded(h) == old(self).recorded_after(g, id, h),
    {
        let idx: usize = (g % N as u64) as usize;
        let ghost before = *self;

        if self.generations[idx] != g {
            self.slots[idx].clear();
            self.generations.set(idx, g);
        }
        let ghost recycled = *self;
        proof {
            assert(recycled.bucket_ids(idx as int) == before.ids_of(g));
            assert(before.same_but_for(idx as int, recycled));
            assert forall|b: int| 0 <= b < N implies #[trigger] recycled.bucket_in_order(b) by {
                assert(before.bucket_in_order(b));
            }
            lemma_taken_over(before, recycled, g);
        }

        let mut i: u64 = 2;
        while i <= 4
            invariant
                2 <= i <= 5,
                N > 0,
                *self == recycled,
                self.wf(),
                forall|h: u64| #[trigger] recycled.recorded(h) == before.kept(g, h),
                forall|j: u64|
                    2 <= j < i ==> !(#[trigger] before.kept(g, generations_back(g, j))).contains(
                        id,
                    ),
                before == *old(self),
                before.taken_over(g, recycled),
            decreases 5 - i,
        {
            let past_g: u64 = g.saturating_sub(i);
            if self.is_recorded(past_g, id) {
                return false;
            }
            i = i + 1;
        }

        assert(self.bucket_in_order(idx as int));
        match search(&self.slots[idx], id) {
            Ok(_) => false,
            Err(pos) => {
                let ghost ids = self.slots@[idx as int]@;
                self.slots[idx].insert(pos, id);
                proof {
                    lemma_insert_sorted(ids, pos as int, id);
                    assert(recycled.same_but_for(idx as int, *self));
                    assert forall|b: int| 0 <= b < N implies #[trigger] self.bucket_in_order(b) by {
                        assert(recycled.bucket_in_order(b));
                    }
                    assert(before.steps_to(g, id, *self));
                    law_step_on_records(before, *self, g, id);
                }
                true
            },
        }
    }

    /// Whether `id` is absent from the four generations before `g`; records nothing.
    pub fn _check_event(&self, g: u64, id: u32) -> (clear: bool)
        requires
            N > 0,
            self.wf(),
        ensures
            clear == self.passes_check(g, id),
    {
        let mut i: u64 = 1;
        while i <= 4
            invariant
                1 <= i <= 5,
                N > 0,
                self.wf(),
                forall|j: u64|
                    1 <= j < i ==> !(#[trigger] self.recorded(generations_back(g, j))).contains(id),
            decreases 5 - i,
        {
            let past_g: u64 = g.saturating_sub(i);
            if self.is_recorded(past_g, id) {
                return false;
            }
            i = i + 1;
        }
        true
    }
}

/// Binary search of a sorted list: where `id` is, or else where it belongs.
fn search(ids: &Vec<u32>, id: u32) -> (found: Result<usize, usize>)
    requires
        strictly_increasing(ids@),
    ensures
        match found {
            Ok(pos) => pos < ids@.len() && ids@[pos as int] == id,
            Err(pos) => {
                &&& pos <= ids@.len()
                &&& forall|i: int| 0 <= i < pos ==> ids@[i] < id
                &&& forall|i: int| pos <= i < ids@.len() ==> id < ids@[i]
            },
        },
        found is Ok <==> ids@.to_set().contains(id),
{
    let mut low: usize = 0;
    let mut high: usize = ids.len();
    while low < high
        invariant
            low <= high <= ids@.len(),
            strictly_increasing(ids@),
            forall|i: int| 0 <= i < low ==> ids@[i] < id,
            forall|i: int| high <= i < ids@.len() ==> id < ids@[i],
        decreases high - low,
    {
        let mid: usize = low + (high - low) / 2;
        if ids[mid] == id {
            assert(ids@.contains(id));
            return Ok(mid);
        } else if ids[mid] < id {
            low = mid + 1;
        } else {
            high = mid;
        }
    }
    Err(low)
}

/// Inserting where the search points keeps the list sorted and adds just that id.
proof fn lemma_insert_sorted(ids: Seq<u32>, pos: int, id: u32)
    requires
        strictly_increasing(ids),
        0 <= pos <= ids.len(),
        forall|i: int| 0 <= i < pos ==> ids[i] < id,
        forall|i: int| pos <= i < ids.len() ==> id < ids[i],
    ensures
        strictly_increasing(ids.insert(pos, id)),
        ids.insert(pos, id).to_set() == ids.to_set().insert(id),
{
    let grown = ids.insert(pos, id);
    assert(grown[pos] == id);
    assert forall|x: u32| ids.contains(x) implies grown.contains(x) by {
        let i = ids.index_of(x);
        if i < pos {
            assert(grown[i] == x);
        } else {
            assert(grown[i + 1] == x);
        }
    }
    assert forall|x: u32| grown.contains(x) implies ids.contains(x) || x == id by {
        let i = grown.index_of(x);
        if i < pos {
            assert(ids[i] == x);
        } else if i > pos {
            assert(ids[i - 1] == x);
        }
    }
    assert(grown.to_set() =~= ids.to_set().insert(id));
}

/// What a bucket handover does to the record of every generation.
proof fn lemma_taken_over<const N: usize>(
    a: OrderSlotLimiter<N>,
    b: OrderSlotLimiter<N>,
    g: u64,
)
    requires
        N > 0,
        a.taken_over(g, b),
    ensures
        forall|h: u64| #[trigger] b.recorded(h) == a.kept(g, h),
{
    assert forall|h: u64| #[trigger] b.recorded(h) == a.kept(g, h) by {
        let c = bucket_of(N, h);
        assert(0 <= c < N);
        assert(Seq::<u32>::empty().to_set() =~= Set::<u32>::empty());
    }
}

/// What an event does to the buckets settles what is on record for every generation
/// after it.
pub proof fn law_step_on_records<const N: usize>(
    a: OrderSlotLimiter<N>,
    b: OrderSlotLimiter<N>,
    g: u64,
    id: u32,
)
    requires
        N > 0,
        a.steps_to(g, id, b),
    ensures
        forall|h: u64| #[trigger] b.recorded(h) == a.recorded_after(g, id, h),
{
    assert forall|h: u64| #[trigger] b.recorded(h) == a.recorded_after(g, id, h) by {
        let c = bucket_of(N, h);
        assert(0 <= c < N);
        assert(Seq::<u32>::empty().to_set() =~= Set::<u32>::empty());
    }
}

/// An event never passes twice in a row in one generation, whatever the first answer was,
/// and the second time it leaves every bucket as it was.
pub proof fn law_repeat_is_refused<const N: usize>(
    a: OrderSlotLimiter<N>,
    b: OrderSlotLimiter<N>,
    c: OrderSlotLimiter<N>,
    g: u64,
    id: u32,
)
    requires
        N > 0,
        a.steps_to(g, id, b),
        b.steps_to(g, id, c),
    ensures
        !b.admits(g, id),
        forall|i: int|
            #![trigger c.bucket_generation(i)]
            #![trigger c.bucket_ids(i)]
            0 <= i < N ==> c.bucket_generation(i) == b.bucket_generation(i) && c.bucket_ids(i)
                == b.bucket_ids(i),
        forall|h: u64| #[trigger] c.recorded(h) == b.recorded(h),
{
    law_step_on_records(a, b, g, id);
    assert(b.recorded(g) == a.recorded_after(g, id, g));
    if !a.admits(g, id) && !a.kept(g, g).contains(id) {
        assert forall|h: u64| a.kept(g, h).contains(id) implies b.kept(g, h).contains(id) by {
            assert(b.recorded(h) == a.recorded_after(g, id, h));
        }
    }
    assert(!b.admits(g, id));
    assert forall|h: u64| #[trigger] c.recorded(h) == b.recorded(h) by {
        assert(0 <= bucket_of(N, h) < N);
    }
}

/// An id that was let through is on record for its generation.
pub proof fn law_admitted_is_recorded<const N: usize>(
    a: OrderSlotLimiter<N>,
    b: OrderSlotLimiter<N>,
    g: u64,
    id: u32,
)
    requires
        N > 0,
        a.admits(g, id),
        a.steps_to(g, id, b),
    ensures
        b.recorded(g).contains(id),
{
}

/// An id on record for a generation is refused two, three and four generations later,
/// as long as the later generation does not take over the bucket of the earlier one.
pub proof fn law_recorded_is_refused_in_window<const N: usize>(
    a: OrderSlotLimiter<N>,
    g: u64,
    later: u64,
    id: u32,
)
    requires
        N > 0,
        a.recorded(g).contains(id),
        g + 2 <= later <= g + 4,
        !same_bucket(N, g, later),
    ensures
        !a.admits(later, id),
{
    let i = (later - g) as u64;
    assert(i == 2 || i == 3 || i == 4);
    assert(generations_back(later, i) == g);
}

/// With five buckets or more, an id that was let through is refused two, three and four
/// generations later.
pub proof fn law_admitted_is_refused_in_window<const N: usize>(
    a: OrderSlotLimiter<N>,
    b: OrderSlotLimiter<N>,
    g: u64,
    later: u64,
    id: u32,
)
    requires
        N > 4,
        a.admits(g, id),
        a.steps_to(g, id, b),
        g + 2 <= later <= g + 4,
    ensures
        !b.admits(later, id),
{
    lemma_near_generations_have_own_buckets(N, g, later);
    law_admitted_is_recorded(a, b, g, id);
    law_recorded_is_refused_in_window(b, g, later, id);
}

/// An id that neither the generation itself nor the ones two to four before it have on
/// record is let through: the generation just before and those past the window do not count.
pub proof fn law_clear_window_is_admitted<const N: usize>(
    a: OrderSlotLimiter<N>,
    g: u64,
    id: u32,
)
    requires
        N > 0,
        !a.recorded(g).contains(id),
        !a.recorded(generations_back(g, 2)).contains(id),
        !a.recorded(generations_back(g, 3)).contains(id),
        !a.recorded(generations_back(g, 4)).contains(id),
    ensures
        a.admits(g, id),
{
}

/// An event leaves every generation that has another bucket, and that bucket, as it was.
pub proof fn law_other_buckets_are_untouched<const N: usize>(
    a: OrderSlotLimiter<N>,
    b: OrderSlotLimiter<N>,
    g: u64,
    id: u32,
    h: u64,
)
    requires
        N > 0,
        a.steps_to(g, id, b),
        !same_bucket(N, g, h),
    ensures
        b.recorded(h) == a.recorded(h),
        b.bucket_generation(bucket_of(N, h)) == a.bucket_generation(bucket_of(N, h)),
        b.bucket_ids(bucket_of(N, h)) == a.bucket_ids(bucket_of(N, h)),
{
    law_step_on_records(a, b, g, id);
    assert(b.recorded(h) == a.recorded_after(g, id, h));
}

/// `run` is what a limiter goes through on `events`: it has one state before each event,
/// and one after the last.
pub open spec fn is_run<const N: usize>(
    run: Seq<OrderSlotLimiter<N>>,
    events: Seq<(u64, u32)>,
) -> bool {
    &&& run.len() == events.len() + 1
    &&& forall|k: int|
        0 <= k < events.len() ==> (#[trigger] run[k]).steps_to(
            events[k].0,
            events[k].1,
            run[k + 1],
        )
}

/// Event `k` of a run was let through, and it was the event `(g, id)`.
pub open spec fn admitted_at<const N: usize>(
    run: Seq<OrderSlotLimiter<N>>,
    events: Seq<(u64, u32)>,
    k: int,
    g: u64,
    id: u32,
) -> bool {
    &&& 0 <= k < events.len()
    &&& events[k] == (g, id)
    &&& run[k].admits(g, id)
}

/// Whether an event of generation `earlier` stands in the way of one of generation `g`:
/// they are of the same generation, or two to four apart. Generation zero also stands in
/// the way of generation one, as the look back ends at generation zero.
pub open spec fn in_window(earlier: u64, g: u64) -> bool {
    ||| earlier == g
    ||| earlier + 2 <= g <= earlier + 4
    ||| earlier == 0 && g == 1
}

/// What is on record for a generation stays on record through any run of events that
/// never gives its bucket to another generation.
pub proof fn law_record_survives_other_events<const N: usize>(
    run: Seq<OrderSlotLimiter<N>>,
    events: Seq<(u64, u32)>,
    g: u64,
    id: u32,
)
    requires
        N > 0,
        is_run(run, events),
        forall|k: int|
            0 <= k < events.len() ==> (#[trigger] events[k]).0 == g || !same_bucket(
                N,
                events[k].0,
                g,
            ),
        run[0].recorded(g).contains(id),
    ensures
        run.last().recorded(g).contains(id),
    decreases events.len(),
{
    if events.len() > 0 {
        let last = events.len() - 1;
        law_record_survives_other_events(run.drop_last(), events.drop_last(), g, id);
        let event = events[last];
        assert(run[last].steps_to(event.0, event.1, run[last + 1]));
        law_step_on_records(run[last], run[last + 1], event.0, event.1);
        assert(run[last + 1].recorded(g) == run[last].recorded_after(event.0, event.1, g));
    }
}

/// An id is on record only if it was let through: whatever a limiter that started out
/// empty has on record for a generation came in with an event of that generation.
pub proof fn law_recorded_was_admitted<const N: usize>(
    run: Seq<OrderSlotLimiter<N>>,
    events: Seq<(u64, u32)>,
    g: u64,
    id: u32,
)
    requires
        N > 0,
        is_run(run, events),
        forall|h: u64| #[trigger] run[0].recorded(h) == Set::<u32>::empty(),
        run.last().recorded(g).contains(id),
    ensures
        exists|k: int| admitted_at(run, events, k, g, id),
    decreases events.len(),
{
    assert(run[0].recorded(g) == Set::<u32>::empty());
    if events.len() > 0 {
        let last = events.len() - 1;
        let event = events[last];
        assert(run[last].steps_to(event.0, event.1, run[last + 1]));
        law_step_on_records(run[last], run[last + 1], event.0, event.1);
        assert(run[last + 1].recorded(g) == run[last].recorded_after(event.0, event.1, g));
        if run[last].recorded(g).contains(id) {
            let before = run.drop_last();
            law_recorded_was_admitted(before, events.drop_last(), g, id);
            let k = choose|k: int| admitted_at(before, events.drop_last(), k, g, id);
            assert(admitted_at(run, events, k, g, id));
        } else {
            assert(admitted_at(run, events, last, g, id));
        }
    }
}

/// With five buckets or more, and events that come in order of generation, an event is let
/// through exactly when no event with its id that was let through before stands in its
/// way.
pub proof fn law_admitted_iff_window_is_clear<const N: usize>(
    run: Seq<OrderSlotLimiter<N>>,
    events: Seq<(u64, u32)>,
    g: u64,
    id: u32,
)
    requires
        N >= 5,
        is_run(run, events),
        forall|h: u64| #[trigger] run[0].recorded(h) == Set::<u32>::empty(),
        forall|i: int, j: int| 0 <= i <= j < events.len() ==> events[i].0 <= events[j].0,
        forall|k: int| 0 <= k < events.len() ==> (#[trigger] events[k]).0 <= g,
    ensures
        run.last().admits(g, id) <==> !(exists|k: int, earlier: u64| #[trigger]
            admitted_at(run, events, k, earlier, id) && in_window(earlier, g)),
{
    let now = run.last();
    if !now.admits(g, id) {
        let earlier = if now.kept(g, g).contains(id) {
            g
        } else if now.kept(g, generations_back(g, 2)).contains(id) {
            generations_back(g, 2)
        } else if now.kept(g, generations_back(g, 3)).contains(id) {
            generations_back(g, 3)
        } else {
            generations_back(g, 4)
        };
        law_recorded_was_admitted(run, events, earlier, id);
        let k = choose|k: int| admitted_at(run, events, k, earlier, id);
        assert(admitted_at(run, events, k, earlier, id) && in_window(earlier, g));
    }
    if exists|k: int, earlier: u64| #[trigger]
        admitted_at(run, events, k, earlier, id) && in_window(earlier, g) {
        let (k, earlier) = choose|k: int, earlier: u64| #[trigger]
            admitted_at(run, events, k, earlier, id) && in_window(earlier, g);
        lemma_admitted_blocks_window(run, events, k, earlier, g, id);
    }
}

/// An event that was let through stays on record for as long as it stands in the way.
proof fn lemma_admitted_is_still_recorded<const N: usize>(
    run: Seq<OrderSlotLimiter<N>>,
    events: Seq<(u64, u32)>,
    k: int,
    earlier: u64,
    g: u64,
    id: u32,
)
    requires
        N >= 5,
        is_run(run, events),
        forall|i: int| k <= i < events.len() ==> earlier <= (#[trigger] events[i]).0 <= g,
        admitted_at(run, events, k, earlier, id),
        g <= earlier + 4,
    ensures
        run.last().recorded(earlier).contains(id),
{
    let later_run = run.skip(k + 1);
    let later_events = events.skip(k + 1);
    assert(run[k].steps_to(earlier, id, run[k + 1]));
    assert(later_run[0].recorded(earlier).contains(id));
    assert forall|i: int| 0 <= i < later_events.len() implies (#[trigger] later_run[i]).steps_to(
        later_events[i].0,
        later_events[i].1,
        later_run[i + 1],
    ) by {
        let n = k + 1 + i;
        assert(run[n].steps_to(events[n].0, events[n].1, run[n + 1]));
    }
    assert forall|i: int| 0 <= i < later_events.len() implies (#[trigger] later_events[i]).0
        == earlier || !same_bucket(N, later_events[i].0, earlier) by {
        let h = events[k + 1 + i].0;
        if h != earlier {
            lemma_near_generations_have_own_buckets(N, earlier, h);
        }
    }
    law_record_survives_other_events(later_run, later_events, earlier, id);
}

/// An event that was let through blocks its id for as long as it stands in the way.
proof fn lemma_admitted_blocks_window<const N: usize>(
    run: Seq<OrderSlotLimiter<N>>,
    events: Seq<(u64, u32)>,
    k: int,
    earlier: u64,
    g: u64,
    id: u32,
)
    requires
        N >= 5,
        is_run(run, events),
        forall|i: int| k <= i < events.len() ==> earlier <= (#[trigger] events[i]).0 <= g,
        admitted_at(run, events, k, earlier, id),
        in_window(earlier, g),
    ensures
        !run.last().admits(g, id),
{
    lemma_admitted_is_still_recorded(run, events, k, earlier, g, id);
    if earlier != g {
        lemma_near_generations_have_own_buckets(N, earlier, g);
    }
    assert(run.last().kept(g, earlier).contains(id));
}

/// Any event of a generation, refused or not, forgets every other generation of its bucket.
pub proof fn law_bucket_is_recycled<const N: usize>(
    a: OrderSlotLimiter<N>,
    b: OrderSlotLimiter<N>,
    g: u64,
    id: u32,
    h: u64,
)
    requires
        N > 0,
        a.steps_to(g, id, b),
        h != g,
        same_bucket(N, g, h),
    ensures
        b.recorded(h) == Set::<u32>::empty(),
{
}

/// An id that passes the read-only check and is not on record for the generation itself
/// is let through: the check looks at least as far as the decision does.
pub proof fn law_check_covers_decision<const N: usize>(a: OrderSlotLimiter<N>, g: u64, id: u32)
    requires
        N > 0,
        a.passes_check(g, id),
        !a.recorded(g).contains(id),
    ensures
        a.admits(g, id),
{
}

/// Two generations less than a ring apart have different buckets.
proof fn lemma_near_generations_have_own_buckets(n: usize, g: u64, later: u64)
    requires
        g < later < g + n,
    ensures
        !same_bucket(n, g, later),
{
    let m = n as int;
    let a = g as int;
    let b = later as int;
    assert(a % m != b % m) by (nonlinear_arith)
        requires
            m > 0,
            0 <= a < b < a + m,
    ;
}

/// An event is let through just when its id is on record neither for its own generation nor
/// for one two to four before it; generation zero counts as one before generation one. A
/// past generation whose bucket the event takes over no longer counts.
pub proof fn law_admits_by_what_is_on_record<const N: usize>(
    a: OrderSlotLimiter<N>,
    g: u64,
    id: u32,
)
    requires
        N > 0,
    ensures
        a.admits(g, id) <==> forall|h: u64| #[trigger]
            a.recorded(h).contains(id) ==> h != g && !(h % (N as u64) != g % (N as u64) && (h + 2
                <= g <= h + 4 || h == 0 && g == 1)),
{
    if a.admits(g, id) {
        assert forall|h: u64| #[trigger] a.recorded(h).contains(id) implies h != g && !(h % (
        N as u64) != g % (N as u64) && (h + 2 <= g <= h + 4 || h == 0 && g == 1)) by {
            assert(h + 2 <= g <= h + 4 || h == 0 && g == 1 ==> h == generations_back(g, 2) || h
                == generations_back(g, 3) || h == generations_back(g, 4));
        }
    } else {
        let h = if a.kept(g, g).contains(id) {
            g
        } else if a.kept(g, generations_back(g, 2)).contains(id) {
            generations_back(g, 2)
        } else if a.kept(g, generations_back(g, 3)).contains(id) {
            generations_back(g, 3)
        } else {
            generations_back(g, 4)
        };
        assert(a.recorded(h).contains(id));
    }
}

/// The read-only check passes just when none of the four generations before has the id on
/// record; at generation zero it looks at generation zero itself.
pub proof fn law_check_by_what_is_on_record<const N: usize>(
    limiter: &OrderSlotLimiter<N>,
    g: u64,
    id: u32,
    clear: bool,
)
    requires
        N > 0,
        call_ensures(OrderSlotLimiter::<N>::_check_event, (limiter, g, id), clear),
    ensures
        clear <==> forall|h: u64| #[trigger]
            limiter.recorded(h).contains(id) ==> !(h + 1 <= g <= h + 4 || h == 0 && g == 0),
{
    if clear {
        assert forall|h: u64| #[trigger] limiter.recorded(h).contains(id) implies !(h + 1 <= g <= h
            + 4 || h == 0 && g == 0) by {
            assert(h + 1 <= g <= h + 4 || h == 0 && g == 0 ==> h == generations_back(g, 1) || h
                == generations_back(g, 2) || h == generations_back(g, 3) || h == generations_back(
                g,
                4,
            ));
        }
    } else {
        let h = if limiter.recorded(generations_back(g, 1)).contains(id) {
            generations_back(g, 1)
        } else if limiter.recorded(generations_back(g, 2)).contains(id) {
            generations_back(g, 2)
        } else if limiter.recorded(generations_back(g, 3)).contains(id) {
            generations_back(g, 3)
        } else {
            generations_back(g, 4)
        };
        assert(limiter.recorded(h).contains(id));
    }
}

/// A new limiter has nothing on record. An event is let through just when its id is on
/// record neither for its own generation nor for one two to four before it whose bucket it
/// does not take over. It then adds its id to the record of its generation, and nothing
/// else is added; it takes away just the records of the other generations of its bucket.
pub proof fn law_event_decides_and_records<const N: usize>(
    fresh: OrderSlotLimiter<N>,
    limiter: &mut OrderSlotLimiter<N>,
    g: u64,
    id: u32,
    allowed: bool,
)
    requires
        N > 0,
        call_ensures(OrderSlotLimiter::<N>::new, (), fresh),
        old(limiter).wf(),
        call_ensures(OrderSlotLimiter::<N>::allow_event, (limiter, g, id), allowed),
    ensures
        fresh.wf(),
        forall|h: u64, x: u32| !(#[trigger] fresh.recorded(h).contains(x)),
        final(limiter).wf(),
        allowed <==> forall|h: u64| #[trigger]
            old(limiter).recorded(h).contains(id) ==> h != g && !(h % (N as u64) != g % (N as u64)
                && (h + 2 <= g <= h + 4 || h == 0 && g == 1)),
        forall|h: u64, x: u32| #[trigger]
            final(limiter).recorded(h).contains(x) <==> {
                ||| allowed && h == g && x == id
                ||| old(limiter).recorded(h).contains(x) && (h == g || h % (N as u64) != g % (
                N as u64))
            },
{
    law_admits_by_what_is_on_record(*old(limiter), g, id);
    assert forall|h: u64, x: u32| !(#[trigger] fresh.recorded(h).contains(x)) by {
        assert(fresh.recorded(h) == Set::<u32>::empty());
    }
    assert forall|h: u64, x: u32| #[trigger] final(limiter).recorded(h).contains(x) <==> {
        ||| allowed && h == g && x == id
        ||| old(limiter).recorded(h).contains(x) && (h == g || h % (N as u64) != g % (N as u64))
    } by {
        assert(final(limiter).recorded(h) == old(limiter).recorded_after(g, id, h));
    }
}

/// What is on record for a generation is what its bucket `g % N` holds, as long as the
/// bucket belongs to it.
pub proof fn law_record_is_in_its_bucket<const N: usize>(
    a: OrderSlotLimiter<N>,
    g: u64,
    id: u32,
)
    requires
        N > 0,
    ensures
        a.recorded(g).contains(id) <==> {
            &&& a.bucket_generation((g % (N as u64)) as int) == g
            &&& exists|i: int|
                0 <= i < a.bucket_ids((g % (N as u64)) as int).len() && #[trigger] a.bucket_ids(
                    (g % (N as u64)) as int,
                )[i] == id
        },
{
    let ids = a.bucket_ids((g % (N as u64)) as int);
    if a.recorded(g).contains(id) {
        assert(a.ids_of(g).contains(id));
        let i = a.ids_of(g).index_of(id);
        assert(ids[i] == id);
    }
    if a.bucket_generation((g % (N as u64)) as int) == g && exists|i: int|
        0 <= i < ids.len() && #[trigger] ids[i] == id {
        assert(a.ids_of(g).contains(id));
    }
}

} // verus!
