use vstd::prelude::*;
use crate::record::{FetchOutcome, RoundRecord};
use crate::sink::{csv_text, header_line, record_line, record_lines};
use crate::uint256::Uint256;

verus! {

/// How many historical rounds a run asks for at most.
pub const DEFAULT_DEPTH: u32 = 100000;

/// How many rounds one batch fetches concurrently.
pub const DEFAULT_BATCH_SIZE: u32 = 100;

pub open spec fn has_failure(h: Seq<FetchOutcome>) -> bool {
    exists|i: int| 0 <= i < h.len() && #[trigger] h[i] is Failure
}

/// The rounds of the successes before the first failure, in order.
pub open spec fn leading_successes(h: Seq<FetchOutcome>) -> Seq<RoundRecord>
    decreases h.len(),
{
    if h.len() == 0 {
        Seq::empty()
    } else if has_failure(h.drop_last()) {
        leading_successes(h.drop_last())
    } else {
        match h.last() {
            FetchOutcome::Success(r) => leading_successes(h.drop_last()).push(r),
            FetchOutcome::Failure(_) => leading_successes(h.drop_last()),
        }
    }
}

proof fn lemma_has_failure_append(h1: Seq<FetchOutcome>, h2: Seq<FetchOutcome>)
    ensures
        has_failure(h1 + h2) == (has_failure(h1) || has_failure(h2)),
{
    let h = h1 + h2;
    if has_failure(h) {
        let i = choose|i: int| 0 <= i < h.len() && #[trigger] h[i] is Failure;
        if i >= h1.len() {
            assert(h2[i - h1.len()] is Failure);
        }
    }
    if has_failure(h1) {
        let i = choose|i: int| 0 <= i < h1.len() && #[trigger] h1[i] is Failure;
        assert(h[i] is Failure);
    }
    if has_failure(h2) {
        let i = choose|i: int| 0 <= i < h2.len() && #[trigger] h2[i] is Failure;
        assert(h[i + h1.len()] is Failure);
    }
}

proof fn lemma_leading_len(h: Seq<FetchOutcome>)
    ensures
        leading_successes(h).len() <= h.len(),
    decreases h.len(),
{
    if h.len() > 0 {
        lemma_leading_len(h.drop_last());
    }
}

/// Once a failure has been seen, later outcomes add no round.
proof fn lemma_leading_after_failure(h1: Seq<FetchOutcome>, h2: Seq<FetchOutcome>)
    requires
        has_failure(h1),
    ensures
        leading_successes(h1 + h2) == leading_successes(h1),
    decreases h2.len(),
{
    if h2.len() == 0 {
        assert(h1 + h2 =~= h1);
    } else {
        let init = h2.drop_last();
        lemma_leading_after_failure(h1, init);
        assert((h1 + h2).drop_last() =~= h1 + init);
        lemma_has_failure_append(h1, init);
    }
}

/// Without a failure so far, the rounds of later outcomes are appended.
proof fn lemma_leading_append(h1: Seq<FetchOutcome>, h2: Seq<FetchOutcome>)
    requires
        !has_failure(h1),
    ensures
        leading_successes(h1 + h2) == leading_successes(h1) + leading_successes(h2),
    decreases h2.len(),
{
    if h2.len() == 0 {
        assert(h1 + h2 =~= h1);
        assert(leading_successes(h1) + leading_successes(h2) =~= leading_successes(h1));
    } else {
        let init = h2.drop_last();
        lemma_leading_append(h1, init);
        assert((h1 + h2).drop_last() =~= h1 + init);
        assert((h1 + h2).last() == h2.last());
        lemma_has_failure_append(h1, init);
        match h2.last() {
            FetchOutcome::Success(r) => {
                assert(leading_successes(h1) + leading_successes(init).push(r) =~= (
                leading_successes(h1) + leading_successes(init)).push(r));
            },
            FetchOutcome::Failure(_) => {},
        }
    }
}

/// The rounds kept from a batch are exactly those of its first `k`
/// outcomes, where `k` counts the successes before the first failure (or all
/// outcomes, where none fails).
pub proof fn lemma_leading_successes_exact(h: Seq<FetchOutcome>, k: int)
    requires
        0 <= k <= h.len(),
        forall|i: int| 0 <= i < k ==> #[trigger] h[i] is Success,
        k == h.len() || h[k] is Failure,
    ensures
        leading_successes(h).len() == k,
        forall|i: int| 0 <= i < k ==> #[trigger] leading_successes(h)[i] == h[i]->Success_0,
    decreases h.len(),
{
    if h.len() == 0 {
    } else if k == h.len() {
        let init = h.drop_last();
        lemma_leading_successes_exact(init, k - 1);
        assert(!has_failure(init)) by {
            if has_failure(init) {
                let j = choose|j: int| 0 <= j < init.len() && #[trigger] init[j] is Failure;
                assert(h[j] is Success);
            }
        }
        assert(h.last() is Success);
    } else {
        let t = h.take(k + 1);
        lemma_leading_successes_exact(t.drop_last(), k);
        assert(t.drop_last() =~= h.take(k));
        assert(!has_failure(t.drop_last())) by {
            if has_failure(t.drop_last()) {
                let j = choose|j: int| 0 <= j < t.drop_last().len() && #[trigger] t.drop_last()[j] is Failure;
                assert(h[j] is Success);
            }
        }
        assert(t.last() is Failure);
        assert(t[k] is Failure);
        assert(has_failure(t));
        assert(h =~= t + h.skip(k + 1));
        lemma_leading_after_failure(t, h.skip(k + 1));
    }
}

/// The state of one oracle's backfill: the latest round, written first, and
/// the walk backward through the rounds before it, batch by batch.
pub struct Backfill {
    latest: RoundRecord,
    /// The next round id to request; `None` once round zero was requested.
    cursor: Option<Uint256>,
    /// How many more rounds the depth allows.
    remaining: u32,
    batch_size: u32,
    done: bool,
    /// Rows written so far, the latest round's included.
    rows: u64,
    depth: Ghost<nat>,
    /// Every outcome handed back so far, in the order of the requested ids.
    history: Ghost<Seq<FetchOutcome>>,
}

impl Backfill {
    pub closed spec fn latest_spec(self) -> RoundRecord {
        self.latest
    }

    pub closed spec fn depth_spec(self) -> nat {
        self.depth@
    }

    pub closed spec fn batch_size_spec(self) -> nat {
        self.batch_size as nat
    }

    pub closed spec fn done_spec(self) -> bool {
        self.done
    }

    pub closed spec fn rows_spec(self) -> nat {
        self.rows as nat
    }

    /// The outcomes handed back so far; the i-th is that of round
    /// `start_id() - i`.
    pub closed spec fn history(self) -> Seq<FetchOutcome> {
        self.history@
    }

    /// The first historical round id: one below the latest (it is -1 where
    /// the latest round is round zero, and no round is then requested).
    pub open spec fn start_id(self) -> int {
        self.latest_spec().round_id.value() - 1
    }

    /// How many historical rounds the run may request: the depth, but never
    /// past round zero.
    pub open spec fn capacity(self) -> nat {
        let existing = self.latest_spec().round_id.value();
        if self.depth_spec() <= existing {
            self.depth_spec()
        } else {
            existing
        }
    }

    /// The size of the batch that is due now (zero once the run is over).
    pub open spec fn batch_len(self) -> nat {
        if self.done_spec() {
            0
        } else {
            let left = (self.capacity() - self.history().len()) as nat;
            if self.batch_size_spec() <= left {
                self.batch_size_spec()
            } else {
                left
            }
        }
    }

    /// The rounds written so far: the latest one, then the historical ones
    /// fetched before the first failure.
    pub open spec fn records(self) -> Seq<RoundRecord> {
        seq![self.latest_spec()] + leading_successes(self.history())
    }

    /// What the output file holds so far.
    pub open spec fn output_text(self) -> Seq<char> {
        csv_text(self.records())
    }

    pub closed spec fn wf(self) -> bool {
        &&& self.batch_size > 0
        &&& self.depth@ <= u32::MAX
        &&& self.history@.len() <= self.capacity()
        &&& self.remaining as nat + self.history@.len() == self.depth@
        &&& (self.history@.len() < self.latest.round_id.value() <==> self.cursor is Some)
        &&& (self.cursor matches Some(c) ==> c.value() == self.start_id() - self.history@.len())
        &&& self.done == (has_failure(self.history@) || self.history@.len() == self.capacity())
        &&& self.rows == 1 + leading_successes(self.history@).len()
    }

    /// Starts a run after the latest round was fetched and written: the walk
    /// begins one round below it and requests at most `depth` rounds,
    /// `batch_size` at a time.
    pub fn new(latest: RoundRecord, depth: u32, batch_size: u32) -> (r: Backfill)
        requires
            batch_size > 0,
        ensures
            r.wf(),
            r.latest_spec() == latest,
            r.depth_spec() == depth,
            r.batch_size_spec() == batch_size,
            r.history() == Seq::<FetchOutcome>::empty(),
            r.done_spec() == (depth == 0 || latest.round_id.value() == 0),
            r.rows_spec() == 1,
    {
        let done = depth == 0 || latest.round_id.is_zero();
        let r = Backfill {
            latest,
            cursor: latest.round_id.checked_dec(),
            remaining: depth,
            batch_size,
            done,
            rows: 1,
            depth: Ghost(depth as nat),
            history: Ghost(Seq::empty()),
        };
        proof {
            assert(leading_successes(Seq::<FetchOutcome>::empty()).len() == 0);
        }
        r
    }

    pub fn latest(&self) -> (r: RoundRecord)
        ensures
            r == self.latest_spec(),
    {
        self.latest
    }

    pub fn is_done(&self) -> (r: bool)
        ensures
            r == self.done_spec(),
    {
        self.done
    }

    /// Rows written so far, the latest round's included.
    pub fn rows_written(&self) -> (r: u64)
        ensures
            r == self.rows_spec(),
    {
        self.rows
    }

    /// The round ids of the batch that is due, in descending order; empty
    /// once the run is over.
    pub fn next_batch(&self) -> (r: Vec<Uint256>)
        requires
            self.wf(),
        ensures
            r@.len() == self.batch_len(),
            forall|i: int|
                0 <= i < r@.len() ==> #[trigger] r@[i].value() == self.start_id()
                    - self.history().len() - i,
    {
        let mut ids: Vec<Uint256> = Vec::new();
        if self.done {
            return ids;
        }
        let k: u32 = if self.batch_size <= self.remaining {
            self.batch_size
        } else {
            self.remaining
        };
        let ghost base: int = self.start_id() - self.history@.len();
        let mut cur = self.cursor;
        let mut i: u32 = 0;
        while i < k && cur.is_some()
            invariant
                self.wf(),
                !self.done,
                base == self.start_id() - self.history@.len(),
                k <= self.batch_size,
                k <= self.remaining,
                0 <= i <= k,
                i <= base + 1,
                ids@.len() == i,
                forall|j: int| 0 <= j < i ==> #[trigger] ids@[j].value() == base - j,
                (base - i >= 0 <==> cur is Some),
                cur matches Some(c) ==> c.value() == base - i,
            decreases k - i,
        {
            match cur {
                Some(c) => {
                    ids.push(c);
                    cur = c.checked_dec();
                },
                None => {},
            }
            i = i + 1;
        }
        proof {
            assert(ids@.len() == self.batch_len());
        }
        ids
    }

    /// Takes the outcomes of the batch that was due, one per id and in the
    /// order of `next_batch`, and returns the rounds to write, in order: the
    /// successes before the first failure. A failure ends the run, as does
    /// reaching the depth or round zero.
    pub fn accept(&mut self, outcomes: &Vec<FetchOutcome>) -> (r: Vec<RoundRecord>)
        requires
            old(self).wf(),
            outcomes@.len() == old(self).batch_len(),
        ensures
            final(self).wf(),
            final(self).latest_spec() == old(self).latest_spec(),
            final(self).depth_spec() == old(self).depth_spec(),
            final(self).batch_size_spec() == old(self).batch_size_spec(),
            final(self).history() == old(self).history() + outcomes@,
            r@ == leading_successes(outcomes@),
            final(self).records() == old(self).records() + r@,
            final(self).rows_spec() == old(self).rows_spec() + r@.len(),
            final(self).done_spec() == (old(self).done_spec() || has_failure(outcomes@)
                || final(self).history().len() == final(self).capacity()),
    {
        let ghost old_self = *self;
        let n = outcomes.len();
        let mut out: Vec<RoundRecord> = Vec::new();
        let mut failed = false;
        let mut i: usize = 0;
        while i < n && !failed
            invariant
                *self == old_self,
                n == outcomes@.len(),
                0 <= i <= n,
                !failed ==> !has_failure(outcomes@.take(i as int)),
                !failed ==> out@ == leading_successes(outcomes@.take(i as int)),
                failed ==> has_failure(outcomes@),
                failed ==> out@ == leading_successes(outcomes@),
            decreases n - i + (if failed { 0int } else { 1int }),
        {
            let ghost t = outcomes@.take(i as int);
            let ghost t1 = outcomes@.take(i as int + 1);
            proof {
                assert(t1.drop_last() =~= t);
            }
            match outcomes[i] {
                FetchOutcome::Success(rec) => {
                    out.push(rec);
                    proof {
                        assert(!has_failure(t1)) by {
                            if has_failure(t1) {
                                let j = choose|j: int| 0 <= j < t1.len() && #[trigger] t1[j] is Failure;
                                if j < i {
                                    assert(t[j] is Failure);
                                }
                            }
                        }
                    }
                    i = i + 1;
                },
                FetchOutcome::Failure(_) => {
                    proof {
                        assert(t1[i as int] is Failure);
                        assert(has_failure(t1));
                        assert(outcomes@ =~= t1 + outcomes@.skip(i as int + 1));
                        lemma_leading_after_failure(t1, outcomes@.skip(i as int + 1));
                        assert(outcomes@[i as int] is Failure);
                    }
                    failed = true;
                },
            }
        }
        proof {
            if !failed {
                assert(outcomes@.take(n as int) =~= outcomes@);
            }
        }
        let count = n as u32;
        let mut cursor = self.cursor;
        let mut j: u32 = 0;
        while j < count
            invariant
                *self == old_self,
                count == n,
                n == old_self.batch_len(),
                old_self.wf(),
                0 <= j <= count,
                (old_self.history().len() + j < old_self.latest.round_id.value() <==> cursor is Some),
                cursor matches Some(c) ==> c.value() == old_self.start_id() - old_self.history().len() - j,
            decreases count - j,
        {
            cursor = match cursor {
                Some(c) => c.checked_dec(),
                None => None,
            };
            j = j + 1;
        }
        let ghost new_history = old_self.history@ + outcomes@;
        proof {
            lemma_has_failure_append(old_self.history@, outcomes@);
            lemma_leading_len(new_history);
            if !old_self.done {
                lemma_leading_append(old_self.history@, outcomes@);
            } else {
                assert(outcomes@ =~= Seq::<FetchOutcome>::empty());
                assert(new_history =~= old_self.history@);
                assert(leading_successes(outcomes@) =~= Seq::<RoundRecord>::empty());
            }
        }
        self.cursor = cursor;
        self.remaining = self.remaining - count;
        self.history = Ghost(new_history);
        self.rows = self.rows + out.len() as u64;
        self.done = self.done || failed || self.remaining == 0 || self.cursor.is_none();
        proof {
            assert(self.records() =~= old_self.records() + out@);
        }
        out
    }
}

/// The rows written count the latest round and each round fetched before the
/// first failure, and no other.
pub proof fn lemma_rows_written(b: Backfill)
    requires
        b.wf(),
    ensures
        b.rows_spec() == 1 + leading_successes(b.history()).len(),
        b.rows_spec() == b.records().len(),
{
}

proof fn lemma_same_source_prefix(a: Backfill, b: Backfill, source: spec_fn(int) -> FetchOutcome)
    requires
        a.wf(),
        b.wf(),
        a.done_spec(),
        a.latest_spec() == b.latest_spec(),
        a.depth_spec() == b.depth_spec(),
        a.history().len() <= b.history().len(),
        forall|i: int| 0 <= i < a.history().len() ==> #[trigger] a.history()[i] == source(a.start_id() - i),
        forall|i: int| 0 <= i < b.history().len() ==> #[trigger] b.history()[i] == source(b.start_id() - i),
    ensures
        leading_successes(a.history()) == leading_successes(b.history()),
{
    let ha = a.history();
    let hb = b.history();
    assert(ha =~= hb.take(ha.len() as int));
    if ha.len() == hb.len() {
        assert(ha =~= hb);
    } else {
        assert(hb =~= ha + hb.skip(ha.len() as int));
        lemma_leading_after_failure(ha, hb.skip(ha.len() as int));
    }
}

/// Running the backfill twice against the same remote rounds gives the same
/// file: two finished runs from the same latest round and depth, whose every
/// fetch of round `id` gave `source(id)`, hold the same output text.
pub proof fn lemma_backfill_idempotent(a: Backfill, b: Backfill, source: spec_fn(int) -> FetchOutcome)
    requires
        a.wf(),
        b.wf(),
        a.done_spec(),
        b.done_spec(),
        a.latest_spec() == b.latest_spec(),
        a.depth_spec() == b.depth_spec(),
        forall|i: int| 0 <= i < a.history().len() ==> #[trigger] a.history()[i] == source(a.start_id() - i),
        forall|i: int| 0 <= i < b.history().len() ==> #[trigger] b.history()[i] == source(b.start_id() - i),
    ensures
        a.records() == b.records(),
        a.output_text() == b.output_text(),
{
    if a.history().len() <= b.history().len() {
        lemma_same_source_prefix(a, b, source);
    } else {
        lemma_same_source_prefix(b, a, source);
    }
}

/// Where the first historical fetch fails, or no historical round exists
/// within the depth, the run is over and the file holds the header and the
/// latest round's row only.
pub proof fn lemma_no_history_single_row(b: Backfill)
    requires
        b.wf(),
        (b.history().len() > 0 && b.history()[0] is Failure) || b.capacity() == 0,
    ensures
        b.done_spec(),
        b.records() == seq![b.latest_spec()],
        b.output_text() == header_line() + record_line(b.latest_spec()),
{
    let h = b.history();
    if b.capacity() == 0 {
        assert(h =~= Seq::<FetchOutcome>::empty());
    } else {
        let first = h.take(1);
        assert(first[0] is Failure);
        assert(first.drop_last() =~= Seq::<FetchOutcome>::empty());
        assert(!has_failure(first.drop_last()));
        assert(first.last() is Failure);
        assert(leading_successes(Seq::<FetchOutcome>::empty()) =~= Seq::<RoundRecord>::empty());
        assert(leading_successes(first) =~= Seq::<RoundRecord>::empty());
        assert(h =~= first + h.skip(1));
        lemma_leading_after_failure(first, h.skip(1));
    }
    assert(b.records() =~= seq![b.latest_spec()]);
    let rs = seq![b.latest_spec()];
    assert(rs.drop_last() =~= Seq::<RoundRecord>::empty());
    assert(record_lines(Seq::<RoundRecord>::empty()) =~= Seq::<char>::empty());
    assert(rs.last() == b.latest_spec());
    assert(record_lines(rs) =~= record_line(b.latest_spec()));
}

} // verus!
