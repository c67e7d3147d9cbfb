//! The benchmark plan and the driver that walks it: for each operation, for
//! each client library (an adapter), connect, create and seed the schema, run
//! the timed trials, and drop the schema.
//!
//! The driver decides; its caller performs each action and reports how it
//! went. An adapter that fails anywhere is skipped for the rest of the run;
//! the other adapters go on.
use vstd::prelude::*;

use crate::fixture::{BATCH_SIZE, BULK_ROWS, POSTS_PER_USER, RELATION_USERS};

verus! {

/// An operation that the benchmarks time.
#[derive(Clone, Copy, Debug, PartialEq, Eq, Structural)]
pub enum Operation {
    /// Fetch all rows of a table that holds one.
    QueryOne,
    /// Fetch all rows of a table that holds [`BULK_ROWS`].
    QueryAll,
    /// Insert one user.
    InsertOne,
    /// Insert [`BATCH_SIZE`] users.
    InsertMany,
    /// Fetch the first row.
    FetchFirst,
    /// Fetch the row at [`crate::fixture::LAST_ROW_OFFSET`].
    FetchLast,
    /// Fetch one user with its posts.
    OneRelation,
    /// Fetch every user with its posts.
    AllRelations,
}

/// The name under which an operation's timings are reported.
pub open spec fn operation_name(op: Operation) -> Seq<char> {
    match op {
        Operation::QueryOne => "query_one"@,
        Operation::QueryAll => "query_all"@,
        Operation::InsertOne => "insert_one"@,
        Operation::InsertMany => "insert_many"@,
        Operation::FetchFirst => "fetch_first"@,
        Operation::FetchLast => "fetch_last"@,
        Operation::OneRelation => "one_relation"@,
        Operation::AllRelations => "all_relations"@,
    }
}

/// The users that the setup of an operation seeds.
pub open spec fn seeded_users(op: Operation) -> nat {
    match op {
        Operation::QueryOne => 1,
        Operation::QueryAll | Operation::FetchFirst | Operation::FetchLast => BULK_ROWS as nat,
        Operation::InsertOne | Operation::InsertMany => 0,
        Operation::OneRelation | Operation::AllRelations => RELATION_USERS as nat,
    }
}

/// The posts that the setup of an operation seeds for each user.
pub open spec fn seeded_posts(op: Operation) -> nat {
    match op {
        Operation::OneRelation | Operation::AllRelations => POSTS_PER_USER as nat,
        _ => 0,
    }
}

/// The users that one trial of an operation inserts.
pub open spec fn inserted_users(op: Operation) -> nat {
    match op {
        Operation::InsertOne => 1,
        Operation::InsertMany => BATCH_SIZE as nat,
        _ => 0,
    }
}

/// Every operation, in the order of the run.
pub open spec fn operation_order() -> Seq<Operation> {
    seq![
        Operation::QueryOne,
        Operation::QueryAll,
        Operation::InsertOne,
        Operation::InsertMany,
        Operation::FetchFirst,
        Operation::FetchLast,
        Operation::OneRelation,
        Operation::AllRelations,
    ]
}

impl Operation {
    /// The name under which this operation's timings are reported.
    pub fn name(&self) -> (r: &'static str)
        ensures
            r@ == operation_name(*self),
    {
        match self {
            Operation::QueryOne => "query_one",
            Operation::QueryAll => "query_all",
            Operation::InsertOne => "insert_one",
            Operation::InsertMany => "insert_many",
            Operation::FetchFirst => "fetch_first",
            Operation::FetchLast => "fetch_last",
            Operation::OneRelation => "one_relation",
            Operation::AllRelations => "all_relations",
        }
    }

    /// The users that this operation's setup seeds.
    pub fn seeded_users(&self) -> (r: usize)
        ensures
            r == seeded_users(*self),
    {
        match self {
            Operation::QueryOne => 1,
            Operation::QueryAll | Operation::FetchFirst | Operation::FetchLast => BULK_ROWS,
            Operation::InsertOne | Operation::InsertMany => 0,
            Operation::OneRelation | Operation::AllRelations => RELATION_USERS,
        }
    }

    /// The posts that this operation's setup seeds for each user.
    pub fn seeded_posts(&self) -> (r: usize)
        ensures
            r == seeded_posts(*self),
    {
        match self {
            Operation::OneRelation | Operation::AllRelations => POSTS_PER_USER,
            _ => 0,
        }
    }

    /// The users that one trial of this operation inserts.
    pub fn inserted_users(&self) -> (r: usize)
        ensures
            r == inserted_users(*self),
    {
        match self {
            Operation::InsertOne => 1,
            Operation::InsertMany => BATCH_SIZE,
            _ => 0,
        }
    }

    /// Every operation, in the order of the run.
    pub fn all() -> (r: Vec<Operation>)
        ensures
            r@ == operation_order(),
    {
        let r = vec![
            Operation::QueryOne,
            Operation::QueryAll,
            Operation::InsertOne,
            Operation::InsertMany,
            Operation::FetchFirst,
            Operation::FetchLast,
            Operation::OneRelation,
            Operation::AllRelations,
        ];
        assert(r@ =~= operation_order());
        r
    }
}

/// Where the current adapter stands for the current operation.
#[derive(Clone, Copy, Debug, PartialEq, Eq, Structural)]
pub enum Stage {
    /// Nothing is open yet.
    Uninitialized,
    /// A connection is open; the schema is not there yet.
    Connected,
    /// The schema is created and seeded: trials may run.
    SchemaReady,
}

/// What the caller of a [`Driver`] is to do next.
#[derive(Clone, Copy, Debug, PartialEq, Eq, Structural)]
pub enum Action {
    /// Open a connection for the adapter.
    Connect { adapter: usize },
    /// Create the schema and seed `users` users with `posts` posts each.
    Setup { adapter: usize, users: usize, posts: usize },
    /// Run and time one trial of the operation.
    Trial { adapter: usize, operation: Operation },
    /// Drop the schema and close the connection.
    TearDown { adapter: usize },
    /// The run is over.
    Finish,
}

/// How the last action went.
#[derive(Clone, Copy, Debug, PartialEq, Eq, Structural)]
pub enum Event {
    Succeeded,
    Failed,
}

/// The state of a run, as mathematical values. The run visits the pairs of
/// an operation and an adapter in order: pair `p` is operation
/// `p / adapters` with adapter `p % adapters`.
pub struct DriverView {
    pub operations: Seq<Operation>,
    pub adapters: nat,
    pub samples: nat,
    pub pair: nat,
    pub stage: Stage,
    pub trials: nat,
    pub failed: Seq<bool>,
}

/// The number of pairs of a run.
pub open spec fn pairs(v: DriverView) -> nat {
    v.operations.len() * v.adapters
}

/// The first pair from `p` on whose adapter has not failed, or `total`.
pub open spec fn next_live(total: nat, adapters: nat, failed: Seq<bool>, p: nat) -> nat
    decreases total - p,
{
    if p >= total {
        total
    } else if !failed[(p % adapters) as int] {
        p
    } else {
        next_live(total, adapters, failed, p + 1)
    }
}

/// Whether a run's state is consistent.
pub open spec fn driver_wf(v: DriverView) -> bool {
    &&& v.failed.len() == v.adapters
    &&& pairs(v) <= usize::MAX
    &&& v.samples <= usize::MAX
    &&& v.pair <= pairs(v)
    &&& v.pair < pairs(v) ==> !v.failed[(v.pair % v.adapters) as int] || (v.stage == Stage::SchemaReady
        && v.trials == v.samples)
    &&& v.trials <= v.samples
}

/// The action that a run's state calls for.
pub open spec fn action_of(v: DriverView) -> Action {
    if v.pair >= pairs(v) {
        Action::Finish
    } else {
        let adapter = (v.pair % v.adapters) as usize;
        let op = v.operations[(v.pair / v.adapters) as int];
        match v.stage {
            Stage::Uninitialized => Action::Connect { adapter },
            Stage::Connected => Action::Setup {
                adapter,
                users: seeded_users(op) as usize,
                posts: seeded_posts(op) as usize,
            },
            Stage::SchemaReady => if v.trials < v.samples {
                Action::Trial { adapter, operation: op }
            } else {
                Action::TearDown { adapter }
            },
        }
    }
}

/// The state after the current pair is over: the next pair whose adapter
/// has not failed, from its beginning.
pub open spec fn advanced(v: DriverView) -> DriverView {
    DriverView {
        pair: next_live(pairs(v), v.adapters, v.failed, v.pair + 1),
        stage: Stage::Uninitialized,
        trials: 0,
        ..v
    }
}

/// The state with the current adapter marked as failed.
pub open spec fn marked_failed(v: DriverView) -> DriverView {
    DriverView { failed: v.failed.update((v.pair % v.adapters) as int, true), ..v }
}

/// The state after the action that `v` called for went as `e` says.
///
/// A failed connection or setup ends the pair at once; a failed trial ends
/// the trials, and the schema is still dropped. Either way the adapter is
/// skipped for the rest of the run.
pub open spec fn stepped(v: DriverView, e: Event) -> DriverView {
    if v.pair >= pairs(v) {
        v
    } else {
        match v.stage {
            Stage::Uninitialized => if e == Event::Succeeded {
                DriverView { stage: Stage::Connected, ..v }
            } else {
                advanced(marked_failed(v))
            },
            Stage::Connected => if e == Event::Succeeded {
                DriverView { stage: Stage::SchemaReady, trials: 0, ..v }
            } else {
                advanced(marked_failed(v))
            },
            Stage::SchemaReady => if v.trials < v.samples {
                if e == Event::Succeeded {
                    DriverView { trials: v.trials + 1, ..v }
                } else {
                    DriverView { trials: v.samples, ..marked_failed(v) }
                }
            } else if e == Event::Succeeded {
                advanced(v)
            } else {
                advanced(marked_failed(v))
            },
        }
    }
}

/// A run of the benchmark: every operation of a plan against every adapter.
pub struct Driver {
    operations: Vec<Operation>,
    adapters: usize,
    samples: usize,
    pair: usize,
    stage: Stage,
    trials: usize,
    failed: Vec<bool>,
}

impl View for Driver {
    type V = DriverView;

    closed spec fn view(&self) -> DriverView {
        DriverView {
            operations: self.operations@,
            adapters: self.adapters as nat,
            samples: self.samples as nat,
            pair: self.pair as nat,
            stage: self.stage,
            trials: self.trials as nat,
            failed: self.failed@,
        }
    }
}

proof fn lemma_pair_parts(p: nat, ops: nat, adapters: nat)
    requires
        p < ops * adapters,
    ensures
        adapters > 0,
        p / adapters < ops,
        p % adapters < adapters,
{
    assert(adapters > 0) by (nonlinear_arith)
        requires
            p < ops * adapters,
    ;
    assert(p / adapters < ops) by (nonlinear_arith)
        requires
            p < ops * adapters,
            adapters > 0,
    ;
}

proof fn lemma_next_live(total: nat, adapters: nat, failed: Seq<bool>, p: nat)
    requires
        p <= total,
        failed.len() == adapters,
        total > 0 ==> adapters > 0,
    ensures
        p <= next_live(total, adapters, failed, p) <= total,
        next_live(total, adapters, failed, p) < total ==> !failed[(next_live(total, adapters, failed, p) % adapters) as int],
    decreases total - p,
{
    if p < total && failed[(p % adapters) as int] {
        lemma_next_live(total, adapters, failed, p + 1);
    }
}

impl Driver {
    /// Whether the run's state is consistent.
    pub open spec fn wf(&self) -> bool {
        driver_wf(self@)
    }

    /// A run of `operations` against `adapters` adapters, with `samples`
    /// trials for each pair; it starts with the first pair.
    pub fn new(operations: Vec<Operation>, adapters: usize, samples: usize) -> (r: Driver)
        requires
            operations.len() * adapters <= usize::MAX,
        ensures
            r.wf(),
            r@.operations == operations@,
            r@.adapters == adapters,
            r@.samples == samples,
            r@.pair == 0,
            r@.stage == Stage::Uninitialized,
            r@.trials == 0,
            r@.failed == Seq::new(adapters as nat, |i: int| false),
    {
        let mut failed: Vec<bool> = Vec::new();
        let mut k: usize = 0;
        while k < adapters
            invariant
                k <= adapters,
                failed@ == Seq::new(k as nat, |i: int| false),
            decreases adapters - k,
        {
            failed.push(false);
            assert(failed@ =~= Seq::new((k + 1) as nat, |i: int| false));
            k = k + 1;
        }
        let r = Driver { operations, adapters, samples, pair: 0, stage: Stage::Uninitialized, trials: 0, failed };
        proof {
            if 0 < pairs(r@) {
                lemma_pair_parts(0, r@.operations.len(), r@.adapters);
            }
        }
        r
    }

    /// A run of every operation against `adapters` adapters, with `samples`
    /// trials for each pair.
    pub fn plan(adapters: usize, samples: usize) -> (r: Driver)
        requires
            adapters <= usize::MAX / 8,
        ensures
            r.wf(),
            r@.operations == operation_order(),
            r@.adapters == adapters,
            r@.samples == samples,
            r@.pair == 0,
            r@.stage == Stage::Uninitialized,
            r@.trials == 0,
            r@.failed == Seq::new(adapters as nat, |i: int| false),
    {
        let operations = Operation::all();
        assert(operations.len() * adapters <= usize::MAX) by (nonlinear_arith)
            requires
                operations.len() == 8,
                adapters <= usize::MAX / 8,
        ;
        Driver::new(operations, adapters, samples)
    }

    /// The action that the run calls for now.
    pub fn next_action(&self) -> (r: Action)
        requires
            self.wf(),
        ensures
            r == action_of(self@),
    {
        let total = self.operations.len() * self.adapters;
        if self.pair >= total {
            return Action::Finish;
        }
        proof {
            lemma_pair_parts(self.pair as nat, self.operations.len() as nat, self.adapters as nat);
        }
        let adapter = self.pair % self.adapters;
        let op = self.operations[self.pair / self.adapters];
        match self.stage {
            Stage::Uninitialized => Action::Connect { adapter },
            Stage::Connected => Action::Setup { adapter, users: op.seeded_users(), posts: op.seeded_posts() },
            Stage::SchemaReady => if self.trials < self.samples {
                Action::Trial { adapter, operation: op }
            } else {
                Action::TearDown { adapter }
            },
        }
    }

    fn advance(&mut self)
        requires
            old(self).failed@.len() == old(self).adapters,
            pairs(old(self)@) <= usize::MAX,
            old(self).pair < pairs(old(self)@),
        ensures
            final(self)@ == advanced(old(self)@),
    {
        let total = self.operations.len() * self.adapters;
        proof {
            lemma_pair_parts(self.pair as nat, self.operations.len() as nat, self.adapters as nat);
        }
        let mut p = self.pair + 1;
        while p < total && self.failed[p % self.adapters]
            invariant
                self.pair < p <= total,
                total == pairs(self@),
                self.adapters > 0,
                self.failed@.len() == self.adapters,
                next_live(total as nat, self.adapters as nat, self.failed@, (self.pair + 1) as nat)
                    == next_live(total as nat, self.adapters as nat, self.failed@, p as nat),
            decreases total - p,
        {
            p = p + 1;
        }
        self.pair = p;
        self.stage = Stage::Uninitialized;
        self.trials = 0;
    }

    fn mark_failed(&mut self)
        requires
            old(self).failed@.len() == old(self).adapters,
            old(self).pair < pairs(old(self)@),
        ensures
            final(self)@ == marked_failed(old(self)@),
    {
        proof {
            lemma_pair_parts(self.pair as nat, self.operations.len() as nat, self.adapters as nat);
        }
        let adapter = self.pair % self.adapters;
        self.failed.set(adapter, true);
    }

    /// Records how the action that [`Driver::next_action`] called for went.
    pub fn on_event(&mut self, event: Event)
        requires
            old(self).wf(),
        ensures
            final(self).wf(),
            final(self)@ == stepped(old(self)@, event),
    {
        let total = self.operations.len() * self.adapters;
        if self.pair >= total {
            return;
        }
        let succeeded = match event {
            Event::Succeeded => true,
            Event::Failed => false,
        };
        match self.stage {
            Stage::Uninitialized => {
                if succeeded {
                    self.stage = Stage::Connected;
                } else {
                    self.mark_failed();
                    self.advance();
                }
            },
            Stage::Connected => {
                if succeeded {
                    self.stage = Stage::SchemaReady;
                    self.trials = 0;
                } else {
                    self.mark_failed();
                    self.advance();
                }
            },
            Stage::SchemaReady => {
                if self.trials < self.samples {
                    if succeeded {
                        self.trials = self.trials + 1;
                    } else {
                        self.mark_failed();
                        self.trials = self.samples;
                    }
                } else {
                    if !succeeded {
                        self.mark_failed();
                    }
                    self.advance();
                }
            },
        }
        proof {
            lemma_pair_parts(old(self).pair as nat, old(self).operations.len() as nat, old(self).adapters as nat);
            lemma_next_live(total as nat, self.adapters as nat, self.failed@, (old(self).pair + 1) as nat);
        }
    }
}

/// The sum of the samples `s`.
pub open spec fn sample_sum(s: Seq<u64>) -> int
    decreases s.len(),
{
    if s.len() == 0 {
        0
    } else {
        sample_sum(s.drop_last()) + s.last()
    }
}

/// The timings of one operation against one adapter, in nanoseconds.
#[derive(Clone, Copy, Debug, PartialEq, Eq, Structural)]
pub struct Summary {
    pub count: usize,
    pub total: u128,
    pub min: u64,
    pub max: u64,
    pub mean: u64,
}

proof fn lemma_sample_sum_bound(s: Seq<u64>)
    ensures
        0 <= sample_sum(s) <= s.len() * (u64::MAX as int),
    decreases s.len(),
{
    if s.len() > 0 {
        lemma_sample_sum_bound(s.drop_last());
        assert(sample_sum(s) <= s.len() * (u64::MAX as int)) by (nonlinear_arith)
            requires
                sample_sum(s) == sample_sum(s.drop_last()) + s.last(),
                sample_sum(s.drop_last()) <= (s.len() - 1) * (u64::MAX as int),
                s.last() <= u64::MAX,
        ;
    }
}

/// The count, sum, least, greatest and mean (rounded down) of the samples;
/// none where there is no sample.
pub fn summarize(samples: &Vec<u64>) -> (r: Option<Summary>)
    ensures
        samples.len() == 0 <==> r is None,
        r matches Some(s) ==> {
            &&& s.count == samples.len()
            &&& s.total == sample_sum(samples@)
            &&& s.mean == sample_sum(samples@) / (samples.len() as int)
            &&& samples@.contains(s.min)
            &&& samples@.contains(s.max)
            &&& forall|k: int| 0 <= k < samples.len() ==> s.min <= #[trigger] samples@[k] <= s.max
        },
{
    if samples.len() == 0 {
        return None;
    }
    let mut total: u128 = 0;
    let mut min: u64 = samples[0];
    let mut max: u64 = samples[0];
    let mut k: usize = 0;
    while k < samples.len()
        invariant
            0 <= k <= samples.len(),
            samples.len() > 0,
            total == sample_sum(samples@.take(k as int)),
            samples@.contains(min),
            samples@.contains(max),
            forall|j: int| 0 <= j < k ==> min <= #[trigger] samples@[j] <= max,
            min <= samples@[0] <= max,
        decreases samples.len() - k,
    {
        proof {
            assert(samples@.take(k + 1).drop_last() =~= samples@.take(k as int));
            lemma_sample_sum_bound(samples@.take(k + 1));
            assert((k + 1) * (u64::MAX as int) <= u128::MAX) by (nonlinear_arith)
                requires
                    k < usize::MAX,
            ;
        }
        let x = samples[k];
        total = total + x as u128;
        if x < min {
            min = x;
        }
        if x > max {
            max = x;
        }
        k = k + 1;
    }
    assert(samples@.take(k as int) =~= samples@);
    proof {
        lemma_sample_sum_bound(samples@);
    }
    let mean = total / (k as u128);
    assert(mean <= u64::MAX) by (nonlinear_arith)
        requires
            mean == total / (k as u128),
            total <= k * (u64::MAX as int),
            k > 0,
    ;
    Some(Summary { count: k, total, min, max, mean: mean as u64 })
}

} // verus!
