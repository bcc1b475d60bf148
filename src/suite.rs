//! The benchmark suite: the cross-product of connections, batch sizes and
//! methods, run one combination at a time, with failures kept to their run.

use vstd::prelude::*;
use crate::report::RunResult;
use crate::strategy::IngestMethod;

verus! {

/// One run to perform: which connection, which batch size, which method.
#[derive(Clone, Copy, Debug, PartialEq, Eq, Structural)]
pub struct Combination {
    pub connection: usize,
    pub batch_size: usize,
    pub method: IngestMethod,
}

/// The runs for connection `c` and batch size `b`: one per method, in order.
pub open spec fn batch_plan(c: usize, b: usize, ms: Seq<IngestMethod>) -> Seq<Combination> {
    Seq::new(ms.len(), |j: int| Combination { connection: c, batch_size: b, method: ms[j] })
}

/// The runs for connection `c`: batch sizes in order, each with every method.
pub open spec fn connection_plan(c: usize, bs: Seq<usize>, ms: Seq<IngestMethod>) -> Seq<Combination> {
    Seq::new(bs.len(), |i: int| batch_plan(c, bs[i], ms)).flatten_alt()
}

/// The runs of the whole suite: connections in order, each with its plan.
pub open spec fn suite_plan(n: nat, bs: Seq<usize>, ms: Seq<IngestMethod>) -> Seq<Combination> {
    Seq::new(n, |c: int| connection_plan(c as usize, bs, ms)).flatten_alt()
}

/// The results of the successful runs among `outcomes`, in order.
pub open spec fn kept_results(outcomes: Seq<Option<RunResult>>) -> Seq<RunResult>
    decreases outcomes.len(),
{
    if outcomes.len() == 0 {
        Seq::empty()
    } else {
        let rest = kept_results(outcomes.drop_last());
        match outcomes.last() {
            Some(r) => rest.push(r),
            None => rest,
        }
    }
}

/// A failed run takes nothing away from the others: the result of every
/// successful run stands among the kept results, whatever the other runs did.
pub proof fn lemma_successes_kept(outcomes: Seq<Option<RunResult>>, i: int)
    requires
        0 <= i < outcomes.len(),
        outcomes[i] is Some,
    ensures
        kept_results(outcomes).contains(outcomes[i]->0),
    decreases outcomes.len(),
{
    let rest = kept_results(outcomes.drop_last());
    if i == outcomes.len() - 1 {
        let r = outcomes[i]->0;
        assert(kept_results(outcomes) == rest.push(r));
        assert(kept_results(outcomes)[rest.len() as int] == r);
    } else {
        lemma_successes_kept(outcomes.drop_last(), i);
        let k = choose|k: int| 0 <= k < rest.len() && rest[k] == outcomes[i]->0;
        match outcomes.last() {
            Some(r) => {
                assert(kept_results(outcomes)[k] == rest[k]);
            },
            None => {},
        }
    }
}

/// The plan of a suite over `n_connections` connections.
pub fn plan_suite(n_connections: usize, batch_sizes: &Vec<usize>, methods: &Vec<IngestMethod>) -> (r: Vec<Combination>)
    ensures
        r@ == suite_plan(n_connections as nat, batch_sizes@, methods@),
{
    let ghost bs = batch_sizes@;
    let ghost ms = methods@;
    let mut r: Vec<Combination> = Vec::new();
    let mut c: usize = 0;
    while c < n_connections
        invariant
            c <= n_connections,
            bs == batch_sizes@,
            ms == methods@,
            r@ == suite_plan(c as nat, bs, ms),
        decreases n_connections - c,
    {
        let ghost before = r@;
        let mut i: usize = 0;
        while i < batch_sizes.len()
            invariant
                i <= bs.len(),
                c < n_connections,
                bs == batch_sizes@,
                ms == methods@,
                r@ == before + Seq::new(i as nat, |k: int| batch_plan(c, bs[k], ms)).flatten_alt(),
            decreases bs.len() - i,
        {
            let ghost mid = r@;
            let b = batch_sizes[i];
            let mut j: usize = 0;
            while j < methods.len()
                invariant
                    j <= ms.len(),
                    ms == methods@,
                    r@ == mid + batch_plan(c, b, ms).subrange(0, j as int),
                decreases ms.len() - j,
            {
                r.push(Combination { connection: c, batch_size: b, method: methods[j] });
                assert(r@ =~= mid + batch_plan(c, b, ms).subrange(0, j + 1));
                j = j + 1;
            }
            assert(batch_plan(c, b, ms).subrange(0, j as int) =~= batch_plan(c, b, ms));
            let ghost step = Seq::new((i + 1) as nat, |k: int| batch_plan(c, bs[k], ms));
            assert(step.drop_last() =~= Seq::new(i as nat, |k: int| batch_plan(c, bs[k], ms)));
            assert(r@ =~= before + step.flatten_alt());
            i = i + 1;
        }
        let ghost whole = Seq::new((c + 1) as nat, |k: int| connection_plan(k as usize, bs, ms));
        assert(whole.drop_last() =~= Seq::new(c as nat, |k: int| connection_plan(k as usize, bs, ms)));
        assert(Seq::new(i as nat, |k: int| batch_plan(c, bs[k], ms)) =~= Seq::new(
            bs.len(),
            |k: int| batch_plan(c, bs[k], ms),
        ));
        assert(r@ =~= whole.flatten_alt());
        c = c + 1;
    }
    r
}

/// A suite in progress: its plan, how far it has come, and what it kept.
pub struct Suite {
    pub plan: Vec<Combination>,
    pub next: usize,
    pub results: Vec<RunResult>,
    pub outcomes: Ghost<Seq<Option<RunResult>>>,
}

impl Suite {
    /// The suite is consistent: one outcome per run done, and the kept
    /// results are the successful ones among them.
    pub open spec fn wf(&self) -> bool {
        &&& self.next <= self.plan@.len()
        &&& self.outcomes@.len() == self.next
        &&& self.results@ == kept_results(self.outcomes@)
    }

    /// A suite that has run nothing yet.
    pub fn new(n_connections: usize, batch_sizes: &Vec<usize>, methods: &Vec<IngestMethod>) -> (s: Suite)
        ensures
            s.wf(),
            s.plan@ == suite_plan(n_connections as nat, batch_sizes@, methods@),
            s.next == 0,
            s.results@.len() == 0,
    {
        let s = Suite {
            plan: plan_suite(n_connections, batch_sizes, methods),
            next: 0,
            results: Vec::new(),
            outcomes: Ghost(Seq::empty()),
        };
        assert(s.results@ =~= kept_results(s.outcomes@));
        s
    }

    /// The run to perform next, if any is left.
    pub fn next_run(&self) -> (r: Option<Combination>)
        requires
            self.wf(),
        ensures
            r is None <==> self.next == self.plan@.len(),
            r matches Some(c) ==> c == self.plan@[self.next as int],
    {
        if self.next < self.plan.len() {
            Some(self.plan[self.next])
        } else {
            None
        }
    }

    /// Records the outcome of the current run (`None` for a failed one) and
    /// moves on to the next, whatever the outcome was.
    pub fn record(&mut self, outcome: Option<RunResult>)
        requires
            old(self).wf(),
            old(self).next < old(self).plan@.len(),
        ensures
            final(self).wf(),
            final(self).plan@ == old(self).plan@,
            final(self).next == old(self).next + 1,
            final(self).outcomes@ == old(self).outcomes@.push(outcome),
            final(self).results@ == match outcome {
                Some(r) => old(self).results@.push(r),
                None => old(self).results@,
            },
    {
        let ghost before = self.outcomes@;
        let planned = self.plan.len();
        assert(self.next < planned);
        self.next = self.next + 1;
        self.outcomes = Ghost(before.push(outcome));
        assert(self.outcomes@.drop_last() =~= before);
        match outcome {
            Some(r) => self.results.push(r),
            None => {},
        }
    }

    /// The results kept so far.
    pub fn into_results(self) -> (r: Vec<RunResult>)
        requires
            self.wf(),
        ensures
            r@ == kept_results(self.outcomes@),
    {
        self.results
    }
}

} // verus!
