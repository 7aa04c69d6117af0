//! What a run of one property costs, and running every property in turn.

use vstd::prelude::*;
use crate::workload::PropertyName;

verus! {

/// The number of inputs a run tried and the microseconds it took.
#[derive(Clone, Copy, Debug, PartialEq, Eq)]
pub struct Metrics {
    pub inputs: u64,
    pub elapsed_us: u128,
}

impl Default for Metrics {
    /// No inputs in no time.
    fn default() -> (m: Metrics)
        ensures
            m.inputs == 0,
            m.elapsed_us == 0,
    {
        Metrics { inputs: 0, elapsed_us: 0 }
    }
}

impl Metrics {
    /// The metrics of two runs taken together: the inputs and the times added.
    pub fn combine(self, other: Metrics) -> (m: Metrics)
        requires
            self.inputs + other.inputs <= u64::MAX,
            self.elapsed_us + other.elapsed_us <= u128::MAX,
        ensures
            m.inputs == self.inputs + other.inputs,
            m.elapsed_us == self.elapsed_us + other.elapsed_us,
    {
        Metrics { inputs: self.inputs + other.inputs, elapsed_us: self.elapsed_us + other.elapsed_us }
    }
}

/// The properties in the order in which "All" runs them.
pub open spec fn all_properties() -> Seq<PropertyName> {
    seq![
        PropertyName::GraphemeNextBoundaryEmptyChunk,
        PropertyName::GraphemePrevBoundaryChunkStart,
        PropertyName::AsciiWordBoundIndicesMatch,
    ]
}

fn property_at(i: usize) -> (p: PropertyName)
    requires
        i < 3,
    ensures
        p == all_properties()[i as int],
{
    if i == 0 {
        PropertyName::GraphemeNextBoundaryEmptyChunk
    } else if i == 1 {
        PropertyName::GraphemePrevBoundaryChunkStart
    } else {
        PropertyName::AsciiWordBoundIndicesMatch
    }
}

/// The result of running one property: `Ok` or the failure's message, and
/// what the run cost.
pub type Outcome = (Result<(), String>, Metrics);

/// The inputs tried over several runs.
pub open spec fn total_inputs(outs: Seq<Outcome>) -> int
    decreases outs.len(),
{
    if outs.len() == 0 {
        0
    } else {
        total_inputs(outs.drop_last()) + outs.last().1.inputs
    }
}

/// The time taken over several runs.
pub open spec fn total_elapsed(outs: Seq<Outcome>) -> int
    decreases outs.len(),
{
    if outs.len() == 0 {
        0
    } else {
        total_elapsed(outs.drop_last()) + outs.last().1.elapsed_us
    }
}

/// Running every property in turn came to `r` through the runs `outs`: the
/// properties were run in order, each as `f` may run it, until the first
/// failure or the end; the failure, if any, is the result, and the metrics are
/// those of all runs made.
pub open spec fn all_run<F: Fn(PropertyName) -> Outcome>(f: F, outs: Seq<Outcome>, r: Outcome) -> bool {
    &&& 1 <= outs.len() <= 3
    &&& forall|i: int| 0 <= i < outs.len() ==> #[trigger] f.ensures((all_properties()[i],), outs[i])
    &&& forall|i: int| 0 <= i < outs.len() - 1 ==> (#[trigger] outs[i]).0 is Ok
    &&& outs.len() < 3 ==> outs.last().0 is Err
    &&& r.0 is Ok <==> outs.last().0 is Ok
    &&& outs.last().0 is Err ==> r.0 == outs.last().0
    &&& r.1.inputs == total_inputs(outs)
    &&& r.1.elapsed_us == total_elapsed(outs)
}

/// The runs `outs` are ones that "All" may make with `f`: the first few
/// properties in order, each run as `f` may run it, every run but the last
/// passing.
pub open spec fn runs_made<F: Fn(PropertyName) -> Outcome>(f: F, outs: Seq<Outcome>) -> bool {
    &&& 1 <= outs.len() <= 3
    &&& forall|i: int| 0 <= i < outs.len() ==> #[trigger] f.ensures((all_properties()[i],), outs[i])
    &&& forall|i: int| 0 <= i < outs.len() - 1 ==> (#[trigger] outs[i]).0 is Ok
}

/// The costs of several runs add up without overflow.
pub open spec fn sums_fit(outs: Seq<Outcome>) -> bool {
    &&& total_inputs(outs) <= u64::MAX
    &&& total_elapsed(outs) <= u128::MAX
}

/// Runs every property with `f`, in order, stopping at the first failure, and
/// adds up what the runs cost. The costs of any runs that "All" may make must
/// add up without overflow.
pub fn run_all<F: Fn(PropertyName) -> Outcome>(f: F) -> (r: Outcome)
    requires
        forall|p: PropertyName| f.requires((p,)),
        forall|outs: Seq<Outcome>| #[trigger] runs_made(f, outs) ==> sums_fit(outs),
    ensures
        exists|outs: Seq<Outcome>| all_run(f, outs, r),
{
    let mut total = Metrics::default();
    let ghost mut outs: Seq<Outcome> = Seq::empty();
    let mut i: usize = 0;
    while i < 3
        invariant
            i <= 3,
            outs.len() == i,
            forall|j: int| 0 <= j < i ==> #[trigger] f.ensures((all_properties()[j],), outs[j]),
            forall|j: int| 0 <= j < i ==> (#[trigger] outs[j]).0 is Ok,
            forall|p: PropertyName| f.requires((p,)),
            forall|outs: Seq<Outcome>| #[trigger] runs_made(f, outs) ==> sums_fit(outs),
            total.inputs == total_inputs(outs),
            total.elapsed_us == total_elapsed(outs),
        decreases 3 - i,
    {
        let p = property_at(i);
        let o = f(p);
        let ghost go = o;
        let (res, m) = o;
        proof {
            let prev = outs;
            outs = outs.push(go);
            assert(outs.drop_last() =~= prev);
            assert(outs[i as int] == go);
            assert(runs_made(f, outs));
        }
        total = total.combine(m);
        if res.is_err() {
            assert(all_run(f, outs, (res, total)));
            return (res, total);
        }
        i = i + 1;
    }
    assert(outs[2].0 is Ok);
    assert(all_run(f, outs, (Ok(()), total)));
    (Ok(()), total)
}

/// What one run of the fixed-witness runner comes to: its check's result, one
/// input, and the time it took.
pub fn etna_outcome(result: Result<(), String>, elapsed_us: u128) -> (o: Outcome)
    ensures
        o.0 == result,
        o.1 == (Metrics { inputs: 1, elapsed_us }),
{
    (result, Metrics { inputs: 1, elapsed_us })
}

/// Of runs that each count one input, "All" counts one input per run it
/// made, and three where every property passed.
pub proof fn lemma_all_counts_runs<F: Fn(PropertyName) -> Outcome>(f: F, outs: Seq<Outcome>, r: Outcome)
    requires
        all_run(f, outs, r),
        forall|p: PropertyName, o: Outcome| #[trigger] f.ensures((p,), o) ==> o.1.inputs == 1,
    ensures
        r.1.inputs == outs.len(),
        r.0 is Ok ==> r.1.inputs == 3,
{
    lemma_total_inputs_count(f, outs);
}

proof fn lemma_total_inputs_count<F: Fn(PropertyName) -> Outcome>(f: F, outs: Seq<Outcome>)
    requires
        outs.len() <= 3,
        forall|i: int| 0 <= i < outs.len() ==> #[trigger] f.ensures((all_properties()[i],), outs[i]),
        forall|p: PropertyName, o: Outcome| #[trigger] f.ensures((p,), o) ==> o.1.inputs == 1,
    ensures
        total_inputs(outs) == outs.len(),
    decreases outs.len(),
{
    if outs.len() > 0 {
        let last = outs.len() - 1;
        assert(f.ensures((all_properties()[last],), outs[last]));
        assert(outs.drop_last().len() == last);
        assert forall|i: int| 0 <= i < outs.drop_last().len() implies #[trigger] f.ensures(
            (all_properties()[i],),
            outs.drop_last()[i],
        ) by {
            assert(outs.drop_last()[i] == outs[i]);
        }
        lemma_total_inputs_count(f, outs.drop_last());
    }
}

} // verus!
