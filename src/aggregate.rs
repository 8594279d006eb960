use vstd::prelude::*;
use vstd::seq_lib::{commutative_foldl, lemma_fold_left_permutation};

verus! {

/// Adds one observation to a running total.
pub open spec fn add_obs(acc: int, x: i64) -> int {
    acc + x
}

/// The sum of a sequence of observations, as a mathematical integer.
pub open spec fn obs_sum(obs: Seq<i64>) -> int {
    obs.fold_left(0int, |acc: int, x: i64| add_obs(acc, x))
}

/// The exact arithmetic mean of a non-empty observation list, kept as the
/// pair (sum, count) so that no precision is lost: its value is
/// `sum / count`.
#[derive(Clone, Copy, Debug, PartialEq, Eq, Structural)]
pub struct Mean {
    pub sum: i128,
    pub count: usize,
}

impl Mean {
    /// The mean as a rational number equals `v`, that is `sum == v * count`.
    pub open spec fn has_value(self, v: int) -> bool {
        self.sum == v * self.count
    }
}

/// What aggregation gives for a list of observations: `None` (no data) for
/// an empty list, otherwise the mean of all of them.
pub open spec fn spec_aggregate(obs: Seq<i64>) -> Option<Mean> {
    if obs.len() == 0 {
        None
    } else {
        Some(Mean { sum: obs_sum(obs) as i128, count: obs.len() as usize })
    }
}

proof fn lemma_sum_step(obs: Seq<i64>, i: int)
    requires
        0 <= i < obs.len(),
    ensures
        obs_sum(obs.subrange(0, i + 1)) == obs_sum(obs.subrange(0, i)) + obs[i],
{
    assert(obs.subrange(0, i + 1).drop_last() =~= obs.subrange(0, i));
}

/// Reduces observations to their arithmetic mean; an empty list gives the
/// explicit no-data marker `None`, never a zero.
pub fn aggregate(obs: &Vec<i64>) -> (r: Option<Mean>)
    ensures
        r == spec_aggregate(obs@),
        obs@.len() > 0 ==> obs_sum(obs@) == r.unwrap().sum,
{
    if obs.len() == 0 {
        return None;
    }
    let mut total: i128 = 0;
    let mut i: usize = 0;
    while i < obs.len()
        invariant
            i <= obs@.len(),
            total == obs_sum(obs@.subrange(0, i as int)),
            -(i as int) * 0x8000_0000_0000_0000 <= total <= (i as int) * 0x8000_0000_0000_0000,
        decreases obs@.len() - i,
    {
        proof {
            lemma_sum_step(obs@, i as int);
        }
        total = total + obs[i] as i128;
        i = i + 1;
    }
    assert(obs@.subrange(0, obs@.len() as int) =~= obs@);
    Some(Mean { sum: total, count: obs.len() as usize })
}

/// The sum is the same for any two orderings of the same observations.
proof fn lemma_sum_permutation(a: Seq<i64>, b: Seq<i64>)
    requires
        a.to_multiset() == b.to_multiset(),
    ensures
        obs_sum(a) == obs_sum(b),
{
    let f = |acc: int, x: i64| add_obs(acc, x);
    assert(commutative_foldl(f));
    lemma_fold_left_permutation(a, b, f, 0int);
}

/// Aggregation does not depend on the order of the observations: any
/// permutation of the input gives the same result.
pub proof fn aggregate_order_independent(a: Seq<i64>, b: Seq<i64>)
    requires
        a.to_multiset() == b.to_multiset(),
    ensures
        spec_aggregate(a) == spec_aggregate(b),
{
    lemma_sum_permutation(a, b);
    a.to_multiset_ensures();
    b.to_multiset_ensures();
}

/// A single observation aggregates to itself.
pub proof fn aggregate_single(x: i64)
    ensures
        spec_aggregate(seq![x]) is Some,
        spec_aggregate(seq![x]).unwrap().has_value(x as int),
{
    let s = seq![x];
    assert(s.drop_last() =~= Seq::<i64>::empty());
    assert(s.last() == x);
    assert(obs_sum(s.drop_last()) == 0);
    assert(obs_sum(s) == add_obs(obs_sum(s.drop_last()), x));
    assert(obs_sum(s) == x);
    let m = Mean { sum: x as i128, count: 1 };
    assert(spec_aggregate(s) == Some(m));
    assert(m.sum == (x as int) * 1);
    assert(m.has_value(x as int));
}

/// An empty observation list yields no data.
pub proof fn aggregate_empty()
    ensures
        spec_aggregate(Seq::<i64>::empty()) is None,
{
}

} // verus!
