use vstd::prelude::*;
use crate::aggregate::{aggregate, spec_aggregate, Mean};
use crate::entity::Entity;
use crate::task::TaskError;

verus! {

/// How the task of one entity within a metric's batch ended: the
/// observations parsed from its payload, or the error that stopped it.
#[derive(Debug)]
pub struct TaskReport {
    pub entity: Entity,
    pub outcome: Result<Vec<i64>, TaskError>,
}

/// One entry of a metric's output: an entity and its aggregate (`None`
/// for no data).
#[derive(Clone, Copy, Debug, PartialEq, Eq, Structural)]
pub struct EntityValue {
    pub entity: Entity,
    pub value: Option<Mean>,
}

/// Why a metric's batch failed: the first task that failed, and its error.
#[derive(Clone, Copy, Debug, PartialEq, Eq, Structural)]
pub struct BatchFailure {
    pub entity: Entity,
    pub error: TaskError,
}

/// A metric's output: every entity with its aggregate, in report order, if
/// every task succeeded; otherwise the first failure in report order.
pub open spec fn spec_combine(rs: Seq<TaskReport>) -> Result<Seq<EntityValue>, BatchFailure>
    decreases rs.len(),
{
    if rs.len() == 0 {
        Ok(Seq::empty())
    } else {
        match rs[0].outcome {
            Err(error) => Err(BatchFailure { entity: rs[0].entity, error }),
            Ok(obs) => match spec_combine(rs.drop_first()) {
                Ok(rest) => Ok(
                    seq![EntityValue { entity: rs[0].entity, value: spec_aggregate(obs@) }] + rest,
                ),
                Err(f) => Err(f),
            },
        }
    }
}

proof fn lemma_combine_prefix_ok(rs: Seq<TaskReport>, out: Seq<EntityValue>)
    requires
        out.len() == rs.len(),
        forall|j: int|
            0 <= j < rs.len() ==> (#[trigger] rs[j]).outcome is Ok && out[j] == (EntityValue {
                entity: rs[j].entity,
                value: spec_aggregate(rs[j].outcome.unwrap()@),
            }),
    ensures
        spec_combine(rs) == Ok::<Seq<EntityValue>, BatchFailure>(out),
    decreases rs.len(),
{
    if rs.len() > 0 {
        assert forall|j: int| 0 <= j < rs.len() - 1 implies (#[trigger] rs.drop_first()[j]).outcome is Ok
            && out.drop_first()[j] == (EntityValue {
            entity: rs.drop_first()[j].entity,
            value: spec_aggregate(rs.drop_first()[j].outcome.unwrap()@),
        }) by {
            assert(rs.drop_first()[j] == rs[j + 1]);
            assert(out.drop_first()[j] == out[j + 1]);
        }
        lemma_combine_prefix_ok(rs.drop_first(), out.drop_first());
        assert(rs[0].outcome is Ok);
        assert(out =~= seq![out[0]] + out.drop_first());
    } else {
        assert(out =~= Seq::<EntityValue>::empty());
    }
}

proof fn lemma_combine_first_err(rs: Seq<TaskReport>, i: int)
    requires
        0 <= i < rs.len(),
        rs[i].outcome is Err,
        forall|j: int| 0 <= j < i ==> (#[trigger] rs[j]).outcome is Ok,
    ensures
        spec_combine(rs) == Err::<Seq<EntityValue>, BatchFailure>(
            BatchFailure { entity: rs[i].entity, error: rs[i].outcome->Err_0 },
        ),
    decreases i,
{
    if i > 0 {
        assert forall|j: int| 0 <= j < i - 1 implies (#[trigger] rs.drop_first()[j]).outcome is Ok by {
            assert(rs.drop_first()[j] == rs[j + 1]);
        }
        lemma_combine_first_err(rs.drop_first(), i - 1);
    }
}

/// Combines the reports of one metric's tasks. The batch is all or
/// nothing: the first failed task fails the whole metric; otherwise each
/// entity gets the aggregate of its observations.
pub fn combine_batch(reports: &Vec<TaskReport>) -> (r: Result<Vec<EntityValue>, BatchFailure>)
    ensures
        match r {
            Ok(v) => spec_combine(reports@) == Ok::<Seq<EntityValue>, BatchFailure>(v@),
            Err(f) => spec_combine(reports@) == Err::<Seq<EntityValue>, BatchFailure>(f),
        },
{
    let mut out: Vec<EntityValue> = Vec::new();
    let mut i: usize = 0;
    while i < reports.len()
        invariant
            i <= reports@.len(),
            out@.len() == i,
            forall|j: int|
                0 <= j < i ==> (#[trigger] reports@[j]).outcome is Ok && out@[j] == (EntityValue {
                    entity: reports@[j].entity,
                    value: spec_aggregate(reports@[j].outcome.unwrap()@),
                }),
        decreases reports@.len() - i,
    {
        let report = &reports[i];
        match &report.outcome {
            Ok(obs) => {
                let value = aggregate(obs);
                out.push(EntityValue { entity: report.entity, value });
            },
            Err(error) => {
                proof {
                    lemma_combine_first_err(reports@, i as int);
                }
                return Err(BatchFailure { entity: report.entity, error: *error });
            },
        }
        i = i + 1;
    }
    proof {
        lemma_combine_prefix_ok(reports@, out@);
    }
    Ok(out)
}

/// Batch atomicity: one failed task fails the metric's whole batch, even
/// when other tasks of the batch succeeded.
pub proof fn one_failure_fails_batch(rs: Seq<TaskReport>, i: int)
    requires
        0 <= i < rs.len(),
        rs[i].outcome is Err,
    ensures
        spec_combine(rs) is Err,
    decreases i,
{
    if i > 0 {
        if rs[0].outcome is Ok {
            assert(rs.drop_first()[i - 1] == rs[i]);
            one_failure_fails_batch(rs.drop_first(), i - 1);
        }
    }
}

} // verus!
