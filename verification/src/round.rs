//! A round of probes: its plan, and what the store holds when the round is
//! complete.

use crate::config::{Config, Host, Service};
use crate::monitor::{CheckResult, StatusKey};
use crate::probe::{plan_for, ProbePlan, ProbeRequest};
use vstd::prelude::*;

verus! {

/// One probe of a round: which service of which host, by their positions in
/// the configuration, and what to ask for.
#[derive(Debug, PartialEq, Eq)]
pub struct ProbeTask {
    pub host_index: usize,
    pub service_index: usize,
    pub request: ProbeRequest,
}

/// A probe task as plain values.
pub struct TaskPlan {
    pub host_index: int,
    pub service_index: int,
    pub request: ProbePlan,
}

impl View for ProbeTask {
    type V = TaskPlan;

    open spec fn view(&self) -> TaskPlan {
        TaskPlan {
            host_index: self.host_index as int,
            service_index: self.service_index as int,
            request: self.request@,
        }
    }
}

/// The plain values of a sequence of probe tasks.
pub open spec fn task_views(tasks: Seq<ProbeTask>) -> Seq<TaskPlan> {
    tasks.map_values(|t: ProbeTask| t@)
}

/// The task that probes service `service_index` of host `host_index`.
pub open spec fn task_at(config: Config, host_index: int, service_index: int) -> TaskPlan {
    TaskPlan {
        host_index,
        service_index,
        request: plan_for(config.hosts@[host_index], config.hosts@[host_index].services@[service_index]),
    }
}

/// The tasks for the first `upto` services of host `host_index`, in
/// configured order.
pub open spec fn host_plan(config: Config, host_index: int, upto: int) -> Seq<TaskPlan>
    decreases upto,
{
    if upto <= 0 {
        Seq::empty()
    } else {
        host_plan(config, host_index, upto - 1).push(task_at(config, host_index, upto - 1))
    }
}

/// The tasks for all services of the first `upto` hosts, host after host.
pub open spec fn plan_before(config: Config, upto: int) -> Seq<TaskPlan>
    decreases upto,
{
    if upto <= 0 {
        Seq::empty()
    } else {
        plan_before(config, upto - 1) + host_plan(
            config,
            upto - 1,
            config.hosts@[upto - 1].services@.len() as int,
        )
    }
}

/// The plan of a round: one task for each configured pair of host and
/// service.
pub open spec fn round_plan(config: Config) -> Seq<TaskPlan> {
    plan_before(config, config.hosts@.len() as int)
}

/// The slot that the result of `service` on `host` fills.
pub open spec fn slot_of(host: Host, service: Service) -> StatusKey {
    StatusKey { host_name: host.name@, service_name: service.name@, port: service.port }
}

/// The slot that the result of a task fills.
pub open spec fn task_slot(config: Config, task: TaskPlan) -> StatusKey {
    slot_of(config.hosts@[task.host_index], config.hosts@[task.host_index].services@[task.service_index])
}

/// The store after the results `results` were filed one after the other.
pub open spec fn filed(before: Map<StatusKey, CheckResult>, results: Seq<CheckResult>) -> Map<
    StatusKey,
    CheckResult,
>
    decreases results.len(),
{
    if results.len() == 0 {
        before
    } else {
        filed(before, results.drop_last()).insert(results.last().key(), results.last())
    }
}

/// Whether the configuration has a host `h` with a service `s`, counted from 0.
pub open spec fn configured_pair(config: Config, h: int, s: int) -> bool {
    0 <= h < config.hosts@.len() && 0 <= s < config.hosts@[h].services@.len()
}

proof fn lemma_host_plan(config: Config, h: int, upto: int)
    requires
        0 <= upto,
    ensures
        host_plan(config, h, upto).len() == upto,
        forall|s: int| 0 <= s < upto ==> #[trigger] host_plan(config, h, upto)[s] == task_at(config, h, s),
    decreases upto,
{
    if upto > 0 {
        lemma_host_plan(config, h, upto - 1);
    }
}

proof fn lemma_plan_before(config: Config, upto: int)
    requires
        0 <= upto <= config.hosts@.len(),
    ensures
        plan_before(config, upto).len() == config.pairs_before(upto),
        forall|p: int|
            0 <= p < plan_before(config, upto).len() ==> {
                let task = #[trigger] plan_before(config, upto)[p];
                &&& task.host_index < upto
                &&& configured_pair(config, task.host_index, task.service_index)
                &&& task == task_at(config, task.host_index, task.service_index)
            },
        forall|h: int, s: int|
            h < upto && #[trigger] configured_pair(config, h, s) ==> {
                let p = config.pairs_before(h) + s;
                &&& 0 <= p < plan_before(config, upto).len()
                &&& plan_before(config, upto)[p] == task_at(config, h, s)
            },
    decreases upto,
{
    if upto > 0 {
        let h0 = upto - 1;
        let n = config.hosts@[h0].services@.len() as int;
        let front = plan_before(config, h0);
        let tail = host_plan(config, h0, n);
        lemma_plan_before(config, h0);
        lemma_host_plan(config, h0, n);
        let whole = plan_before(config, upto);
        assert(whole == front + tail);
        assert forall|p: int| 0 <= p < whole.len() implies {
            let task = #[trigger] whole[p];
            &&& task.host_index < upto
            &&& configured_pair(config, task.host_index, task.service_index)
            &&& task == task_at(config, task.host_index, task.service_index)
        } by {
            if p < front.len() {
                assert(whole[p] == front[p]);
            } else {
                assert(whole[p] == tail[p - front.len()]);
            }
        }
        assert forall|h: int, s: int| h < upto && #[trigger] configured_pair(config, h, s) implies {
            let p = config.pairs_before(h) + s;
            &&& 0 <= p < whole.len()
            &&& whole[p] == task_at(config, h, s)
        } by {
            let p = config.pairs_before(h) + s;
            if h < h0 {
                assert(front[p] == task_at(config, h, s));
                assert(whole[p] == front[p]);
            } else {
                assert(whole[p] == tail[s]);
            }
        }
    }
}

/// The plan of a round holds a task for each configured pair of host and
/// service and for nothing else, in configured order; task `s` of host `h`
/// stands behind the tasks of all hosts before `h` and the first `s` of `h`.
pub proof fn lemma_round_plan(config: Config)
    ensures
        round_plan(config).len() == config.pair_count(),
        forall|p: int|
            0 <= p < round_plan(config).len() ==> {
                let task = #[trigger] round_plan(config)[p];
                &&& configured_pair(config, task.host_index, task.service_index)
                &&& task == task_at(config, task.host_index, task.service_index)
            },
        forall|h: int, s: int| #[trigger]
            configured_pair(config, h, s) ==> {
                let p = config.pairs_before(h) + s;
                &&& 0 <= p < round_plan(config).len()
                &&& round_plan(config)[p] == task_at(config, h, s)
            },
{
    lemma_plan_before(config, config.hosts@.len() as int);
}

/// The slot of service `s` of host `h`.
pub open spec fn pair_slot(config: Config, h: int, s: int) -> StatusKey {
    slot_of(config.hosts@[h], config.hosts@[h].services@[s])
}

/// Whether `k` is the slot of a configured pair of host and service.
pub open spec fn configured_slot(config: Config, k: StatusKey) -> bool {
    exists|h: int, s: int| #[trigger] configured_pair(config, h, s) && k == pair_slot(config, h, s)
}

/// Whether the plan of a round has a task whose result fills slot `k`.
pub open spec fn planned(config: Config, k: StatusKey) -> bool {
    exists|p: int|
        0 <= p < round_plan(config).len() && task_slot(config, #[trigger] round_plan(config)[p]) == k
}

/// Whether one of `results` fills slot `k`.
pub open spec fn reported(results: Seq<CheckResult>, k: StatusKey) -> bool {
    exists|i: int| 0 <= i < results.len() && (#[trigger] results[i]).key() == k
}

/// A round plans a probe for the slot of each configured pair, and for no
/// other slot.
pub proof fn lemma_planned_slots(config: Config, k: StatusKey)
    ensures
        planned(config, k) <==> configured_slot(config, k),
{
    let plan = round_plan(config);
    lemma_round_plan(config);
    if planned(config, k) {
        let p = choose|p: int| 0 <= p < plan.len() && task_slot(config, #[trigger] plan[p]) == k;
        let task = plan[p];
        assert(configured_pair(config, task.host_index, task.service_index));
        assert(k == pair_slot(config, task.host_index, task.service_index));
    }
    if configured_slot(config, k) {
        let (h, s) = choose|h: int, s: int| #[trigger] configured_pair(config, h, s) && k == pair_slot(config, h, s);
        let p = config.pairs_before(h) + s;
        assert(plan[p] == task_at(config, h, s));
        assert(task_slot(config, plan[p]) == k);
    }
}

proof fn lemma_filed(before: Map<StatusKey, CheckResult>, results: Seq<CheckResult>, k: StatusKey)
    ensures
        filed(before, results).contains_key(k) <==> before.contains_key(k) || reported(results, k),
        reported(results, k) ==> filed(before, results)[k].key() == k,
        !reported(results, k) ==> filed(before, results)[k] == before[k],
    decreases results.len(),
{
    if results.len() > 0 {
        let front = results.drop_last();
        let x = results.last();
        lemma_filed(before, front, k);
        if reported(front, k) {
            let i = choose|i: int| 0 <= i < front.len() && (#[trigger] front[i]).key() == k;
            assert(results[i].key() == k);
        }
        if x.key() == k {
            assert(results[results.len() - 1].key() == k);
        } else if reported(results, k) {
            let i = choose|i: int| 0 <= i < results.len() && (#[trigger] results[i]).key() == k;
            assert(front[i].key() == k);
        }
    }
}

/// After a round in which each planned probe has reported, in whatever
/// order, and nothing else has, the store holds a result for each configured
/// pair of host and service, filed under the pair's own slot, and one only:
/// a slot holds one result. Every other slot holds what it held before the
/// round.
pub proof fn lemma_round_fills_every_slot(
    config: Config,
    before: Map<StatusKey, CheckResult>,
    results: Seq<CheckResult>,
)
    requires
        forall|k: StatusKey| #[trigger] planned(config, k) <==> #[trigger] reported(results, k),
    ensures
        forall|h: int, s: int| #[trigger]
            configured_pair(config, h, s) ==> filed(before, results).contains_key(pair_slot(config, h, s))
                && filed(before, results)[pair_slot(config, h, s)].key() == pair_slot(config, h, s),
        forall|k: StatusKey| #[trigger]
            filed(before, results).contains_key(k) <==> before.contains_key(k) || configured_slot(config, k),
        forall|k: StatusKey|
            !configured_slot(config, k) ==> #[trigger] filed(before, results)[k] == before[k],
{
    assert forall|k: StatusKey|
        {
            &&& #[trigger] filed(before, results).contains_key(k) <==> before.contains_key(k) || configured_slot(
                config,
                k,
            )
            &&& configured_slot(config, k) ==> filed(before, results)[k].key() == k
            &&& !configured_slot(config, k) ==> filed(before, results)[k] == before[k]
        } by {
        lemma_planned_slots(config, k);
        lemma_filed(before, results, k);
        assert(planned(config, k) <==> reported(results, k));
    }
    assert forall|h: int, s: int| #[trigger] configured_pair(config, h, s) implies filed(
        before,
        results,
    ).contains_key(pair_slot(config, h, s)) && filed(before, results)[pair_slot(config, h, s)].key()
        == pair_slot(config, h, s) by {
        let k = pair_slot(config, h, s);
        assert(configured_slot(config, k));
        assert(filed(before, results).contains_key(k));
    }
    assert forall|k: StatusKey| !configured_slot(config, k) implies #[trigger] filed(before, results)[k]
        == before[k] by {
        lemma_planned_slots(config, k);
        lemma_filed(before, results, k);
        assert(planned(config, k) <==> reported(results, k));
    }
}

} // verus!
