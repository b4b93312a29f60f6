//! Check results and the engine that produces them.

use crate::clock::{utc_now, Elapsed, Timestamp};
use crate::config::{Config, Host, Protocol, Service};
use crate::probe::{probe_for, probe_result, verdict, Outcome, ProbeOutcome};
use crate::round::{host_plan, plan_before, round_plan, slot_of, task_at, task_views, ProbeTask, TaskPlan};
use crate::store::StatusStore;
use crate::text::{
    lemma_text_lt_asymmetric, lemma_text_lt_connected, lemma_text_lt_irreflexive, lemma_text_lt_transitive,
    opt_text, str_lt, text_lt,
};
use vstd::prelude::*;
use vstd::string::StringExecFns;

verus! {

/// What the latest probe of a service found.
#[derive(Debug, Clone, Copy, PartialEq, Eq, Structural)]
pub enum ServiceStatus {
    Up,
    Down,
    Unknown,
}

impl ServiceStatus {
    /// The status as shown to the operator.
    pub open spec fn label(self) -> Seq<char> {
        match self {
            ServiceStatus::Up => "🟢 UP"@,
            ServiceStatus::Down => "🔴 DOWN"@,
            ServiceStatus::Unknown => "🟡 UNKNOWN"@,
        }
    }

    /// The status as shown to the operator.
    pub fn to_string(&self) -> (r: String)
        ensures
            r@ == self.label(),
    {
        match self {
            ServiceStatus::Up => String::from_str("🟢 UP"),
            ServiceStatus::Down => String::from_str("🔴 DOWN"),
            ServiceStatus::Unknown => String::from_str("🟡 UNKNOWN"),
        }
    }
}

/// The slot of a check result: host name, service name and port.
pub struct StatusKey {
    pub host_name: Seq<char>,
    pub service_name: Seq<char>,
    pub port: u16,
}

/// The order of slots: by host name, then by service name, then by port.
pub open spec fn key_lt(a: StatusKey, b: StatusKey) -> bool {
    if a.host_name != b.host_name {
        text_lt(a.host_name, b.host_name)
    } else if a.service_name != b.service_name {
        text_lt(a.service_name, b.service_name)
    } else {
        a.port < b.port
    }
}

/// `a` is `b` or comes before it.
pub open spec fn key_le(a: StatusKey, b: StatusKey) -> bool {
    a == b || key_lt(a, b)
}

/// No slot comes before itself.
pub proof fn lemma_key_lt_irreflexive(a: StatusKey)
    ensures
        !key_lt(a, a),
{
}

/// Of two slots at most one comes before the other.
pub proof fn lemma_key_lt_asymmetric(a: StatusKey, b: StatusKey)
    requires
        key_lt(a, b),
    ensures
        !key_lt(b, a),
{
    if a.host_name != b.host_name {
        lemma_text_lt_asymmetric(a.host_name, b.host_name);
    } else if a.service_name != b.service_name {
        lemma_text_lt_asymmetric(a.service_name, b.service_name);
    }
}

/// The order of slots is transitive.
pub proof fn lemma_key_lt_transitive(a: StatusKey, b: StatusKey, c: StatusKey)
    requires
        key_lt(a, b),
        key_lt(b, c),
    ensures
        key_lt(a, c),
{
    if a.host_name != b.host_name {
        if b.host_name != c.host_name {
            lemma_text_lt_transitive(a.host_name, b.host_name, c.host_name);
            lemma_text_lt_irreflexive(a.host_name);
        }
    } else if b.host_name == c.host_name {
        if a.service_name != b.service_name {
            if b.service_name != c.service_name {
                lemma_text_lt_transitive(a.service_name, b.service_name, c.service_name);
                lemma_text_lt_irreflexive(a.service_name);
            }
        }
    }
}

/// Two different slots are always ordered one way or the other.
pub proof fn lemma_key_lt_connected(a: StatusKey, b: StatusKey)
    requires
        a != b,
    ensures
        key_lt(a, b) || key_lt(b, a),
{
    if a.host_name != b.host_name {
        lemma_text_lt_connected(a.host_name, b.host_name);
    } else if a.service_name != b.service_name {
        lemma_text_lt_connected(a.service_name, b.service_name);
    }
}

/// The latest result of probing one service, as plain values.
pub struct CheckResult {
    pub host_name: Seq<char>,
    pub service_name: Seq<char>,
    pub address: Seq<char>,
    pub port: u16,
    pub protocol: Protocol,
    pub status: ServiceStatus,
    pub last_check: Timestamp,
    pub response_time: Elapsed,
    pub error_message: Option<Seq<char>>,
}

impl CheckResult {
    /// The slot that this result fills.
    pub open spec fn key(self) -> StatusKey {
        StatusKey { host_name: self.host_name, service_name: self.service_name, port: self.port }
    }
}

/// The latest result of probing one service.
#[derive(Debug, PartialEq, Eq)]
pub struct ServiceCheck {
    pub host_name: String,
    pub service_name: String,
    pub address: String,
    pub port: u16,
    pub protocol: Protocol,
    pub status: ServiceStatus,
    pub last_check: Timestamp,
    pub response_time: Elapsed,
    pub error_message: Option<String>,
}

impl View for ServiceCheck {
    type V = CheckResult;

    open spec fn view(&self) -> CheckResult {
        CheckResult {
            host_name: self.host_name@,
            service_name: self.service_name@,
            address: self.address@,
            port: self.port,
            protocol: self.protocol,
            status: self.status,
            last_check: self.last_check,
            response_time: self.response_time,
            error_message: opt_text(self.error_message),
        }
    }
}

impl Clone for ServiceCheck {
    fn clone(&self) -> (r: Self)
        ensures
            r@ == self@,
    {
        ServiceCheck {
            host_name: self.host_name.clone(),
            service_name: self.service_name.clone(),
            address: self.address.clone(),
            port: self.port,
            protocol: self.protocol,
            status: self.status,
            last_check: self.last_check,
            response_time: self.response_time,
            error_message: match &self.error_message {
                Some(m) => Some(m.clone()),
                None => None,
            },
        }
    }
}

impl ServiceCheck {
    /// The result that stands for a service before any probe of it has
    /// finished: status unknown, no response time, no message.
    pub open spec fn initial(host: &Host, service: &Service, now: Timestamp) -> CheckResult {
        CheckResult {
            host_name: host.name@,
            service_name: service.name@,
            address: host.address@,
            port: service.port,
            protocol: service.protocol,
            status: ServiceStatus::Unknown,
            last_check: now,
            response_time: Elapsed { nanos: 0 },
            error_message: None,
        }
    }

    /// A fresh result for `service` on `host`, stamped with the current time.
    pub fn new(host: &Host, service: &Service) -> (r: Self)
        ensures
            r@ == Self::initial(host, service, r@.last_check),
    {
        Self::new_at(host, service, utc_now())
    }

    /// A fresh result for `service` on `host`, stamped `now`.
    pub fn new_at(host: &Host, service: &Service, now: Timestamp) -> (r: Self)
        ensures
            r@ == Self::initial(host, service, now),
    {
        ServiceCheck {
            host_name: host.name.clone(),
            service_name: service.name.clone(),
            address: host.address.clone(),
            port: service.port,
            protocol: service.protocol,
            status: ServiceStatus::Unknown,
            last_check: now,
            response_time: Elapsed::from_secs(0),
            error_message: None,
        }
    }

    /// Whether this result's slot comes before that of `other`.
    pub fn key_before(&self, other: &ServiceCheck) -> (r: bool)
        ensures
            r == key_lt(self@.key(), other@.key()),
    {
        if !(self.host_name == other.host_name) {
            str_lt(self.host_name.as_str(), other.host_name.as_str())
        } else if !(self.service_name == other.service_name) {
            str_lt(self.service_name.as_str(), other.service_name.as_str())
        } else {
            self.port < other.port
        }
    }

    /// Whether this result and `other` fill the same slot.
    pub fn same_key(&self, other: &ServiceCheck) -> (r: bool)
        ensures
            r == (self@.key() == other@.key()),
    {
        self.host_name == other.host_name && self.service_name == other.service_name
            && self.port == other.port
    }
}

/// Where the engine stands in its cycle of rounds.
#[derive(Debug, Clone, Copy, PartialEq, Eq, Structural)]
pub enum EnginePhase {
    /// Not started.
    Stopped,
    /// A round is in flight: `outstanding` of its probes have not finished.
    /// `again` says that a round was asked for meanwhile, which begins as
    /// soon as this one is complete.
    Running { outstanding: usize, again: bool },
    /// Between two rounds.
    Waiting,
}

/// What the engine asks of the loop that drives it.
#[derive(Debug, PartialEq, Eq)]
pub enum EngineAction {
    /// Carry out these probes side by side, and report each as it ends.
    Dispatch(Vec<ProbeTask>),
    /// The round is complete: wait for the next tick of the timer.
    AwaitTick,
    /// Nothing to do.
    Nothing,
}

/// An action as plain values.
pub enum Action {
    Dispatch(Seq<TaskPlan>),
    AwaitTick,
    Nothing,
}

impl View for EngineAction {
    type V = Action;

    open spec fn view(&self) -> Action {
        match self {
            EngineAction::Dispatch(tasks) => Action::Dispatch(task_views(tasks@)),
            EngineAction::AwaitTick => Action::AwaitTick,
            EngineAction::Nothing => Action::Nothing,
        }
    }
}

/// How a round with the tasks `plan` begins: its probes are dispatched; a
/// round without probes is complete at once.
pub open spec fn begin_round(plan: Seq<TaskPlan>) -> (EnginePhase, Action) {
    if plan.len() > 0 {
        (EnginePhase::Running { outstanding: plan.len() as usize, again: false }, Action::Dispatch(plan))
    } else {
        (EnginePhase::Waiting, Action::AwaitTick)
    }
}

/// The engine starts: the first round begins at once. An engine that was
/// started stays as it is.
pub open spec fn started(phase: EnginePhase, plan: Seq<TaskPlan>) -> (EnginePhase, Action) {
    match phase {
        EnginePhase::Stopped => begin_round(plan),
        _ => (phase, Action::Nothing),
    }
}

/// A round is asked for, by the timer or by the operator. Between rounds it
/// begins at once. While a round is in flight the request is noted, and a
/// round begins for it as soon as that round is complete: rounds never
/// overlap, and no request goes unanswered.
pub open spec fn round_requested(phase: EnginePhase, plan: Seq<TaskPlan>) -> (EnginePhase, Action) {
    match phase {
        EnginePhase::Stopped => (phase, Action::Nothing),
        EnginePhase::Running { outstanding, again } => (
            EnginePhase::Running { outstanding, again: true },
            Action::Nothing,
        ),
        EnginePhase::Waiting => begin_round(plan),
    }
}

/// One probe of the round in flight has ended. With the last of them the
/// round is complete, and the next begins at once if one was asked for.
pub open spec fn probe_ended(phase: EnginePhase, plan: Seq<TaskPlan>) -> (EnginePhase, Action) {
    match phase {
        EnginePhase::Running { outstanding, again } => if outstanding > 1 {
            (EnginePhase::Running { outstanding: (outstanding - 1) as usize, again }, Action::Nothing)
        } else if again {
            begin_round(plan)
        } else {
            (EnginePhase::Waiting, Action::AwaitTick)
        },
        _ => (phase, Action::Nothing),
    }
}

/// No more probes are outstanding than one round has.
pub open spec fn within_round(phase: EnginePhase, plan: Seq<TaskPlan>) -> bool {
    phase matches EnginePhase::Running { outstanding, .. } ==> 1 <= outstanding <= plan.len()
}

/// Whether a round is in flight with another noted to follow it.
pub open spec fn noted(phase: EnginePhase) -> bool {
    phase matches EnginePhase::Running { again, .. } && again
}

/// Whether a round has probes outstanding.
pub open spec fn in_flight(phase: EnginePhase) -> bool {
    phase matches EnginePhase::Running { outstanding, .. } && outstanding > 0
}

/// Whatever happens, no more probes stay outstanding than one round has.
pub proof fn lemma_outstanding_within_round(phase: EnginePhase, plan: Seq<TaskPlan>)
    requires
        within_round(phase, plan),
        plan.len() <= usize::MAX,
    ensures
        within_round(started(phase, plan).0, plan),
        within_round(round_requested(phase, plan).0, plan),
        within_round(probe_ended(phase, plan).0, plan),
{
}

/// Rounds do not overlap: probes are dispatched only when none of an
/// earlier round is outstanding any more.
pub proof fn lemma_rounds_do_not_overlap(phase: EnginePhase, plan: Seq<TaskPlan>)
    ensures
        started(phase, plan).1 is Dispatch ==> !in_flight(phase),
        round_requested(phase, plan).1 is Dispatch ==> !in_flight(phase),
        probe_ended(phase, plan).1 is Dispatch ==> phase == (EnginePhase::Running { outstanding: 1, again: true })
            || phase == (EnginePhase::Running { outstanding: 0, again: true }),
{
}

/// A round that was asked for is not dropped: it begins at once, or it is
/// noted and begins with the end of the round in flight.
pub proof fn lemma_requested_round_is_kept(phase: EnginePhase, plan: Seq<TaskPlan>)
    requires
        !(phase is Stopped),
        plan.len() > 0,
    ensures
        round_requested(phase, plan).1 is Dispatch || noted(round_requested(phase, plan).0),
        forall|outstanding: usize|
            outstanding <= 1 ==> (#[trigger] probe_ended(
                EnginePhase::Running { outstanding, again: true },
                plan,
            )).1 is Dispatch,
{
}

/// The engine that keeps the store current: it plans the rounds of probes,
/// files their results, and says when the next round is due.
#[derive(Debug)]
pub struct MonitorEngine {
    config: Config,
    statuses: StatusStore,
    phase: EnginePhase,
}

impl MonitorEngine {
    /// The configuration that the engine works from.
    pub closed spec fn configured(&self) -> Config {
        self.config
    }

    /// The stored results.
    pub closed spec fn stored(&self) -> Map<StatusKey, CheckResult> {
        self.statuses@
    }

    /// Where the engine stands in its cycle.
    pub closed spec fn phase(&self) -> EnginePhase {
        self.phase
    }

    /// The result of a finished probe of `service` on `host`.
    pub open spec fn completed(
        host: Host,
        service: Service,
        outcome: Outcome,
        response_time: Elapsed,
        now: Timestamp,
    ) -> CheckResult {
        CheckResult {
            status: verdict(service.protocol, outcome).0,
            error_message: verdict(service.protocol, outcome).1,
            response_time,
            ..ServiceCheck::initial(&host, &service, now)
        }
    }

    /// An engine for `config`: nothing stored, not started.
    pub fn new(config: Config) -> (r: Self)
        ensures
            r.configured() == config,
            r.stored() == Map::<StatusKey, CheckResult>::empty(),
            r.phase() == EnginePhase::Stopped,
    {
        MonitorEngine { config, statuses: StatusStore::new(), phase: EnginePhase::Stopped }
    }

    /// The configuration that the engine works from.
    pub fn config(&self) -> (r: &Config)
        ensures
            *r == self.configured(),
    {
        &self.config
    }

    /// Where the engine stands in its cycle.
    pub fn current_phase(&self) -> (r: EnginePhase)
        ensures
            r == self.phase(),
    {
        self.phase
    }

    /// The time between two ticks of the timer that asks for rounds.
    pub fn refresh_period(&self) -> (r: Elapsed)
        ensures
            r.nanos == self.configured().settings.refresh_interval * 1_000_000_000,
    {
        Elapsed::from_secs(self.config.settings.refresh_interval)
    }

    /// The plan of a round: one probe for each configured pair of host and
    /// service, host after host, each host's services in configured order.
    pub fn check_all_services(&self) -> (r: Vec<ProbeTask>)
        ensures
            task_views(r@) == round_plan(self.configured()),
    {
        let mut tasks: Vec<ProbeTask> = Vec::new();
        let hosts = self.config.hosts.len();
        let mut h: usize = 0;
        assert(task_views(tasks@) =~= plan_before(self.config, 0));
        while h < hosts
            invariant
                h <= hosts,
                hosts == self.config.hosts@.len(),
                task_views(tasks@) == plan_before(self.config, h as int),
            decreases hosts - h,
        {
            let host = &self.config.hosts[h];
            let services = host.services.len();
            let mut s: usize = 0;
            assert(task_views(tasks@) =~= plan_before(self.config, h as int) + host_plan(self.config, h as int, 0));
            while s < services
                invariant
                    s <= services,
                    h < hosts,
                    hosts == self.config.hosts@.len(),
                    *host == self.config.hosts@[h as int],
                    services == host.services@.len(),
                    task_views(tasks@) == plan_before(self.config, h as int) + host_plan(
                        self.config,
                        h as int,
                        s as int,
                    ),
                decreases services - s,
            {
                let ghost had = task_views(tasks@);
                let task = ProbeTask {
                    host_index: h,
                    service_index: s,
                    request: probe_for(host, &host.services[s]),
                };
                assert(task@ == task_at(self.config, h as int, s as int));
                tasks.push(task);
                assert(task_views(tasks@) =~= had.push(task_at(self.config, h as int, s as int)));
                s += 1;
            }
            h += 1;
        }
        tasks
    }

    fn begin(&mut self) -> (r: EngineAction)
        ensures
            (final(self).phase(), r@) == begin_round(round_plan(old(self).configured())),
            final(self).configured() == old(self).configured(),
            final(self).stored() == old(self).stored(),
    {
        let tasks = self.check_all_services();
        if tasks.len() > 0 {
            self.phase = EnginePhase::Running { outstanding: tasks.len(), again: false };
            EngineAction::Dispatch(tasks)
        } else {
            self.phase = EnginePhase::Waiting;
            EngineAction::AwaitTick
        }
    }

    /// Starts the engine: the first round begins at once.
    pub fn start(&mut self) -> (r: EngineAction)
        ensures
            (final(self).phase(), r@) == started(old(self).phase(), round_plan(old(self).configured())),
            final(self).configured() == old(self).configured(),
            final(self).stored() == old(self).stored(),
    {
        match self.phase {
            EnginePhase::Stopped => self.begin(),
            _ => EngineAction::Nothing,
        }
    }

    /// Asks for a round, as the timer does with each tick and the operator
    /// with a manual refresh.
    pub fn request_round(&mut self) -> (r: EngineAction)
        ensures
            (final(self).phase(), r@) == round_requested(
                old(self).phase(),
                round_plan(old(self).configured()),
            ),
            final(self).configured() == old(self).configured(),
            final(self).stored() == old(self).stored(),
    {
        match self.phase {
            EnginePhase::Stopped => EngineAction::Nothing,
            EnginePhase::Running { outstanding, again } => {
                self.phase = EnginePhase::Running { outstanding, again: true };
                EngineAction::Nothing
            },
            EnginePhase::Waiting => self.begin(),
        }
    }

    fn probe_done(&mut self) -> (r: EngineAction)
        ensures
            (final(self).phase(), r@) == probe_ended(old(self).phase(), round_plan(old(self).configured())),
            final(self).configured() == old(self).configured(),
            final(self).stored() == old(self).stored(),
    {
        match self.phase {
            EnginePhase::Running { outstanding, again } => {
                if outstanding > 1 {
                    self.phase = EnginePhase::Running { outstanding: outstanding - 1, again };
                    EngineAction::Nothing
                } else if again {
                    self.begin()
                } else {
                    self.phase = EnginePhase::Waiting;
                    EngineAction::AwaitTick
                }
            },
            _ => EngineAction::Nothing,
        }
    }

    /// The result of a finished probe of `service` on `host`: the status
    /// and message that `outcome` stands for, the time the probe took, and
    /// the time `now` at which it ended.
    pub fn completed_check(
        host: &Host,
        service: &Service,
        outcome: ProbeOutcome,
        response_time: Elapsed,
        now: Timestamp,
    ) -> (r: ServiceCheck)
        ensures
            r@ == Self::completed(*host, *service, outcome@, response_time, now),
    {
        let mut check = ServiceCheck::new_at(host, service, now);
        let result = probe_result(service.protocol, outcome);
        check.status = result.0;
        check.error_message = result.1;
        check.response_time = response_time;
        check
    }

    /// Files the result of a finished probe of `service` on `host`, stamped
    /// with the current time, in place of what its slot held, and counts the
    /// probe as ended.
    pub fn check_service(
        &mut self,
        host: &Host,
        service: &Service,
        outcome: ProbeOutcome,
        response_time: Elapsed,
    ) -> (r: EngineAction)
        ensures
            final(self).stored().contains_key(slot_of(*host, *service)),
            final(self).stored() == old(self).stored().insert(
                slot_of(*host, *service),
                Self::completed(
                    *host,
                    *service,
                    outcome@,
                    response_time,
                    final(self).stored()[slot_of(*host, *service)].last_check,
                ),
            ),
            (final(self).phase(), r@) == probe_ended(old(self).phase(), round_plan(old(self).configured())),
            final(self).configured() == old(self).configured(),
    {
        let now = utc_now();
        self.check_service_at(host, service, outcome, response_time, now)
    }

    /// Files the result of a finished probe of `service` on `host`, stamped
    /// `now`, in place of what its slot held, and counts the probe as ended.
    pub fn check_service_at(
        &mut self,
        host: &Host,
        service: &Service,
        outcome: ProbeOutcome,
        response_time: Elapsed,
        now: Timestamp,
    ) -> (r: EngineAction)
        ensures
            final(self).stored() == old(self).stored().insert(
                slot_of(*host, *service),
                Self::completed(*host, *service, outcome@, response_time, now),
            ),
            (final(self).phase(), r@) == probe_ended(old(self).phase(), round_plan(old(self).configured())),
            final(self).configured() == old(self).configured(),
    {
        let check = Self::completed_check(host, service, outcome, response_time, now);
        self.statuses.insert(check);
        self.probe_done()
    }

    /// Counts a probe as ended whose task broke down before it could report:
    /// nothing is filed for it, and the round goes on.
    pub fn task_fault(&mut self) -> (r: EngineAction)
        ensures
            (final(self).phase(), r@) == probe_ended(old(self).phase(), round_plan(old(self).configured())),
            final(self).configured() == old(self).configured(),
            final(self).stored() == old(self).stored(),
    {
        self.probe_done()
    }

    /// A copy of the store as it is now.
    pub fn get_statuses(&self) -> (r: StatusStore)
        ensures
            r@ == self.stored(),
    {
        self.statuses.clone()
    }
}

} // verus!
