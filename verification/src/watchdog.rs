use vstd::prelude::*;

use crate::module::{ModuleSpec, ModuleState};

verus! {

/// Everything one watchdog instance is configured with: the id of the module
/// it supervises, the spec the module is (re)created from, how long to wait
/// between polls, and how many consecutive failures it tolerates before it
/// gives up (`None`: it retries forever).
#[derive(Clone, Debug)]
pub struct WatchdogConfig {
    pub module_id: String,
    pub spec: ModuleSpec,
    pub poll_interval_ms: u64,
    pub max_failures: Option<usize>,
}

impl WatchdogConfig {
    pub open spec fn wf(self) -> bool {
        self.module_id@.len() > 0 && self.spec.wf()
    }
}

/// What the watchdog's environment delivered while the loop waited: either
/// the shutdown signal resolved, or the poll interval elapsed first and the
/// iteration ran against the runtime with the outcomes recorded here.
#[derive(Clone, Debug)]
pub enum WatchdogEvent {
    /// The one-shot shutdown signal resolved before the poll interval elapsed.
    Shutdown,
    /// The poll interval elapsed; the iteration's calls saw these outcomes.
    Poll(PollOutcome),
}

/// The outcomes the runtime and the identity provider would report during one
/// reconciliation iteration. Only the calls the iteration actually issues are
/// read; the rest are ignored.
#[derive(Clone, Debug)]
pub struct PollOutcome {
    /// The state the runtime reported for the supervised module, or `None`
    /// when the state query itself failed (a transient error).
    pub observed: Option<ModuleState>,
    /// Whether obtaining or refreshing the module's identity succeeded.
    pub identity_ok: bool,
    /// Whether creating the module from its spec succeeded.
    pub create_ok: bool,
    /// Whether starting the module succeeded.
    pub start_ok: bool,
}

/// The effectful calls one reconciliation iteration issued, and whether the
/// iteration counted as a failure.
#[derive(Clone, Copy, Debug, PartialEq, Eq, Structural)]
pub struct IterationCalls {
    /// The identity provider was asked for the module's identity.
    pub identity: bool,
    /// The runtime was asked to create the module from its spec.
    pub created: bool,
    /// The runtime was asked to start the module.
    pub started: bool,
    /// Some call this iteration needed failed; counted toward the limit.
    pub failed: bool,
}

/// How a watchdog run ended.
#[derive(Clone, Copy, Debug, PartialEq, Eq, Structural)]
pub enum RunOutcome {
    /// The shutdown signal was observed; the loop exited cleanly without
    /// issuing any further runtime call.
    ShutdownObserved,
    /// The configured consecutive-failure limit was reached; fatal.
    RetriesExhausted,
    /// The event sequence ended while supervision was still in progress;
    /// a live loop would simply keep polling.
    StillSupervising,
}

/// The result of a watchdog run: how it ended, and the calls each completed
/// iteration issued, in order.
#[derive(Clone, Debug)]
pub struct RunReport {
    pub outcome: RunOutcome,
    pub log: Vec<IterationCalls>,
}

/// What one iteration does, given the outcomes it would see: a running module
/// needs nothing; a missing or failed module is recreated (identity first,
/// then create, then start); a created-but-not-started or stopped module is
/// only started. Any failing call ends the iteration and marks it failed.
pub open spec fn calls_for(o: PollOutcome) -> IterationCalls {
    match o.observed {
        None => IterationCalls { identity: false, created: false, started: false, failed: true },
        Some(st) => {
            if st.is_running() {
                IterationCalls { identity: false, created: false, started: false, failed: false }
            } else if st.needs_create() {
                if !o.identity_ok {
                    IterationCalls { identity: true, created: false, started: false, failed: true }
                } else if !o.create_ok {
                    IterationCalls { identity: true, created: true, started: false, failed: true }
                } else {
                    IterationCalls {
                        identity: true,
                        created: true,
                        started: true,
                        failed: !o.start_ok,
                    }
                }
            } else {
                IterationCalls {
                    identity: false,
                    created: false,
                    started: true,
                    failed: !o.start_ok,
                }
            }
        },
    }
}

/// True when `failures` consecutive failures reach the configured limit.
pub open spec fn limit_reached(max_failures: Option<usize>, failures: nat) -> bool {
    match max_failures {
        Some(m) => failures >= m,
        None => false,
    }
}

/// The meaning of a watchdog run: fold the events in order, starting with
/// `failures` consecutive failures already on the counter. A shutdown event
/// ends the run at once with no further calls; a poll event appends its
/// iteration's calls and either resets or advances the failure counter,
/// ending the run fatally when the counter reaches the limit.
pub open spec fn spec_run(
    max_failures: Option<usize>,
    failures: nat,
    events: Seq<WatchdogEvent>,
) -> (RunOutcome, Seq<IterationCalls>)
    decreases events.len(),
{
    if events.len() == 0 {
        (RunOutcome::StillSupervising, Seq::<IterationCalls>::empty())
    } else {
        match events[0] {
            WatchdogEvent::Shutdown => (
                RunOutcome::ShutdownObserved,
                Seq::<IterationCalls>::empty(),
            ),
            WatchdogEvent::Poll(o) => {
                let calls = calls_for(o);
                let failures2: nat = if calls.failed {
                    failures + 1
                } else {
                    0
                };
                if calls.failed && limit_reached(max_failures, failures2) {
                    (RunOutcome::RetriesExhausted, seq![calls])
                } else {
                    let rest = spec_run(max_failures, failures2, events.drop_first());
                    (rest.0, seq![calls] + rest.1)
                }
            },
        }
    }
}

/// What one iteration sets out to do after the state query, before any
/// outcome is known: the driver of a live loop performs exactly these calls.
#[derive(Clone, Copy, Debug, PartialEq, Eq, Structural)]
pub enum Plan {
    /// The module is running; touch nothing this iteration.
    DoNothing,
    /// Obtain the identity, then create the module from its spec, then
    /// start it.
    CreateAndStart,
    /// The module exists but is not running; only start it.
    StartOnly,
}

/// The plan a reported state calls for.
pub open spec fn spec_plan(state: ModuleState) -> Plan {
    if state.is_running() {
        Plan::DoNothing
    } else if state.needs_create() {
        Plan::CreateAndStart
    } else {
        Plan::StartOnly
    }
}

/// Decide what one iteration does with the state the runtime reported.
pub fn plan_for(state: &ModuleState) -> (p: Plan)
    ensures
        p == spec_plan(*state),
{
    match state {
        ModuleState::Running => Plan::DoNothing,
        ModuleState::NotFound | ModuleState::Failed(_) => Plan::CreateAndStart,
        ModuleState::Created | ModuleState::Stopped => Plan::StartOnly,
    }
}

/// The calls one reconciliation iteration issues for the given outcomes.
pub fn iteration_calls(o: &PollOutcome) -> (c: IterationCalls)
    ensures
        c == calls_for(*o),
{
    match &o.observed {
        None => IterationCalls { identity: false, created: false, started: false, failed: true },
        Some(st) => match st {
            ModuleState::Running => IterationCalls {
                identity: false,
                created: false,
                started: false,
                failed: false,
            },
            ModuleState::NotFound | ModuleState::Failed(_) => {
                if !o.identity_ok {
                    IterationCalls { identity: true, created: false, started: false, failed: true }
                } else if !o.create_ok {
                    IterationCalls { identity: true, created: true, started: false, failed: true }
                } else {
                    IterationCalls {
                        identity: true,
                        created: true,
                        started: true,
                        failed: !o.start_ok,
                    }
                }
            },
            ModuleState::Created | ModuleState::Stopped => IterationCalls {
                identity: false,
                created: false,
                started: true,
                failed: !o.start_ok,
            },
        },
    }
}

/// The supervisory component: it is configured once and then drives the
/// reconciliation loop for one module until shutdown or a fatal error.
#[derive(Clone, Debug)]
pub struct Watchdog {
    pub poll_interval_ms: u64,
    pub max_failures: Option<usize>,
}

impl Watchdog {
    /// A watchdog that polls at the given interval and gives up after
    /// `max_failures` consecutive failures (`None`: retries forever).
    pub fn new(poll_interval_ms: u64, max_failures: Option<usize>) -> (w: Watchdog)
        ensures
            w.poll_interval_ms == poll_interval_ms,
            w.max_failures == max_failures,
    {
        Watchdog { poll_interval_ms, max_failures }
    }

    /// Run the reconciliation loop for the module `module_id`, (re)creating it
    /// from `spec`, over the given sequence of environment events. The report
    /// is exactly the fold `spec_run` describes: the loop exits cleanly at the
    /// first shutdown event without issuing further calls, exits fatally when
    /// consecutive failures reach the configured limit, and otherwise keeps
    /// reconciling until the events end.
    pub fn run_until(self, spec: ModuleSpec, module_id: &str, events: &Vec<WatchdogEvent>) -> (r:
        RunReport)
        requires
            spec.wf(),
            module_id@.len() > 0,
        ensures
            r.outcome == spec_run(self.max_failures, 0, events@).0,
            r.log@ == spec_run(self.max_failures, 0, events@).1,
    {
        let mut log: Vec<IterationCalls> = Vec::new();
        let mut failures: usize = 0;
        let mut i: usize = 0;
        let mut outcome: Option<RunOutcome> = None;
        assert(events@.skip(0) =~= events@);
        assert(log@ + spec_run(self.max_failures, 0, events@).1 =~= spec_run(
            self.max_failures,
            0,
            events@,
        ).1);
        while i < events.len() && outcome.is_none()
            invariant
                i <= events.len(),
                failures <= i,
                match outcome {
                    None => {
                        &&& spec_run(self.max_failures, 0, events@).0 == spec_run(
                            self.max_failures,
                            failures as nat,
                            events@.skip(i as int),
                        ).0
                        &&& spec_run(self.max_failures, 0, events@).1 == log@ + spec_run(
                            self.max_failures,
                            failures as nat,
                            events@.skip(i as int),
                        ).1
                    },
                    Some(oc) => {
                        &&& spec_run(self.max_failures, 0, events@).0 == oc
                        &&& spec_run(self.max_failures, 0, events@).1 == log@
                    },
                },
            decreases events.len() - i,
        {
            let ghost rest = events@.skip(i as int);
            assert(rest.len() > 0);
            assert(rest[0] == events@[i as int]);
            assert(rest.drop_first() =~= events@.skip(i as int + 1));
            match &events[i] {
                WatchdogEvent::Shutdown => {
                    outcome = Some(RunOutcome::ShutdownObserved);
                    assert(log@ + spec_run(self.max_failures, failures as nat, rest).1 =~= log@);
                },
                WatchdogEvent::Poll(o) => {
                    let calls = iteration_calls(o);
                    if calls.failed {
                        failures = failures + 1;
                    } else {
                        failures = 0;
                    }
                    let is_fatal = calls.failed && (match self.max_failures {
                        Some(m) => failures >= m,
                        None => false,
                    });
                    log.push(calls);
                    if is_fatal {
                        outcome = Some(RunOutcome::RetriesExhausted);
                        assert(log@.drop_last() + seq![calls] =~= log@);
                    } else {
                        assert(log@.drop_last() + (seq![calls] + spec_run(
                            self.max_failures,
                            failures as nat,
                            rest.drop_first(),
                        ).1) =~= log@ + spec_run(
                            self.max_failures,
                            failures as nat,
                            events@.skip(i as int + 1),
                        ).1);
                    }
                },
            }
            i = i + 1;
        }
        match outcome {
            Some(oc) => RunReport { outcome: oc, log },
            None => {
                assert(events@.skip(i as int) =~= Seq::<WatchdogEvent>::empty());
                assert(log@ + Seq::<IterationCalls>::empty() =~= log@);
                RunReport { outcome: RunOutcome::StillSupervising, log }
            },
        }
    }
}

/// How many of the logged iterations issued a create call.
pub open spec fn creates_in(log: Seq<IterationCalls>) -> nat
    decreases log.len(),
{
    if log.len() == 0 {
        0
    } else {
        (if log[0].created {
            1nat
        } else {
            0nat
        }) + creates_in(log.drop_first())
    }
}

/// How many of the logged iterations issued a start call.
pub open spec fn starts_in(log: Seq<IterationCalls>) -> nat
    decreases log.len(),
{
    if log.len() == 0 {
        0
    } else {
        (if log[0].started {
            1nat
        } else {
            0nat
        }) + starts_in(log.drop_first())
    }
}

/// A run never logs more iterations than there are events.
pub proof fn lemma_log_len(max_failures: Option<usize>, failures: nat, events: Seq<WatchdogEvent>)
    ensures
        spec_run(max_failures, failures, events).1.len() <= events.len(),
    decreases events.len(),
{
    if events.len() > 0 {
        match events[0] {
            WatchdogEvent::Shutdown => {},
            WatchdogEvent::Poll(o) => {
                let calls = calls_for(o);
                let failures2: nat = if calls.failed {
                    failures + 1
                } else {
                    0
                };
                if !(calls.failed && limit_reached(max_failures, failures2)) {
                    lemma_log_len(max_failures, failures2, events.drop_first());
                }
            },
        }
    }
}

/// Law: when the runtime reports `Running` on every poll, the watchdog issues
/// no identity, create or start call, and never exits fatally: supervision is
/// a pure no-op until shutdown.
pub proof fn lemma_running_is_noop(
    max_failures: Option<usize>,
    failures: nat,
    events: Seq<WatchdogEvent>,
)
    requires
        forall|i: int|
            0 <= i < events.len() ==> ((#[trigger] events[i]) matches WatchdogEvent::Poll(o)
                ==> o.observed == Some(ModuleState::Running)),
    ensures
        !(spec_run(max_failures, failures, events).0 is RetriesExhausted),
        creates_in(spec_run(max_failures, failures, events).1) == 0,
        starts_in(spec_run(max_failures, failures, events).1) == 0,
    decreases events.len(),
{
    if events.len() > 0 {
        match events[0] {
            WatchdogEvent::Shutdown => {},
            WatchdogEvent::Poll(o) => {
                let calls = calls_for(o);
                assert(!calls.failed && !calls.created && !calls.started);
                lemma_running_is_noop(max_failures, 0, events.drop_first());
                let rest = spec_run(max_failures, 0, events.drop_first());
                assert((seq![calls] + rest.1).drop_first() =~= rest.1);
            },
        }
    }
}

/// Law: when the first poll reports the module missing, its one create and
/// start succeed, and every later poll reports `Running`, the watchdog issues
/// exactly one create and exactly one start over the whole run.
pub proof fn lemma_recreate_once(
    max_failures: Option<usize>,
    failures: nat,
    events: Seq<WatchdogEvent>,
)
    requires
        events.len() >= 1,
        events[0] matches WatchdogEvent::Poll(o) && o.observed == Some(ModuleState::NotFound)
            && o.identity_ok && o.create_ok && o.start_ok,
        forall|i: int|
            1 <= i < events.len() ==> ((#[trigger] events[i]) matches WatchdogEvent::Poll(o)
                ==> o.observed == Some(ModuleState::Running)),
    ensures
        !(spec_run(max_failures, failures, events).0 is RetriesExhausted),
        creates_in(spec_run(max_failures, failures, events).1) == 1,
        starts_in(spec_run(max_failures, failures, events).1) == 1,
{
    let o = events[0]->Poll_0;
    let calls = calls_for(o);
    assert(calls.created && calls.started && !calls.failed);
    let tail = events.drop_first();
    assert(forall|i: int|
        0 <= i < tail.len() ==> ((#[trigger] tail[i]) matches WatchdogEvent::Poll(o) ==> o.observed
            == Some(ModuleState::Running))) by {
        assert(forall|i: int| 0 <= i < tail.len() ==> tail[i] == events[i + 1]);
    }
    lemma_running_is_noop(max_failures, 0, tail);
    let rest = spec_run(max_failures, 0, tail);
    assert((seq![calls] + rest.1).drop_first() =~= rest.1);
}

/// Law: once the shutdown signal is observed, the loop exits cleanly at that
/// very event and issues no further call: the log is exactly the log of the
/// events before the signal. The premise says only that the run was still in
/// progress when the signal arrived.
pub proof fn lemma_shutdown_stops(
    max_failures: Option<usize>,
    failures: nat,
    events: Seq<WatchdogEvent>,
    k: int,
)
    requires
        0 <= k < events.len(),
        events[k] is Shutdown,
        spec_run(max_failures, failures, events.take(k)).0 is StillSupervising,
    ensures
        spec_run(max_failures, failures, events).0 is ShutdownObserved,
        spec_run(max_failures, failures, events).1 == spec_run(
            max_failures,
            failures,
            events.take(k),
        ).1,
        spec_run(max_failures, failures, events).1.len() <= k,
    decreases k,
{
    lemma_log_len(max_failures, failures, events.take(k));
    if k == 0 {
        assert(events.take(0) =~= Seq::<WatchdogEvent>::empty());
    } else {
        let prefix = events.take(k);
        assert(prefix[0] == events[0]);
        match events[0] {
            WatchdogEvent::Shutdown => {
                assert(false);
            },
            WatchdogEvent::Poll(o) => {
                let calls = calls_for(o);
                let failures2: nat = if calls.failed {
                    failures + 1
                } else {
                    0
                };
                assert(!(calls.failed && limit_reached(max_failures, failures2)));
                let tail = events.drop_first();
                assert(prefix.drop_first() =~= tail.take(k - 1));
                assert(tail[k - 1] == events[k]);
                lemma_shutdown_stops(max_failures, failures2, tail, k - 1);
            },
        }
    }
}

/// Law: with a configured limit of `max_n` consecutive failures and every
/// poll failing, the watchdog exits fatally after exactly the failures still
/// allowed, and not one more: every logged iteration is a failed one.
pub proof fn lemma_failures_exhaust(max_n: usize, failures: nat, events: Seq<WatchdogEvent>)
    requires
        failures < max_n,
        events.len() >= max_n - failures,
        forall|i: int|
            0 <= i < events.len() ==> ((#[trigger] events[i]) matches WatchdogEvent::Poll(o)
                && calls_for(o).failed),
    ensures
        spec_run(Some(max_n), failures, events).0 is RetriesExhausted,
        spec_run(Some(max_n), failures, events).1.len() == max_n - failures,
        forall|i: int|
            0 <= i < spec_run(Some(max_n), failures, events).1.len() ==> (#[trigger] spec_run(
                Some(max_n),
                failures,
                events,
            ).1[i]).failed,
    decreases events.len(),
{
    let o = events[0]->Poll_0;
    let calls = calls_for(o);
    assert(calls.failed);
    let failures2: nat = failures + 1;
    if failures2 >= max_n {
        assert(spec_run(Some(max_n), failures, events).1 =~= seq![calls]);
    } else {
        let tail = events.drop_first();
        assert(forall|i: int|
            0 <= i < tail.len() ==> ((#[trigger] tail[i]) matches WatchdogEvent::Poll(o)
                && calls_for(o).failed)) by {
            assert(forall|i: int| 0 <= i < tail.len() ==> tail[i] == events[i + 1]);
        }
        lemma_failures_exhaust(max_n, failures2, tail);
        let rest = spec_run(Some(max_n), failures2, tail);
        let log = spec_run(Some(max_n), failures, events).1;
        assert(log =~= seq![calls] + rest.1);
        assert(forall|i: int| 0 <= i < log.len() ==> (#[trigger] log[i]).failed) by {
            assert(forall|i: int| 1 <= i < log.len() ==> log[i] == rest.1[i - 1]);
        }
    }
}

/// Construct a watchdog and run it to completion over the given events:
/// the one entry point the process uses to supervise its runtime module.
pub fn start_watchdog(config: WatchdogConfig, events: &Vec<WatchdogEvent>) -> (r: RunReport)
    requires
        config.wf(),
    ensures
        r.outcome == spec_run(config.max_failures, 0, events@).0,
        r.log@ == spec_run(config.max_failures, 0, events@).1,
{
    let w = Watchdog::new(config.poll_interval_ms, config.max_failures);
    w.run_until(config.spec, config.module_id.as_str(), events)
}

} // verus!
