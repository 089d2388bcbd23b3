//! The decisions of the pipeline's stages: when the scheduler triggers,
//! what the collector forwards, and which settings a run may start with.

use vstd::prelude::*;
use crate::client::Configuration;
use crate::probes::{get_probes, snapshot_of, Probe, Readings};

verus! {

/// Why loaded settings cannot start a run.
#[derive(Debug, PartialEq, Eq, Structural)]
pub enum ConfigError {
    /// The sample interval is zero seconds.
    ZeroInterval,
}

/// The settings of a run: the broker configuration and the sample interval.
pub struct Settings {
    pub mqtt: Configuration,
    /// Seconds between two samples.
    pub interval: u32,
}

impl Settings {
    /// Settings with a positive interval; a zero interval is refused.
    pub fn new(mqtt: Configuration, interval: u32) -> (r: Result<Settings, ConfigError>)
        ensures
            r is Ok <==> interval > 0,
            r is Err ==> r == Err::<Settings, ConfigError>(ConfigError::ZeroInterval),
            r is Ok ==> r->Ok_0.interval == interval && r->Ok_0.mqtt == mqtt,
    {
        if interval == 0 {
            Err(ConfigError::ZeroInterval)
        } else {
            Ok(Settings { mqtt, interval })
        }
    }
}

/// The wait before trigger `k` (counted from 0): none before the first,
/// one interval before each later one.
pub open spec fn delay_before(k: nat, interval_ms: nat) -> nat {
    if k == 0 { 0 } else { interval_ms }
}

/// The time of trigger `k` after the start: the sum of the waits before
/// triggers 0 to `k`.
pub open spec fn trigger_time(k: nat, interval_ms: nat) -> nat
    decreases k,
{
    if k == 0 {
        delay_before(0, interval_ms)
    } else {
        trigger_time((k - 1) as nat, interval_ms) + delay_before(k, interval_ms)
    }
}

/// Trigger `k` comes `k` intervals after the start: the first at once, each
/// later one an interval after the one before.
pub proof fn lemma_trigger_times(k: nat, interval_ms: nat)
    ensures
        trigger_time(k, interval_ms) == k * interval_ms,
    decreases k,
{
    if k > 0 {
        lemma_trigger_times((k - 1) as nat, interval_ms);
        assert(((k - 1) as nat) * interval_ms + interval_ms == k * interval_ms) by (nonlinear_arith)
            requires k > 0;
    } else {
        assert(0 * interval_ms == 0);
    }
}

/// Emits triggers: one at once, then one every interval.
pub struct Scheduler {
    interval_ms: u64,
    started: bool,
    emitted: Ghost<nat>,
}

impl Scheduler {
    /// The interval between two triggers, in milliseconds.
    pub closed spec fn spec_interval_ms(&self) -> nat {
        self.interval_ms as nat
    }

    /// The scheduler knows whether it has emitted a trigger yet.
    pub closed spec fn wf(&self) -> bool {
        self.started <==> self.emitted@ > 0
    }

    /// How many triggers have been emitted.
    pub closed spec fn emitted(&self) -> nat {
        self.emitted@
    }

    /// A scheduler that triggers every `interval_secs` seconds.
    pub fn new(interval_secs: u32) -> (r: Scheduler)
        ensures
            r.wf(),
            r.spec_interval_ms() == interval_secs * 1000,
            r.emitted() == 0,
    {
        Scheduler { interval_ms: interval_secs as u64 * 1000, started: false, emitted: Ghost(0) }
    }

    /// The interval between two triggers, in milliseconds.
    pub fn interval_ms(&self) -> (r: u64)
        ensures
            r == self.spec_interval_ms(),
    {
        self.interval_ms
    }

    /// The time to wait before emitting the next trigger.
    pub fn next_delay_ms(&mut self) -> (r: u64)
        requires
            old(self).wf(),
        ensures
            final(self).wf(),
            r == delay_before(old(self).emitted(), old(self).spec_interval_ms()),
            final(self).emitted() == old(self).emitted() + 1,
            final(self).spec_interval_ms() == old(self).spec_interval_ms(),
    {
        let r = if self.started { self.interval_ms } else { 0 };
        self.started = true;
        self.emitted = Ghost(self.emitted@ + 1);
        r
    }
}


/// The collector as seen from outside: whether it still runs, and the
/// snapshots it has forwarded, oldest first.
pub type CollectorState = (bool, Seq<Seq<Probe>>);

/// The collector after a trigger whose provider results are `r`: a running
/// collector forwards the snapshot of `r`; a stopped one does nothing.
pub open spec fn trigger_step(s: CollectorState, r: Readings) -> CollectorState {
    if s.0 {
        (true, s.1.push(snapshot_of(r)))
    } else {
        s
    }
}

/// The collector after one trigger for each of `rounds`, in order.
pub open spec fn after_triggers(s: CollectorState, rounds: Seq<Readings>) -> CollectorState
    decreases rounds.len(),
{
    if rounds.len() == 0 {
        s
    } else {
        trigger_step(after_triggers(s, rounds.drop_last()), rounds.last())
    }
}

/// A running collector that receives N triggers forwards exactly N
/// snapshots, in the order of the triggers, each built from its own
/// trigger's provider results, and keeps running.
pub proof fn lemma_one_snapshot_per_trigger(s: CollectorState, rounds: Seq<Readings>)
    requires
        s.0,
    ensures
        after_triggers(s, rounds).0,
        after_triggers(s, rounds).1 == s.1 + rounds.map_values(|r: Readings| snapshot_of(r)),
    decreases rounds.len(),
{
    if rounds.len() > 0 {
        lemma_one_snapshot_per_trigger(s, rounds.drop_last());
        assert(s.1 + rounds.map_values(|r: Readings| snapshot_of(r)) =~= (s.1
            + rounds.drop_last().map_values(|r: Readings| snapshot_of(r))).push(snapshot_of(rounds.last())));
    }
}

/// The collector stage: one snapshot for each trigger while it runs.
pub struct Collector {
    running: bool,
    forwarded: Ghost<Seq<Seq<Probe>>>,
}

impl View for Collector {
    type V = CollectorState;

    closed spec fn view(&self) -> CollectorState {
        (self.running, self.forwarded@)
    }
}

impl Collector {
    /// A running collector that has forwarded nothing.
    pub fn new() -> (r: Collector)
        ensures
            r@ == (true, Seq::<Seq<Probe>>::empty()),
    {
        Collector { running: true, forwarded: Ghost(Seq::empty()) }
    }

    /// Whether the collector still runs.
    pub fn is_running(&self) -> (r: bool)
        ensures
            r == self@.0,
    {
        self.running
    }

    /// Handles a trigger whose provider results are `readings`: while
    /// running, returns the snapshot to forward.
    pub fn on_trigger(&mut self, readings: Readings) -> (r: Option<Vec<Probe>>)
        ensures
            final(self)@ == trigger_step(old(self)@, readings),
            old(self)@.0 ==> r is Some && r->Some_0@ == snapshot_of(readings),
            !old(self)@.0 ==> r is None,
    {
        if self.running {
            let v = get_probes(readings);
            self.forwarded = Ghost(self.forwarded@.push(v@));
            Some(v)
        } else {
            None
        }
    }

    /// Handles the loss of either channel: the collector stops for good.
    pub fn on_channel_closed(&mut self)
        ensures
            final(self)@ == (false, old(self)@.1),
    {
        self.running = false;
    }
}

} // verus!
