//! The supervisor's decisions between its I/O: when to start the player,
//! when to probe chumby.com, what to tell the player, and how to react to
//! what happens. The caller performs the I/O and reports back.

use vstd::prelude::*;
use crate::nm::{full, is_full};
use crate::policy::{
    change_view, Backoff, Change, ChangeView, Policy, PolicyModel, ProbeModel, ProbeSchedule,
    BACKOFF_MAX, PROBE_MAX_SECS,
};

verus! {

/// What the supervisor learns while it waits.
pub enum Event {
    /// The player exited, described by the given status text.
    PlayerExited(String),
    /// NetworkManager's connectivity state; `None` while it cannot be read.
    Nm(Option<u32>),
    /// A chumby.com probe finished.
    Probe(Result<(), String>),
    /// A shutdown signal arrived.
    Shutdown(i32),
}

/// What the caller does after an event.
#[derive(Debug, PartialEq, Eq)]
pub enum Reaction {
    /// Nothing to do.
    Nothing,
    /// The player that ran has exited; start it again after `delay`
    /// milliseconds. `requested` tells the requested restart from a crash.
    Respawn { requested: bool, delay: u64 },
    /// A probe finished. `changed`: reachability differs from the last
    /// probe's; `warn`: the failure streak warrants the diagnostic warning.
    Probed { changed: bool, warn: bool },
    /// Stop the player and quit.
    Stop,
}

/// Whether instant `t` (milliseconds) leaves room for every interval the
/// supervisor adds to it.
pub open spec fn time_ok(t: u64) -> bool {
    t + PROBE_MAX_SECS * 1000 <= u64::MAX
}

/// The abstract state of a `Supervisor`.
pub struct SupervisorModel {
    pub chumby_com: bool,
    pub policy: PolicyModel,
    pub schedule: ProbeModel,
    /// The next crash delay.
    pub backoff: u64,
    /// A player runs.
    pub running: bool,
    /// When to start the player next, while none runs.
    pub respawn_at: Option<u64>,
    /// The restart request the player was last told about.
    pub sent: bool,
    /// A probe is in flight.
    pub probing: bool,
    /// The last NetworkManager connectivity state.
    pub nm_state: Option<u32>,
    /// The last probe result.
    pub chumby_up: Option<bool>,
}

impl SupervisorModel {
    pub open spec fn wf(self) -> bool {
        &&& self.policy.wf()
        &&& crate::policy::BACKOFF_FIRST <= self.backoff <= BACKOFF_MAX
        &&& self.policy.chumby_com == self.chumby_com
        &&& self.policy.last_triggered matches Some(t) ==> time_ok(t)
    }

    /// A player start is due at `now`.
    pub open spec fn start_due(self, now: u64) -> bool {
        !self.running && self.respawn_at is Some && now >= self.respawn_at->0
    }

    /// A probe is to be started at `now`.
    pub open spec fn probe_due(self, now: u64) -> bool {
        self.chumby_com && !self.probing && self.schedule.due(now)
    }

    /// The restart request the player is to be told about, if it changed.
    pub open spec fn ctl_update(self) -> Option<bool> {
        if self.running && self.policy.wants_restart != self.sent {
            Some(self.policy.wants_restart)
        } else {
            None
        }
    }

    /// The state after the player started at `now` with clock offset
    /// `offset_ms`.
    pub open spec fn spawned(self, now: u64, offset_ms: i64) -> SupervisorModel {
        SupervisorModel {
            policy: self.policy.started(now, offset_ms),
            sent: false,
            running: true,
            ..self
        }
    }

    /// The delay before the next try after a failed start, and the state
    /// after it.
    pub open spec fn spawn_failed(self, now: u64) -> (SupervisorModel, u64) {
        let d = self.backoff;
        (
            SupervisorModel {
                backoff: crate::policy::next_delay(d as int) as u64,
                respawn_at: Some((now + d) as u64),
                ..self
            },
            d,
        )
    }

    /// Whether to start a probe, what the policy's tick reports, and the
    /// state after taking clock offset `offset_ms` at `now`.
    pub open spec fn ticked(self, now: u64, offset_ms: i64) -> (SupervisorModel, bool, Option<ChangeView>) {
        let probe = self.probe_due(now);
        let (policy, change) = self.policy.with_offset(offset_ms).tick(now);
        (SupervisorModel { policy, probing: self.probing || probe, ..self }, probe, change)
    }

    /// The reaction to `event` at `now` (`ran`: how long an exited player
    /// ran), and the state after it.
    pub open spec fn handled(self, now: u64, ran: u64, event: Event) -> (SupervisorModel, Reaction) {
        match event {
            Event::PlayerExited(_) => {
                if self.running {
                    let requested = self.policy.wants_restart;
                    let delay: u64 = if requested {
                        0
                    } else if ran >= crate::policy::BACKOFF_STABLE {
                        crate::policy::BACKOFF_FIRST
                    } else {
                        self.backoff
                    };
                    (
                        SupervisorModel {
                            policy: self.policy.exited(now),
                            backoff: if requested {
                                self.backoff
                            } else {
                                crate::policy::next_delay(delay as int) as u64
                            },
                            running: false,
                            respawn_at: Some((now + delay) as u64),
                            sent: false,
                            ..self
                        },
                        Reaction::Respawn { requested, delay },
                    )
                } else {
                    (SupervisorModel { sent: false, ..self }, Reaction::Nothing)
                }
            },
            Event::Nm(state) => {
                let f = is_full(state);
                (
                    SupervisorModel {
                        nm_state: state,
                        policy: self.policy.with_nm(now, f),
                        schedule: self.schedule.with_full(now, f == Some(true)),
                        ..self
                    },
                    Reaction::Nothing,
                )
            },
            Event::Probe(result) => {
                let ok = result is Ok;
                (
                    SupervisorModel {
                        probing: false,
                        chumby_up: Some(ok),
                        policy: self.policy.with_chumby(ok),
                        schedule: self.schedule.after_probe(now, ok),
                        ..self
                    },
                    Reaction::Probed { changed: self.chumby_up != Some(ok), warn: self.schedule.warns(ok) },
                )
            },
            Event::Shutdown(_) => (self, Reaction::Stop),
        }
    }
}

/// The state of the supervisor's main loop.
pub struct Supervisor {
    chumby_com: bool,
    policy: Policy,
    schedule: ProbeSchedule,
    backoff: Backoff,
    running: bool,
    respawn_at: Option<u64>,
    sent: bool,
    probing: bool,
    nm_state: Option<u32>,
    chumby_up: Option<bool>,
}

impl View for Supervisor {
    type V = SupervisorModel;

    closed spec fn view(&self) -> SupervisorModel {
        SupervisorModel {
            chumby_com: self.chumby_com,
            policy: self.policy@,
            schedule: self.schedule@,
            backoff: self.backoff@,
            running: self.running,
            respawn_at: self.respawn_at,
            sent: self.sent,
            probing: self.probing,
            nm_state: self.nm_state,
            chumby_up: self.chumby_up,
        }
    }
}

impl Supervisor {
    /// A supervisor at `now`, with chumby.com watching `chumby_com`, clock
    /// offset `offset_ms` and probe seed `seed`; the player is to start at
    /// once.
    pub fn new(chumby_com: bool, offset_ms: i64, seed: u64, now: u64) -> (s: Self)
        ensures
            s@.wf(),
            s@.chumby_com == chumby_com,
            s@.policy == PolicyModel::initial(chumby_com, offset_ms),
            s@.schedule == (ProbeModel { next: None, failures: 0, rng: seed | 1 }),
            s@.backoff == crate::policy::BACKOFF_FIRST,
            !s@.running,
            s@.respawn_at == Some(now),
            !s@.sent,
            !s@.probing,
            s@.nm_state is None,
            s@.chumby_up is None,
    {
        Supervisor {
            chumby_com,
            policy: Policy::new(chumby_com, offset_ms),
            schedule: ProbeSchedule::new(seed),
            backoff: Backoff::new(),
            running: false,
            respawn_at: Some(now),
            sent: false,
            probing: false,
            nm_state: None,
            chumby_up: None,
        }
    }

    /// Whether the player is to be started now; if so the planned start is
    /// used up.
    pub fn start_due(&mut self, now: u64) -> (r: bool)
        ensures
            r == old(self)@.start_due(now),
            final(self)@ == (if r { SupervisorModel { respawn_at: None, ..old(self)@ } } else { old(self)@ }),
    {
        if !self.running {
            if let Some(t) = self.respawn_at {
                if now >= t {
                    self.respawn_at = None;
                    return true;
                }
            }
        }
        false
    }

    /// The player started at `now`, with clock offset `offset_ms`.
    pub fn player_spawned(&mut self, now: u64, offset_ms: i64)
        requires
            old(self)@.wf(),
            time_ok(now),
        ensures
            final(self)@ == old(self)@.spawned(now, offset_ms),
            final(self)@.wf(),
    {
        self.policy.player_started(now, offset_ms);
        self.sent = false;
        self.running = true;
    }

    /// The player could not be started at `now`; returns the delay before
    /// the next try.
    pub fn spawn_failed(&mut self, now: u64) -> (d: u64)
        requires
            old(self)@.wf(),
            time_ok(now),
        ensures
            (final(self)@, d) == old(self)@.spawn_failed(now),
            final(self)@.wf(),
    {
        let d = self.backoff.after_crash(0);
        self.respawn_at = Some(now + d);
        d
    }

    /// Takes the clock offset `offset_ms` at `now` and reports whether to
    /// start a chumby.com probe, then what the restart policy's tick
    /// changed.
    pub fn tick(&mut self, now: u64, offset_ms: i64) -> (r: (bool, Option<Change>))
        requires
            old(self)@.wf(),
            time_ok(now),
        ensures
            (final(self)@, r.0, change_view(r.1)) == old(self)@.ticked(now, offset_ms),
            final(self)@.wf(),
    {
        self.policy.set_offset(offset_ms);
        let probe = self.chumby_com && !self.probing && self.schedule.due(now);
        if probe {
            self.probing = true;
        }
        let change = self.policy.tick(now);
        (probe, change)
    }

    /// The restart request to tell the player about, if it changed since it
    /// was last told.
    pub fn ctl_update(&self) -> (r: Option<bool>)
        ensures
            r == self@.ctl_update(),
    {
        let wants = self.policy.wants_restart();
        if self.running && wants != self.sent {
            Some(wants)
        } else {
            None
        }
    }

    /// The player was told about restart request `wants`.
    pub fn ctl_sent(&mut self, wants: bool)
        ensures
            final(self)@ == (SupervisorModel { sent: wants, ..old(self)@ }),
    {
        self.sent = wants;
    }

    /// Reacts to `event` at `now`. `ran` is how long (milliseconds) an exited
    /// player ran.
    pub fn handle(&mut self, now: u64, ran: u64, event: &Event) -> (r: Reaction)
        requires
            old(self)@.wf(),
            time_ok(now),
            event matches Event::Probe(Err(_)) ==> old(self)@.schedule.failures < u32::MAX,
        ensures
            (final(self)@, r) == old(self)@.handled(now, ran, *event),
            final(self)@.wf(),
    {
        match event {
            Event::PlayerExited(_) => {
                if self.running {
                    self.running = false;
                    self.sent = false;
                    if self.policy.player_exited(now) {
                        self.respawn_at = Some(now);
                        Reaction::Respawn { requested: true, delay: 0 }
                    } else {
                        let d = self.backoff.after_crash(ran);
                        self.respawn_at = Some(now + d);
                        Reaction::Respawn { requested: false, delay: d }
                    }
                } else {
                    self.sent = false;
                    Reaction::Nothing
                }
            },
            Event::Nm(state) => {
                self.nm_state = *state;
                let f = full(*state);
                self.policy.set_nm(now, f);
                let is_full_now = match f {
                    Some(b) => b,
                    None => false,
                };
                self.schedule.set_full(now, is_full_now);
                Reaction::Nothing
            },
            Event::Probe(result) => {
                self.probing = false;
                let ok = result.is_ok();
                let changed = match self.chumby_up {
                    Some(b) => b != ok,
                    None => true,
                };
                self.chumby_up = Some(ok);
                self.policy.set_chumby(ok);
                let warn = self.schedule.done(now, ok);
                Reaction::Probed { changed, warn }
            },
            Event::Shutdown(_) => Reaction::Stop,
        }
    }

    /// Failed chumby.com probes in a row.
    pub fn failures(&self) -> (r: u32)
        ensures
            r == self@.schedule.failures,
    {
        self.schedule.failures()
    }

    /// The last NetworkManager connectivity state.
    pub fn nm_state(&self) -> (r: Option<u32>)
        ensures
            r == self@.nm_state,
    {
        self.nm_state
    }
}

/// The player hears about restart requests only while it runs, and only
/// when the request changed since it last heard: then it hears the current
/// one.
pub proof fn lemma_ctl_only_to_a_running_player(m: SupervisorModel)
    ensures
        !m.running ==> m.ctl_update() is None,
        m.policy.wants_restart == m.sent ==> m.ctl_update() is None,
        m.running && m.policy.wants_restart != m.sent ==> m.ctl_update() == Some(m.policy.wants_restart),
        m.ctl_update() matches Some(w) ==> w != m.sent,
{
}

/// A player is started only while none runs and once its start time has
/// come; a started player is running and has heard of no request, and no
/// further start is due while it runs.
pub proof fn lemma_start_only_without_player(m: SupervisorModel, now: u64, offset_ms: i64, later: u64)
    ensures
        m.start_due(now) ==> !m.running && m.respawn_at is Some && m.respawn_at->0 <= now,
        m.spawned(now, offset_ms).running,
        !m.spawned(now, offset_ms).sent,
        !m.spawned(now, offset_ms).start_due(later),
        m.spawned(now, offset_ms).ctl_update() is None,
{
}

/// A failed start is tried again after the crash delay, which lies between
/// 3 s and a minute, and the delay after it grows.
pub proof fn lemma_failed_start_backs_off(m: SupervisorModel, now: u64)
    requires
        m.wf(),
        time_ok(now),
    ensures
        crate::policy::BACKOFF_FIRST <= m.spawn_failed(now).1 <= BACKOFF_MAX,
        m.spawn_failed(now).0.respawn_at == Some((now + m.spawn_failed(now).1) as u64),
        now + m.spawn_failed(now).1 <= u64::MAX,
        m.spawn_failed(now).0.backoff >= m.spawn_failed(now).1,
        !m.spawn_failed(now).0.start_due((now + m.spawn_failed(now).1 - 1) as u64),
        !m.running ==> m.spawn_failed(now).0.start_due((now + m.spawn_failed(now).1) as u64),
{
}

/// After the player exits, it is started again: at once after the requested
/// restart, after the crash delay (3 s to a minute, 3 s after a stable run)
/// otherwise. Nothing is pending or requested any more, and the next player
/// has heard of nothing.
pub proof fn lemma_exit_restarts_the_player(m: SupervisorModel, now: u64, ran: u64, status: String)
    requires
        m.wf(),
        time_ok(now),
        m.running,
    ensures
        ({
            let (n, r) = m.handled(now, ran, Event::PlayerExited(status));
            &&& !n.running
            &&& !n.sent
            &&& !n.policy.wants_restart
            &&& !n.policy.pending
            &&& m.policy.wants_restart ==> r == Reaction::Respawn { requested: true, delay: 0 }
                && n.respawn_at == Some(now) && n.start_due(now) && n.policy.last_triggered == Some(now)
            &&& !m.policy.wants_restart ==> {
                &&& r is Respawn
                &&& !r->requested
                &&& crate::policy::BACKOFF_FIRST <= r->delay <= BACKOFF_MAX
                &&& ran >= crate::policy::BACKOFF_STABLE ==> r->delay == crate::policy::BACKOFF_FIRST
                &&& now + r->delay <= u64::MAX
                &&& n.respawn_at == Some((now + r->delay) as u64)
                &&& n.policy.last_triggered == m.policy.last_triggered
            }
        }),
{
}

/// An exit report while no player runs changes nothing but what the
/// player was told.
pub proof fn lemma_exit_without_player(m: SupervisorModel, now: u64, ran: u64, status: String)
    requires
        !m.running,
    ensures
        m.handled(now, ran, Event::PlayerExited(status)).1 == Reaction::Nothing,
        m.handled(now, ran, Event::PlayerExited(status)).0 == (SupervisorModel { sent: false, ..m }),
{
}

/// A probe is started only with chumby.com watching on, when none is in
/// flight and one is due; then one is in flight. A finished probe ends the
/// flight, records its result, and reports a change exactly when the result
/// differs from the last one.
pub proof fn lemma_probes_one_at_a_time(m: SupervisorModel, now: u64, offset_ms: i64, ran: u64, result: Result<(), String>)
    ensures
        m.ticked(now, offset_ms).1 ==> m.chumby_com && !m.probing && m.schedule.due(now),
        m.ticked(now, offset_ms).1 ==> m.ticked(now, offset_ms).0.probing,
        !m.chumby_com ==> !m.ticked(now, offset_ms).1,
        !m.handled(now, ran, Event::Probe(result)).0.probing,
        m.handled(now, ran, Event::Probe(result)).0.chumby_up == Some(result is Ok),
        m.handled(now, ran, Event::Probe(result)).1 matches Reaction::Probed { changed, .. }
            && changed == (m.chumby_up != Some(result is Ok)),
{
}

/// Connectivity that is not full pauses the probes; a reading is remembered
/// for the diagnostics.
pub proof fn lemma_nm_event(m: SupervisorModel, now: u64, ran: u64, state: Option<u32>, later: u64)
    ensures
        m.handled(now, ran, Event::Nm(state)).0.nm_state == state,
        m.handled(now, ran, Event::Nm(state)).1 == Reaction::Nothing,
        state != Some(crate::nm::FULL) ==> !m.handled(now, ran, Event::Nm(state)).0.schedule.due(later),
{
}

/// A start is due exactly once no player runs and its time has come; a
/// probe is started exactly when chumby.com is watched, none is in flight
/// and one is due.
pub proof fn lemma_due_exactly(m: SupervisorModel, now: u64, offset_ms: i64)
    ensures
        m.start_due(now) <==> (!m.running && m.respawn_at is Some && m.respawn_at->0 <= now),
        m.ticked(now, offset_ms).1 <==> (m.chumby_com && !m.probing && m.schedule.next is Some
            && m.schedule.next->0 <= now),
        m.ticked(now, offset_ms).0.policy.offset_ms == offset_ms,
        m.ticked(now, offset_ms).0.running == m.running,
        m.ticked(now, offset_ms).0.respawn_at == m.respawn_at,
{
}

/// A probe's result is what the restart policy learns of chumby.com, and
/// NetworkManager's state is full exactly for `FULL`: that is what the
/// restart policy and the probe schedule learn of it.
pub proof fn lemma_events_feed_the_policy(m: SupervisorModel, now: u64, ran: u64, result: Result<(), String>, state: Option<u32>)
    ensures
        m.handled(now, ran, Event::Probe(result)).0.policy.chumby == Some(result is Ok),
        m.handled(now, ran, Event::Nm(state)).0.policy.nm_full == match state {
            Some(c) => Some(c == crate::nm::FULL),
            None => None,
        },
        state == Some(crate::nm::FULL) && m.schedule.next is Some ==> m.handled(now, ran, Event::Nm(state)).0.schedule.next
            == m.schedule.next,
{
}

/// A shutdown stops and changes nothing.
pub proof fn lemma_shutdown_stops(m: SupervisorModel, now: u64, ran: u64, sig: i32)
    ensures
        m.handled(now, ran, Event::Shutdown(sig)) == (m, Reaction::Stop),
{
}

} // verus!
