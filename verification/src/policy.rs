//! When to restart the panel: pure decision logic, time injected.
//!
//! Every instant is a count of monotonic milliseconds and every interval a
//! number of milliseconds. Everything is judged against the state recorded
//! at the last player start, so a condition that returns to it before its
//! restart runs drops the restart.

use vstd::prelude::*;

verus! {

/// A wall-clock step beyond this (in milliseconds) leaves alarms outside
/// the panel's ring window.
pub const CLOCK_STEP_MS: i64 = 15_000;

/// At most one triggered restart per this interval (milliseconds).
pub const TRIGGER_SPACING: u64 = 300_000;

/// After the first player start NetworkManager needs a few seconds for its
/// first connectivity check; reaching full inside this window (milliseconds)
/// is its starting state, not a recovery.
pub const NM_SETTLE: u64 = 30_000;

/// Why a restart is wanted.
#[derive(Clone, Copy, Debug, PartialEq, Eq)]
pub enum Reason {
    Clock,
    Network,
    ChumbyCom,
}

/// What a `tick` changed.
#[derive(Debug, PartialEq, Eq)]
pub enum Change {
    /// A trigger appeared; the request goes out at `due`.
    Pending { reasons: Vec<Reason>, due: u64 },
    /// The player is asked to restart when idle.
    Requested(Vec<Reason>),
    /// Conditions are back to their state at player start; a request
    /// already sent is withdrawn.
    Dropped { was_requested: bool },
}

/// `Change` with its reasons as a sequence.
pub enum ChangeView {
    Pending { reasons: Seq<Reason>, due: u64 },
    Requested(Seq<Reason>),
    Dropped { was_requested: bool },
}

impl View for Change {
    type V = ChangeView;

    open spec fn view(&self) -> ChangeView {
        match self {
            Change::Pending { reasons, due } => ChangeView::Pending { reasons: reasons@, due: *due },
            Change::Requested(reasons) => ChangeView::Requested(reasons@),
            Change::Dropped { was_requested } => ChangeView::Dropped { was_requested: *was_requested },
        }
    }
}

/// The view of an optional change.
pub open spec fn change_view(c: Option<Change>) -> Option<ChangeView> {
    match c {
        Some(c) => Some(c@),
        None => None,
    }
}

/// The abstract state of a `Policy`.
pub struct PolicyModel {
    /// Whether chumby.com reachability is a trigger at all.
    pub chumby_com: bool,
    /// Clock offset (wall minus monotonic, ms) at the last player start.
    pub base_offset_ms: i64,
    /// chumby.com reachability at the last player start, once known.
    pub base_chumby: Option<bool>,
    /// Current clock offset.
    pub offset_ms: i64,
    /// Whether NetworkManager reports full connectivity; `None` while it is
    /// unavailable, which turns the network trigger off.
    pub nm_full: Option<bool>,
    /// Whether connectivity was not full at some point since the last start.
    pub seen_not_full: bool,
    /// End of the settling window after the first player start.
    pub settle_until: Option<u64>,
    /// Current chumby.com reachability, once probed.
    pub chumby: Option<bool>,
    /// A trigger holds and has been reported.
    pub pending: bool,
    /// The player has been asked to restart.
    pub wants_restart: bool,
    /// When the last requested restart happened.
    pub last_triggered: Option<u64>,
}

impl PolicyModel {
    /// The state `Policy::new` builds.
    pub open spec fn initial(chumby_com: bool, offset_ms: i64) -> PolicyModel {
        PolicyModel {
            chumby_com,
            base_offset_ms: offset_ms,
            base_chumby: None,
            offset_ms,
            nm_full: None,
            seen_not_full: false,
            settle_until: None,
            chumby: None,
            pending: false,
            wants_restart: false,
            last_triggered: None,
        }
    }

    /// A request to restart is only ever out while a trigger is pending, and
    /// connectivity that is not full has been seen as such.
    pub open spec fn wf(self) -> bool {
        &&& self.wants_restart ==> self.pending
        &&& self.nm_full == Some(false) ==> self.seen_not_full
    }

    /// The wall clock stepped more than `CLOCK_STEP_MS` either way since the
    /// last start.
    pub open spec fn clock_stepped(self) -> bool {
        let d = self.offset_ms - self.base_offset_ms;
        d > CLOCK_STEP_MS || d < -CLOCK_STEP_MS
    }

    /// Connectivity is full after not having been full since the last start.
    pub open spec fn network_recovered(self) -> bool {
        self.nm_full == Some(true) && self.seen_not_full
    }

    /// chumby.com reachability differs from its state at the last start.
    pub open spec fn chumby_changed(self) -> bool {
        self.chumby_com && self.base_chumby is Some && self.chumby != self.base_chumby
    }

    /// The triggers that hold now, in the fixed order clock, network,
    /// chumby.com.
    pub open spec fn holding(self) -> Seq<Reason> {
        (if self.clock_stepped() { seq![Reason::Clock] } else { Seq::empty() })
            + (if self.network_recovered() { seq![Reason::Network] } else { Seq::empty() })
            + (if self.chumby_changed() { seq![Reason::ChumbyCom] } else { Seq::empty() })
    }

    /// The earliest time a request may go out: `TRIGGER_SPACING` after the
    /// last requested restart, and never before `now`.
    pub open spec fn due(self, now: u64) -> int {
        match self.last_triggered {
            Some(t) => if t + TRIGGER_SPACING > now { t + TRIGGER_SPACING } else { now as int },
            None => now as int,
        }
    }

    /// `tick` can compute its due time without leaving the range of `u64`.
    pub open spec fn tick_fits(self) -> bool {
        self.holding().len() > 0 && self.last_triggered is Some
            ==> self.last_triggered->0 + TRIGGER_SPACING <= u64::MAX
    }

    /// The state after a player start at `now` with clock offset `offset_ms`.
    pub open spec fn started(self, now: u64, offset_ms: i64) -> PolicyModel {
        PolicyModel {
            settle_until: if self.settle_until is None {
                Some((now + NM_SETTLE) as u64)
            } else {
                self.settle_until
            },
            base_offset_ms: offset_ms,
            offset_ms,
            base_chumby: self.chumby,
            seen_not_full: self.nm_full == Some(false),
            pending: false,
            wants_restart: false,
            ..self
        }
    }

    /// The state after the player exited at `now`.
    pub open spec fn exited(self, now: u64) -> PolicyModel {
        PolicyModel {
            last_triggered: if self.wants_restart { Some(now) } else { self.last_triggered },
            pending: false,
            wants_restart: false,
            ..self
        }
    }

    /// The state after a new clock offset reading.
    pub open spec fn with_offset(self, offset_ms: i64) -> PolicyModel {
        PolicyModel { offset_ms, ..self }
    }

    /// Whether `now` lies in the settling window after the first start.
    pub open spec fn settling(self, now: u64) -> bool {
        self.settle_until is Some && now < self.settle_until->0
    }

    /// The state after NetworkManager reported `full` at `now`.
    pub open spec fn with_nm(self, now: u64, full: Option<bool>) -> PolicyModel {
        PolicyModel {
            seen_not_full: if full == Some(false) {
                true
            } else if full == Some(true) && self.settling(now) {
                false
            } else {
                self.seen_not_full
            },
            nm_full: full,
            ..self
        }
    }

    /// The state after a chumby.com probe.
    pub open spec fn with_chumby(self, reachable: bool) -> PolicyModel {
        PolicyModel {
            base_chumby: if self.base_chumby is None { Some(reachable) } else { self.base_chumby },
            chumby: Some(reachable),
            ..self
        }
    }

    /// What `tick` at `now` reports, and the state after it.
    pub open spec fn tick(self, now: u64) -> (PolicyModel, Option<ChangeView>) {
        let reasons = self.holding();
        if reasons.len() == 0 {
            if !self.pending {
                (self, None)
            } else {
                (
                    PolicyModel { pending: false, wants_restart: false, ..self },
                    Some(ChangeView::Dropped { was_requested: self.wants_restart }),
                )
            }
        } else {
            let due = self.due(now);
            if !self.pending && due > now {
                (PolicyModel { pending: true, ..self }, Some(ChangeView::Pending { reasons, due: due as u64 }))
            } else if !self.wants_restart && now >= due {
                (
                    PolicyModel { pending: true, wants_restart: true, ..self },
                    Some(ChangeView::Requested(reasons)),
                )
            } else {
                (PolicyModel { pending: true, ..self }, None)
            }
        }
    }
}

/// Restart policy of the panel.
pub struct Policy {
    chumby_com: bool,
    base_offset_ms: i64,
    base_chumby: Option<bool>,
    offset_ms: i64,
    nm_full: Option<bool>,
    seen_not_full: bool,
    settle_until: Option<u64>,
    chumby: Option<bool>,
    pending: bool,
    wants_restart: bool,
    last_triggered: Option<u64>,
}

impl View for Policy {
    type V = PolicyModel;

    closed spec fn view(&self) -> PolicyModel {
        PolicyModel {
            chumby_com: self.chumby_com,
            base_offset_ms: self.base_offset_ms,
            base_chumby: self.base_chumby,
            offset_ms: self.offset_ms,
            nm_full: self.nm_full,
            seen_not_full: self.seen_not_full,
            settle_until: self.settle_until,
            chumby: self.chumby,
            pending: self.pending,
            wants_restart: self.wants_restart,
            last_triggered: self.last_triggered,
        }
    }
}

impl Policy {
    pub fn new(chumby_com: bool, offset_ms: i64) -> (p: Self)
        ensures
            p@ == PolicyModel::initial(chumby_com, offset_ms),
            p@.wf(),
    {
        Self {
            chumby_com,
            base_offset_ms: offset_ms,
            base_chumby: None,
            offset_ms,
            nm_full: None,
            seen_not_full: false,
            settle_until: None,
            chumby: None,
            pending: false,
            wants_restart: false,
            last_triggered: None,
        }
    }

    pub fn player_started(&mut self, now: u64, offset_ms: i64)
        requires
            old(self)@.settle_until is None ==> now + NM_SETTLE <= u64::MAX,
        ensures
            final(self)@ == old(self)@.started(now, offset_ms),
            final(self)@.wf(),
    {
        if self.settle_until.is_none() {
            self.settle_until = Some(now + NM_SETTLE);
        }
        self.base_offset_ms = offset_ms;
        self.offset_ms = offset_ms;
        self.base_chumby = self.chumby;
        self.seen_not_full = matches!(self.nm_full, Some(false));
        self.pending = false;
        self.wants_restart = false;
    }

    /// Returns whether the exit was the requested one (restart at once)
    /// rather than a crash (restart after backoff).
    pub fn player_exited(&mut self, now: u64) -> (requested: bool)
        requires
            old(self)@.wf(),
        ensures
            requested == old(self)@.wants_restart,
            final(self)@ == old(self)@.exited(now),
            final(self)@.wf(),
    {
        let requested = self.wants_restart;
        if requested {
            self.last_triggered = Some(now);
        }
        self.pending = false;
        self.wants_restart = false;
        requested
    }

    pub fn set_offset(&mut self, offset_ms: i64)
        ensures
            final(self)@ == old(self)@.with_offset(offset_ms),
            old(self)@.wf() ==> final(self)@.wf(),
    {
        self.offset_ms = offset_ms;
    }

    pub fn set_nm(&mut self, now: u64, full: Option<bool>)
        ensures
            final(self)@ == old(self)@.with_nm(now, full),
            old(self)@.wf() ==> final(self)@.wf(),
    {
        match full {
            Some(false) => self.seen_not_full = true,
            Some(true) => {
                let settling = match self.settle_until {
                    Some(t) => now < t,
                    None => false,
                };
                if settling {
                    self.seen_not_full = false;
                }
            },
            None => {},
        }
        self.nm_full = full;
    }

    pub fn set_chumby(&mut self, reachable: bool)
        ensures
            final(self)@ == old(self)@.with_chumby(reachable),
            old(self)@.wf() ==> final(self)@.wf(),
    {
        if self.base_chumby.is_none() {
            self.base_chumby = Some(reachable);
        }
        self.chumby = Some(reachable);
    }

    pub fn wants_restart(&self) -> (r: bool)
        ensures
            r == self@.wants_restart,
    {
        self.wants_restart
    }

    fn holding(&self) -> (r: Vec<Reason>)
        ensures
            r@ == self@.holding(),
    {
        let mut r = Vec::new();
        let d: i128 = self.offset_ms as i128 - self.base_offset_ms as i128;
        if d > CLOCK_STEP_MS as i128 || d < -(CLOCK_STEP_MS as i128) {
            r.push(Reason::Clock);
        }
        if matches!(self.nm_full, Some(true)) && self.seen_not_full {
            r.push(Reason::Network);
        }
        let changed = match (self.chumby, self.base_chumby) {
            (Some(a), Some(b)) => a != b,
            (None, Some(_)) => true,
            _ => false,
        };
        if self.chumby_com && self.base_chumby.is_some() && changed {
            r.push(Reason::ChumbyCom);
        }
        proof {
            let s = self@;
            assert(r@ =~= s.holding());
        }
        r
    }

    fn due(&self, now: u64) -> (d: u64)
        requires
            self@.last_triggered is Some ==> self@.last_triggered->0 + TRIGGER_SPACING <= u64::MAX,
        ensures
            d == self@.due(now),
    {
        match self.last_triggered {
            Some(t) => if t + TRIGGER_SPACING > now { t + TRIGGER_SPACING } else { now },
            None => now,
        }
    }

    pub fn tick(&mut self, now: u64) -> (r: Option<Change>)
        requires
            old(self)@.wf(),
            old(self)@.tick_fits(),
        ensures
            final(self)@ == old(self)@.tick(now).0,
            change_view(r) == old(self)@.tick(now).1,
            final(self)@.wf(),
    {
        let reasons = self.holding();
        if reasons.len() == 0 {
            if !self.pending {
                return None;
            }
            let was_requested = self.wants_restart;
            self.pending = false;
            self.wants_restart = false;
            return Some(Change::Dropped { was_requested });
        }
        let due = self.due(now);
        if !self.pending {
            self.pending = true;
            if due > now {
                return Some(Change::Pending { reasons, due });
            }
        }
        if !self.wants_restart && now >= due {
            self.wants_restart = true;
            return Some(Change::Requested(reasons));
        }
        None
    }
}

/// First crash-restart delay (milliseconds).
pub const BACKOFF_FIRST: u64 = 3_000;
/// Longest crash-restart delay (milliseconds).
pub const BACKOFF_MAX: u64 = 60_000;
/// A player that ran this long (milliseconds) counts as stable again.
pub const BACKOFF_STABLE: u64 = 300_000;

/// The delay that follows delay `d`: twice it, at most `BACKOFF_MAX`.
pub open spec fn next_delay(d: int) -> int {
    if 2 * d <= BACKOFF_MAX { 2 * d } else { BACKOFF_MAX as int }
}

/// Crash-restart spacing: 3 s doubling to 60 s, reset once the player has
/// stayed up 5 min.
pub struct Backoff {
    delay: u64,
}

impl View for Backoff {
    /// The delay the next crash gets, unless the run was stable.
    type V = u64;

    closed spec fn view(&self) -> u64 {
        self.delay
    }
}

impl Backoff {
    /// The delay stays between the first and the longest one.
    pub open spec fn wf(&self) -> bool {
        BACKOFF_FIRST <= self@ <= BACKOFF_MAX
    }

    pub fn new() -> (b: Self)
        ensures
            b@ == BACKOFF_FIRST,
            b.wf(),
    {
        Self { delay: BACKOFF_FIRST }
    }

    /// The delay before restarting a player that crashed after running for
    /// `ran` milliseconds.
    pub fn after_crash(&mut self, ran: u64) -> (d: u64)
        requires
            old(self).wf(),
        ensures
            d == if ran >= BACKOFF_STABLE { BACKOFF_FIRST } else { old(self)@ },
            final(self)@ == next_delay(d as int),
            BACKOFF_FIRST <= d <= BACKOFF_MAX,
            final(self).wf(),
    {
        if ran >= BACKOFF_STABLE {
            self.delay = BACKOFF_FIRST;
        }
        let d = self.delay;
        let doubled = self.delay * 2;
        self.delay = if doubled <= BACKOFF_MAX { doubled } else { BACKOFF_MAX };
        d
    }
}

/// First probe after connectivity became full (milliseconds).
pub const PROBE_FIRST: u64 = 60_000;
/// Shortest probe interval (seconds).
pub const PROBE_MIN_SECS: u64 = 300;
/// Longest probe interval (seconds).
pub const PROBE_MAX_SECS: u64 = 1200;
/// Every this many failures in a row the failure streak is reported.
pub const WARN_EVERY: u32 = 5;

/// One step of the xorshift64 generator.
pub open spec fn xorshift(x: u64) -> u64 {
    let a = x ^ (x << 13u64);
    let b = a ^ (a >> 7u64);
    b ^ (b << 17u64)
}

/// The probe interval (seconds) drawn from generator state `rng`.
pub open spec fn interval_secs(rng: u64) -> u64 {
    (PROBE_MIN_SECS + xorshift(rng) % ((PROBE_MAX_SECS - PROBE_MIN_SECS + 1) as u64)) as u64
}

/// The abstract state of a `ProbeSchedule`.
pub struct ProbeModel {
    /// When the next probe is due; `None` while paused.
    pub next: Option<u64>,
    /// Failed probes in a row.
    pub failures: u32,
    /// Generator state for the random intervals.
    pub rng: u64,
}

impl ProbeModel {
    /// Whether a probe is due at `now`.
    pub open spec fn due(self, now: u64) -> bool {
        self.next is Some && now >= self.next->0
    }

    /// The state after connectivity became full (`full`) or not at `now`.
    pub open spec fn with_full(self, now: u64, full: bool) -> ProbeModel {
        ProbeModel {
            next: if !full {
                None
            } else if self.next is None {
                Some((now + PROBE_FIRST) as u64)
            } else {
                self.next
            },
            ..self
        }
    }

    /// The state after a probe finished at `now` with result `ok`.
    pub open spec fn after_probe(self, now: u64, ok: bool) -> ProbeModel {
        ProbeModel {
            failures: if ok { 0 } else { (self.failures + 1) as u32 },
            next: if self.next is Some {
                Some((now + interval_secs(self.rng) * 1000) as u64)
            } else {
                None
            },
            rng: if self.next is Some { xorshift(self.rng) } else { self.rng },
        }
    }

    /// Whether the probe finished with result `ok` warrants the diagnostic
    /// warning: a failure that makes the streak a multiple of `WARN_EVERY`.
    pub open spec fn warns(self, ok: bool) -> bool {
        !ok && (self.failures + 1) % (WARN_EVERY as int) == 0
    }
}

/// The chumby.com probe cadence: first 60 s after the network is full, then
/// every random 5-20 min; paused while it is not.
pub struct ProbeSchedule {
    next: Option<u64>,
    failures: u32,
    rng: u64,
}

impl View for ProbeSchedule {
    type V = ProbeModel;

    closed spec fn view(&self) -> ProbeModel {
        ProbeModel { next: self.next, failures: self.failures, rng: self.rng }
    }
}

impl ProbeSchedule {
    pub fn new(seed: u64) -> (s: Self)
        ensures
            s@ == (ProbeModel { next: None, failures: 0, rng: seed | 1 }),
    {
        Self { next: None, failures: 0, rng: seed | 1 }
    }

    pub fn set_full(&mut self, now: u64, full: bool)
        requires
            full && old(self)@.next is None ==> now + PROBE_FIRST <= u64::MAX,
        ensures
            final(self)@ == old(self)@.with_full(now, full),
    {
        if !full {
            self.next = None;
        } else if self.next.is_none() {
            self.next = Some(now + PROBE_FIRST);
        }
    }

    pub fn due(&self, now: u64) -> (r: bool)
        ensures
            r == self@.due(now),
    {
        match self.next {
            Some(t) => now >= t,
            None => false,
        }
    }

    /// Records a result; returns true when the failure streak warrants the
    /// diagnostic warning.
    pub fn done(&mut self, now: u64, ok: bool) -> (warn: bool)
        requires
            !ok ==> old(self)@.failures < u32::MAX,
            old(self)@.next is Some ==> now + interval_secs(old(self)@.rng) * 1000 <= u64::MAX,
        ensures
            final(self)@ == old(self)@.after_probe(now, ok),
            warn == old(self)@.warns(ok),
    {
        self.failures = if ok { 0 } else { self.failures + 1 };
        if self.next.is_some() {
            let secs = self.pick();
            self.next = Some(now + secs * 1000);
        }
        !ok && self.failures % WARN_EVERY == 0
    }

    pub fn failures(&self) -> (r: u32)
        ensures
            r == self@.failures,
    {
        self.failures
    }

    /// Draws the next probe interval in seconds, between 5 and 20 minutes.
    pub fn pick(&mut self) -> (secs: u64)
        ensures
            secs == interval_secs(old(self)@.rng),
            PROBE_MIN_SECS <= secs <= PROBE_MAX_SECS,
            final(self)@ == (ProbeModel { rng: xorshift(old(self)@.rng), ..old(self)@ }),
    {
        self.rng = self.rng ^ (self.rng << 13u64);
        self.rng = self.rng ^ (self.rng >> 7u64);
        self.rng = self.rng ^ (self.rng << 17u64);
        PROBE_MIN_SECS + self.rng % (PROBE_MAX_SECS - PROBE_MIN_SECS + 1)
    }
}

} // verus!
