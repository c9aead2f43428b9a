//! Properties of the restart policy, the crash backoff and the probe
//! schedule that span several operations.

use vstd::prelude::*;
use crate::policy::{
    interval_secs, next_delay, ChangeView, PolicyModel, ProbeModel, Reason, BACKOFF_FIRST,
    BACKOFF_MAX, CLOCK_STEP_MS, PROBE_FIRST, PROBE_MAX_SECS, PROBE_MIN_SECS, TRIGGER_SPACING,
    WARN_EVERY,
};
use vstd::arithmetic::power2::{lemma_pow2_unfold, pow2};

verus! {

/// The reasons a policy holds are exactly its triggers: a clock step beyond
/// `CLOCK_STEP_MS` either way, a recovery to full connectivity, and a change
/// of chumby.com reachability; and none holds when no trigger does.
pub proof fn lemma_holding_reasons(p: PolicyModel)
    ensures
        p.holding().contains(Reason::Clock) <==> p.clock_stepped(),
        p.holding().contains(Reason::Network) <==> p.network_recovered(),
        p.holding().contains(Reason::ChumbyCom) <==> p.chumby_changed(),
        p.holding().len() == 0 <==> (!p.clock_stepped() && !p.network_recovered()
            && !p.chumby_changed()),
{
    let h = p.holding();
    let c = p.clock_stepped();
    let n = p.network_recovered();
    let m = p.chumby_changed();
    if c {
        if n {
            if m {
                assert(h =~= seq![Reason::Clock, Reason::Network, Reason::ChumbyCom]);
            } else {
                assert(h =~= seq![Reason::Clock, Reason::Network]);
            }
        } else {
            if m {
                assert(h =~= seq![Reason::Clock, Reason::ChumbyCom]);
            } else {
                assert(h =~= seq![Reason::Clock]);
            }
        }
    } else {
        if n {
            if m {
                assert(h =~= seq![Reason::Network, Reason::ChumbyCom]);
            } else {
                assert(h =~= seq![Reason::Network]);
            }
        } else {
            if m {
                assert(h =~= seq![Reason::ChumbyCom]);
            } else {
                assert(h =~= Seq::<Reason>::empty());
            }
        }
    }
    let w0 = choose|i: int| 0 <= i < h.len() && h[i] == Reason::Clock;
    let w1 = choose|i: int| 0 <= i < h.len() && h[i] == Reason::Network;
    let w2 = choose|i: int| 0 <= i < h.len() && h[i] == Reason::ChumbyCom;
    if h.contains(Reason::Clock) { assert(h[w0] == Reason::Clock); }
    if h.contains(Reason::Network) { assert(h[w1] == Reason::Network); }
    if h.contains(Reason::ChumbyCom) { assert(h[w2] == Reason::ChumbyCom); }
    if c { assert(h[0] == Reason::Clock); }
    if n { assert(h[if c { 1int } else { 0int }] == Reason::Network); }
    if m {
        let i: int = (if c { 1int } else { 0int }) + (if n { 1int } else { 0int });
        assert(h[i] == Reason::ChumbyCom);
    }
}

/// Every operation keeps the policy well formed: a restart request is only
/// out while a trigger is pending.
pub proof fn lemma_wf_preserved(p: PolicyModel, now: u64, offset_ms: i64, full: Option<bool>, reachable: bool)
    requires
        p.wf(),
    ensures
        p.started(now, offset_ms).wf(),
        p.exited(now).wf(),
        p.with_offset(offset_ms).wf(),
        p.with_nm(now, full).wf(),
        p.with_chumby(reachable).wf(),
        p.tick(now).0.wf(),
{
}

/// The policy a new supervisor starts with is well formed.
pub proof fn lemma_initial_wf(chumby_com: bool, offset_ms: i64)
    ensures
        PolicyModel::initial(chumby_com, offset_ms).wf(),
{
}

/// Whether chumby.com is watched at all never changes.
pub proof fn lemma_chumby_com_setting_is_fixed(p: PolicyModel, now: u64, offset_ms: i64, full: Option<bool>, reachable: bool)
    ensures
        p.started(now, offset_ms).chumby_com == p.chumby_com,
        p.exited(now).chumby_com == p.chumby_com,
        p.with_offset(offset_ms).chumby_com == p.chumby_com,
        p.with_nm(now, full).chumby_com == p.chumby_com,
        p.with_chumby(reachable).chumby_com == p.chumby_com,
        p.tick(now).0.chumby_com == p.chumby_com,
{
}

/// The conditions at a player start are its baseline: right after a start
/// no trigger holds, so a tick reports nothing.
pub proof fn lemma_start_is_the_baseline(p: PolicyModel, now: u64, offset_ms: i64, later: u64)
    ensures
        p.started(now, offset_ms).holding().len() == 0,
        p.started(now, offset_ms).tick(later).1 is None,
        p.started(now, offset_ms).tick(later).0 == p.started(now, offset_ms),
{
    lemma_holding_reasons(p.started(now, offset_ms));
}

/// A condition that is back to its state at player start drops the
/// restart: the tick withdraws a pending trigger, reporting whether the
/// request had already gone out, and leaves nothing pending or requested.
pub proof fn lemma_back_to_start_drops(p: PolicyModel, now: u64)
    requires
        p.wf(),
        p.holding().len() == 0,
    ensures
        !p.tick(now).0.pending,
        !p.tick(now).0.wants_restart,
        p.tick(now).1 == if p.pending {
            Some(ChangeView::Dropped { was_requested: p.wants_restart })
        } else {
            None::<ChangeView>
        },
{
}

/// A request names exactly the triggers that hold, of which there is at
/// least one, and asks for the restart.
pub proof fn lemma_request_names_its_reasons(p: PolicyModel, now: u64)
    requires
        p.tick(now).1 matches Some(ChangeView::Requested(_)),
    ensures
        p.tick(now).1 == Some(ChangeView::Requested(p.holding())),
        p.holding().len() > 0,
        p.tick(now).0.wants_restart,
        !p.wants_restart,
{
}

/// At most one triggered restart per `TRIGGER_SPACING`: a request goes out
/// only once that interval has passed since the last requested restart.
pub proof fn lemma_requests_are_spaced(p: PolicyModel, now: u64)
    requires
        p.tick(now).1 matches Some(ChangeView::Requested(_)),
    ensures
        p.last_triggered matches Some(t) ==> now >= t + TRIGGER_SPACING,
{
}

/// A trigger that arrives inside the spacing interval is held back until
/// the end of it.
pub proof fn lemma_pending_until_spacing_ends(p: PolicyModel, now: u64)
    requires
        p.wf(),
        p.tick(now).1 matches Some(ChangeView::Pending { .. }),
    ensures
        p.last_triggered is Some,
        now < p.last_triggered->0 + TRIGGER_SPACING,
        p.tick(now).1 == Some(ChangeView::Pending {
            reasons: p.holding(),
            due: #[verifier::truncate] ((p.last_triggered->0 + TRIGGER_SPACING) as u64),
        }),
        p.tick(now).0.pending,
        !p.tick(now).0.wants_restart,
{
}

/// A pending trigger that still holds goes out as a request once its due
/// time has come, and not before.
pub proof fn lemma_pending_request_goes_out_when_due(p: PolicyModel, now: u64, later: u64)
    requires
        p.wf(),
        p.tick_fits(),
        p.tick(now).1 matches Some(ChangeView::Pending { .. }),
    ensures
        later >= p.tick(now).1->0->due ==> p.tick(now).0.tick(later).1 == Some(
            ChangeView::Requested(p.holding()),
        ),
        later < p.tick(now).1->0->due ==> p.tick(now).0.tick(later).1 is None,
{
    let q = p.tick(now).0;
    assert(q.holding() == p.holding());
}

/// How a tick moves the restart request flag: a reported request sets it, a
/// reported drop clears it, and a tick that reports a pending trigger or
/// nothing leaves it as it was.
pub proof fn lemma_restart_flag_on_tick(p: PolicyModel, now: u64)
    ensures
        p.tick(now).0.wants_restart == match p.tick(now).1 {
            Some(ChangeView::Requested(_)) => true,
            Some(ChangeView::Dropped { .. }) => false,
            _ => p.wants_restart,
        },
{
}

/// How the other operations move the restart request flag: a player start
/// or exit clears it; a clock, NetworkManager or chumby.com reading leaves
/// it as it was.
pub proof fn lemma_restart_flag_on_other_operations(p: PolicyModel, now: u64, offset_ms: i64, full: Option<bool>, reachable: bool)
    ensures
        !p.started(now, offset_ms).wants_restart,
        !p.exited(now).wants_restart,
        p.with_offset(offset_ms).wants_restart == p.wants_restart,
        p.with_nm(now, full).wants_restart == p.wants_restart,
        p.with_chumby(reachable).wants_restart == p.wants_restart,
{
}

/// What each kind of tick report says about the restart request flag `w`
/// before the tick and the flag after it.
pub proof fn lemma_tick_report_and_flag(p: PolicyModel, now: u64)
    requires
        p.wf(),
        p.tick_fits(),
    ensures
        match p.tick(now).1 {
            Some(ChangeView::Requested(rs)) => !p.wants_restart && p.tick(now).0.wants_restart
                && rs.len() > 0,
            Some(ChangeView::Dropped { was_requested }) => was_requested == p.wants_restart
                && !p.tick(now).0.wants_restart,
            Some(ChangeView::Pending { reasons, due }) => !p.wants_restart
                && !p.tick(now).0.wants_restart && reasons.len() > 0 && due > now,
            None => p.tick(now).0.wants_restart == p.wants_restart,
        },
{
}

/// Each change is reported once: a tick repeated at the same time reports
/// nothing, and after a reported request or drop no later tick reports
/// anything until another operation changes the policy.
pub proof fn lemma_changes_are_reported_once(p: PolicyModel, now: u64, later: u64)
    requires
        p.wf(),
        p.tick_fits(),
    ensures
        p.tick(now).0.tick(now).1 is None,
        p.tick(now).1 matches Some(ChangeView::Requested(_)) ==> p.tick(now).0.tick(later).1 is None,
        p.tick(now).1 matches Some(ChangeView::Dropped { .. }) ==> p.tick(now).0.tick(later).1 is None,
{
    let q = p.tick(now).0;
    assert(q.holding() == p.holding());
}

/// The spacing window after the last requested restart at `t`: inside it no
/// request goes out and a pending trigger is due at its end; outside it, or
/// with no requested restart yet, nothing is held back as pending.
pub proof fn lemma_spacing_window(p: PolicyModel, now: u64)
    requires
        p.tick_fits(),
    ensures
        (p.last_triggered matches Some(t) && now < t + TRIGGER_SPACING) ==> {
            &&& !(p.tick(now).1 matches Some(ChangeView::Requested(_)))
            &&& p.tick(now).1 matches Some(ChangeView::Pending { due, .. }) ==> due == p.last_triggered->0
                + TRIGGER_SPACING
        },
        !(p.last_triggered matches Some(t) && now < t + TRIGGER_SPACING) ==> !(p.tick(now).1 matches Some(
            ChangeView::Pending { .. },
        )),
{
}

/// The time a request may go out is never before `now`, and is the end of
/// the spacing window while that lasts.
pub proof fn lemma_due_time(p: PolicyModel, now: u64)
    ensures
        p.due(now) >= now,
        p.due(now) == if p.last_triggered matches Some(t) && t + TRIGGER_SPACING > now {
            p.last_triggered->0 + TRIGGER_SPACING
        } else {
            now as int
        },
{
}

/// A player start keeps the time of the last requested restart, the
/// chumby.com setting and the last NetworkManager and chumby.com readings;
/// it withdraws any request.
pub proof fn lemma_start_keeps_history(p: PolicyModel, now: u64, offset_ms: i64)
    ensures
        p.started(now, offset_ms).last_triggered == p.last_triggered,
        p.started(now, offset_ms).chumby_com == p.chumby_com,
        p.started(now, offset_ms).nm_full == p.nm_full,
        p.started(now, offset_ms).chumby == p.chumby,
        !p.started(now, offset_ms).wants_restart,
        !p.started(now, offset_ms).pending,
{
}

/// The time of the last requested restart moves only when the player exits
/// after a request, and then to the time of that exit.
pub proof fn lemma_last_trigger_moves_only_on_requested_exit(p: PolicyModel, now: u64, offset_ms: i64, full: Option<bool>, reachable: bool)
    ensures
        p.started(now, offset_ms).last_triggered == p.last_triggered,
        p.with_offset(offset_ms).last_triggered == p.last_triggered,
        p.with_nm(now, full).last_triggered == p.last_triggered,
        p.with_chumby(reachable).last_triggered == p.last_triggered,
        p.tick(now).0.last_triggered == p.last_triggered,
        p.exited(now).last_triggered == if p.wants_restart { Some(now) } else { p.last_triggered },
{
}

/// A request goes out once: while it stands, ticks do not request again.
pub proof fn lemma_one_request_at_a_time(p: PolicyModel, now: u64)
    requires
        p.wants_restart,
    ensures
        !(p.tick(now).1 matches Some(ChangeView::Requested(_))),
{
}

/// An exit after a request is the requested one; any other exit is a crash.
/// Either way nothing stays pending or requested.
pub proof fn lemma_exit_clears_requests(p: PolicyModel, now: u64)
    ensures
        !p.exited(now).pending,
        !p.exited(now).wants_restart,
{
}

/// A clock step triggers exactly when it exceeds `CLOCK_STEP_MS` in either
/// direction from the offset at player start.
pub proof fn lemma_clock_step_threshold(p: PolicyModel, offset_ms: i64)
    ensures
        p.with_offset(offset_ms).holding().contains(Reason::Clock)
            <==> (offset_ms - p.base_offset_ms > CLOCK_STEP_MS
                || p.base_offset_ms - offset_ms > CLOCK_STEP_MS),
{
    lemma_holding_reasons(p.with_offset(offset_ms));
}

/// A connection drop alone never restarts: unless connectivity is full, the
/// network trigger does not hold.
pub proof fn lemma_drop_alone_never_restarts(p: PolicyModel, now: u64, full: Option<bool>)
    requires
        full != Some(true),
    ensures
        !p.with_nm(now, full).holding().contains(Reason::Network),
{
    lemma_holding_reasons(p.with_nm(now, full));
}

/// Reaching full connectivity after it was not full since the player start
/// triggers a restart, unless it happens inside the settling window after
/// the first start.
pub proof fn lemma_recovery_triggers(p: PolicyModel, now: u64)
    requires
        p.wf(),
        p.seen_not_full || p.nm_full == Some(false),
        !p.settling(now),
    ensures
        p.with_nm(now, Some(true)).holding().contains(Reason::Network),
{
    lemma_holding_reasons(p.with_nm(now, Some(true)));
}

/// A recovery to full connectivity is reported by the next tick at the same
/// time, with the network among the reasons, unless a trigger was already
/// pending.
pub proof fn lemma_recovery_is_reported(p: PolicyModel, now: u64)
    requires
        p.wf(),
        p.seen_not_full || p.nm_full == Some(false),
        !p.settling(now),
        !p.pending,
    ensures
        match p.with_nm(now, Some(true)).tick(now).1 {
            Some(ChangeView::Pending { reasons, .. }) => reasons.contains(Reason::Network),
            Some(ChangeView::Requested(reasons)) => reasons.contains(Reason::Network),
            _ => false,
        },
{
    lemma_recovery_triggers(p, now);
}

/// Reaching full connectivity inside the settling window is the starting
/// state, not a recovery.
pub proof fn lemma_settling_is_the_start_state(p: PolicyModel, now: u64)
    requires
        p.settling(now),
    ensures
        !p.with_nm(now, Some(true)).holding().contains(Reason::Network),
{
    lemma_holding_reasons(p.with_nm(now, Some(true)));
}

/// The settling window is fixed by the first player start and never moves.
pub proof fn lemma_settling_only_after_first_start(p: PolicyModel, now: u64, offset_ms: i64)
    ensures
        p.settle_until is Some ==> p.started(now, offset_ms).settle_until == p.settle_until,
        p.settle_until is None ==> p.started(now, offset_ms).settle_until == Some((now + crate::policy::NM_SETTLE) as u64),
{
}

/// Without NetworkManager the network trigger is off.
pub proof fn lemma_no_network_manager_no_network_trigger(p: PolicyModel, now: u64)
    ensures
        !p.with_nm(now, None).holding().contains(Reason::Network),
{
    lemma_drop_alone_never_restarts(p, now, None);
}

/// With chumby.com watching off, chumby.com never triggers.
pub proof fn lemma_chumby_com_off_never_triggers(p: PolicyModel)
    requires
        !p.chumby_com,
    ensures
        !p.holding().contains(Reason::ChumbyCom),
{
    lemma_holding_reasons(p);
}

/// The first chumby.com probe only sets the baseline; after it, a change of
/// reachability from the baseline triggers, with watching on, whichever way
/// it goes.
pub proof fn lemma_chumby_com_change_triggers(p: PolicyModel, first: bool, now_reachable: bool)
    requires
        p.chumby_com,
        p.base_chumby is None,
    ensures
        !p.with_chumby(first).holding().contains(Reason::ChumbyCom),
        p.with_chumby(first).with_chumby(now_reachable).holding().contains(Reason::ChumbyCom)
            <==> now_reachable != first,
{
    lemma_holding_reasons(p.with_chumby(first));
    lemma_holding_reasons(p.with_chumby(first).with_chumby(now_reachable));
}

/// The delay the crash after `k` short-lived runs gets from a new backoff.
pub open spec fn delay_after_crashes(k: nat) -> int
    decreases k,
{
    if k == 0 {
        BACKOFF_FIRST as int
    } else {
        next_delay(delay_after_crashes((k - 1) as nat))
    }
}

/// Crash restarts wait 3 s, doubling with each further crash of a short-lived
/// player, up to a minute.
pub proof fn lemma_backoff_doubles_to_a_minute(k: nat)
    ensures
        delay_after_crashes(k) == if BACKOFF_FIRST * pow2(k) <= BACKOFF_MAX {
            BACKOFF_FIRST * pow2(k)
        } else {
            BACKOFF_MAX as int
        },
    decreases k,
{
    if k > 0 {
        lemma_backoff_doubles_to_a_minute((k - 1) as nat);
        lemma_pow2_unfold(k);
    } else {
        assert(pow2(0) == 1) by {
            vstd::arithmetic::power2::lemma2_to64();
        }
    }
}

/// Crash-restart delays never leave the range from 3 s to a minute.
pub proof fn lemma_backoff_bounds(d: int)
    requires
        BACKOFF_FIRST <= d <= BACKOFF_MAX,
    ensures
        BACKOFF_FIRST <= next_delay(d) <= BACKOFF_MAX,
{
}

/// Probe intervals lie between 5 and 20 minutes.
pub proof fn lemma_probe_interval_in_range(rng: u64)
    ensures
        PROBE_MIN_SECS <= interval_secs(rng) <= PROBE_MAX_SECS,
{
}

/// No probe is ever due before connectivity is first full.
pub proof fn lemma_never_due_before_full(seed: u64, now: u64)
    ensures
        !(ProbeModel { next: None, failures: 0, rng: seed | 1 }).due(now),
{
}

/// Probing pauses while connectivity is not full.
pub proof fn lemma_paused_while_not_full(s: ProbeModel, now: u64, later: u64)
    ensures
        !s.with_full(now, false).due(later),
        !s.with_full(now, false).after_probe(later, true).due(later),
        !s.with_full(now, false).after_probe(later, false).due(later),
{
}

/// When connectivity becomes full after a pause the first probe is due
/// `PROBE_FIRST` later; the failure streak is untouched.
pub proof fn lemma_first_probe_after_full(s: ProbeModel, now: u64, later: u64)
    requires
        s.next is None,
        now + PROBE_FIRST <= u64::MAX,
    ensures
        s.with_full(now, true).due(later) <==> (later >= now + PROBE_FIRST),
        s.with_full(now, true).failures == s.failures,
{
}

/// After a probe the next one is due between 5 and 20 minutes later; a
/// paused schedule stays paused.
pub proof fn lemma_next_probe_in_window(s: ProbeModel, now: u64, ok: bool, later: u64)
    requires
        s.next is Some ==> now + interval_secs(s.rng) * 1000 <= u64::MAX,
    ensures
        s.next is Some ==> (s.after_probe(now, ok).next matches Some(n) && now + PROBE_MIN_SECS
            * 1000 <= n <= now + PROBE_MAX_SECS * 1000),
        s.next is Some && later < now + PROBE_MIN_SECS * 1000 ==> !s.after_probe(now, ok).due(later),
        s.next is Some && later >= now + PROBE_MAX_SECS * 1000 ==> s.after_probe(now, ok).due(later),
        s.next is None ==> !s.after_probe(now, ok).due(later),
{
}

/// Failures in a row are counted, a success resets the count, and every
/// `WARN_EVERY`-th failure in a row warns.
pub proof fn lemma_failure_streak(s: ProbeModel, now: u64)
    requires
        s.failures < u32::MAX,
    ensures
        s.after_probe(now, false).failures == s.failures + 1,
        s.after_probe(now, true).failures == 0,
        s.warns(false) <==> s.after_probe(now, false).failures % WARN_EVERY == 0,
        !s.warns(true),
{
}

/// Once a chumby.com baseline is recorded only a player start moves it: a
/// chumby.com reading never does, so while reachability differs from its
/// state at the last start the chumby.com trigger keeps holding. The first
/// reading records the baseline; every reading is remembered as the current
/// one.
pub proof fn lemma_chumby_baseline_kept(p: PolicyModel, reachable: bool)
    ensures
        p.base_chumby is Some ==> p.with_chumby(reachable).base_chumby == p.base_chumby,
        p.base_chumby is None ==> p.with_chumby(reachable).base_chumby == Some(reachable),
        p.with_chumby(reachable).chumby == Some(reachable),
        (p.chumby_com && p.base_chumby == Some(!reachable)) ==> p.with_chumby(
            reachable,
        ).holding().contains(Reason::ChumbyCom),
        p.base_chumby == Some(reachable) ==> !p.with_chumby(
            reachable,
        ).holding().contains(Reason::ChumbyCom),
{
    lemma_holding_reasons(p.with_chumby(reachable));
}

/// A request that stands for a chumby.com change is not withdrawn by a
/// further reading that still differs from the state at the last start.
pub proof fn lemma_chumby_request_stands_while_changed(p: PolicyModel, reachable: bool, now: u64)
    requires
        p.wf(),
        p.wants_restart,
        p.chumby_com,
        p.base_chumby == Some(!reachable),
    ensures
        p.with_chumby(reachable).tick(now).1 is None,
        p.with_chumby(reachable).tick(now).0.wants_restart,
{
    lemma_chumby_baseline_kept(p, reachable);
}

/// Each reading changes only what it reads: a clock offset only the current
/// offset, a NetworkManager reading only the connectivity and whether
/// not-full was seen, a chumby.com reading only the chumby.com reachability
/// and its first baseline.
pub proof fn lemma_readings_touch_only_their_fields(p: PolicyModel, now: u64, offset_ms: i64, full: Option<bool>, reachable: bool)
    ensures
        p.with_offset(offset_ms).offset_ms == offset_ms,
        p.with_offset(offset_ms) == (PolicyModel { offset_ms: p.with_offset(offset_ms).offset_ms, ..p }),
        p.with_nm(now, full).nm_full == full,
        p.with_nm(now, full) == (PolicyModel {
            nm_full: p.with_nm(now, full).nm_full,
            seen_not_full: p.with_nm(now, full).seen_not_full,
            ..p
        }),
        p.with_chumby(reachable) == (PolicyModel {
            chumby: p.with_chumby(reachable).chumby,
            base_chumby: p.with_chumby(reachable).base_chumby,
            ..p
        }),
        full is None ==> p.with_nm(now, full).seen_not_full == p.seen_not_full,
{
}

/// A probe's result does not move the next probe: success and failure draw
/// the same interval from the same generator state.
pub proof fn lemma_next_probe_ignores_result(s: ProbeModel, now: u64)
    ensures
        s.after_probe(now, false).next == s.after_probe(now, true).next,
        s.after_probe(now, false).rng == s.after_probe(now, true).rng,
        s.next is Some ==> s.after_probe(now, true).rng == crate::policy::xorshift(s.rng),
        s.next is None ==> s.after_probe(now, true).rng == s.rng,
{
}

/// Connectivity that stays full keeps the probe already scheduled, and no
/// fullness report touches the failure streak or the generator.
pub proof fn lemma_full_keeps_schedule(s: ProbeModel, now: u64, full: bool)
    ensures
        s.next is Some ==> s.with_full(now, true).next == s.next,
        s.with_full(now, full).failures == s.failures,
        s.with_full(now, full).rng == s.rng,
{
}

/// A new policy knows nothing yet and holds no trigger: the clock baseline
/// is the offset it was made with, no reading, no settling window, no
/// restart history, nothing pending or requested.
pub proof fn lemma_initial_state(chumby_com: bool, offset_ms: i64, now: u64)
    ensures
        ({
            let p = PolicyModel::initial(chumby_com, offset_ms);
            &&& p.chumby_com == chumby_com
            &&& p.offset_ms == offset_ms && p.base_offset_ms == offset_ms
            &&& p.nm_full is None && p.chumby is None && p.base_chumby is None
            &&& p.settle_until is None && p.last_triggered is None
            &&& !p.pending && !p.wants_restart && !p.seen_not_full
            &&& p.holding().len() == 0
            &&& p.tick(now).1 is None
        }),
{
    lemma_holding_reasons(PolicyModel::initial(chumby_com, offset_ms));
}

/// The settling window after the first start at `t0` runs up to, and not
/// including, `t0 + NM_SETTLE`: full connectivity reported inside it is the
/// starting state; reported from its end on, after not-full was seen, it is a
/// recovery.
pub proof fn lemma_settling_window_bounds(p: PolicyModel, t0: u64, now: u64)
    requires
        p.wf(),
        p.settle_until == Some((t0 + crate::policy::NM_SETTLE) as u64),
        t0 + crate::policy::NM_SETTLE <= u64::MAX,
    ensures
        now < t0 + crate::policy::NM_SETTLE ==> !p.with_nm(now, Some(true)).holding().contains(
            Reason::Network,
        ),
        (now >= t0 + crate::policy::NM_SETTLE && p.seen_not_full) ==> p.with_nm(now, Some(true)).holding().contains(
            Reason::Network,
        ),
        p.with_nm(now, Some(false)).seen_not_full,
{
    lemma_holding_reasons(p.with_nm(now, Some(true)));
}

} // verus!
