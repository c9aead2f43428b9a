//! Laws over whole histories of calls on a policy or a probe schedule.

use vstd::prelude::*;
use crate::policy::{ChangeView, PolicyModel, ProbeModel, xorshift};

verus! {

/// One call on a `Policy` that changes it.
pub enum PolicyOp {
    /// `player_started(now, offset_ms)`.
    Start(u64, i64),
    /// `player_exited(now)`.
    Exit(u64),
    /// `set_offset(offset_ms)`.
    Offset(i64),
    /// `set_nm(now, full)`.
    Nm(u64, Option<bool>),
    /// `set_chumby(reachable)`.
    Chumby(bool),
    /// `tick(now)`.
    Tick(u64),
}

/// The policy after call `op`.
pub open spec fn apply(p: PolicyModel, op: PolicyOp) -> PolicyModel {
    match op {
        PolicyOp::Start(now, offset_ms) => p.started(now, offset_ms),
        PolicyOp::Exit(now) => p.exited(now),
        PolicyOp::Offset(offset_ms) => p.with_offset(offset_ms),
        PolicyOp::Nm(now, full) => p.with_nm(now, full),
        PolicyOp::Chumby(reachable) => p.with_chumby(reachable),
        PolicyOp::Tick(now) => p.tick(now).0,
    }
}

/// The policy after the calls `ops`, in order, on `p`.
pub open spec fn run(p: PolicyModel, ops: Seq<PolicyOp>) -> PolicyModel
    decreases ops.len(),
{
    if ops.len() == 0 {
        p
    } else {
        apply(run(p, ops.drop_last()), ops.last())
    }
}

/// What the `i`-th call of `ops` on `p` reported, if it was a tick.
pub open spec fn report_at(p: PolicyModel, ops: Seq<PolicyOp>, i: int) -> Option<ChangeView> {
    match ops[i] {
        PolicyOp::Tick(now) => run(p, ops.take(i)).tick(now).1,
        _ => None,
    }
}

/// Whether the `i`-th call of `ops` on `p` was a tick that asked for a
/// restart.
pub open spec fn requested_at(p: PolicyModel, ops: Seq<PolicyOp>, i: int) -> bool {
    report_at(p, ops, i) matches Some(ChangeView::Requested(_))
}

/// Whether the `i`-th call of `ops` on `p` withdrew any request: a player
/// start, a player exit, or a tick that reported a drop.
pub open spec fn withdrawn_at(p: PolicyModel, ops: Seq<PolicyOp>, i: int) -> bool {
    ||| ops[i] is Start
    ||| ops[i] is Exit
    ||| report_at(p, ops, i) matches Some(ChangeView::Dropped { .. })
}

/// Whether some tick of `ops` on `p` asked for a restart and nothing
/// withdrew it since.
pub open spec fn request_stands(p: PolicyModel, ops: Seq<PolicyOp>) -> bool {
    exists|i: int|
        0 <= i < ops.len() && #[trigger] requested_at(p, ops, i) && forall|j: int|
            i < j < ops.len() ==> !#[trigger] withdrawn_at(p, ops, j)
}

proof fn lemma_prefix_reports(p: PolicyModel, ops: Seq<PolicyOp>, i: int)
    requires
        ops.len() > 0,
        0 <= i < ops.len() - 1,
    ensures
        report_at(p, ops, i) == report_at(p, ops.drop_last(), i),
        requested_at(p, ops, i) == requested_at(p, ops.drop_last(), i),
        withdrawn_at(p, ops, i) == withdrawn_at(p, ops.drop_last(), i),
{
    assert(ops.take(i) =~= ops.drop_last().take(i));
}

/// The restart request flag of a policy over a history of calls: starting
/// from a policy with no request out, the player is asked to restart exactly
/// when some tick reported a request and no player start, player exit or
/// reported drop came after it.
pub proof fn lemma_restart_flag_history(p: PolicyModel, ops: Seq<PolicyOp>)
    requires
        !p.wants_restart,
    ensures
        run(p, ops).wants_restart == request_stands(p, ops),
    decreases ops.len(),
{
    if ops.len() == 0 {
        return;
    }
    let n = ops.len() - 1;
    let prev = ops.drop_last();
    lemma_restart_flag_history(p, prev);
    assert(ops.take(n) =~= prev);
    let q = run(p, prev);
    assert forall|i: int| 0 <= i < n implies requested_at(p, ops, i) == requested_at(p, prev, i)
        && withdrawn_at(p, ops, i) == withdrawn_at(p, prev, i) by {
        lemma_prefix_reports(p, ops, i);
    }
    if withdrawn_at(p, ops, n) {
        assert(!run(p, ops).wants_restart);
        if request_stands(p, ops) {
            let i = choose|i: int|
                0 <= i < ops.len() && #[trigger] requested_at(p, ops, i) && forall|j: int|
                    i < j < ops.len() ==> !#[trigger] withdrawn_at(p, ops, j);
            if i < n {
                assert(!withdrawn_at(p, ops, n));
            }
        }
    } else if requested_at(p, ops, n) {
        assert(run(p, ops).wants_restart);
        assert(request_stands(p, ops));
    } else {
        assert(run(p, ops).wants_restart == q.wants_restart);
        if request_stands(p, prev) {
            let i = choose|i: int|
                0 <= i < prev.len() && #[trigger] requested_at(p, prev, i) && forall|j: int|
                    i < j < prev.len() ==> !#[trigger] withdrawn_at(p, prev, j);
            assert(requested_at(p, ops, i));
            assert forall|j: int| i < j < ops.len() implies !#[trigger] withdrawn_at(p, ops, j) by {
                if j < n {
                    assert(!withdrawn_at(p, prev, j));
                }
            }
            assert(request_stands(p, ops));
        }
        if request_stands(p, ops) {
            let i = choose|i: int|
                0 <= i < ops.len() && #[trigger] requested_at(p, ops, i) && forall|j: int|
                    i < j < ops.len() ==> !#[trigger] withdrawn_at(p, ops, j);
            assert(i < n);
            assert(requested_at(p, prev, i));
            assert forall|j: int| i < j < prev.len() implies !#[trigger] withdrawn_at(p, prev, j) by {
                assert(!withdrawn_at(p, ops, j));
            }
            assert(request_stands(p, prev));
        }
    }
}

/// One call on a `ProbeSchedule` that changes it.
pub enum ProbeOp {
    /// `set_full(now, full)`.
    Full(u64, bool),
    /// `done(now, ok)`.
    Done(u64, bool),
    /// `pick()`.
    Pick,
}

/// The schedule after call `op`.
pub open spec fn apply_probe(s: ProbeModel, op: ProbeOp) -> ProbeModel {
    match op {
        ProbeOp::Full(now, full) => s.with_full(now, full),
        ProbeOp::Done(now, ok) => s.after_probe(now, ok),
        ProbeOp::Pick => ProbeModel { rng: xorshift(s.rng), ..s },
    }
}

/// The schedule after the calls `ops`, in order, on `s`.
pub open spec fn run_probe(s: ProbeModel, ops: Seq<ProbeOp>) -> ProbeModel
    decreases ops.len(),
{
    if ops.len() == 0 {
        s
    } else {
        apply_probe(run_probe(s, ops.drop_last()), ops.last())
    }
}

/// The number of failed probes in `ops` after the last successful one (or
/// from the start, if none succeeded).
pub open spec fn failures_since_success(ops: Seq<ProbeOp>) -> nat
    decreases ops.len(),
{
    if ops.len() == 0 {
        0
    } else {
        match ops.last() {
            ProbeOp::Done(_, true) => 0,
            ProbeOp::Done(_, false) => failures_since_success(ops.drop_last()) + 1,
            _ => failures_since_success(ops.drop_last()),
        }
    }
}

/// Whether no failed probe in `ops` comes while the failure streak already
/// stands at `u32::MAX`, where counting it would overflow.
pub open spec fn streak_fits(ops: Seq<ProbeOp>) -> bool {
    forall|i: int|
        0 <= i < ops.len() && (#[trigger] ops[i] matches ProbeOp::Done(_, false))
            ==> failures_since_success(ops.take(i)) < u32::MAX
}

/// The failure streak of a schedule over a history of calls: starting from
/// none, it is the number of failed probes since the last successful one,
/// as long as the streak never overflows its counter.
pub proof fn lemma_failure_count_history(s: ProbeModel, ops: Seq<ProbeOp>)
    requires
        s.failures == 0,
        streak_fits(ops),
    ensures
        run_probe(s, ops).failures == failures_since_success(ops),
    decreases ops.len(),
{
    if ops.len() > 0 {
        let n = ops.len() - 1;
        let prev = ops.drop_last();
        assert(ops.take(n) =~= prev);
        assert forall|i: int|
            0 <= i < prev.len() && (#[trigger] prev[i] matches ProbeOp::Done(_, false))
                implies failures_since_success(prev.take(i)) < u32::MAX by {
            assert(prev.take(i) =~= ops.take(i));
            assert(ops[i] == prev[i]);
        }
        lemma_failure_count_history(s, prev);
        if ops[n] matches ProbeOp::Done(_, false) {
            assert(failures_since_success(ops.take(n)) < u32::MAX);
        }
    }
}

/// The instant a call on a `Policy` is made at, where it takes one.
pub open spec fn op_time(op: PolicyOp) -> Option<u64> {
    match op {
        PolicyOp::Start(now, _) => Some(now),
        PolicyOp::Exit(now) => Some(now),
        PolicyOp::Nm(now, _) => Some(now),
        PolicyOp::Tick(now) => Some(now),
        _ => None,
    }
}

/// Whether the instants of the calls `ops` never go backwards.
pub open spec fn times_ordered(ops: Seq<PolicyOp>) -> bool {
    forall|i: int, j: int|
        0 <= i < j < ops.len() && #[trigger] op_time(ops[i]) is Some && #[trigger] op_time(ops[j]) is Some
            ==> op_time(ops[i])->0 <= op_time(ops[j])->0
}

/// Whether the `k`-th call of `ops` on `p` was the player's exit for a
/// requested restart.
pub open spec fn requested_exit_at(p: PolicyModel, ops: Seq<PolicyOp>, k: int) -> bool {
    ops[k] is Exit && run(p, ops.take(k)).wants_restart
}

proof fn lemma_last_trigger_covers_exits(p: PolicyModel, ops: Seq<PolicyOp>)
    requires
        times_ordered(ops),
    ensures
        forall|k: int|
            0 <= k < ops.len() && #[trigger] requested_exit_at(p, ops, k) ==> (run(p, ops).last_triggered
                matches Some(t) && op_time(ops[k])->0 <= t),
    decreases ops.len(),
{
    if ops.len() == 0 {
        return;
    }
    let n = ops.len() - 1;
    let prev = ops.drop_last();
    assert(ops.take(n) =~= prev);
    assert forall|i: int, j: int|
        0 <= i < j < prev.len() && #[trigger] op_time(prev[i]) is Some && #[trigger] op_time(prev[j]) is Some
            implies op_time(prev[i])->0 <= op_time(prev[j])->0 by {
        assert(prev[i] == ops[i] && prev[j] == ops[j]);
    }
    lemma_last_trigger_covers_exits(p, prev);
    let q = run(p, prev);
    assert forall|k: int| 0 <= k < ops.len() && #[trigger] requested_exit_at(p, ops, k) implies (run(
        p,
        ops,
    ).last_triggered matches Some(t) && op_time(ops[k])->0 <= t) by {
        if k < n {
            assert(ops.take(k) =~= prev.take(k));
            assert(requested_exit_at(p, prev, k));
            if ops[n] is Exit && q.wants_restart {
                assert(op_time(ops[k]) is Some && op_time(ops[n]) is Some);
            }
        }
    }
}

/// At most one triggered restart per `TRIGGER_SPACING`, over a history of
/// calls whose instants never go backwards: a tick that asks for a restart
/// comes at least that long after every exit for a requested restart before
/// it.
pub proof fn lemma_spacing_history(p: PolicyModel, ops: Seq<PolicyOp>, k: int, j: int)
    requires
        times_ordered(ops),
        0 <= k < j < ops.len(),
        requested_exit_at(p, ops, k),
        requested_at(p, ops, j),
    ensures
        op_time(ops[j])->0 >= op_time(ops[k])->0 + crate::policy::TRIGGER_SPACING,
{
    let pre = ops.take(j);
    assert forall|a: int, b: int|
        0 <= a < b < pre.len() && #[trigger] op_time(pre[a]) is Some && #[trigger] op_time(pre[b]) is Some
            implies op_time(pre[a])->0 <= op_time(pre[b])->0 by {
        assert(pre[a] == ops[a] && pre[b] == ops[b]);
    }
    assert(pre.take(k) =~= ops.take(k));
    assert(requested_exit_at(p, pre, k));
    lemma_last_trigger_covers_exits(p, pre);
    let q = run(p, pre);
    if let PolicyOp::Tick(now) = ops[j] {
        crate::laws::lemma_requests_are_spaced(q, now);
    }
}

} // verus!
