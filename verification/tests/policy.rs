use chumby_supervisor::policy::{Backoff, Change, Policy, ProbeSchedule, Reason, NM_SETTLE, TRIGGER_SPACING};

/// Milliseconds in `n` seconds.
fn secs(n: u64) -> u64 {
    n * 1000
}

/// A monotonic clock reading well after boot.
const NOW: u64 = 10_000_000;

/// A player started long enough ago that NM has settled.
fn started(chumby_com: bool, nm: Option<bool>) -> Policy {
    let mut p = Policy::new(chumby_com, 1_000);
    let long_ago = NOW - 2 * NM_SETTLE;
    p.set_nm(long_ago, nm);
    p.player_started(long_ago, 1_000);
    p
}

#[test]
fn test_clock_step_beyond_15s_requests() {
    let t = NOW;
    let mut p = started(false, Some(true));
    p.set_offset(1_000 + 15_000);
    assert_eq!(p.tick(t), None, "exactly 15 s is inside the ring window");
    p.set_offset(1_000 - 15_001);
    assert_eq!(p.tick(t), Some(Change::Requested(vec![Reason::Clock])));
    assert!(p.wants_restart());
}

#[test]
fn test_clock_stepping_back_withdraws() {
    let t = NOW;
    let mut p = started(false, Some(true));
    p.set_offset(500_000);
    assert!(matches!(p.tick(t), Some(Change::Requested(_))));
    p.set_offset(2_000);
    assert_eq!(p.tick(t), Some(Change::Dropped { was_requested: true }));
    assert!(!p.wants_restart());
}

#[test]
fn test_network_drop_ignored_recovery_requests() {
    let t = NOW;
    let mut p = started(false, Some(true));
    p.set_nm(t, Some(false));
    assert_eq!(p.tick(t), None, "a drop alone never restarts");
    p.set_nm(t, Some(true));
    assert_eq!(p.tick(t), Some(Change::Requested(vec![Reason::Network])));
}

#[test]
fn test_network_not_full_at_start_then_full_requests() {
    let t = NOW;
    let mut p = started(false, Some(false));
    p.set_nm(t, Some(true));
    assert_eq!(p.tick(t), Some(Change::Requested(vec![Reason::Network])));
}

#[test]
fn test_network_drop_again_before_restart_withdraws() {
    let t = NOW;
    let mut p = started(false, Some(false));
    p.set_nm(t, Some(true));
    assert!(matches!(p.tick(t), Some(Change::Requested(_))));
    p.set_nm(t, Some(false));
    assert_eq!(p.tick(t), Some(Change::Dropped { was_requested: true }));
}

#[test]
fn test_no_network_manager_no_network_trigger() {
    let t = NOW;
    let mut p = started(false, None);
    p.set_nm(t, None);
    assert_eq!(p.tick(t), None);
}

#[test]
fn test_spacing_and_drop_inside_window() {
    let t0 = NOW;
    let mut p = started(false, Some(false));
    p.set_nm(t0, Some(true));
    assert!(matches!(p.tick(t0), Some(Change::Requested(_))));
    assert!(p.player_exited(t0), "exit after a request is the requested one");
    p.player_started(t0, 1_000);

    let t1 = t0 + secs(60);
    p.set_offset(100_000);
    assert_eq!(
        p.tick(t1),
        Some(Change::Pending { reasons: vec![Reason::Clock], due: t0 + TRIGGER_SPACING })
    );
    assert_eq!(p.tick(t0 + secs(299)), None);
    // Back to good inside the window: no restart at its end.
    p.set_offset(1_000);
    assert_eq!(p.tick(t0 + secs(200)), Some(Change::Dropped { was_requested: false }));
    assert_eq!(p.tick(t0 + TRIGGER_SPACING), None);

    p.set_offset(100_000);
    let t2 = t0 + secs(250);
    assert!(matches!(p.tick(t2), Some(Change::Pending { .. })));
    assert_eq!(p.tick(t0 + TRIGGER_SPACING), Some(Change::Requested(vec![Reason::Clock])));
}

#[test]
fn test_nm_reaching_full_while_settling_is_the_start_state() {
    let t0 = NOW;
    let mut p = Policy::new(false, 1_000);
    p.player_started(t0, 1_000);
    p.set_nm(t0, Some(false));
    p.set_nm(t0 + secs(5), Some(true));
    assert_eq!(p.tick(t0 + secs(5)), None, "boot: NM's first check");
    p.set_nm(t0 + NM_SETTLE, Some(false));
    p.set_nm(t0 + NM_SETTLE + secs(1), Some(true));
    let t = t0 + NM_SETTLE + secs(1);
    assert_eq!(p.tick(t), Some(Change::Requested(vec![Reason::Network])));
}

#[test]
fn test_settling_is_only_after_the_first_start() {
    let t0 = NOW;
    let mut p = Policy::new(false, 1_000);
    p.player_started(t0, 1_000);
    p.set_nm(t0 + NM_SETTLE, Some(true));
    assert!(!p.player_exited(t0 + NM_SETTLE));
    let t1 = t0 + NM_SETTLE + secs(1);
    p.set_nm(t1, Some(false));
    p.player_started(t1, 1_000);
    p.set_nm(t1 + secs(2), Some(true));
    assert_eq!(p.tick(t1 + secs(2)), Some(Change::Requested(vec![Reason::Network])));
}

#[test]
fn test_crash_is_not_a_requested_exit() {
    let mut p = started(false, Some(true));
    assert!(!p.player_exited(NOW));
}

#[test]
fn test_chumby_com_off_never_triggers() {
    let t = NOW;
    let mut p = started(false, Some(true));
    p.set_chumby(true);
    p.set_chumby(false);
    assert_eq!(p.tick(t), None);
}

#[test]
fn test_chumby_com_loss_and_recovery_each_restart() {
    let t = NOW;
    let mut p = started(true, Some(true));
    p.set_chumby(true);
    assert_eq!(p.tick(t), None, "first probe only sets the baseline");
    p.set_chumby(false);
    assert_eq!(p.tick(t), Some(Change::Requested(vec![Reason::ChumbyCom])));
    assert!(p.player_exited(t));
    p.player_started(t, 1_000);
    let later = t + TRIGGER_SPACING;
    assert_eq!(p.tick(later), None, "started while down: down is the baseline");
    p.set_chumby(true);
    assert_eq!(p.tick(later), Some(Change::Requested(vec![Reason::ChumbyCom])));
}

#[test]
fn test_backoff_doubles_to_a_minute_and_resets() {
    let mut b = Backoff::new();
    let short = secs(1);
    let got: Vec<u64> = (0..7).map(|_| b.after_crash(short) / 1000).collect();
    assert_eq!(got, [3, 6, 12, 24, 48, 60, 60]);
    assert_eq!(b.after_crash(secs(300)) / 1000, 3);
}

#[test]
fn test_probe_schedule_cadence_and_pause() {
    let t = NOW;
    let mut s = ProbeSchedule::new(42);
    assert!(!s.due(t + secs(3600)), "never before full");
    s.set_full(t, true);
    assert!(!s.due(t + secs(59)));
    assert!(s.due(t + secs(60)));
    let t1 = t + secs(60);
    s.done(t1, true);
    assert!(!s.due(t1 + secs(299)));
    assert!(s.due(t1 + secs(1200)));
    s.set_full(t1, false);
    assert!(!s.due(t1 + secs(3600)), "paused while not full");
    s.set_full(t1, true);
    assert!(s.due(t1 + secs(60)), "restarts with the 60 s first probe");
}

#[test]
fn test_probe_interval_stays_in_range() {
    let mut s = ProbeSchedule::new(7);
    for _ in 0..1000 {
        let v = s.pick();
        assert!((300..=1200).contains(&v), "{v}");
    }
}

#[test]
fn test_probe_warns_every_fifth_failure() {
    let t = NOW;
    let mut s = ProbeSchedule::new(1);
    let warns: Vec<bool> = (0..10).map(|_| s.done(t, false)).collect();
    assert_eq!(warns.iter().filter(|w| **w).count(), 2);
    assert!(warns[4] && warns[9]);
    assert!(!s.done(t, true));
    assert_eq!(s.failures(), 0);
}
