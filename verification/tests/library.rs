use chumby_supervisor::args::{parse_args, text_is, ArgError, ArgLayout};
use chumby_supervisor::config::{chumby_com_enabled, setting_enables, Setting};
use chumby_supervisor::nm::{full, label, name, FULL};
use chumby_supervisor::policy::{
    Backoff, Change, Policy, ProbeSchedule, Reason, BACKOFF_FIRST, BACKOFF_MAX, NM_SETTLE,
    TRIGGER_SPACING,
};
use chumby_supervisor::route::{default_route, parse_hex, DefaultRoute};
use chumby_supervisor::supervisor::{Event, Reaction, Supervisor};

fn secs(n: u64) -> u64 {
    n * 1000
}

const NOW: u64 = 10_000_000;

fn settled(chumby_com: bool, nm: Option<bool>) -> Policy {
    let mut p = Policy::new(chumby_com, 1_000);
    p.set_nm(NOW - 2 * NM_SETTLE, nm);
    p.player_started(NOW - 2 * NM_SETTLE, 1_000);
    p
}

#[test]
fn clock_step_back_by_exactly_15s_is_inside_the_window() {
    let mut p = settled(false, Some(true));
    p.set_offset(1_000 - 15_000);
    assert_eq!(p.tick(NOW), None);
    p.set_offset(1_000 + 15_001);
    assert_eq!(p.tick(NOW), Some(Change::Requested(vec![Reason::Clock])));
}

#[test]
fn clock_step_on_extreme_offsets_is_exact() {
    let mut p = Policy::new(false, i64::MIN);
    p.set_offset(i64::MAX);
    assert_eq!(p.tick(NOW), Some(Change::Requested(vec![Reason::Clock])));
}

#[test]
fn start_is_the_baseline() {
    let mut p = settled(true, Some(false));
    p.set_offset(900_000);
    p.set_chumby(true);
    p.set_chumby(false);
    p.player_started(NOW, 900_000);
    assert_eq!(p.tick(NOW), None);
    assert!(!p.wants_restart());
}

#[test]
fn reasons_come_in_fixed_order() {
    let mut p = settled(true, Some(false));
    p.set_chumby(true);
    p.player_started(NOW, 1_000);
    p.set_offset(50_000);
    p.set_nm(NOW, Some(true));
    p.set_chumby(false);
    assert_eq!(
        p.tick(NOW),
        Some(Change::Requested(vec![Reason::Clock, Reason::Network, Reason::ChumbyCom]))
    );
}

#[test]
fn one_request_at_a_time() {
    let mut p = settled(false, Some(true));
    p.set_offset(100_000);
    assert!(matches!(p.tick(NOW), Some(Change::Requested(_))));
    assert_eq!(p.tick(NOW + secs(1)), None);
    assert!(p.wants_restart());
}

#[test]
fn requests_are_spaced_after_a_requested_restart() {
    let mut p = settled(false, Some(true));
    p.set_offset(100_000);
    assert!(matches!(p.tick(NOW), Some(Change::Requested(_))));
    assert!(p.player_exited(NOW));
    p.player_started(NOW, 1_000);
    p.set_offset(200_000);
    assert_eq!(
        p.tick(NOW + TRIGGER_SPACING - 1),
        Some(Change::Pending { reasons: vec![Reason::Clock], due: NOW + TRIGGER_SPACING })
    );
    assert_eq!(p.tick(NOW + TRIGGER_SPACING - 1), None);
    assert_eq!(p.tick(NOW + TRIGGER_SPACING), Some(Change::Requested(vec![Reason::Clock])));
}

#[test]
fn a_crash_does_not_restart_the_spacing() {
    let mut p = settled(false, Some(true));
    assert!(!p.player_exited(NOW));
    p.player_started(NOW, 1_000);
    p.set_offset(100_000);
    assert_eq!(p.tick(NOW + secs(1)), Some(Change::Requested(vec![Reason::Clock])));
}

#[test]
fn backoff_stays_within_bounds_and_resets_after_a_stable_run() {
    let mut b = Backoff::new();
    for _ in 0..20 {
        let d = b.after_crash(0);
        assert!(BACKOFF_FIRST <= d && d <= BACKOFF_MAX);
    }
    assert_eq!(b.after_crash(0), BACKOFF_MAX);
    assert_eq!(b.after_crash(secs(299)), BACKOFF_MAX);
    assert_eq!(b.after_crash(secs(300)), BACKOFF_FIRST);
    assert_eq!(b.after_crash(0), 6_000);
}

#[test]
fn probe_intervals_follow_the_generator() {
    let mut s = ProbeSchedule::new(42);
    assert_eq!(s.pick(), 463);
    assert_eq!(s.pick(), 373);
    assert_eq!(s.pick(), 761);
}

#[test]
fn next_probe_is_due_after_the_drawn_interval() {
    let mut s = ProbeSchedule::new(42);
    s.set_full(NOW, true);
    assert!(!s.done(NOW, true));
    assert!(!s.due(NOW + secs(463) - 1));
    assert!(s.due(NOW + secs(463)));
}

#[test]
fn a_paused_schedule_draws_nothing() {
    let mut s = ProbeSchedule::new(42);
    assert!(!s.done(NOW, false));
    assert!(!s.due(u64::MAX));
    s.set_full(NOW, true);
    s.done(NOW, true);
    assert!(s.due(NOW + secs(463)));
    assert!(!s.due(NOW + secs(463) - 1));
}

#[test]
fn fullness_while_probing_keeps_the_schedule() {
    let mut s = ProbeSchedule::new(7);
    s.set_full(NOW, true);
    s.set_full(NOW + secs(30), true);
    assert!(!s.due(NOW + secs(60) - 1));
    assert!(s.due(NOW + secs(60)));
}

#[test]
fn connectivity_names() {
    assert_eq!(name(1), "none");
    assert_eq!(name(2), "portal");
    assert_eq!(name(3), "limited");
    assert_eq!(name(4), "full");
    assert_eq!(name(0), "unknown");
    assert_eq!(name(99), "unknown");
    assert_eq!(label(Some(FULL)), "full");
    assert_eq!(label(None), "unreadable");
    assert_eq!(full(Some(4)), Some(true));
    assert_eq!(full(Some(3)), Some(false));
    assert_eq!(full(None), None);
}

#[test]
fn chumby_com_switch() {
    assert!(chumby_com_enabled(Some("access_chumby_com = 1\n")));
    assert!(chumby_com_enabled(Some("volume = 3\naccess_chumby_com = true\n")));
    assert!(!chumby_com_enabled(Some("access_chumby_com = 0\n")));
    assert!(!chumby_com_enabled(Some("access_chumby_com = false\n")));
    assert!(!chumby_com_enabled(Some("access_chumby_com = 2\n")));
    assert!(!chumby_com_enabled(Some("access_chumby_com = \"1\"\n")));
    assert!(!chumby_com_enabled(Some("volume = 3\n")));
    assert!(!chumby_com_enabled(Some("access_chumby_com = = 1\n")));
    assert!(!chumby_com_enabled(Some("[section]\naccess_chumby_com = 1\n")));
    assert!(!chumby_com_enabled(None));
}

#[test]
fn setting_values() {
    assert!(setting_enables(Setting::Integer(1)));
    assert!(setting_enables(Setting::Boolean(true)));
    assert!(!setting_enables(Setting::Integer(0)));
    assert!(!setting_enables(Setting::Boolean(false)));
    assert!(!setting_enables(Setting::Other));
    assert!(!setting_enables(Setting::Missing));
    assert!(!setting_enables(Setting::Unparsable));
}

fn args(list: &[&str]) -> Vec<Option<String>> {
    list.iter().map(|a| Some(a.to_string())).collect()
}

#[test]
fn command_line_layouts() {
    assert_eq!(
        parse_args(&args(&["--ctl", "/run/ctl", "--", "player", "-x"])),
        Ok(ArgLayout { ctl: 1, config: None, player: 3 })
    );
    assert_eq!(
        parse_args(&args(&["--config", "p.toml", "--ctl", "f", "--", "player"])),
        Ok(ArgLayout { ctl: 3, config: Some(1), player: 5 })
    );
    assert_eq!(
        parse_args(&args(&["--ctl", "a", "--ctl", "b", "--", "p"])),
        Ok(ArgLayout { ctl: 3, config: None, player: 5 })
    );
}

#[test]
fn command_line_errors() {
    assert_eq!(parse_args(&args(&["--ctl", "f", "--config"])), Err(ArgError::ConfigNeedsPath));
    assert_eq!(parse_args(&args(&["--ctl", "f", "--"])), Err(ArgError::NoPlayer));
    assert_eq!(parse_args(&args(&["--", "player"])), Err(ArgError::CtlRequired));
    assert_eq!(parse_args(&args(&["--ctl", "f", "player"])), Err(ArgError::Unexpected(2)));
    assert_eq!(parse_args(&args(&["--ctl", "f"])), Err(ArgError::Usage));
    assert_eq!(parse_args(&args(&["--ctl"])), Err(ArgError::Usage));
    assert_eq!(parse_args(&args(&[])), Err(ArgError::Usage));
    assert_eq!(parse_args(&vec![None]), Err(ArgError::Unexpected(0)));
    assert_eq!(
        parse_args(&vec![Some("--ctl".to_string()), None, Some("--".to_string()), None]),
        Ok(ArgLayout { ctl: 1, config: None, player: 3 })
    );
}

#[test]
fn text_comparison() {
    assert!(text_is("--ctl", "--ctl"));
    assert!(!text_is("--ctl", "--ct"));
    assert!(!text_is("--ctx", "--ctl"));
    assert!(text_is("", ""));
}

fn chars(s: &str) -> Vec<char> {
    s.chars().collect()
}

const TABLE: &str = "Iface\tDestination\tGateway \tFlags\tRefCnt\tUse\tMetric\tMask\t\tMTU\tWindow\tIRTT\n\
wlan0\t0000A8C0\t00000000\t0001\t0\t0\t600\t00FFFFFF\t0\t0\t0\n\
wlan0\t00000000\t0100A8C0\t0003\t0\t0\t600\t00000000\t0\t0\t0\n";

#[test]
fn default_route_of_a_routing_table() {
    let r = default_route(&chars(TABLE));
    assert_eq!(r, Some(DefaultRoute { iface: chars("wlan0"), gateway: [192, 168, 0, 1] }));
}

#[test]
fn default_route_absent() {
    assert_eq!(default_route(&chars("")), None);
    assert_eq!(default_route(&chars("Iface\tDestination\tGateway\n")), None);
    assert_eq!(default_route(&chars("wlan0\t00000000\t0100A8C0\n")), None);
    assert_eq!(default_route(&chars("h\nwlan0\t0000A8C0\t00000000\n")), None);
    assert_eq!(default_route(&chars("h\nwlan0 00000000\n")), None);
}

#[test]
fn default_route_first_match_and_bad_gateway() {
    let t = "h\r\n  eth0   00000000   zz  \r\nwlan0 00000000 0100A8C0\n";
    assert_eq!(default_route(&chars(t)), Some(DefaultRoute { iface: chars("eth0"), gateway: [0, 0, 0, 0] }));
    let t = "h\nusb0 00000000 +FE01A8C0";
    assert_eq!(default_route(&chars(t)), Some(DefaultRoute { iface: chars("usb0"), gateway: [192, 168, 1, 254] }));
}

#[test]
fn hex_parsing_matches_from_str_radix() {
    for s in ["0", "ff", "FF", "+ff", "FFFFFFFF", "100000000", "", "+", "-1", "g", "0x1", "00000000001"] {
        let c = chars(s);
        assert_eq!(parse_hex(&c, 0, c.len()), u32::from_str_radix(s, 16).ok(), "{s}");
    }
}

#[test]
fn supervisor_starts_at_once_and_restarts_after_a_crash() {
    let mut s = Supervisor::new(false, 1_000, 42, NOW);
    assert!(s.start_due(NOW));
    assert!(!s.start_due(NOW));
    s.player_spawned(NOW, 1_000);
    assert_eq!(s.tick(NOW, 1_000), (false, None));
    assert_eq!(s.ctl_update(), None);
    let r = s.handle(NOW + secs(10), secs(10), &Event::PlayerExited("signal 11".to_string()));
    assert_eq!(r, Reaction::Respawn { requested: false, delay: 3_000 });
    assert!(!s.start_due(NOW + secs(10) + 2_999));
    assert!(s.start_due(NOW + secs(13)));
}

#[test]
fn supervisor_requested_restart_is_immediate() {
    let mut s = Supervisor::new(false, 1_000, 42, NOW);
    assert!(s.start_due(NOW));
    s.player_spawned(NOW, 1_000);
    let (probe, change) = s.tick(NOW + secs(1), 100_000);
    assert!(!probe);
    assert_eq!(change, Some(Change::Requested(vec![Reason::Clock])));
    assert_eq!(s.ctl_update(), Some(true));
    s.ctl_sent(true);
    assert_eq!(s.ctl_update(), None);
    let r = s.handle(NOW + secs(5), secs(5), &Event::PlayerExited("exit status 0".to_string()));
    assert_eq!(r, Reaction::Respawn { requested: true, delay: 0 });
    assert!(s.start_due(NOW + secs(5)));
    s.player_spawned(NOW + secs(5), 100_000);
    assert_eq!(s.ctl_update(), None);
}

#[test]
fn supervisor_withdraws_a_request_that_no_longer_holds() {
    let mut s = Supervisor::new(false, 1_000, 42, NOW);
    s.start_due(NOW);
    s.player_spawned(NOW, 1_000);
    s.tick(NOW, 100_000);
    s.ctl_sent(true);
    assert_eq!(s.tick(NOW, 1_000).1, Some(Change::Dropped { was_requested: true }));
    assert_eq!(s.ctl_update(), Some(false));
}

#[test]
fn supervisor_spawn_failure_backs_off() {
    let mut s = Supervisor::new(false, 1_000, 42, NOW);
    assert!(s.start_due(NOW));
    assert_eq!(s.spawn_failed(NOW), 3_000);
    assert!(!s.start_due(NOW + 2_999));
    assert!(s.start_due(NOW + 3_000));
    assert_eq!(s.spawn_failed(NOW + 3_000), 6_000);
}

#[test]
fn supervisor_probes_only_with_chumby_com_on() {
    let mut off = Supervisor::new(false, 1_000, 42, NOW);
    off.handle(NOW, 0, &Event::Nm(Some(FULL)));
    assert_eq!(off.tick(NOW + secs(60), 1_000).0, false);

    let mut on = Supervisor::new(true, 1_000, 42, NOW);
    assert_eq!(on.handle(NOW, 0, &Event::Nm(Some(FULL))), Reaction::Nothing);
    assert_eq!(on.nm_state(), Some(FULL));
    assert_eq!(on.tick(NOW + secs(59), 1_000).0, false);
    assert_eq!(on.tick(NOW + secs(60), 1_000).0, true);
    assert_eq!(on.tick(NOW + secs(61), 1_000).0, false, "one probe at a time");
    let r = on.handle(NOW + secs(62), 0, &Event::Probe(Err("timeout".to_string())));
    assert_eq!(r, Reaction::Probed { changed: true, warn: false });
    assert_eq!(on.failures(), 1);
    let r = on.handle(NOW + secs(62), 0, &Event::Probe(Err("timeout".to_string())));
    assert_eq!(r, Reaction::Probed { changed: false, warn: false });
    let r = on.handle(NOW + secs(62), 0, &Event::Probe(Ok(())));
    assert_eq!(r, Reaction::Probed { changed: true, warn: false });
    assert_eq!(on.failures(), 0);
}

#[test]
fn supervisor_shutdown_stops() {
    let mut s = Supervisor::new(false, 1_000, 42, NOW);
    assert_eq!(s.handle(NOW, 0, &Event::Shutdown(15)), Reaction::Stop);
    assert_eq!(s.handle(NOW, 0, &Event::PlayerExited("x".to_string())), Reaction::Nothing);
}

use chumby_supervisor::child::{stop_step, StopStep};
use chumby_supervisor::nm::report;
use chumby_supervisor::probe::probe_ok;

#[test]
fn nm_reports_only_changes() {
    assert_eq!(report(None, None), (Some(None), true));
    assert_eq!(report(None, Some(4)), (Some(Some(4)), true));
    assert_eq!(report(Some(Some(4)), Some(4)), (Some(Some(4)), false));
    assert_eq!(report(Some(Some(4)), Some(2)), (Some(Some(2)), true));
    assert_eq!(report(Some(Some(4)), None), (Some(None), true));
    assert_eq!(report(Some(None), None), (Some(None), false));
    assert_eq!(report(Some(None), Some(1)), (Some(Some(1)), true));
}

#[test]
fn stopping_escalates_to_kill_after_the_grace_period() {
    assert_eq!(stop_step(false, None, 0, 10_000), StopStep::Done);
    assert_eq!(stop_step(true, None, 0, 10_000), StopStep::Term);
    assert_eq!(stop_step(true, Some(5), 9_999, 10_000), StopStep::Wait);
    assert_eq!(stop_step(false, Some(5), 9_999, 10_000), StopStep::Done);
    assert_eq!(stop_step(true, Some(5), 10_005, 10_000), StopStep::Kill);
    assert_eq!(stop_step(false, Some(5), 10_005, 10_000), StopStep::Kill);
    assert_eq!(stop_step(true, Some(u64::MAX - 1), 3, 10_000), StopStep::Wait);
}

#[test]
fn probe_verdicts() {
    assert!(probe_ok(Some(200)));
    assert!(probe_ok(Some(299)));
    assert!(!probe_ok(Some(199)));
    assert!(!probe_ok(Some(300)));
    assert!(!probe_ok(Some(404)));
    assert!(!probe_ok(None));
}

#[test]
fn restart_flag_follows_the_history() {
    let mut p = Policy::new(false, 1_000);
    p.player_started(NOW, 1_000);
    assert!(!p.wants_restart());
    p.set_offset(100_000);
    assert!(!p.wants_restart(), "a reading alone does not ask");
    assert!(matches!(p.tick(NOW), Some(Change::Requested(_))));
    assert!(p.wants_restart());
    assert_eq!(p.tick(NOW + 1), None, "reported once");
    p.set_nm(NOW, Some(false));
    p.set_chumby(true);
    assert!(p.wants_restart(), "other readings leave it");
    p.player_started(NOW + 2, 100_000);
    assert!(!p.wants_restart(), "a start withdraws it");
    p.set_offset(1_000);
    assert!(matches!(p.tick(NOW + 3), Some(Change::Requested(_))));
    p.set_offset(100_000);
    assert_eq!(p.tick(NOW + 4), Some(Change::Dropped { was_requested: true }));
    assert!(!p.wants_restart(), "a drop withdraws it");
}

#[test]
fn failure_count_follows_the_history() {
    let mut s = ProbeSchedule::new(3);
    s.done(NOW, false);
    s.set_full(NOW, true);
    s.done(NOW, false);
    s.pick();
    assert_eq!(s.failures(), 2);
    s.done(NOW, true);
    assert_eq!(s.failures(), 0);
    s.done(NOW, false);
    s.set_full(NOW, false);
    assert_eq!(s.failures(), 1);
}
