use fanctl::control::plan_tick;
use fanctl::control::LoopPolicy;
use fanctl::control::LoopState;
use fanctl::curve::CurveConfig;
use fanctl::errors::FanError;
use fanctl::ipmi::set_fan_outcome;

fn policy(force: bool, dry_run: bool, verbose: bool) -> LoopPolicy {
    LoopPolicy { interval_ms: 5000, force, dry_run, single_shot: false, verbose }
}

fn scenario_cfg() -> CurveConfig {
    CurveConfig::new(10, 100, 40_000, 90_000, 2).unwrap()
}

#[test]
fn first_tick_always_applies() {
    let cfg = scenario_cfg();
    let p = policy(false, false, false);
    let state = LoopState { last_duty: None };
    let plan = plan_tick(&p, &cfg, &state, 65_000);
    assert_eq!(plan.duty, 33);
    assert!(plan.send);
    assert_eq!(plan.next.last_duty, Some(33));
}

#[test]
fn unchanged_duty_is_not_reapplied() {
    // An unforced loop holding one duty applies it exactly once,
    // however many ticks produce it.
    let cfg = scenario_cfg();
    let p = policy(false, false, false);
    let mut state = LoopState { last_duty: None };
    let mut applies = 0;
    for _ in 0..5 {
        let plan = plan_tick(&p, &cfg, &state, 65_000);
        assert_eq!(plan.duty, 33);
        if plan.send {
            applies += 1;
        }
        state = plan.next;
    }
    assert_eq!(applies, 1);
}

#[test]
fn changed_duty_is_applied_again() {
    // First tick applies, a repeat of the same temperature does not,
    // a hotter reading does.
    let cfg = scenario_cfg();
    let p = policy(false, false, false);
    let state = LoopState { last_duty: None };

    let first = plan_tick(&p, &cfg, &state, 65_000);
    assert_eq!(first.duty, 33);
    assert!(first.send);

    let second = plan_tick(&p, &cfg, &first.next, 65_000);
    assert_eq!(second.duty, 33);
    assert!(!second.send);

    let third = plan_tick(&p, &cfg, &second.next, 80_000);
    assert_eq!(third.duty, 68);
    assert!(third.send);
}

#[test]
fn force_reapplies_an_unchanged_duty() {
    let cfg = scenario_cfg();
    let p = policy(true, false, false);
    let mut state = LoopState { last_duty: None };
    for _ in 0..3 {
        let plan = plan_tick(&p, &cfg, &state, 65_000);
        assert!(plan.send);
        state = plan.next;
    }
}

#[test]
fn dry_run_never_sends() {
    // Whatever the force flag or the temperature swings, a dry-run
    // policy never issues a command.
    let cfg = scenario_cfg();
    for force in [false, true] {
        let p = policy(force, true, false);
        let mut state = LoopState { last_duty: None };
        for t in [65_000i64, 65_000, 80_000, 30_000, 200_000] {
            let plan = plan_tick(&p, &cfg, &state, t);
            assert!(!plan.send);
            state = plan.next;
        }
    }
}

#[test]
fn dry_run_still_reports_what_it_would_do() {
    let cfg = scenario_cfg();
    let p = policy(false, true, false);
    let state = LoopState { last_duty: None };
    let plan = plan_tick(&p, &cfg, &state, 65_000);
    assert!(plan.announce);
    assert!(!plan.send);

    // A repeated duty is not re-announced by an unforced dry run.
    let again = plan_tick(&p, &cfg, &plan.next, 65_000);
    assert!(!again.announce);
}

#[test]
fn verbose_notes_unchanged_duty() {
    let cfg = scenario_cfg();
    let p = policy(false, false, true);
    let state = LoopState { last_duty: Some(33) };
    let plan = plan_tick(&p, &cfg, &state, 65_000);
    assert!(!plan.send);
    assert!(!plan.announce);
    assert!(plan.note_unchanged);
}

#[test]
fn partial_command_failure_keeps_the_old_baseline() {
    // Mode-select succeeded but set-duty failed: the call reports
    // CommandFailed, the caller keeps its old state, and a retry from
    // that state would send again.
    let cfg = scenario_cfg();
    let p = policy(false, false, false);
    let state = LoopState { last_duty: Some(25) };

    let plan = plan_tick(&p, &cfg, &state, 65_000);
    assert_eq!(plan.duty, 33);
    assert!(plan.send);

    let outcome = set_fan_outcome(true, false);
    assert_eq!(outcome.unwrap_err(), FanError::CommandFailed);

    // The new duty was not applied, so the old state stays the baseline.
    let retry = plan_tick(&p, &cfg, &state, 65_000);
    assert!(retry.send);
    assert_eq!(retry.duty, 33);
}
