use vstd::prelude::*;

verus! {

use crate::curve::CurveConfig;
use crate::curve::determine_fan_level;

/// The immutable per-process policy of the control loop.
#[derive(Clone, Copy, Debug)]
pub struct LoopPolicy {
    /// Time between ticks, in milliseconds. The loop around the library
    /// sleeps this long; no decision here depends on it.
    pub interval_ms: u64,
    /// Issue the commands on every tick, changed duty or not.
    pub force: bool,
    /// Never issue a command; only report what would be done.
    pub dry_run: bool,
    /// Run one tick and stop.
    pub single_shot: bool,
    /// Report per-sensor detail and unchanged duties.
    pub verbose: bool,
}

/// The loop-local state: the duty most recently computed and recorded.
/// `None` before the first tick.
#[derive(Clone, Copy, Debug)]
pub struct LoopState {
    pub last_duty: Option<u8>,
}

/// The recorded duty as a mathematical value.
pub open spec fn recorded_duty(s: LoopState) -> Option<int> {
    match s.last_duty {
        Some(d) => Some(d as int),
        None => None,
    }
}

/// Whether a tick computing `duty` issues the set-fan commands: never in
/// dry-run, otherwise when forced or when the duty differs from the
/// recorded one — in particular always on the first tick, where nothing
/// is recorded yet.
pub open spec fn sends(policy: LoopPolicy, last: Option<int>, duty: int) -> bool {
    !policy.dry_run && (policy.force || last != Some(duty))
}

/// How many ticks of a run issue commands, starting from the recorded
/// duty `last`, when the consecutive temperatures are `temps` and every
/// tick records the duty it computed.
pub open spec fn count_sends(
    policy: LoopPolicy,
    cfg: CurveConfig,
    last: Option<int>,
    temps: Seq<int>,
) -> nat
    decreases temps.len(),
{
    if temps.len() == 0 {
        0
    } else {
        let d = cfg.duty_for(temps[0]);
        (if sends(policy, last, d) {
            1nat
        } else {
            0nat
        }) + count_sends(policy, cfg, Some(d), temps.drop_first())
    }
}

/// What one tick decides: the duty, whether to issue the commands,
/// what to report, and the state to carry into the next tick.
pub struct TickPlan {
    /// The duty the curve assigns to this tick's temperature.
    pub duty: u8,
    /// Issue the mode-select and set-duty commands this tick.
    pub send: bool,
    /// Report the duty about to be set (verbose or dry-run reporting).
    pub announce: bool,
    /// Report that the duty is unchanged (verbose reporting only).
    pub note_unchanged: bool,
    /// The state for the next tick. It records this tick's duty whether
    /// or not commands are issued (also under dry-run), so an unforced
    /// loop never re-reports an unchanged duty. When issuing the
    /// commands fails the caller keeps its old state instead: the new
    /// duty was not applied and must not be recorded as such.
    pub next: LoopState,
}

/// Decide one tick of the control loop from the policy, the recorded
/// state and the temperature reading.
pub fn plan_tick(policy: &LoopPolicy, cfg: &CurveConfig, state: &LoopState, temp_mdeg: i64) -> (r:
    TickPlan)
    requires
        cfg.wf(),
    ensures
        r.duty as int == cfg.duty_for(temp_mdeg as int),
        cfg.min_fan <= r.duty <= cfg.max_fan,
        r.send == sends(*policy, recorded_duty(*state), r.duty as int),
        r.announce == ((policy.verbose || policy.dry_run) && (policy.force || recorded_duty(*state)
            != Some(r.duty as int))),
        r.note_unchanged == (policy.verbose && !(policy.force || recorded_duty(*state) != Some(
            r.duty as int,
        ))),
        r.next.last_duty == Some(r.duty),
{
    let duty = determine_fan_level(temp_mdeg, cfg);
    let changed = match state.last_duty {
        None => true,
        Some(d) => d != duty,
    };
    let should = policy.force || changed;
    TickPlan {
        duty,
        send: !policy.dry_run && should,
        announce: (policy.verbose || policy.dry_run) && should,
        note_unchanged: policy.verbose && !should,
        next: LoopState { last_duty: Some(duty) },
    }
}

/// Dry-run law: with `dry_run` set, no run of ticks ever issues a
/// command, whatever the temperatures, the `force` flag or the starting
/// state.
pub proof fn lemma_dry_run_never_sends(
    policy: LoopPolicy,
    cfg: CurveConfig,
    last: Option<int>,
    temps: Seq<int>,
)
    requires
        policy.dry_run,
    ensures
        count_sends(policy, cfg, last, temps) == 0,
    decreases temps.len(),
{
    if temps.len() > 0 {
        lemma_dry_run_never_sends(policy, cfg, Some(cfg.duty_for(temps[0])), temps.drop_first());
    }
}

/// Idempotence law: in an unforced run whose every tick computes the same
/// duty, the commands are issued at most once, and not at all when that
/// duty is already the recorded one.
pub proof fn lemma_stable_duty_sends_at_most_once(
    policy: LoopPolicy,
    cfg: CurveConfig,
    last: Option<int>,
    temps: Seq<int>,
    d: int,
)
    requires
        !policy.force,
        forall|i: int| 0 <= i < temps.len() ==> cfg.duty_for(#[trigger] temps[i]) == d,
    ensures
        count_sends(policy, cfg, last, temps) <= 1,
        last == Some(d) ==> count_sends(policy, cfg, last, temps) == 0,
    decreases temps.len(),
{
    if temps.len() > 0 {
        assert(cfg.duty_for(temps[0]) == d);
        assert forall|i: int| 0 <= i < temps.drop_first().len() implies cfg.duty_for(
            #[trigger] temps.drop_first()[i],
        ) == d by {
            assert(temps.drop_first()[i] == temps[i + 1]);
        }
        lemma_stable_duty_sends_at_most_once(policy, cfg, Some(d), temps.drop_first(), d);
    }
}

} // verus!
