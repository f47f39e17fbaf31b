use vstd::prelude::*;

verus! {

/// What one evaluation of a rule for one instance leads to.
#[derive(Debug, Clone, Copy, PartialEq, Eq, Structural)]
pub enum RuleOutcome {
    /// Run the rule's actions now.
    Fire,
    /// Start the rule's `for` timer; the actions run when it expires.
    StartTimer,
    /// The rule stopped holding after it was active: cancel its timer and run
    /// its `on clear` actions.
    Clear,
    /// The rule does not hold: cancel its timer, if one runs.
    Cancel,
    /// Nothing to do.
    Hold,
}

/// How a rule fires, read from its declaration with its durations in the
/// clock's unit: whether it waits on a `for` timer, its cooldown, its
/// frequency (occurrences and window), and whether it has `on clear` actions.
#[derive(Debug, Clone, Copy)]
pub struct RuleGate {
    pub for_duration: bool,
    pub cooldown: Option<u64>,
    pub frequency: Option<(u32, u64)>,
    pub on_clear: bool,
}

/// What is remembered of one rule for one instance between evaluations.
#[derive(Debug)]
pub struct RuleState {
    /// Whether the condition held at the last evaluation.
    pub was_met: bool,
    /// Whether the rule is active (it held, and has not cleared since).
    pub active: bool,
    /// When its actions last ran, for the cooldown.
    pub last_fired: Option<u64>,
    /// When its condition last rose, within the frequency window.
    pub history: Vec<u64>,
}

pub struct RuleStateView {
    pub was_met: bool,
    pub active: bool,
    pub last_fired: Option<u64>,
    pub history: Seq<u64>,
}

impl View for RuleState {
    type V = RuleStateView;

    open spec fn view(&self) -> RuleStateView {
        RuleStateView {
            was_met: self.was_met,
            active: self.active,
            last_fired: self.last_fired,
            history: self.history@,
        }
    }
}

/// A rise at `t` still counts at `now` when it is within `window` of it.
pub open spec fn in_window(now: u64, window: u64) -> spec_fn(u64) -> bool {
    |t: u64| t + window >= now
}

/// The rises kept after one at `now`: every earlier one still in the window,
/// then `now`.
pub open spec fn kept_rises(h: Seq<u64>, now: u64, window: u64) -> Seq<u64> {
    h.push(now).filter(in_window(now, window))
}

/// The cooldown lets the rule fire: it never fired, or at least `cooldown`
/// has passed since it did.
pub open spec fn cooled_down(last: Option<u64>, cooldown: Option<u64>, now: u64) -> bool {
    match (last, cooldown) {
        (Some(l), Some(cd)) => now >= l && now - l >= cd,
        _ => true,
    }
}

/// One evaluation of a rule for an instance whose condition is `met` at
/// `now`. The rule acts only on a rising edge (the condition holds and did
/// not before), and not twice for one instance in one update cycle. With a
/// frequency, the rises inside the window must reach the count first (then
/// they start over). With a `for` duration a timer starts; otherwise the
/// actions run unless the cooldown forbids it. While the condition keeps
/// holding, nothing happens. When it stops holding, the timer is cancelled,
/// and a rule that was active clears (running `on clear` where it has one).
pub open spec fn spec_rule_step(
    s: RuleStateView,
    g: RuleGate,
    met: bool,
    fired_this_cycle: bool,
    now: u64,
) -> (RuleStateView, RuleOutcome) {
    if met {
        let s1 = RuleStateView { was_met: true, active: true, ..s };
        if s.was_met || fired_this_cycle {
            (s1, RuleOutcome::Hold)
        } else {
            let (s2, counted) = match g.frequency {
                Some((count, window)) => {
                    let h = kept_rises(s.history, now, window);
                    if h.len() < count {
                        (RuleStateView { history: h, ..s1 }, false)
                    } else {
                        (RuleStateView { history: Seq::empty(), ..s1 }, true)
                    }
                },
                None => (s1, true),
            };
            if !counted {
                (s2, RuleOutcome::Hold)
            } else if g.for_duration {
                (s2, RuleOutcome::StartTimer)
            } else if !cooled_down(s.last_fired, g.cooldown, now) {
                (s2, RuleOutcome::Hold)
            } else {
                (RuleStateView { last_fired: Some(now), ..s2 }, RuleOutcome::Fire)
            }
        }
    } else {
        let s1 = RuleStateView { was_met: false, active: false, ..s };
        if s.active && g.on_clear {
            (s1, RuleOutcome::Clear)
        } else {
            (s1, RuleOutcome::Cancel)
        }
    }
}

impl RuleState {
    /// A rule that has not held yet.
    pub fn new() -> (s: Self)
        ensures
            s@ == (RuleStateView { was_met: false, active: false, last_fired: None, history: Seq::empty() }),
    {
        RuleState { was_met: false, active: false, last_fired: None, history: Vec::new() }
    }
}

/// The rises kept after one at `now`.
fn keep_rises(h: &Vec<u64>, now: u64, window: u64) -> (r: Vec<u64>)
    ensures
        r@ == kept_rises(h@, now, window),
{
    let ghost all = h@.push(now);
    let mut r: Vec<u64> = Vec::new();
    let n = h.len();
    let mut i: usize = 0;
    while i < n
        invariant
            n == h@.len(),
            all == h@.push(now),
            i <= n,
            r@ == all.take(i as int).filter(in_window(now, window)),
        decreases n - i,
    {
        let t = h[i];
        assert(t == all[i as int]);
        assert(all.take(i + 1).drop_last() =~= all.take(i as int));
        reveal_with_fuel(Seq::<_>::filter, 1);
        if t as u128 + window as u128 >= now as u128 {
            r.push(t);
        }
        i += 1;
    }
    assert(all.take(n + 1).drop_last() =~= all.take(n as int));
    assert(all.take(n + 1) =~= all);
    reveal_with_fuel(Seq::<_>::filter, 1);
    if now as u128 + window as u128 >= now as u128 {
        r.push(now);
    }
    r
}

/// One evaluation of a rule for an instance (see `spec_rule_step`).
pub fn rule_step(state: &RuleState, gate: &RuleGate, met: bool, fired_this_cycle: bool, now: u64) -> (r: (
    RuleState,
    RuleOutcome,
))
    ensures
        (r.0@, r.1) == spec_rule_step(state@, *gate, met, fired_this_cycle, now),
{
    let history = state.history.clone();
    if met {
        if state.was_met || fired_this_cycle {
            return (
                RuleState { was_met: true, active: true, last_fired: state.last_fired, history },
                RuleOutcome::Hold,
            );
        }
        let mut history = history;
        match gate.frequency {
            Some((count, window)) => {
                let h = keep_rises(&state.history, now, window);
                if (h.len() as u64) < (count as u64) {
                    return (
                        RuleState { was_met: true, active: true, last_fired: state.last_fired, history: h },
                        RuleOutcome::Hold,
                    );
                }
                history = Vec::new();
            },
            None => {},
        }
        if gate.for_duration {
            return (
                RuleState { was_met: true, active: true, last_fired: state.last_fired, history },
                RuleOutcome::StartTimer,
            );
        }
        let cooled = match (state.last_fired, gate.cooldown) {
            (Some(l), Some(cd)) => now >= l && now - l >= cd,
            _ => true,
        };
        if !cooled {
            return (
                RuleState { was_met: true, active: true, last_fired: state.last_fired, history },
                RuleOutcome::Hold,
            );
        }
        (RuleState { was_met: true, active: true, last_fired: Some(now), history }, RuleOutcome::Fire)
    } else {
        let outcome = if state.active && gate.on_clear {
            RuleOutcome::Clear
        } else {
            RuleOutcome::Cancel
        };
        (RuleState { was_met: false, active: false, last_fired: state.last_fired, history }, outcome)
    }
}

/// A rule acts only on a rising edge: it fires or starts its timer only when
/// its condition holds now and did not before, and never twice in one cycle.
pub proof fn law_fires_only_on_rising_edge(
    s: RuleStateView,
    g: RuleGate,
    met: bool,
    fired_this_cycle: bool,
    now: u64,
)
    ensures
        ({
            let o = spec_rule_step(s, g, met, fired_this_cycle, now).1;
            o == RuleOutcome::Fire || o == RuleOutcome::StartTimer
        }) ==> met && !s.was_met && !fired_this_cycle,
        spec_rule_step(s, g, met, fired_this_cycle, now).0.was_met == met,
{
}

/// A condition that keeps holding fires nothing more: after any step in which
/// it held, a second evaluation with it still holding does nothing.
pub proof fn law_no_refire_while_held(
    s: RuleStateView,
    g: RuleGate,
    fired1: bool,
    fired2: bool,
    now1: u64,
    now2: u64,
)
    ensures
        spec_rule_step(spec_rule_step(s, g, true, fired1, now1).0, g, true, fired2, now2).1
            == RuleOutcome::Hold,
{
}

/// A rule clears only when its condition stops holding after the rule was
/// active and it has `on clear` actions; and a rule that fired clears the
/// first time its condition stops holding.
pub proof fn law_clear_after_fire(s: RuleStateView, g: RuleGate, met: bool, fired: bool, now1: u64, now2: u64)
    ensures
        spec_rule_step(s, g, met, fired, now1).1 == RuleOutcome::Clear <==> (!met && s.active
            && g.on_clear),
        g.on_clear && spec_rule_step(s, g, true, fired, now1).1 == RuleOutcome::Fire ==> spec_rule_step(
            spec_rule_step(s, g, true, fired, now1).0,
            g,
            false,
            false,
            now2,
        ).1 == RuleOutcome::Clear,
{
}

/// The cooldown holds: after firing at `now1`, the rule fires again at a
/// later rising edge only once `cooldown` has passed.
pub proof fn law_cooldown_respected(s: RuleStateView, g: RuleGate, now1: u64, now2: u64, fired: bool)
    requires
        g.cooldown is Some,
        g.frequency is None,
        !g.for_duration,
        spec_rule_step(s, g, true, false, now1).1 == RuleOutcome::Fire,
    ensures
        ({
            let s1 = spec_rule_step(s, g, true, false, now1).0;
            let s2 = spec_rule_step(s1, g, false, false, now1).0;
            spec_rule_step(s2, g, true, fired, now2).1 == RuleOutcome::Fire ==> now2 >= now1
                && now2 - now1 >= g.cooldown.unwrap()
        }),
{
}

} // verus!
