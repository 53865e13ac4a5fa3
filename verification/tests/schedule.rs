use wifi_hello::dashboard::{Action, Outcome, PanelOp, RefreshSchedule, UPDATE_PERIOD_MS};

fn refresh_steps() -> Vec<Action> {
    vec![
        Action::FetchWeather,
        Action::Panel(PanelOp::WakeUp),
        Action::Wait(5),
        Action::Panel(PanelOp::ClearFrame),
        Action::Panel(PanelOp::ClearBuffer),
        Action::Panel(PanelOp::ShowFrame),
        Action::Wait(5),
        Action::Panel(PanelOp::DrawDate),
        Action::Panel(PanelOp::DrawTemperature),
        Action::Panel(PanelOp::DrawIcon),
        Action::Panel(PanelOp::ShowFrame),
        Action::Wait(5),
        Action::Panel(PanelOp::Sleep),
    ]
}

/// Runs the schedule with a simulated clock: every step takes `step_ms`,
/// fixed waits take their length and rests take theirs. Gives each action
/// with the time it begins.
fn simulate(steps: usize, step_ms: u64) -> Vec<(u64, Action)> {
    let mut s = RefreshSchedule::new();
    let mut now: u64 = 1_000;
    let mut action = s.current();
    let mut seen = Vec::new();
    for _ in 0..steps {
        seen.push((now, action));
        now += match action {
            Action::Wait(secs) => secs * 1_000,
            Action::Rest(ms) => ms,
            _ => step_ms,
        };
        action = s.advance(Outcome::Done, now);
    }
    seen
}

#[test]
fn schedule_starts_with_rotation_then_fetch() {
    let mut s = RefreshSchedule::new();
    assert_eq!(s.current(), Action::Rotate);
    assert_eq!(s.advance(Outcome::Done, 0), Action::FetchWeather);
}

#[test]
fn schedule_repeats_the_refresh_cycle() {
    let seen: Vec<Action> = simulate(1 + 28, 100).into_iter().map(|(_, a)| a).collect();
    let mut expected = vec![Action::Rotate];
    for _ in 0..2 {
        expected.extend(refresh_steps());
        // 10 steps of 100 ms and three waits of 5 s since the request began.
        expected.push(Action::Rest(UPDATE_PERIOD_MS - 1_000 - 15_000));
    }
    assert_eq!(seen, expected);
}

#[test]
fn fetches_begin_ten_minutes_apart() {
    let seen = simulate(1 + 14 * 5, 2_345);
    let fetch_times: Vec<u64> = seen
        .iter()
        .filter(|(_, a)| *a == Action::FetchWeather)
        .map(|(t, _)| *t)
        .collect();
    assert_eq!(fetch_times.len(), 5);
    for pair in fetch_times.windows(2) {
        assert_eq!(pair[1] - pair[0], 600_000);
    }
}

#[test]
fn slow_refresh_fetches_again_at_once() {
    // Each step takes a minute: the refresh overruns the period.
    let seen = simulate(1 + 14 * 2, 60_000);
    let rests: Vec<Action> = seen
        .iter()
        .map(|(_, a)| *a)
        .filter(|a| matches!(a, Action::Rest(_)))
        .collect();
    assert_eq!(rests, vec![Action::Rest(0), Action::Rest(0)]);
}

#[test]
fn refused_request_halts_for_good() {
    let mut s = RefreshSchedule::new();
    assert_eq!(s.advance(Outcome::Done, 10), Action::FetchWeather);
    assert_eq!(s.advance(Outcome::RequestRefused, 20), Action::Wait(1));
    for t in 0..20 {
        assert_eq!(s.advance(Outcome::Done, 1_000 * t + 30), Action::Wait(1));
    }
}

#[test]
fn refusal_outside_a_request_is_ignored() {
    let mut s = RefreshSchedule::new();
    assert_eq!(s.advance(Outcome::RequestRefused, 0), Action::FetchWeather);
    assert_eq!(s.advance(Outcome::Done, 5), Action::Panel(PanelOp::WakeUp));
    assert_eq!(s.advance(Outcome::RequestRefused, 9), Action::Wait(5));
}
