//! What the dashboard does, and in which order: turn the panel, then every
//! ten minutes fetch the weather and redraw the e-paper panel. The caller
//! performs each action and reports how it went and when it ended; the
//! schedule times its rest so that fetches begin ten minutes apart. A
//! refused request stops the station for good.

use vstd::prelude::*;

verus! {

/// An operation on the e-paper panel or its frame buffer.
#[derive(PartialEq, Eq, Structural, Clone, Copy, Debug)]
pub enum PanelOp {
    /// Wake the panel controller.
    WakeUp,
    /// Clear the panel's frame memory.
    ClearFrame,
    /// Fill the frame buffer with white.
    ClearBuffer,
    /// Send the frame buffer to the panel and refresh it.
    ShowFrame,
    /// Draw the date label and the line under it.
    DrawDate,
    /// Draw the temperature.
    DrawTemperature,
    /// Draw the weather icon and the line beside it.
    DrawIcon,
    /// Put the panel controller to deep sleep.
    Sleep,
}

/// What the station does next.
#[derive(PartialEq, Eq, Structural, Clone, Copy, Debug)]
pub enum Action {
    /// Turn the frame buffer by 90 degrees (once, at start).
    Rotate,
    /// Ask the weather service for the current weather.
    FetchWeather,
    /// Operate the panel.
    Panel(PanelOp),
    /// Wait this many seconds.
    Wait(u64),
    /// Rest this many milliseconds, until the next request is due.
    Rest(u64),
}

/// How the last action went.
#[derive(PartialEq, Eq, Structural, Clone, Copy, Debug)]
pub enum Outcome {
    /// It was carried out.
    Done,
    /// The weather request could not be built.
    RequestRefused,
}

/// Where the station stands.
#[derive(PartialEq, Eq, Structural, Clone, Copy, Debug)]
pub enum Phase {
    /// Before the first action.
    Booting,
    /// At this step of the refresh cycle.
    Running(usize),
    /// Stopped after a refused request.
    Halted,
}

/// Milliseconds from the start of one request to the start of the next.
pub const UPDATE_PERIOD_MS: u64 = 600_000;

/// Seconds given to the panel around each refresh.
pub const SETTLE_SECS: u64 = 5;

/// Seconds between two checks of a halted station.
pub const HALT_POLL_SECS: u64 = 1;

/// Number of steps in one refresh cycle.
pub const CYCLE_LEN: usize = 14;

/// Index of the rest, the last step of the cycle.
pub const REST_STEP: usize = 13;

/// Step `i` of the refresh cycle, where the rest lasts `rest_ms`.
pub open spec fn step_action(i: int, rest_ms: u64) -> Action {
    if i == 0 {
        Action::FetchWeather
    } else if i == 1 {
        Action::Panel(PanelOp::WakeUp)
    } else if i == 2 {
        Action::Wait(SETTLE_SECS)
    } else if i == 3 {
        Action::Panel(PanelOp::ClearFrame)
    } else if i == 4 {
        Action::Panel(PanelOp::ClearBuffer)
    } else if i == 5 {
        Action::Panel(PanelOp::ShowFrame)
    } else if i == 6 {
        Action::Wait(SETTLE_SECS)
    } else if i == 7 {
        Action::Panel(PanelOp::DrawDate)
    } else if i == 8 {
        Action::Panel(PanelOp::DrawTemperature)
    } else if i == 9 {
        Action::Panel(PanelOp::DrawIcon)
    } else if i == 10 {
        Action::Panel(PanelOp::ShowFrame)
    } else if i == 11 {
        Action::Wait(SETTLE_SECS)
    } else if i == 12 {
        Action::Panel(PanelOp::Sleep)
    } else {
        Action::Rest(rest_ms)
    }
}

/// Milliseconds still to wait at time `now` until one update period has
/// passed since `fetch_started`; none once it has.
pub open spec fn rest_until_due(fetch_started: u64, now: u64) -> u64 {
    let elapsed: int = if now >= fetch_started { now - fetch_started } else { 0 };
    if elapsed < UPDATE_PERIOD_MS { (UPDATE_PERIOD_MS - elapsed) as u64 } else { 0 }
}

/// The state of a schedule: its phase, when the last request began, and
/// how long the rest of this cycle lasts (both in milliseconds).
pub struct ScheduleView {
    pub phase: Phase,
    pub fetch_started: u64,
    pub rest_ms: u64,
}

/// The action carried out in a state.
pub open spec fn action_of(s: ScheduleView) -> Action {
    match s.phase {
        Phase::Booting => Action::Rotate,
        Phase::Running(i) => step_action(i as int, s.rest_ms),
        Phase::Halted => Action::Wait(HALT_POLL_SECS),
    }
}

/// The phase that follows `p` when its action ended with `o`.
pub open spec fn next_phase(p: Phase, o: Outcome) -> Phase {
    match p {
        Phase::Booting => Phase::Running(0),
        Phase::Running(i) => if i == 0 && o == Outcome::RequestRefused {
            Phase::Halted
        } else if i + 1 < CYCLE_LEN {
            Phase::Running((i + 1) as usize)
        } else {
            Phase::Running(0)
        },
        Phase::Halted => Phase::Halted,
    }
}

/// The state that follows `s` when its action ended with `o` at time
/// `now`: a request begins at `now`, and a rest lasts until the update
/// period since the last request is over.
pub open spec fn next_state(s: ScheduleView, o: Outcome, now: u64) -> ScheduleView {
    let p = next_phase(s.phase, o);
    ScheduleView {
        phase: p,
        fetch_started: if p == Phase::Running(0) { now } else { s.fetch_started },
        rest_ms: if p == Phase::Running(REST_STEP) {
            rest_until_due(s.fetch_started, now)
        } else {
            s.rest_ms
        },
    }
}

/// A phase that the schedule can be in.
pub open spec fn phase_ok(p: Phase) -> bool {
    match p {
        Phase::Running(i) => i < CYCLE_LEN,
        _ => true,
    }
}

/// The refresh schedule of the dashboard.
pub struct RefreshSchedule {
    phase: Phase,
    fetch_started: u64,
    rest_ms: u64,
}

impl RefreshSchedule {
    #[verifier::type_invariant]
    spec fn inv(self) -> bool {
        phase_ok(self.phase)
    }

    /// The current state.
    pub closed spec fn view(&self) -> ScheduleView {
        ScheduleView { phase: self.phase, fetch_started: self.fetch_started, rest_ms: self.rest_ms }
    }

    /// A schedule before its first action.
    pub fn new() -> (s: Self)
        ensures
            s.view().phase == Phase::Booting,
    {
        RefreshSchedule { phase: Phase::Booting, fetch_started: 0, rest_ms: 0 }
    }

    /// The action to carry out now.
    pub fn current(&self) -> (a: Action)
        ensures
            a == action_of(self.view()),
    {
        proof {
            use_type_invariant(self);
        }
        match self.phase {
            Phase::Booting => Action::Rotate,
            Phase::Running(i) => cycle_step(i, self.rest_ms),
            Phase::Halted => Action::Wait(HALT_POLL_SECS),
        }
    }

    /// Records how the current action went and when it ended, `now` being
    /// a monotonic clock in milliseconds, and gives the next action, which
    /// begins at `now`.
    pub fn advance(&mut self, outcome: Outcome, now: u64) -> (a: Action)
        ensures
            final(self).view() == next_state(old(self).view(), outcome, now),
            a == action_of(final(self).view()),
    {
        proof {
            use_type_invariant(&*self);
        }
        let next = match self.phase {
            Phase::Booting => Phase::Running(0),
            Phase::Running(i) => {
                if i == 0 && outcome == Outcome::RequestRefused {
                    Phase::Halted
                } else if i + 1 < CYCLE_LEN {
                    Phase::Running(i + 1)
                } else {
                    Phase::Running(0)
                }
            },
            Phase::Halted => Phase::Halted,
        };
        if next == Phase::Running(0) {
            self.fetch_started = now;
        }
        if next == Phase::Running(REST_STEP) {
            self.rest_ms = rest_until(self.fetch_started, now);
        }
        self.phase = next;
        self.current()
    }
}

/// Milliseconds still to wait at `now` until the update period since
/// `fetch_started` is over.
fn rest_until(fetch_started: u64, now: u64) -> (rest: u64)
    ensures
        rest == rest_until_due(fetch_started, now),
{
    let elapsed = if now >= fetch_started { now - fetch_started } else { 0 };
    if elapsed < UPDATE_PERIOD_MS { UPDATE_PERIOD_MS - elapsed } else { 0 }
}

/// Step `i` of the refresh cycle.
fn cycle_step(i: usize, rest_ms: u64) -> (a: Action)
    ensures
        a == step_action(i as int, rest_ms),
{
    match i {
        0 => Action::FetchWeather,
        1 => Action::Panel(PanelOp::WakeUp),
        2 => Action::Wait(SETTLE_SECS),
        3 => Action::Panel(PanelOp::ClearFrame),
        4 => Action::Panel(PanelOp::ClearBuffer),
        5 => Action::Panel(PanelOp::ShowFrame),
        6 => Action::Wait(SETTLE_SECS),
        7 => Action::Panel(PanelOp::DrawDate),
        8 => Action::Panel(PanelOp::DrawTemperature),
        9 => Action::Panel(PanelOp::DrawIcon),
        10 => Action::Panel(PanelOp::ShowFrame),
        11 => Action::Wait(SETTLE_SECS),
        12 => Action::Panel(PanelOp::Sleep),
        _ => Action::Rest(rest_ms),
    }
}

// ---------------------------------------------------------------------
// Laws of the schedule
// ---------------------------------------------------------------------

/// Phase reached from `p` after `n` actions that all went through.
pub open spec fn run_done(p: Phase, n: nat) -> Phase
    decreases n,
{
    if n == 0 {
        p
    } else {
        run_done(next_phase(p, Outcome::Done), (n - 1) as nat)
    }
}

/// The station starts by turning the frame buffer and then asks for the
/// weather, whatever the turn reported; the request begins when the turn
/// ends.
pub proof fn lemma_boot_then_fetch(s: ScheduleView, o: Outcome, now: u64)
    requires
        s.phase == Phase::Booting,
    ensures
        action_of(s) == Action::Rotate,
        action_of(next_state(s, o, now)) == Action::FetchWeather,
        next_state(s, o, now).fetch_started == now,
{
}

/// Every state leads to a phase the schedule can be in.
pub proof fn lemma_phase_ok_kept(s: ScheduleView, o: Outcome, now: u64)
    requires
        phase_ok(s.phase),
    ensures
        phase_ok(next_state(s, o, now).phase),
{
}

/// A refused request stops the station for good: it then only waits, one
/// second at a time, and nothing else ever leads there.
pub proof fn lemma_refusal_halts_for_good(s: ScheduleView, o: Outcome, now: u64)
    requires
        phase_ok(s.phase),
    ensures
        next_state(s, o, now).phase == Phase::Halted <==> (s.phase == Phase::Halted || (
        action_of(s) == Action::FetchWeather && o == Outcome::RequestRefused)),
        s.phase == Phase::Halted ==> action_of(next_state(s, o, now)) == Action::Wait(1),
{
}

/// The station updates every ten minutes: after the panel is put to
/// sleep, the station rests until ten minutes have passed since the last
/// request began, and the next request begins then. When the refresh took
/// longer than that, the next request begins at once.
pub proof fn lemma_fetches_a_period_apart(s: ScheduleView, o1: Outcome, now: u64, o2: Outcome)
    requires
        phase_ok(s.phase),
        action_of(s) == Action::Panel(PanelOp::Sleep),
        s.fetch_started <= now,
    ensures
        UPDATE_PERIOD_MS == 10 * 60 * 1000,
        ({
            let resting = next_state(s, o1, now);
            let rest = resting.rest_ms;
            &&& action_of(resting) == Action::Rest(rest)
            &&& now <= s.fetch_started + UPDATE_PERIOD_MS ==> now + rest == s.fetch_started
                + UPDATE_PERIOD_MS
            &&& now > s.fetch_started + UPDATE_PERIOD_MS ==> rest == 0
            &&& now + rest <= u64::MAX ==> {
                let fetching = next_state(resting, o2, (now + rest) as u64);
                &&& action_of(fetching) == Action::FetchWeather
                &&& fetching.fetch_started == now + rest
            }
        }),
{
}

/// One cycle holds one request, and the panel is awake whenever it is
/// cleared, drawn or shown: it wakes before those steps and sleeps after.
pub proof fn lemma_panel_awake_while_drawing(i: int, rest_ms: u64)
    requires
        0 <= i < CYCLE_LEN,
    ensures
        step_action(i, rest_ms) == Action::FetchWeather <==> i == 0,
        step_action(i, rest_ms) == Action::Panel(PanelOp::WakeUp) <==> i == 1,
        step_action(i, rest_ms) == Action::Panel(PanelOp::Sleep) <==> i == 12,
        step_action(i, rest_ms) is Rest <==> i == REST_STEP,
        (step_action(i, rest_ms) is Panel && step_action(i, rest_ms) != Action::Panel(
            PanelOp::WakeUp,
        ) && step_action(i, rest_ms) != Action::Panel(PanelOp::Sleep)) ==> 1 < i < 12,
{
}

/// Each weather report is drawn once, date, temperature and icon, after it
/// arrives and before the frame is shown.
pub proof fn lemma_drawn_once_then_shown(i: int, rest_ms: u64)
    requires
        0 <= i < CYCLE_LEN,
    ensures
        step_action(i, rest_ms) == Action::Panel(PanelOp::DrawDate) <==> i == 7,
        step_action(i, rest_ms) == Action::Panel(PanelOp::DrawTemperature) <==> i == 8,
        step_action(i, rest_ms) == Action::Panel(PanelOp::DrawIcon) <==> i == 9,
        step_action(10, rest_ms) == Action::Panel(PanelOp::ShowFrame),
{
}

/// The refresh, in order: request, wake the panel, settle, clear the
/// panel and the buffer, show the blank frame, settle, draw date,
/// temperature and icon, show the frame, settle, put the panel to sleep,
/// rest. Each step follows the one before when it went through, and a
/// refusal counts only for the request.
pub proof fn lemma_refresh_order(i: usize, rest_ms: u64, o: Outcome)
    requires
        i < CYCLE_LEN,
    ensures
        i < REST_STEP ==> step_action(i as int, rest_ms) == seq![
            Action::FetchWeather,
            Action::Panel(PanelOp::WakeUp),
            Action::Wait(5),
            Action::Panel(PanelOp::ClearFrame),
            Action::Panel(PanelOp::ClearBuffer),
            Action::Panel(PanelOp::ShowFrame),
            Action::Wait(5),
            Action::Panel(PanelOp::DrawDate),
            Action::Panel(PanelOp::DrawTemperature),
            Action::Panel(PanelOp::DrawIcon),
            Action::Panel(PanelOp::ShowFrame),
            Action::Wait(5),
            Action::Panel(PanelOp::Sleep),
        ][i as int],
        step_action(REST_STEP as int, rest_ms) == Action::Rest(rest_ms),
        (i > 0 || o == Outcome::Done) ==> next_phase(Phase::Running(i), o) == Phase::Running(
            if i + 1 < CYCLE_LEN { (i + 1) as usize } else { 0 },
        ),
{
}

/// The start of the last request is kept through the whole refresh and
/// its rest, and the rest set on entering it counts from that start: only
/// a new request moves it.
pub proof fn lemma_request_start_kept(s: ScheduleView, o: Outcome, now: u64)
    requires
        phase_ok(s.phase),
    ensures
        next_state(s, o, now).phase != Phase::Running(0) ==> next_state(s, o, now).fetch_started
            == s.fetch_started,
        next_state(s, o, now).phase == Phase::Running(0) ==> next_state(s, o, now).fetch_started
            == now,
        next_state(s, o, now).phase == Phase::Running(REST_STEP) ==> ({
            let rest = next_state(s, o, now).rest_ms;
            &&& s.fetch_started <= now <= s.fetch_started + UPDATE_PERIOD_MS ==> now + rest
                == s.fetch_started + UPDATE_PERIOD_MS
            &&& (now < s.fetch_started || now > s.fetch_started + UPDATE_PERIOD_MS) ==> rest
                <= UPDATE_PERIOD_MS
            &&& now > s.fetch_started + UPDATE_PERIOD_MS ==> rest == 0
        }),
{
}

/// When every action goes through, the cycle comes back to the same step
/// after `CYCLE_LEN` actions.
pub proof fn lemma_cycle_period(i: usize)
    requires
        i < CYCLE_LEN,
    ensures
        run_done(Phase::Running(i), CYCLE_LEN as nat) == Phase::Running(i),
{
    reveal_with_fuel(run_done, 15);
}

} // verus!
