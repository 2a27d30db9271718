//! Estimated time remaining, from a rolling window of recent step rates.
//!
//! Rates are integers in hundredths of a step per second. A sample is taken at
//! most once a second (and always when the window is empty); the window keeps
//! the last ten samples and drops the oldest first. The smoothed rate is the
//! mean over the samples actually held, not over the full capacity, so an
//! estimator that is still warming up does not underestimate the rate.
use vstd::prelude::*;

verus! {

/// How many rate samples the window holds.
pub const WINDOW: usize = 10;

/// Hundredths of a step per second in one step per millisecond.
pub const RATE_SCALE: u64 = 100000;

/// Milliseconds that must pass between two samples.
pub const REFRESH_MS: u64 = 1000;

/// The largest rate a sample can hold: `u32::MAX` steps within one millisecond.
pub const MAX_RATE: u64 = 429496729500000;

/// Milliseconds from `from` to `to`; a clock that went backwards counts as no time.
pub open spec fn elapsed_ms(from: nat, to: nat) -> nat {
    if to >= from {
        (to - from) as nat
    } else {
        0
    }
}

/// The rate of `steps` taken over `elapsed` milliseconds. No time at all counts
/// as one millisecond, so that the rate stays finite.
pub open spec fn sample_rate(steps: nat, elapsed: nat) -> nat {
    let d: nat = if elapsed == 0 {
        1
    } else {
        elapsed
    };
    steps * (RATE_SCALE as nat) / d
}

/// The window after a new sample: appended, and the oldest dropped once full.
pub open spec fn push_sample(window: Seq<nat>, r: nat) -> Seq<nat> {
    if window.len() < WINDOW {
        window.push(r)
    } else {
        window.subrange(1, window.len() as int).push(r)
    }
}

pub open spec fn sum(s: Seq<nat>) -> nat
    decreases s.len(),
{
    if s.len() == 0 {
        0
    } else {
        sum(s.drop_last()) + s.last()
    }
}

/// The mean of the samples held (zero for none), rounded down.
pub open spec fn mean(s: Seq<nat>) -> nat {
    if s.len() == 0 {
        0
    } else {
        sum(s) / s.len()
    }
}

/// Milliseconds left for `remaining` steps at the window's mean rate; unknown
/// with fewer than two samples or a zero rate.
pub open spec fn estimate(remaining: nat, window: Seq<nat>) -> Option<nat> {
    if window.len() < 2 || mean(window) == 0 {
        None
    } else {
        Some(remaining * (RATE_SCALE as nat) / mean(window))
    }
}

pub open spec fn opt_nat(o: Option<u64>) -> Option<nat> {
    match o {
        Some(x) => Some(x as nat),
        None => None,
    }
}

/// What an estimator holds: the run's total, when and at which step the last
/// sample was taken, and the samples in the window, oldest first.
pub struct EtaState {
    pub total: nat,
    pub last_time: nat,
    pub last_step: nat,
    pub window: Seq<nat>,
}

impl EtaState {
    /// A cold estimator, started at time `now`.
    pub open spec fn fresh(total: nat, now: nat) -> EtaState {
        EtaState { total, last_time: now, last_step: 0, window: Seq::empty() }
    }

    pub open spec fn valid(self) -> bool {
        &&& self.last_step <= self.total <= u32::MAX
        &&& self.window.len() <= WINDOW
        &&& forall|i: int| 0 <= i < self.window.len() ==> self.window[i] <= MAX_RATE
    }

    /// The smoothed rate.
    pub open spec fn rate(self) -> nat {
        mean(self.window)
    }

    /// The estimate as of the last sample.
    pub open spec fn eta(self) -> Option<nat> {
        estimate((self.total - self.last_step) as nat, self.window)
    }

    pub open spec fn refresh_due(self, now: nat) -> bool {
        self.window.len() == 0 || elapsed_ms(self.last_time, now) >= REFRESH_MS
    }

    /// The estimator after a sample at time `now` and step `step`.
    pub open spec fn recorded(self, now: nat, step: nat) -> EtaState {
        let r = sample_rate((step - self.last_step) as nat, elapsed_ms(self.last_time, now));
        EtaState {
            total: self.total,
            last_time: now,
            last_step: step,
            window: push_sample(self.window, r),
        }
    }

    /// The estimator after it is asked for an estimate at time `now` and step `step`.
    pub open spec fn queried(self, now: nat, step: nat) -> EtaState {
        if self.refresh_due(now) {
            self.recorded(now, step)
        } else {
            self
        }
    }
}

/// Index of the `i`-th oldest sample in a ring whose oldest sample sits at `oldest`.
pub open spec fn ring_index(oldest: int, i: int) -> int {
    if oldest + i < WINDOW {
        oldest + i
    } else {
        oldest + i - WINDOW
    }
}

/// A time-remaining estimator for a run of a known number of steps. Times are
/// milliseconds on a clock of the caller's choosing that does not go backwards.
pub struct Eta {
    last_time: u64,
    last_step: u32,
    total: u32,
    eta: Option<u64>,
    latest_speeds: Vec<u64>,
    oldest: usize,
    count: usize,
    it_s: u64,
}

impl View for Eta {
    type V = EtaState;

    closed spec fn view(&self) -> EtaState {
        EtaState {
            total: self.total as nat,
            last_time: self.last_time as nat,
            last_step: self.last_step as nat,
            window: Seq::new(
                self.count as nat,
                |i: int| self.latest_speeds@[ring_index(self.oldest as int, i)] as nat,
            ),
        }
    }
}

proof fn lemma_sum_bound(s: Seq<nat>)
    requires
        forall|i: int| 0 <= i < s.len() ==> s[i] <= MAX_RATE,
    ensures
        sum(s) <= s.len() * MAX_RATE,
    decreases s.len(),
{
    if s.len() > 0 {
        lemma_sum_bound(s.drop_last());
    }
}

proof fn lemma_mean_bound(s: Seq<nat>)
    requires
        forall|i: int| 0 <= i < s.len() ==> s[i] <= MAX_RATE,
    ensures
        mean(s) <= MAX_RATE,
{
    if s.len() > 0 {
        lemma_sum_bound(s);
        let n = s.len();
        let t = sum(s);
        assert(t / n <= MAX_RATE) by (nonlinear_arith)
            requires
                t <= n * MAX_RATE,
                n > 0,
        ;
    }
}

proof fn lemma_sample_rate_bound(steps: nat, elapsed: nat)
    requires
        steps <= u32::MAX,
    ensures
        sample_rate(steps, elapsed) <= MAX_RATE,
{
    let d: nat = if elapsed == 0 {
        1
    } else {
        elapsed
    };
    let x: nat = steps * (RATE_SCALE as nat);
    assert(x <= MAX_RATE);
    assert(x / d <= x) by (nonlinear_arith)
        requires
            d >= 1,
    ;
}

impl Eta {
    pub closed spec fn wf(&self) -> bool {
        &&& self.latest_speeds@.len() == WINDOW
        &&& self.oldest < WINDOW
        &&& self.count <= WINDOW
        &&& forall|i: int| 0 <= i < WINDOW ==> self.latest_speeds@[i] <= MAX_RATE
        &&& self.last_step <= self.total
        &&& self.it_s as nat == self@.rate()
        &&& opt_nat(self.eta) == self@.eta()
    }

    pub proof fn lemma_wf_valid(&self)
        requires
            self.wf(),
        ensures
            self@.valid(),
    {
    }

    /// A cold estimator for a run of `total` steps, started at time `now`.
    pub fn new(total: u32, now: u64) -> (r: Eta)
        ensures
            r.wf(),
            r@ == EtaState::fresh(total as nat, now as nat),
    {
        let r = Eta {
            last_time: now,
            last_step: 0,
            total,
            eta: None,
            latest_speeds: vec![0u64; WINDOW],
            oldest: 0,
            count: 0,
            it_s: 0,
        };
        assert(r@.window =~= Seq::<nat>::empty());
        r
    }

    fn should_update(&self, now: u64) -> (r: bool)
        requires
            self.wf(),
        ensures
            r == self@.refresh_due(now as nat),
    {
        self.count == 0 || self.get_elapsed_time(now) >= REFRESH_MS
    }

    fn get_steps_taken(&self, step: u32) -> (r: u32)
        requires
            self.last_step <= step,
        ensures
            r == step - self.last_step,
    {
        step - self.last_step
    }

    fn get_elapsed_time(&self, now: u64) -> (r: u64)
        ensures
            r == elapsed_ms(self.last_time as nat, now as nat),
    {
        if now >= self.last_time {
            now - self.last_time
        } else {
            0
        }
    }

    /// Stores a rate in the ring, over the oldest sample once the ring is full.
    fn push_speed(&mut self, r: u64)
        requires
            old(self).wf(),
            r <= MAX_RATE,
        ensures
            final(self)@ == (EtaState { window: push_sample(old(self)@.window, r as nat), ..old(self)@ }),
            final(self).latest_speeds@.len() == WINDOW,
            final(self).oldest < WINDOW,
            final(self).count <= WINDOW,
            forall|i: int| 0 <= i < WINDOW ==> final(self).latest_speeds@[i] <= MAX_RATE,
            final(self).last_step == old(self).last_step,
            final(self).last_time == old(self).last_time,
            final(self).total == old(self).total,
    {
        let ghost w = self@.window;
        if self.count < WINDOW {
            let idx: usize = if self.oldest + self.count < WINDOW {
                self.oldest + self.count
            } else {
                self.oldest + self.count - WINDOW
            };
            self.latest_speeds.set(idx, r);
            self.count = self.count + 1;
            assert(self@.window =~= w.push(r as nat));
        } else {
            let idx: usize = self.oldest;
            self.latest_speeds.set(idx, r);
            self.oldest = if self.oldest + 1 < WINDOW {
                self.oldest + 1
            } else {
                0
            };
            assert(self@.window =~= w.subrange(1, w.len() as int).push(r as nat));
        }
    }

    fn update_latest_speeds(&mut self, step: u32, now: u64)
        requires
            old(self).wf(),
            old(self).last_step <= step,
        ensures
            final(self)@ == (EtaState {
                window: push_sample(
                    old(self)@.window,
                    sample_rate(
                        (step - old(self).last_step) as nat,
                        elapsed_ms(old(self).last_time as nat, now as nat),
                    ),
                ),
                ..old(self)@
            }),
            final(self).latest_speeds@.len() == WINDOW,
            final(self).oldest < WINDOW,
            final(self).count <= WINDOW,
            forall|i: int| 0 <= i < WINDOW ==> final(self).latest_speeds@[i] <= MAX_RATE,
            final(self).last_step == old(self).last_step,
            final(self).last_time == old(self).last_time,
            final(self).total == old(self).total,
    {
        let steps_taken = self.get_steps_taken(step);
        let elapsed_time = self.get_elapsed_time(now);
        let divisor: u64 = if elapsed_time == 0 {
            1
        } else {
            elapsed_time
        };
        proof {
            lemma_sample_rate_bound(steps_taken as nat, elapsed_time as nat);
        }
        let rate = steps_taken as u64 * RATE_SCALE / divisor;
        self.push_speed(rate);
    }

    /// The mean of the samples in the window.
    fn get_mean_speed(&self) -> (r: u64)
        requires
            self.latest_speeds@.len() == WINDOW,
            self.oldest < WINDOW,
            self.count <= WINDOW,
            forall|i: int| 0 <= i < WINDOW ==> self.latest_speeds@[i] <= MAX_RATE,
        ensures
            r == mean(self@.window),
    {
        let ghost w = self@.window;
        let mut speed: u64 = 0;
        let mut i: usize = 0;
        while i < self.count
            invariant
                i <= self.count <= WINDOW,
                self.oldest < WINDOW,
                self.latest_speeds@.len() == WINDOW,
                forall|j: int| 0 <= j < WINDOW ==> self.latest_speeds@[j] <= MAX_RATE,
                w == self@.window,
                speed == sum(w.take(i as int)),
                speed <= i * MAX_RATE,
            decreases self.count - i,
        {
            let idx: usize = if self.oldest + i < WINDOW {
                self.oldest + i
            } else {
                self.oldest + i - WINDOW
            };
            assert(w.take(i + 1).drop_last() =~= w.take(i as int));
            speed = speed + self.latest_speeds[idx];
            i = i + 1;
        }
        assert(w.take(self.count as int) =~= w);
        if self.count == 0 {
            0
        } else {
            speed / (self.count as u64)
        }
    }

    /// Takes a sample at time `now` and step `step`, and recomputes the rate and estimate.
    fn update(&mut self, step: u32, now: u64)
        requires
            old(self).wf(),
            old(self).last_step <= step <= old(self).total,
        ensures
            final(self).wf(),
            final(self)@ == old(self)@.recorded(now as nat, step as nat),
    {
        self.update_latest_speeds(step, now);
        self.last_step = step;
        self.last_time = now;
        let speed = self.get_mean_speed();
        self.it_s = speed;
        proof {
            lemma_mean_bound(self@.window);
        }
        if self.count >= 2 && speed > 0 {
            let to_go = (self.total - step) as u64 * RATE_SCALE / speed;
            self.eta = Some(to_go);
        } else {
            self.eta = None;
        }
    }

    /// The estimate in milliseconds at time `now` and step `step`, or `None` while
    /// it is unknown. A new sample is taken first when one is due.
    pub fn get_eta(&mut self, step: u32, now: u64) -> (r: Option<u64>)
        requires
            old(self).wf(),
            old(self)@.last_step <= step <= old(self)@.total,
        ensures
            final(self).wf(),
            final(self)@ == old(self)@.queried(now as nat, step as nat),
            opt_nat(r) == final(self)@.eta(),
    {
        if self.should_update(now) {
            self.update(step, now);
        }
        self.eta
    }

    /// The estimate as of the last sample, in milliseconds.
    pub fn last_eta(&self) -> (r: Option<u64>)
        requires
            self.wf(),
        ensures
            opt_nat(r) == self@.eta(),
    {
        self.eta
    }

    /// How many samples the window holds.
    pub fn samples(&self) -> (r: usize)
        requires
            self.wf(),
        ensures
            r == self@.window.len(),
    {
        self.count
    }

    /// The smoothed rate, in hundredths of a step per second.
    pub fn rate(&self) -> (r: u64)
        requires
            self.wf(),
        ensures
            r == self@.rate(),
    {
        self.it_s
    }
}

} // verus!
