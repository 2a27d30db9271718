//! The progress tracker and the text of its terminal line.
use vstd::prelude::*;
use std::time::Instant;
use crate::clock::{millis_since, start_clock};
use crate::eta::{elapsed_ms, sample_rate, Eta, EtaState};
use crate::text::{
    chars_to_string, count_digits, decimal, num_digits, push_decimal, push_two_digits,
    push_zero_padded, two_digits, zero_padded,
};

verus! {

/// Why a bar refused an operation.
#[derive(Debug, Clone, Copy, PartialEq, Eq, Structural)]
pub enum BarError {
    /// A bar needs at least one step.
    ZeroTotal,
    /// A bar needs at least one cell.
    ZeroWidth,
    /// The bar was already complete.
    OutOfRange,
}

/// What a bar holds: its glyphs, its total and width, the steps taken so far,
/// and its estimator, if it has one.
pub struct BarState {
    pub delimiters: (char, char),
    pub total: nat,
    pub width: nat,
    pub current: nat,
    pub fill: char,
    pub head: char,
    pub empty: char,
    pub eta: Option<EtaState>,
}

/// Linear map of `val` from `[min, max]` onto `[new_min, new_max]`, rounded down.
pub open spec fn remap_spec(val: nat, min: nat, max: nat, new_min: nat, new_max: nat) -> nat {
    new_min + ((val - min) * (new_max - new_min) / (max - min)) as nat
}

/// The percentage of `total` that `current` has reached, rounded down.
pub open spec fn percent_of(current: nat, total: nat) -> nat {
    current * 100 / total
}

/// How many cells are filled at step `current`: the step remapped from
/// `[0, total]` onto `[1, width]`.
pub open spec fn filled_of(current: nat, total: nat, width: nat) -> nat {
    remap_spec(current, 0, total, 1, width)
}

/// `hh:mm:ss` for a number of seconds, or `??:??:??` from a hundred hours on.
pub open spec fn clock_text(secs: nat) -> Seq<char> {
    let hours = secs / 3600;
    if hours > 99 {
        seq!['?', '?', ':', '?', '?', ':', '?', '?']
    } else {
        two_digits(hours) + seq![':'] + two_digits((secs / 60) % 60) + seq![':'] + two_digits(
            secs % 60,
        )
    }
}

/// The estimator's part of the line: the time remaining and the rate in steps
/// per second with two decimals.
pub open spec fn eta_text(e: EtaState) -> Seq<char> {
    let remaining = match e.eta() {
        Some(ms) => clock_text(ms / 1000),
        None => seq!['?', '?', ':', '?', '?', ':', '?', '?'],
    };
    seq![' ', 'E', 'T', 'A', ' '] + remaining + seq![' ', 'i', 't', '/', 's', ' '] + decimal(
        e.rate() / 100,
    ) + seq!['.'] + two_digits(e.rate() % 100)
}

impl BarState {
    pub open spec fn valid(self) -> bool {
        &&& 0 < self.total <= u32::MAX
        &&& 0 < self.width <= u32::MAX
        &&& self.current <= self.total
        &&& match self.eta {
            Some(e) => e.valid() && e.total == self.total && e.last_step <= self.current,
            None => true,
        }
    }

    pub open spec fn complete(self) -> bool {
        self.current == self.total
    }

    pub open spec fn percent(self) -> nat {
        percent_of(self.current, self.total)
    }

    pub open spec fn filled(self) -> nat {
        filled_of(self.current, self.total, self.width)
    }

    /// The glyph of cell `i`: `fill` before the last filled cell, the head at
    /// it (`fill` once complete), `empty` after it.
    pub open spec fn cell(self, i: int) -> char {
        if i < self.filled() - 1 {
            self.fill
        } else if i == self.filled() - 1 {
            if self.complete() {
                self.fill
            } else {
                self.head
            }
        } else {
            self.empty
        }
    }

    pub open spec fn cells(self) -> Seq<char> {
        Seq::new(self.width, |i: int| self.cell(i))
    }

    /// The counter, zero-padded to the width of `total`, then ` / total [`.
    pub open spec fn counter_text(self) -> Seq<char> {
        zero_padded(self.current, num_digits(self.total)) + seq![' ', '/', ' '] + decimal(
            self.total,
        ) + seq![' ', self.delimiters.0]
    }

    /// `] (percent%)`.
    pub open spec fn percent_text(self) -> Seq<char> {
        seq![self.delimiters.1, ' ', '('] + decimal(self.percent()) + seq!['%', ')']
    }

    pub open spec fn eta_part(self) -> Seq<char> {
        match self.eta {
            Some(e) => eta_text(e),
            None => Seq::empty(),
        }
    }

    /// The visible line: `current / total [cells] (percent%)`, then the
    /// estimator's part.
    pub open spec fn line(self) -> Seq<char> {
        self.counter_text() + self.cells() + self.percent_text() + self.eta_part()
    }

    /// What is written to the terminal: a carriage return, the line, and a
    /// newline once the bar is complete.
    pub open spec fn frame(self) -> Seq<char> {
        seq!['\r'] + self.line() + if self.complete() {
            seq!['\n']
        } else {
            Seq::empty()
        }
    }

    /// The bar after one step, with its estimator asked at time `now`.
    pub open spec fn advanced(self, now: nat) -> BarState {
        let step = self.current + 1;
        BarState {
            current: step,
            eta: match self.eta {
                Some(e) => Some(e.queried(now, step)),
                None => None,
            },
            ..self
        }
    }

    /// The bar after a step at time `now`, or `None` where it was complete.
    pub open spec fn step_result(self, now: nat) -> Option<BarState> {
        if self.current < self.total {
            Some(self.advanced(now))
        } else {
            None
        }
    }

    /// The bar back at step zero, with a cold estimator started at `now`.
    pub open spec fn restarted(self, now: nat) -> BarState {
        BarState {
            current: 0,
            eta: match self.eta {
                Some(e) => Some(EtaState::fresh(self.total, now)),
                None => None,
            },
            ..self
        }
    }
}

/// What holds after a step asked for at time `now`: on a bar that was not
/// complete, the step and the text of the new frame; on a complete one, the
/// error and no change.
pub open spec fn update_post(
    before: BarState,
    after: BarState,
    r: Result<String, BarError>,
    now: nat,
) -> bool {
    match before.step_result(now) {
        Some(s) => after == s && (r matches Ok(t) && t@ == s.frame()),
        None => after == before && r == Err::<String, BarError>(BarError::OutOfRange),
    }
}

/// A progress bar over a known number of steps.
pub struct ProgressBar {
    delimiters: (char, char),
    num_iterations: u32,
    length: u32,
    state: u32,
    progress_char: char,
    last_progress_char: char,
    empty_char: char,
    eta: Option<Eta>,
    origin: Instant,
}

impl View for ProgressBar {
    type V = BarState;

    closed spec fn view(&self) -> BarState {
        BarState {
            delimiters: self.delimiters,
            total: self.num_iterations as nat,
            width: self.length as nat,
            current: self.state as nat,
            fill: self.progress_char,
            head: self.last_progress_char,
            empty: self.empty_char,
            eta: match self.eta {
                Some(e) => Some(e@),
                None => None,
            },
        }
    }
}

fn remap(val: u32, min: u32, max: u32, new_min: u32, new_max: u32) -> (r: u32)
    requires
        min <= val <= max,
        min < max,
        new_min <= new_max,
    ensures
        r == remap_spec(val as nat, min as nat, max as nat, new_min as nat, new_max as nat),
        new_min <= r <= new_max,
{
    let a = (val - min) as u64;
    let b = (new_max - new_min) as u64;
    let c = (max - min) as u64;
    assert(a * b <= c * b) by (nonlinear_arith)
        requires
            a <= c,
    ;
    assert(a * b <= u32::MAX * u32::MAX) by (nonlinear_arith)
        requires
            a <= u32::MAX,
            b <= u32::MAX,
    ;
    let q = a * b / c;
    assert(q <= b) by (nonlinear_arith)
        requires
            q == (a * b) as int / (c as int),
            a * b <= c * b,
            c > 0,
    ;
    new_min + q as u32
}

impl ProgressBar {
    pub closed spec fn wf(&self) -> bool {
        &&& self@.valid()
        &&& match self.eta {
            Some(e) => e.wf(),
            None => true,
        }
    }

    /// A bar of `num_iterations` steps and `length` cells. Fails where either is zero.
    pub fn new(
        delimiters: (char, char),
        num_iterations: u32,
        length: u32,
        progress_char: char,
        last_progress_char: char,
        empty_char: char,
        eta: bool,
    ) -> (r: Result<ProgressBar, BarError>)
        ensures
            num_iterations == 0 ==> r == Err::<ProgressBar, BarError>(BarError::ZeroTotal),
            num_iterations > 0 && length == 0 ==> r == Err::<ProgressBar, BarError>(
                BarError::ZeroWidth,
            ),
            num_iterations > 0 && length > 0 ==> r is Ok,
            r matches Ok(b) ==> b.wf() && b@ == (BarState {
                delimiters,
                total: num_iterations as nat,
                width: length as nat,
                current: 0,
                fill: progress_char,
                head: last_progress_char,
                empty: empty_char,
                eta: if eta {
                    Some(EtaState::fresh(num_iterations as nat, 0))
                } else {
                    None
                },
            }),
    {
        if num_iterations == 0 {
            return Err(BarError::ZeroTotal);
        }
        if length == 0 {
            return Err(BarError::ZeroWidth);
        }
        let origin = start_clock();
        let mut b_eta = None;
        if eta {
            b_eta = Some(Eta::new(num_iterations, 0));
        }
        let b = ProgressBar {
            delimiters,
            num_iterations,
            length,
            state: 0,
            progress_char,
            last_progress_char,
            empty_char,
            eta: b_eta,
            origin,
        };
        proof {
            if eta {
                b.eta.unwrap().lemma_wf_valid();
            }
        }
        Ok(b)
    }

    /// A bar in the default style: `[`, `]`, a full block for filled cells and
    /// the head, and blanks.
    pub fn default(num_iterations: u32, length: u32, eta: bool) -> (r: Result<ProgressBar, BarError>)
        ensures
            num_iterations == 0 ==> r == Err::<ProgressBar, BarError>(BarError::ZeroTotal),
            num_iterations > 0 && length == 0 ==> r == Err::<ProgressBar, BarError>(
                BarError::ZeroWidth,
            ),
            num_iterations > 0 && length > 0 ==> r is Ok,
            r matches Ok(b) ==> b.wf() && b@ == (BarState {
                delimiters: ('[', ']'),
                total: num_iterations as nat,
                width: length as nat,
                current: 0,
                fill: '\u{2588}',
                head: '\u{2588}',
                empty: ' ',
                eta: if eta {
                    Some(EtaState::fresh(num_iterations as nat, 0))
                } else {
                    None
                },
            }),
    {
        ProgressBar::new(('[', ']'), num_iterations, length, '\u{2588}', '\u{2588}', ' ', eta)
    }

    /// A bar in the style of `[===>   ]`.
    pub fn cargo_style(num_iterations: u32, length: u32, eta: bool) -> (r: Result<
        ProgressBar,
        BarError,
    >)
        ensures
            num_iterations == 0 ==> r == Err::<ProgressBar, BarError>(BarError::ZeroTotal),
            num_iterations > 0 && length == 0 ==> r == Err::<ProgressBar, BarError>(
                BarError::ZeroWidth,
            ),
            num_iterations > 0 && length > 0 ==> r is Ok,
            r matches Ok(b) ==> b.wf() && b@ == (BarState {
                delimiters: ('[', ']'),
                total: num_iterations as nat,
                width: length as nat,
                current: 0,
                fill: '=',
                head: '>',
                empty: ' ',
                eta: if eta {
                    Some(EtaState::fresh(num_iterations as nat, 0))
                } else {
                    None
                },
            }),
    {
        ProgressBar::new(('[', ']'), num_iterations, length, '=', '>', ' ', eta)
    }

    /// Changes the delimiters and the glyphs of filled cells, the head and empty
    /// cells; the count and the estimator stay as they are.
    pub fn reformat(
        &mut self,
        delimiters: (char, char),
        progress_char: char,
        last_progress_char: char,
        empty_char: char,
    )
        requires
            old(self).wf(),
        ensures
            final(self).wf(),
            final(self)@ == (BarState {
                delimiters,
                fill: progress_char,
                head: last_progress_char,
                empty: empty_char,
                ..old(self)@
            }),
    {
        self.delimiters = delimiters;
        self.progress_char = progress_char;
        self.last_progress_char = last_progress_char;
        self.empty_char = empty_char;
    }

    /// Goes back to step zero; an estimator starts cold at time `now`, with no
    /// memory of the earlier run.
    pub fn reset_at(&mut self, now: u64)
        requires
            old(self).wf(),
        ensures
            final(self).wf(),
            final(self)@ == old(self)@.restarted(now as nat),
    {
        self.state = 0;
        match self.eta {
            Some(_) => {
                let e = Eta::new(self.num_iterations, now);
                proof {
                    e.lemma_wf_valid();
                }
                self.eta = Some(e);
            },
            None => {},
        }
    }

    /// Goes back to step zero, as `reset_at` does at the current time.
    pub fn reset(&mut self)
        requires
            old(self).wf(),
        ensures
            final(self).wf(),
            exists|now: nat| final(self)@ == old(self)@.restarted(now),
    {
        let now = millis_since(&self.origin);
        self.reset_at(now);
    }

    /// Whether every step has been taken.
    pub fn is_last(&self) -> (r: bool)
        ensures
            r == self@.complete(),
    {
        self.state == self.num_iterations
    }

    /// Steps taken so far.
    pub fn current(&self) -> (r: u32)
        ensures
            r == self@.current,
    {
        self.state
    }

    /// The percentage reached, rounded down.
    pub fn percent(&self) -> (r: u32)
        requires
            self.wf(),
        ensures
            r == self@.percent(),
            r <= 100,
    {
        let c = self.state as u64;
        let t = self.num_iterations as u64;
        assert(c * 100 <= t * 100) by (nonlinear_arith)
            requires
                c <= t,
        ;
        let p = c * 100 / t;
        assert(p <= 100) by (nonlinear_arith)
            requires
                p == (c * 100) as int / (t as int),
                c * 100 <= t * 100,
                t > 0,
        ;
        p as u32
    }

    /// How many cells are filled.
    pub fn filled_cells(&self) -> (r: u32)
        requires
            self.wf(),
        ensures
            r == self@.filled(),
            1 <= r <= self@.width,
    {
        remap(self.state, 0, self.num_iterations, 1, self.length)
    }

    /// Takes a step at time `now` and returns the new frame; fails, changing
    /// nothing, where the bar was already complete.
    pub fn update_at(&mut self, now: u64) -> (r: Result<String, BarError>)
        requires
            old(self).wf(),
        ensures
            final(self).wf(),
            (r is Ok) == (old(self)@.current < old(self)@.total),
            update_post(old(self)@, final(self)@, r, now as nat),
    {
        if self.state >= self.num_iterations {
            return Err(BarError::OutOfRange);
        }
        self.state = self.state + 1;
        let step = self.state;
        if let Some(e) = &mut self.eta {
            let _ = e.get_eta(step, now);
            proof {
                e.lemma_wf_valid();
            }
        }
        let perc = self.percent();
        Ok(self.print_bar(perc))
    }

    /// Takes a step, as `update_at` does at the current time.
    pub fn update(&mut self) -> (r: Result<String, BarError>)
        requires
            old(self).wf(),
        ensures
            final(self).wf(),
            (r is Ok) == (old(self)@.current < old(self)@.total),
            exists|now: nat| update_post(old(self)@, final(self)@, r, now),
    {
        let now = millis_since(&self.origin);
        self.update_at(now)
    }

    /// The text of the frame for the present state, given its percentage.
    fn print_bar(&self, perc: u32) -> (r: String)
        requires
            self.wf(),
            perc == self@.percent(),
        ensures
            r@ == self@.frame(),
    {
        let ratio = remap(self.state, 0, self.num_iterations, 1, self.length);
        let complete = self.is_last();
        let mut out: Vec<char> = Vec::new();
        out.push('\r');
        self.push_counter(&mut out);
        self.push_cells(&mut out, ratio, complete);
        let ghost c = out@;
        out.push(self.delimiters.1);
        out.push(' ');
        out.push('(');
        push_decimal(&mut out, perc as u64);
        out.push('%');
        out.push(')');
        assert(out@ =~= c + self@.percent_text());
        let ghost d = out@;
        match &self.eta {
            Some(e) => push_eta_text(&mut out, e),
            None => {},
        }
        assert(out@ =~= d + self@.eta_part());
        if complete {
            out.push('\n');
        }
        assert(out@ =~= self@.frame());
        chars_to_string(out)
    }

    /// Appends the counter and the opening delimiter.
    fn push_counter(&self, out: &mut Vec<char>)
        requires
            self.wf(),
        ensures
            final(out)@ == old(out)@ + self@.counter_text(),
    {
        let width = count_digits(self.num_iterations as u64);
        push_zero_padded(out, self.state as u64, width);
        out.push(' ');
        out.push('/');
        out.push(' ');
        push_decimal(out, self.num_iterations as u64);
        out.push(' ');
        out.push(self.delimiters.0);
        assert(final(out)@ =~= old(out)@ + self@.counter_text());
    }

    /// Appends the cells, of which `ratio` are filled.
    fn push_cells(&self, out: &mut Vec<char>, ratio: u32, complete: bool)
        requires
            ratio == self@.filled(),
            complete == self@.complete(),
        ensures
            final(out)@ == old(out)@ + self@.cells(),
    {
        let ghost start = out@;
        let mut i: u32 = 0;
        while i < self.length
            invariant
                ratio == self@.filled(),
                complete == self@.complete(),
                i <= self.length,
                out@ =~= start + self@.cells().take(i as int),
            decreases self.length - i,
        {
            let c = if i + 1 < ratio {
                self.progress_char
            } else if i + 1 == ratio {
                if complete {
                    self.progress_char
                } else {
                    self.last_progress_char
                }
            } else {
                self.empty_char
            };
            out.push(c);
            i = i + 1;
        }
        assert(self@.cells().take(self.length as int) =~= self@.cells());
    }
}

/// Appends `??:??:??`, the clock of an unknown estimate.
fn push_unknown_clock(out: &mut Vec<char>)
    ensures
        final(out)@ == old(out)@ + seq!['?', '?', ':', '?', '?', ':', '?', '?'],
{
    out.push('?');
    out.push('?');
    out.push(':');
    out.push('?');
    out.push('?');
    out.push(':');
    out.push('?');
    out.push('?');
    assert(final(out)@ =~= old(out)@ + seq!['?', '?', ':', '?', '?', ':', '?', '?']);
}

/// Appends the `hh:mm:ss` text of `secs` seconds.
fn push_clock(out: &mut Vec<char>, secs: u64)
    ensures
        final(out)@ == old(out)@ + clock_text(secs as nat),
{
    let hours = secs / 3600;
    if hours > 99 {
        push_unknown_clock(out);
    } else {
        push_two_digits(out, hours);
        out.push(':');
        push_two_digits(out, (secs / 60) % 60);
        out.push(':');
        push_two_digits(out, secs % 60);
        assert(final(out)@ =~= old(out)@ + clock_text(secs as nat));
    }
}

/// Appends the estimator's part of the line.
fn push_eta_text(out: &mut Vec<char>, e: &Eta)
    requires
        e.wf(),
    ensures
        final(out)@ == old(out)@ + eta_text(e@),
{
    out.push(' ');
    out.push('E');
    out.push('T');
    out.push('A');
    out.push(' ');
    match e.last_eta() {
        Some(ms) => push_clock(out, ms / 1000),
        None => push_unknown_clock(out),
    }
    out.push(' ');
    out.push('i');
    out.push('t');
    out.push('/');
    out.push('s');
    out.push(' ');
    let rate = e.rate();
    push_decimal(out, rate / 100);
    out.push('.');
    push_two_digits(out, rate % 100);
    assert(final(out)@ =~= old(out)@ + eta_text(e@));
}

/// The bar after a step asked for at each of `times` in turn, or `None` where
/// one of them failed.
pub open spec fn run(s: BarState, times: Seq<nat>) -> Option<BarState>
    decreases times.len(),
{
    if times.len() == 0 {
        Some(s)
    } else {
        match s.step_result(times[0]) {
            Some(t) => run(t, times.drop_first()),
            None => None,
        }
    }
}

proof fn lemma_run(s: BarState, times: Seq<nat>)
    requires
        s.current <= s.total,
    ensures
        (run(s, times) is Some) == (s.current + times.len() <= s.total),
        run(s, times) matches Some(t) ==> t.current == s.current + times.len() && t.total
            == s.total,
    decreases times.len(),
{
    if times.len() > 0 && s.current < s.total {
        lemma_run(s.advanced(times[0]), times.drop_first());
    }
}

/// A bar at step zero takes exactly `total` steps: each of them succeeds,
/// whatever the clock reads, and leaves the bar complete; one more fails.
pub proof fn lemma_exactly_total_steps(s: BarState, times: Seq<nat>, now: nat)
    requires
        s.valid(),
        s.current == 0,
        times.len() == s.total,
    ensures
        run(s, times) matches Some(t) && t.complete() && t.step_result(now) is None,
        run(s, times.push(now)) is None,
{
    lemma_run(s, times);
    lemma_run(s, times.push(now));
}

/// The percentage never falls as the count grows, and it is 100 exactly at the
/// total.
pub proof fn lemma_percent_monotone(total: nat, a: nat, b: nat)
    requires
        0 < total,
        a <= b <= total,
    ensures
        percent_of(a, total) <= percent_of(b, total),
        (percent_of(b, total) == 100) == (b == total),
{
    let x = a * 100;
    let y = b * 100;
    assert(x <= y) by (nonlinear_arith)
        requires
            x == a * 100,
            y == b * 100,
            a <= b,
    ;
    assert(x / total <= y / total) by (nonlinear_arith)
        requires
            x <= y,
            total > 0,
    ;
    if b < total {
        assert(y / total < 100) by (nonlinear_arith)
            requires
                y == b * 100,
                b < total,
        ;
    } else {
        assert(y / total == 100) by (nonlinear_arith)
            requires
                y == total * 100,
                total > 0,
        ;
    }
}

/// A complete bar fills all its cells, and one step fills at least one.
pub proof fn lemma_filled_ends(total: nat, width: nat)
    requires
        0 < total,
        0 < width,
    ensures
        filled_of(total, total, width) == width,
        filled_of(1, total, width) >= 1,
{
    let w = (width - 1) as nat;
    assert((total * w) / total == w) by (nonlinear_arith)
        requires
            total > 0,
    ;
}

/// A reset bar is at step zero and keeps an estimator exactly where it had
/// one. That estimator is cold: it has no samples, is due for one at any
/// time, and after its next sample it holds only that sample, taken over the
/// new run, and still has no estimate.
pub proof fn lemma_reset_forgets(s: BarState, start: nat, now: nat, step: nat)
    requires
        s.valid(),
        step <= s.total,
    ensures
        s.restarted(start).current == 0,
        (s.restarted(start).eta is Some) == (s.eta is Some),
        s.restarted(start).eta matches Some(e) ==> {
            &&& e.window.len() == 0
            &&& e.refresh_due(now)
            &&& e.queried(now, step) == (EtaState {
                total: s.total,
                last_time: now,
                last_step: step,
                window: seq![sample_rate(step, elapsed_ms(start, now))],
            })
            &&& e.queried(now, step).eta() is None
        },
{
    let empty: Seq<nat> = Seq::empty();
    assert(empty.push(sample_rate(step, elapsed_ms(start, now))) =~= seq![
        sample_rate(step, elapsed_ms(start, now)),
    ]);
}

} // verus!
