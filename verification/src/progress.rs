//! The progress estimator and its ticker.
//!
//! `Loading` owns a live progress display: `start` resets a wall-clock timer
//! and issues a ticker that advances the display once per delay until it
//! reaches 100% or is told to stop; `finish` records the elapsed time and
//! derives the next run's tick delay from it, so the indicator is expected to
//! reach completion near the previous run's true duration. At most one ticker
//! may be live at a time: starting again supersedes the previous ticker, and
//! the estimator's generation count is what decides which ticker that is.

use vstd::prelude::*;
use vstd::string::StringExecFns;

verus! {

/// Assumed run time, in milliseconds, before any run has finished.
pub const INITIAL_ETA_MS: u64 = 10_000;

/// Tick delay, in milliseconds, before any run has finished.
pub const INITIAL_DELAY_MS: u64 = 100;

/// The tick delay estimated from an elapsed run: one hundredth of it,
/// rounded to the nearest millisecond.
pub open spec fn estimated_delay_ms(eta: u64) -> u64 {
    (eta / 100 + if eta % 100 >= 50 {
        1u64
    } else {
        0u64
    }) as u64
}

/// Milliseconds from `start` to `now` on a clock that never runs backwards.
pub open spec fn elapsed_ms(start: u64, now: u64) -> u64 {
    if now >= start {
        (now - start) as u64
    } else {
        0
    }
}

/// One background ticking task, advancing a visual indicator one unit per
/// delay.
#[derive(Clone, Copy, PartialEq, Eq, Structural, Debug)]
pub struct Ticker {
    /// Which `start` call issued this ticker.
    pub generation: u64,
    /// The indicator's position, in percent.
    pub position: u64,
    /// Set once the ticker has finalized its indicator and stopped.
    pub stopped: bool,
    /// Milliseconds to sleep between ticks.
    pub delay_ms: u64,
    /// Whether the finished indicator is cleared or left visible.
    pub clear: bool,
}

/// What the ticker's runner must do after one step.
#[derive(Clone, Copy, PartialEq, Eq, Structural, Debug)]
pub enum TickAction {
    /// Finalize the indicator (clear it or leave it visible) and stop.
    Stop { clear: bool },
    /// The indicator was advanced one unit; sleep this long, then step again.
    Advance { sleep_ms: u64 },
}

impl Ticker {
    /// The indicator never exceeds 100%, and a ticker that has not stopped
    /// has room left to advance.
    pub open spec fn wf(&self) -> bool {
        &&& self.position <= 100
        &&& !self.stopped ==> self.position < 100
    }

    /// One turn of the ticking task: observe the cancellation signal, then
    /// either finalize or advance the indicator.
    pub fn step(&mut self, cancelled: bool) -> (a: TickAction)
        requires
            old(self).wf(),
            !old(self).stopped,
        ensures
            final(self).wf(),
            final(self).generation == old(self).generation,
            final(self).delay_ms == old(self).delay_ms,
            final(self).clear == old(self).clear,
            cancelled ==> final(self).stopped && final(self).position == old(self).position,
            !cancelled ==> final(self).position == old(self).position + 1,
            !cancelled ==> (final(self).stopped <==> final(self).position == 100),
            final(self).stopped <==> (a matches TickAction::Stop { .. }),
            a matches TickAction::Stop { clear } ==> clear == old(self).clear,
            a matches TickAction::Advance { sleep_ms } ==> sleep_ms == old(self).delay_ms,
    {
        if cancelled {
            self.stopped = true;
            return TickAction::Stop { clear: self.clear };
        }
        self.position = self.position + 1;
        if self.position >= 100 {
            self.stopped = true;
            TickAction::Stop { clear: self.clear }
        } else {
            TickAction::Advance { sleep_ms: self.delay_ms }
        }
    }
}

/// The progress estimator: Idle, then Running while a conversion chain is
/// underway, then Idle again with a recalibrated delay.
pub struct Loading {
    /// Elapsed milliseconds of the previous run: the visual ETA.
    pub eta_ms: u64,
    /// Milliseconds between ticks for the next run.
    pub delay_ms: u64,
    /// When the running indicator was started.
    pub start_ms: u64,
    /// How many tickers were ever issued; only the newest may be live.
    pub generation: u64,
    /// Whether an indicator run is underway.
    pub running: bool,
    /// Whether a finished indicator is cleared from the display or left.
    pub clear: bool,
    /// The display's progress characters.
    pub chars: String,
    /// The display's layout template.
    pub template: String,
}

impl Loading {
    /// Whether ticker `t` may still touch the display: it is the newest one,
    /// the estimator is running, and it has not stopped on its own.
    pub open spec fn ticker_live(&self, t: Ticker) -> bool {
        &&& t.generation == self.generation
        &&& self.running
        &&& !t.stopped
    }

    /// A fresh estimator with the default ETA, delay, and display settings.
    pub fn new() -> (l: Loading)
        ensures
            l.eta_ms == INITIAL_ETA_MS,
            l.delay_ms == INITIAL_DELAY_MS,
            l.start_ms == 0,
            l.generation == 0,
            !l.running,
            !l.clear,
            l.chars@ == "``'"@,
            l.template@ == "{wide_bar:.cyan/blue}"@,
    {
        Loading {
            eta_ms: INITIAL_ETA_MS,
            delay_ms: INITIAL_DELAY_MS,
            start_ms: 0,
            generation: 0,
            running: false,
            clear: false,
            chars: String::from_str("``'"),
            template: String::from_str("{wide_bar:.cyan/blue}"),
        }
    }

    /// Configures the indicator to be cleared from the display when done.
    pub fn clear(self) -> (l: Loading)
        ensures
            l.clear,
            l.eta_ms == self.eta_ms,
            l.delay_ms == self.delay_ms,
            l.start_ms == self.start_ms,
            l.generation == self.generation,
            l.running == self.running,
            l.chars == self.chars,
            l.template == self.template,
    {
        Loading { clear: true, ..self }
    }

    /// Configures the display's progress characters.
    pub fn chars(self, chars: &str) -> (l: Loading)
        ensures
            l.chars@ == chars@,
            l.eta_ms == self.eta_ms,
            l.delay_ms == self.delay_ms,
            l.start_ms == self.start_ms,
            l.generation == self.generation,
            l.running == self.running,
            l.clear == self.clear,
            l.template == self.template,
    {
        Loading { chars: String::from_str(chars), ..self }
    }

    /// Configures the display's layout template.
    pub fn template(self, template: &str) -> (l: Loading)
        ensures
            l.template@ == template@,
            l.eta_ms == self.eta_ms,
            l.delay_ms == self.delay_ms,
            l.start_ms == self.start_ms,
            l.generation == self.generation,
            l.running == self.running,
            l.clear == self.clear,
            l.chars == self.chars,
    {
        Loading { template: String::from_str(template), ..self }
    }

    /// Resets the timer and issues the one ticker that may now run; every
    /// ticker issued earlier is superseded by it.
    pub fn start(&mut self, now_ms: u64) -> (t: Ticker)
        requires
            old(self).generation < u64::MAX,
        ensures
            final(self).generation == old(self).generation + 1,
            final(self).running,
            final(self).start_ms == now_ms,
            final(self).eta_ms == old(self).eta_ms,
            final(self).delay_ms == old(self).delay_ms,
            final(self).clear == old(self).clear,
            final(self).chars == old(self).chars,
            final(self).template == old(self).template,
            t.generation == final(self).generation,
            t.position == 0,
            !t.stopped,
            t.delay_ms == old(self).delay_ms,
            t.clear == old(self).clear,
            t.wf(),
            final(self).ticker_live(t),
            forall|u: Ticker| u.generation != t.generation ==> !final(self).ticker_live(u),
    {
        self.start_ms = now_ms;
        self.generation = self.generation + 1;
        self.running = true;
        Ticker {
            generation: self.generation,
            position: 0,
            stopped: false,
            delay_ms: self.delay_ms,
            clear: self.clear,
        }
    }

    /// Records the elapsed run, recalibrates the tick delay from it, and
    /// signals any live ticker to stop.
    pub fn finish(&mut self, now_ms: u64)
        ensures
            final(self).eta_ms == elapsed_ms(old(self).start_ms, now_ms),
            final(self).delay_ms == estimated_delay_ms(final(self).eta_ms),
            !final(self).running,
            final(self).start_ms == old(self).start_ms,
            final(self).generation == old(self).generation,
            final(self).clear == old(self).clear,
            final(self).chars == old(self).chars,
            final(self).template == old(self).template,
            forall|u: Ticker| !final(self).ticker_live(u),
    {
        let eta: u64 = if now_ms >= self.start_ms {
            now_ms - self.start_ms
        } else {
            0
        };
        self.eta_ms = eta;
        self.delay_ms = eta / 100 + if eta % 100 >= 50 {
            1
        } else {
            0
        };
        self.running = false;
    }
}

/// Calling `start` twice without an intervening `finish` leaves exactly one
/// ticker that may still run: the one the second call issued.
pub proof fn lemma_second_start_supersedes(l2: Loading, t1: Ticker, t2: Ticker)
    requires
        t1.generation != t2.generation,
        t2.generation == l2.generation,
        l2.running,
        !t2.stopped,
    ensures
        l2.ticker_live(t2),
        !l2.ticker_live(t1),
        forall|u: Ticker| l2.ticker_live(u) ==> u.generation == t2.generation,
{
}

/// The indicator never exceeds 100%.
pub proof fn lemma_indicator_bounded(t: Ticker)
    requires
        t.wf(),
    ensures
        t.position <= 100,
{
}

} // verus!
