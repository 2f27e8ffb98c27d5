//! The time tracker: elapsed time, pauses and the position in the interval
//! schedule, all derived from instants given in nanoseconds.
use vstd::arithmetic::div_mod::lemma_fundamental_div_mod_converse;
use vstd::prelude::*;

use crate::clock::nanos_since;
use crate::intervals::{opt_view, Interval, IntervalList};
use crate::text::{
    clock_text, decimal, expand, expand_placeholders, format_clock, joined, push_decimal,
    push_part, split_words, words, NANOS_PER_SEC,
};

verus! {

/// The longest interval a schedule can hold, in nanoseconds.
pub const MAX_INTERVAL_NANOS: u64 = 4_294_967_295_000_000_000;

/// The latest instant the tracker accepts, in nanoseconds since its clock's
/// origin: late enough for some four centuries.
pub const MAX_INSTANT: u64 = u64::MAX - MAX_INTERVAL_NANOS;

/// The length of an interval in nanoseconds.
pub open spec fn interval_nanos(i: Interval) -> int {
    i.duration_secs as int * NANOS_PER_SEC as int
}

/// A counter after one more event; it stays at its largest value.
pub open spec fn bump(n: int) -> int {
    if n < usize::MAX {
        n + 1
    } else {
        n
    }
}

/// The end of the first interval of a schedule that starts at `now`.
pub open spec fn first_end(intervals: Option<Seq<Interval>>, now: int) -> int {
    match intervals {
        Some(s) => now + interval_nanos(s[0]),
        None => now,
    }
}

/// The state of a tracker, with instants and spans in nanoseconds.
pub struct StopwatchView {
    /// When the tracker was started or last reset.
    pub start_time: int,
    /// Elapsed time, pauses excluded, as of the last update.
    pub current_time: int,
    /// Whether the display counts down to the end of the interval.
    pub countdown: bool,
    pub interval_start_time: int,
    /// When the current interval ends.
    pub interval_end_time: int,
    /// Time left in the current interval, as of the last update.
    pub interval_remaining_time: int,
    pub intervals: Option<Seq<Interval>>,
    /// The position of the current interval in the schedule.
    pub interval_i: int,
    pub intervals_elapsed: int,
    pub interval_cycles_elapsed: int,
    pub show_interval: bool,
    pub show_cycle: bool,
    pub paused: bool,
    /// Time spent paused since the start, the current pause excluded.
    pub paused_time_overall: int,
    /// Length of the last completed pause.
    pub paused_time_last: int,
    /// When the current pause began.
    pub paused_start_time: int,
    pub pause_on_interval: bool,
    /// Command run at each interval boundary.
    pub shell_command: Option<Seq<char>>,
    /// The latest instant the tracker has acted on.
    pub last_instant: int,
}

impl StopwatchView {
    /// A tracker just started at `now`.
    pub open spec fn initial(
        intervals: Option<Seq<Interval>>,
        countdown: bool,
        pause_on_interval: bool,
        shell_command: Option<Seq<char>>,
        show_interval: bool,
        show_cycle: bool,
        now: int,
    ) -> StopwatchView {
        StopwatchView {
            start_time: now,
            current_time: 0,
            countdown,
            interval_start_time: now,
            interval_end_time: first_end(intervals, now),
            interval_remaining_time: 0,
            intervals,
            interval_i: 0,
            intervals_elapsed: 0,
            interval_cycles_elapsed: 0,
            show_interval,
            show_cycle,
            paused: pause_on_interval,
            paused_time_overall: 0,
            paused_time_last: 0,
            paused_start_time: now,
            pause_on_interval,
            shell_command,
            last_instant: now,
        }
    }

    /// The invariant of every tracker: instants fit the accepted range,
    /// pauses lie between the start and the latest instant, the end of the
    /// interval lies at most one interval ahead, and the position is within
    /// the schedule.
    pub open spec fn wf(self) -> bool {
        &&& 0 <= self.start_time
        &&& 0 <= self.paused_time_overall
        &&& self.start_time + self.paused_time_overall <= self.last_instant <= MAX_INSTANT
        &&& 0 <= self.paused_time_last <= u64::MAX
        &&& self.paused ==> self.paused_start_time == self.last_instant
        &&& 0 <= self.paused_start_time <= u64::MAX
        &&& 0 <= self.current_time <= u64::MAX
        &&& 0 <= self.interval_start_time <= u64::MAX
        &&& 0 <= self.interval_end_time <= self.last_instant + MAX_INTERVAL_NANOS
        &&& 0 <= self.interval_remaining_time <= u64::MAX
        &&& 0 <= self.intervals_elapsed <= usize::MAX
        &&& 0 <= self.interval_cycles_elapsed <= usize::MAX
        &&& match self.intervals {
            Some(s) => 0 <= self.interval_i < s.len(),
            None => self.interval_i == 0,
        }
    }

    /// Pauses at `now`, or resumes at `now` and moves the end of the
    /// interval later by the length of the pause.
    pub open spec fn toggled_at(self, now: int) -> StopwatchView {
        if !self.paused {
            StopwatchView { paused: true, paused_start_time: now, last_instant: now, ..self }
        } else {
            let d = now - self.paused_start_time;
            StopwatchView {
                paused: false,
                paused_time_last: d,
                paused_time_overall: self.paused_time_overall + d,
                interval_end_time: self.interval_end_time + d,
                last_instant: now,
                ..self
            }
        }
    }

    /// Moves to the next interval, back to the first after the last.
    pub open spec fn next_interval(self) -> StopwatchView {
        let s = self.intervals->0;
        let wraps = self.interval_i == s.len() - 1;
        let i = if wraps {
            0
        } else {
            self.interval_i + 1
        };
        StopwatchView {
            intervals_elapsed: bump(self.intervals_elapsed),
            interval_i: i,
            interval_cycles_elapsed: if wraps {
                bump(self.interval_cycles_elapsed)
            } else {
                self.interval_cycles_elapsed
            },
            interval_start_time: self.interval_end_time,
            interval_end_time: self.interval_end_time + interval_nanos(s[i]),
            ..self
        }
    }

    /// What an interval boundary reached at `now` does.
    pub open spec fn boundary_at(self, now: int) -> StopwatchView {
        let s = self.next_interval();
        if s.pause_on_interval {
            s.toggled_at(now)
        } else {
            s
        }
    }

    /// Whether an update at `now` reaches the end of the current interval.
    pub open spec fn reaches_boundary(self, now: int) -> bool {
        !self.paused && self.intervals is Some && self.interval_end_time <= now
    }

    /// The state after an update at `now`: nothing changes while paused;
    /// otherwise elapsed time and, with a schedule, the time left in the
    /// interval are measured anew, and an interval boundary is handled once
    /// if it has been reached.
    pub open spec fn advanced(self, now: int) -> StopwatchView {
        if self.paused {
            self
        } else {
            let s = StopwatchView {
                current_time: now - self.start_time - self.paused_time_overall,
                last_instant: now,
                ..self
            };
            if self.intervals is None {
                s
            } else if self.interval_end_time <= now {
                StopwatchView { interval_remaining_time: 0, ..s }.boundary_at(now)
            } else {
                StopwatchView { interval_remaining_time: self.interval_end_time - now, ..s }
            }
        }
    }

    /// The command line to launch when an update at `now` reaches an
    /// interval boundary: the words of the command with the counts after the
    /// boundary put in, if there are any.
    pub open spec fn launch_at(self, now: int) -> Option<Seq<Seq<char>>> {
        if self.reaches_boundary(now) && self.shell_command is Some {
            let s = self.next_interval();
            let w = words(
                expand_placeholders(
                    self.shell_command->0,
                    s.intervals_elapsed as nat,
                    s.interval_cycles_elapsed as nat,
                ),
            );
            if w.len() > 0 {
                Some(w)
            } else {
                None
            }
        } else {
            None
        }
    }

    /// The state after a reset at `now`: time, pauses and counts start over,
    /// at the first interval; the schedule, the settings and whether the
    /// tracker is paused stay.
    pub open spec fn reset_at(self, now: int) -> StopwatchView {
        StopwatchView {
            start_time: now,
            current_time: 0,
            interval_start_time: now,
            interval_end_time: first_end(self.intervals, now),
            interval_remaining_time: 0,
            interval_i: 0,
            intervals_elapsed: 0,
            interval_cycles_elapsed: 0,
            paused_time_overall: 0,
            paused_time_last: 0,
            paused_start_time: now,
            last_instant: now,
            ..self
        }
    }

    /// The span shown: time left in the interval when counting down,
    /// elapsed time otherwise.
    pub open spec fn shown_time(self) -> int {
        if self.countdown {
            self.interval_remaining_time
        } else {
            self.current_time
        }
    }

    /// The pieces of the status line: the interval ordinal, the cycle
    /// ordinal and a pause mark, each when enabled.
    pub open spec fn status_parts(self) -> Seq<Seq<char>> {
        (if self.show_interval {
            seq![seq!['i'] + decimal((self.intervals_elapsed + 1) as nat)]
        } else {
            seq![]
        }) + (if self.show_cycle {
            seq![seq!['c'] + decimal((self.interval_cycles_elapsed + 1) as nat)]
        } else {
            seq![]
        }) + (if self.paused {
            seq![seq!['\u{2022}']]
        } else {
            seq![]
        })
    }
}

impl StopwatchView {
    /// The state after an update at each of `times`, in order.
    pub open spec fn advanced_through(self, times: Seq<int>) -> StopwatchView
        decreases times.len(),
    {
        if times.len() == 0 {
            self
        } else {
            self.advanced_through(times.drop_last()).advanced(times.last())
        }
    }
}

/// The total length, in nanoseconds, of the first `n` intervals run through
/// a schedule that starts over after its last interval.
pub open spec fn cycled_span(intervals: Seq<Interval>, n: nat) -> int
    decreases n,
{
    if n == 0 {
        0
    } else {
        cycled_span(intervals, (n - 1) as nat) + interval_nanos(
            intervals[(n - 1) % intervals.len() as int],
        )
    }
}

/// Without a schedule, updates to a running stopwatch change only the
/// elapsed time and the instant acted on: the interval position and the
/// interval and cycle counts stay as they were, however many updates come.
pub proof fn lemma_updates_without_schedule(s: StopwatchView, times: Seq<int>)
    requires
        s.intervals is None,
        !s.paused,
    ensures
        times.len() == 0 ==> s.advanced_through(times) == s,
        times.len() > 0 ==> s.advanced_through(times) == (StopwatchView {
            current_time: times.last() - s.start_time - s.paused_time_overall,
            last_instant: times.last(),
            ..s
        }),
    decreases times.len(),
{
    if times.len() > 0 {
        lemma_updates_without_schedule(s, times.drop_last());
    }
}

proof fn lemma_rollover_steps(s: StopwatchView, intervals: Seq<Interval>, now: int, times: Seq<int>)
    requires
        intervals.len() > 0,
        s.intervals == Some(intervals),
        !s.paused,
        !s.pause_on_interval,
        s.interval_i == 0,
        s.intervals_elapsed == 0,
        s.interval_cycles_elapsed == 0,
        s.interval_end_time == now + cycled_span(intervals, 1),
        times.len() <= usize::MAX,
        forall|k: int| 0 <= k < times.len() ==> #[trigger] times[k] >= now + cycled_span(intervals, (k + 1) as nat),
    ensures
        ({
            let p = s.advanced_through(times);
            let n = times.len();
            let len = intervals.len();
            &&& p.intervals == Some(intervals)
            &&& !p.paused
            &&& !p.pause_on_interval
            &&& p.intervals_elapsed == n
            &&& p.interval_cycles_elapsed >= 0
            &&& 0 <= p.interval_i < len
            &&& p.interval_cycles_elapsed * len + p.interval_i == n
            &&& p.interval_end_time == now + cycled_span(intervals, n + 1)
        }),
    decreases times.len(),
{
    let n = times.len();
    if n > 0 {
        let earlier = times.drop_last();
        assert forall|k: int| 0 <= k < earlier.len() implies #[trigger] earlier[k] >= now + cycled_span(
            intervals,
            (k + 1) as nat,
        ) by {
            assert(earlier[k] == times[k]);
        }
        lemma_rollover_steps(s, intervals, now, earlier);
        let p = s.advanced_through(earlier);
        let len = intervals.len();
        let q = p.interval_cycles_elapsed;
        assert(times[n - 1] >= now + cycled_span(intervals, n as nat));
        if p.interval_i == len - 1 {
            assert(q * len + len == (q + 1) * len) by (nonlinear_arith);
            assert(q + 1 <= (q + 1) * len) by (nonlinear_arith)
                requires
                    len > 0,
                    q >= 0,
            ;
        }
        let r = p.advanced(times[n - 1]);
        lemma_fundamental_div_mod_converse(
            n as int,
            len as int,
            r.interval_cycles_elapsed,
            r.interval_i,
        );
    }
}

/// Interval rollover: a fresh stopwatch with a schedule of `len` intervals
/// that is updated once at each of `times`, each time once the current
/// interval is over (at or after the end of the first `k + 1` intervals, for
/// the update `k`), has after `n` such updates passed `n` boundaries,
/// completed `n / len` cycles, is in interval `n % len`, and that interval
/// ends when the first `n + 1` intervals are over.
pub proof fn lemma_interval_rollover(
    intervals: Seq<Interval>,
    countdown: bool,
    shell_command: Option<Seq<char>>,
    show_interval: bool,
    show_cycle: bool,
    now: int,
    times: Seq<int>,
)
    requires
        intervals.len() > 0,
        times.len() <= usize::MAX,
        forall|k: int| 0 <= k < times.len() ==> #[trigger] times[k] >= now + cycled_span(intervals, (k + 1) as nat),
    ensures
        ({
            let p = StopwatchView::initial(
                Some(intervals),
                countdown,
                false,
                shell_command,
                show_interval,
                show_cycle,
                now,
            ).advanced_through(times);
            let n = times.len();
            &&& p.intervals_elapsed == n
            &&& p.interval_cycles_elapsed == n / intervals.len()
            &&& p.interval_i == n % intervals.len()
            &&& p.interval_end_time == now + cycled_span(intervals, n + 1)
        }),
{
    let s = StopwatchView::initial(
        Some(intervals),
        countdown,
        false,
        shell_command,
        show_interval,
        show_cycle,
        now,
    );
    let len = intervals.len() as int;
    assert(0int % len == 0) by (nonlinear_arith)
        requires
            len > 0,
    ;
    assert(cycled_span(intervals, 0) == 0);
    assert(cycled_span(intervals, 1) == interval_nanos(intervals[0]));
    lemma_rollover_steps(s, intervals, now, times);
    let p = s.advanced_through(times);
    lemma_fundamental_div_mod_converse(
        times.len() as int,
        intervals.len() as int,
        p.interval_cycles_elapsed,
        p.interval_i,
    );
}

/// A pause costs the interval none of its time: after an update at `t1`,
/// a pause at `p` and a resume at `q`, an update at `t3` finds the time
/// spent paused grown by exactly `q - p`, and the elapsed time grown and the
/// time left in the interval shrunk by the running time `(p - t1) + (t3 - q)`
/// alone. In particular, with `p == t1` and `t3 == q`, both are unchanged.
pub proof fn lemma_pause_resume(s: StopwatchView, t1: int, p: int, q: int, t3: int)
    requires
        s.wf(),
        !s.paused,
        s.last_instant <= t1 <= p <= q <= t3,
        s.intervals is Some ==> (p - t1) + (t3 - q) < s.interval_end_time - t1,
    ensures
        ({
            let before = s.advanced(t1);
            let resumed = before.toggled_at(p).toggled_at(q);
            let after = resumed.advanced(t3);
            let running = (p - t1) + (t3 - q);
            &&& !resumed.paused
            &&& resumed.paused_time_overall == before.paused_time_overall + (q - p)
            &&& resumed.interval_end_time == before.interval_end_time + (q - p)
            &&& after.current_time == before.current_time + running
            &&& s.intervals is Some ==> after.interval_remaining_time
                == before.interval_remaining_time - running
            &&& after.interval_i == before.interval_i
            &&& after.intervals_elapsed == before.intervals_elapsed
            &&& after.interval_cycles_elapsed == before.interval_cycles_elapsed
        }),
{
}

/// A reset at `now` leaves the stopwatch as if it had just been started at
/// `now` with the same schedule and settings, but for whether it is paused,
/// which the reset keeps.
pub proof fn lemma_reset_is_fresh_start(s: StopwatchView, now: int)
    ensures
        s.reset_at(now) == (StopwatchView {
            paused: s.paused,
            ..StopwatchView::initial(
                s.intervals,
                s.countdown,
                s.pause_on_interval,
                s.shell_command,
                s.show_interval,
                s.show_cycle,
                now,
            )
        }),
{
}

enum DisplayTime {
    Current,
    Countdown,
}

/// The command lines of a launch, as text.
pub open spec fn launch_view(r: Option<Vec<String>>) -> Option<Seq<Seq<char>>> {
    match r {
        Some(v) => Some(v.deep_view()),
        None => None,
    }
}

/// A stopwatch whose time may be split into a cycle of intervals.
pub struct Stopwatch {
    clock: std::time::Instant,
    start_time: u64,
    pub current_time: u64,
    display_time: DisplayTime,
    interval_start_time: u64,
    interval_end_time: u64,
    interval_remaining_time: u64,
    interval_list: Option<IntervalList>,
    interval_i: usize,
    intervals_elapsed: usize,
    interval_cycles_elapsed: usize,
    show_interval: bool,
    show_cycle: bool,
    paused: bool,
    paused_time_overall: u64,
    paused_time_last: u64,
    paused_start_time: u64,
    pause_on_interval: bool,
    interval_shell_command: Option<String>,
    last_instant: u64,
}

/// The schedule of an optional interval list.
pub open spec fn schedule_view(l: Option<IntervalList>) -> Option<Seq<Interval>> {
    match l {
        Some(l) => Some(l.intervals@),
        None => None,
    }
}

impl View for Stopwatch {
    type V = StopwatchView;

    closed spec fn view(&self) -> StopwatchView {
        StopwatchView {
            start_time: self.start_time as int,
            current_time: self.current_time as int,
            countdown: self.display_time is Countdown,
            interval_start_time: self.interval_start_time as int,
            interval_end_time: self.interval_end_time as int,
            interval_remaining_time: self.interval_remaining_time as int,
            intervals: schedule_view(self.interval_list),
            interval_i: self.interval_i as int,
            intervals_elapsed: self.intervals_elapsed as int,
            interval_cycles_elapsed: self.interval_cycles_elapsed as int,
            show_interval: self.show_interval,
            show_cycle: self.show_cycle,
            paused: self.paused,
            paused_time_overall: self.paused_time_overall as int,
            paused_time_last: self.paused_time_last as int,
            paused_start_time: self.paused_start_time as int,
            pause_on_interval: self.pause_on_interval,
            shell_command: opt_view(self.interval_shell_command),
            last_instant: self.last_instant as int,
        }
    }
}

impl Stopwatch {
    /// Holds of every stopwatch the constructors make; every method keeps it.
    pub open spec fn wf(&self) -> bool {
        self@.wf()
    }

    /// Starts a stopwatch now.
    pub fn new(
        interval_list: Option<IntervalList>,
        count_down: bool,
        pause_on_interval: bool,
        shell_command: Option<String>,
        show_interval: bool,
        show_cycle: bool,
    ) -> (r: Self)
        requires
            interval_list matches Some(l) ==> l.intervals@.len() > 0,
        ensures
            r.wf(),
            r@ == StopwatchView::initial(
                schedule_view(interval_list),
                count_down,
                pause_on_interval,
                opt_view(shell_command),
                show_interval,
                show_cycle,
                r@.start_time,
            ),
    {
        let clock = std::time::Instant::now();
        let now = clamp_reading(nanos_since(&clock), 0);
        Self::start(
            clock,
            interval_list,
            count_down,
            pause_on_interval,
            shell_command,
            show_interval,
            show_cycle,
            now,
        )
    }

    /// Starts a stopwatch at the instant `now`.
    pub fn new_at(
        interval_list: Option<IntervalList>,
        count_down: bool,
        pause_on_interval: bool,
        shell_command: Option<String>,
        show_interval: bool,
        show_cycle: bool,
        now: u64,
    ) -> (r: Self)
        requires
            interval_list matches Some(l) ==> l.intervals@.len() > 0,
            now <= MAX_INSTANT,
        ensures
            r.wf(),
            r@ == StopwatchView::initial(
                schedule_view(interval_list),
                count_down,
                pause_on_interval,
                opt_view(shell_command),
                show_interval,
                show_cycle,
                now as int,
            ),
    {
        Self::start(
            std::time::Instant::now(),
            interval_list,
            count_down,
            pause_on_interval,
            shell_command,
            show_interval,
            show_cycle,
            now,
        )
    }

    fn start(
        clock: std::time::Instant,
        interval_list: Option<IntervalList>,
        count_down: bool,
        pause_on_interval: bool,
        shell_command: Option<String>,
        show_interval: bool,
        show_cycle: bool,
        now: u64,
    ) -> (r: Self)
        requires
            interval_list matches Some(l) ==> l.intervals@.len() > 0,
            now <= MAX_INSTANT,
        ensures
            r.wf(),
            r@ == StopwatchView::initial(
                schedule_view(interval_list),
                count_down,
                pause_on_interval,
                opt_view(shell_command),
                show_interval,
                show_cycle,
                now as int,
            ),
    {
        let first_interval_end_time = Self::first_interval_end(&interval_list, now);
        Self {
            clock,
            start_time: now,
            current_time: 0,
            display_time: if !count_down {
                DisplayTime::Current
            } else {
                DisplayTime::Countdown
            },
            interval_start_time: now,
            interval_end_time: first_interval_end_time,
            interval_remaining_time: 0,
            interval_list,
            interval_i: 0,
            intervals_elapsed: 0,
            interval_cycles_elapsed: 0,
            show_interval,
            show_cycle,
            paused: pause_on_interval,
            paused_time_overall: 0,
            paused_time_last: 0,
            paused_start_time: now,
            pause_on_interval,
            interval_shell_command: shell_command,
            last_instant: now,
        }
    }

    /// Updates the stopwatch to the instant `now`: while running, measures
    /// elapsed time and the time left in the interval, and handles an interval
    /// boundary once if it has been reached. Returns the command line to
    /// launch for that boundary, if any.
    pub fn update_time_at(&mut self, now: u64) -> (r: Option<Vec<String>>)
        requires
            old(self).wf(),
            old(self)@.last_instant <= now <= MAX_INSTANT,
        ensures
            final(self).wf(),
            final(self)@ == old(self)@.advanced(now as int),
            launch_view(r) == old(self)@.launch_at(now as int),
    {
        if !self.paused {
            self.current_time = now - self.start_time - self.paused_time_overall;
            self.last_instant = now;
            if self.interval_list.is_some() {
                self.interval_remaining_time = now_until(now, self.interval_end_time);
                if self.interval_remaining_time == 0 {
                    return self.interval_boundary(now);
                }
            }
        }
        None
    }

    /// Handles an interval boundary reached at `now`.
    fn interval_boundary(&mut self, now: u64) -> (r: Option<Vec<String>>)
        requires
            old(self).wf(),
            !old(self)@.paused,
            old(self)@.intervals is Some,
            old(self)@.interval_end_time <= now,
            old(self)@.last_instant == now,
        ensures
            final(self).wf(),
            final(self)@ == old(self)@.boundary_at(now as int),
            launch_view(r) == old(self)@.launch_at(now as int),
    {
        self.next_interval();
        let launch = self.shell_command_args();
        if self.pause_on_interval {
            self.toggle_pause_at(now);
        }
        launch
    }

    /// Moves to the next interval.
    fn next_interval(&mut self)
        requires
            old(self).wf(),
            old(self)@.intervals is Some,
            old(self)@.interval_end_time <= old(self)@.last_instant,
        ensures
            final(self).wf(),
            final(self)@ == old(self)@.next_interval(),
    {
        self.intervals_elapsed = self.intervals_elapsed.saturating_add(1);
        match &self.interval_list {
            Some(interval_list) => {
                if self.interval_i == interval_list.intervals.len() - 1 {
                    self.interval_i = 0;
                    self.interval_cycles_elapsed = self.interval_cycles_elapsed.saturating_add(1);
                } else {
                    self.interval_i = self.interval_i + 1;
                }
                self.interval_start_time = self.interval_end_time;
                self.interval_end_time = self.interval_start_time
                    + interval_list.intervals[self.interval_i].duration_secs as u64 * NANOS_PER_SEC;
            },
            None => {},
        }
    }

    /// The command line to launch for the interval just begun: the words of
    /// the shell command with the counts put in, if there are any.
    fn shell_command_args(&self) -> (r: Option<Vec<String>>)
        ensures
            launch_view(r) == match self@.shell_command {
                Some(t) => {
                    let w = words(
                        expand_placeholders(
                            t,
                            self@.intervals_elapsed as nat,
                            self@.interval_cycles_elapsed as nat,
                        ),
                    );
                    if w.len() > 0 {
                        Some(w)
                    } else {
                        None
                    }
                },
                None => None,
            },
    {
        match &self.interval_shell_command {
            Some(shell_command) => {
                let command = expand(
                    shell_command.as_str(),
                    self.intervals_elapsed as u128,
                    self.interval_cycles_elapsed as u128,
                );
                let arguments = split_words(command.as_str());
                if arguments.len() > 0 {
                    Some(arguments)
                } else {
                    None
                }
            },
            None => None,
        }
    }

    /// Pauses at `now`, or resumes at `now`; on resuming, the length of the
    /// pause is added to the time spent paused and moves the end of the
    /// interval later.
    pub fn toggle_pause_at(&mut self, now: u64)
        requires
            old(self).wf(),
            old(self)@.last_instant <= now <= MAX_INSTANT,
        ensures
            final(self).wf(),
            final(self)@ == old(self)@.toggled_at(now as int),
    {
        self.paused = !self.paused;
        if self.paused {
            self.paused_start_time = now;
        } else {
            self.paused_time_last = now - self.paused_start_time;
            self.paused_time_overall = self.paused_time_overall + self.paused_time_last;
            self.interval_end_time = self.interval_end_time + self.paused_time_last;
        }
        self.last_instant = now;
    }

    /// Starts the stopwatch over at `now`: elapsed time, pauses and counts
    /// go back to zero at the first interval. The schedule, the settings and
    /// whether the stopwatch is paused stay.
    pub fn reset_at(&mut self, now: u64)
        requires
            old(self).wf(),
            old(self)@.last_instant <= now <= MAX_INSTANT,
        ensures
            final(self).wf(),
            final(self)@ == old(self)@.reset_at(now as int),
            final(self)@.intervals_elapsed == 0,
            final(self)@.interval_cycles_elapsed == 0,
            final(self)@.interval_i == 0,
            final(self)@.current_time == 0,
            final(self)@.intervals == old(self)@.intervals,
            final(self)@.countdown == old(self)@.countdown,
    {
        let first_interval_end_time = Self::first_interval_end(&self.interval_list, now);
        self.start_time = now;
        self.current_time = 0;
        self.interval_start_time = now;
        self.interval_end_time = first_interval_end_time;
        self.interval_remaining_time = 0;
        self.interval_i = 0;
        self.intervals_elapsed = 0;
        self.interval_cycles_elapsed = 0;
        self.paused_time_overall = 0;
        self.paused_time_last = 0;
        self.paused_start_time = now;
        self.last_instant = now;
    }

    /// The clock's reading now, as an instant the stopwatch accepts: a
    /// reading earlier than the last instant acted on counts as that instant.
    fn now(&self) -> (r: u64)
        requires
            self.wf(),
        ensures
            self@.last_instant <= r <= MAX_INSTANT,
    {
        clamp_reading(nanos_since(&self.clock), self.last_instant)
    }

    /// Updates the stopwatch to the clock's reading now; see `update_time_at`.
    pub fn update_time(&mut self) -> (r: Option<Vec<String>>)
        requires
            old(self).wf(),
        ensures
            final(self).wf(),
            exists|now: int|
                old(self)@.last_instant <= now <= MAX_INSTANT && final(self)@ == old(self)@.advanced(
                    now,
                ) && launch_view(r) == old(self)@.launch_at(now),
    {
        if self.paused {
            assert(self@.advanced(self@.last_instant) == self@);
            assert(launch_view(None) == self@.launch_at(self@.last_instant));
            return None;
        }
        let now = self.now();
        self.update_time_at(now)
    }

    /// Pauses or resumes at the clock's reading now; see `toggle_pause_at`.
    pub fn toggle_pause(&mut self)
        requires
            old(self).wf(),
        ensures
            final(self).wf(),
            exists|now: int|
                old(self)@.last_instant <= now <= MAX_INSTANT && final(self)@ == old(
                    self,
                )@.toggled_at(now),
    {
        let now = self.now();
        self.toggle_pause_at(now);
    }

    /// Starts the stopwatch over at the clock's reading now; see `reset_at`.
    pub fn reset(&mut self)
        requires
            old(self).wf(),
        ensures
            final(self).wf(),
            exists|now: int|
                old(self)@.last_instant <= now <= MAX_INSTANT && final(self)@ == old(
                    self,
                )@.reset_at(now),
    {
        let now = self.now();
        self.reset_at(now);
    }

    /// The interval the stopwatch is in, if it has a schedule.
    pub fn get_current_interval(&self) -> (r: Option<&Interval>)
        requires
            self.wf(),
        ensures
            match self@.intervals {
                Some(s) => r matches Some(i) && *i == s[self@.interval_i],
                None => r is None,
            },
    {
        match &self.interval_list {
            Some(interval_list) => Some(&interval_list.intervals[self.interval_i]),
            None => None,
        }
    }

    /// The status line: the interval ordinal, the cycle ordinal and a pause
    /// mark, each when enabled, separated by spaces.
    pub fn get_status_string(&self) -> (r: String)
        ensures
            r@ == joined(self@.status_parts()),
    {
        let mut status = String::new();
        let ghost mut parts: Seq<Seq<char>> = seq![];
        if self.show_interval {
            let mut part = String::new();
            part.push('i');
            push_decimal(&mut part, self.intervals_elapsed as u128 + 1);
            push_part(&mut status, part.as_str(), Ghost(parts));
            proof {
                parts = parts.push(part@);
            }
        }
        if self.show_cycle {
            let mut part = String::new();
            part.push('c');
            push_decimal(&mut part, self.interval_cycles_elapsed as u128 + 1);
            push_part(&mut status, part.as_str(), Ghost(parts));
            proof {
                parts = parts.push(part@);
            }
        }
        if self.paused {
            let mut part = String::new();
            part.push('\u{2022}');
            push_part(&mut status, part.as_str(), Ghost(parts));
            proof {
                parts = parts.push(part@);
            }
        }
        assert(parts =~= self@.status_parts());
        status
    }

    /// The time shown, as `HH:MM:SS.d`: time left in the interval when
    /// counting down, elapsed time otherwise.
    pub fn formatted_time(&self) -> (r: String)
        ensures
            r@ == clock_text(self@.shown_time() as nat),
    {
        match self.display_time {
            DisplayTime::Current => format_clock(self.current_time),
            DisplayTime::Countdown => format_clock(self.interval_remaining_time),
        }
    }

    pub fn is_paused(&self) -> (r: bool)
        ensures
            r == self@.paused,
    {
        self.paused
    }

    /// How many interval boundaries have been passed.
    pub fn intervals_elapsed(&self) -> (r: usize)
        ensures
            r == self@.intervals_elapsed,
    {
        self.intervals_elapsed
    }

    /// How many times the schedule has gone back to its first interval.
    pub fn interval_cycles_elapsed(&self) -> (r: usize)
        ensures
            r == self@.interval_cycles_elapsed,
    {
        self.interval_cycles_elapsed
    }

    /// The position of the current interval in the schedule.
    pub fn interval_index(&self) -> (r: usize)
        ensures
            r == self@.interval_i,
    {
        self.interval_i
    }

    /// Time left in the current interval as of the last update, in
    /// nanoseconds.
    pub fn interval_remaining_time(&self) -> (r: u64)
        ensures
            r == self@.interval_remaining_time,
    {
        self.interval_remaining_time
    }

    /// Time spent paused since the start, the current pause excluded, in
    /// nanoseconds.
    pub fn paused_time_overall(&self) -> (r: u64)
        ensures
            r == self@.paused_time_overall,
    {
        self.paused_time_overall
    }

    /// The end of the first interval when the schedule starts at `now`.
    fn first_interval_end(interval_list: &Option<IntervalList>, now: u64) -> (r: u64)
        requires
            *interval_list matches Some(l) ==> l.intervals@.len() > 0,
            now <= MAX_INSTANT,
        ensures
            r == first_end(schedule_view(*interval_list), now as int),
    {
        match interval_list {
            Some(interval_list) => now + interval_list.intervals[0].duration_secs as u64
                * NANOS_PER_SEC,
            None => now,
        }
    }
}

/// The time from `now` until `end`, or zero once `end` has passed.
fn now_until(now: u64, end: u64) -> (r: u64)
    ensures
        r == if end > now {
            end - now
        } else {
            0
        },
{
    if end > now {
        end - now
    } else {
        0
    }
}

/// A clock reading as an instant the tracker accepts: no earlier than
/// `not_before` and no later than `MAX_INSTANT`.
fn clamp_reading(raw: u128, not_before: u64) -> (r: u64)
    requires
        not_before <= MAX_INSTANT,
    ensures
        not_before <= r <= MAX_INSTANT,
{
    if raw <= not_before as u128 {
        not_before
    } else if raw > MAX_INSTANT as u128 {
        MAX_INSTANT
    } else {
        raw as u64
    }
}

} // verus!
