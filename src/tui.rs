//! The interactive session: a stopwatch driven by key presses.
use vstd::prelude::*;

use crate::stopwatch::{Stopwatch, StopwatchView, MAX_INSTANT, launch_view};

verus! {

/// The state of a session.
pub struct AppView {
    pub stopwatch: StopwatchView,
    pub exit: bool,
}

/// A stopwatch session that runs until the user quits.
pub struct App {
    stopwatch: Stopwatch,
    exit: bool,
}

impl View for App {
    type V = AppView;

    closed spec fn view(&self) -> AppView {
        AppView { stopwatch: self.stopwatch@, exit: self.exit }
    }
}

impl App {
    pub open spec fn wf(&self) -> bool {
        self@.stopwatch.wf()
    }

    pub fn new(stopwatch: Stopwatch) -> (r: Self)
        requires
            stopwatch.wf(),
        ensures
            r.wf(),
            r@ == (AppView { stopwatch: stopwatch@, exit: false }),
    {
        Self { stopwatch, exit: false }
    }

    /// The stopwatch of the session.
    pub fn stopwatch(&self) -> (r: &Stopwatch)
        ensures
            r@ == self@.stopwatch,
    {
        &self.stopwatch
    }

    /// Whether the user has asked to quit.
    pub fn should_exit(&self) -> (r: bool)
        ensures
            r == self@.exit,
    {
        self.exit
    }

    /// Updates the stopwatch to the clock's reading now; returns the command
    /// line to launch for an interval boundary, if any.
    pub fn update(&mut self) -> (r: Option<Vec<String>>)
        requires
            old(self).wf(),
        ensures
            final(self).wf(),
            final(self)@.exit == old(self)@.exit,
            exists|now: int|
                old(self)@.stopwatch.last_instant <= now <= MAX_INSTANT && final(self)@.stopwatch
                    == old(self)@.stopwatch.advanced(now) && launch_view(r) == old(
                    self,
                )@.stopwatch.launch_at(now),
    {
        self.stopwatch.update_time()
    }

    /// Acts on a key press: `q` quits, `p` or space pauses or resumes, `r`
    /// resets the stopwatch; other keys do nothing.
    pub fn handle_key_event(&mut self, key: char)
        requires
            old(self).wf(),
        ensures
            final(self).wf(),
            key == 'q' ==> final(self)@ == (AppView { exit: true, ..old(self)@ }),
            key == 'p' || key == ' ' ==> final(self)@.exit == old(self)@.exit && exists|now: int|
                old(self)@.stopwatch.last_instant <= now <= MAX_INSTANT && final(self)@.stopwatch
                    == old(self)@.stopwatch.toggled_at(now),
            key == 'r' ==> final(self)@.exit == old(self)@.exit && exists|now: int|
                old(self)@.stopwatch.last_instant <= now <= MAX_INSTANT && final(self)@.stopwatch
                    == old(self)@.stopwatch.reset_at(now),
            key != 'q' && key != 'p' && key != ' ' && key != 'r' ==> final(self)@ == old(self)@,
    {
        match key {
            'q' => self.exit(),
            'p' | ' ' => self.stopwatch.toggle_pause(),
            'r' => self.stopwatch.reset(),
            _ => {},
        }
    }

    /// Ends the session.
    pub fn exit(&mut self)
        ensures
            final(self)@ == (AppView { exit: true, ..old(self)@ }),
    {
        self.exit = true;
    }
}

} // verus!
