//! The stopwatch's settings as given on the command line.
use vstd::prelude::*;

use crate::intervals::{
    config_parses, config_replaces_colours, opt_view, schedule_of, ConfigError, IntervalList,
};

verus! {

/// The command-line settings of the stopwatch.
pub struct Args {
    /// Intervals to cycle colour on (comma-separated seconds).
    pub intervals: Option<String>,
    /// Colours to represent each interval (comma-separated ANSI colours, 0-7).
    pub colours: Option<String>,
    /// Count down to each interval boundary.
    pub descending: bool,
    /// Pause on interval boundaries.
    pub pause: bool,
    /// Shell command run at the end of intervals (`%i` for the interval and
    /// `%c` for the cycle number).
    pub shell: Option<String>,
    /// Show the number of intervals elapsed.
    pub show_interval: bool,
    /// Show the number of interval cycles elapsed.
    pub show_cycle: bool,
}

fn copy_text(s: &Option<String>) -> (r: Option<String>)
    ensures
        opt_view(r) == opt_view(*s),
{
    match s {
        Some(s) => Some(s.clone()),
        None => None,
    }
}

impl Args {
    /// The interval schedule the settings ask for: none without durations,
    /// otherwise the one read from the durations and colours.
    pub fn interval_list(&self) -> (r: Result<Option<IntervalList>, ConfigError>)
        ensures
            match self.intervals {
                None => r matches Ok(None),
                Some(d) => {
                    &&& r is Ok <==> config_parses(d@, opt_view(self.colours))
                    &&& r matches Err(e) ==> e == ConfigError::ParseFailure
                    &&& r matches Ok(l) ==> l matches Some(l) && l.intervals@ == schedule_of(
                        d@,
                        opt_view(self.colours),
                    ) && l.intervals@.len() > 0 && l.warning == if config_replaces_colours(
                        d@,
                        opt_view(self.colours),
                    ) {
                        Some(ConfigError::Mismatch)
                    } else {
                        None::<ConfigError>
                    }
                },
            },
    {
        match &self.intervals {
            Some(durations) => match IntervalList::new(durations.clone(), copy_text(&self.colours)) {
                Ok(list) => Ok(Some(list)),
                Err(e) => Err(e),
            },
            None => Ok(None),
        }
    }
}

} // verus!
