use interval_timer::cli::Args;
use interval_timer::intervals::{Colour, ConfigError, IntervalList};
use interval_timer::stopwatch::Stopwatch;
use interval_timer::text::{expand, format_clock, split_words};
use interval_timer::tui::App;

const SEC: u64 = 1_000_000_000;

fn schedule(durations: &str) -> Option<IntervalList> {
    Some(IntervalList::new(durations.to_string(), None).unwrap())
}

#[test]
fn format_truncates_deciseconds() {
    assert_eq!(format_clock(3_661_250_000_000), "01:01:01.2");
    assert_eq!(format_clock(0), "00:00:00.0");
    assert_eq!(format_clock(59_999_999_999), "00:00:59.9");
    assert_eq!(format_clock(360_000 * SEC), "100:00:00.0");
    assert_eq!(format_clock(9 * 3600 * SEC + 5 * 60 * SEC + 7 * SEC + 850_000_000), "09:05:07.8");
}

#[test]
fn updates_without_schedule_change_only_elapsed_time() {
    let mut sw = Stopwatch::new_at(None, false, false, None, false, false, 0);
    for k in 1..=50u64 {
        assert!(sw.update_time_at(k * 7 * SEC).is_none());
        assert_eq!(sw.intervals_elapsed(), 0);
        assert_eq!(sw.interval_cycles_elapsed(), 0);
        assert_eq!(sw.interval_index(), 0);
        assert_eq!(sw.current_time, k * 7 * SEC);
    }
    assert_eq!(sw.formatted_time(), "00:05:50.0");
    assert!(sw.get_current_interval().is_none());
}

#[test]
fn rollover_with_two_intervals() {
    let mut sw = Stopwatch::new_at(schedule("1,2"), false, false, None, false, false, 0);
    let mut now = 0;
    let durations = [1, 2];
    for n in 1..=9usize {
        now += durations[sw.interval_index()] * SEC;
        sw.update_time_at(now);
        assert_eq!(sw.intervals_elapsed(), n);
        assert_eq!(sw.interval_cycles_elapsed(), n / 2);
        assert_eq!(sw.interval_index(), n % 2);
    }
}

#[test]
fn rollover_with_updates_inside_intervals() {
    // durations 2 s and 3 s: boundaries at 2, 5, 7, 10, 12, 15 s
    let mut sw = Stopwatch::new_at(schedule("2,3"), false, false, None, false, false, 0);
    let times = [2_500_000_000, 6 * SEC, 9_900_000_000, 10 * SEC, 14 * SEC, 16 * SEC];
    for (k, &now) in times.iter().enumerate() {
        sw.update_time_at(now);
        let n = k + 1;
        assert_eq!(sw.intervals_elapsed(), n);
        assert_eq!(sw.interval_cycles_elapsed(), n / 2);
        assert_eq!(sw.interval_index(), n % 2);
    }
    sw.update_time_at(16 * SEC + 500_000_000);
    assert_eq!(sw.interval_remaining_time(), 500_000_000);
}

#[test]
fn pause_time_does_not_count_against_interval() {
    let mut sw = Stopwatch::new_at(schedule("10"), false, false, None, false, false, 0);
    sw.update_time_at(SEC);
    sw.toggle_pause_at(3 * SEC);
    sw.toggle_pause_at(8 * SEC);
    sw.update_time_at(9 * SEC);
    assert_eq!(sw.paused_time_overall(), 5 * SEC);
    assert_eq!(sw.current_time, 4 * SEC);
    assert_eq!(sw.interval_remaining_time(), 6 * SEC);
}

#[test]
fn slow_update_crosses_one_boundary_only() {
    let mut sw = Stopwatch::new_at(schedule("1,1,1"), false, false, None, false, false, 0);
    sw.update_time_at(10 * SEC);
    assert_eq!(sw.intervals_elapsed(), 1);
    assert_eq!(sw.interval_index(), 1);
    assert_eq!(sw.interval_remaining_time(), 0);
}

#[test]
fn pause_and_resume_keep_remaining_time() {
    let mut sw = Stopwatch::new_at(schedule("10"), false, false, None, false, false, 0);
    sw.update_time_at(2 * SEC);
    assert_eq!(sw.interval_remaining_time(), 8 * SEC);
    sw.toggle_pause_at(2 * SEC);
    assert!(sw.is_paused());
    sw.update_time_at(5 * SEC);
    assert_eq!(sw.current_time, 2 * SEC);
    sw.toggle_pause_at(7 * SEC);
    assert!(!sw.is_paused());
    assert_eq!(sw.paused_time_overall(), 5 * SEC);
    sw.update_time_at(7 * SEC);
    assert_eq!(sw.interval_remaining_time(), 8 * SEC);
    assert_eq!(sw.current_time, 2 * SEC);
    sw.update_time_at(15 * SEC);
    assert_eq!(sw.intervals_elapsed(), 1);
}

#[test]
fn reset_starts_over() {
    let mut sw = Stopwatch::new_at(schedule("1,2"), true, false, None, true, true, 0);
    sw.update_time_at(SEC);
    sw.update_time_at(3 * SEC);
    sw.update_time_at(4 * SEC);
    assert_eq!(sw.intervals_elapsed(), 3);
    sw.reset_at(4 * SEC + 500_000_000);
    assert_eq!(sw.intervals_elapsed(), 0);
    assert_eq!(sw.interval_cycles_elapsed(), 0);
    assert_eq!(sw.interval_index(), 0);
    assert_eq!(sw.current_time, 0);
    assert_eq!(sw.paused_time_overall(), 0);
    assert_eq!(sw.formatted_time(), "00:00:00.0");
    assert_eq!(sw.get_status_string(), "i1 c1");
    sw.update_time_at(5 * SEC);
    assert_eq!(sw.interval_remaining_time(), 500_000_000);
    assert_eq!(sw.formatted_time(), "00:00:00.5");
}

#[test]
fn reset_keeps_pause_state() {
    let mut sw = Stopwatch::new_at(None, false, false, None, false, false, 0);
    sw.toggle_pause_at(SEC);
    sw.reset_at(2 * SEC);
    assert!(sw.is_paused());
}

#[test]
fn countdown_shows_time_left() {
    let mut sw = Stopwatch::new_at(schedule("90"), true, false, None, false, false, 0);
    sw.update_time_at(30 * SEC + 450_000_000);
    assert_eq!(sw.formatted_time(), "00:00:59.5");
}

#[test]
fn pause_on_interval_starts_paused_and_pauses_at_boundaries() {
    let mut sw = Stopwatch::new_at(schedule("5"), false, true, None, false, false, 0);
    assert!(sw.is_paused());
    sw.toggle_pause_at(0);
    sw.update_time_at(5 * SEC);
    assert!(sw.is_paused());
    assert_eq!(sw.intervals_elapsed(), 1);
    assert_eq!(sw.interval_cycles_elapsed(), 1);
    sw.toggle_pause_at(8 * SEC);
    sw.update_time_at(12 * SEC);
    assert_eq!(sw.interval_remaining_time(), SEC);
}

#[test]
fn shell_hook_gets_counts() {
    let mut sw = Stopwatch::new_at(
        schedule("1,1"),
        false,
        false,
        Some("notify  i=%i\tc=%c".to_string()),
        false,
        false,
        0,
    );
    assert_eq!(sw.update_time_at(SEC / 2), None);
    let launch = sw.update_time_at(SEC).unwrap();
    assert_eq!(launch, vec!["notify".to_string(), "i=1".to_string(), "c=0".to_string()]);
    let launch = sw.update_time_at(2 * SEC).unwrap();
    assert_eq!(launch, vec!["notify".to_string(), "i=2".to_string(), "c=1".to_string()]);
}

#[test]
fn blank_shell_hook_launches_nothing() {
    let mut sw =
        Stopwatch::new_at(schedule("1"), false, false, Some("   ".to_string()), false, false, 0);
    assert_eq!(sw.update_time_at(SEC), None);
    assert_eq!(sw.intervals_elapsed(), 1);
}

#[test]
fn expansion_and_words() {
    assert_eq!(expand("a%ib%cc%%i%x", 12, 3), "a12b3c%12%x");
    assert_eq!(expand("", 1, 2), "");
    assert_eq!(
        split_words("  say \t hello\nworld  "),
        vec!["say".to_string(), "hello".to_string(), "world".to_string()]
    );
    assert!(split_words(" \u{2003} ").is_empty());
    assert_eq!(split_words("a\u{200B}b\u{85}c"), vec!["a\u{200B}b".to_string(), "c".to_string()]);
}

#[test]
fn status_line() {
    let mut sw = Stopwatch::new_at(schedule("1"), false, false, None, true, true, 0);
    assert_eq!(sw.get_status_string(), "i1 c1");
    sw.update_time_at(SEC);
    sw.toggle_pause_at(SEC);
    assert_eq!(sw.get_status_string(), "i2 c2 \u{2022}");
    let quiet = Stopwatch::new_at(None, false, false, None, false, false, 0);
    assert_eq!(quiet.get_status_string(), "");
    let only_cycle = Stopwatch::new_at(None, false, false, None, false, true, 0);
    assert_eq!(only_cycle.get_status_string(), "c1");
}

#[test]
fn current_interval_follows_schedule() {
    let list = IntervalList::new("1,2".to_string(), Some("3,6".to_string())).unwrap();
    let mut sw = Stopwatch::new_at(Some(list), false, false, None, false, false, 0);
    assert_eq!(sw.get_current_interval().unwrap().colour, Colour::Yellow);
    sw.update_time_at(SEC);
    let current = sw.get_current_interval().unwrap();
    assert_eq!(current.colour, Colour::Cyan);
    assert_eq!(current.duration_secs, 2);
}

#[test]
fn clock_driven_stopwatch() {
    let mut sw = Stopwatch::new(schedule("3600"), false, false, None, false, false);
    assert_eq!(sw.update_time(), None);
    sw.toggle_pause();
    assert!(sw.is_paused());
    sw.toggle_pause();
    assert!(!sw.is_paused());
    sw.reset();
    assert_eq!(sw.intervals_elapsed(), 0);
    assert!(sw.formatted_time().starts_with("00:00:0"));
}

#[test]
fn app_keys() {
    let mut app = App::new(Stopwatch::new(None, false, false, None, false, false));
    app.handle_key_event('x');
    assert!(!app.stopwatch().is_paused());
    app.handle_key_event('p');
    assert!(app.stopwatch().is_paused());
    app.handle_key_event(' ');
    assert!(!app.stopwatch().is_paused());
    app.handle_key_event('r');
    assert_eq!(app.stopwatch().intervals_elapsed(), 0);
    assert_eq!(app.update(), None);
    assert!(!app.should_exit());
    app.handle_key_event('q');
    assert!(app.should_exit());
}

#[test]
fn args_schedule() {
    let mut args = Args {
        intervals: None,
        colours: Some("1".to_string()),
        descending: false,
        pause: false,
        shell: None,
        show_interval: false,
        show_cycle: false,
    };
    assert!(matches!(args.interval_list(), Ok(None)));
    args.intervals = Some("30,60".to_string());
    let list = args.interval_list().unwrap().unwrap();
    assert_eq!(list.intervals.len(), 2);
    assert_eq!(list.warning, Some(ConfigError::Mismatch));
    args.intervals = Some("30,".to_string());
    assert!(matches!(args.interval_list(), Err(ConfigError::ParseFailure)));
}
