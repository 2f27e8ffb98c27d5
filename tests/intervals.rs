use interval_timer::intervals::{Colour, ConfigError, Interval, IntervalList};

fn int_vec_to_string<T: ToString>(vec: Vec<T>) -> String {
    vec.iter()
        .map(|value| value.to_string())
        .collect::<Vec<String>>()
        .join(",")
}

#[test]
fn valid_configurations() {
    let cases: Vec<(Vec<u32>, Option<Vec<u8>>)> = vec![
        (vec![60], None),
        (vec![30; 100], None),
        (vec![60], Some(vec![7])),
        (vec![30, 30, 30], Some(vec![1, 2, 3])),
    ];
    for (durations, colours) in cases {
        // construct a list of intervals from the raw values
        let colours = match colours {
            Some(colours) => colours,
            None => IntervalList::generate_colours(durations.len()),
        };
        let raw_interval_list: Vec<Interval> = durations
            .iter()
            .zip(colours.iter())
            .map(|(&duration, &colour)| Interval::new(duration, colour))
            .collect();

        // convert the raw values to strings and construct an IntervalList
        let parsed_interval_list =
            IntervalList::new(int_vec_to_string(durations), Some(int_vec_to_string(colours)))
                .expect("Failed to parse the test interval configuration strings");

        // compare the resulting Interval instances
        for (raw_interval, parsed_interval) in
            raw_interval_list.iter().zip(parsed_interval_list.intervals.iter())
        {
            assert_eq!(raw_interval.duration_secs, parsed_interval.duration_secs);
            assert_eq!(raw_interval.colour, parsed_interval.colour);
        }
    }
}

#[test]
fn invalid_configurations() {
    for (durations_string, colours_string) in [
        (",".to_string(), None),
        ("30,".to_string(), None),
        ("30".to_string(), Some(",".to_string())),
        ("30".to_string(), Some("1,".to_string())),
    ] {
        let result = IntervalList::new(durations_string, colours_string);

        assert!(result.is_err());
    }
}

#[test]
fn generate_colours() {
    for (durations, correct_colours) in
        [(vec![60], vec![1]), (vec![30; 8], vec![1, 2, 3, 4, 5, 6, 7, 1])]
    {
        let generated_colours = IntervalList::generate_colours(durations.len());

        assert_eq!(correct_colours, generated_colours);
    }
}

#[test]
fn schedule_keeps_input_order() {
    let list = IntervalList::new("5,10,15,20".to_string(), None).unwrap();
    let secs: Vec<u32> = list.intervals.iter().map(|i| i.duration_secs).collect();
    assert_eq!(secs, vec![5, 10, 15, 20]);
    assert_eq!(list.warning, None);
}

#[test]
fn colours_follow_the_codes_given() {
    let list = IntervalList::new("1,2,3".to_string(), Some("0,4,7".to_string())).unwrap();
    let colours: Vec<Colour> = list.intervals.iter().map(|i| i.colour).collect();
    assert_eq!(colours, vec![Colour::Black, Colour::Blue, Colour::White]);
    assert_eq!(list.warning, None);
}

#[test]
fn colour_count_mismatch_generates_cycle() {
    let list = IntervalList::new("1,2,3".to_string(), Some("4,4".to_string())).unwrap();
    let colours: Vec<Colour> = list.intervals.iter().map(|i| i.colour).collect();
    assert_eq!(colours, vec![Colour::Red, Colour::Green, Colour::Yellow]);
    assert_eq!(list.warning, Some(ConfigError::Mismatch));
}

#[test]
fn colour_code_above_seven_generates_cycle() {
    let list = IntervalList::new("1,2".to_string(), Some("3,8".to_string())).unwrap();
    let colours: Vec<Colour> = list.intervals.iter().map(|i| i.colour).collect();
    assert_eq!(colours, vec![Colour::Red, Colour::Green]);
    assert_eq!(list.warning, Some(ConfigError::Mismatch));
}

#[test]
fn generated_colours_never_black_and_cycle_past_255() {
    let generated = IntervalList::generate_colours(300);
    assert_eq!(generated.len(), 300);
    for (k, code) in generated.iter().enumerate() {
        assert_eq!(*code as usize, k % 7 + 1);
    }
    assert_eq!(generated[256], 5);
}

#[test]
fn empty_and_trailing_comma_durations_fail() {
    assert_eq!(IntervalList::new("".to_string(), None).unwrap_err(), ConfigError::ParseFailure);
    assert_eq!(IntervalList::new("30,".to_string(), None).unwrap_err(), ConfigError::ParseFailure);
}

#[test]
fn malformed_numbers_fail() {
    for bad in ["abc", "1,x", "-1", " 5", "5 ", "4294967296", "+", "1.5"] {
        assert_eq!(
            IntervalList::new(bad.to_string(), None).unwrap_err(),
            ConfigError::ParseFailure,
            "{bad}"
        );
    }
    assert_eq!(
        IntervalList::new("30".to_string(), Some("-1".to_string())).unwrap_err(),
        ConfigError::ParseFailure
    );
}

#[test]
fn colour_codes_of_any_size_fall_back_with_warning() {
    for codes in ["256", "4,99999999999999999999999"] {
        let list = IntervalList::new("30,40".to_string(), Some(codes.to_string())).unwrap();
        let colours: Vec<Colour> = list.intervals.iter().map(|i| i.colour).collect();
        assert_eq!(colours, vec![Colour::Red, Colour::Green], "{codes}");
        assert_eq!(list.warning, Some(ConfigError::Mismatch));
    }
    let list = IntervalList::new("30".to_string(), Some("256".to_string())).unwrap();
    assert_eq!(list.intervals.len(), 1);
    assert_eq!(list.intervals[0].colour, Colour::Red);
    assert_eq!(list.warning, Some(ConfigError::Mismatch));
}

#[test]
fn integer_forms_accepted() {
    let list = IntervalList::new("+7,007,4294967295,0".to_string(), Some("+1,02,3,255".to_string()))
        .unwrap();
    let secs: Vec<u32> = list.intervals.iter().map(|i| i.duration_secs).collect();
    assert_eq!(secs, vec![7, 7, 4294967295, 0]);
    // 255 is a valid byte but no colour code: the colours are generated
    assert_eq!(list.warning, Some(ConfigError::Mismatch));
}

#[test]
fn interval_new_maps_codes() {
    assert_eq!(Interval::new(3, 0).colour, Colour::Black);
    assert_eq!(Interval::new(3, 5).colour, Colour::Magenta);
    assert_eq!(Interval::new(3, 6).colour, Colour::Cyan);
    assert_eq!(Interval::new(3, 200).colour, Colour::White);
    assert_eq!(Interval::new(3, 2).duration_secs, 3);
}
