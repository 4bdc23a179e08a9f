use timecalc::{
    calculate_duration, calculate_duration_at, calculate_time_period_additions,
    calculate_time_period_from_tp_pair, calculate_time_period_from_tp_pair_at, current_time,
    extract_time_period_from_string, extract_tp_from_string, extract_tp_from_string_at,
    total_line, unexpected_units, RangeError, TimePeriod, TimePoint,
};

fn period(hours: u128, minutes: u128, seconds: u128) -> TimePeriod {
    TimePeriod { hours, minutes, seconds }
}

fn point(hours: u32, minutes: u32, seconds: u32) -> TimePoint {
    TimePoint { hours, minutes, seconds }
}

fn chars(s: &str) -> Vec<char> {
    s.chars().collect()
}

const NOON: TimePoint = TimePoint { hours: 12, minutes: 30, seconds: 45 };

#[test]
fn time_point_with_hours_and_minutes() {
    assert_eq!(extract_tp_from_string("14:50"), point(14, 50, 0));
    assert_eq!(extract_tp_from_string("07:32"), point(7, 32, 0));
}

#[test]
fn time_point_with_seconds() {
    assert_eq!(extract_tp_from_string("08:25:10"), point(8, 25, 10));
}

#[test]
fn time_point_is_not_range_checked() {
    assert_eq!(extract_tp_from_string("99:75:61"), point(99, 75, 61));
    assert_eq!(extract_tp_from_string("4294967295:0"), point(4294967295, 0, 0));
}

#[test]
fn time_point_number_too_large_is_null() {
    assert!(extract_tp_from_string("4294967296:00").is_null());
}

#[test]
fn time_point_accepts_a_plus_sign_and_leading_zeros() {
    assert_eq!(extract_tp_from_string_at("+7:0030", &NOON), point(7, 30, 0));
}

#[test]
fn time_point_unparseable_part_is_null() {
    assert!(extract_tp_from_string("08:xx").is_null());
    assert!(extract_tp_from_string("08:").is_null());
    assert!(extract_tp_from_string(":30").is_null());
    assert!(extract_tp_from_string("08:-5").is_null());
    assert!(extract_tp_from_string("08: 5").is_null());
    assert!(extract_tp_from_string("1:2:x").is_null());
}

#[test]
fn time_point_with_three_colons_is_null() {
    assert!(extract_tp_from_string("1:2:3:4").is_null());
}

#[test]
fn time_point_word_without_colon_is_null() {
    assert!(extract_tp_from_string("").is_null());
    assert!(extract_tp_from_string("1450").is_null());
    assert!(extract_tp_from_string("Now").is_null());
    assert!(extract_tp_from_string("now ").is_null());
    assert!(extract_tp_from_string_at("noon", &NOON).is_null());
}

#[test]
fn time_point_now_takes_hour_and_minute_of_the_clock() {
    assert_eq!(extract_tp_from_string_at("now", &NOON), point(12, 30, 0));
    assert!(extract_tp_from_string_at("now", &point(0, 0, 59)).is_null());
}

#[test]
fn time_point_now_reads_the_wall_clock() {
    let tp = extract_tp_from_string("now");
    assert!(tp.hours < 24);
    assert!(tp.minutes < 60);
    assert_eq!(tp.seconds, 0);
}

#[test]
fn current_time_is_a_clock_reading() {
    let now = current_time();
    assert!(now.hours < 24);
    assert!(now.minutes < 60);
    assert_eq!(now.seconds, 0);
}

#[test]
fn range_round_trip() {
    assert_eq!(calculate_time_period_from_tp_pair("08:25-14:50"), Ok(period(6, 25, 0)));
    assert_eq!(
        calculate_time_period_from_tp_pair("08:25-14:50"),
        Ok(TimePeriod::new().add_hours(6).add_minutes(25))
    );
}

#[test]
fn range_with_seconds() {
    assert_eq!(calculate_time_period_from_tp_pair("08:25:10-08:26:05"), Ok(period(0, 0, 55)));
}

#[test]
fn range_without_hyphen_spans_no_time() {
    assert_eq!(calculate_time_period_from_tp_pair("08:25"), Ok(period(0, 0, 0)));
    assert_eq!(calculate_time_period_from_tp_pair(""), Ok(period(0, 0, 0)));
}

#[test]
fn range_of_equal_ends_spans_no_time() {
    assert_eq!(calculate_time_period_from_tp_pair("08:25-08:25"), Ok(period(0, 0, 0)));
}

#[test]
fn range_looks_at_its_first_two_pieces_only() {
    assert_eq!(calculate_time_period_from_tp_pair("08:00-09:00-junk"), Ok(period(1, 0, 0)));
}

#[test]
fn range_unrecognised_start() {
    assert_eq!(
        calculate_time_period_from_tp_pair("08:xx-09:00"),
        Err(RangeError::UnrecognisedTime(chars("08:xx")))
    );
    assert_eq!(
        calculate_time_period_from_tp_pair("-09:00"),
        Err(RangeError::UnrecognisedTime(chars("")))
    );
}

#[test]
fn range_unrecognised_end() {
    assert_eq!(
        calculate_time_period_from_tp_pair("08:00-9"),
        Err(RangeError::UnrecognisedTime(chars("9")))
    );
}

#[test]
fn range_start_is_looked_at_first() {
    assert_eq!(
        calculate_time_period_from_tp_pair("a-b"),
        Err(RangeError::UnrecognisedTime(chars("a")))
    );
}

#[test]
fn range_from_midnight_is_not_recognised() {
    assert_eq!(
        calculate_time_period_from_tp_pair("00:00-08:00"),
        Err(RangeError::UnrecognisedTime(chars("00:00")))
    );
}

#[test]
fn range_end_before_start() {
    assert_eq!(calculate_time_period_from_tp_pair("22:00-02:00"), Err(RangeError::EndBeforeStart));
    assert_eq!(
        calculate_time_period_from_tp_pair("08:00:01-08:00"),
        Err(RangeError::EndBeforeStart)
    );
}

#[test]
fn range_up_to_now() {
    assert_eq!(calculate_time_period_from_tp_pair_at("08:25-now", &NOON), Ok(period(4, 5, 0)));
    assert_eq!(calculate_time_period_from_tp_pair_at("now-14:00", &NOON), Ok(period(1, 30, 0)));
    assert_eq!(calculate_time_period_from_tp_pair_at("now-now", &NOON), Ok(period(0, 0, 0)));
}

#[test]
fn range_now_reads_the_wall_clock() {
    match calculate_time_period_from_tp_pair("now-now") {
        Ok(span) => assert_eq!(span, period(0, 0, 0)),
        Err(error) => assert_eq!(error, RangeError::UnrecognisedTime(chars("now"))),
    }
}

#[test]
fn range_of_the_widest_span() {
    assert_eq!(
        calculate_time_period_from_tp_pair("0:0:1-4294967295:4294967295:4294967295"),
        Ok(period(4367743129, 43, 14))
    );
}

#[test]
fn duration_token_examples() {
    assert_eq!(extract_time_period_from_string("3h"), Some(period(3, 0, 0)));
    assert_eq!(extract_time_period_from_string("3h45m"), Some(period(3, 45, 0)));
    assert_eq!(extract_time_period_from_string("45m"), Some(period(0, 45, 0)));
}

#[test]
fn duration_token_without_unit_is_none() {
    assert_eq!(extract_time_period_from_string(""), None);
    assert_eq!(extract_time_period_from_string("345"), None);
    assert_eq!(extract_time_period_from_string("3s"), None);
    assert_eq!(extract_time_period_from_string("3H"), None);
}

#[test]
fn duration_token_worth_zero_is_not_none() {
    assert_eq!(extract_time_period_from_string("h"), Some(period(0, 0, 0)));
    assert_eq!(extract_time_period_from_string("m3"), Some(period(0, 0, 0)));
}

#[test]
fn duration_token_segments_add_up() {
    assert_eq!(extract_time_period_from_string("1h2h"), Some(period(3, 0, 0)));
    assert_eq!(extract_time_period_from_string("10m1h20m"), Some(period(1, 30, 0)));
}

#[test]
fn duration_token_is_normalised() {
    assert_eq!(extract_time_period_from_string("90m"), Some(period(1, 30, 0)));
}

#[test]
fn duration_token_other_letter_adds_nothing() {
    assert_eq!(extract_time_period_from_string("3x5m"), Some(period(0, 5, 0)));
    assert_eq!(extract_time_period_from_string("3hx"), Some(period(3, 0, 0)));
}

#[test]
fn duration_token_digits_gather_over_other_characters() {
    assert_eq!(extract_time_period_from_string("1 2h"), Some(period(12, 0, 0)));
    assert_eq!(extract_time_period_from_string("1:30m"), Some(period(2, 10, 0)));
}

#[test]
fn duration_token_number_too_large_adds_nothing() {
    assert_eq!(extract_time_period_from_string("4294967295h"), Some(period(4294967295, 0, 0)));
    assert_eq!(extract_time_period_from_string("4294967296h5m"), Some(period(0, 5, 0)));
    assert_eq!(
        extract_time_period_from_string("99999999999999999999999999h1h"),
        Some(period(1, 0, 0))
    );
}

#[test]
fn additions_example() {
    assert_eq!(calculate_time_period_additions("3h14m+6h45m"), period(9, 59, 0));
}

#[test]
fn additions_carry_minutes() {
    assert_eq!(calculate_time_period_additions("3h45m+45m"), period(4, 30, 0));
}

#[test]
fn additions_skip_tokens_that_are_no_durations() {
    assert_eq!(calculate_time_period_additions("3h+junk+15"), period(3, 0, 0));
    assert_eq!(calculate_time_period_additions("+"), period(0, 0, 0));
    assert_eq!(calculate_time_period_additions(""), period(0, 0, 0));
    assert_eq!(calculate_time_period_additions("++2m++"), period(0, 2, 0));
}

#[test]
fn additions_order_does_not_matter() {
    assert_eq!(
        calculate_time_period_additions("50m+1h20m+3h"),
        calculate_time_period_additions("3h+50m+1h20m")
    );
}

#[test]
fn additions_beyond_32_bits() {
    assert_eq!(
        calculate_time_period_additions("4294967295h+4294967295h+4294967295m"),
        period(8661517378, 15, 0)
    );
}

#[test]
fn dispatcher_additive_expression() {
    assert_eq!(calculate_duration("3h14m+6h45m"), Ok(period(9, 59, 0)));
}

#[test]
fn dispatcher_plus_sign_wins_over_commas_and_hyphens() {
    assert_eq!(calculate_duration("1h+2h,08:00-09:00"), Ok(period(3, 0, 0)));
    assert_eq!(calculate_duration("08:00-09:00,1h+2h"), Ok(period(80009003, 0, 0)));
}

#[test]
fn dispatcher_single_range() {
    assert_eq!(calculate_duration("08:25-14:50"), Ok(period(6, 25, 0)));
}

#[test]
fn dispatcher_single_token_without_hyphen() {
    assert_eq!(calculate_duration("3h"), Ok(period(0, 0, 0)));
    assert_eq!(calculate_duration(""), Ok(period(0, 0, 0)));
}

#[test]
fn dispatcher_list_of_ranges() {
    assert_eq!(calculate_duration("08:00-09:00,10:00-10:30"), Ok(period(1, 30, 0)));
    assert_eq!(
        calculate_duration("08:00-09:00,10:00-10:30,23:59:59-24:00"),
        Ok(period(1, 30, 1))
    );
}

#[test]
fn dispatcher_unparseable_token_aborts() {
    assert_eq!(
        calculate_duration("08:xx-09:00"),
        Err(RangeError::UnrecognisedTime(chars("08:xx")))
    );
    assert_eq!(
        calculate_duration("08:00-09:00,10:00-1x:30,nonsense"),
        Err(RangeError::UnrecognisedTime(chars("1x:30")))
    );
}

#[test]
fn dispatcher_list_stops_at_the_first_refusal() {
    assert_eq!(
        calculate_duration("09:00-08:00,a-b"),
        Err(RangeError::EndBeforeStart)
    );
    assert_eq!(
        calculate_duration("a-b,09:00-08:00"),
        Err(RangeError::UnrecognisedTime(chars("a")))
    );
}

#[test]
fn dispatcher_empty_range_in_a_list_aborts() {
    assert_eq!(calculate_duration("08:00-09:00,"), Err(RangeError::EmptyRange));
    assert_eq!(calculate_duration(",08:00-09:00"), Err(RangeError::EmptyRange));
    assert_eq!(calculate_duration("08:00-09:00,10:00"), Err(RangeError::EmptyRange));
    assert_eq!(calculate_duration("08:00-08:00,09:00-10:00"), Err(RangeError::EmptyRange));
}

#[test]
fn dispatcher_with_a_given_clock() {
    assert_eq!(calculate_duration_at("08:25-now", &NOON), Ok(period(4, 5, 0)));
    assert_eq!(calculate_duration_at("08:25-now,now-13:00", &NOON), Ok(period(4, 35, 0)));
    assert_eq!(calculate_duration_at("08:25-14:50", &NOON), Ok(period(6, 25, 0)));
    assert_eq!(calculate_duration_at("1h+now", &NOON), Ok(period(1, 0, 0)));
}

#[test]
fn dispatcher_reads_the_wall_clock_for_now() {
    let before = current_time();
    let outcome = calculate_duration("0:0:1-now");
    let after = current_time();
    let low = before.get_total_time_point_in_seconds();
    let high = after.get_total_time_point_in_seconds();
    match outcome {
        Ok(span) => {
            let seconds = (span.hours * 3600 + span.minutes * 60 + span.seconds + 1) as u64;
            assert!(low > high || (low <= seconds && seconds <= high));
        }
        Err(error) => {
            assert_eq!(error, RangeError::UnrecognisedTime(chars("now")));
            assert!(before.is_null() || after.is_null());
        }
    }
}

#[test]
fn unexpected_units_are_listed_in_order() {
    assert_eq!(unexpected_units("3x5m+2h4q+7z"), chars("xq"));
    assert_eq!(unexpected_units("3h14m+6h45m"), chars(""));
}

#[test]
fn unexpected_units_need_a_number_in_front() {
    assert_eq!(unexpected_units("xh+1hz"), chars(""));
    assert_eq!(unexpected_units("4294967296s1m+1"), chars(""));
}

#[test]
fn unexpected_units_only_in_additive_expressions() {
    assert_eq!(unexpected_units("3x5m"), chars(""));
    assert_eq!(unexpected_units("08:00x-09:00"), chars(""));
}

#[test]
fn text_of_one_minute() {
    assert_eq!(period(0, 1, 0).to_string(), "1 minute");
}

#[test]
fn text_of_two_hours() {
    assert_eq!(period(2, 0, 0).to_string(), "2 hours, 0 minutes");
}

#[test]
fn text_of_one_of_each() {
    assert_eq!(period(1, 1, 1).to_string(), "1 hour, 1 minute, 1 second");
}

#[test]
fn text_without_hours() {
    assert_eq!(period(0, 25, 30).to_string(), "25 minutes, 30 seconds");
    assert_eq!(period(0, 0, 1).to_string(), "0 minutes, 1 second");
}

#[test]
fn text_of_nothing() {
    assert_eq!(TimePeriod::new().to_string(), "0 minutes");
}

#[test]
fn text_of_large_numbers() {
    assert_eq!(
        period(u128::MAX, 10, 59).to_string(),
        "340282366920938463463374607431768211455 hours, 10 minutes, 59 seconds"
    );
    assert_eq!(period(1000, 0, 0).to_string(), "1000 hours, 0 minutes");
}

#[test]
fn total_line_examples() {
    assert_eq!(total_line(&period(6, 25, 0)), "Total time: 6 hours, 25 minutes.");
    assert_eq!(total_line(&period(9, 59, 0)), "Total time: 9 hours, 59 minutes.");
    assert_eq!(total_line(&period(0, 1, 0)), "Total time: 1 minute.");
    assert_eq!(total_line(&period(1, 0, 2)), "Total time: 1 hour, 0 minutes, 2 seconds.");
}
