use timecalc::{extract_time_period_from_string, extract_tp_from_string, TimePeriod};

#[test]
fn extract_tp_from_string_01() {
    let tp_result = extract_tp_from_string(&String::from("07:32"));
    assert_eq!(tp_result.hours, 7);
    assert_eq!(tp_result.minutes, 32);
}

#[test]
fn extract_time_period_extraction_from_string_01() {
    assert_eq!(extract_time_period_from_string(""), None);

    assert_eq!(extract_time_period_from_string("3h"), Some(TimePeriod::new().add_hours(3)));

    assert_eq!(
        extract_time_period_from_string("3h5m"),
        Some(TimePeriod::new().add_hours(3).add_minutes(5))
    );
}
