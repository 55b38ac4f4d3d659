use chrono::DateTime;
use technobot::ffxiv::{next_crafting_reset, next_daily_reset, next_weekly_reset, until_string};

fn ts(s: &str) -> u64 {
    DateTime::parse_from_rfc3339(s).unwrap().timestamp() as u64
}

#[test]
fn next_daily_reset_when_before_reset_time() {
    let now = ts("2017-09-24T04:00:00-00:00");
    let expected_reset = ts("2017-09-24T15:00:00-00:00");
    let daily_reset = next_daily_reset(now);

    assert_eq!(
        daily_reset, expected_reset,
        "Expected next daily reset from {:?} to be at {:?}. Got: {:?}",
        now, expected_reset, daily_reset
    );
}

#[test]
fn next_daily_reset_when_after_reset_time() {
    let now = ts("2017-09-30T15:00:00-00:00");
    let expected_reset = ts("2017-10-01T15:00:00-00:00");
    let daily_reset = next_daily_reset(now);

    assert_eq!(
        daily_reset, expected_reset,
        "Expected next daily reset from {:?} to be at {:?}. Got: {:?}",
        now, expected_reset, daily_reset
    );
}

#[test]
fn next_weekly_reset_before_reset_time_on_tuesday() {
    let now = ts("2017-09-19T06:00:00Z");
    let expected_reset = ts("2017-09-19T08:00:00Z");
    let weekly_reset = next_weekly_reset(now);

    assert_eq!(
        weekly_reset, expected_reset,
        "Expected next weekly reset from {:?} to be at {:?}. Got: {:?}",
        now, expected_reset, weekly_reset
    );
}

#[test]
fn next_weekly_reset_after_reset_time_on_tuesday() {
    let now = ts("2017-09-19T08:00:00Z");
    let expected_reset = ts("2017-09-26T08:00:00Z");
    let weekly_reset = next_weekly_reset(now);

    assert_eq!(
        weekly_reset, expected_reset,
        "Expected next weekly reset from {:?} to be at {:?}. Got: {:?}",
        now, expected_reset, weekly_reset
    );
}

#[test]
fn next_weekly_reset_on_monday() {
    let now = ts("2017-09-18T06:00:00Z");
    let expected_reset = ts("2017-09-19T08:00:00Z");
    let weekly_reset = next_weekly_reset(now);

    assert_eq!(
        weekly_reset, expected_reset,
        "Expected next weekly reset from {:?} to be at {:?}. Got: {:?}",
        now, expected_reset, weekly_reset
    );
}

#[test]
fn next_weekly_reset_on_wednesday() {
    let now = ts("2017-09-20T06:00:00Z");
    let expected_reset = ts("2017-09-26T08:00:00Z");
    let weekly_reset = next_weekly_reset(now);

    assert_eq!(
        weekly_reset, expected_reset,
        "Expected next weekly reset from {:?} to be at {:?}. Got: {:?}",
        now, expected_reset, weekly_reset
    );
}

#[test]
fn next_crafting_reset_before_reset_time_on_thursday() {
    let now = ts("2017-09-21T06:00:00Z");
    let expected_reset = ts("2017-09-21T08:00:00Z");
    let crafting_reset = next_crafting_reset(now);

    assert_eq!(
        crafting_reset, expected_reset,
        "Expected next crafting reset from {:?} to be at {:?}. Got: {:?}",
        now, expected_reset, crafting_reset
    );
}

#[test]
fn next_crafting_reset_after_reset_time_on_thursday() {
    let now = ts("2017-09-28T08:00:00Z");
    let expected_reset = ts("2017-10-05T08:00:00Z");
    let crafting_reset = next_crafting_reset(now);

    assert_eq!(
        crafting_reset, expected_reset,
        "Expected next crafting reset from {:?} to be at {:?}. Got: {:?}",
        now, expected_reset, crafting_reset
    );
}

#[test]
fn next_crafting_reset_on_wednesday() {
    let now = ts("2017-09-20T06:00:00Z");
    let expected_reset = ts("2017-09-21T08:00:00Z");
    let crafting_reset = next_crafting_reset(now);

    assert_eq!(
        crafting_reset, expected_reset,
        "Expected next crafting reset from {:?} to be at {:?}. Got: {:?}",
        now, expected_reset, crafting_reset
    );
}

#[test]
fn next_crafting_reset_on_friday() {
    let now = ts("2017-09-22T06:00:00Z");
    let expected_reset = ts("2017-09-28T08:00:00Z");
    let crafting_reset = next_crafting_reset(now);

    assert_eq!(
        crafting_reset, expected_reset,
        "Expected next crafting reset from {:?} to be at {:?}. Got: {:?}",
        now, expected_reset, crafting_reset
    );
}

#[test]
fn until_string_with_one_week() {
    let now = ts("2017-09-24T00:00:00Z");
    let event = ts("2017-10-01T00:00:00Z");
    let expected = "1 week";

    assert_eq!(until_string(event - now), expected);
}

#[test]
fn until_string_with_multiple_weeks() {
    let now = ts("2017-09-24T00:00:00Z");
    let event = ts("2017-10-08T00:00:00Z");
    let expected = "2 weeks";

    assert_eq!(until_string(event - now), expected);
}

#[test]
fn until_string_with_one_day() {
    let now = ts("2017-09-24T00:00:00Z");
    let event = ts("2017-09-25T00:00:00Z");
    let expected = "1 day";

    assert_eq!(until_string(event - now), expected);
}

#[test]
fn until_string_with_multiple_days() {
    let now = ts("2017-09-24T00:00:00Z");
    let event = ts("2017-09-26T00:00:00Z");
    let expected = "2 days";

    assert_eq!(until_string(event - now), expected);
}

#[test]
fn until_string_with_one_hour() {
    let now = ts("2017-09-24T00:00:00Z");
    let event = ts("2017-09-24T01:00:00Z");
    let expected = "1 hour";

    assert_eq!(until_string(event - now), expected);
}

#[test]
fn until_string_with_multiple_hours() {
    let now = ts("2017-09-24T00:00:00Z");
    let event = ts("2017-09-24T02:00:00Z");
    let expected = "2 hours";

    assert_eq!(until_string(event - now), expected);
}

#[test]
fn until_string_with_one_minute() {
    let now = ts("2017-09-24T00:00:00Z");
    let event = ts("2017-09-24T00:01:00Z");
    let expected = "1 minute";

    assert_eq!(until_string(event - now), expected);
}

#[test]
fn until_string_with_multiple_minutes() {
    let now = ts("2017-09-24T00:00:00Z");
    let event = ts("2017-09-24T00:02:00Z");
    let expected = "2 minutes";

    assert_eq!(until_string(event - now), expected);
}

#[test]
fn until_string_with_multiple_components() {
    let now = ts("2017-09-24T00:00:00Z");
    let event = ts("2017-10-09T15:02:00Z");
    let expected = "2 weeks 1 day 15 hours 2 minutes";

    assert_eq!(until_string(event - now), expected);
}

#[test]
fn until_string_with_multiple_components_with_gap() {
    let now = ts("2017-09-24T00:00:00Z");
    let event = ts("2017-10-09T00:02:00Z");
    let expected = "2 weeks 1 day 2 minutes";

    assert_eq!(until_string(event - now), expected);
}

#[test]
fn until_string_with_less_than_a_minute() {
    let now = ts("2017-09-24T00:00:00Z");
    let event = ts("2017-09-24T00:00:30Z");
    let expected = "less than a minute";

    assert_eq!(until_string(event - now), expected);
}
