use rstube::timespec::{parse_time_spec, try_parse_time_spec, TimeSpecError};

#[test]
fn plain_seconds_with_and_without_suffix() {
    assert_eq!(parse_time_spec("178"), Ok(178));
    assert_eq!(parse_time_spec("178s"), Ok(178));
    assert_eq!(parse_time_spec("  178  "), Ok(178));
    assert_eq!(parse_time_spec("0"), Ok(0));
}

#[test]
fn compound_forms() {
    assert_eq!(parse_time_spec("2m58s"), Ok(178));
    assert_eq!(parse_time_spec("1h2m3s"), Ok(3723));
    assert_eq!(parse_time_spec("90m"), Ok(5400));
    assert_eq!(parse_time_spec("1H"), Ok(3600));
    assert_eq!(parse_time_spec("1h30"), Ok(3630));
    assert_eq!(parse_time_spec("2M5S"), Ok(125));
}

#[test]
fn compound_units_in_any_order() {
    assert_eq!(parse_time_spec("58s2m"), Ok(178));
    assert_eq!(parse_time_spec("3s1h2m"), Ok(3723));
    assert_eq!(parse_time_spec("2m1h"), Ok(3720));
    assert_eq!(parse_time_spec("5s5m"), Ok(305));
    assert_eq!(parse_time_spec("2m1h30"), Ok(3750));
}

#[test]
fn colon_forms() {
    assert_eq!(parse_time_spec("2:58"), Ok(178));
    assert_eq!(parse_time_spec("1:02:03"), Ok(3723));
    assert_eq!(parse_time_spec("+5:00"), Ok(300));
    assert_eq!(parse_time_spec("0:0:7"), Ok(7));
}

#[test]
fn refused_time_specs() {
    assert_eq!(parse_time_spec(""), Err(TimeSpecError::Empty));
    assert_eq!(parse_time_spec("   "), Err(TimeSpecError::Empty));
    assert_eq!(parse_time_spec("1:2:3:4"), Err(TimeSpecError::TooManyColons));
    assert_eq!(parse_time_spec("a:b"), Err(TimeSpecError::InvalidColonForm));
    assert_eq!(parse_time_spec("1::2"), Err(TimeSpecError::InvalidColonForm));
    assert_eq!(parse_time_spec("5h5h"), Err(TimeSpecError::InvalidCompound));
    assert_eq!(parse_time_spec("5m1s5m"), Err(TimeSpecError::InvalidCompound));
    assert_eq!(parse_time_spec("1hm"), Err(TimeSpecError::InvalidCompound));
    assert_eq!(parse_time_spec("m"), Err(TimeSpecError::InvalidCompound));
    assert_eq!(parse_time_spec("1x"), Err(TimeSpecError::InvalidChar('x')));
    assert_eq!(parse_time_spec("5s5"), Err(TimeSpecError::TrailingDigitsAfterSeconds));
    assert_eq!(parse_time_spec("s"), Err(TimeSpecError::InvalidNumber));
    assert_eq!(parse_time_spec("99999999999999999999"), Err(TimeSpecError::InvalidNumber));
    assert_eq!(parse_time_spec("99999999999999999999s"), Err(TimeSpecError::InvalidNumber));
    assert_eq!(parse_time_spec("99999999999999999999h"), Err(TimeSpecError::BadHour));
    assert_eq!(parse_time_spec("99999999999999999999m"), Err(TimeSpecError::BadMinute));
    assert_eq!(parse_time_spec("1h99999999999999999999s"), Err(TimeSpecError::BadSecond));
    assert_eq!(parse_time_spec("1h99999999999999999999"), Err(TimeSpecError::BadTrailingSeconds));
}

#[test]
fn overflow_is_reported_apart() {
    assert_eq!(try_parse_time_spec("5124095576030432h"), None);
    assert_eq!(try_parse_time_spec("18446744073709551615:1"), None);
    assert_eq!(try_parse_time_spec("18446744073709551615"), Some(Ok(u64::MAX)));
    assert_eq!(try_parse_time_spec("2:58"), Some(Ok(178)));
}
