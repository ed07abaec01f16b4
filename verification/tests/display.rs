use rstube::format::{format_age, format_duration};
use rstube::timespec::parse_time_spec;

#[test]
fn durations() {
    assert_eq!(format_duration(106), "1:46");
    assert_eq!(format_duration(212), "3:32");
    assert_eq!(format_duration(0), "0:00");
    assert_eq!(format_duration(59), "0:59");
    assert_eq!(format_duration(600), "10:00");
    assert_eq!(format_duration(3723), "1:02:03");
    assert_eq!(format_duration(36000), "10:00:00");
}

#[test]
fn durations_parse_back() {
    for n in [0u64, 7, 106, 3599, 3600, 3723, 86399, 1_000_000] {
        assert_eq!(parse_time_spec(&format_duration(n)), Ok(n));
    }
}

#[test]
fn ages() {
    let now = 1_700_000_000;
    assert_eq!(format_age(0, now), "-");
    assert_eq!(format_age(now + 5, now), "-");
    assert_eq!(format_age(now - 42, now), "42s");
    assert_eq!(format_age(now - 600, now), "10m");
    assert_eq!(format_age(now - 7200, now), "2h");
    assert_eq!(format_age(now - 3 * 86_400, now), "3d");
    assert_eq!(format_age(now - 14 * 86_400, now), "2w");
    assert_eq!(format_age(now - 65 * 86_400, now), "2mo");
}
