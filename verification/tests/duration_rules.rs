use gedcomx_date::duration::{duration, duration_time};
use gedcomx_date::Duration;

#[test]
fn test_duration_time() {
    assert_eq!(Ok(("", (10, 10, 10))), duration_time("T10H10M10S"));

    assert_eq!(Ok(("", (10, 10, 0))), duration_time("T10H10M0S"));

    assert_eq!(Ok(("", (10, 0, 0))), duration_time("T10H0S"));

    assert_eq!(Ok(("", (0, 0, 200))), duration_time("T200S"));

    assert!(duration_time("10H10M10S").is_err());
    assert!(duration_time("10H10S10M").is_err());
}

#[test]
fn duration_test_duration() {
    assert_eq!(
        Ok((
            "",
            Duration {
                years: 10,
                months: 20,
                days: 30,
                hours: 10,
                minutes: 20,
                seconds: 30,
            }
        )),
        duration("P10Y20M30DT10H20M30S")
    );

    assert_eq!(
        Ok((
            "",
            Duration {
                years: 10,
                months: 0,
                days: 0,
                hours: 10,
                minutes: 0,
                seconds: 0,
            }
        )),
        duration("P10YT10H0S")
    );

    assert_eq!(
        Ok((
            "",
            Duration {
                years: 0,
                months: 0,
                days: 0,
                hours: 0,
                minutes: 1000,
                seconds: 0,
            }
        )),
        duration("PT1000M0S")
    );

    assert_eq!(
        Ok((
            "",
            Duration {
                years: 10,
                months: 0,
                days: 0,
                hours: 0,
                minutes: 0,
                seconds: 0,
            }
        )),
        duration("P10YT0S")
    );

    assert_eq!(
        Ok((
            "",
            Duration {
                years: 0,
                months: 10,
                days: 0,
                hours: 0,
                minutes: 0,
                seconds: 0,
            }
        )),
        duration("P10MT0S")
    );

    assert_eq!(
        Ok((
            "",
            Duration {
                years: 0,
                months: 0,
                days: 0,
                hours: 0,
                minutes: 10,
                seconds: 0,
            }
        )),
        duration("PT10M0S")
    );

    assert!(duration("YT1000M").is_err());
}
