use forage::rate_limit::{acquire_count, check_daily_cap, pacing_wait, remaining_today, wait_nanos, RateLimitError};

#[test]
fn daily_cap_refuses_at_the_cap() {
    assert!(check_daily_cap("linkedin", 79, 80).is_ok());
    match check_daily_cap("linkedin", 80, 80) {
        Err(e) => {
            assert_eq!(e.message(), "linkedin daily cap reached (80/80 requests today). Resets at midnight UTC.");
            let RateLimitError::DailyCapExceeded { platform, count, cap } = e;
            assert_eq!(platform, "linkedin");
            assert_eq!(count, 80);
            assert_eq!(cap, 80);
        }
        Ok(()) => panic!("expected a refusal"),
    }
    assert_eq!(remaining_today(80, 30), 50);
    assert_eq!(remaining_today(80, 90), 0);
}

#[test]
fn waits_cover_the_delay() {
    assert_eq!(wait_nanos(0, 8000), 8_000_000_000);
    assert_eq!(wait_nanos(3_000_000_000, 8000), 5_000_000_000);
    assert_eq!(wait_nanos(9_000_000_000, 8000), 0);
    for _ in 0..50 {
        let w = pacing_wait(1_000_000_000, 6000, 12000);
        assert!(w >= 5_000_000_000 && w <= 11_000_000_000);
    }
    assert_eq!(pacing_wait(0, 7, 7), 7_000_000);
}

#[test]
fn acquire_counts_today_and_refuses_at_cap() {
    let day = "2024-05-01";
    assert_eq!(acquire_count(None, day, "x", 3).ok(), Some(1));
    assert_eq!(acquire_count(Some((day.to_string(), 2)), day, "x", 3).ok(), Some(3));
    assert_eq!(acquire_count(Some(("2024-04-30".to_string(), 9)), day, "x", 3).ok(), Some(1));
    match acquire_count(Some((day.to_string(), 3)), day, "x", 3) {
        Err(RateLimitError::DailyCapExceeded { platform, count, cap }) => {
            assert_eq!(platform, "x");
            assert_eq!(count, 3);
            assert_eq!(cap, 3);
        }
        Ok(_) => panic!("expected the cap error"),
    }
    assert!(acquire_count(None, day, "x", 0).is_err());
}
