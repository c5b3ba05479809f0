use code_playground::rate_limit::RateLimiter;

#[test]
fn accepts_up_to_limit_then_refuses() {
    let mut rl = RateLimiter::new(3, 60_000);
    assert_eq!(rl.check_at("1.2.3.4", 100_000), Ok(2));
    assert_eq!(rl.check_at("1.2.3.4", 100_000), Ok(1));
    assert_eq!(rl.check_at("1.2.3.4", 100_000), Ok(0));
    assert_eq!(rl.check_at("1.2.3.4", 100_000), Err(60_000));
    assert_eq!(rl.check_at("5.6.7.8", 100_000), Ok(2));
    assert_eq!(rl.tracked_ips(), 2);
}

#[test]
fn window_slides() {
    let mut rl = RateLimiter::new(2, 1_000);
    assert_eq!(rl.check_at("ip", 10_000), Ok(1));
    assert_eq!(rl.check_at("ip", 10_400), Ok(0));
    assert_eq!(rl.check_at("ip", 10_600), Err(400));
    assert_eq!(rl.check_at("ip", 11_000), Ok(0));
    assert_eq!(rl.check_at("ip", 11_399), Err(1));
}

#[test]
fn cleanup_drops_idle_addresses() {
    let mut rl = RateLimiter::new(5, 1_000);
    rl.check_at("a", 1_000).unwrap();
    rl.check_at("b", 1_800).unwrap();
    rl.cleanup_at(2_500);
    assert_eq!(rl.tracked_ips(), 1);
    rl.cleanup_at(10_000);
    assert_eq!(rl.tracked_ips(), 0);
}

#[test]
fn clock_driven_check() {
    let mut rl = RateLimiter::new(1, 3_600_000);
    assert_eq!(rl.check("ip"), Ok(0));
    assert!(rl.check("ip").is_err());
    rl.cleanup();
    assert_eq!(rl.tracked_ips(), 1);
}

#[test]
fn requests_spread_within_a_window() {
    let mut rl = RateLimiter::new(10, 60_000);
    for k in 0..10u64 {
        assert_eq!(rl.check_at("ip", 1_000 + 5_000 * k), Ok(9 - k as usize));
    }
    assert_eq!(rl.check_at("ip", 59_000), Err(60_000 - 58_000));
    assert_eq!(rl.check_at("other", 59_000), Ok(9));
}

#[test]
fn interleaved_addresses_and_cleanup_keep_each_window() {
    let mut rl = RateLimiter::new(2, 1_000);
    assert_eq!(rl.check_at("a", 0), Ok(1));
    assert_eq!(rl.check_at("b", 100), Ok(1));
    assert_eq!(rl.check_at("a", 200), Ok(0));
    rl.cleanup_at(300);
    assert_eq!(rl.check_at("b", 400), Ok(0));
    assert_eq!(rl.check_at("a", 500), Err(500));
    rl.cleanup_at(1_050);
    assert_eq!(rl.tracked_ips(), 2);
    assert_eq!(rl.check_at("a", 1_100), Ok(0));
}
