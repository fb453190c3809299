use shooter_core::timer::ConfigError;
use shooter_core::timer::SpawnTimer;
use shooter_core::timer::Timer;

#[test]
fn zero_period_is_rejected() {
    assert_eq!(Timer::new(0), Err(ConfigError::ZeroPeriod));
}

#[test]
fn positive_period_is_accepted() {
    assert_eq!(Timer::new(2000), Ok(Timer { period_ms: 2000, elapsed_ms: 0 }));
}

#[test]
fn timer_fires_exactly_on_the_period_boundary() {
    let mut t = Timer::new(2000).unwrap();
    assert!(!t.tick(700));
    assert!(!t.tick(700));
    // 700 + 700 + 600 = 2000: fires at that instant, and wraps to zero
    assert!(t.tick(600));
    assert_eq!(t.elapsed_ms, 0);
}

#[test]
fn timer_fires_at_most_once_per_tick() {
    let mut t = Timer::new(500).unwrap();
    // one long tick spanning three periods still fires only once,
    // carrying the excess over modulo the period
    assert!(t.tick(1700));
    assert_eq!(t.elapsed_ms, 200);
    assert!(!t.tick(100));
    assert_eq!(t.elapsed_ms, 300);
}

#[test]
fn stock_timers_use_the_stock_periods() {
    let t = SpawnTimer::default();
    assert_eq!(t.enemy, Timer { period_ms: 2000, elapsed_ms: 0 });
    assert_eq!(t.enemy_laser, Timer { period_ms: 500, elapsed_ms: 0 });
}
