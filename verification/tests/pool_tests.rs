use vecindex::pool::GetOutcome;
use vecindex::{ConnectionPool, PoolConfig};

fn config(max_size: usize, min_idle: usize, timeout: u64) -> PoolConfig {
    PoolConfig { max_size, min_idle, timeout, max_lifetime: 3600, idle_timeout: 600 }
}

#[test]
fn test_pool_config_validation() {
    let config = PoolConfig {
        max_size: 10,
        min_idle: 5,
        timeout: 30,
        max_lifetime: 3600,
        idle_timeout: 600,
    };

    assert!(config.validate().is_ok());
}

#[test]
fn test_invalid_pool_config() {
    let config = PoolConfig {
        max_size: 0,
        min_idle: 5,
        timeout: 30,
        max_lifetime: 3600,
        idle_timeout: 600,
    };

    assert!(config.validate().is_err());
}

#[test]
fn test_pool_config_each_violation_is_reported() {
    // every single violated invariant fails validation deterministically
    assert!(config(0, 0, 30).validate().is_err());
    assert!(config(4, 5, 30).validate().is_err());
    assert!(config(4, 2, 0).validate().is_err());
    assert!(config(4, 2, 30).validate().is_ok());
}

#[test]
fn test_pool_creation_follows_validation() {
    assert!(ConnectionPool::new(config(2, 1, 30)).is_ok());
    assert!(ConnectionPool::new(config(0, 0, 30)).is_err());
    assert!(ConnectionPool::new(config(2, 3, 30)).is_err());
    assert!(ConnectionPool::new(config(2, 1, 0)).is_err());
}

#[test]
fn test_admission_bound() {
    // a pool of two slots admits exactly two callers; the third must wait,
    // and one release lets exactly one waiter in
    let mut pool = ConnectionPool::new(config(2, 0, 30)).unwrap();
    assert_eq!(pool.size(), 2);

    assert!(matches!(pool.get(), GetOutcome::MustOpen(_)));
    assert!(matches!(pool.get(), GetOutcome::MustOpen(_)));
    assert_eq!(pool.size(), 0);
    assert!(matches!(pool.get(), GetOutcome::Exhausted));

    pool.release();
    assert_eq!(pool.size(), 1);
    assert!(matches!(pool.get(), GetOutcome::MustOpen(_)));
    assert!(matches!(pool.get(), GetOutcome::Exhausted));
}

#[test]
fn test_pool_reuses_returned_connections() {
    let mut pool = ConnectionPool::new(config(2, 0, 30)).unwrap();
    let conn = match pool.get() {
        GetOutcome::MustOpen(c) => c,
        _ => panic!("a fresh pool must hand out a slot"),
    };
    pool.put(conn);
    pool.release();
    // the most recently returned connection comes back first
    match pool.get() {
        GetOutcome::Reused(c) => assert_eq!(c.id, conn.id),
        _ => panic!("an idle connection must be reused"),
    }
}

#[test]
fn test_failed_open_returns_the_slot() {
    let mut pool = ConnectionPool::new(config(1, 0, 30)).unwrap();
    assert!(matches!(pool.get(), GetOutcome::MustOpen(_)));
    assert_eq!(pool.size(), 0);
    pool.fail_open();
    assert_eq!(pool.size(), 1);
}

#[test]
fn test_close_drains_idle_connections() {
    let mut pool = ConnectionPool::new(config(2, 0, 30)).unwrap();
    let conn = match pool.get() {
        GetOutcome::MustOpen(c) => c,
        _ => panic!("a fresh pool must hand out a slot"),
    };
    pool.put(conn);
    pool.release();
    pool.close();
    // after a close the idle set is empty: the next get must open anew
    assert!(matches!(pool.get(), GetOutcome::MustOpen(_)));
}

#[test]
fn test_size_reports_slots_not_idle_connections() {
    let mut pool = ConnectionPool::new(config(3, 0, 30)).unwrap();
    let conn = match pool.get() {
        GetOutcome::MustOpen(c) => c,
        _ => panic!("a fresh pool must hand out a slot"),
    };
    // the connection is back in the idle set, but its slot is still held
    pool.put(conn);
    assert_eq!(pool.size(), 2);
    pool.release();
    assert_eq!(pool.size(), 3);
}
