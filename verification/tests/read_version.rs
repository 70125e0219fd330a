use stalwart::read_version::ReadVersion;

#[test]
fn version_only_moves_forward() {
    let mut v = ReadVersion::new();
    assert_eq!(v.current(), 0);
    v.store_max(10);
    v.store_max(5);
    assert_eq!(v.current(), 10);
    v.raise_floor(7);
    assert_eq!(v.current(), 10);
    v.raise_floor(12);
    assert_eq!(v.current(), 12);
    v.refreshed_at(3, 500);
    assert_eq!(v.current(), 12);
    assert_eq!(v.age_at(800), 300);
    assert_eq!(v.age_at(100), 0);
    v.expire();
    assert_eq!(v.age_at(800), 800);
}

#[test]
fn one_refresh_at_a_time() {
    let mut v = ReadVersion::new();
    assert!(v.try_begin_refresh());
    assert!(!v.try_begin_refresh());
    v.end_refresh();
    assert!(v.try_begin_refresh());
}

#[test]
fn clock_ages() {
    let mut v = ReadVersion::new();
    v.refreshed(20);
    assert_eq!(v.current(), 20);
    let age = v.age();
    assert!(age < 60_000_000_000);
    assert!(v.now() >= age);
}
