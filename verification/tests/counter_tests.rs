use rusher::counter::Counter;

#[test]
fn test_counter_new() {
    let counter = Counter::new();
    assert_eq!(counter.get(), 0);
    assert_eq!(counter.max_value(), 24);
    assert!(!counter.is_max());
    assert!(counter.is_zero());
}

#[test]
fn test_counter_with_max() {
    let counter = Counter::with_max(10);
    assert_eq!(counter.get(), 0);
    assert_eq!(counter.max_value(), 10);
}

#[test]
fn test_counter_increment() {
    let mut counter = Counter::with_max(5);

    assert!(counter.increment());
    assert_eq!(counter.get(), 1);

    assert!(counter.increment());
    assert_eq!(counter.get(), 2);

    assert!(counter.increment());
    assert_eq!(counter.get(), 3);

    assert!(counter.increment());
    assert_eq!(counter.get(), 4);

    assert!(counter.increment());
    assert_eq!(counter.get(), 5);

    assert!(!counter.increment());
    assert_eq!(counter.get(), 5);
    assert!(counter.is_max());
}

#[test]
fn test_counter_decrement() {
    let mut counter = Counter::with_max(5);

    counter.increment();
    counter.increment();
    counter.increment();
    assert_eq!(counter.get(), 3);

    assert!(counter.decrement());
    assert_eq!(counter.get(), 2);

    assert!(counter.decrement());
    assert_eq!(counter.get(), 1);

    assert!(counter.decrement());
    assert_eq!(counter.get(), 0);

    assert!(!counter.decrement());
    assert_eq!(counter.get(), 0);
    assert!(counter.is_zero());
}

#[test]
fn test_counter_reset() {
    let mut counter = Counter::with_max(5);

    counter.increment();
    counter.increment();
    assert_eq!(counter.get(), 2);

    counter.reset();
    assert_eq!(counter.get(), 0);
    assert!(counter.is_zero());
}

#[test]
fn test_counter_set_max_value() {
    let mut counter = Counter::with_max(5);
    assert_eq!(counter.max_value(), 5);

    counter.set_max_value(10);
    assert_eq!(counter.max_value(), 10);

    for _ in 0..10 {
        assert!(counter.increment());
    }
    assert_eq!(counter.get(), 10);
    assert!(counter.is_max());
    assert!(!counter.increment());
}

#[test]
fn counter_up_then_down_restores_count() {
    let mut counter = Counter::with_max(3);
    counter.increment();
    let before = counter.get();
    assert!(counter.increment());
    assert!(counter.decrement());
    assert_eq!(counter.get(), before);
}

#[test]
fn counter_lowering_limit_keeps_count() {
    let mut counter = Counter::with_max(5);
    counter.increment();
    counter.increment();
    counter.increment();
    counter.set_max_value(2);
    assert_eq!(counter.get(), 3);
    assert!(counter.is_max());
    assert!(!counter.increment());
    assert_eq!(counter.get(), 3);
}

#[test]
fn successive_increments_lose_no_step() {
    let mut c = Counter::with_max(3);
    assert!(c.increment());
    let mut done = 0;
    for _ in 0..5 {
        if c.increment() {
            done += 1;
        }
    }
    assert_eq!(c.get(), 3);
    assert_eq!(done, 2);
}
