use reactive_ui::counter::{replay, Counter, CounterOp};

#[test]
fn count_is_sum_of_steps_since_last_reset() {
    let mut c = Counter::new();
    assert_eq!(c.count(), 0);
    c.increment();
    c.increment();
    c.decrement();
    assert_eq!(c.count(), 1);
    c.reset();
    assert_eq!(c.count(), 0);
    c.increment();
    c.increment();
    c.increment();
    c.decrement();
    assert_eq!(c.count(), 2);
    assert_eq!(c.doubled(), 4);
}

#[test]
fn doubled_is_twice_the_count() {
    let mut c = Counter::new();
    assert_eq!(c.doubled(), 0);
    c.decrement();
    assert_eq!(c.doubled(), -2);
    c.reset();
    for _ in 0..7 {
        c.increment();
    }
    assert_eq!(c.doubled(), 14);
}

#[test]
fn parity_label_for_negative_and_positive_counts() {
    let mut c = Counter::new();
    assert_eq!(c.parity_label(), "Even");
    assert!(c.is_even());
    c.decrement();
    assert_eq!(c.count(), -1);
    assert_eq!(c.parity_label(), "Odd");
    c.decrement();
    assert_eq!(c.count(), -2);
    assert_eq!(c.parity_label(), "Even");
    c.reset();
    c.increment();
    assert_eq!(c.parity_label(), "Odd");
}

#[test]
fn banner_visible_iff_count_at_least_ten() {
    let mut c = Counter::new();
    for _ in 0..9 {
        c.increment();
    }
    assert!(!c.banner_visible());
    assert!(c.placeholder_visible());
    c.increment();
    assert!(c.banner_visible());
    assert!(!c.placeholder_visible());
    c.increment();
    assert!(c.banner_visible());
    assert!(!c.placeholder_visible());
}

#[test]
fn exactly_one_of_banner_and_placeholder() {
    let mut c = Counter::new();
    for _ in 0..25 {
        assert_ne!(c.banner_visible(), c.placeholder_visible());
        c.increment();
    }
    c.reset();
    for _ in 0..5 {
        assert_ne!(c.banner_visible(), c.placeholder_visible());
        c.decrement();
    }
}

#[test]
fn replay_matches_stepwise_mutation() {
    let ops = vec![
        CounterOp::Increment,
        CounterOp::Increment,
        CounterOp::Decrement,
        CounterOp::Reset,
        CounterOp::Increment,
        CounterOp::Increment,
        CounterOp::Decrement,
    ];
    let c = replay(&ops);
    assert_eq!(c.count(), 1);

    let mut d = Counter::new();
    for op in &ops {
        d.apply(*op);
    }
    assert_eq!(d.count(), c.count());
}

#[test]
fn ten_increments_then_one_decrement() {
    let mut c = Counter::new();
    for _ in 0..10 {
        c.increment();
    }
    assert_eq!(c.count(), 10);
    assert!(c.banner_visible());
    assert_eq!(c.doubled(), 20);
    assert_eq!(c.parity_label(), "Even");
    c.decrement();
    assert_eq!(c.count(), 9);
    assert!(!c.banner_visible());
}
