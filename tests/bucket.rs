use twilight_bucket::{Bucket, Limit, Span};

const SEC: u128 = 1_000_000_000;

fn tolerance() -> u128 {
    Span::from_millis(100).as_nanos()
}

#[test]
fn limit_count_1() {
    let bucket = Bucket::new(Limit::new(Span::from_secs(2), 1));
    let id = 123;
    let window = bucket.limit().window().as_nanos();

    assert!(bucket.limit_duration(id).is_none());

    bucket.register(id);
    assert!(bucket.limit_duration(id).unwrap().as_nanos() > window - tolerance());
    let after_sleep = bucket.now() + window;
    assert!(bucket.limit_duration_at(id, after_sleep).is_none());
}

#[test]
fn limit_count_5() {
    let bucket = Bucket::new(Limit::new(Span::from_secs(5), 5));
    let id = 123;
    let window = bucket.limit().window().as_nanos();

    for _ in 0_u8..5 {
        assert!(bucket.limit_duration(id).is_none());
        bucket.register(id);
    }

    assert!(bucket.limit_duration(id).unwrap().as_nanos() > window - tolerance());
    let after_sleep = bucket.now() + window;
    assert!(bucket.limit_duration_at(id, after_sleep).is_none());
}

#[test]
fn unregistered_ids_are_not_limited() {
    let bucket = Bucket::new(Limit::new(Span::from_secs(10), 0));
    for id in [1_u64, 2, 123, u64::MAX] {
        assert!(bucket.limit_duration(id).is_none());
        assert!(bucket.limit_duration_at(id, 0).is_none());
        assert!(bucket.limit_duration_at(id, u128::MAX).is_none());
    }
}

#[test]
fn one_use_per_two_seconds_on_a_given_clock() {
    let bucket = Bucket::new(Limit::new(Span::from_secs(2), 1));
    assert!(bucket.limit_duration_at(123, 10 * SEC).is_none());
    bucket.register_at(123, 10 * SEC);
    assert_eq!(bucket.limit_duration_at(123, 10 * SEC), Some(Span::from_secs(2)));
    assert_eq!(bucket.limit_duration_at(123, 11 * SEC), Some(Span::from_secs(1)));
    assert!(bucket.limit_duration_at(123, 12 * SEC).is_none());
}

#[test]
fn five_uses_then_limited_for_the_window() {
    let bucket = Bucket::new(Limit::new(Span::from_secs(5), 5));
    for i in 0_u128..5 {
        assert!(bucket.limit_duration_at(123, i * 1_000).is_none());
        bucket.register_at(123, i * 1_000);
    }
    assert_eq!(bucket.limit_duration_at(123, 4_000), Some(Span::from_secs(5)));
    assert_eq!(
        bucket.limit_duration_at(123, 4_000 + SEC),
        Some(Span::from_secs(4))
    );
    assert!(bucket.limit_duration_at(123, 4_000 + 5 * SEC).is_none());
}

#[test]
fn count_starts_again_after_a_full_window() {
    let bucket = Bucket::new(Limit::new(Span::from_secs(5), 3));
    for i in 0_u128..3 {
        bucket.register_at(7, i);
    }
    assert!(bucket.limit_duration_at(7, 2).is_some());
    assert!(bucket.limit_duration_at(7, 2 + 5 * SEC).is_none());
    let start = 3 + 5 * SEC;
    for i in 0_u128..3 {
        assert!(bucket.limit_duration_at(7, start + i).is_none());
        bucket.register_at(7, start + i);
    }
    assert_eq!(
        bucket.limit_duration_at(7, start + 2),
        Some(Span::from_secs(5))
    );
}

#[test]
fn use_exactly_one_window_later_keeps_counting() {
    let bucket = Bucket::new(Limit::new(Span::from_secs(1), 2));
    bucket.register_at(9, 0);
    assert!(bucket.limit_duration_at(9, SEC).is_none());
    bucket.register_at(9, SEC);
    assert_eq!(bucket.limit_duration_at(9, SEC), Some(Span::from_secs(1)));
}

#[test]
fn wait_shrinks_as_time_passes() {
    let bucket = Bucket::new(Limit::new(Span::from_secs(3), 1));
    bucket.register_at(5, 100);
    let first = bucket.limit_duration_at(5, 200).unwrap().as_nanos();
    let second = bucket.limit_duration_at(5, 300).unwrap().as_nanos();
    assert_eq!(first, 3 * SEC - 100);
    assert_eq!(second, 3 * SEC - 200);
    assert!(second < first);
}

#[test]
fn queries_do_not_change_the_answer() {
    let bucket = Bucket::new(Limit::new(Span::from_secs(3), 2));
    bucket.register_at(5, 0);
    for _ in 0..10 {
        assert!(bucket.limit_duration_at(5, 10).is_none());
    }
    bucket.register_at(5, 10);
    for _ in 0..10 {
        assert_eq!(
            bucket.limit_duration_at(5, 10),
            Some(Span::from_secs(3))
        );
    }
}

#[test]
fn identifiers_are_tracked_apart() {
    let bucket = Bucket::new(Limit::new(Span::from_secs(3), 1));
    bucket.register_at(1, 0);
    assert!(bucket.limit_duration_at(1, 0).is_some());
    assert!(bucket.limit_duration_at(2, 0).is_none());
    bucket.register_at(2, SEC);
    assert_eq!(bucket.limit_duration_at(1, SEC), Some(Span::from_secs(2)));
    assert_eq!(bucket.limit_duration_at(2, SEC), Some(Span::from_secs(3)));
}

#[test]
fn uses_counted_up_to_the_limit() {
    let bucket = Bucket::new(Limit::new(Span::from_secs(60), 10));
    for k in 0_u128..10 {
        assert!(bucket.limit_duration_at(42, k).is_none());
        bucket.register_at(42, k);
    }
    assert!(bucket.limit_duration_at(42, 9).is_some());
}

#[test]
fn zero_count_limits_from_the_first_use() {
    let bucket = Bucket::new(Limit::new(Span::from_secs(2), 0));
    assert!(bucket.limit_duration_at(8, 0).is_none());
    bucket.register_at(8, 0);
    assert_eq!(bucket.limit_duration_at(8, 0), Some(Span::from_secs(2)));
}

#[test]
fn zero_window_never_limits() {
    let bucket = Bucket::new(Limit::new(Span::from_nanos(0), 1));
    bucket.register_at(8, 5);
    bucket.register_at(8, 5);
    assert!(bucket.limit_duration_at(8, 5).is_none());
}

#[test]
fn clock_does_not_go_back() {
    let bucket = Bucket::new(Limit::new(Span::from_secs(1), 1));
    let a = bucket.now();
    let b = bucket.now();
    assert!(a <= b);
    assert_eq!(bucket.limit(), Limit::new(Span::from_secs(1), 1));
}
