//! Delays between attempts.

use climate::utils::retry::RetryPolicy;

#[test]
fn the_standard_policy() {
    let policy = RetryPolicy::standard();
    assert_eq!(policy, RetryPolicy { max_attempts: 5, base_delay_ms: 500, max_delay_ms: 30_000 });
}

#[test]
fn attempts_are_capped() {
    let policy = RetryPolicy { max_attempts: 3, base_delay_ms: 100, max_delay_ms: 1_000 };
    assert!(policy.allows_retry(1));
    assert!(policy.allows_retry(2));
    assert!(!policy.allows_retry(3));
    assert!(!policy.allows_retry(4));
}

#[test]
fn the_ceiling_doubles_until_the_cap() {
    let policy = RetryPolicy::standard();
    let ceilings: Vec<u64> = (1..=9).map(|attempt| policy.ceiling_ms(attempt)).collect();
    assert_eq!(ceilings, vec![500, 1_000, 2_000, 4_000, 8_000, 16_000, 30_000, 30_000, 30_000]);
    assert_eq!(policy.ceiling_ms(0), 500);
    assert_eq!(policy.ceiling_ms(u32::MAX), 30_000);
}

#[test]
fn the_ceiling_survives_extreme_policies() {
    let huge = RetryPolicy { max_attempts: 9, base_delay_ms: u64::MAX / 2 + 1, max_delay_ms: u64::MAX };
    assert_eq!(huge.ceiling_ms(1), u64::MAX / 2 + 1);
    assert_eq!(huge.ceiling_ms(2), u64::MAX);
    assert_eq!(huge.ceiling_ms(200), u64::MAX);
    let inverted = RetryPolicy { max_attempts: 9, base_delay_ms: 700, max_delay_ms: 300 };
    assert_eq!(inverted.ceiling_ms(1), 300);
    assert_eq!(inverted.ceiling_ms(5), 300);
    let still = RetryPolicy { max_attempts: 9, base_delay_ms: 0, max_delay_ms: 300 };
    assert_eq!(still.ceiling_ms(60), 0);
    assert_eq!(still.delay_ms(60, 12345), 0);
}

#[test]
fn the_delay_lies_between_half_the_ceiling_and_the_ceiling() {
    let policy = RetryPolicy::standard();
    assert_eq!(policy.delay_ms(1, 0), 250);
    assert_eq!(policy.delay_ms(1, 250), 500);
    assert_eq!(policy.delay_ms(1, 251), 250);
    assert_eq!(policy.delay_ms(1, 7), 257);
    assert_eq!(policy.delay_ms(2, 0), 500);
    assert_eq!(policy.delay_ms(2, 500), 1_000);
    assert_eq!(policy.delay_ms(3, 1_234), 1_000 + 1_234 % 1_001);
    assert_eq!(policy.delay_ms(7, 0), 15_000);
    assert_eq!(policy.delay_ms(7, 15_000), 30_000);
    assert_eq!(policy.delay_ms(7, u64::MAX), 15_000 + u64::MAX % 15_001);
    for attempt in 1..12 {
        for jitter in [0u64, 1, 99, 1 << 20, u64::MAX] {
            let ceiling = policy.ceiling_ms(attempt);
            let delay = policy.delay_ms(attempt, jitter);
            assert!(ceiling / 2 <= delay && delay <= ceiling);
        }
    }
    let odd = RetryPolicy { max_attempts: 2, base_delay_ms: 7, max_delay_ms: 7 };
    assert_eq!(odd.delay_ms(1, 0), 3);
    assert_eq!(odd.delay_ms(1, 4), 7);
    assert_eq!(odd.delay_ms(1, 5), 3);
}
