use runners_toolkit::retry::RetryBackoff;

#[test]
fn failures_double_the_wait_up_to_the_ceiling() {
    let mut b = RetryBackoff::new(1_000, 8_000);
    assert_eq!(b.next_delay(false), 2_000);
    assert_eq!(b.next_delay(false), 4_000);
    assert_eq!(b.next_delay(false), 8_000);
    assert_eq!(b.next_delay(false), 8_000);
}

#[test]
fn success_snaps_back_to_the_regular_interval() {
    let mut b = RetryBackoff::new(1_000, 8_000);
    b.next_delay(false);
    b.next_delay(false);
    assert_eq!(b.next_delay(true), 1_000);
    assert_eq!(b.next_delay(true), 1_000);
}

#[test]
fn an_odd_ceiling_is_never_overshot() {
    let mut b = RetryBackoff::new(2_000, 7_000);
    assert_eq!(b.next_delay(false), 4_000);
    assert_eq!(b.next_delay(false), 7_000);
    assert_eq!(b.next_delay(false), 7_000);
}

#[test]
fn a_fresh_policy_waits_the_regular_interval() {
    let b = RetryBackoff::new(5_000, 60_000);
    assert_eq!(b.delay_ms, 5_000);
    assert_eq!(b.interval_ms, 5_000);
    assert_eq!(b.max_delay_ms, 60_000);
}
