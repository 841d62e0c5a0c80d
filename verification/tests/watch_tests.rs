use mimo_herdr::watch::{release_seq, MAX_RELEASE_MS};

#[test]
fn release_is_one_second_ahead() {
    assert_eq!(release_seq(0), 1_000_000);
    assert_eq!(release_seq(1_700_000_000_000), 1_700_000_001_000_000);
}

#[test]
fn release_outranks_reports_of_the_last_second() {
    let now = 1_700_000_000_000u64;
    let seq = release_seq(now);
    assert!((now + 999) * 1000 + 999 < seq);
    assert!(release_seq(now + 1) > seq);
}

#[test]
fn release_bound_is_tight() {
    assert_eq!(release_seq(MAX_RELEASE_MS), (MAX_RELEASE_MS + 1000) * 1000);
    assert!((MAX_RELEASE_MS + 1001).checked_mul(1000).is_none());
}
