use bridge_relays::proposal::{import_delay, transaction_fits, MAX_TRANSACTIONS_SIZE};

#[test]
fn block_from_the_future_waits() {
    assert_eq!(import_delay(100, Some(130)), Some(30));
}

#[test]
fn block_from_the_past_is_imported_at_once() {
    assert_eq!(import_delay(100, Some(100)), None);
    assert_eq!(import_delay(100, Some(20)), None);
    assert_eq!(import_delay(100, None), None);
}

#[test]
fn transactions_stay_below_size_limit() {
    assert_eq!(MAX_TRANSACTIONS_SIZE, 4 * 1024 * 1024);
    assert!(transaction_fits(0, 10));
    assert!(transaction_fits(MAX_TRANSACTIONS_SIZE - 11, 10));
    assert!(!transaction_fits(MAX_TRANSACTIONS_SIZE - 10, 10));
    assert!(!transaction_fits(0, MAX_TRANSACTIONS_SIZE));
    assert!(!transaction_fits(usize::MAX, usize::MAX));
}
