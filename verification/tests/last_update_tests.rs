use lending_anchor::errors::LendingError;
use lending_anchor::last_update::LastUpdate;

#[test]
fn new_tracker_is_stale_until_refreshed() {
    let mut lu = LastUpdate::new(100);
    assert!(lu.stale);
    assert_eq!(lu.is_stale(100), Ok(true));
    lu.update_slot(100);
    assert!(!lu.stale);
    assert_eq!(lu.is_stale(100), Ok(false));
}

#[test]
fn one_elapsed_slot_makes_it_stale() {
    let mut lu = LastUpdate::new(100);
    lu.update_slot(100);
    assert_eq!(lu.is_stale(100), Ok(false));
    assert_eq!(lu.is_stale(101), Ok(true));
    assert_eq!(lu.is_stale(105), Ok(true));
}

#[test]
fn explicit_flag_overrides_freshness() {
    let mut lu = LastUpdate::new(100);
    lu.update_slot(100);
    lu.mark_stale();
    assert_eq!(lu.is_stale(100), Ok(true));
}

#[test]
fn slots_elapsed_counts_from_last_refresh() {
    let mut lu = LastUpdate::new(0);
    lu.update_slot(10);
    assert_eq!(lu.slots_elapsed(17), Ok(7));
    assert_eq!(lu.slots_elapsed(9), Err(LendingError::MathOverflow));
    assert_eq!(lu.is_stale(9), Err(LendingError::MathOverflow));
}
