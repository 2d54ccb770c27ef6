use dao_wallet::DaoWallet;
use dao_wallet::Error;
use dao_wallet::Member;

#[test]
fn test_new_creates_component_and_badge_resource() {
    let w = DaoWallet::new(3, 2, 0).unwrap();
    assert_eq!(w.min_cosigners, 2);
    assert!(w.account_badge_present);
}

#[test]
fn test_new_distributes_one_badge_per_member() {
    let w = DaoWallet::new(3, 2, 0).unwrap();
    assert!(Member::is_badge_enabled(3, &w.members), "Alice");
    assert!(Member::is_badge_enabled(2, &w.members), "Bob");
    assert!(Member::is_badge_enabled(1, &w.members), "Carol");
    assert!(!Member::is_badge_enabled(4, &w.members), "Dave (non-member)");
}

#[test]
fn test_new_rejects_zero_min_cosigners() {
    let r = DaoWallet::new(1, 0, 0);
    assert_eq!(r.unwrap_err(), Error::PolicyViolation);
}

#[test]
fn test_new_rejects_min_cosigners_of_one() {
    let r = DaoWallet::new(1, 1, 0);
    assert_eq!(r.unwrap_err(), Error::PolicyViolation);
}

#[test]
fn test_new_rejects_min_cosigners_above_member_count() {
    let r = DaoWallet::new(1, 5, 0);
    assert_eq!(r.unwrap_err(), Error::PolicyViolation);
}

#[test]
fn test_new_minimum_valid_2_of_2() {
    let w = DaoWallet::new(2, 2, 0).unwrap();
    assert_eq!(w.members.len(), 2);
}
