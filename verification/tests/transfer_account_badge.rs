use dao_wallet::DaoWallet;
use dao_wallet::Error;
use dao_wallet::Outcome;

const ALICE: u64 = 3;
const BOB: u64 = 2;
const RECEIVER_COMPONENT: u64 = 77;

#[test]
fn test_transfer_account_badge() {
    let mut w = DaoWallet::new(3, 2, 0).unwrap();

    let r = w
        .transfer_account_badge(ALICE, "send account badge".to_string(), RECEIVER_COMPONENT, 1)
        .unwrap();
    assert!(matches!(r, Outcome::Opened(_)));

    let r = w
        .transfer_account_badge(BOB, "send account badge".to_string(), RECEIVER_COMPONENT, 2)
        .unwrap();
    assert!(
        matches!(r, Outcome::Executed(_)),
        "The account owner badge is still in the DAO wallet component"
    );
    assert!(!w.account_badge_present, "The account owner badge is not in the AccountBadgeReceiver");

    // With the badge gone, no withdrawal can even be proposed
    let r = w.send_fungibles(ALICE, "late pay".to_string(), 1, true, 10, 1000, 10000, 3);
    assert_eq!(r.unwrap_err(), Error::PolicyViolation);
}
