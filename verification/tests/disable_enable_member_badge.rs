use dao_wallet::DaoWallet;
use dao_wallet::Error;
use dao_wallet::Member;
use dao_wallet::Outcome;

const ALICE: u64 = 3;
const BOB: u64 = 2;
const CAROL: u64 = 1;
const DAVE_ACCOUNT: u64 = 1000;

fn wallet_2_of_3() -> DaoWallet {
    DaoWallet::new(3, 2, 0).unwrap()
}

fn disable(w: &mut DaoWallet, signer: u64, desc: &str, target: u64, nonce: u64) -> Result<
    Outcome,
    Error,
> {
    w.disable_member_badge(signer, desc.to_string(), target, nonce)
}

fn enable(w: &mut DaoWallet, signer: u64, desc: &str, target: u64, nonce: u64) -> Result<
    Outcome,
    Error,
> {
    w.enable_member_badge(signer, desc.to_string(), target, nonce)
}

#[test]
fn test_disable_badge_2_of_3_executes_with_two_sigs() {
    let mut w = wallet_2_of_3();

    let r = disable(&mut w, ALICE, "disable bob", BOB, 1).unwrap();
    assert!(matches!(r, Outcome::Opened(_)));

    let r = disable(&mut w, BOB, "disable bob", BOB, 2).unwrap();
    assert!(matches!(r, Outcome::Executed(_)));

    // Bob's badge has been disabled, he can no longer sign operations
    let r = enable(&mut w, BOB, "enable bob", BOB, 3);
    assert_eq!(r.unwrap_err(), Error::InvalidVoter);
}

#[test]
fn test_disable_badge_two_members() {
    let mut w = DaoWallet::new(2, 2, 0).unwrap();
    // In a two-member wallet badge 1 is bob's, badge 2 alice's.
    let bob: u64 = 1;
    let alice: u64 = 2;

    // If only two members exist, it's not possible to disable one of them
    let r = disable(&mut w, alice, "disable bob", bob, 1);
    assert_eq!(r.unwrap_err(), Error::PolicyViolation);
}

#[test]
fn test_disable_nonexistent_badge_fails() {
    let mut w = wallet_2_of_3();
    let r = disable(&mut w, ALICE, "ghost", 999, 1);
    assert!(r.is_err());
}

#[test]
fn test_disabled_member_vote_is_ignored() {
    // Sequence that shows disabled badges' votes are removed:
    //  1. Bob signs add-dave first (1 vote: bob)
    //  2. Alice + Carol disable Bob (2-of-3; bob's badge is now disabled)
    //  3. Carol signs add-dave: the purge strips Bob's vote, 1 active vote
    //  4. Alice signs add-dave: 2nd active vote, executes
    let mut w = wallet_2_of_3();

    // Step 1: Bob proposes add-dave
    w.mint_member_badge(BOB, "add dave".to_string(), DAVE_ACCOUNT, 1, 0).unwrap();
    assert_eq!(w.members.len(), 3, "Still pending");

    // Step 2: Alice and Carol disable Bob (alice first, carol second)
    disable(&mut w, ALICE, "disable bob", BOB, 2).unwrap();
    let r = disable(&mut w, CAROL, "disable bob", BOB, 3).unwrap();
    assert!(matches!(r, Outcome::Executed(_)));

    // Step 3: Carol co-signs add-dave; the purge removes Bob's vote
    let r = w.mint_member_badge(CAROL, "add dave".to_string(), DAVE_ACCOUNT, 4, 0).unwrap();
    assert!(matches!(r, Outcome::Pending));
    assert_eq!(w.members.len(), 3, "Bob purged; only Carol active");

    // Step 4: Alice makes it 2 active votes, which executes
    let r = w.mint_member_badge(ALICE, "add dave".to_string(), DAVE_ACCOUNT, 5, 0).unwrap();
    assert!(matches!(r, Outcome::Executed(_)));
    assert_eq!(w.members.len(), 4);
}

#[test]
fn test_enable_badge_after_disable() {
    let mut w = wallet_2_of_3();

    // Disable (2 sigs needed)
    let r = disable(&mut w, ALICE, "disable bob", BOB, 1).unwrap();
    assert!(matches!(r, Outcome::Opened(_)));
    let r = disable(&mut w, BOB, "disable bob", BOB, 2).unwrap();
    assert!(matches!(r, Outcome::Executed(_)));
    assert!(!Member::is_badge_enabled(BOB, &w.members));

    // Re-enable (2 sigs needed)
    let r = enable(&mut w, ALICE, "enable bob", BOB, 3).unwrap();
    assert!(matches!(r, Outcome::Opened(_)));
    let r = enable(&mut w, CAROL, "enable bob", BOB, 4).unwrap();
    assert!(matches!(r, Outcome::Executed(_)));
    assert!(Member::is_badge_enabled(BOB, &w.members));
}

#[test]
fn test_enable_already_active_badge_fails() {
    let mut w = wallet_2_of_3();
    let r = enable(&mut w, ALICE, "enable active bob", BOB, 1);
    assert_eq!(r.unwrap_err(), Error::PolicyViolation);
}
