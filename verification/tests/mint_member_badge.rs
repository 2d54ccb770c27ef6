use dao_wallet::DaoWallet;
use dao_wallet::Error;
use dao_wallet::Outcome;

// Badge ids as a host hands them out at instantiation time when it pops
// members off its set in reverse order: with three members alice holds
// badge 3, bob badge 2, carol badge 1.
const ALICE: u64 = 3;
const BOB: u64 = 2;
const CAROL: u64 = 1;
const DAVE_ACCOUNT: u64 = 1000;
const XRD: u64 = 1;

fn wallet_2_of_3() -> DaoWallet {
    DaoWallet::new(3, 2, 0).unwrap()
}

fn mint(w: &mut DaoWallet, signer: u64, desc: &str, nonce: u64) -> Result<Outcome, Error> {
    w.mint_member_badge(signer, desc.to_string(), DAVE_ACCOUNT, nonce, 0)
}

#[test]
fn test_mint_badge_2_of_3_first_sig_is_pending() {
    let mut w = wallet_2_of_3();
    let r = mint(&mut w, ALICE, "add dave", 1).unwrap();
    assert!(matches!(r, Outcome::Opened(_)));
    assert_eq!(w.members.len(), 3, "Should be pending");
}

#[test]
fn test_mint_badge_2_of_3_second_sig_executes() {
    let mut w = wallet_2_of_3();
    mint(&mut w, ALICE, "add dave", 1).unwrap();
    let r = mint(&mut w, BOB, "add dave", 2).unwrap();
    assert!(matches!(r, Outcome::Executed(_)));
    assert_eq!(w.members.len(), 4);
}

#[test]
fn test_mint_badge_double_sign_same_member_fails() {
    let mut w = wallet_2_of_3();
    mint(&mut w, ALICE, "add dave", 1).unwrap();
    let r = mint(&mut w, ALICE, "add dave", 2);
    assert_eq!(r.unwrap_err(), Error::DuplicateVote);
}

#[test]
fn test_mint_badge_description_mismatch_creates_separate_op() {
    let mut w = wallet_2_of_3();
    // Two ops with different descriptions: each needs its own 2nd sig
    let r = mint(&mut w, ALICE, "add dave A", 1).unwrap();
    assert!(matches!(r, Outcome::Opened(_)));
    let r = mint(&mut w, BOB, "add dave B", 2).unwrap();
    assert!(matches!(r, Outcome::Opened(_)));
    assert_eq!(w.members.len(), 3);
}

#[test]
fn test_3_of_3_requires_all_three_sigs() {
    let mut w = DaoWallet::new(3, 3, 0).unwrap();
    mint(&mut w, ALICE, "add dave", 1).unwrap();
    mint(&mut w, BOB, "add dave", 2).unwrap();
    assert_eq!(w.members.len(), 3, "2 of 3 not enough");
    let r = mint(&mut w, CAROL, "add dave", 3).unwrap();
    assert!(matches!(r, Outcome::Executed(_)));
    assert_eq!(w.members.len(), 4);
}

#[test]
fn test_2_of_3_any_two_members_can_execute() {
    let mut w = wallet_2_of_3();
    // Carol + Bob (not alice)
    mint(&mut w, CAROL, "add dave", 1).unwrap();
    let r = mint(&mut w, BOB, "add dave", 2).unwrap();
    assert!(matches!(r, Outcome::Executed(_)));
    assert_eq!(w.members.len(), 4);
}

#[test]
fn test_new_member_can_cosign_after_badge_mint() {
    let mut w = wallet_2_of_3();

    // Mint Dave's badge (alice + bob cosign)
    mint(&mut w, ALICE, "add dave", 1).unwrap();
    mint(&mut w, BOB, "add dave", 2).unwrap();
    assert_eq!(w.members.len(), 4);
    let dave_badge: u64 = 4;

    // Dave proposes an operation with his fresh badge
    let r = w
        .send_fungibles(
            dave_badge,
            "dave pays alice".to_string(),
            XRD,
            true,
            10,
            500,
            10000,
            3,
        )
        .unwrap();
    assert!(matches!(r, Outcome::Opened(_)));
}
