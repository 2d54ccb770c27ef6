use dao_wallet::DaoWallet;
use dao_wallet::Error;
use dao_wallet::OperationType;
use dao_wallet::Outcome;

const ALICE: u64 = 3;
const BOB: u64 = 2;
const CAROL: u64 = 1;
const DAVE_ACCOUNT: u64 = 1000;

fn wallet_2_of_3() -> DaoWallet {
    DaoWallet::new(3, 2, 0).unwrap()
}

fn mint(w: &mut DaoWallet, signer: u64, desc: &str, nonce: u64) -> Result<Outcome, Error> {
    w.mint_member_badge(signer, desc.to_string(), DAVE_ACCOUNT, nonce, 0)
}

fn withdraw_mint_vote(w: &mut DaoWallet, signer: u64, desc: &str) -> Result<(), Error> {
    w.remove_signature(
        signer,
        desc.to_string(),
        OperationType::MintBadge,
        None,
        None,
        None,
        Some(DAVE_ACCOUNT),
        None,
        None,
    )
}

#[test]
fn test_remove_signature_cancels_vote() {
    let mut w = wallet_2_of_3();

    // Alice signs
    mint(&mut w, ALICE, "add dave", 1).unwrap();

    // Alice withdraws
    withdraw_mint_vote(&mut w, ALICE, "add dave").unwrap();

    // Bob signs (1 effective vote, op still pending)
    let r = mint(&mut w, BOB, "add dave", 2).unwrap();
    assert!(matches!(r, Outcome::Pending));
    assert_eq!(w.members.len(), 3, "Only 1 effective vote");

    // Carol makes it 2, which executes
    let r = mint(&mut w, CAROL, "add dave", 3).unwrap();
    assert!(matches!(r, Outcome::Executed(_)));
    assert_eq!(w.members.len(), 4);
}

#[test]
fn test_remove_signature_nonexistent_op_fails() {
    let mut w = wallet_2_of_3();
    let r = withdraw_mint_vote(&mut w, ALICE, "ghost op");
    assert_eq!(r.unwrap_err(), Error::OperationNotFound);
}

#[test]
fn test_remove_signature_by_non_signer_fails() {
    let mut w = wallet_2_of_3();
    mint(&mut w, ALICE, "add dave", 1).unwrap();

    // Carol was not a signer; this fails
    let r = withdraw_mint_vote(&mut w, CAROL, "add dave");
    assert_eq!(r.unwrap_err(), Error::VoteNotFound);

    // Alice's vote is still there: bob co-signing executes the op
    let r = mint(&mut w, BOB, "add dave", 2).unwrap();
    assert!(matches!(r, Outcome::Executed(_)));
    assert_eq!(w.members.len(), 4, "Op still executed normally");
}
