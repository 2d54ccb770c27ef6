use dao_wallet::DaoWallet;
use dao_wallet::Error;
use dao_wallet::Outcome;

const ALICE: u64 = 3;
const BOB: u64 = 2;
const CAROL: u64 = 1;
const DAVE_ACCOUNT: u64 = 1000;

fn wallet_2_of_3() -> DaoWallet {
    DaoWallet::new(3, 2, 0).unwrap()
}

fn increase(w: &mut DaoWallet, signer: u64, desc: &str, nonce: u64) -> Result<Outcome, Error> {
    w.increase_min_cosigners(signer, desc.to_string(), nonce)
}

fn decrease(w: &mut DaoWallet, signer: u64, desc: &str, nonce: u64) -> Result<Outcome, Error> {
    w.decrease_min_cosigners(signer, desc.to_string(), nonce)
}

fn mint(w: &mut DaoWallet, signer: u64, desc: &str, nonce: u64) -> Result<Outcome, Error> {
    w.mint_member_badge(signer, desc.to_string(), DAVE_ACCOUNT, nonce, 0)
}

#[test]
fn test_increase_min_cosigners_2_to_3() {
    let mut w = wallet_2_of_3();

    // Both alice and bob sign (2 sigs needed)
    let r = increase(&mut w, ALICE, "inc to 3", 1).unwrap();
    assert!(matches!(r, Outcome::Opened(_)));
    let r = increase(&mut w, BOB, "inc to 3", 2).unwrap();
    assert!(matches!(r, Outcome::Executed(_)));
    assert_eq!(w.min_cosigners, 3);

    // Now 3 sigs needed: alice+bob alone should NOT execute
    let r = mint(&mut w, ALICE, "add dave", 3).unwrap();
    assert!(matches!(r, Outcome::Opened(_)));
    let r = mint(&mut w, BOB, "add dave", 4).unwrap();
    assert!(matches!(r, Outcome::Pending));
    assert_eq!(w.members.len(), 3, "Needs 3 sigs now");

    // Carol makes it 3, which executes
    let r = mint(&mut w, CAROL, "add dave", 5).unwrap();
    assert!(matches!(r, Outcome::Executed(_)));
    assert_eq!(w.members.len(), 4);
}

#[test]
fn test_increase_min_cosigners_when_already_at_max_fails() {
    // 3-of-3: the guard needs more enabled members than the threshold
    let mut w = DaoWallet::new(3, 3, 0).unwrap();
    let r = increase(&mut w, ALICE, "increase min cosigners", 1);
    assert_eq!(r.unwrap_err(), Error::PolicyViolation);
}

#[test]
fn test_decrease_min_cosigners_from_2_fails() {
    // A decrease is allowed only while min_cosigners is above 2
    let mut w = wallet_2_of_3();
    let r = decrease(&mut w, ALICE, "decrease min cosigners", 1);
    assert_eq!(r.unwrap_err(), Error::PolicyViolation);
}

#[test]
fn test_decrease_min_cosigners_3_to_2() {
    let mut w = DaoWallet::new(3, 3, 0).unwrap();

    // All 3 must sign the decrease (3-of-3)
    let r = decrease(&mut w, ALICE, "dec to 2", 1).unwrap();
    assert!(matches!(r, Outcome::Opened(_)));
    let r = decrease(&mut w, BOB, "dec to 2", 2).unwrap();
    assert!(matches!(r, Outcome::Pending));
    let r = decrease(&mut w, CAROL, "dec to 2", 3).unwrap();
    assert!(matches!(r, Outcome::Executed(_)));
    assert_eq!(w.min_cosigners, 2);

    // Now 2-of-3: alice+bob alone executes
    let r = mint(&mut w, ALICE, "add dave", 4).unwrap();
    assert!(matches!(r, Outcome::Opened(_)));
    let r = mint(&mut w, BOB, "add dave", 5).unwrap();
    assert!(matches!(r, Outcome::Executed(_)));
    assert_eq!(w.members.len(), 4);
}

#[test]
fn test_increase_then_decrease_round_trip() {
    // Start 2-of-3, increase to 3-of-3, decrease back to 2-of-3
    let mut w = wallet_2_of_3();

    // Increase to 3 (needs 2 sigs at current threshold)
    let r = increase(&mut w, ALICE, "inc", 1).unwrap();
    assert!(matches!(r, Outcome::Opened(_)));
    let r = increase(&mut w, BOB, "inc", 2).unwrap();
    assert!(matches!(r, Outcome::Executed(_)));

    // Now 3-of-3.  Decrease back to 2 (needs 3 sigs)
    let r = decrease(&mut w, ALICE, "dec", 3).unwrap();
    assert!(matches!(r, Outcome::Opened(_)));
    let r = decrease(&mut w, BOB, "dec", 4).unwrap();
    assert!(matches!(r, Outcome::Pending));
    let r = decrease(&mut w, CAROL, "dec", 5).unwrap();
    assert!(matches!(r, Outcome::Executed(_)));
    assert_eq!(w.min_cosigners, 2);

    // Back to 2-of-3: alice+bob execute
    let r = mint(&mut w, ALICE, "add dave", 6).unwrap();
    assert!(matches!(r, Outcome::Opened(_)));
    let r = mint(&mut w, BOB, "add dave", 7).unwrap();
    assert!(matches!(r, Outcome::Executed(_)));
    assert_eq!(w.members.len(), 4);
}
