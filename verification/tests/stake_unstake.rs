use dao_wallet::DaoWallet;
use dao_wallet::Outcome;

const ALICE: u64 = 3;
const BOB: u64 = 2;
const VALIDATOR: u64 = 50;
const DAO_BALANCE: i128 = 10000;

#[test]
fn test_stake_unstake() {
    let mut w = DaoWallet::new(3, 2, 0).unwrap();

    // Stake 300 with two signatures
    w.stake(ALICE, "stake 300".to_string(), 300, VALIDATOR, true, DAO_BALANCE, 1).unwrap();
    let r = w.stake(BOB, "stake 300".to_string(), 300, VALIDATOR, true, DAO_BALANCE, 2).unwrap();
    assert!(matches!(r, Outcome::Executed(_)), "No LSU found");

    // The host now holds 300 stake units; unstake them all
    let lsu_balance: i128 = 300;
    w.unstake(ALICE, "unstake all".to_string(), 300, VALIDATOR, lsu_balance, 3).unwrap();
    let r = w.unstake(BOB, "unstake all".to_string(), 300, VALIDATOR, lsu_balance, 4).unwrap();
    assert!(matches!(r, Outcome::Executed(_)), "The LSU are still there");

    // The host receives one claim receipt; claiming it needs two sigs too
    let claim_ids = vec![1u64];
    w.claim_unstaked_xrd(ALICE, "claim".to_string(), claim_ids.clone(), VALIDATOR, &claim_ids, 5)
        .unwrap();
    let r = w
        .claim_unstaked_xrd(BOB, "claim".to_string(), claim_ids.clone(), VALIDATOR, &claim_ids, 6)
        .unwrap();
    assert!(matches!(r, Outcome::Executed(_)), "No Claim NFT found");
}
