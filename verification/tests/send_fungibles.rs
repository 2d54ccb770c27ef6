use dao_wallet::DaoWallet;
use dao_wallet::Error;
use dao_wallet::Operation;
use dao_wallet::OperationType;
use dao_wallet::Outcome;

const ALICE: u64 = 3;
const BOB: u64 = 2;
const DAVE_ACCOUNT: u64 = 1000;
const XRD: u64 = 1;
const DAO_BALANCE: i128 = 10000;

fn wallet_2_of_3() -> DaoWallet {
    DaoWallet::new(3, 2, 0).unwrap()
}

fn send(
    w: &mut DaoWallet,
    signer: u64,
    desc: &str,
    amount: i128,
    nonce: u64,
) -> Result<Outcome, Error> {
    w.send_fungibles(
        signer,
        desc.to_string(),
        XRD,
        true,
        amount,
        DAVE_ACCOUNT,
        DAO_BALANCE,
        nonce,
    )
}

fn send_op(desc: &str, amount: i128) -> Operation {
    Operation::new(
        desc.to_string(),
        OperationType::SendFungibles,
        Some(XRD),
        Some(amount),
        None,
        Some(DAVE_ACCOUNT),
        None,
        None,
    )
}

#[test]
fn test_send_fungibles_2_of_3_first_sig_pending() {
    let mut w = wallet_2_of_3();
    let r = send(&mut w, ALICE, "pay dave", 100, 1).unwrap();
    assert!(matches!(r, Outcome::Opened(_)), "Not yet executed");
    assert_eq!(w.active_vote_count(&send_op("pay dave", 100)), Some(1));
}

#[test]
fn test_send_fungibles_2_of_3_executes_on_second_sig() {
    let mut w = wallet_2_of_3();
    send(&mut w, ALICE, "pay dave", 100, 1).unwrap();
    let r = send(&mut w, BOB, "pay dave", 100, 2).unwrap();
    match r {
        Outcome::Executed(ev) => {
            assert_eq!(ev.amount, Some(100));
            assert_eq!(ev.recipient, Some(DAVE_ACCOUNT));
        }
        _ => panic!("second signature should execute"),
    }
}

#[test]
fn test_send_fungibles_insufficient_balance_fails() {
    let mut w = wallet_2_of_3();
    // The availability check fails: not enough funds
    let r = send(&mut w, ALICE, "drain", 10001, 1);
    assert_eq!(r.unwrap_err(), Error::PolicyViolation);
}

#[test]
fn test_send_fungibles_zero_amount_fails() {
    let mut w = wallet_2_of_3();
    // The availability check fails: the amount must be positive
    let r = send(&mut w, ALICE, "zero", 0, 1);
    assert_eq!(r.unwrap_err(), Error::PolicyViolation);
}

#[test]
fn test_send_fungibles_two_concurrent_ops() {
    let mut w = wallet_2_of_3();

    // Two independent ops (different descriptions), each signed by alice first
    send(&mut w, ALICE, "pay A", 100, 1).unwrap();
    send(&mut w, ALICE, "pay B", 200, 2).unwrap();

    // Complete both
    let ra = send(&mut w, BOB, "pay A", 100, 3).unwrap();
    let rb = send(&mut w, BOB, "pay B", 200, 4).unwrap();
    let mut total: i128 = 0;
    match ra {
        Outcome::Executed(ev) => total += ev.amount.unwrap(),
        _ => panic!("pay A not executed"),
    }
    match rb {
        Outcome::Executed(ev) => total += ev.amount.unwrap(),
        _ => panic!("pay B not executed"),
    }
    assert_eq!(total, 300);
}
