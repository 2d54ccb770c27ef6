//! Canonical description of a proposed action, used as the ledger key.
//!
//! An operation is a human-readable label, an action kind, and the fixed
//! set of optional parameters the kind may need.  Addresses, amounts and
//! non-fungible ids enter the engine as plain numbers: the host resolves
//! real resource, account, component and validator addresses to stable
//! ids, and renders amounts in the treasury's smallest unit.
//!
//! Two operations are equal exactly when every field is equal, the label
//! included (after trimming).  Identical actions with different labels are
//! therefore distinct proposals, and identical labels with different
//! parameters are distinct too; votes only accumulate on byte-identical
//! proposals.  This is deliberate: the label is treated as part of the
//! action, and no normalization beyond label trimming is performed.

use vstd::prelude::*;

use crate::cosigner::Cosigner;
use crate::cosigner::Cosigners;

verus! {

/// The kinds of operation a member can sign.
#[derive(Clone, Copy, Debug, PartialEq, Eq, Structural)]
pub enum OperationType {
    /// Mint a member badge and send it to an account.
    MintBadge,
    /// Disable a member badge.
    DisableBadge,
    /// Re-enable a previously disabled member badge.
    EnableBadge,
    /// Raise the number of signatures an operation needs.
    IncreaseMinCosigners,
    /// Lower the number of signatures an operation needs.
    DecreaseMinCosigners,
    /// Send an amount of a fungible resource to an account.
    SendFungibles,
    /// Send a list of non-fungibles to an account.
    SendNonFungibles,
    /// Dismiss this wallet and hand its account badge to a component.
    TransferAccountBadge,
    /// Stake treasury funds with a validator.
    Stake,
    /// Begin unstaking from a validator.
    Unstake,
    /// Claim funds whose unstaking has completed.
    ClaimUnstakedXrd,
}

/// The operation kind a wire code stands for, if any.
pub open spec fn type_of_code(code: u8) -> Option<OperationType> {
    if code == 0 {
        Some(OperationType::MintBadge)
    } else if code == 1 {
        Some(OperationType::DisableBadge)
    } else if code == 2 {
        Some(OperationType::EnableBadge)
    } else if code == 3 {
        Some(OperationType::IncreaseMinCosigners)
    } else if code == 4 {
        Some(OperationType::DecreaseMinCosigners)
    } else if code == 5 {
        Some(OperationType::SendFungibles)
    } else if code == 6 {
        Some(OperationType::SendNonFungibles)
    } else if code == 7 {
        Some(OperationType::TransferAccountBadge)
    } else if code == 8 {
        Some(OperationType::Stake)
    } else if code == 9 {
        Some(OperationType::Unstake)
    } else if code == 10 {
        Some(OperationType::ClaimUnstakedXrd)
    } else {
        None
    }
}

impl OperationType {
    /// Decode the numeric representation of an operation kind; codes run
    /// from zero in declaration order, anything above them is unknown.
    pub fn from_code(code: u8) -> (r: Option<OperationType>)
        ensures
            r == type_of_code(code),
    {
        match code {
            0 => Some(OperationType::MintBadge),
            1 => Some(OperationType::DisableBadge),
            2 => Some(OperationType::EnableBadge),
            3 => Some(OperationType::IncreaseMinCosigners),
            4 => Some(OperationType::DecreaseMinCosigners),
            5 => Some(OperationType::SendFungibles),
            6 => Some(OperationType::SendNonFungibles),
            7 => Some(OperationType::TransferAccountBadge),
            8 => Some(OperationType::Stake),
            9 => Some(OperationType::Unstake),
            10 => Some(OperationType::ClaimUnstakedXrd),
            _ => None,
        }
    }
}

/// A character with the Unicode `White_Space` property; exactly the set
/// that label trimming removes.
pub open spec fn is_white_space(c: char) -> bool {
    ||| c == '\u{0009}'
    ||| c == '\u{000A}'
    ||| c == '\u{000B}'
    ||| c == '\u{000C}'
    ||| c == '\u{000D}'
    ||| c == '\u{0020}'
    ||| c == '\u{0085}'
    ||| c == '\u{00A0}'
    ||| c == '\u{1680}'
    ||| c == '\u{2000}'
    ||| c == '\u{2001}'
    ||| c == '\u{2002}'
    ||| c == '\u{2003}'
    ||| c == '\u{2004}'
    ||| c == '\u{2005}'
    ||| c == '\u{2006}'
    ||| c == '\u{2007}'
    ||| c == '\u{2008}'
    ||| c == '\u{2009}'
    ||| c == '\u{200A}'
    ||| c == '\u{2028}'
    ||| c == '\u{2029}'
    ||| c == '\u{202F}'
    ||| c == '\u{205F}'
    ||| c == '\u{3000}'
}

/// `s` without its leading white space.
pub open spec fn trim_start_spec(s: Seq<char>) -> Seq<char>
    decreases s.len(),
{
    if s.len() == 0 {
        s
    } else if is_white_space(s.first()) {
        trim_start_spec(s.drop_first())
    } else {
        s
    }
}

/// `s` without its trailing white space.
pub open spec fn trim_end_spec(s: Seq<char>) -> Seq<char>
    decreases s.len(),
{
    if s.len() == 0 {
        s
    } else if is_white_space(s.last()) {
        trim_end_spec(s.drop_last())
    } else {
        s
    }
}

/// `s` without leading and trailing white space.
pub open spec fn trimmed(s: Seq<char>) -> Seq<char> {
    trim_end_spec(trim_start_spec(s))
}

/// Relies on str::trim of std: it returns the slice without leading and
/// trailing characters having the Unicode `White_Space` property, which is
/// what `trimmed` describes; `to_owned` only converts the slice to an
/// owned string.
#[verifier::external_body]
fn trim_label(s: &str) -> (r: String)
    ensures
        r@ == trimmed(s@),
{
    s.trim().to_owned()
}

/// The mathematical value of an `Operation`: the same fields, with the
/// label as a character sequence and the id list as an integer sequence.
#[verifier::ext_equal]
pub struct OpView {
    pub description: Seq<char>,
    pub operation_type: OperationType,
    pub resource: Option<u64>,
    pub amount: Option<i128>,
    pub non_fungible_ids: Option<Seq<u64>>,
    pub recipient: Option<u64>,
    pub component: Option<u64>,
    pub validator: Option<u64>,
}

/// One proposable action, complete with its parameters.  Immutable once
/// constructed and used only as a ledger key.
#[derive(Clone, Debug)]
pub struct Operation {
    /// Human-readable label; trimmed at construction, otherwise verbatim.
    pub description: String,
    /// What kind of action this is.
    pub operation_type: OperationType,
    /// Resource the action moves, or nothing.
    pub resource: Option<u64>,
    /// Fungible amount the action moves, or nothing.
    pub amount: Option<i128>,
    /// Non-fungible ids the action touches, or nothing.
    pub non_fungible_ids: Option<Vec<u64>>,
    /// Account that receives the moved assets, or nothing.
    pub recipient: Option<u64>,
    /// Component that receives the account badge, or nothing.
    pub component: Option<u64>,
    /// Validator the action stakes with, or nothing.
    pub validator: Option<u64>,
}

impl View for Operation {
    type V = OpView;

    open spec fn view(&self) -> OpView {
        OpView {
            description: self.description@,
            operation_type: self.operation_type,
            resource: self.resource,
            amount: self.amount,
            non_fungible_ids: self.non_fungible_ids.deep_view(),
            recipient: self.recipient,
            component: self.component,
            validator: self.validator,
        }
    }
}

fn opt_u64_eq(a: &Option<u64>, b: &Option<u64>) -> (r: bool)
    ensures
        r == (a == b),
{
    match (a, b) {
        (Some(x), Some(y)) => *x == *y,
        (None, None) => true,
        _ => false,
    }
}

fn opt_i128_eq(a: &Option<i128>, b: &Option<i128>) -> (r: bool)
    ensures
        r == (a == b),
{
    match (a, b) {
        (Some(x), Some(y)) => *x == *y,
        (None, None) => true,
        _ => false,
    }
}

fn ids_eq(a: &Vec<u64>, b: &Vec<u64>) -> (r: bool)
    ensures
        r == (a@ == b@),
{
    let n = a.len();
    if n != b.len() {
        return false;
    }
    let mut i: usize = 0;
    while i < n
        invariant
            0 <= i <= n,
            n == a@.len(),
            n == b@.len(),
            forall|j: int| 0 <= j < i ==> a@[j] == b@[j],
        decreases n - i,
    {
        if a[i] != b[i] {
            return false;
        }
        i = i + 1;
    }
    proof {
        assert(a@ =~= b@);
    }
    true
}

fn opt_ids_eq(a: &Option<Vec<u64>>, b: &Option<Vec<u64>>) -> (r: bool)
    ensures
        r == (a.deep_view() == b.deep_view()),
{
    match (a, b) {
        (Some(x), Some(y)) => {
            proof {
                assert(x.deep_view() =~= x@);
                assert(y.deep_view() =~= y@);
            }
            ids_eq(x, y)
        },
        (None, None) => true,
        _ => false,
    }
}

fn clone_ids(v: &Vec<u64>) -> (r: Vec<u64>)
    ensures
        r@ == v@,
{
    let n = v.len();
    let mut out: Vec<u64> = Vec::new();
    let mut i: usize = 0;
    while i < n
        invariant
            0 <= i <= n,
            n == v@.len(),
            out@ == v@.take(i as int),
        decreases n - i,
    {
        proof {
            assert(v@.take(i + 1) =~= v@.take(i as int).push(v@[i as int]));
        }
        out.push(v[i]);
        i = i + 1;
    }
    proof {
        assert(v@.take(n as int) =~= v@);
    }
    out
}

fn clone_opt_ids(v: &Option<Vec<u64>>) -> (r: Option<Vec<u64>>)
    ensures
        r.deep_view() == v.deep_view(),
{
    match v {
        Some(ids) => Some(clone_ids(ids)),
        None => None,
    }
}

impl PartialEq for Operation {
    /// Structural equality over every field, the trimmed label included.
    fn eq(&self, other: &Self) -> bool {
        let r = self.description == other.description && self.operation_type
            == other.operation_type && opt_u64_eq(&self.resource, &other.resource) && opt_i128_eq(
            &self.amount,
            &other.amount,
        ) && opt_ids_eq(&self.non_fungible_ids, &other.non_fungible_ids) && opt_u64_eq(
            &self.recipient,
            &other.recipient,
        ) && opt_u64_eq(&self.component, &other.component) && opt_u64_eq(
            &self.validator,
            &other.validator,
        );
        proof {
            if r {
                assert(self@ =~= other@);
            }
        }
        r
    }
}

impl vstd::std_specs::cmp::PartialEqSpecImpl for Operation {
    open spec fn obeys_eq_spec() -> bool {
        true
    }

    open spec fn eq_spec(&self, other: &Operation) -> bool {
        self@ == other@
    }
}

/// The payload of the "proposal opened" signal: the operation's own
/// parameters verbatim, plus the badge id of the first signer.
#[derive(Clone, Debug)]
pub struct NewOperationEvent {
    pub description: String,
    pub operation_type: OperationType,
    pub resource: Option<u64>,
    pub amount: Option<i128>,
    pub non_fungible_ids: Option<Vec<u64>>,
    pub recipient: Option<u64>,
    pub component: Option<u64>,
    pub validator: Option<u64>,
    /// Member badge id of the first signer of the operation.
    pub signer_badge_id: u64,
}

/// The payload of the "operation approved" signal: the operation's own
/// parameters verbatim, plus the full ordered cosigner list for audit.
#[derive(Clone, Debug)]
pub struct OperationExecutedEvent {
    pub description: String,
    pub operation_type: OperationType,
    pub resource: Option<u64>,
    pub amount: Option<i128>,
    pub non_fungible_ids: Option<Vec<u64>>,
    pub recipient: Option<u64>,
    pub component: Option<u64>,
    pub validator: Option<u64>,
    /// Every cosigner of the executed round, badge ids and transaction
    /// hashes included, in insertion order.
    pub cosigners: Cosigners,
}

/// `ev` carries exactly the fields of `op` and names `signer` as opener.
pub open spec fn new_event_matches(ev: NewOperationEvent, op: OpView, signer: u64) -> bool {
    &&& ev.description@ == op.description
    &&& ev.operation_type == op.operation_type
    &&& ev.resource == op.resource
    &&& ev.amount == op.amount
    &&& ev.non_fungible_ids.deep_view() == op.non_fungible_ids
    &&& ev.recipient == op.recipient
    &&& ev.component == op.component
    &&& ev.validator == op.validator
    &&& ev.signer_badge_id == signer
}

/// `ev` carries exactly the fields of `op` and the cosigner list `votes`.
pub open spec fn executed_event_matches(
    ev: OperationExecutedEvent,
    op: OpView,
    votes: Seq<Cosigner>,
) -> bool {
    &&& ev.description@ == op.description
    &&& ev.operation_type == op.operation_type
    &&& ev.resource == op.resource
    &&& ev.amount == op.amount
    &&& ev.non_fungible_ids.deep_view() == op.non_fungible_ids
    &&& ev.recipient == op.recipient
    &&& ev.component == op.component
    &&& ev.validator == op.validator
    &&& ev.cosigners@ == votes
}

impl Operation {
    /// Build an operation from its parameters.  The label is trimmed;
    /// everything else is stored verbatim.  Construction never fails.
    pub fn new(
        description: String,
        operation_type: OperationType,
        resource: Option<u64>,
        amount: Option<i128>,
        non_fungible_ids: Option<Vec<u64>>,
        recipient: Option<u64>,
        component: Option<u64>,
        validator: Option<u64>,
    ) -> (op: Operation)
        ensures
            op@ == (OpView {
                description: trimmed(description@),
                operation_type,
                resource,
                amount,
                non_fungible_ids: non_fungible_ids.deep_view(),
                recipient,
                component,
                validator,
            }),
    {
        Operation {
            description: trim_label(description.as_str()),
            operation_type,
            resource,
            amount,
            non_fungible_ids,
            recipient,
            component,
            validator,
        }
    }

    /// Build the "proposal opened" signal for this operation; the host
    /// delivers it to whatever audits or notifies.
    pub fn emit_new_event(&self, signer_badge_id: u64) -> (ev: NewOperationEvent)
        ensures
            new_event_matches(ev, self@, signer_badge_id),
    {
        NewOperationEvent {
            description: self.description.clone(),
            operation_type: self.operation_type,
            resource: self.resource,
            amount: self.amount,
            non_fungible_ids: clone_opt_ids(&self.non_fungible_ids),
            recipient: self.recipient,
            component: self.component,
            validator: self.validator,
            signer_badge_id,
        }
    }

    /// Build the "operation approved" signal for this operation; the host
    /// delivers it to whatever audits or notifies.
    pub fn emit_executed_event(&self, cosigners: Cosigners) -> (ev: OperationExecutedEvent)
        ensures
            executed_event_matches(ev, self@, cosigners@),
    {
        OperationExecutedEvent {
            description: self.description.clone(),
            operation_type: self.operation_type,
            resource: self.resource,
            amount: self.amount,
            non_fungible_ids: clone_opt_ids(&self.non_fungible_ids),
            recipient: self.recipient,
            component: self.component,
            validator: self.validator,
            cosigners,
        }
    }
}

} // verus!
