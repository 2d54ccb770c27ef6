//! The consensus controller: an M-of-N multisignature wallet engine.
//!
//! The controller owns the operation ledger (operation, active vote set),
//! the member registry and the threshold policy.  Every public method is a
//! single serialized call: it either completes, reporting the signal the
//! host must deliver and the effect it must perform, or returns an error
//! and leaves the state exactly as it was.
//!
//! The host around the engine verifies member credentials and resolves
//! them to badge ids, reads treasury balances, performs the approved
//! effects, and delivers the signals.  When a reported effect fails, the
//! host must restore the engine state it saved before the call, so that
//! the vote-set clear and the effect stand or fall as one unit.

use vstd::prelude::*;

use crate::cosigner::Cosigner;
use crate::cosigner::Cosigners;
use crate::cosigner::distinct_voters;
use crate::cosigner::find_voter;
use crate::cosigner::has_voter;
use crate::cosigner::lemma_distinct_push;
use crate::cosigner::lemma_purge_distinct;
use crate::cosigner::lemma_removed_at;
use crate::cosigner::lemma_voter_index_unique;
use crate::cosigner::purge;
use crate::cosigner::retain_enabled;
use crate::cosigner::removed_at;
use crate::cosigner::voter_index;
use crate::member::Member;
use crate::member::badge_enabled;
use crate::member::count_enabled;
use crate::operation::NewOperationEvent;
use crate::operation::OpView;
use crate::operation::Operation;
use crate::operation::OperationExecutedEvent;
use crate::operation::OperationType;
use crate::operation::executed_event_matches;
use crate::operation::new_event_matches;
use crate::operation::trimmed;

verus! {

/// Why a call was rejected.  Every error is terminal for the call: the
/// engine state is left untouched.
#[derive(Clone, Copy, Debug, PartialEq, Eq, Structural)]
pub enum Error {
    /// The credential does not resolve to a known, enabled member badge.
    InvalidVoter,
    /// The signer already has an active vote on this operation's round.
    DuplicateVote,
    /// A withdrawal named an operation with no ledger entry.
    OperationNotFound,
    /// A withdrawal named a voter with no active vote on the operation.
    VoteNotFound,
    /// A proposal-time precondition failed: a threshold or member-set
    /// guard, or an unavailable or ill-formed transfer.
    PolicyViolation,
    /// For the host: the dispatched side effect failed after the
    /// threshold was reached, and the saved engine state was restored.
    EffectFailure,
}

/// What a successful call reports, and the signal the host must deliver.
#[derive(Debug)]
pub enum Outcome {
    /// A fresh proposal was opened with the caller as sole cosigner.
    Opened(NewOperationEvent),
    /// The vote was recorded; the threshold is not yet reached.
    Pending,
    /// The threshold was reached: the vote set was cleared, and the host
    /// must now perform the operation's effect.
    Executed(OperationExecutedEvent),
}

/// The call reported that the threshold was reached.
pub open spec fn is_executed(r: Result<Outcome, Error>) -> bool {
    r matches Ok(Outcome::Executed(_))
}

/// The multisignature wallet engine.  A host that must undo a call whose
/// side effect failed clones the engine before the call and restores the
/// clone, so the vote-set clear and the effect stand or fall together.
#[derive(Clone, Debug)]
pub struct DaoWallet {
    /// The member registry; the badge with id `i` sits at index `i - 1`.
    pub members: Vec<Member>,
    /// How many distinct enabled members an operation needs; always at
    /// least two, so no single member decides alone.
    pub min_cosigners: usize,
    /// The operation ledger.  Keys are never removed, only their vote set
    /// reset, so a later round of the same operation reuses the entry.
    pub operations: Vec<(Operation, Cosigners)>,
    /// The id the next minted member badge will get; always one past the
    /// registry length.
    pub next_badge_id: u64,
    /// Whether the wallet still holds its treasury account badge; cleared
    /// when the badge is transferred away.
    pub account_badge_present: bool,
}

impl DaoWallet {
    /// Number of ledger entries.
    pub open spec fn n_ops(self) -> int {
        self.operations@.len() as int
    }

    /// The operation key of ledger entry `i`.
    pub open spec fn op_at(self, i: int) -> OpView {
        self.operations@[i].0@
    }

    /// The active vote set of ledger entry `i`.
    pub open spec fn votes_at(self, i: int) -> Seq<Cosigner> {
        self.operations@[i].1@
    }

    /// Some ledger entry has the key `key`.
    pub open spec fn has_op(self, key: OpView) -> bool {
        exists|i: int| 0 <= i < self.n_ops() && self.op_at(i) == key
    }

    /// The index of the ledger entry with key `key`; meaningful only when
    /// `has_op` holds, and then unique because keys are distinct.
    pub open spec fn op_index(self, key: OpView) -> int {
        choose|i: int| 0 <= i < self.n_ops() && self.op_at(i) == key
    }

    /// Well-formedness: the threshold admits no single decider, the next
    /// badge id tracks the registry, ledger keys are distinct, and no
    /// badge id appears twice in one vote set.
    pub open spec fn wf(self) -> bool {
        &&& self.min_cosigners >= 2
        &&& self.next_badge_id == self.members@.len() + 1
        &&& self.members@.len() + 1 <= u64::MAX
        &&& forall|i: int, j: int|
            0 <= i < j < self.n_ops() ==> self.op_at(i) != self.op_at(j)
        &&& forall|i: int| 0 <= i < self.n_ops() ==> distinct_voters(#[trigger] self.votes_at(i))
    }

    /// Every ledger entry's vote set is strictly below the threshold.
    pub open spec fn all_below_threshold(self) -> bool {
        forall|i: int|
            0 <= i < self.n_ops() ==> (#[trigger] self.votes_at(i)).len() < self.min_cosigners
    }
}

/// In a wallet with distinct keys, looking up the key of entry `k` finds
/// exactly `k`.
pub proof fn lemma_op_index_unique(w: DaoWallet, k: int)
    requires
        forall|i: int, j: int| 0 <= i < j < w.n_ops() ==> w.op_at(i) != w.op_at(j),
        0 <= k < w.n_ops(),
    ensures
        w.has_op(w.op_at(k)),
        w.op_index(w.op_at(k)) == k,
{
    assert(w.has_op(w.op_at(k)));
    let i = w.op_index(w.op_at(k));
    if i != k {
        if i < k {
            assert(w.op_at(i) != w.op_at(k));
        } else {
            assert(w.op_at(k) != w.op_at(i));
        }
        assert(false);
    }
}

/// What one cosign call does to the operation ledger, and what it
/// reports.  `pre` and `post` are the engine before and after, `op` the
/// operation key, `c` the caller's vote.  Exactly one of four things
/// happens: the key is fresh and a proposal opens with `c` as sole vote;
/// the caller already has an active (post-purge) vote and the call is
/// rejected with nothing changed; the purged set plus `c` stays below the
/// threshold and is stored; or it reaches the threshold, the stored set
/// is cleared, and the full list is reported for audit.
pub open spec fn cosign_transition(
    pre: DaoWallet,
    post: DaoWallet,
    op: OpView,
    c: Cosigner,
    r: Result<Outcome, Error>,
) -> bool {
    if !pre.has_op(op) {
        &&& r matches Ok(Outcome::Opened(ev)) && new_event_matches(ev, op, c.badge_id)
        &&& post.n_ops() == pre.n_ops() + 1
        &&& forall|i: int|
            0 <= i < pre.n_ops() ==> #[trigger] post.op_at(i) == pre.op_at(i) && post.votes_at(i)
                == pre.votes_at(i)
        &&& post.op_at(pre.n_ops()) == op
        &&& post.votes_at(pre.n_ops()) == seq![c]
    } else {
        let k = pre.op_index(op);
        let purged = purge(pre.votes_at(k), pre.members@);
        if has_voter(purged, c.badge_id) {
            &&& r == Err::<Outcome, Error>(Error::DuplicateVote)
            &&& post == pre
        } else {
            let grown = purged.push(c);
            &&& post.n_ops() == pre.n_ops()
            &&& forall|i: int| 0 <= i < pre.n_ops() ==> #[trigger] post.op_at(i) == pre.op_at(i)
            &&& forall|i: int|
                0 <= i < pre.n_ops() && i != k ==> #[trigger] post.votes_at(i) == pre.votes_at(i)
            &&& if grown.len() >= pre.min_cosigners {
                &&& r matches Ok(Outcome::Executed(ev)) && executed_event_matches(ev, op, grown)
                &&& post.votes_at(k) == Seq::<Cosigner>::empty()
            } else {
                &&& r matches Ok(o) && o is Pending
                &&& post.votes_at(k) == grown
            }
        }
    }
}

/// The key a mint-badge proposal gets from its parameters.
pub open spec fn mint_badge_op(description: Seq<char>, recipient: u64) -> OpView {
    OpView {
        description: trimmed(description),
        operation_type: OperationType::MintBadge,
        resource: None,
        amount: None,
        non_fungible_ids: None,
        recipient: Some(recipient),
        component: None,
        validator: None,
    }
}

/// The key a disable-badge proposal gets from its parameters.
pub open spec fn disable_badge_op(description: Seq<char>, target: u64) -> OpView {
    OpView {
        description: trimmed(description),
        operation_type: OperationType::DisableBadge,
        resource: None,
        amount: None,
        non_fungible_ids: Some(seq![target]),
        recipient: None,
        component: None,
        validator: None,
    }
}

/// The key an enable-badge proposal gets from its parameters.
pub open spec fn enable_badge_op(description: Seq<char>, target: u64) -> OpView {
    OpView {
        description: trimmed(description),
        operation_type: OperationType::EnableBadge,
        resource: None,
        amount: None,
        non_fungible_ids: Some(seq![target]),
        recipient: None,
        component: None,
        validator: None,
    }
}

/// The key a threshold-increase proposal gets from its label.
pub open spec fn increase_min_cosigners_op(description: Seq<char>) -> OpView {
    OpView {
        description: trimmed(description),
        operation_type: OperationType::IncreaseMinCosigners,
        resource: None,
        amount: None,
        non_fungible_ids: None,
        recipient: None,
        component: None,
        validator: None,
    }
}

/// The key a threshold-decrease proposal gets from its label.
pub open spec fn decrease_min_cosigners_op(description: Seq<char>) -> OpView {
    OpView {
        description: trimmed(description),
        operation_type: OperationType::DecreaseMinCosigners,
        resource: None,
        amount: None,
        non_fungible_ids: None,
        recipient: None,
        component: None,
        validator: None,
    }
}

/// The key a fungible-transfer proposal gets from its parameters.
pub open spec fn send_fungibles_op(
    description: Seq<char>,
    resource: u64,
    amount: i128,
    recipient: u64,
) -> OpView {
    OpView {
        description: trimmed(description),
        operation_type: OperationType::SendFungibles,
        resource: Some(resource),
        amount: Some(amount),
        non_fungible_ids: None,
        recipient: Some(recipient),
        component: None,
        validator: None,
    }
}

/// The key a non-fungible-transfer proposal gets from its parameters.
pub open spec fn send_non_fungibles_op(
    description: Seq<char>,
    resource: u64,
    ids: Seq<u64>,
    recipient: u64,
) -> OpView {
    OpView {
        description: trimmed(description),
        operation_type: OperationType::SendNonFungibles,
        resource: Some(resource),
        amount: None,
        non_fungible_ids: Some(ids),
        recipient: Some(recipient),
        component: None,
        validator: None,
    }
}

/// The key an account-badge-transfer proposal gets from its parameters.
pub open spec fn transfer_account_badge_op(description: Seq<char>, component: u64) -> OpView {
    OpView {
        description: trimmed(description),
        operation_type: OperationType::TransferAccountBadge,
        resource: None,
        amount: None,
        non_fungible_ids: None,
        recipient: None,
        component: Some(component),
        validator: None,
    }
}

/// The key a stake proposal gets from its parameters.
pub open spec fn stake_op(description: Seq<char>, amount: i128, validator: u64) -> OpView {
    OpView {
        description: trimmed(description),
        operation_type: OperationType::Stake,
        resource: None,
        amount: Some(amount),
        non_fungible_ids: None,
        recipient: None,
        component: None,
        validator: Some(validator),
    }
}

/// The key an unstake proposal gets from its parameters.
pub open spec fn unstake_op(description: Seq<char>, amount: i128, validator: u64) -> OpView {
    OpView {
        description: trimmed(description),
        operation_type: OperationType::Unstake,
        resource: None,
        amount: Some(amount),
        non_fungible_ids: None,
        recipient: None,
        component: None,
        validator: Some(validator),
    }
}

/// The key a claim proposal gets from its parameters.
pub open spec fn claim_unstaked_xrd_op(
    description: Seq<char>,
    ids: Seq<u64>,
    validator: u64,
) -> OpView {
    OpView {
        description: trimmed(description),
        operation_type: OperationType::ClaimUnstakedXrd,
        resource: None,
        amount: None,
        non_fungible_ids: Some(ids),
        recipient: None,
        component: None,
        validator: Some(validator),
    }
}

/// The view of an optional borrowed id list.
pub open spec fn opt_ids_view(ids: Option<&Vec<u64>>) -> Option<Seq<u64>> {
    match ids {
        Some(v) => Some(v@),
        None => None,
    }
}

/// The withdrawal the host asked for can be performed: the account badge
/// is still here, and the requested assets are well-formed and available.
/// `balance` is the treasury's holding of the fungible resource and
/// `owned_ids` the non-fungibles it holds, both read by the host.
pub open spec fn availability_ok(
    badge_present: bool,
    resource_fungible: bool,
    amount: Option<i128>,
    non_fungible_ids: Option<Seq<u64>>,
    balance: i128,
    owned_ids: Seq<u64>,
) -> bool {
    &&& badge_present
    &&& if resource_fungible {
        &&& match amount {
            Some(a) => a > 0 && balance >= a,
            None => false,
        }
        &&& non_fungible_ids is None
    } else {
        &&& match non_fungible_ids {
            Some(ids) => ids.len() > 0 && (forall|i: int|
                0 <= i < ids.len() ==> owned_ids.contains(#[trigger] ids[i])),
            None => false,
        }
        &&& amount is None
    }
}

/// Whether `owned` holds `id`.
fn contains_id(owned: &Vec<u64>, id: u64) -> (r: bool)
    ensures
        r == owned@.contains(id),
{
    let n = owned.len();
    let mut i: usize = 0;
    while i < n
        invariant
            0 <= i <= n,
            n == owned@.len(),
            forall|j: int| 0 <= j < i ==> owned@[j] != id,
        decreases n - i,
    {
        if owned[i] == id {
            return true;
        }
        i = i + 1;
    }
    false
}

/// A cosign transition can only keep vote sets below the threshold, as
/// long as the threshold does not shrink: a fresh proposal has one vote, a
/// pending set stayed below by definition, and an executed set was
/// cleared.
pub proof fn lemma_transition_preserves_below(
    pre: DaoWallet,
    post: DaoWallet,
    op: OpView,
    c: Cosigner,
    r: Result<Outcome, Error>,
)
    requires
        pre.wf(),
        cosign_transition(pre, post, op, c, r),
        pre.all_below_threshold(),
        post.min_cosigners >= pre.min_cosigners,
    ensures
        post.all_below_threshold(),
{
    if !pre.has_op(op) {
        assert forall|i: int| 0 <= i < post.n_ops() implies (#[trigger] post.votes_at(i)).len()
            < post.min_cosigners by {
            if i < pre.n_ops() {
                assert(post.op_at(i) == pre.op_at(i) && post.votes_at(i) == pre.votes_at(i));
                assert(pre.votes_at(i).len() < pre.min_cosigners);
            } else {
                assert(post.votes_at(i) == seq![c]);
            }
        }
    } else {
        let k = pre.op_index(op);
        let purged = purge(pre.votes_at(k), pre.members@);
        if has_voter(purged, c.badge_id) {
            assert forall|i: int| 0 <= i < post.n_ops() implies (#[trigger] post.votes_at(i)).len()
                < post.min_cosigners by {
                assert(pre.votes_at(i).len() < pre.min_cosigners);
            }
        } else {
            assert forall|i: int| 0 <= i < post.n_ops() implies (#[trigger] post.votes_at(i)).len()
                < post.min_cosigners by {
                if i != k {
                    assert(pre.votes_at(i).len() < pre.min_cosigners);
                }
            }
        }
    }
}

/// Two wallets with the same operations vector agree on the whole ledger.
pub proof fn lemma_same_ledger(a: DaoWallet, b: DaoWallet)
    requires
        a.operations == b.operations,
    ensures
        a.n_ops() == b.n_ops(),
        forall|i: int| 0 <= i < a.n_ops() ==> #[trigger] a.op_at(i) == b.op_at(i),
        forall|i: int| 0 <= i < a.n_ops() ==> #[trigger] a.votes_at(i) == b.votes_at(i),
{
}

/// No badge id appears twice in any operation's active vote set of a
/// well-formed wallet.
pub proof fn lemma_no_duplicate_votes(w: DaoWallet, i: int)
    requires
        w.wf(),
        0 <= i < w.n_ops(),
    ensures
        distinct_voters(w.votes_at(i)),
{
}

/// After a cosign call on an operation whose entry existed, a disabled
/// member's vote is gone from that entry's stored set: the purge removed
/// it, and whether the call ended pending or executed, what is stored
/// holds no vote of a disabled badge.  Entries the call did not touch
/// keep their sets verbatim, so the removal happens on the next touch
/// and not before.
pub proof fn lemma_disabled_vote_gone_after_cosign(
    pre: DaoWallet,
    post: DaoWallet,
    op: OpView,
    c: Cosigner,
    r: Result<Outcome, Error>,
    v: u64,
)
    requires
        pre.wf(),
        cosign_transition(pre, post, op, c, r),
        r is Ok,
        pre.has_op(op),
        !badge_enabled(pre.members@, v),
        badge_enabled(pre.members@, c.badge_id),
    ensures
        !has_voter(post.votes_at(pre.op_index(op)), v),
{
    let k = pre.op_index(op);
    crate::cosigner::lemma_disabled_vote_purged_on_next_cosign(
        pre.votes_at(k),
        pre.members@,
        v,
        c,
    );
}

/// Raising the threshold and then lowering it restores the original
/// policy: after the round trip a proposal reaches execution with
/// exactly as many cosigners as before it.
pub proof fn lemma_threshold_round_trip(w0: DaoWallet, w1: DaoWallet, w2: DaoWallet)
    requires
        w1.min_cosigners == w0.min_cosigners + 1,
        w2.min_cosigners == w1.min_cosigners - 1,
    ensures
        w2.min_cosigners == w0.min_cosigners,
{
}

/// What `mint_member_badge` does, for each class of input.
pub open spec fn mint_member_badge_post(
    pre: DaoWallet,
    post: DaoWallet,
    badge_id: u64,
    description: Seq<char>,
    recipient: u64,
    transaction_hash: u64,
    now: u64,
    r: Result<Outcome, Error>,
) -> bool {
    if !badge_enabled(pre.members@, badge_id) {
        &&& r == Err::<Outcome, Error>(Error::InvalidVoter)
        &&& post == pre
    } else {
        &&& cosign_transition(
            pre,
            post,
            mint_badge_op(description, recipient),
            (Cosigner { badge_id, transaction_hash }),
            r,
        )
        &&& post.min_cosigners == pre.min_cosigners
        &&& post.account_badge_present == pre.account_badge_present
        &&& if is_executed(r) {
            &&& post.members@ == pre.members@.push(
                Member { enabled: true, creation_date: now },
            )
            &&& post.next_badge_id == pre.next_badge_id + 1
        } else {
            &&& post.members@ == pre.members@
            &&& post.next_badge_id == pre.next_badge_id
        }
    }
}

/// What `disable_member_badge` does, for each class of input.
pub open spec fn disable_member_badge_post(
    pre: DaoWallet,
    post: DaoWallet,
    badge_id: u64,
    description: Seq<char>,
    non_fungible_id: u64,
    transaction_hash: u64,
    r: Result<Outcome, Error>,
) -> bool {
    let target_enabled = badge_enabled(pre.members@, non_fungible_id);
    let quorum_keeps = count_enabled(pre.members@) > pre.min_cosigners;
    let signer_ok = badge_enabled(pre.members@, badge_id);
    if !target_enabled || !quorum_keeps {
        &&& r == Err::<Outcome, Error>(Error::PolicyViolation)
        &&& post == pre
    } else if !signer_ok {
        &&& r == Err::<Outcome, Error>(Error::InvalidVoter)
        &&& post == pre
    } else {
        &&& cosign_transition(
            pre,
            post,
            disable_badge_op(description, non_fungible_id),
            (Cosigner { badge_id, transaction_hash }),
            r,
        )
        &&& post.min_cosigners == pre.min_cosigners
        &&& post.account_badge_present == pre.account_badge_present
        &&& post.next_badge_id == pre.next_badge_id
        &&& if is_executed(r) {
            post.members@ == pre.members@.update(
                non_fungible_id - 1,
                Member {
                    enabled: false,
                    creation_date: pre.members@[non_fungible_id - 1].creation_date,
                },
            )
        } else {
            post.members@ == pre.members@
        }
    }
}

/// What `enable_member_badge` does, for each class of input.
pub open spec fn enable_member_badge_post(
    pre: DaoWallet,
    post: DaoWallet,
    badge_id: u64,
    description: Seq<char>,
    non_fungible_id: u64,
    transaction_hash: u64,
    r: Result<Outcome, Error>,
) -> bool {
    let target_disabled = 1 <= non_fungible_id <= pre.members@.len() && !pre.members@[
        non_fungible_id - 1
    ].enabled;
    let signer_ok = badge_enabled(pre.members@, badge_id);
    if !target_disabled {
        &&& r == Err::<Outcome, Error>(Error::PolicyViolation)
        &&& post == pre
    } else if !signer_ok {
        &&& r == Err::<Outcome, Error>(Error::InvalidVoter)
        &&& post == pre
    } else {
        &&& cosign_transition(
            pre,
            post,
            enable_badge_op(description, non_fungible_id),
            (Cosigner { badge_id, transaction_hash }),
            r,
        )
        &&& post.min_cosigners == pre.min_cosigners
        &&& post.account_badge_present == pre.account_badge_present
        &&& post.next_badge_id == pre.next_badge_id
        &&& if is_executed(r) {
            post.members@ == pre.members@.update(
                non_fungible_id - 1,
                Member {
                    enabled: true,
                    creation_date: pre.members@[non_fungible_id - 1].creation_date,
                },
            )
        } else {
            post.members@ == pre.members@
        }
    }
}

/// What `increase_min_cosigners` does, for each class of input.
pub open spec fn increase_min_cosigners_post(
    pre: DaoWallet,
    post: DaoWallet,
    badge_id: u64,
    description: Seq<char>,
    transaction_hash: u64,
    r: Result<Outcome, Error>,
) -> bool {
    let quorum_ok = count_enabled(pre.members@) > pre.min_cosigners;
    let signer_ok = badge_enabled(pre.members@, badge_id);
    if !quorum_ok {
        &&& r == Err::<Outcome, Error>(Error::PolicyViolation)
        &&& post == pre
    } else if !signer_ok {
        &&& r == Err::<Outcome, Error>(Error::InvalidVoter)
        &&& post == pre
    } else {
        &&& cosign_transition(
            pre,
            post,
            increase_min_cosigners_op(description),
            (Cosigner { badge_id, transaction_hash }),
            r,
        )
        &&& post.members@ == pre.members@
        &&& post.next_badge_id == pre.next_badge_id
        &&& post.account_badge_present == pre.account_badge_present
        &&& if is_executed(r) {
            post.min_cosigners == pre.min_cosigners + 1
        } else {
            post.min_cosigners == pre.min_cosigners
        }
    }
}

/// What `decrease_min_cosigners` does, for each class of input.
pub open spec fn decrease_min_cosigners_post(
    pre: DaoWallet,
    post: DaoWallet,
    badge_id: u64,
    description: Seq<char>,
    transaction_hash: u64,
    r: Result<Outcome, Error>,
) -> bool {
    let policy_ok = pre.min_cosigners > 2;
    let signer_ok = badge_enabled(pre.members@, badge_id);
    if !policy_ok {
        &&& r == Err::<Outcome, Error>(Error::PolicyViolation)
        &&& post == pre
    } else if !signer_ok {
        &&& r == Err::<Outcome, Error>(Error::InvalidVoter)
        &&& post == pre
    } else {
        &&& cosign_transition(
            pre,
            post,
            decrease_min_cosigners_op(description),
            (Cosigner { badge_id, transaction_hash }),
            r,
        )
        &&& post.members@ == pre.members@
        &&& post.next_badge_id == pre.next_badge_id
        &&& post.account_badge_present == pre.account_badge_present
        &&& if is_executed(r) {
            post.min_cosigners == pre.min_cosigners - 1
        } else {
            post.min_cosigners == pre.min_cosigners
        }
    }
}

/// What `send_fungibles` does, for each class of input.
pub open spec fn send_fungibles_post(
    pre: DaoWallet,
    post: DaoWallet,
    badge_id: u64,
    description: Seq<char>,
    resource: u64,
    resource_fungible: bool,
    amount: i128,
    recipient: u64,
    balance: i128,
    transaction_hash: u64,
    r: Result<Outcome, Error>,
) -> bool {
    let avail = availability_ok(
        pre.account_badge_present,
        resource_fungible,
        Some(amount),
        Option::<Seq<u64>>::None,
        balance,
        Seq::<u64>::empty(),
    );
    let signer_ok = badge_enabled(pre.members@, badge_id);
    if !avail {
        &&& r == Err::<Outcome, Error>(Error::PolicyViolation)
        &&& post == pre
    } else if !signer_ok {
        &&& r == Err::<Outcome, Error>(Error::InvalidVoter)
        &&& post == pre
    } else {
        &&& cosign_transition(
            pre,
            post,
            send_fungibles_op(description, resource, amount, recipient),
            (Cosigner { badge_id, transaction_hash }),
            r,
        )
        &&& post.members@ == pre.members@
        &&& post.min_cosigners == pre.min_cosigners
        &&& post.next_badge_id == pre.next_badge_id
        &&& post.account_badge_present == pre.account_badge_present
    }
}

/// What `send_non_fungibles` does, for each class of input.
pub open spec fn send_non_fungibles_post(
    pre: DaoWallet,
    post: DaoWallet,
    badge_id: u64,
    description: Seq<char>,
    resource: u64,
    resource_fungible: bool,
    ids: Seq<u64>,
    recipient: u64,
    owned_ids: Seq<u64>,
    transaction_hash: u64,
    r: Result<Outcome, Error>,
) -> bool {
    let avail = availability_ok(
        pre.account_badge_present,
        resource_fungible,
        Option::<i128>::None,
        Some(ids),
        0,
        owned_ids,
    );
    let signer_ok = badge_enabled(pre.members@, badge_id);
    if !avail {
        &&& r == Err::<Outcome, Error>(Error::PolicyViolation)
        &&& post == pre
    } else if !signer_ok {
        &&& r == Err::<Outcome, Error>(Error::InvalidVoter)
        &&& post == pre
    } else {
        &&& cosign_transition(
            pre,
            post,
            send_non_fungibles_op(description, resource, ids, recipient),
            (Cosigner { badge_id, transaction_hash }),
            r,
        )
        &&& post.members@ == pre.members@
        &&& post.min_cosigners == pre.min_cosigners
        &&& post.next_badge_id == pre.next_badge_id
        &&& post.account_badge_present == pre.account_badge_present
    }
}

/// What `transfer_account_badge` does, for each class of input.
pub open spec fn transfer_account_badge_post(
    pre: DaoWallet,
    post: DaoWallet,
    badge_id: u64,
    description: Seq<char>,
    component: u64,
    transaction_hash: u64,
    r: Result<Outcome, Error>,
) -> bool {
    let signer_ok = badge_enabled(pre.members@, badge_id);
    if !pre.account_badge_present {
        &&& r == Err::<Outcome, Error>(Error::PolicyViolation)
        &&& post == pre
    } else if !signer_ok {
        &&& r == Err::<Outcome, Error>(Error::InvalidVoter)
        &&& post == pre
    } else {
        &&& cosign_transition(
            pre,
            post,
            transfer_account_badge_op(description, component),
            (Cosigner { badge_id, transaction_hash }),
            r,
        )
        &&& post.members@ == pre.members@
        &&& post.min_cosigners == pre.min_cosigners
        &&& post.next_badge_id == pre.next_badge_id
        &&& post.account_badge_present == !is_executed(r)
    }
}

/// What `stake` does, for each class of input.
pub open spec fn stake_post(
    pre: DaoWallet,
    post: DaoWallet,
    badge_id: u64,
    description: Seq<char>,
    amount: i128,
    validator: u64,
    validator_accepts_stake: bool,
    balance: i128,
    transaction_hash: u64,
    r: Result<Outcome, Error>,
) -> bool {
    let avail = availability_ok(
        pre.account_badge_present,
        true,
        Some(amount),
        Option::<Seq<u64>>::None,
        balance,
        Seq::<u64>::empty(),
    );
    let signer_ok = badge_enabled(pre.members@, badge_id);
    if !avail || !validator_accepts_stake {
        &&& r == Err::<Outcome, Error>(Error::PolicyViolation)
        &&& post == pre
    } else if !signer_ok {
        &&& r == Err::<Outcome, Error>(Error::InvalidVoter)
        &&& post == pre
    } else {
        &&& cosign_transition(
            pre,
            post,
            stake_op(description, amount, validator),
            (Cosigner { badge_id, transaction_hash }),
            r,
        )
        &&& post.members@ == pre.members@
        &&& post.min_cosigners == pre.min_cosigners
        &&& post.next_badge_id == pre.next_badge_id
        &&& post.account_badge_present == pre.account_badge_present
    }
}

/// What `unstake` does, for each class of input.
pub open spec fn unstake_post(
    pre: DaoWallet,
    post: DaoWallet,
    badge_id: u64,
    description: Seq<char>,
    amount: i128,
    validator: u64,
    lsu_balance: i128,
    transaction_hash: u64,
    r: Result<Outcome, Error>,
) -> bool {
    let avail = availability_ok(
        pre.account_badge_present,
        true,
        Some(amount),
        Option::<Seq<u64>>::None,
        lsu_balance,
        Seq::<u64>::empty(),
    );
    let signer_ok = badge_enabled(pre.members@, badge_id);
    if !avail {
        &&& r == Err::<Outcome, Error>(Error::PolicyViolation)
        &&& post == pre
    } else if !signer_ok {
        &&& r == Err::<Outcome, Error>(Error::InvalidVoter)
        &&& post == pre
    } else {
        &&& cosign_transition(
            pre,
            post,
            unstake_op(description, amount, validator),
            (Cosigner { badge_id, transaction_hash }),
            r,
        )
        &&& post.members@ == pre.members@
        &&& post.min_cosigners == pre.min_cosigners
        &&& post.next_badge_id == pre.next_badge_id
        &&& post.account_badge_present == pre.account_badge_present
    }
}

/// What `claim_unstaked_xrd` does, for each class of input.
pub open spec fn claim_unstaked_xrd_post(
    pre: DaoWallet,
    post: DaoWallet,
    badge_id: u64,
    description: Seq<char>,
    ids: Seq<u64>,
    validator: u64,
    owned_claim_ids: Seq<u64>,
    transaction_hash: u64,
    r: Result<Outcome, Error>,
) -> bool {
    let avail = availability_ok(
        pre.account_badge_present,
        false,
        Option::<i128>::None,
        Some(ids),
        0,
        owned_claim_ids,
    );
    let signer_ok = badge_enabled(pre.members@, badge_id);
    if !avail {
        &&& r == Err::<Outcome, Error>(Error::PolicyViolation)
        &&& post == pre
    } else if !signer_ok {
        &&& r == Err::<Outcome, Error>(Error::InvalidVoter)
        &&& post == pre
    } else {
        &&& cosign_transition(
            pre,
            post,
            claim_unstaked_xrd_op(description, ids, validator),
            (Cosigner { badge_id, transaction_hash }),
            r,
        )
        &&& post.members@ == pre.members@
        &&& post.min_cosigners == pre.min_cosigners
        &&& post.next_badge_id == pre.next_badge_id
        &&& post.account_badge_present == pre.account_badge_present
    }
}

/// What `remove_signature` does, for each class of input.  `op` is the
/// operation key built from the withdrawal's parameters.
pub open spec fn remove_signature_post(
    pre: DaoWallet,
    post: DaoWallet,
    badge_id: u64,
    op: OpView,
    r: Result<(), Error>,
) -> bool {
    let signer_ok = badge_enabled(pre.members@, badge_id);
    if !signer_ok {
        &&& r == Err::<(), Error>(Error::InvalidVoter)
        &&& post == pre
    } else if !pre.has_op(op) {
        &&& r == Err::<(), Error>(Error::OperationNotFound)
        &&& post == pre
    } else {
        let k = pre.op_index(op);
        if !has_voter(pre.votes_at(k), badge_id) {
            &&& r == Err::<(), Error>(Error::VoteNotFound)
            &&& post == pre
        } else {
            &&& r == Ok::<(), Error>(())
            &&& post.n_ops() == pre.n_ops()
            &&& forall|i: int| 0 <= i < pre.n_ops() ==> #[trigger] post.op_at(i) == pre.op_at(i)
            &&& forall|i: int|
                0 <= i < pre.n_ops() && i != k ==> #[trigger] post.votes_at(i) == pre.votes_at(i)
            &&& post.votes_at(k) == removed_at(
                pre.votes_at(k),
                voter_index(pre.votes_at(k), badge_id),
            )
            &&& post.members@ == pre.members@
            &&& post.min_cosigners == pre.min_cosigners
            &&& post.next_badge_id == pre.next_badge_id
            &&& post.account_badge_present == pre.account_badge_present
        }
    }
}

/// Find the ledger entry whose key equals `operation`, by structural
/// equality over every field.
fn find_operation(operations: &Vec<(Operation, Cosigners)>, operation: &Operation) -> (r: Option<
    usize,
>)
    ensures
        match r {
            Some(i) => i < operations@.len() && operations@[i as int].0@ == operation@,
            None => forall|i: int| 0 <= i < operations@.len() ==> operations@[i].0@ != operation@,
        },
{
    let n = operations.len();
    let mut i: usize = 0;
    while i < n
        invariant
            0 <= i <= n,
            n == operations@.len(),
            forall|j: int| 0 <= j < i ==> operations@[j].0@ != operation@,
        decreases n - i,
    {
        if operations[i].0 == *operation {
            return Some(i);
        }
        i = i + 1;
    }
    None
}

impl DaoWallet {
    /// Instantiate a wallet for `n_members` members, each holding one
    /// enabled badge with ids running from 1, requiring `min_cosigners`
    /// signatures per operation.  Rejected unless at least two cosigners
    /// are required and the members can supply them.
    pub fn new(n_members: usize, min_cosigners: usize, now: u64) -> (r: Result<DaoWallet, Error>)
        requires
            n_members + 1 <= u64::MAX,
        ensures
            match r {
                Ok(w) => {
                    &&& min_cosigners > 1
                    &&& min_cosigners <= n_members
                    &&& w.wf()
                    &&& w.min_cosigners == min_cosigners
                    &&& w.members@.len() == n_members
                    &&& forall|i: int|
                        0 <= i < n_members ==> w.members@[i] == (Member {
                            enabled: true,
                            creation_date: now,
                        })
                    &&& w.n_ops() == 0
                    &&& w.next_badge_id == n_members + 1
                    &&& w.account_badge_present
                },
                Err(e) => {
                    &&& e == Error::PolicyViolation
                    &&& min_cosigners <= 1 || min_cosigners > n_members
                },
            },
    {
        if min_cosigners <= 1 {
            return Err(Error::PolicyViolation);
        }
        if min_cosigners > n_members {
            return Err(Error::PolicyViolation);
        }
        let mut members: Vec<Member> = Vec::new();
        let mut i: usize = 0;
        while i < n_members
            invariant
                0 <= i <= n_members,
                members@.len() == i,
                forall|j: int|
                    0 <= j < i ==> members@[j] == (Member { enabled: true, creation_date: now }),
            decreases n_members - i,
        {
            members.push(Member::new(now));
            i = i + 1;
        }
        Ok(
            DaoWallet {
                members,
                min_cosigners,
                operations: Vec::new(),
                next_badge_id: n_members as u64 + 1,
                account_badge_present: true,
            },
        )
    }

    /// Validate the resolved badge id of a caller: it must name an
    /// existing, enabled member badge.
    fn get_badge_id(&self, badge_id: u64) -> (r: Result<u64, Error>)
        ensures
            badge_enabled(self.members@, badge_id) ==> r == Ok::<u64, Error>(badge_id),
            !badge_enabled(self.members@, badge_id) ==> r == Err::<u64, Error>(Error::InvalidVoter),
    {
        if Member::is_badge_enabled(badge_id, &self.members) {
            Ok(badge_id)
        } else {
            Err(Error::InvalidVoter)
        }
    }

    /// Record `cosigner`'s vote on `operation`: open a fresh proposal if
    /// the operation was never seen, otherwise purge votes of
    /// since-disabled members, reject a duplicate, and fire when the
    /// threshold is reached.  The caller's badge must have been validated
    /// first; the registry and policy are never touched here.
    pub fn add_cosigner(&mut self, operation: Operation, cosigner: Cosigner) -> (r: Result<
        Outcome,
        Error,
    >)
        requires
            old(self).wf(),
        ensures
            final(self).wf(),
            cosign_transition(*old(self), *final(self), operation@, cosigner, r),
            final(self).members@ == old(self).members@,
            final(self).min_cosigners == old(self).min_cosigners,
            final(self).next_badge_id == old(self).next_badge_id,
            final(self).account_badge_present == old(self).account_badge_present,
            r is Ok ==> final(self).has_op(operation@) && final(self).votes_at(
                final(self).op_index(operation@),
            ).len() < final(self).min_cosigners,
            r is Err ==> *final(self) == *old(self),
    {
        let ghost pre = *self;
        match find_operation(&self.operations, &operation) {
            None => {
                let ev = operation.emit_new_event(cosigner.badge_id);
                let mut votes: Cosigners = Vec::new();
                votes.push(cosigner);
                proof {
                    assert(votes@ =~= seq![cosigner]);
                }
                self.operations.push((operation, votes));
                proof {
                    let n = pre.n_ops();
                    assert(self.op_at(n) == operation@);
                    assert forall|i: int| 0 <= i < n implies #[trigger] self.op_at(i) == pre.op_at(
                        i,
                    ) && self.votes_at(i) == pre.votes_at(i) by {
                        assert(self.operations@[i] == pre.operations@[i]);
                    }
                    assert forall|i: int, j: int| 0 <= i < j < self.n_ops() implies self.op_at(i)
                        != self.op_at(j) by {
                        if j < n {
                            assert(pre.op_at(i) != pre.op_at(j));
                        } else {
                            assert(pre.operations@[i].0@ != operation@);
                        }
                    }
                    assert forall|i: int| 0 <= i < self.n_ops() implies distinct_voters(
                        #[trigger] self.votes_at(i),
                    ) by {
                        if i < n {
                            assert(self.votes_at(i) == pre.votes_at(i));
                        } else {
                            assert(self.votes_at(i) == seq![cosigner]);
                        }
                    }
                    lemma_op_index_unique(*self, n);
                }
                Ok(Outcome::Opened(ev))
            },
            Some(k) => {
                proof {
                    lemma_op_index_unique(pre, k as int);
                }
                let purged = retain_enabled(&self.operations[k].1, &self.members);
                match find_voter(&purged, cosigner.badge_id) {
                    Some(_) => Err(Error::DuplicateVote),
                    None => {
                        proof {
                            lemma_purge_distinct(pre.votes_at(k as int), pre.members@);
                            lemma_distinct_push(purged@, cosigner);
                        }
                        let mut grown = purged;
                        grown.push(cosigner);
                        if grown.len() >= self.min_cosigners {
                            let ev = self.operations[k].0.emit_executed_event(grown);
                            let entry = &mut self.operations[k];
                            entry.1 = Vec::new();
                            proof {
                                assert forall|i: int| 0 <= i < pre.n_ops() implies #[trigger] self.op_at(
                                    i,
                                ) == pre.op_at(i) by {
                                    if i != k {
                                        assert(self.operations@[i] == pre.operations@[i]);
                                    }
                                }
                                assert forall|i: int|
                                    0 <= i < pre.n_ops() && i != k implies #[trigger] self.votes_at(
                                    i,
                                ) == pre.votes_at(i) by {
                                    assert(self.operations@[i] == pre.operations@[i]);
                                }
                                assert(self.votes_at(k as int) =~= Seq::<Cosigner>::empty());
                                lemma_op_index_unique(*self, k as int);
                            }
                            Ok(Outcome::Executed(ev))
                        } else {
                            let entry = &mut self.operations[k];
                            entry.1 = grown;
                            proof {
                                assert forall|i: int| 0 <= i < pre.n_ops() implies #[trigger] self.op_at(
                                    i,
                                ) == pre.op_at(i) by {
                                    if i != k {
                                        assert(self.operations@[i] == pre.operations@[i]);
                                    }
                                }
                                assert forall|i: int|
                                    0 <= i < pre.n_ops() && i != k implies #[trigger] self.votes_at(
                                    i,
                                ) == pre.votes_at(i) by {
                                    assert(self.operations@[i] == pre.operations@[i]);
                                }
                                assert(self.votes_at(k as int) == purge(
                                    pre.votes_at(k as int),
                                    pre.members@,
                                ).push(cosigner));
                                lemma_op_index_unique(*self, k as int);
                            }
                            Ok(Outcome::Pending)
                        }
                    },
                }
            },
        }
    }

    /// Check that a withdrawal can be performed, per `availability_ok`.
    fn check_availability(
        &self,
        resource_fungible: bool,
        amount: Option<i128>,
        non_fungible_ids: Option<&Vec<u64>>,
        balance: i128,
        owned_ids: &Vec<u64>,
    ) -> (r: Result<(), Error>)
        ensures
            r == if availability_ok(
                self.account_badge_present,
                resource_fungible,
                amount,
                opt_ids_view(non_fungible_ids),
                balance,
                owned_ids@,
            ) {
                Ok::<(), Error>(())
            } else {
                Err::<(), Error>(Error::PolicyViolation)
            },
    {
        if !self.account_badge_present {
            return Err(Error::PolicyViolation);
        }
        if resource_fungible {
            match amount {
                None => Err(Error::PolicyViolation),
                Some(a) => {
                    if !(a > 0) {
                        return Err(Error::PolicyViolation);
                    }
                    if !(balance >= a) {
                        return Err(Error::PolicyViolation);
                    }
                    if non_fungible_ids.is_some() {
                        return Err(Error::PolicyViolation);
                    }
                    Ok(())
                },
            }
        } else {
            match non_fungible_ids {
                None => Err(Error::PolicyViolation),
                Some(ids) => {
                    let n = ids.len();
                    if n == 0 {
                        return Err(Error::PolicyViolation);
                    }
                    let mut i: usize = 0;
                    while i < n
                        invariant
                            0 <= i <= n,
                            n == ids@.len(),
                            !resource_fungible,
                            opt_ids_view(non_fungible_ids) == Some(ids@),
                            forall|j: int| 0 <= j < i ==> owned_ids@.contains(#[trigger] ids@[j]),
                        decreases n - i,
                    {
                        if !contains_id(owned_ids, ids[i]) {
                            proof {
                                let wi = i as int;
                                if availability_ok(
                                    self.account_badge_present,
                                    resource_fungible,
                                    amount,
                                    opt_ids_view(non_fungible_ids),
                                    balance,
                                    owned_ids@,
                                ) {
                                    assert(owned_ids@.contains(ids@[wi]));
                                }
                            }
                            return Err(Error::PolicyViolation);
                        }
                        i = i + 1;
                    }
                    if amount.is_some() {
                        return Err(Error::PolicyViolation);
                    }
                    Ok(())
                },
            }
        }
    }

    /// Propose or cosign minting a fresh member badge for `recipient`.
    /// When the threshold is reached the registry grows by one enabled
    /// record dated `now`, and the host must mint the badge with id
    /// `next_badge_id` as of the call and deposit it with the recipient.
    pub fn mint_member_badge(
        &mut self,
        badge_id: u64,
        description: String,
        recipient: u64,
        transaction_hash: u64,
        now: u64,
    ) -> (r: Result<Outcome, Error>)
        requires
            old(self).wf(),
            old(self).members@.len() + 2 <= u64::MAX,
        ensures
            final(self).wf(),
            mint_member_badge_post(
                *old(self),
                *final(self),
                badge_id,
                description@,
                recipient,
                transaction_hash,
                now,
                r,
            ),
            old(self).all_below_threshold() ==> final(self).all_below_threshold(),
    {
        let ghost pre = *self;
        let checked_id = match self.get_badge_id(badge_id) {
            Ok(id) => id,
            Err(e) => {
                return Err(e);
            },
        };
        let operation = Operation::new(
            description,
            OperationType::MintBadge,
            None,
            None,
            None,
            Some(recipient),
            None,
            None,
        );
        proof {
            assert(operation@ =~= mint_badge_op(description@, recipient));
        }
        let outcome = match self.add_cosigner(operation, Cosigner::new(checked_id, transaction_hash)) {
            Ok(o) => o,
            Err(e) => {
                return Err(e);
            },
        };
        let ghost mid = *self;
        match &outcome {
            Outcome::Executed(_) => {
                self.members.push(Member::new(now));
                self.next_badge_id = self.next_badge_id + 1;
            },
            _ => {},
        }
        proof {
            lemma_same_ledger(*self, mid);
            if pre.all_below_threshold() {
                lemma_transition_preserves_below(
                    pre,
                    *self,
                    mint_badge_op(description@, recipient),
                    (Cosigner { badge_id, transaction_hash }),
                    Ok(outcome),
                );
            }
        }
        Ok(outcome)
    }

    /// Propose or cosign disabling the member badge `non_fungible_id`.
    /// Allowed only while the target is enabled and enough enabled members
    /// would remain to sign further operations.  When the threshold is
    /// reached the target's registry record is disabled; its already-cast
    /// votes on other operations disappear on their next access, not here.
    pub fn disable_member_badge(
        &mut self,
        badge_id: u64,
        description: String,
        non_fungible_id: u64,
        transaction_hash: u64,
    ) -> (r: Result<Outcome, Error>)
        requires
            old(self).wf(),
        ensures
            final(self).wf(),
            disable_member_badge_post(
                *old(self),
                *final(self),
                badge_id,
                description@,
                non_fungible_id,
                transaction_hash,
                r,
            ),
            old(self).all_below_threshold() ==> final(self).all_below_threshold(),
    {
        let ghost pre = *self;
        if !Member::is_badge_enabled(non_fungible_id, &self.members) {
            return Err(Error::PolicyViolation);
        }
        let enabled_members = Member::count_enabled_members(&self.members);
        if enabled_members <= self.min_cosigners {
            return Err(Error::PolicyViolation);
        }
        let checked_id = match self.get_badge_id(badge_id) {
            Ok(id) => id,
            Err(e) => {
                return Err(e);
            },
        };
        let mut ids: Vec<u64> = Vec::new();
        ids.push(non_fungible_id);
        proof {
            assert(ids.deep_view() =~= seq![non_fungible_id]);
        }
        let operation = Operation::new(
            description,
            OperationType::DisableBadge,
            None,
            None,
            Some(ids),
            None,
            None,
            None,
        );
        proof {
            assert(operation@ =~= disable_badge_op(description@, non_fungible_id));
        }
        let outcome = match self.add_cosigner(operation, Cosigner::new(checked_id, transaction_hash)) {
            Ok(o) => o,
            Err(e) => {
                return Err(e);
            },
        };
        let ghost mid = *self;
        match &outcome {
            Outcome::Executed(_) => {
                Member::enable(non_fungible_id, false, &mut self.members);
            },
            _ => {},
        }
        proof {
            lemma_same_ledger(*self, mid);
            if pre.all_below_threshold() {
                lemma_transition_preserves_below(
                    pre,
                    *self,
                    disable_badge_op(description@, non_fungible_id),
                    (Cosigner { badge_id, transaction_hash }),
                    Ok(outcome),
                );
            }
        }
        Ok(outcome)
    }

    /// Propose or cosign re-enabling the disabled member badge
    /// `non_fungible_id`.  Allowed only while the target exists and is
    /// disabled.  When the threshold is reached the target's registry
    /// record is enabled again.
    pub fn enable_member_badge(
        &mut self,
        badge_id: u64,
        description: String,
        non_fungible_id: u64,
        transaction_hash: u64,
    ) -> (r: Result<Outcome, Error>)
        requires
            old(self).wf(),
        ensures
            final(self).wf(),
            enable_member_badge_post(
                *old(self),
                *final(self),
                badge_id,
                description@,
                non_fungible_id,
                transaction_hash,
                r,
            ),
            old(self).all_below_threshold() ==> final(self).all_below_threshold(),
    {
        let ghost pre = *self;
        if non_fungible_id < 1 || non_fungible_id > self.members.len() as u64 {
            return Err(Error::PolicyViolation);
        }
        if Member::is_badge_enabled(non_fungible_id, &self.members) {
            return Err(Error::PolicyViolation);
        }
        let checked_id = match self.get_badge_id(badge_id) {
            Ok(id) => id,
            Err(e) => {
                return Err(e);
            },
        };
        let mut ids: Vec<u64> = Vec::new();
        ids.push(non_fungible_id);
        proof {
            assert(ids.deep_view() =~= seq![non_fungible_id]);
        }
        let operation = Operation::new(
            description,
            OperationType::EnableBadge,
            None,
            None,
            Some(ids),
            None,
            None,
            None,
        );
        proof {
            assert(operation@ =~= enable_badge_op(description@, non_fungible_id));
        }
        let outcome = match self.add_cosigner(operation, Cosigner::new(checked_id, transaction_hash)) {
            Ok(o) => o,
            Err(e) => {
                return Err(e);
            },
        };
        let ghost mid = *self;
        match &outcome {
            Outcome::Executed(_) => {
                Member::enable(non_fungible_id, true, &mut self.members);
            },
            _ => {},
        }
        proof {
            lemma_same_ledger(*self, mid);
            if pre.all_below_threshold() {
                lemma_transition_preserves_below(
                    pre,
                    *self,
                    enable_badge_op(description@, non_fungible_id),
                    (Cosigner { badge_id, transaction_hash }),
                    Ok(outcome),
                );
            }
        }
        Ok(outcome)
    }

    /// Propose or cosign raising the threshold by one.  Allowed only
    /// while more enabled members exist than the current threshold, so
    /// that the raised threshold stays satisfiable.
    pub fn increase_min_cosigners(
        &mut self,
        badge_id: u64,
        description: String,
        transaction_hash: u64,
    ) -> (r: Result<Outcome, Error>)
        requires
            old(self).wf(),
        ensures
            final(self).wf(),
            increase_min_cosigners_post(
                *old(self),
                *final(self),
                badge_id,
                description@,
                transaction_hash,
                r,
            ),
            old(self).all_below_threshold() ==> final(self).all_below_threshold(),
    {
        let ghost pre = *self;
        let enabled_members = Member::count_enabled_members(&self.members);
        if enabled_members <= self.min_cosigners {
            return Err(Error::PolicyViolation);
        }
        let checked_id = match self.get_badge_id(badge_id) {
            Ok(id) => id,
            Err(e) => {
                return Err(e);
            },
        };
        let operation = Operation::new(
            description,
            OperationType::IncreaseMinCosigners,
            None,
            None,
            None,
            None,
            None,
            None,
        );
        proof {
            assert(operation@ =~= increase_min_cosigners_op(description@));
        }
        let outcome = match self.add_cosigner(operation, Cosigner::new(checked_id, transaction_hash)) {
            Ok(o) => o,
            Err(e) => {
                return Err(e);
            },
        };
        let ghost mid = *self;
        match &outcome {
            Outcome::Executed(_) => {
                self.min_cosigners = self.min_cosigners + 1;
            },
            _ => {},
        }
        proof {
            lemma_same_ledger(*self, mid);
            if pre.all_below_threshold() {
                lemma_transition_preserves_below(
                    pre,
                    *self,
                    increase_min_cosigners_op(description@),
                    (Cosigner { badge_id, transaction_hash }),
                    Ok(outcome),
                );
            }
        }
        Ok(outcome)
    }

    /// Propose or cosign lowering the threshold by one.  Allowed only
    /// while the current threshold is above two: a one-of-N wallet would
    /// be no consensus at all.  After the change, a vote set recorded
    /// under the old threshold may sit at exactly the new threshold until
    /// the next cosign call touches it.
    pub fn decrease_min_cosigners(
        &mut self,
        badge_id: u64,
        description: String,
        transaction_hash: u64,
    ) -> (r: Result<Outcome, Error>)
        requires
            old(self).wf(),
        ensures
            final(self).wf(),
            decrease_min_cosigners_post(
                *old(self),
                *final(self),
                badge_id,
                description@,
                transaction_hash,
                r,
            ),
            old(self).all_below_threshold() && !is_executed(r)
                ==> final(self).all_below_threshold(),
            old(self).all_below_threshold() && is_executed(r) ==> forall|i: int|
                0 <= i < final(self).n_ops() ==> (#[trigger] final(self).votes_at(i)).len()
                    <= final(self).min_cosigners,
    {
        let ghost pre = *self;
        if self.min_cosigners <= 2 {
            return Err(Error::PolicyViolation);
        }
        let checked_id = match self.get_badge_id(badge_id) {
            Ok(id) => id,
            Err(e) => {
                return Err(e);
            },
        };
        let operation = Operation::new(
            description,
            OperationType::DecreaseMinCosigners,
            None,
            None,
            None,
            None,
            None,
            None,
        );
        proof {
            assert(operation@ =~= decrease_min_cosigners_op(description@));
        }
        let outcome = match self.add_cosigner(operation, Cosigner::new(checked_id, transaction_hash)) {
            Ok(o) => o,
            Err(e) => {
                return Err(e);
            },
        };
        let ghost mid = *self;
        match &outcome {
            Outcome::Executed(_) => {
                self.min_cosigners = self.min_cosigners - 1;
            },
            _ => {},
        }
        proof {
            lemma_same_ledger(*self, mid);
            let ghost op = decrease_min_cosigners_op(description@);
            let ghost res = Ok::<Outcome, Error>(outcome);
            if pre.all_below_threshold() {
                if is_executed(res) {
                    assert(pre.has_op(op));
                    let k = pre.op_index(op);
                    assert forall|i: int| 0 <= i < self.n_ops() implies (
                    #[trigger] self.votes_at(i)).len() <= self.min_cosigners by {
                        assert(self.votes_at(i) == mid.votes_at(i));
                        if i != k {
                            assert(mid.votes_at(i) == pre.votes_at(i));
                            assert(pre.votes_at(i).len() < pre.min_cosigners);
                        } else {
                            assert(mid.votes_at(k) == Seq::<Cosigner>::empty());
                        }
                    }
                } else {
                    lemma_transition_preserves_below(
                        pre,
                        *self,
                        op,
                        (Cosigner { badge_id, transaction_hash }),
                        res,
                    );
                }
            }
        }
        Ok(outcome)
    }

    /// Propose or cosign sending `amount` of a fungible resource to
    /// `recipient`.  The host reads the treasury's `balance` of the
    /// resource and whether it is fungible; when the threshold is reached
    /// it must withdraw the amount and deposit it with the recipient.
    pub fn send_fungibles(
        &mut self,
        badge_id: u64,
        description: String,
        resource: u64,
        resource_fungible: bool,
        amount: i128,
        recipient: u64,
        balance: i128,
        transaction_hash: u64,
    ) -> (r: Result<Outcome, Error>)
        requires
            old(self).wf(),
        ensures
            final(self).wf(),
            send_fungibles_post(
                *old(self),
                *final(self),
                badge_id,
                description@,
                resource,
                resource_fungible,
                amount,
                recipient,
                balance,
                transaction_hash,
                r,
            ),
            old(self).all_below_threshold() ==> final(self).all_below_threshold(),
    {
        let ghost pre = *self;
        let empty_owned: Vec<u64> = Vec::new();
        match self.check_availability(resource_fungible, Some(amount), None, balance, &empty_owned)
        {
            Ok(()) => {},
            Err(e) => {
                return Err(e);
            },
        }
        let checked_id = match self.get_badge_id(badge_id) {
            Ok(id) => id,
            Err(e) => {
                return Err(e);
            },
        };
        let operation = Operation::new(
            description,
            OperationType::SendFungibles,
            Some(resource),
            Some(amount),
            None,
            Some(recipient),
            None,
            None,
        );
        proof {
            assert(operation@ =~= send_fungibles_op(description@, resource, amount, recipient));
        }
        let outcome = match self.add_cosigner(operation, Cosigner::new(checked_id, transaction_hash)) {
            Ok(o) => o,
            Err(e) => {
                return Err(e);
            },
        };
        proof {
            if pre.all_below_threshold() {
                lemma_transition_preserves_below(
                    pre,
                    *self,
                    send_fungibles_op(description@, resource, amount, recipient),
                    (Cosigner { badge_id, transaction_hash }),
                    Ok(outcome),
                );
            }
        }
        Ok(outcome)
    }

    /// Propose or cosign sending the listed non-fungibles to `recipient`.
    /// The host supplies the ids the treasury holds of the resource; when
    /// the threshold is reached it must withdraw the listed non-fungibles
    /// and deposit them with the recipient.
    pub fn send_non_fungibles(
        &mut self,
        badge_id: u64,
        description: String,
        resource: u64,
        resource_fungible: bool,
        non_fungible_ids: Vec<u64>,
        recipient: u64,
        owned_ids: &Vec<u64>,
        transaction_hash: u64,
    ) -> (r: Result<Outcome, Error>)
        requires
            old(self).wf(),
        ensures
            final(self).wf(),
            send_non_fungibles_post(
                *old(self),
                *final(self),
                badge_id,
                description@,
                resource,
                resource_fungible,
                non_fungible_ids@,
                recipient,
                owned_ids@,
                transaction_hash,
                r,
            ),
            old(self).all_below_threshold() ==> final(self).all_below_threshold(),
    {
        let ghost pre = *self;
        match self.check_availability(
            resource_fungible,
            None,
            Some(&non_fungible_ids),
            0,
            owned_ids,
        ) {
            Ok(()) => {},
            Err(e) => {
                return Err(e);
            },
        }
        let checked_id = match self.get_badge_id(badge_id) {
            Ok(id) => id,
            Err(e) => {
                return Err(e);
            },
        };
        let ghost ids_view = non_fungible_ids@;
        let operation = Operation::new(
            description,
            OperationType::SendNonFungibles,
            Some(resource),
            None,
            Some(non_fungible_ids),
            Some(recipient),
            None,
            None,
        );
        proof {
            assert(operation@ =~= send_non_fungibles_op(
                description@,
                resource,
                ids_view,
                recipient,
            ));
        }
        let outcome = match self.add_cosigner(operation, Cosigner::new(checked_id, transaction_hash)) {
            Ok(o) => o,
            Err(e) => {
                return Err(e);
            },
        };
        proof {
            if pre.all_below_threshold() {
                lemma_transition_preserves_below(
                    pre,
                    *self,
                    send_non_fungibles_op(description@, resource, ids_view, recipient),
                    (Cosigner { badge_id, transaction_hash }),
                    Ok(outcome),
                );
            }
        }
        Ok(outcome)
    }

    /// Propose or cosign dismissing this wallet: when the threshold is
    /// reached the account badge is recorded gone, and the host must hand
    /// the badge itself to the named component.  With the badge gone no
    /// further withdrawal passes the availability check.
    pub fn transfer_account_badge(
        &mut self,
        badge_id: u64,
        description: String,
        component: u64,
        transaction_hash: u64,
    ) -> (r: Result<Outcome, Error>)
        requires
            old(self).wf(),
        ensures
            final(self).wf(),
            transfer_account_badge_post(
                *old(self),
                *final(self),
                badge_id,
                description@,
                component,
                transaction_hash,
                r,
            ),
            old(self).all_below_threshold() ==> final(self).all_below_threshold(),
    {
        let ghost pre = *self;
        if !self.account_badge_present {
            return Err(Error::PolicyViolation);
        }
        let checked_id = match self.get_badge_id(badge_id) {
            Ok(id) => id,
            Err(e) => {
                return Err(e);
            },
        };
        let operation = Operation::new(
            description,
            OperationType::TransferAccountBadge,
            None,
            None,
            None,
            None,
            Some(component),
            None,
        );
        proof {
            assert(operation@ =~= transfer_account_badge_op(description@, component));
        }
        let outcome = match self.add_cosigner(operation, Cosigner::new(checked_id, transaction_hash)) {
            Ok(o) => o,
            Err(e) => {
                return Err(e);
            },
        };
        let ghost mid = *self;
        match &outcome {
            Outcome::Executed(_) => {
                self.account_badge_present = false;
            },
            _ => {},
        }
        proof {
            lemma_same_ledger(*self, mid);
            if pre.all_below_threshold() {
                lemma_transition_preserves_below(
                    pre,
                    *self,
                    transfer_account_badge_op(description@, component),
                    (Cosigner { badge_id, transaction_hash }),
                    Ok(outcome),
                );
            }
        }
        Ok(outcome)
    }

    /// Propose or cosign staking `amount` of the treasury's native funds
    /// with `validator`.  The host reads the native balance and whether
    /// the validator accepts delegated stake; when the threshold is
    /// reached it must withdraw, stake, and deposit the stake units back.
    pub fn stake(
        &mut self,
        badge_id: u64,
        description: String,
        amount: i128,
        validator: u64,
        validator_accepts_stake: bool,
        balance: i128,
        transaction_hash: u64,
    ) -> (r: Result<Outcome, Error>)
        requires
            old(self).wf(),
        ensures
            final(self).wf(),
            stake_post(
                *old(self),
                *final(self),
                badge_id,
                description@,
                amount,
                validator,
                validator_accepts_stake,
                balance,
                transaction_hash,
                r,
            ),
            old(self).all_below_threshold() ==> final(self).all_below_threshold(),
    {
        let ghost pre = *self;
        let empty_owned: Vec<u64> = Vec::new();
        match self.check_availability(true, Some(amount), None, balance, &empty_owned) {
            Ok(()) => {},
            Err(e) => {
                return Err(e);
            },
        }
        if !validator_accepts_stake {
            return Err(Error::PolicyViolation);
        }
        let checked_id = match self.get_badge_id(badge_id) {
            Ok(id) => id,
            Err(e) => {
                return Err(e);
            },
        };
        let operation = Operation::new(
            description,
            OperationType::Stake,
            None,
            Some(amount),
            None,
            None,
            None,
            Some(validator),
        );
        proof {
            assert(operation@ =~= stake_op(description@, amount, validator));
        }
        let outcome = match self.add_cosigner(operation, Cosigner::new(checked_id, transaction_hash)) {
            Ok(o) => o,
            Err(e) => {
                return Err(e);
            },
        };
        proof {
            if pre.all_below_threshold() {
                lemma_transition_preserves_below(
                    pre,
                    *self,
                    stake_op(description@, amount, validator),
                    (Cosigner { badge_id, transaction_hash }),
                    Ok(outcome),
                );
            }
        }
        Ok(outcome)
    }

    /// Propose or cosign beginning an unstake of `amount` stake units
    /// from `validator`.  The host resolves the validator's stake-unit
    /// resource and reads its balance; when the threshold is reached it
    /// must withdraw the units, unstake them, and deposit the claim
    /// receipt back.
    pub fn unstake(
        &mut self,
        badge_id: u64,
        description: String,
        amount: i128,
        validator: u64,
        lsu_balance: i128,
        transaction_hash: u64,
    ) -> (r: Result<Outcome, Error>)
        requires
            old(self).wf(),
        ensures
            final(self).wf(),
            unstake_post(
                *old(self),
                *final(self),
                badge_id,
                description@,
                amount,
                validator,
                lsu_balance,
                transaction_hash,
                r,
            ),
            old(self).all_below_threshold() ==> final(self).all_below_threshold(),
    {
        let ghost pre = *self;
        let empty_owned: Vec<u64> = Vec::new();
        match self.check_availability(true, Some(amount), None, lsu_balance, &empty_owned) {
            Ok(()) => {},
            Err(e) => {
                return Err(e);
            },
        }
        let checked_id = match self.get_badge_id(badge_id) {
            Ok(id) => id,
            Err(e) => {
                return Err(e);
            },
        };
        let operation = Operation::new(
            description,
            OperationType::Unstake,
            None,
            Some(amount),
            None,
            None,
            None,
            Some(validator),
        );
        proof {
            assert(operation@ =~= unstake_op(description@, amount, validator));
        }
        let outcome = match self.add_cosigner(operation, Cosigner::new(checked_id, transaction_hash)) {
            Ok(o) => o,
            Err(e) => {
                return Err(e);
            },
        };
        proof {
            if pre.all_below_threshold() {
                lemma_transition_preserves_below(
                    pre,
                    *self,
                    unstake_op(description@, amount, validator),
                    (Cosigner { badge_id, transaction_hash }),
                    Ok(outcome),
                );
            }
        }
        Ok(outcome)
    }

    /// Propose or cosign claiming unstaked funds with the listed claim
    /// receipts from `validator`.  The host resolves the validator's
    /// claim resource and the receipt ids the treasury holds; when the
    /// threshold is reached it must redeem them and deposit the funds.
    pub fn claim_unstaked_xrd(
        &mut self,
        badge_id: u64,
        description: String,
        non_fungible_ids: Vec<u64>,
        validator: u64,
        owned_claim_ids: &Vec<u64>,
        transaction_hash: u64,
    ) -> (r: Result<Outcome, Error>)
        requires
            old(self).wf(),
        ensures
            final(self).wf(),
            claim_unstaked_xrd_post(
                *old(self),
                *final(self),
                badge_id,
                description@,
                non_fungible_ids@,
                validator,
                owned_claim_ids@,
                transaction_hash,
                r,
            ),
            old(self).all_below_threshold() ==> final(self).all_below_threshold(),
    {
        let ghost pre = *self;
        match self.check_availability(false, None, Some(&non_fungible_ids), 0, owned_claim_ids) {
            Ok(()) => {},
            Err(e) => {
                return Err(e);
            },
        }
        let checked_id = match self.get_badge_id(badge_id) {
            Ok(id) => id,
            Err(e) => {
                return Err(e);
            },
        };
        let ghost ids_view = non_fungible_ids@;
        let operation = Operation::new(
            description,
            OperationType::ClaimUnstakedXrd,
            None,
            None,
            Some(non_fungible_ids),
            None,
            None,
            Some(validator),
        );
        proof {
            assert(operation@ =~= claim_unstaked_xrd_op(description@, ids_view, validator));
        }
        let outcome = match self.add_cosigner(operation, Cosigner::new(checked_id, transaction_hash)) {
            Ok(o) => o,
            Err(e) => {
                return Err(e);
            },
        };
        proof {
            if pre.all_below_threshold() {
                lemma_transition_preserves_below(
                    pre,
                    *self,
                    claim_unstaked_xrd_op(description@, ids_view, validator),
                    (Cosigner { badge_id, transaction_hash }),
                    Ok(outcome),
                );
            }
        }
        Ok(outcome)
    }

    /// Withdraw the caller's vote from the operation the parameters
    /// describe.  Only an exact identity match is removed: no purge runs
    /// here, the remaining votes keep their insertion order, and votes of
    /// other members are untouched, so a member can retract support
    /// before the threshold without affecting anything else.
    pub fn remove_signature(
        &mut self,
        badge_id: u64,
        description: String,
        operation_type: OperationType,
        resource: Option<u64>,
        amount: Option<i128>,
        non_fungible_ids: Option<Vec<u64>>,
        recipient: Option<u64>,
        component: Option<u64>,
        validator: Option<u64>,
    ) -> (r: Result<(), Error>)
        requires
            old(self).wf(),
        ensures
            final(self).wf(),
            remove_signature_post(
                *old(self),
                *final(self),
                badge_id,
                (OpView {
                    description: trimmed(description@),
                    operation_type,
                    resource,
                    amount,
                    non_fungible_ids: non_fungible_ids.deep_view(),
                    recipient,
                    component,
                    validator,
                }),
                r,
            ),
            old(self).all_below_threshold() ==> final(self).all_below_threshold(),
    {
        let ghost pre = *self;
        let checked_id = match self.get_badge_id(badge_id) {
            Ok(id) => id,
            Err(e) => {
                return Err(e);
            },
        };
        let operation = Operation::new(
            description,
            operation_type,
            resource,
            amount,
            non_fungible_ids,
            recipient,
            component,
            validator,
        );
        match find_operation(&self.operations, &operation) {
            None => {
                proof {
                    if pre.has_op(operation@) {
                        let k = pre.op_index(operation@);
                        assert(pre.operations@[k].0@ == operation@);
                    }
                }
                Err(Error::OperationNotFound)
            },
            Some(k) => {
                proof {
                    lemma_op_index_unique(pre, k as int);
                }
                match find_voter(&self.operations[k].1, badge_id) {
                    None => Err(Error::VoteNotFound),
                    Some(i) => {
                        proof {
                            lemma_voter_index_unique(pre.votes_at(k as int), badge_id, i as int);
                            lemma_removed_at(pre.votes_at(k as int), i as int);
                        }
                        let entry = &mut self.operations[k];
                        let _removed = entry.1.remove(i);
                        proof {
                            assert forall|j: int| 0 <= j < pre.n_ops() implies #[trigger] self.op_at(
                                j,
                            ) == pre.op_at(j) by {
                                if j != k {
                                    assert(self.operations@[j] == pre.operations@[j]);
                                }
                            }
                            assert forall|j: int|
                                0 <= j < pre.n_ops() && j != k implies #[trigger] self.votes_at(j)
                                == pre.votes_at(j) by {
                                assert(self.operations@[j] == pre.operations@[j]);
                            }
                            assert(self.votes_at(k as int) == removed_at(
                                pre.votes_at(k as int),
                                i as int,
                            ));
                            assert forall|j: int| 0 <= j < self.n_ops() implies distinct_voters(
                                #[trigger] self.votes_at(j),
                            ) by {
                                if j != k {
                                    assert(self.votes_at(j) == pre.votes_at(j));
                                }
                            }
                            if pre.all_below_threshold() {
                                assert forall|j: int| 0 <= j < self.n_ops() implies (
                                #[trigger] self.votes_at(j)).len() < self.min_cosigners by {
                                    assert(pre.votes_at(j).len() < pre.min_cosigners);
                                }
                            }
                        }
                        Ok(())
                    },
                }
            },
        }
    }

    /// How many active votes the given operation's ledger entry holds, or
    /// nothing if the operation was never proposed.
    pub fn active_vote_count(&self, operation: &Operation) -> (r: Option<usize>)
        requires
            self.wf(),
        ensures
            match r {
                Some(n) => self.has_op(operation@) && n == self.votes_at(
                    self.op_index(operation@),
                ).len(),
                None => !self.has_op(operation@),
            },
    {
        match find_operation(&self.operations, operation) {
            None => {
                proof {
                    if self.has_op(operation@) {
                        let k = self.op_index(operation@);
                        assert(self.operations@[k].0@ == operation@);
                    }
                }
                None
            },
            Some(k) => {
                proof {
                    lemma_op_index_unique(*self, k as int);
                }
                Some(self.operations[k].1.len())
            },
        }
    }
}

} // verus!
