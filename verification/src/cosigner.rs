//! One member's vote on one round of one operation, and the vote-set
//! machinery built on it.
//!
//! A `Cosigner` pairs the signer's badge id with the hash of the
//! transaction that cast the vote.  Equality deliberately ignores the
//! transaction hash: two cosigners are the same vote exactly when the same
//! badge produced them.  That is what makes signing an operation twice
//! detectable, and what lets votes of a since-disabled member be found and
//! purged without tracking revocation timestamps.

use vstd::prelude::*;

use crate::member::Member;
use crate::member::badge_enabled;

verus! {

/// The signature of one member under one operation.
#[derive(Clone, Copy, Debug)]
pub struct Cosigner {
    /// Badge id of the signing member.
    pub badge_id: u64,
    /// Hash of the transaction that cast this vote; distinguishes
    /// successive votes of one member across rounds, but never takes part
    /// in equality.
    pub transaction_hash: u64,
}

/// The active vote set of one operation, in insertion order.
pub type Cosigners = Vec<Cosigner>;

impl Cosigner {
    /// A vote by the given badge, stamped with the hash of the current
    /// transaction as supplied by the host.
    pub fn new(badge_id: u64, transaction_hash: u64) -> (c: Cosigner)
        ensures
            c == (Cosigner { badge_id, transaction_hash }),
    {
        Cosigner { badge_id, transaction_hash }
    }

    /// Whether the badge behind this vote is still enabled in the registry.
    pub fn is_enabled(&self, members: &Vec<Member>) -> (r: bool)
        ensures
            r == badge_enabled(members@, self.badge_id),
    {
        Member::is_badge_enabled(self.badge_id, members)
    }
}

impl PartialEq for Cosigner {
    /// Votes compare by signing badge alone; the transaction hash is
    /// ignored, so one member cannot count twice on one operation.
    fn eq(&self, other: &Self) -> bool {
        self.badge_id == other.badge_id
    }
}

impl vstd::std_specs::cmp::PartialEqSpecImpl for Cosigner {
    open spec fn obeys_eq_spec() -> bool {
        true
    }

    open spec fn eq_spec(&self, other: &Cosigner) -> bool {
        self.badge_id == other.badge_id
    }
}

/// Some vote in `s` was cast by badge `id`.
pub open spec fn has_voter(s: Seq<Cosigner>, id: u64) -> bool {
    exists|i: int| 0 <= i < s.len() && s[i].badge_id == id
}

/// No badge id appears twice in `s`.
pub open spec fn distinct_voters(s: Seq<Cosigner>) -> bool {
    forall|i: int, j: int| 0 <= i < j < s.len() ==> s[i].badge_id != s[j].badge_id
}

/// The badge ids that have a vote in `s`.
pub open spec fn voter_set(s: Seq<Cosigner>) -> Set<u64> {
    Set::new(|id: u64| has_voter(s, id))
}

/// `s` with every vote of a no-longer-enabled badge removed, in order.
pub open spec fn purge(s: Seq<Cosigner>, members: Seq<Member>) -> Seq<Cosigner>
    decreases s.len(),
{
    if s.len() == 0 {
        s
    } else {
        let rest = purge(s.drop_last(), members);
        if badge_enabled(members, s.last().badge_id) {
            rest.push(s.last())
        } else {
            rest
        }
    }
}

/// A badge has a vote after the purge exactly when it had one before and
/// is still enabled.
pub proof fn lemma_purge_membership(s: Seq<Cosigner>, members: Seq<Member>, id: u64)
    ensures
        has_voter(purge(s, members), id) <==> has_voter(s, id) && badge_enabled(members, id),
    decreases s.len(),
{
    if s.len() > 0 {
        lemma_purge_membership(s.drop_last(), members, id);
        if has_voter(s, id) {
            let i = choose|i: int| 0 <= i < s.len() && s[i].badge_id == id;
            if i < s.len() - 1 {
                assert(s.drop_last()[i].badge_id == id);
            }
        }
        if has_voter(s.drop_last(), id) {
            let i = choose|i: int| 0 <= i < s.drop_last().len() && s.drop_last()[i].badge_id == id;
            assert(s[i].badge_id == id);
        }
        let p = purge(s, members);
        let rest = purge(s.drop_last(), members);
        if badge_enabled(members, s.last().badge_id) {
            assert forall|j: int| 0 <= j < p.len() && p[j].badge_id == id implies has_voter(
                s,
                id,
            ) && badge_enabled(members, id) by {
                if j < rest.len() {
                    assert(rest[j].badge_id == id);
                }
            }
            if has_voter(rest, id) {
                let j = choose|j: int| 0 <= j < rest.len() && rest[j].badge_id == id;
                assert(p[j].badge_id == id);
            }
            if s.last().badge_id == id {
                assert(p[p.len() - 1].badge_id == id);
            }
        }
    }
}

/// Appending a vote by a badge not yet present keeps the votes distinct.
pub proof fn lemma_distinct_push(s: Seq<Cosigner>, c: Cosigner)
    requires
        distinct_voters(s),
        !has_voter(s, c.badge_id),
    ensures
        distinct_voters(s.push(c)),
{
    assert forall|i: int, j: int| 0 <= i < j < s.push(c).len() implies s.push(c)[i].badge_id != s.push(
        c,
    )[j].badge_id by {
        if j == s.len() {
            assert(s[i].badge_id != c.badge_id);
        }
    }
}

/// Purging a duplicate-free vote set leaves it duplicate-free.
pub proof fn lemma_purge_distinct(s: Seq<Cosigner>, members: Seq<Member>)
    requires
        distinct_voters(s),
    ensures
        distinct_voters(purge(s, members)),
    decreases s.len(),
{
    if s.len() > 0 {
        assert(distinct_voters(s.drop_last()));
        lemma_purge_distinct(s.drop_last(), members);
        if badge_enabled(members, s.last().badge_id) {
            lemma_purge_membership(s.drop_last(), members, s.last().badge_id);
            if has_voter(s.drop_last(), s.last().badge_id) {
                let i = choose|i: int|
                    0 <= i < s.drop_last().len() && s.drop_last()[i].badge_id
                        == s.last().badge_id;
                assert(s[i].badge_id == s[s.len() - 1].badge_id);
                assert(false);
            }
            lemma_distinct_push(purge(s.drop_last(), members), s.last());
        }
    }
}

/// A purge removes nothing when every vote's badge is still enabled.
pub proof fn lemma_purge_identity(s: Seq<Cosigner>, members: Seq<Member>)
    requires
        forall|i: int| 0 <= i < s.len() ==> badge_enabled(members, #[trigger] s[i].badge_id),
    ensures
        purge(s, members) == s,
    decreases s.len(),
{
    if s.len() > 0 {
        assert(forall|i: int|
            0 <= i < s.drop_last().len() ==> badge_enabled(
                members,
                #[trigger] s.drop_last()[i].badge_id,
            ));
        lemma_purge_identity(s.drop_last(), members);
        assert(purge(s, members) =~= s);
    }
}

/// In a duplicate-free vote set the number of votes is the number of
/// voting badges.
pub proof fn lemma_distinct_len_is_cardinality(s: Seq<Cosigner>)
    requires
        distinct_voters(s),
    ensures
        voter_set(s).finite(),
        voter_set(s).len() == s.len(),
    decreases s.len(),
{
    if s.len() == 0 {
        assert(voter_set(s) =~= Set::<u64>::empty());
    } else {
        let rest = s.drop_last();
        assert(distinct_voters(rest));
        lemma_distinct_len_is_cardinality(rest);
        assert forall|id: u64| has_voter(s, id) && id != s.last().badge_id implies has_voter(
            rest,
            id,
        ) by {
            let i = choose|i: int| 0 <= i < s.len() && s[i].badge_id == id;
            assert(rest[i].badge_id == id);
        }
        assert forall|id: u64| has_voter(rest, id) implies has_voter(s, id) by {
            let i = choose|i: int| 0 <= i < rest.len() && rest[i].badge_id == id;
            assert(s[i].badge_id == id);
        }
        assert(voter_set(s) =~= voter_set(rest).insert(s.last().badge_id));
        if has_voter(rest, s.last().badge_id) {
            let i = choose|i: int| 0 <= i < rest.len() && rest[i].badge_id == s.last().badge_id;
            assert(s[i].badge_id == s[s.len() - 1].badge_id);
            assert(false);
        }
        assert(!voter_set(rest).contains(s.last().badge_id));
    }
}

/// The position of badge `id`'s vote in `s`; meaningful only when
/// `has_voter` holds, and then unique for duplicate-free vote sets.
pub open spec fn voter_index(s: Seq<Cosigner>, id: u64) -> int {
    choose|i: int| 0 <= i < s.len() && s[i].badge_id == id
}

/// `s` with the vote at position `i` removed; the votes around it keep
/// their insertion order.
pub open spec fn removed_at(s: Seq<Cosigner>, i: int) -> Seq<Cosigner> {
    s.remove(i)
}

/// In a duplicate-free vote set, the vote of badge `id` sits at exactly
/// one position.
pub proof fn lemma_voter_index_unique(s: Seq<Cosigner>, id: u64, j: int)
    requires
        distinct_voters(s),
        0 <= j < s.len(),
        s[j].badge_id == id,
    ensures
        has_voter(s, id),
        voter_index(s, id) == j,
{
    assert(has_voter(s, id));
    let i = voter_index(s, id);
    if i != j {
        if i < j {
            assert(s[i].badge_id != s[j].badge_id);
        } else {
            assert(s[j].badge_id != s[i].badge_id);
        }
        assert(false);
    }
}

/// Removing one vote keeps the set duplicate-free, keeps the remaining
/// votes in their insertion order, and removes exactly that badge's
/// vote.
pub proof fn lemma_removed_at(s: Seq<Cosigner>, i: int)
    requires
        distinct_voters(s),
        0 <= i < s.len(),
    ensures
        removed_at(s, i).len() == s.len() - 1,
        distinct_voters(removed_at(s, i)),
        forall|v: u64| has_voter(removed_at(s, i), v) <==> has_voter(s, v) && v != s[i].badge_id,
{
    let sr = removed_at(s, i);
    assert forall|j: int| 0 <= j < sr.len() implies sr[j] == if j < i {
        s[j]
    } else {
        s[j + 1]
    } by {}
    assert forall|j1: int, j2: int| 0 <= j1 < j2 < sr.len() implies sr[j1].badge_id
        != sr[j2].badge_id by {
        if j1 < i {
            assert(sr[j1] == s[j1]);
        } else {
            assert(sr[j1] == s[j1 + 1]);
        }
        if j2 < i {
            assert(sr[j2] == s[j2]);
        } else {
            assert(sr[j2] == s[j2 + 1]);
        }
    }
    assert forall|v: u64| has_voter(sr, v) implies has_voter(s, v) && v != s[i].badge_id by {
        let j = choose|j: int| 0 <= j < sr.len() && sr[j].badge_id == v;
        if j < i {
            assert(s[j].badge_id == v);
        } else {
            assert(s[j + 1].badge_id == v);
        }
    }
    assert forall|v: u64| has_voter(s, v) && v != s[i].badge_id implies has_voter(sr, v) by {
        let j = choose|j: int| 0 <= j < s.len() && s[j].badge_id == v;
        if j < i {
            assert(sr[j].badge_id == v);
        } else {
            assert(sr[j - 1].badge_id == v);
        }
    }
}

/// Appending a vote adds exactly that badge to the voters.
pub proof fn lemma_has_voter_push(s: Seq<Cosigner>, c: Cosigner, v: u64)
    ensures
        has_voter(s.push(c), v) <==> has_voter(s, v) || c.badge_id == v,
{
    if has_voter(s.push(c), v) {
        let i = choose|i: int| 0 <= i < s.push(c).len() && s.push(c)[i].badge_id == v;
        if i < s.len() {
            assert(s[i].badge_id == v);
        }
    }
    if has_voter(s, v) {
        let i = choose|i: int| 0 <= i < s.len() && s[i].badge_id == v;
        assert(s.push(c)[i].badge_id == v);
    }
    if c.badge_id == v {
        assert(s.push(c)[s.len() as int].badge_id == v);
    }
}

/// A member that was disabled loses its vote on the next cosign call
/// that touches the operation: the purge strips every vote of a disabled
/// badge, and the arriving vote belongs to an enabled member, so it
/// cannot bring the disabled badge back.  Until such a call arrives,
/// stored vote sets are untouched: the controller's contracts change no
/// other entry.
pub proof fn lemma_disabled_vote_purged_on_next_cosign(
    s: Seq<Cosigner>,
    members: Seq<Member>,
    v: u64,
    c: Cosigner,
)
    requires
        !badge_enabled(members, v),
        badge_enabled(members, c.badge_id),
    ensures
        !has_voter(purge(s, members), v),
        !has_voter(purge(s, members).push(c), v),
{
    lemma_purge_membership(s, members, v);
    lemma_has_voter_push(purge(s, members), c, v);
}

/// Withdrawing a vote and then casting it again from the same badge
/// restores the set of voting badges, their number included.  Later
/// calls decide dedup and threshold from that set and its size alone, so
/// they go as if the withdrawal had never happened.
pub proof fn lemma_withdraw_then_recast_restores_voters(s: Seq<Cosigner>, i: int, c: Cosigner)
    requires
        distinct_voters(s),
        0 <= i < s.len(),
        s[i].badge_id == c.badge_id,
    ensures
        distinct_voters(removed_at(s, i).push(c)),
        voter_set(removed_at(s, i).push(c)) == voter_set(s),
        removed_at(s, i).push(c).len() == s.len(),
{
    lemma_removed_at(s, i);
    let sr = removed_at(s, i);
    assert(!has_voter(sr, c.badge_id));
    lemma_distinct_push(sr, c);
    assert forall|v: u64| has_voter(sr.push(c), v) == has_voter(s, v) by {
        lemma_has_voter_push(sr, c, v);
        if c.badge_id == v {
            assert(s[i].badge_id == v);
        }
    }
    assert(voter_set(sr.push(c)) =~= voter_set(s));
}

/// The state the engine stores after a withdrawal and a fresh cast by
/// the same enabled badge — the withdrawn set, purged, with the new vote
/// appended — holds exactly the voting badges that purging the original
/// set yields, in the same number.  The threshold comparison and the
/// duplicate test of every later call therefore go as if the vote had
/// never been withdrawn.
pub proof fn lemma_withdraw_then_recast_purged(
    s: Seq<Cosigner>,
    members: Seq<Member>,
    i: int,
    c: Cosigner,
)
    requires
        distinct_voters(s),
        0 <= i < s.len(),
        s[i].badge_id == c.badge_id,
        badge_enabled(members, c.badge_id),
    ensures
        voter_set(purge(removed_at(s, i), members).push(c)) == voter_set(purge(s, members)),
        purge(removed_at(s, i), members).push(c).len() == purge(s, members).len(),
{
    lemma_removed_at(s, i);
    let sr = removed_at(s, i);
    let psr = purge(sr, members);
    lemma_purge_distinct(sr, members);
    assert forall|v: u64| #[trigger] has_voter(psr.push(c), v) == has_voter(
        purge(s, members),
        v,
    ) by {
        lemma_has_voter_push(psr, c, v);
        lemma_purge_membership(sr, members, v);
        lemma_purge_membership(s, members, v);
        if v == c.badge_id {
            assert(s[i].badge_id == v);
        }
    }
    assert(voter_set(psr.push(c)) =~= voter_set(purge(s, members)));
    lemma_purge_membership(sr, members, c.badge_id);
    lemma_distinct_push(psr, c);
    lemma_purge_distinct(s, members);
    lemma_distinct_len_is_cardinality(psr.push(c));
    lemma_distinct_len_is_cardinality(purge(s, members));
}

/// Two duplicate-free vote sets with the same voting badges behave alike
/// under the next cosign step: the same duplicate test before and after
/// the purge, the same purged voter set, and the same purged size
/// against the threshold.
pub proof fn lemma_cosign_depends_on_voter_set_only(
    s1: Seq<Cosigner>,
    s2: Seq<Cosigner>,
    members: Seq<Member>,
    id: u64,
)
    requires
        distinct_voters(s1),
        distinct_voters(s2),
        voter_set(s1) == voter_set(s2),
    ensures
        has_voter(s1, id) == has_voter(s2, id),
        has_voter(purge(s1, members), id) == has_voter(purge(s2, members), id),
        voter_set(purge(s1, members)) == voter_set(purge(s2, members)),
        purge(s1, members).len() == purge(s2, members).len(),
{
    assert(voter_set(s1).contains(id) == has_voter(s1, id));
    assert(voter_set(s2).contains(id) == has_voter(s2, id));
    lemma_purge_membership(s1, members, id);
    lemma_purge_membership(s2, members, id);
    assert forall|v: u64| #[trigger] has_voter(purge(s1, members), v) == has_voter(
        purge(s2, members),
        v,
    ) by {
        lemma_purge_membership(s1, members, v);
        lemma_purge_membership(s2, members, v);
        assert(voter_set(s1).contains(v) == has_voter(s1, v));
        assert(voter_set(s2).contains(v) == has_voter(s2, v));
    }
    assert(voter_set(purge(s1, members)) =~= voter_set(purge(s2, members)));
    lemma_purge_distinct(s1, members);
    lemma_purge_distinct(s2, members);
    lemma_distinct_len_is_cardinality(purge(s1, members));
    lemma_distinct_len_is_cardinality(purge(s2, members));
}

/// Find the position of the vote cast by badge `id`, scanning in insertion
/// order.
pub fn find_voter(cosigners: &Vec<Cosigner>, id: u64) -> (r: Option<usize>)
    ensures
        match r {
            Some(i) => i < cosigners@.len() && cosigners@[i as int].badge_id == id,
            None => !has_voter(cosigners@, id),
        },
{
    let n = cosigners.len();
    let mut i: usize = 0;
    while i < n
        invariant
            0 <= i <= n,
            n == cosigners@.len(),
            forall|j: int| 0 <= j < i ==> cosigners@[j].badge_id != id,
        decreases n - i,
    {
        if cosigners[i].badge_id == id {
            return Some(i);
        }
        i = i + 1;
    }
    None
}

/// The purge of spec level, run on a vote set: every vote whose badge is
/// no longer enabled is dropped, the rest keep their order.
pub fn retain_enabled(cosigners: &Vec<Cosigner>, members: &Vec<Member>) -> (r: Vec<Cosigner>)
    ensures
        r@ == purge(cosigners@, members@),
{
    let n = cosigners.len();
    let mut out: Vec<Cosigner> = Vec::new();
    let mut i: usize = 0;
    while i < n
        invariant
            0 <= i <= n,
            n == cosigners@.len(),
            out@ == purge(cosigners@.take(i as int), members@),
        decreases n - i,
    {
        proof {
            assert(cosigners@.take(i + 1).drop_last() =~= cosigners@.take(i as int));
            assert(cosigners@.take(i + 1).last() == cosigners@[i as int]);
        }
        let c = cosigners[i];
        if c.is_enabled(members) {
            out.push(c);
        }
        i = i + 1;
    }
    proof {
        assert(cosigners@.take(n as int) =~= cosigners@);
    }
    out
}

} // verus!
