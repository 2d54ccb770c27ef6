//! The member registry: one record per issued member badge.
//!
//! Badge ids are dense integers starting at 1; the record for badge `i`
//! sits at index `i - 1` of the registry vector.  A record can be enabled
//! and disabled; only enabled members may sign, and votes cast by members
//! that were disabled afterwards lose their weight on the next access.

use vstd::prelude::*;

verus! {

/// The data attached to one member badge.
#[derive(Clone, Copy, Debug, PartialEq, Eq, Structural)]
pub struct Member {
    /// Whether the badge may currently sign operations.
    pub enabled: bool,
    /// When the badge was minted, as seconds of the host clock.
    pub creation_date: u64,
}

/// Badge `id` exists in `members` and is currently enabled.
pub open spec fn badge_enabled(members: Seq<Member>, id: u64) -> bool {
    &&& 1 <= id <= members.len()
    &&& members[id - 1].enabled
}

/// How many registry records are currently enabled.
pub open spec fn count_enabled(members: Seq<Member>) -> int
    decreases members.len(),
{
    if members.len() == 0 {
        0
    } else {
        count_enabled(members.drop_last()) + if members.last().enabled {
            1int
        } else {
            0int
        }
    }
}

impl Member {
    /// A fresh record: enabled, dated with the given clock reading.
    pub fn new(creation_date: u64) -> (m: Member)
        ensures
            m == (Member { enabled: true, creation_date }),
    {
        Member { enabled: true, creation_date }
    }

    /// Whether this record is currently enabled.
    pub fn is_enabled(&self) -> (r: bool)
        ensures
            r == self.enabled,
    {
        self.enabled
    }

    /// Whether the badge with the given id exists and is enabled.
    pub fn is_badge_enabled(non_fungible_id: u64, members: &Vec<Member>) -> (r: bool)
        ensures
            r == badge_enabled(members@, non_fungible_id),
    {
        if 1 <= non_fungible_id && non_fungible_id <= members.len() as u64 {
            members[(non_fungible_id - 1) as usize].enabled
        } else {
            false
        }
    }

    /// Enable or disable the badge with the given id, leaving every other
    /// record as it was.
    pub fn enable(non_fungible_id: u64, enabled: bool, members: &mut Vec<Member>)
        requires
            1 <= non_fungible_id <= old(members)@.len(),
        ensures
            final(members)@ == old(members)@.update(
                non_fungible_id - 1,
                Member {
                    enabled,
                    creation_date: old(members)@[non_fungible_id - 1].creation_date,
                },
            ),
    {
        let idx = (non_fungible_id - 1) as usize;
        let date = members[idx].creation_date;
        members.set(idx, Member { enabled, creation_date: date });
    }

    /// Count the enabled records of the registry.
    pub fn count_enabled_members(members: &Vec<Member>) -> (r: usize)
        ensures
            r == count_enabled(members@),
    {
        let n = members.len();
        let mut active_members: usize = 0;
        let mut i: usize = 0;
        while i < n
            invariant
                0 <= i <= n,
                n == members@.len(),
                active_members <= i,
                active_members == count_enabled(members@.take(i as int)),
            decreases n - i,
        {
            proof {
                assert(members@.take(i + 1).drop_last() =~= members@.take(i as int));
                assert(members@.take(i + 1).last() == members@[i as int]);
            }
            if members[i].enabled {
                active_members = active_members + 1;
            }
            i = i + 1;
        }
        proof {
            assert(members@.take(n as int) =~= members@);
        }
        active_members
    }
}

} // verus!
