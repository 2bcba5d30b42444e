//! The validator set: the identities eligible to vote and, for proof of
//! stake, their stakes. The set is supplied by governance at startup and is
//! read-only within this core.

use vstd::prelude::*;

verus! {

/// One eligible validator: a nonzero identity and its stake.
#[derive(Clone, Copy, Debug, PartialEq, Eq, Structural)]
pub struct ValidatorInfo {
    /// The validator's identity; 0 is reserved to mark an absent proposer.
    pub id: u64,
    /// The validator's stake, weighting proposer selection.
    pub stake: u64,
}

/// The sum of the stakes of `members`, as an unbounded integer.
pub open spec fn total_stake_of(members: Seq<ValidatorInfo>) -> int
    decreases members.len(),
{
    if members.len() == 0 {
        0
    } else {
        total_stake_of(members.drop_last()) + members.last().stake
    }
}

/// Whether some member of `members` carries `id`.
pub open spec fn has_member(members: Seq<ValidatorInfo>, id: u64) -> bool {
    exists|i: int| 0 <= i < members.len() && (#[trigger] members[i]).id == id
}

/// The set of validator identities eligible to vote, ordered by identity.
pub struct ValidatorSet {
    members: Vec<ValidatorInfo>,
}

impl ValidatorSet {
    /// The members, in strictly increasing identity order.
    pub closed spec fn members(self) -> Seq<ValidatorInfo> {
        self.members@
    }

    #[verifier::type_invariant]
    spec fn inv(self) -> bool {
        &&& forall|i: int, j: int|
            0 <= i < j < self.members@.len() ==> (#[trigger] self.members@[i]).id < (
            #[trigger] self.members@[j]).id
        &&& forall|i: int| 0 <= i < self.members@.len() ==> (#[trigger] self.members@[i]).id != 0
        &&& total_stake_of(self.members@) <= u64::MAX
    }

    /// Builds the set from members listed in strictly increasing identity
    /// order, none with identity 0, whose stakes sum within range.
    pub fn new(members: Vec<ValidatorInfo>) -> (vs: ValidatorSet)
        requires
            forall|i: int, j: int|
                0 <= i < j < members@.len() ==> (#[trigger] members@[i]).id < (
                #[trigger] members@[j]).id,
            forall|i: int| 0 <= i < members@.len() ==> (#[trigger] members@[i]).id != 0,
            total_stake_of(members@) <= u64::MAX,
        ensures
            vs.members() == members@,
    {
        ValidatorSet { members }
    }

    /// How many validators are eligible to vote. The members stand in
    /// strictly increasing identity order, so no identity is listed twice.
    pub fn len(&self) -> (n: usize)
        ensures
            n == self.members().len(),
            forall|i: int, j: int|
                0 <= i < j < self.members().len() ==> (#[trigger] self.members()[i]).id < (
                #[trigger] self.members()[j]).id,
    {
        proof {
            use_type_invariant(self);
        }
        self.members.len()
    }

    /// The member at position `i`, in identity order.
    pub fn member_at(&self, i: usize) -> (v: ValidatorInfo)
        requires
            i < self.members().len(),
        ensures
            v == self.members()[i as int],
    {
        self.members[i]
    }

    /// Whether `id` is an eligible validator.
    pub fn contains(&self, id: u64) -> (r: bool)
        ensures
            r == has_member(self.members(), id),
    {
        for i in 0..self.members.len()
            invariant
                forall|j: int| 0 <= j < i ==> (#[trigger] self.members@[j]).id != id,
        {
            if self.members[i].id == id {
                return true;
            }
        }
        false
    }

    /// The combined stake of all members.
    pub fn total_stake(&self) -> (r: u64)
        ensures
            r == total_stake_of(self.members()),
    {
        proof {
            use_type_invariant(self);
        }
        let mut r: u64 = 0;
        for i in 0..self.members.len()
            invariant
                r == total_stake_of(self.members@.take(i as int)),
                total_stake_of(self.members@) <= u64::MAX,
        {
            proof {
                assert(self.members@.take(i + 1).drop_last() =~= self.members@.take(i as int));
                assert(self.members@.take(i + 1).last() == self.members@[i as int]);
                lemma_total_stake_prefix(self.members@, i + 1);
            }
            r = r + self.members[i].stake;
        }
        proof {
            assert(self.members@.take(self.members@.len() as int) =~= self.members@);
        }
        r
    }
}

/// The stakes of a prefix never exceed the stakes of the whole sequence.
pub proof fn lemma_total_stake_prefix(members: Seq<ValidatorInfo>, n: int)
    requires
        0 <= n <= members.len(),
    ensures
        total_stake_of(members.take(n)) <= total_stake_of(members),
    decreases members.len() - n,
{
    if n == members.len() {
        assert(members.take(n) =~= members);
    } else {
        lemma_total_stake_prefix(members, n + 1);
        assert(members.take(n + 1).drop_last() =~= members.take(n));
        assert(total_stake_of(members.take(n + 1)) == total_stake_of(members.take(n))
            + members.take(n + 1).last().stake);
    }
}


/// Stake-weighted choice: walking the members in order, the pick falls to
/// the first member whose cumulative stake range covers it. Ties cannot
/// arise: every stake unit belongs to exactly one member; the identity
/// order of the walk settles which member covers which range.
pub open spec fn spec_weighted_choice(members: Seq<ValidatorInfo>, pick: int) -> u64
    decreases members.len(),
{
    if members.len() == 0 {
        0u64
    } else if pick < members.first().stake {
        members.first().id
    } else {
        spec_weighted_choice(members.drop_first(), pick - members.first().stake)
    }
}

/// The stakes of a nonempty sequence split around its first member.
pub proof fn lemma_total_stake_first(members: Seq<ValidatorInfo>)
    requires
        members.len() > 0,
    ensures
        total_stake_of(members) == members.first().stake + total_stake_of(members.drop_first()),
    decreases members.len(),
{
    if members.len() == 1 {
        assert(members.drop_first() =~= Seq::<ValidatorInfo>::empty());
        assert(members.drop_last() =~= Seq::<ValidatorInfo>::empty());
    } else {
        lemma_total_stake_first(members.drop_last());
        assert(members.drop_last().drop_first() =~= members.drop_first().drop_last());
        assert(members.drop_first().last() == members.last());
        assert(members.drop_last().first() == members.first());
    }
}

impl ValidatorSet {
    /// The member owning stake unit `pick`, counting units through the
    /// members in identity order.
    pub fn weighted_choice(&self, pick: u64) -> (r: u64)
        requires
            pick < total_stake_of(self.members()),
        ensures
            r == spec_weighted_choice(self.members(), pick as int),
    {
        let mut remaining = pick;
        let n = self.members.len();
        proof {
            assert(self.members@.skip(0) =~= self.members@);
        }
        for i in 0..n
            invariant
                n == self.members@.len(),
                0 <= remaining <= pick,
                remaining < total_stake_of(self.members@.skip(i as int)),
                spec_weighted_choice(self.members@, pick as int) == spec_weighted_choice(
                    self.members@.skip(i as int),
                    remaining as int,
                ),
        {
            proof {
                assert(self.members@.skip(i as int).first() == self.members@[i as int]);
                assert(self.members@.skip(i as int).drop_first() =~= self.members@.skip(i + 1));
                lemma_total_stake_first(self.members@.skip(i as int));
            }
            if remaining < self.members[i].stake {
                return self.members[i].id;
            }
            remaining = remaining - self.members[i].stake;
        }
        proof {
            assert(self.members@.skip(n as int) =~= Seq::<ValidatorInfo>::empty());
            assert(false);
        }
        0
    }
}

} // verus!
