//! The vote-delegation registry: each account (the delegator) may assign
//! fractions of its voting weight to other accounts (delegatees) for a
//! limited time. The registry keeps a primary list per delegator and a
//! reverse index per delegatee, mutated in lockstep, and enforces that a
//! delegator's currently valid outgoing fractions never sum to more than 1.

use vstd::prelude::*;

use std::collections::HashMap;

use crate::Delegation;
use crate::GovernanceError;
use crate::FRACTION_ONE;
use crate::MAX_DELEGATIONS;

verus! {

broadcast use vstd::std_specs::hash::group_hash_axioms;

/// No two entries of the list name the same delegatee.
pub open spec fn unique_delegatees(ds: Seq<Delegation>) -> bool {
    forall|i: int, j: int| 0 <= i < j < ds.len() ==> ds[i].delegatee != ds[j].delegatee
}

/// Every fraction of the list lies in `(0, FRACTION_ONE]`.
pub open spec fn fractions_in_range(ds: Seq<Delegation>) -> bool {
    forall|i: int| 0 <= i < ds.len() ==> 0 < (#[trigger] ds[i]).fraction <= FRACTION_ONE
}

/// The fraction of the entry naming `delegatee`, if the list has one.
pub open spec fn find_fraction(ds: Seq<Delegation>, delegatee: u64) -> Option<u128>
    decreases ds.len(),
{
    if ds.len() == 0 {
        None
    } else if ds.last().delegatee == delegatee {
        Some(ds.last().fraction)
    } else {
        find_fraction(ds.drop_last(), delegatee)
    }
}

/// The list with every entry naming `delegatee` dropped, order kept.
pub open spec fn without_delegatee(ds: Seq<Delegation>, delegatee: u64) -> Seq<Delegation>
    decreases ds.len(),
{
    if ds.len() == 0 {
        ds
    } else if ds.last().delegatee == delegatee {
        without_delegatee(ds.drop_last(), delegatee)
    } else {
        without_delegatee(ds.drop_last(), delegatee).push(ds.last())
    }
}

/// Sum of the fractions of the entries still valid at `now` (those whose
/// `valid_until` is strictly in the future).
pub open spec fn committed(ds: Seq<Delegation>, now: u64) -> int
    decreases ds.len(),
{
    if ds.len() == 0 {
        0
    } else {
        committed(ds.drop_last(), now) + (if ds.last().valid_until > now {
            ds.last().fraction as int
        } else {
            0
        })
    }
}

/// Like [`committed`], but not counting entries that name `excluded` (the
/// delegatee whose entry a call is about to replace).
pub open spec fn committed_excluding(ds: Seq<Delegation>, now: u64, excluded: u64) -> int
    decreases ds.len(),
{
    if ds.len() == 0 {
        0
    } else {
        committed_excluding(ds.drop_last(), now, excluded) + (if ds.last().valid_until > now
            && ds.last().delegatee != excluded {
            ds.last().fraction as int
        } else {
            0
        })
    }
}

pub proof fn lemma_committed_excluding_le(ds: Seq<Delegation>, now: u64, excluded: u64)
    ensures
        0 <= committed_excluding(ds, now, excluded) <= committed(ds, now),
    decreases ds.len(),
{
    if ds.len() > 0 {
        lemma_committed_excluding_le(ds.drop_last(), now, excluded);
    }
}

/// Entries can only expire as time advances, so the committed sum never
/// grows with time.
pub proof fn lemma_committed_monotone(ds: Seq<Delegation>, t1: u64, t2: u64)
    requires
        t1 <= t2,
    ensures
        committed(ds, t2) <= committed(ds, t1),
    decreases ds.len(),
{
    if ds.len() > 0 {
        lemma_committed_monotone(ds.drop_last(), t1, t2);
    }
}

/// A delegatee's entry is found exactly when some list element names it.
pub proof fn lemma_find_fraction_none_iff(ds: Seq<Delegation>, delegatee: u64)
    ensures
        find_fraction(ds, delegatee) is None <==> (forall|i: int|
            0 <= i < ds.len() ==> (#[trigger] ds[i]).delegatee != delegatee),
    decreases ds.len(),
{
    if ds.len() > 0 {
        lemma_find_fraction_none_iff(ds.drop_last(), delegatee);
        assert(forall|i: int| 0 <= i < ds.len() - 1 ==> ds.drop_last()[i] == ds[i]);
        assert(ds.last() == ds[ds.len() - 1]);
    }
}

/// What dropping one delegatee's entry leaves: no entry for that delegatee,
/// every other lookup unchanged, and the list's shape invariants kept.
pub proof fn lemma_without_delegatee(ds: Seq<Delegation>, delegatee: u64)
    ensures
        without_delegatee(ds, delegatee).len() <= ds.len(),
        find_fraction(ds, delegatee) is Some ==> without_delegatee(ds, delegatee).len()
            < ds.len(),
        find_fraction(without_delegatee(ds, delegatee), delegatee) is None,
        forall|x: u64|
            x != delegatee ==> find_fraction(without_delegatee(ds, delegatee), x)
                == find_fraction(ds, x),
        forall|i: int|
            0 <= i < without_delegatee(ds, delegatee).len() ==> exists|j: int|
                0 <= j < ds.len() && #[trigger] without_delegatee(ds, delegatee)[i] == ds[j],
        unique_delegatees(ds) ==> unique_delegatees(without_delegatee(ds, delegatee)),
        fractions_in_range(ds) ==> fractions_in_range(without_delegatee(ds, delegatee)),
    decreases ds.len(),
{
    if ds.len() > 0 {
        let dl = ds.drop_last();
        lemma_without_delegatee(dl, delegatee);
        assert(forall|i: int| 0 <= i < ds.len() - 1 ==> dl[i] == ds[i]);
        assert(ds.last() == ds[ds.len() - 1]);
        if ds.last().delegatee == delegatee {
            assert forall|x: u64| x != delegatee implies find_fraction(
                without_delegatee(ds, delegatee),
                x,
            ) == find_fraction(ds, x) by {
                assert(without_delegatee(ds, delegatee) == without_delegatee(dl, delegatee));
                assert(find_fraction(ds, x) == find_fraction(dl, x));
            }
        }
        if ds.last().delegatee != delegatee {
            let w = without_delegatee(dl, delegatee).push(ds.last());
            assert(w.drop_last() =~= without_delegatee(dl, delegatee));
            assert(w.last() == ds.last());
            assert forall|x: u64| x != delegatee implies find_fraction(w, x) == find_fraction(
                ds,
                x,
            ) by {
                if ds.last().delegatee != x {
                    assert(find_fraction(w, x) == find_fraction(without_delegatee(dl, delegatee), x));
                    assert(find_fraction(ds, x) == find_fraction(dl, x));
                }
            }
            // membership: each element of w embeds into ds
            assert forall|i: int| 0 <= i < w.len() implies exists|j: int|
                0 <= j < ds.len() && #[trigger] w[i] == ds[j] by {
                if i < w.len() - 1 {
                    let j0 = choose|j: int|
                        0 <= j < dl.len() && without_delegatee(dl, delegatee)[i] == dl[j];
                    assert(w[i] == ds[j0]);
                } else {
                    assert(w[i] == ds[ds.len() - 1]);
                }
            }
            // uniqueness: the pushed entry's delegatee is absent from dl
            if unique_delegatees(ds) {
                assert forall|i: int, j: int| 0 <= i < j < w.len() implies w[i].delegatee
                    != w[j].delegatee by {
                    if j < w.len() - 1 {
                        assert(unique_delegatees(without_delegatee(dl, delegatee)));
                    } else {
                        let j0 = choose|k: int|
                            0 <= k < dl.len() && without_delegatee(dl, delegatee)[i] == dl[k];
                        assert(ds[j0].delegatee != ds[ds.len() - 1].delegatee);
                    }
                }
            }
        }
    }
}

/// Dropping one delegatee's entry and summing is the same as summing while
/// skipping that delegatee.
pub proof fn lemma_committed_without(ds: Seq<Delegation>, now: u64, delegatee: u64)
    ensures
        committed(without_delegatee(ds, delegatee), now) == committed_excluding(ds, now, delegatee),
    decreases ds.len(),
{
    if ds.len() > 0 {
        let dl = ds.drop_last();
        lemma_committed_without(dl, now, delegatee);
        if ds.last().delegatee != delegatee {
            let w = without_delegatee(dl, delegatee).push(ds.last());
            assert(w.drop_last() =~= without_delegatee(dl, delegatee));
            assert(w.last() == ds.last());
        }
    }
}

/// Whether the list holds an entry naming `delegatee`.
fn has_delegatee(list: &Vec<Delegation>, delegatee: u64) -> (found: bool)
    ensures
        found == (find_fraction(list@, delegatee) is Some),
{
    let n: usize = list.len();
    let mut found: bool = false;
    let mut i: usize = 0;
    while i < n && !found
        invariant
            i <= n,
            n == list@.len(),
            found ==> exists|j: int| 0 <= j < n && (#[trigger] list@[j]).delegatee == delegatee,
            !found ==> forall|j: int| 0 <= j < i ==> (#[trigger] list@[j]).delegatee != delegatee,
        decreases n - i,
    {
        if list[i].delegatee == delegatee {
            found = true;
        }
        i = i + 1;
    }
    proof {
        lemma_find_fraction_none_iff(list@, delegatee);
    }
    found
}

/// Computes [`committed_excluding`] over a delegation list.
fn committed_excluding_exec(list: &Vec<Delegation>, now: u64, excluded: u64) -> (total: u128)
    requires
        fractions_in_range(list@),
    ensures
        total as int == committed_excluding(list@, now, excluded),
{
    let n: usize = list.len();
    let mut total: u128 = 0;
    let mut i: usize = 0;
    while i < n
        invariant
            i <= n,
            n == list@.len(),
            fractions_in_range(list@),
            total as int == committed_excluding(list@.take(i as int), now, excluded),
            total as int <= (i as int) * FRACTION_ONE,
        decreases n - i,
    {
        let d = list[i];
        proof {
            assert(list@.take(i as int + 1).drop_last() =~= list@.take(i as int));
            assert(list@.take(i as int + 1).last() == list@[i as int]);
            assert((i as int + 1) * FRACTION_ONE <= 0xFFFF_FFFF_FFFF_FFFF * FRACTION_ONE)
                by (nonlinear_arith)
                requires
                    i as int + 1 <= 0xFFFF_FFFF_FFFF_FFFF,
            ;
        }
        if d.valid_until > now && d.delegatee != excluded {
            total = total + d.fraction;
        }
        i = i + 1;
    }
    proof {
        assert(list@.take(n as int) =~= list@);
    }
    total
}

/// What a successful `make_delegation` call does to the registry: in the
/// delegator's list the entry naming `delegatee`, if any, is replaced by a
/// fresh one appended at the end; the reverse index now answers `fraction`
/// for this pair; nothing else changes.
pub open spec fn delegation_made(
    pre: VoteDelegation,
    post: VoteDelegation,
    delegator: u64,
    delegatee: u64,
    fraction: u128,
    valid_until: u64,
) -> bool {
    &&& post.delegations_of(delegator) == without_delegatee(
        pre.delegations_of(delegator),
        delegatee,
    ).push(Delegation { delegatee, fraction, valid_until })
    &&& forall|d: u64|
        d != delegator ==> #[trigger] post.delegations_of(d) == pre.delegations_of(d)
    &&& post.reverse_of(delegatee, delegator) == Some(fraction)
    &&& forall|e: u64, d: u64|
        !(e == delegatee && d == delegator) ==> #[trigger] post.reverse_of(e, d)
            == pre.reverse_of(e, d)
}

/// What a successful `remove_delegation` call does: the entry naming
/// `delegatee` leaves the delegator's list and the reverse index forgets
/// the pair; nothing else changes.
pub open spec fn delegation_removed(
    pre: VoteDelegation,
    post: VoteDelegation,
    delegator: u64,
    delegatee: u64,
) -> bool {
    &&& post.delegations_of(delegator) == without_delegatee(
        pre.delegations_of(delegator),
        delegatee,
    )
    &&& forall|d: u64|
        d != delegator ==> #[trigger] post.delegations_of(d) == pre.delegations_of(d)
    &&& post.reverse_of(delegatee, delegator) is None
    &&& forall|e: u64, d: u64|
        !(e == delegatee && d == delegator) ==> #[trigger] post.reverse_of(e, d)
            == pre.reverse_of(e, d)
}

/// The delegation registry. `delegators` is the primary store: the ordered
/// delegation list of each delegator. `delegatees` is the reverse index:
/// for each delegatee, the fraction each delegator has assigned to it. The
/// two are mutated in lockstep and never diverge (see [`Self::wf`]).
pub struct VoteDelegation {
    pub delegators: HashMap<u64, Vec<Delegation>>,
    pub delegatees: HashMap<u64, HashMap<u64, u128>>,
}

impl VoteDelegation {
    /// The delegation list of `delegator`; empty if it has none.
    pub open spec fn delegations_of(self, delegator: u64) -> Seq<Delegation> {
        if self.delegators@.contains_key(delegator) {
            self.delegators@[delegator]@
        } else {
            Seq::<Delegation>::empty()
        }
    }

    /// The reverse index's answer for the pair (`delegatee`, `delegator`).
    pub open spec fn reverse_of(self, delegatee: u64, delegator: u64) -> Option<u128> {
        if self.delegatees@.contains_key(delegatee)
            && self.delegatees@[delegatee]@.contains_key(delegator) {
            Some(self.delegatees@[delegatee]@[delegator])
        } else {
            None
        }
    }

    /// Structural well-formedness: per-delegator lists keep at most one
    /// entry per delegatee with fractions in `(0, 1]` and never more than
    /// `MAX_DELEGATIONS` entries, and the reverse index answers exactly
    /// what the primary lists say.
    pub open spec fn wf(self) -> bool {
        &&& forall|d: u64|
            self.delegators@.contains_key(d) ==> unique_delegatees(
                (#[trigger] self.delegators@[d])@,
            )
        &&& forall|d: u64|
            self.delegators@.contains_key(d) ==> fractions_in_range(
                (#[trigger] self.delegators@[d])@,
            )
        &&& forall|d: u64|
            self.delegators@.contains_key(d) ==> (#[trigger] self.delegators@[d])@.len()
                <= MAX_DELEGATIONS
        &&& forall|e: u64, d: u64| #[trigger]
            self.reverse_of(e, d) == find_fraction(self.delegations_of(d), e)
    }

    /// The delegation cap at time `now`: no delegator's valid outgoing
    /// fractions sum to more than 1.
    pub open spec fn cap_ok(self, now: u64) -> bool {
        forall|d: u64| committed(#[trigger] self.delegations_of(d), now) <= FRACTION_ONE
    }

    /// Why `make_delegation` rejects, if it does, checked in this order.
    pub open spec fn make_delegation_err(
        self,
        delegator: u64,
        delegatee: u64,
        fraction: u128,
        valid_until: u64,
        presence_verified: bool,
        current_time: u64,
    ) -> Option<GovernanceError> {
        if !presence_verified {
            Some(GovernanceError::NotAuthorized)
        } else if fraction == 0 || fraction > FRACTION_ONE {
            Some(GovernanceError::ValidationError)
        } else if delegator == delegatee {
            Some(GovernanceError::ValidationError)
        } else if valid_until <= current_time {
            Some(GovernanceError::ValidationError)
        } else if self.delegations_of(delegator).len() >= MAX_DELEGATIONS && find_fraction(
            self.delegations_of(delegator),
            delegatee,
        ) is None {
            Some(GovernanceError::ValidationError)
        } else if committed_excluding(self.delegations_of(delegator), current_time, delegatee)
            + fraction > FRACTION_ONE {
            Some(GovernanceError::CapExceeded)
        } else {
            None
        }
    }

    /// Why `remove_delegation` rejects, if it does.
    pub open spec fn remove_delegation_err(
        self,
        delegator: u64,
        delegatee: u64,
        presence_verified: bool,
    ) -> Option<GovernanceError> {
        if !presence_verified {
            Some(GovernanceError::NotAuthorized)
        } else if find_fraction(self.delegations_of(delegator), delegatee) is None {
            Some(GovernanceError::NotFound)
        } else {
            None
        }
    }

    /// An empty registry.
    pub fn instantiate() -> (result: VoteDelegation)
        ensures
            result.wf(),
            forall|d: u64| #[trigger] result.delegations_of(d) == Seq::<Delegation>::empty(),
            forall|e: u64, d: u64| #[trigger] result.reverse_of(e, d) is None,
            forall|t: u64| #[trigger] result.cap_ok(t),
    {
        let result = VoteDelegation {
            delegators: HashMap::new(),
            delegatees: HashMap::new(),
        };
        result
    }

    /// Delegates `fraction` of `delegator`'s voting weight to `delegatee`
    /// until `valid_until`, replacing any existing entry for the same
    /// delegatee. Rejects a missing presence proof, a fraction outside
    /// `(0, 1]`, self-delegation, an expiry not strictly in the future, an
    /// entry that would grow the delegator's list beyond `MAX_DELEGATIONS`
    /// (replacing an existing entry is exempt), and any delegation that
    /// would push the delegator's valid committed fraction over 1; a
    /// rejected call leaves the registry unchanged.
    pub fn make_delegation(
        &mut self,
        delegator: u64,
        delegatee: u64,
        fraction: u128,
        valid_until: u64,
        presence_verified: bool,
        current_time: u64,
    ) -> (result: Result<(), GovernanceError>)
        requires
            old(self).wf(),
        ensures
            final(self).wf(),
            match old(self).make_delegation_err(
                delegator,
                delegatee,
                fraction,
                valid_until,
                presence_verified,
                current_time,
            ) {
                Some(e) => result == Err::<(), GovernanceError>(e) && *final(self) == *old(self),
                None => result == Ok::<(), GovernanceError>(()) && delegation_made(
                    *old(self),
                    *final(self),
                    delegator,
                    delegatee,
                    fraction,
                    valid_until,
                ),
            },
            committed(final(self).delegations_of(delegator), current_time) <= FRACTION_ONE
                || *final(self) == *old(self),
            old(self).cap_ok(current_time) ==> final(self).cap_ok(current_time),
    {
        if !presence_verified {
            return Err(GovernanceError::NotAuthorized);
        }
        if fraction == 0 || fraction > FRACTION_ONE {
            return Err(GovernanceError::ValidationError);
        }
        if delegator == delegatee {
            return Err(GovernanceError::ValidationError);
        }
        if valid_until <= current_time {
            return Err(GovernanceError::ValidationError);
        }

        // The count cap: a delegator holds at most MAX_DELEGATIONS entries,
        // expired ones included; replacing an existing entry adds none.
        let at_capacity: bool = match self.delegators.get(&delegator) {
            Some(list) => list.len() >= MAX_DELEGATIONS && !has_delegatee(list, delegatee),
            None => false,
        };
        if at_capacity {
            return Err(GovernanceError::ValidationError);
        }

        // The fraction already committed, not counting the entry about to
        // be replaced.
        let mut committed_now: u128 = 0;
        match self.delegators.get(&delegator) {
            Some(list) => {
                committed_now = committed_excluding_exec(list, current_time, delegatee);
            },
            None => {},
        }
        proof {
            assert(committed_now as int == committed_excluding(
                old(self).delegations_of(delegator),
                current_time,
                delegatee,
            ));
        }
        if committed_now > FRACTION_ONE - fraction {
            return Err(GovernanceError::CapExceeded);
        }

        let ghost pre = *self;
        let ghost old_list = self.delegations_of(delegator);
        let new_entry = Delegation { delegatee, fraction, valid_until };

        // Primary store: drop any entry naming `delegatee`, append the new one.
        let mut new_list: Vec<Delegation> = Vec::new();
        match self.delegators.remove(&delegator) {
            Some(list) => {
                let n: usize = list.len();
                let mut i: usize = 0;
                while i < n
                    invariant
                        i <= n,
                        n == list@.len(),
                        new_list@ == without_delegatee(list@.take(i as int), delegatee),
                    decreases n - i,
                {
                    proof {
                        assert(list@.take(i as int + 1).drop_last() =~= list@.take(i as int));
                        assert(list@.take(i as int + 1).last() == list@[i as int]);
                    }
                    if list[i].delegatee != delegatee {
                        new_list.push(list[i]);
                    }
                    i = i + 1;
                }
                proof {
                    assert(list@.take(n as int) =~= list@);
                }
            },
            None => {
                proof {
                    assert(without_delegatee(old_list, delegatee) =~= new_list@);
                }
            },
        }
        new_list.push(new_entry);
        self.delegators.insert(delegator, new_list);

        // Reverse index: record `fraction` under (`delegatee`, `delegator`).
        let mut inner: HashMap<u64, u128> = match self.delegatees.remove(&delegatee) {
            Some(m) => m,
            None => HashMap::new(),
        };
        inner.insert(delegator, fraction);
        self.delegatees.insert(delegatee, inner);

        proof {
            let post = *self;
            let base = without_delegatee(old_list, delegatee);
            lemma_without_delegatee(old_list, delegatee);
            assert(post.delegations_of(delegator) == base.push(new_entry));
            assert(base.push(new_entry).drop_last() =~= base);

            // structural well-formedness of the one changed list
            if pre.delegators@.contains_key(delegator) {
                assert(unique_delegatees(old_list));
                assert(fractions_in_range(old_list));
            }
            lemma_find_fraction_none_iff(base, delegatee);
            assert forall|i: int, j: int| 0 <= i < j < base.push(new_entry).len() implies base.push(
                new_entry,
            )[i].delegatee != base.push(new_entry)[j].delegatee by {
                if j < base.len() {
                    assert(base[i].delegatee != base[j].delegatee);
                } else {
                    assert(base[i].delegatee != delegatee);
                }
            }
            assert(unique_delegatees(post.delegations_of(delegator)));
            assert forall|i: int| 0 <= i < base.push(new_entry).len() implies 0 < (
            #[trigger] base.push(new_entry)[i]).fraction <= FRACTION_ONE by {
                if i < base.len() {
                    assert(base.push(new_entry)[i] == base[i]);
                }
            }
            assert(fractions_in_range(post.delegations_of(delegator)));

            // reverse index stays consistent with the primary store
            assert forall|e: u64, d: u64| #[trigger] post.reverse_of(e, d) == find_fraction(
                post.delegations_of(d),
                e,
            ) by {
                if d == delegator {
                    if e == delegatee {
                        assert(base.push(new_entry).last() == new_entry);
                        assert(find_fraction(post.delegations_of(d), e) == Some(fraction));
                        assert(post.reverse_of(e, d) == Some(fraction));
                    } else {
                        assert(find_fraction(base.push(new_entry), e) == find_fraction(base, e));
                        assert(find_fraction(base, e) == find_fraction(old_list, e));
                        assert(post.reverse_of(e, d) == pre.reverse_of(e, d));
                        assert(pre.reverse_of(e, d) == find_fraction(pre.delegations_of(d), e));
                    }
                } else {
                    assert(post.delegations_of(d) == pre.delegations_of(d));
                    assert(post.reverse_of(e, d) == pre.reverse_of(e, d));
                    assert(pre.reverse_of(e, d) == find_fraction(pre.delegations_of(d), e));
                }
            }

            // the transition predicate
            assert(delegation_made(pre, post, delegator, delegatee, fraction, valid_until));

            // the changed list still respects the cap now
            lemma_committed_without(old_list, current_time, delegatee);
            assert(committed(base.push(new_entry), current_time) == committed(base, current_time)
                + fraction);
            assert(committed(post.delegations_of(delegator), current_time) <= FRACTION_ONE);
            if pre.cap_ok(current_time) {
                assert forall|d: u64| committed(
                    #[trigger] post.delegations_of(d),
                    current_time,
                ) <= FRACTION_ONE by {
                    if d != delegator {
                        assert(post.delegations_of(d) == pre.delegations_of(d));
                        assert(committed(pre.delegations_of(d), current_time) <= FRACTION_ONE);
                    }
                }
            }
        }
        Ok(())
    }

    /// Removes `delegator`'s entry for `delegatee` from the primary list
    /// and the reverse index. Rejects a missing presence proof, and reports
    /// `NotFound` when the delegator has no entries at all or none naming
    /// `delegatee`; a rejected call leaves the registry unchanged.
    pub fn remove_delegation(&mut self, delegator: u64, delegatee: u64, presence_verified: bool)
        -> (result: Result<(), GovernanceError>)
        requires
            old(self).wf(),
        ensures
            final(self).wf(),
            match old(self).remove_delegation_err(delegator, delegatee, presence_verified) {
                Some(e) => result == Err::<(), GovernanceError>(e) && *final(self) == *old(self),
                None => result == Ok::<(), GovernanceError>(()) && delegation_removed(
                    *old(self),
                    *final(self),
                    delegator,
                    delegatee,
                ),
            },
    {
        if !presence_verified {
            return Err(GovernanceError::NotAuthorized);
        }

        let ghost pre = *self;
        let ghost old_list = self.delegations_of(delegator);

        // Scan the primary list before touching anything.
        let found: bool = match self.delegators.get(&delegator) {
            Some(list) => has_delegatee(list, delegatee),
            None => false,
        };
        if !found {
            return Err(GovernanceError::NotFound);
        }

        // Primary store: rebuild the list without the matching entry.
        let mut new_list: Vec<Delegation> = Vec::new();
        match self.delegators.remove(&delegator) {
            Some(list) => {
                let n: usize = list.len();
                let mut i: usize = 0;
                while i < n
                    invariant
                        i <= n,
                        n == list@.len(),
                        new_list@ == without_delegatee(list@.take(i as int), delegatee),
                    decreases n - i,
                {
                    proof {
                        assert(list@.take(i as int + 1).drop_last() =~= list@.take(i as int));
                        assert(list@.take(i as int + 1).last() == list@[i as int]);
                    }
                    if list[i].delegatee != delegatee {
                        new_list.push(list[i]);
                    }
                    i = i + 1;
                }
                proof {
                    assert(list@.take(n as int) =~= list@);
                }
            },
            None => {
                proof {
                    assert(false);
                }
            },
        }
        self.delegators.insert(delegator, new_list);

        // Reverse index: forget the pair. Well-formedness of the prior
        // state guarantees the index holds it.
        match self.delegatees.remove(&delegatee) {
            Some(mut inner) => {
                inner.remove(&delegator);
                self.delegatees.insert(delegatee, inner);
            },
            None => {
                proof {
                    assert(pre.reverse_of(delegatee, delegator) is Some);
                    assert(false);
                }
            },
        }

        proof {
            let post = *self;
            let base = without_delegatee(old_list, delegatee);
            lemma_without_delegatee(old_list, delegatee);
            assert(post.delegations_of(delegator) == base);
            assert(unique_delegatees(old_list));
            assert(fractions_in_range(old_list));

            assert forall|e: u64, d: u64| #[trigger] post.reverse_of(e, d) == find_fraction(
                post.delegations_of(d),
                e,
            ) by {
                if d == delegator {
                    if e == delegatee {
                        lemma_find_fraction_none_iff(base, delegatee);
                        assert(post.reverse_of(e, d) is None);
                    } else {
                        assert(find_fraction(base, e) == find_fraction(old_list, e));
                        assert(post.reverse_of(e, d) == pre.reverse_of(e, d));
                        assert(pre.reverse_of(e, d) == find_fraction(pre.delegations_of(d), e));
                    }
                } else {
                    assert(post.delegations_of(d) == pre.delegations_of(d));
                    assert(post.reverse_of(e, d) == pre.reverse_of(e, d));
                    assert(pre.reverse_of(e, d) == find_fraction(pre.delegations_of(d), e));
                }
            }
            assert(delegation_removed(pre, post, delegator, delegatee));
        }
        Ok(())
    }

    /// A snapshot of `delegator`'s current entries, expired ones included;
    /// empty if it has none.
    pub fn get_delegations(&self, delegator: u64) -> (result: Vec<Delegation>)
        ensures
            result@ == self.delegations_of(delegator),
    {
        let mut out: Vec<Delegation> = Vec::new();
        match self.delegators.get(&delegator) {
            Some(list) => {
                let n: usize = list.len();
                let mut i: usize = 0;
                while i < n
                    invariant
                        i <= n,
                        n == list@.len(),
                        out@ == list@.take(i as int),
                    decreases n - i,
                {
                    out.push(list[i]);
                    proof {
                        assert(list@.take(i as int + 1) =~= list@.take(i as int).push(
                            list@[i as int],
                        ));
                    }
                    i = i + 1;
                }
                proof {
                    assert(list@.take(n as int) =~= list@);
                }
            },
            None => {},
        }
        out
    }

    /// The fraction `delegator` has assigned to `delegatee`, from the
    /// reverse index; absent when no record exists.
    pub fn get_delegatee_delegators(&self, delegatee: u64, delegator: u64) -> (result: Option<
        u128,
    >)
        ensures
            result == self.reverse_of(delegatee, delegator),
    {
        match self.delegatees.get(&delegatee) {
            Some(inner) => match inner.get(&delegator) {
                Some(fraction) => Some(*fraction),
                None => None,
            },
            None => None,
        }
    }
}

/// The delegation cap outlasts the moment it was checked: once no
/// delegator's valid fractions sum to more than 1, the same holds at every
/// later time, because entries only expire.
pub proof fn lemma_cap_monotone(s: VoteDelegation, t1: u64, t2: u64)
    requires
        s.cap_ok(t1),
        t1 <= t2,
    ensures
        s.cap_ok(t2),
{
    assert forall|d: u64| committed(#[trigger] s.delegations_of(d), t2) <= FRACTION_ONE by {
        lemma_committed_monotone(s.delegations_of(d), t1, t2);
        assert(committed(s.delegations_of(d), t1) <= FRACTION_ONE);
    }
}

/// A successful delegation keeps every delegator under the cap at the time
/// of the call: the caller's new list sums to at most 1 because the call
/// was admitted, and no other list changes.
pub proof fn lemma_cap_preserved_by_make(
    pre: VoteDelegation,
    post: VoteDelegation,
    delegator: u64,
    delegatee: u64,
    fraction: u128,
    valid_until: u64,
    now: u64,
)
    requires
        pre.cap_ok(now),
        pre.make_delegation_err(delegator, delegatee, fraction, valid_until, true, now) is None,
        delegation_made(pre, post, delegator, delegatee, fraction, valid_until),
    ensures
        post.cap_ok(now),
{
    let old_list = pre.delegations_of(delegator);
    let base = without_delegatee(old_list, delegatee);
    let new_entry = Delegation { delegatee, fraction, valid_until };
    lemma_committed_without(old_list, now, delegatee);
    assert(base.push(new_entry).drop_last() =~= base);
    assert(base.push(new_entry).last() == new_entry);
    assert(committed(post.delegations_of(delegator), now) <= FRACTION_ONE);
    assert forall|d: u64| committed(#[trigger] post.delegations_of(d), now) <= FRACTION_ONE by {
        if d != delegator {
            assert(post.delegations_of(d) == pre.delegations_of(d));
            assert(committed(pre.delegations_of(d), now) <= FRACTION_ONE);
        }
    }
}

/// Removing a delegation can only lower a delegator's committed sum, so
/// the cap holds afterwards at every time at which it held before.
pub proof fn lemma_cap_preserved_by_removal(
    pre: VoteDelegation,
    post: VoteDelegation,
    delegator: u64,
    delegatee: u64,
    now: u64,
)
    requires
        pre.cap_ok(now),
        delegation_removed(pre, post, delegator, delegatee),
    ensures
        post.cap_ok(now),
{
    let old_list = pre.delegations_of(delegator);
    lemma_committed_without(old_list, now, delegatee);
    lemma_committed_excluding_le(old_list, now, delegatee);
    assert forall|d: u64| committed(#[trigger] post.delegations_of(d), now) <= FRACTION_ONE by {
        if d != delegator {
            assert(post.delegations_of(d) == pre.delegations_of(d));
        }
        assert(committed(pre.delegations_of(d), now) <= FRACTION_ONE);
    }
}

/// Delegating to oneself, with a fraction of zero or above 1, or with an
/// expiry at or before the current time is always rejected as invalid,
/// whatever the registry holds.
pub proof fn lemma_delegation_validation(
    s: VoteDelegation,
    delegator: u64,
    delegatee: u64,
    fraction: u128,
    valid_until: u64,
    now: u64,
)
    ensures
        delegator == delegatee ==> s.make_delegation_err(
            delegator,
            delegatee,
            fraction,
            valid_until,
            true,
            now,
        ) == Some(GovernanceError::ValidationError),
        fraction == 0 || fraction > FRACTION_ONE ==> s.make_delegation_err(
            delegator,
            delegatee,
            fraction,
            valid_until,
            true,
            now,
        ) == Some(GovernanceError::ValidationError),
        valid_until <= now ==> s.make_delegation_err(
            delegator,
            delegatee,
            fraction,
            valid_until,
            true,
            now,
        ) == Some(GovernanceError::ValidationError),
{
}

/// Round trip: right after a delegation is made, the reverse index answers
/// exactly the delegated fraction for the pair, and right after it is
/// removed, the same lookup answers nothing.
pub proof fn lemma_delegation_round_trip(
    pre: VoteDelegation,
    mid: VoteDelegation,
    post: VoteDelegation,
    delegator: u64,
    delegatee: u64,
    fraction: u128,
    valid_until: u64,
)
    requires
        delegation_made(pre, mid, delegator, delegatee, fraction, valid_until),
        delegation_removed(mid, post, delegator, delegatee),
    ensures
        mid.reverse_of(delegatee, delegator) == Some(fraction),
        post.reverse_of(delegatee, delegator) is None,
{
}

} // verus!
