//! The proposal lifecycle engine: temperature checks are created from
//! drafts, voted on during a time window, and elevated at most once into
//! proposals, which carry their own window and selection rules. Ballot
//! identifiers are dense, zero-based positions in the stores, assigned in
//! creation order and never reused.

use vstd::prelude::*;

use std::collections::HashMap;

use crate::File;
use crate::GovernanceError;
use crate::GovernanceParameters;
use crate::Proposal;
use crate::ProposalVoteOption;
use crate::ProposalVoteOptionId;
use crate::TemperatureCheck;
use crate::TemperatureCheckDraft;
use crate::TemperatureCheckVote;
use crate::valid_selection;
use crate::option_ids_contain;
use crate::distinct_selection;
use crate::selection_count_allowed;
use crate::MAX_ATTACHMENTS;
use crate::MAX_VOTE_OPTIONS;

verus! {

broadcast use vstd::std_specs::hash::group_hash_axioms;

/// The governance component: the live parameter set, and the two ballot
/// stores indexed by their dense identifiers.
pub struct Governance {
    pub governance_parameters: GovernanceParameters,
    pub temperature_checks: Vec<TemperatureCheck>,
    pub proposals: Vec<Proposal>,
}

/// The seconds in a day, used to turn configured day counts into deadlines.
pub const SECONDS_PER_DAY: u64 = 86400;

/// A freshly created temperature check: the draft's fields, the
/// temperature-check tier of `params` snapshotted, a window of the
/// configured length starting at `now`, no votes and no elevation.
pub open spec fn tc_from_draft(
    tc: TemperatureCheck,
    draft: TemperatureCheckDraft,
    params: GovernanceParameters,
    now: u64,
) -> bool {
    &&& tc.title == draft.title
    &&& tc.description == draft.description
    &&& tc.vote_options == draft.vote_options
    &&& tc.attachments == draft.attachments
    &&& tc.rfc_url == draft.rfc_url
    &&& tc.max_selections == draft.max_selections
    &&& tc.quorum == params.temperature_check_quorum
    &&& tc.approval_threshold == params.temperature_check_approval_threshold
    &&& tc.start == now
    &&& tc.deadline == now + params.temperature_check_days * SECONDS_PER_DAY
    &&& tc.votes@ == Map::<u64, TemperatureCheckVote>::empty()
    &&& tc.elevated_proposal_id is None
}

/// A freshly elevated proposal: the source check's ballot fields copied,
/// the proposal tier of `params` snapshotted, its own window starting at
/// `now`, no votes, and the back-reference to its origin.
pub open spec fn proposal_from_tc(
    p: Proposal,
    tc: TemperatureCheck,
    params: GovernanceParameters,
    now: u64,
    temperature_check_id: u64,
) -> bool {
    &&& p.title == tc.title
    &&& p.description == tc.description
    &&& p.vote_options@ == tc.vote_options@
    &&& p.attachments@ == tc.attachments@
    &&& p.rfc_url == tc.rfc_url
    &&& p.max_selections == tc.max_selections
    &&& p.quorum == params.proposal_quorum
    &&& p.approval_threshold == params.proposal_approval_threshold
    &&& p.start == now
    &&& p.deadline == now + params.proposal_length_days * SECONDS_PER_DAY
    &&& p.votes@ == Map::<u64, Vec<ProposalVoteOptionId>>::empty()
    &&& p.temperature_check_id == temperature_check_id
}

/// Two temperature checks equal except that the second has been marked as
/// elevated to proposal `proposal_id`.
pub open spec fn tc_with_elevation(pre: TemperatureCheck, post: TemperatureCheck, proposal_id: u64)
    -> bool {
    &&& post.title == pre.title
    &&& post.description == pre.description
    &&& post.vote_options == pre.vote_options
    &&& post.attachments == pre.attachments
    &&& post.rfc_url == pre.rfc_url
    &&& post.max_selections == pre.max_selections
    &&& post.quorum == pre.quorum
    &&& post.approval_threshold == pre.approval_threshold
    &&& post.start == pre.start
    &&& post.deadline == pre.deadline
    &&& post.votes == pre.votes
    &&& post.elevated_proposal_id == Some(proposal_id)
}

/// Two temperature checks equal except that the second also records
/// `vote` for `account`.
pub open spec fn tc_with_vote(
    pre: TemperatureCheck,
    post: TemperatureCheck,
    account: u64,
    vote: TemperatureCheckVote,
) -> bool {
    &&& post.title == pre.title
    &&& post.description == pre.description
    &&& post.vote_options == pre.vote_options
    &&& post.attachments == pre.attachments
    &&& post.rfc_url == pre.rfc_url
    &&& post.max_selections == pre.max_selections
    &&& post.quorum == pre.quorum
    &&& post.approval_threshold == pre.approval_threshold
    &&& post.start == pre.start
    &&& post.deadline == pre.deadline
    &&& post.votes@ == pre.votes@.insert(account, vote)
    &&& post.elevated_proposal_id == pre.elevated_proposal_id
}

/// Two proposals equal except that the second also records the selection
/// set `sels` for `account`.
pub open spec fn proposal_with_vote(
    pre: Proposal,
    post: Proposal,
    account: u64,
    sels: Seq<ProposalVoteOptionId>,
) -> bool {
    &&& post.title == pre.title
    &&& post.description == pre.description
    &&& post.vote_options == pre.vote_options
    &&& post.attachments == pre.attachments
    &&& post.rfc_url == pre.rfc_url
    &&& post.max_selections == pre.max_selections
    &&& post.quorum == pre.quorum
    &&& post.approval_threshold == pre.approval_threshold
    &&& post.start == pre.start
    &&& post.deadline == pre.deadline
    &&& post.votes@.contains_key(account) && post.votes@[account]@ == sels
    &&& post.votes@.remove(account) == pre.votes@.remove(account)
    &&& !pre.votes@.contains_key(account)
    &&& post.temperature_check_id == pre.temperature_check_id
}

/// What a successful creation does: the next dense identifier is handed
/// out, the new check is appended as described by [`tc_from_draft`], and
/// nothing else changes.
pub open spec fn temperature_check_created(
    pre: Governance,
    post: Governance,
    draft: TemperatureCheckDraft,
    now: u64,
    id: u64,
) -> bool {
    &&& id == pre.temperature_checks@.len()
    &&& post.temperature_checks@.len() == pre.temperature_checks@.len() + 1
    &&& forall|i: int|
        0 <= i < pre.temperature_checks@.len() ==> #[trigger] post.temperature_checks@[i]
            == pre.temperature_checks@[i]
    &&& tc_from_draft(post.temperature_checks@.last(), draft, pre.governance_parameters, now)
    &&& post.proposals == pre.proposals
    &&& post.governance_parameters == pre.governance_parameters
}

/// What a successful elevation does: the next dense proposal identifier is
/// handed out, the new proposal is appended as described by
/// [`proposal_from_tc`], the source check is marked as elevated to it, and
/// nothing else changes.
pub open spec fn proposal_created(
    pre: Governance,
    post: Governance,
    temperature_check_id: u64,
    now: u64,
    proposal_id: u64,
) -> bool {
    &&& proposal_id == pre.proposals@.len()
    &&& post.proposals@.len() == pre.proposals@.len() + 1
    &&& forall|j: int|
        0 <= j < pre.proposals@.len() ==> #[trigger] post.proposals@[j] == pre.proposals@[j]
    &&& proposal_from_tc(
        post.proposals@.last(),
        pre.temperature_checks@[temperature_check_id as int],
        pre.governance_parameters,
        now,
        temperature_check_id,
    )
    &&& post.temperature_checks@.len() == pre.temperature_checks@.len()
    &&& forall|i: int|
        0 <= i < pre.temperature_checks@.len() && i != temperature_check_id
            ==> #[trigger] post.temperature_checks@[i] == pre.temperature_checks@[i]
    &&& tc_with_elevation(
        pre.temperature_checks@[temperature_check_id as int],
        post.temperature_checks@[temperature_check_id as int],
        proposal_id,
    )
    &&& post.governance_parameters == pre.governance_parameters
}

/// Copies a vote-option list element by element.
fn copy_vote_options(v: &Vec<ProposalVoteOption>) -> (result: Vec<ProposalVoteOption>)
    ensures
        result@ == v@,
{
    let n: usize = v.len();
    let mut out: Vec<ProposalVoteOption> = Vec::new();
    let mut i: usize = 0;
    while i < n
        invariant
            i <= n,
            n == v@.len(),
            out@ == v@.take(i as int),
        decreases n - i,
    {
        let item = ProposalVoteOption { id: v[i].id, label: v[i].label.clone() };
        proof {
            assert(item == v@[i as int]);
            assert(v@.take(i as int + 1) =~= v@.take(i as int).push(v@[i as int]));
        }
        out.push(item);
        i = i + 1;
    }
    proof {
        assert(v@.take(n as int) =~= v@);
    }
    out
}

/// Copies an attachment list element by element.
fn copy_files(v: &Vec<File>) -> (result: Vec<File>)
    ensures
        result@ == v@,
{
    let n: usize = v.len();
    let mut out: Vec<File> = Vec::new();
    let mut i: usize = 0;
    while i < n
        invariant
            i <= n,
            n == v@.len(),
            out@ == v@.take(i as int),
        decreases n - i,
    {
        let item = File {
            kvs_address: v[i].kvs_address.clone(),
            component_address: v[i].component_address.clone(),
            file_hash: v[i].file_hash.clone(),
        };
        proof {
            assert(item == v@[i as int]);
            assert(v@.take(i as int + 1) =~= v@.take(i as int).push(v@[i as int]));
        }
        out.push(item);
        i = i + 1;
    }
    proof {
        assert(v@.take(n as int) =~= v@);
    }
    out
}

/// Whether `id` names one of `options`.
fn option_exists(options: &Vec<ProposalVoteOption>, id: ProposalVoteOptionId) -> (found: bool)
    ensures
        found == option_ids_contain(options@, id),
{
    let n: usize = options.len();
    let mut i: usize = 0;
    while i < n
        invariant
            i <= n,
            n == options@.len(),
            forall|k: int| 0 <= k < i ==> (#[trigger] options@[k]).id != id,
        decreases n - i,
    {
        if options[i].id == id {
            return true;
        }
        i = i + 1;
    }
    false
}

/// Whether `sels` is a selection set the ballot accepts: distinct ids that
/// all name options, in a permitted quantity.
fn check_selection(
    options: &Vec<ProposalVoteOption>,
    max_selections: Option<u32>,
    sels: &Vec<ProposalVoteOptionId>,
) -> (ok: bool)
    ensures
        ok == valid_selection(options@, max_selections, sels@),
{
    let k: usize = sels.len();
    let count_ok: bool = match max_selections {
        Some(n) => 1 <= k && k <= n as usize,
        None => k == 1,
    };
    if !count_ok {
        proof {
            assert(!selection_count_allowed(max_selections, sels@.len()));
        }
        return false;
    }
    let mut i: usize = 0;
    while i < k
        invariant
            i <= k,
            k == sels@.len(),
            forall|a: int, b: int| 0 <= a < i && a < b < k ==> sels@[a] != sels@[b],
            forall|a: int| 0 <= a < i ==> option_ids_contain(options@, #[trigger] sels@[a]),
        decreases k - i,
    {
        if !option_exists(options, sels[i]) {
            return false;
        }
        let mut j: usize = i + 1;
        while j < k
            invariant
                i < j <= k,
                k == sels@.len(),
                forall|b: int| i < b < j ==> sels@[i as int] != sels@[b],
            decreases k - j,
        {
            if sels[i] == sels[j] {
                proof {
                    assert(!distinct_selection(sels@));
                }
                return false;
            }
            j = j + 1;
        }
        i = i + 1;
    }
    true
}

/// Why creating a temperature check from `draft` fails, if it does.
pub open spec fn create_temperature_check_err(draft: TemperatureCheckDraft) -> Option<
    GovernanceError,
> {
    if !draft.valid() {
        Some(GovernanceError::ValidationError)
    } else {
        None
    }
}

impl Governance {
    /// Every stored ballot keeps its shape, and the elevation references
    /// form a bijection between elevated temperature checks and proposals:
    /// a check marked elevated points to a proposal that points back, and
    /// every proposal's origin points to it.
    pub open spec fn wf(self) -> bool {
        &&& forall|i: int|
            0 <= i < self.temperature_checks@.len() ==> (
            #[trigger] self.temperature_checks@[i]).wf()
        &&& forall|i: int|
            0 <= i < self.temperature_checks@.len() ==> match (
            #[trigger] self.temperature_checks@[i]).elevated_proposal_id {
                Some(p) => p < self.proposals@.len() && self.proposals@[p as int].temperature_check_id
                    == i,
                None => true,
            }
        &&& forall|j: int| 0 <= j < self.proposals@.len() ==> (#[trigger] self.proposals@[j]).wf()
        &&& forall|j: int|
            0 <= j < self.proposals@.len() ==> {
                let t = (#[trigger] self.proposals@[j]).temperature_check_id;
                &&& t < self.temperature_checks@.len()
                &&& self.temperature_checks@[t as int].elevated_proposal_id == Some(j as u64)
            }
    }

    /// Why elevating `temperature_check_id` fails, if it does, checked in
    /// this order.
    pub open spec fn make_proposal_err(self, temperature_check_id: u64, caller_is_owner: bool)
        -> Option<GovernanceError> {
        if !caller_is_owner {
            Some(GovernanceError::NotAuthorized)
        } else if temperature_check_id >= self.temperature_checks@.len() {
            Some(GovernanceError::NotFound)
        } else if self.temperature_checks@[temperature_check_id as int].elevated_proposal_id
            is Some {
            Some(GovernanceError::AlreadyRecorded)
        } else {
            None
        }
    }

    /// Why a temperature-check vote fails, if it does, checked in this
    /// order.
    pub open spec fn vote_on_temperature_check_err(
        self,
        account: u64,
        temperature_check_id: u64,
        presence_verified: bool,
        current_time: u64,
    ) -> Option<GovernanceError> {
        if !presence_verified {
            Some(GovernanceError::NotAuthorized)
        } else if temperature_check_id >= self.temperature_checks@.len() {
            Some(GovernanceError::NotFound)
        } else {
            let tc = self.temperature_checks@[temperature_check_id as int];
            if current_time < tc.start || current_time >= tc.deadline {
                Some(GovernanceError::WindowClosed)
            } else if tc.votes@.contains_key(account) {
                Some(GovernanceError::AlreadyRecorded)
            } else {
                None
            }
        }
    }

    /// Why a proposal vote fails, if it does, checked in this order: the
    /// selection set is validated after the window and before the
    /// duplicate-vote check.
    pub open spec fn vote_on_proposal_err(
        self,
        account: u64,
        proposal_id: u64,
        sels: Seq<ProposalVoteOptionId>,
        presence_verified: bool,
        current_time: u64,
    ) -> Option<GovernanceError> {
        if !presence_verified {
            Some(GovernanceError::NotAuthorized)
        } else if proposal_id >= self.proposals@.len() {
            Some(GovernanceError::NotFound)
        } else {
            let p = self.proposals@[proposal_id as int];
            if current_time < p.start || current_time >= p.deadline {
                Some(GovernanceError::WindowClosed)
            } else if !valid_selection(p.vote_options@, p.max_selections, sels) {
                Some(GovernanceError::ValidationError)
            } else if p.votes@.contains_key(account) {
                Some(GovernanceError::AlreadyRecorded)
            } else {
                None
            }
        }
    }

    /// A fresh component holding `governance_parameters` and no ballots.
    pub fn instantiate(governance_parameters: GovernanceParameters) -> (result: Governance)
        ensures
            result.wf(),
            result.governance_parameters == governance_parameters,
            result.temperature_checks@.len() == 0,
            result.proposals@.len() == 0,
    {
        Governance {
            governance_parameters,
            temperature_checks: Vec::new(),
            proposals: Vec::new(),
        }
    }

    /// The live parameter set used for future ballot creations.
    pub fn get_governance_parameters(&self) -> (result: GovernanceParameters)
        ensures
            result == self.governance_parameters,
    {
        self.governance_parameters
    }

    /// How many temperature checks have been created.
    pub fn get_temperature_check_count(&self) -> (result: u64)
        ensures
            result == self.temperature_checks@.len(),
    {
        self.temperature_checks.len() as u64
    }

    /// How many proposals have been created.
    pub fn get_proposal_count(&self) -> (result: u64)
        ensures
            result == self.proposals@.len(),
    {
        self.proposals.len() as u64
    }

    /// Replaces the live parameter set used for future ballots; ballots
    /// already created keep their snapshots. Restricted to the designated
    /// privileged caller.
    pub fn update_governance_parameters(
        &mut self,
        new_params: GovernanceParameters,
        caller_is_owner: bool,
    ) -> (result: Result<(), GovernanceError>)
        requires
            old(self).wf(),
        ensures
            final(self).wf(),
            !caller_is_owner ==> result == Err::<(), GovernanceError>(
                GovernanceError::NotAuthorized,
            ) && *final(self) == *old(self),
            caller_is_owner ==> {
                &&& result == Ok::<(), GovernanceError>(())
                &&& final(self).governance_parameters == new_params
                &&& final(self).temperature_checks == old(self).temperature_checks
                &&& final(self).proposals == old(self).proposals
            },
    {
        if !caller_is_owner {
            return Err(GovernanceError::NotAuthorized);
        }
        self.governance_parameters = new_params;
        Ok(())
    }

    /// Creates a temperature check from `draft`: assigns the next dense
    /// identifier, snapshots the temperature-check tier of the live
    /// parameters, and opens a voting window of the configured length
    /// starting at `current_time`. Rejects drafts with an empty title or
    /// description, no or too many vote options, or too many attachments,
    /// leaving the store unchanged.
    pub fn make_temperature_check(&mut self, draft: TemperatureCheckDraft, current_time: u64)
        -> (result: Result<u64, GovernanceError>)
        requires
            old(self).wf(),
            current_time + old(self).governance_parameters.temperature_check_days
                * SECONDS_PER_DAY <= u64::MAX,
        ensures
            final(self).wf(),
            final(self).governance_parameters == old(self).governance_parameters,
            final(self).proposals == old(self).proposals,
            match create_temperature_check_err(draft) {
                Some(e) => result == Err::<u64, GovernanceError>(e) && *final(self) == *old(self),
                None => {
                    &&& result == Ok::<u64, GovernanceError>(
                        old(self).temperature_checks@.len() as u64,
                    )
                    &&& temperature_check_created(
                        *old(self),
                        *final(self),
                        draft,
                        current_time,
                        old(self).temperature_checks@.len() as u64,
                    )
                },
            },
    {
        if draft.title.as_str().is_empty() {
            return Err(GovernanceError::ValidationError);
        }
        if draft.description.as_str().is_empty() {
            return Err(GovernanceError::ValidationError);
        }
        if draft.vote_options.len() == 0 {
            return Err(GovernanceError::ValidationError);
        }
        if draft.vote_options.len() > MAX_VOTE_OPTIONS {
            return Err(GovernanceError::ValidationError);
        }
        if draft.attachments.len() > MAX_ATTACHMENTS {
            return Err(GovernanceError::ValidationError);
        }

        let id: u64 = self.temperature_checks.len() as u64;
        let deadline: u64 = current_time + (self.governance_parameters.temperature_check_days
            as u64) * SECONDS_PER_DAY;
        let tc = TemperatureCheck {
            title: draft.title,
            description: draft.description,
            vote_options: draft.vote_options,
            attachments: draft.attachments,
            rfc_url: draft.rfc_url,
            quorum: self.governance_parameters.temperature_check_quorum,
            approval_threshold: self.governance_parameters.temperature_check_approval_threshold,
            max_selections: draft.max_selections,
            votes: HashMap::new(),
            start: current_time,
            deadline,
            elevated_proposal_id: None,
        };
        self.temperature_checks.push(tc);
        Ok(id)
    }

    /// Elevates the temperature check into a proposal: copies its ballot
    /// fields, snapshots the proposal tier of the live parameters, opens a
    /// fresh window starting at `current_time`, records the origin id in
    /// the proposal and the proposal's id in the origin — at most once per
    /// temperature check. Restricted to the designated privileged caller;
    /// a rejected call leaves the store unchanged.
    pub fn make_proposal(
        &mut self,
        temperature_check_id: u64,
        caller_is_owner: bool,
        current_time: u64,
    ) -> (result: Result<u64, GovernanceError>)
        requires
            old(self).wf(),
            current_time + old(self).governance_parameters.proposal_length_days * SECONDS_PER_DAY
                <= u64::MAX,
        ensures
            final(self).wf(),
            final(self).governance_parameters == old(self).governance_parameters,
            match old(self).make_proposal_err(temperature_check_id, caller_is_owner) {
                Some(e) => result == Err::<u64, GovernanceError>(e) && *final(self) == *old(self),
                None => {
                    &&& result == Ok::<u64, GovernanceError>(old(self).proposals@.len() as u64)
                    &&& proposal_created(
                        *old(self),
                        *final(self),
                        temperature_check_id,
                        current_time,
                        old(self).proposals@.len() as u64,
                    )
                },
            },
    {
        if !caller_is_owner {
            return Err(GovernanceError::NotAuthorized);
        }
        let n: usize = self.temperature_checks.len();
        if temperature_check_id >= n as u64 {
            return Err(GovernanceError::NotFound);
        }
        let idx: usize = temperature_check_id as usize;
        if self.temperature_checks[idx].elevated_proposal_id.is_some() {
            return Err(GovernanceError::AlreadyRecorded);
        }

        let ghost pre = *self;
        let proposal_id: u64 = self.proposals.len() as u64;
        let deadline: u64 = current_time + (self.governance_parameters.proposal_length_days
            as u64) * SECONDS_PER_DAY;

        let mut tc = self.temperature_checks.remove(idx);
        let proposal = Proposal {
            title: tc.title.clone(),
            description: tc.description.clone(),
            vote_options: copy_vote_options(&tc.vote_options),
            attachments: copy_files(&tc.attachments),
            rfc_url: tc.rfc_url.clone(),
            quorum: self.governance_parameters.proposal_quorum,
            approval_threshold: self.governance_parameters.proposal_approval_threshold,
            max_selections: tc.max_selections,
            votes: HashMap::new(),
            start: current_time,
            deadline,
            temperature_check_id,
        };
        tc.elevated_proposal_id = Some(proposal_id);
        self.temperature_checks.insert(idx, tc);
        self.proposals.push(proposal);

        proof {
            let post = *self;
            assert(post.temperature_checks@ =~= pre.temperature_checks@.update(
                idx as int,
                post.temperature_checks@[idx as int],
            ));
            assert(tc_with_elevation(
                pre.temperature_checks@[idx as int],
                post.temperature_checks@[idx as int],
                proposal_id,
            ));
            assert(proposal_from_tc(
                post.proposals@.last(),
                pre.temperature_checks@[idx as int],
                pre.governance_parameters,
                current_time,
                temperature_check_id,
            ));
            assert forall|j: int| 0 <= j < post.proposals@.len() implies {
                let t = (#[trigger] post.proposals@[j]).temperature_check_id;
                &&& t < post.temperature_checks@.len()
                &&& post.temperature_checks@[t as int].elevated_proposal_id == Some(j as u64)
            } by {
                if j < pre.proposals@.len() {
                    let t = pre.proposals@[j].temperature_check_id;
                    assert(pre.temperature_checks@[t as int].elevated_proposal_id == Some(
                        j as u64,
                    ));
                    assert(t != temperature_check_id);
                }
            }
            assert(post.wf());
        }
        Ok(proposal_id)
    }

    /// Records `account`'s binary choice on a temperature check. Rejects a
    /// missing presence proof, an unknown ballot, a vote outside the
    /// window `[start, deadline)`, and a second vote from the same
    /// account; a rejected call leaves the store unchanged.
    pub fn vote_on_temperature_check(
        &mut self,
        account: u64,
        temperature_check_id: u64,
        vote: TemperatureCheckVote,
        presence_verified: bool,
        current_time: u64,
    ) -> (result: Result<(), GovernanceError>)
        requires
            old(self).wf(),
        ensures
            final(self).wf(),
            final(self).governance_parameters == old(self).governance_parameters,
            final(self).proposals == old(self).proposals,
            match old(self).vote_on_temperature_check_err(
                account,
                temperature_check_id,
                presence_verified,
                current_time,
            ) {
                Some(e) => result == Err::<(), GovernanceError>(e) && *final(self) == *old(self),
                None => {
                    &&& result == Ok::<(), GovernanceError>(())
                    &&& final(self).temperature_checks@.len() == old(self).temperature_checks@.len()
                    &&& forall|i: int|
                        0 <= i < old(self).temperature_checks@.len() && i
                            != temperature_check_id ==> #[trigger] final(self).temperature_checks@[i] == old(self).temperature_checks@[i]
                    &&& tc_with_vote(
                        old(self).temperature_checks@[temperature_check_id as int],
                        final(self).temperature_checks@[temperature_check_id as int],
                        account,
                        vote,
                    )
                },
            },
    {
        if !presence_verified {
            return Err(GovernanceError::NotAuthorized);
        }
        let n: usize = self.temperature_checks.len();
        if temperature_check_id >= n as u64 {
            return Err(GovernanceError::NotFound);
        }
        let idx: usize = temperature_check_id as usize;
        if current_time < self.temperature_checks[idx].start {
            return Err(GovernanceError::WindowClosed);
        }
        if current_time >= self.temperature_checks[idx].deadline {
            return Err(GovernanceError::WindowClosed);
        }
        if self.temperature_checks[idx].votes.contains_key(&account) {
            return Err(GovernanceError::AlreadyRecorded);
        }

        let ghost pre = *self;
        let mut tc = self.temperature_checks.remove(idx);
        tc.votes.insert(account, vote);
        self.temperature_checks.insert(idx, tc);

        proof {
            let post = *self;
            assert(post.temperature_checks@ =~= pre.temperature_checks@.update(
                idx as int,
                post.temperature_checks@[idx as int],
            ));
            assert(tc_with_vote(
                pre.temperature_checks@[idx as int],
                post.temperature_checks@[idx as int],
                account,
                vote,
            ));
            assert(post.wf());
        }
        Ok(())
    }

    /// Records `account`'s selection set on a proposal. Rejects a missing
    /// presence proof, an unknown ballot, a vote outside the window
    /// `[start, deadline)`, a selection set the ballot does not accept,
    /// and a second vote from the same account; a rejected call leaves the
    /// store unchanged.
    pub fn vote_on_proposal(
        &mut self,
        account: u64,
        proposal_id: u64,
        selected_options: Vec<ProposalVoteOptionId>,
        presence_verified: bool,
        current_time: u64,
    ) -> (result: Result<(), GovernanceError>)
        requires
            old(self).wf(),
        ensures
            final(self).wf(),
            final(self).governance_parameters == old(self).governance_parameters,
            final(self).temperature_checks == old(self).temperature_checks,
            match old(self).vote_on_proposal_err(
                account,
                proposal_id,
                selected_options@,
                presence_verified,
                current_time,
            ) {
                Some(e) => result == Err::<(), GovernanceError>(e) && *final(self) == *old(self),
                None => {
                    &&& result == Ok::<(), GovernanceError>(())
                    &&& final(self).proposals@.len() == old(self).proposals@.len()
                    &&& forall|j: int|
                        0 <= j < old(self).proposals@.len() && j != proposal_id
                            ==> #[trigger] final(self).proposals@[j] == old(self).proposals@[j]
                    &&& proposal_with_vote(
                        old(self).proposals@[proposal_id as int],
                        final(self).proposals@[proposal_id as int],
                        account,
                        selected_options@,
                    )
                },
            },
    {
        if !presence_verified {
            return Err(GovernanceError::NotAuthorized);
        }
        let n: usize = self.proposals.len();
        if proposal_id >= n as u64 {
            return Err(GovernanceError::NotFound);
        }
        let idx: usize = proposal_id as usize;
        if current_time < self.proposals[idx].start {
            return Err(GovernanceError::WindowClosed);
        }
        if current_time >= self.proposals[idx].deadline {
            return Err(GovernanceError::WindowClosed);
        }
        if !check_selection(
            &self.proposals[idx].vote_options,
            self.proposals[idx].max_selections,
            &selected_options,
        ) {
            return Err(GovernanceError::ValidationError);
        }
        if self.proposals[idx].votes.contains_key(&account) {
            return Err(GovernanceError::AlreadyRecorded);
        }

        let ghost pre = *self;
        let ghost sels = selected_options@;
        let mut p = self.proposals.remove(idx);
        p.votes.insert(account, selected_options);
        self.proposals.insert(idx, p);

        proof {
            let post = *self;
            assert(post.proposals@ =~= pre.proposals@.update(
                idx as int,
                post.proposals@[idx as int],
            ));
            let newp = post.proposals@[idx as int];
            assert(newp.votes@.remove(account) =~= pre.proposals@[idx as int].votes@.remove(
                account,
            ));
            assert(proposal_with_vote(
                pre.proposals@[idx as int],
                post.proposals@[idx as int],
                account,
                sels,
            ));
            assert forall|a: u64| #[trigger] newp.votes@.contains_key(a) implies valid_selection(
                newp.vote_options@,
                newp.max_selections,
                newp.votes@[a]@,
            ) by {
                let oldp = pre.proposals@[idx as int];
                if a != account {
                    assert(oldp.votes@.contains_key(a));
                    assert(newp.votes@[a] == oldp.votes@[a]);
                }
            }
            assert(post.wf());
        }
        Ok(())
    }
}

/// Creation hands out dense, strictly increasing identifiers starting at
/// the store's size: two successful creations in a row return consecutive
/// ids, and each successful creation grows the count by exactly one.
pub proof fn lemma_creation_ids_sequential(
    s0: Governance,
    s1: Governance,
    s2: Governance,
    d1: TemperatureCheckDraft,
    d2: TemperatureCheckDraft,
    t1: u64,
    t2: u64,
    id1: u64,
    id2: u64,
)
    requires
        temperature_check_created(s0, s1, d1, t1, id1),
        temperature_check_created(s1, s2, d2, t2, id2),
    ensures
        id1 == s0.temperature_checks@.len(),
        id2 == id1 + 1,
        s2.temperature_checks@.len() == s0.temperature_checks@.len() + 2,
{
}

/// A temperature check is elevated at most once: right after a successful
/// elevation, every further attempt on the same check fails, and for the
/// privileged caller it fails with `AlreadyRecorded`.
pub proof fn lemma_elevate_at_most_once(
    pre: Governance,
    post: Governance,
    temperature_check_id: u64,
    now: u64,
    proposal_id: u64,
)
    requires
        temperature_check_id < pre.temperature_checks@.len(),
        proposal_created(pre, post, temperature_check_id, now, proposal_id),
    ensures
        post.make_proposal_err(temperature_check_id, true) == Some(
            GovernanceError::AlreadyRecorded,
        ),
        forall|owner: bool| #[trigger] post.make_proposal_err(temperature_check_id, owner)
            is Some,
{
}

/// An account votes on a temperature check at most once: while its choice
/// is recorded, every further attempt fails — inside the open window, with
/// `AlreadyRecorded` — so the recorded choice can never be revised.
pub proof fn lemma_second_temperature_check_vote_fails(
    s: Governance,
    account: u64,
    temperature_check_id: u64,
    now: u64,
)
    requires
        temperature_check_id < s.temperature_checks@.len(),
        s.temperature_checks@[temperature_check_id as int].votes@.contains_key(account),
    ensures
        forall|p: bool, t: u64| #[trigger] s.vote_on_temperature_check_err(
            account,
            temperature_check_id,
            p,
            t,
        ) is Some,
        s.temperature_checks@[temperature_check_id as int].start <= now
            && now < s.temperature_checks@[temperature_check_id as int].deadline
            ==> s.vote_on_temperature_check_err(account, temperature_check_id, true, now)
            == Some(GovernanceError::AlreadyRecorded),
{
}

/// An account votes on a proposal at most once: while its selection is
/// recorded, every further attempt fails, and inside the open window an
/// attempt with an acceptable selection fails with `AlreadyRecorded`.
pub proof fn lemma_second_proposal_vote_fails(
    s: Governance,
    account: u64,
    proposal_id: u64,
    now: u64,
)
    requires
        proposal_id < s.proposals@.len(),
        s.proposals@[proposal_id as int].votes@.contains_key(account),
    ensures
        forall|sels: Seq<ProposalVoteOptionId>, p: bool, t: u64| #[trigger] s.vote_on_proposal_err(
            account,
            proposal_id,
            sels,
            p,
            t,
        ) is Some,
        forall|sels: Seq<ProposalVoteOptionId>|
            s.proposals@[proposal_id as int].start <= now
                && now < s.proposals@[proposal_id as int].deadline
                && valid_selection(
                s.proposals@[proposal_id as int].vote_options@,
                s.proposals@[proposal_id as int].max_selections,
                sels,
            ) ==> #[trigger] s.vote_on_proposal_err(account, proposal_id, sels, true, now)
                == Some(GovernanceError::AlreadyRecorded),
{
}

/// The voting window is half-open: a vote before `start` or at or after
/// `deadline` fails with `WindowClosed`; at exactly `start` a first vote
/// from a present account is accepted.
pub proof fn lemma_temperature_check_vote_window(
    s: Governance,
    account: u64,
    temperature_check_id: u64,
    now: u64,
)
    requires
        temperature_check_id < s.temperature_checks@.len(),
    ensures
        now < s.temperature_checks@[temperature_check_id as int].start || now
            >= s.temperature_checks@[temperature_check_id as int].deadline
            ==> s.vote_on_temperature_check_err(account, temperature_check_id, true, now)
            == Some(GovernanceError::WindowClosed),
        now == s.temperature_checks@[temperature_check_id as int].start && now
            < s.temperature_checks@[temperature_check_id as int].deadline && !s.temperature_checks@[
            temperature_check_id as int
        ].votes@.contains_key(account)
            ==> s.vote_on_temperature_check_err(account, temperature_check_id, true, now)
            is None,
{
}

/// The proposal voting window behaves the same way: closed outside
/// `[start, deadline)`, and at exactly `start` a first, acceptable
/// selection from a present account is accepted.
pub proof fn lemma_proposal_vote_window(
    s: Governance,
    account: u64,
    proposal_id: u64,
    sels: Seq<ProposalVoteOptionId>,
    now: u64,
)
    requires
        proposal_id < s.proposals@.len(),
    ensures
        now < s.proposals@[proposal_id as int].start || now >= s.proposals@[proposal_id
            as int].deadline ==> s.vote_on_proposal_err(account, proposal_id, sels, true, now)
            == Some(GovernanceError::WindowClosed),
        now == s.proposals@[proposal_id as int].start && now < s.proposals@[proposal_id
            as int].deadline && valid_selection(
            s.proposals@[proposal_id as int].vote_options@,
            s.proposals@[proposal_id as int].max_selections,
            sels,
        ) && !s.proposals@[proposal_id as int].votes@.contains_key(account)
            ==> s.vote_on_proposal_err(account, proposal_id, sels, true, now) is None,
{
}

/// On a multiple-choice proposal allowing up to `n` selections, a vote
/// with `k` distinct valid option ids is accepted exactly when
/// `1 <= k <= n`; any duplicate id or id naming no option is rejected as
/// invalid whatever its count.
pub proof fn lemma_multiple_choice_selection(
    s: Governance,
    account: u64,
    proposal_id: u64,
    sels: Seq<ProposalVoteOptionId>,
    now: u64,
    n: u32,
)
    requires
        proposal_id < s.proposals@.len(),
        s.proposals@[proposal_id as int].max_selections == Some(n),
        s.proposals@[proposal_id as int].start <= now,
        now < s.proposals@[proposal_id as int].deadline,
        !s.proposals@[proposal_id as int].votes@.contains_key(account),
    ensures
        distinct_selection(sels) && (forall|i: int|
            0 <= i < sels.len() ==> option_ids_contain(
                s.proposals@[proposal_id as int].vote_options@,
                #[trigger] sels[i],
            )) ==> (s.vote_on_proposal_err(account, proposal_id, sels, true, now) is None <==> 1
            <= sels.len() <= n),
        !distinct_selection(sels) || (exists|i: int|
            0 <= i < sels.len() && !option_ids_contain(
                s.proposals@[proposal_id as int].vote_options@,
                #[trigger] sels[i],
            )) ==> s.vote_on_proposal_err(account, proposal_id, sels, true, now) == Some(
            GovernanceError::ValidationError,
        ),
{
}

} // verus!
