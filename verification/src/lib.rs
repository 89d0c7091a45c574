//! Core of an on-chain governance workflow: a two-stage proposal process
//! (temperature check, then an elevated proposal) with time-boxed voting, and
//! an independent vote-delegation registry.
//!
//! The environment (storage, clock, caller authentication, event delivery) is
//! outside this crate. Operations take the current time and the verdicts of
//! the environment's authentication checks as plain arguments, mutate plain
//! in-memory stores, and report every failure through [`GovernanceError`].
//!
//! Amounts such as delegation fractions and vote thresholds are fixed-point
//! decimals held in `u128` atto units: [`FRACTION_ONE`] stands for 1.0.
//! Timestamps are seconds, accounts are opaque numeric identifiers.

use vstd::prelude::*;

pub mod governance;
pub mod vote_delegation;

verus! {

/// 1.0 as a fixed-point decimal with eighteen fractional digits.
pub const FRACTION_ONE: u128 = 1_000_000_000_000_000_000;

/// Maximum number of vote options per ballot.
pub const MAX_VOTE_OPTIONS: usize = 10;

/// Maximum number of attachments per ballot.
pub const MAX_ATTACHMENTS: usize = 10;

/// Maximum number of delegation entries one delegator may hold, expired
/// ones included: expired entries are only discounted, never purged, and
/// this cap bounds their accumulation.
pub const MAX_DELEGATIONS: usize = 50;

/// Reference to an attachment kept in external storage; the core passes it
/// through without ever interpreting it.
pub struct File {
    pub kvs_address: String,
    pub component_address: String,
    pub file_hash: String,
}

/// The binary choice recorded on a temperature check.
#[derive(Clone, Copy, Debug, PartialEq, Eq, Structural)]
pub enum TemperatureCheckVote {
    For,
    Against,
}

/// Caller-assigned identifier of a vote option within one ballot.
#[derive(Clone, Copy, Debug, PartialEq, Eq, Structural)]
pub struct ProposalVoteOptionId(pub u32);

/// A labelled vote option of a ballot.
pub struct ProposalVoteOption {
    pub id: ProposalVoteOptionId,
    pub label: String,
}

/// Input for creating a temperature check.
pub struct TemperatureCheckDraft {
    pub title: String,
    pub description: String,
    pub vote_options: Vec<ProposalVoteOption>,
    pub attachments: Vec<File>,
    pub rfc_url: String,
    /// `None`: exactly one option may be selected when voting on the elevated
    /// proposal; `Some(n)`: up to `n` options may be selected.
    pub max_selections: Option<u32>,
}

/// The live parameter set used when new ballots are created. Each ballot
/// snapshots the values of its tier at creation time.
#[derive(Clone, Copy, Debug, PartialEq, Eq, Structural)]
pub struct GovernanceParameters {
    pub temperature_check_days: u16,
    pub temperature_check_quorum: u128,
    pub temperature_check_approval_threshold: u128,
    pub proposal_length_days: u16,
    pub proposal_quorum: u128,
    pub proposal_approval_threshold: u128,
}

/// A stored temperature check: the non-binding first stage of a proposal.
pub struct TemperatureCheck {
    pub title: String,
    pub description: String,
    pub vote_options: Vec<ProposalVoteOption>,
    pub attachments: Vec<File>,
    pub rfc_url: String,
    pub quorum: u128,
    pub approval_threshold: u128,
    /// `None`: single choice; `Some(n)`: up to `n` choices on the proposal.
    pub max_selections: Option<u32>,
    /// One binary choice per account; the map key is the voter.
    pub votes: std::collections::HashMap<u64, TemperatureCheckVote>,
    pub start: u64,
    pub deadline: u64,
    /// Set exactly once, when the check is elevated to a proposal.
    pub elevated_proposal_id: Option<u64>,
}

/// A stored proposal: the binding second stage, created by elevating a
/// temperature check.
pub struct Proposal {
    pub title: String,
    pub description: String,
    pub vote_options: Vec<ProposalVoteOption>,
    pub attachments: Vec<File>,
    pub rfc_url: String,
    pub quorum: u128,
    pub approval_threshold: u128,
    /// `None`: single choice; `Some(n)`: up to `n` choices.
    pub max_selections: Option<u32>,
    /// The selected option ids per account; the map key is the voter.
    pub votes: std::collections::HashMap<u64, Vec<ProposalVoteOptionId>>,
    pub start: u64,
    pub deadline: u64,
    /// The temperature check this proposal was elevated from.
    pub temperature_check_id: u64,
}

/// One delegation entry owned by a delegator.
#[derive(Clone, Copy, Debug, PartialEq, Eq, Structural)]
pub struct Delegation {
    pub delegatee: u64,
    /// Fraction of the delegator's voting weight, in `(0, FRACTION_ONE]`.
    pub fraction: u128,
    /// The entry counts toward the delegator's cap while `valid_until` is
    /// strictly in the future.
    pub valid_until: u64,
}

/// Why an operation was rejected. Every rejection leaves the store unchanged.
#[derive(Clone, Copy, Debug, PartialEq, Eq, Structural)]
pub enum GovernanceError {
    /// Malformed input: empty title or description, too many options or
    /// attachments, an invalid or oversized selection set, an out-of-range
    /// fraction, a delegation to oneself, or an expiry not in the future.
    ValidationError,
    /// The referenced ballot or delegation record does not exist.
    NotFound,
    /// The caller's presence proof or privilege check failed.
    NotAuthorized,
    /// A vote arrived before the ballot's start or at/after its deadline.
    WindowClosed,
    /// A second vote on the same ballot, or a second elevation of the same
    /// temperature check.
    AlreadyRecorded,
    /// The delegation would push the delegator's committed fraction over 1.
    CapExceeded,
}

// Notifications describing each successful mutating operation, for an
// optional external event sink; delivering them is the environment's job.

/// A temperature check was created.
pub struct TemperatureCheckCreatedEvent {
    pub temperature_check_id: u64,
    pub title: String,
    pub start: u64,
    pub deadline: u64,
}

/// A vote was cast on a temperature check.
pub struct TemperatureCheckVotedEvent {
    pub temperature_check_id: u64,
    pub account: u64,
    pub vote: TemperatureCheckVote,
}

/// A temperature check was elevated to a proposal.
pub struct ProposalCreatedEvent {
    pub proposal_id: u64,
    pub temperature_check_id: u64,
    pub title: String,
    pub start: u64,
    pub deadline: u64,
}

/// A vote was cast on a proposal.
pub struct ProposalVotedEvent {
    pub proposal_id: u64,
    pub account: u64,
    pub votes: Vec<ProposalVoteOptionId>,
}

/// The live governance parameters were replaced.
pub struct GovernanceParametersUpdatedEvent {
    pub new_params: GovernanceParameters,
}

/// A delegation was created or replaced.
pub struct DelegationCreatedEvent {
    pub delegator: u64,
    pub delegatee: u64,
    pub fraction: u128,
    pub valid_until: u64,
}

/// A delegation was removed.
pub struct DelegationRemovedEvent {
    pub delegator: u64,
    pub delegatee: u64,
}

impl TemperatureCheckDraft {
    /// The input constraints checked when a temperature check is created.
    pub open spec fn valid(self) -> bool {
        &&& self.title@.len() > 0
        &&& self.description@.len() > 0
        &&& self.vote_options@.len() >= 1
        &&& self.vote_options@.len() <= MAX_VOTE_OPTIONS
        &&& self.attachments@.len() <= MAX_ATTACHMENTS
    }
}

/// Whether `id` names one of `options`.
pub open spec fn option_ids_contain(options: Seq<ProposalVoteOption>, id: ProposalVoteOptionId) -> bool {
    exists|k: int| 0 <= k < options.len() && options[k].id == id
}

/// Whether a selection set holds no option id twice.
pub open spec fn distinct_selection(sels: Seq<ProposalVoteOptionId>) -> bool {
    forall|i: int, j: int| 0 <= i < j < sels.len() ==> sels[i] != sels[j]
}

/// How many options one vote may select: exactly one when `max_selections`
/// is absent, otherwise between one and the configured bound.
pub open spec fn selection_count_allowed(max_selections: Option<u32>, k: nat) -> bool {
    match max_selections {
        Some(n) => 1 <= k && k <= n,
        None => k == 1,
    }
}

/// A selection set a proposal accepts: distinct ids, each naming one of the
/// proposal's options, of a permitted size.
pub open spec fn valid_selection(
    options: Seq<ProposalVoteOption>,
    max_selections: Option<u32>,
    sels: Seq<ProposalVoteOptionId>,
) -> bool {
    &&& distinct_selection(sels)
    &&& forall|i: int| 0 <= i < sels.len() ==> option_ids_contain(options, #[trigger] sels[i])
    &&& selection_count_allowed(max_selections, sels.len())
}

impl TemperatureCheck {
    /// Shape every stored temperature check keeps: a non-degenerate voting
    /// window and the creation-time input constraints.
    pub open spec fn wf(self) -> bool {
        &&& self.start <= self.deadline
        &&& self.title@.len() > 0
        &&& self.description@.len() > 0
        &&& self.vote_options@.len() >= 1
        &&& self.vote_options@.len() <= MAX_VOTE_OPTIONS
        &&& self.attachments@.len() <= MAX_ATTACHMENTS
    }
}

impl Proposal {
    /// Shape every stored proposal keeps: the creation-time constraints, and
    /// only validated selection sets in the vote store.
    pub open spec fn wf(self) -> bool {
        &&& self.start <= self.deadline
        &&& self.title@.len() > 0
        &&& self.description@.len() > 0
        &&& self.vote_options@.len() >= 1
        &&& self.vote_options@.len() <= MAX_VOTE_OPTIONS
        &&& self.attachments@.len() <= MAX_ATTACHMENTS
        &&& forall|a: u64| #[trigger] self.votes@.contains_key(a)
            ==> valid_selection(self.vote_options@, self.max_selections, self.votes@[a]@)
    }
}

} // verus!
